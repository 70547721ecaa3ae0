use top_liner::arbiter::{NoteOnValues, PlayingState, TopLiner, WINDOW};
use top_liner::event::{Emitted, Event};

type Ev = Event<u32>;

fn vel(v: f32) -> u32 {
    v.to_bits()
}

fn on(timing: u32, channel: u8, note: u8, velocity: f32) -> Ev {
    Event::NoteOn { timing, voice_id: None, channel, note, velocity: vel(velocity) }
}

fn on_voice(timing: u32, voice: i32, channel: u8, note: u8, velocity: f32) -> Ev {
    Event::NoteOn { timing, voice_id: Some(voice), channel, note, velocity: vel(velocity) }
}

fn off(timing: u32, channel: u8, note: u8) -> Ev {
    Event::NoteOff { timing, voice_id: None, channel, note, velocity: vel(0.0) }
}

fn choke(timing: u32, channel: u8, note: u8) -> Ev {
    Event::Choke { timing, voice_id: None, channel, note }
}

fn holding(channel: u8, note: u8) -> TopLiner {
    TopLiner { playing_state: PlayingState::Playing { channel, note } }
}

#[test]
fn single_note_sounds_after_window() {
    let mut t = TopLiner::new();
    let out = t.process_block(vec![on(0, 0, 60, 0.8)], 2048);
    assert_eq!(out, vec![on(1024, 0, 60, 0.8)]);
    assert_eq!(t.playing_state, PlayingState::Playing { channel: 0, note: 60 });
}

#[test]
fn default_is_idle() {
    let t = TopLiner::default();
    assert_eq!(t.playing_state, PlayingState::NotPlaying);
}

#[test]
fn window_constant() {
    assert_eq!(WINDOW, 1024);
}

#[test]
fn note_on_opens_window() {
    let mut t = TopLiner::new();
    let out = t.handle_event(on_voice(10, 7, 2, 64, 0.5));
    assert_eq!(out, Emitted::Nothing);
    assert_eq!(
        t.playing_state,
        PlayingState::ChordDetecting {
            deadline: 1034,
            best_note: 64,
            captured: NoteOnValues { timing: 10, voice_id: Some(7), channel: 2, velocity: vel(0.5) },
        }
    );
}

#[test]
fn chord_pick_takes_highest_with_its_values() {
    let mut t = TopLiner::new();
    let evs = vec![
        on_voice(0, 1, 0, 60, 0.3),
        on_voice(5, 2, 1, 67, 0.6),
        on_voice(9, 3, 2, 64, 0.9),
    ];
    let out = t.process_block(evs, 4096);
    assert_eq!(out, vec![on_voice(1024, 2, 1, 67, 0.6)]);
    assert_eq!(t.playing_state, PlayingState::Playing { channel: 1, note: 67 });
}

#[test]
fn chord_pick_highest_arriving_last() {
    let mut t = TopLiner::new();
    let evs = vec![on(100, 0, 48, 0.1), on(300, 0, 52, 0.2), on(1000, 3, 72, 0.7)];
    let out = t.process_block(evs, 2048);
    // sounds at the window's end, not at the winner's own timing
    assert_eq!(out, vec![on(1124, 3, 72, 0.7)]);
}

#[test]
fn equal_note_does_not_replace_candidate() {
    let mut t = TopLiner::new();
    t.handle_event(on(0, 0, 60, 0.5));
    t.handle_event(on(1, 5, 60, 0.9));
    let out = t.advance_block::<u32>(2048);
    assert_eq!(out, Some(on(1024, 0, 60, 0.5)));
}

#[test]
fn window_ends_in_later_block() {
    let mut t = TopLiner::new();
    let out = t.process_block(vec![on(100, 0, 60, 0.8)], 512);
    assert_eq!(out, vec![]);
    match t.playing_state {
        PlayingState::ChordDetecting { deadline, .. } => assert_eq!(deadline, 1124 - 512),
        _ => panic!("window should still be open"),
    }
    let out = t.process_block::<u32>(vec![], 512);
    assert_eq!(out, vec![]);
    match t.playing_state {
        PlayingState::ChordDetecting { deadline, .. } => assert_eq!(deadline, 100),
        _ => panic!("window should still be open"),
    }
    let out = t.process_block::<u32>(vec![], 512);
    assert_eq!(out, vec![on(100, 0, 60, 0.8)]);
    // 512 + 512 + 100 == 100 + 1024
    assert_eq!(512 + 512 + 100, 100 + WINDOW);
    assert_eq!(t.playing_state, PlayingState::Playing { channel: 0, note: 60 });
}

#[test]
fn window_ending_exactly_at_block_end_waits() {
    let mut t = TopLiner::new();
    let out = t.process_block(vec![on(0, 0, 60, 0.8)], 1024);
    assert_eq!(out, vec![]);
    let out = t.process_block::<u32>(vec![], 1);
    assert_eq!(out, vec![on(0, 0, 60, 0.8)]);
}

#[test]
fn empty_block_is_no_op() {
    let mut t = TopLiner::new();
    t.handle_event(on(3, 0, 60, 0.8));
    let before = t.playing_state;
    let out = t.advance_block::<u32>(0);
    assert_eq!(out, None);
    assert_eq!(t.playing_state, before);
}

#[test]
fn advance_while_idle_or_holding_does_nothing() {
    let mut t = TopLiner::new();
    assert_eq!(t.advance_block::<u32>(100), None);
    assert_eq!(t.playing_state, PlayingState::NotPlaying);
    let mut h = holding(0, 60);
    assert_eq!(h.advance_block::<u32>(100), None);
    assert_eq!(h.playing_state, PlayingState::Playing { channel: 0, note: 60 });
}

#[test]
fn note_off_abandons_chord() {
    let mut t = TopLiner::new();
    t.handle_event(on(0, 0, 60, 0.8));
    let out = t.handle_event(off(5, 4, 30));
    assert_eq!(out, Emitted::Nothing);
    assert_eq!(t.playing_state, PlayingState::NotPlaying);
    let out = t.handle_event(on(20, 1, 50, 0.4));
    assert_eq!(out, Emitted::Nothing);
    match t.playing_state {
        PlayingState::ChordDetecting { deadline, best_note, .. } => {
            assert_eq!(deadline, 1044);
            assert_eq!(best_note, 50);
        }
        _ => panic!("a fresh window should be open"),
    }
}

#[test]
fn choke_abandons_chord() {
    let mut t = TopLiner::new();
    let out = t.process_block(vec![on(0, 0, 60, 0.8), choke(1, 0, 60)], 4096);
    assert_eq!(out, vec![]);
    assert_eq!(t.playing_state, PlayingState::NotPlaying);
}

#[test]
fn higher_note_replaces_held() {
    let mut t = holding(0, 60);
    let new_on = on_voice(40, 9, 3, 65, 0.7);
    let out = t.handle_event(new_on);
    let expected_off =
        Event::NoteOff { timing: 40, voice_id: Some(9), channel: 0, note: 60, velocity: vel(0.7) };
    assert_eq!(out, Emitted::Two(expected_off, new_on));
    assert_eq!(out.into_vec(), vec![expected_off, new_on]);
    assert_eq!(t.playing_state, PlayingState::Playing { channel: 3, note: 65 });
}

#[test]
fn lower_or_equal_note_dropped_while_holding() {
    let mut t = holding(0, 60);
    assert_eq!(t.handle_event(on(0, 0, 59, 0.7)), Emitted::Nothing);
    assert_eq!(t.handle_event(on(0, 1, 60, 0.7)), Emitted::Nothing);
    assert_eq!(t.playing_state, PlayingState::Playing { channel: 0, note: 60 });
}

#[test]
fn release_of_held_note_forwarded() {
    let mut t = holding(2, 60);
    let ev = off(12, 2, 60);
    assert_eq!(t.handle_event(ev), Emitted::One(ev));
    assert_eq!(t.playing_state, PlayingState::NotPlaying);
    let mut c = holding(2, 60);
    let ev = choke(12, 2, 60);
    assert_eq!(c.handle_event(ev), Emitted::One(ev));
    assert_eq!(c.playing_state, PlayingState::NotPlaying);
}

#[test]
fn release_of_other_key_ignored() {
    let mut t = holding(2, 60);
    assert_eq!(t.handle_event(off(12, 2, 61)), Emitted::Nothing);
    assert_eq!(t.handle_event(off(12, 3, 60)), Emitted::Nothing);
    assert_eq!(t.playing_state, PlayingState::Playing { channel: 2, note: 60 });
}

#[test]
fn release_while_idle_ignored() {
    let mut t = TopLiner::new();
    assert_eq!(t.handle_event(off(0, 0, 60)), Emitted::Nothing);
    assert_eq!(t.handle_event(off(0, 0, 60)), Emitted::Nothing);
    assert_eq!(t.playing_state, PlayingState::NotPlaying);
}

#[test]
fn other_events_pass_through_in_order() {
    let mut t = holding(0, 60);
    let evs = vec![
        Event::Other(1),
        on(10, 0, 64, 0.5),
        Event::Other(2),
        off(20, 0, 50),
        Event::Other(3),
        off(30, 0, 64),
    ];
    let out = t.process_block(evs, 64);
    assert_eq!(
        out,
        vec![
            Event::Other(1),
            Event::NoteOff { timing: 10, voice_id: None, channel: 0, note: 60, velocity: vel(0.5) },
            on(10, 0, 64, 0.5),
            Event::Other(2),
            Event::Other(3),
            off(30, 0, 64),
        ]
    );
    assert_eq!(t.playing_state, PlayingState::NotPlaying);
}

#[test]
fn other_event_leaves_state() {
    let mut t = TopLiner::new();
    t.handle_event(on(0, 0, 60, 0.8));
    let before = t.playing_state;
    assert_eq!(t.handle_event(Event::Other(42)), Emitted::One(Event::Other(42)));
    assert_eq!(t.playing_state, before);
}

#[test]
fn late_note_on_near_block_end_does_not_overflow() {
    let mut t = TopLiner::new();
    let out = t.process_block(vec![on(u32::MAX - 1, 0, 60, 0.8)], u32::MAX);
    assert_eq!(out, vec![]);
    match t.playing_state {
        PlayingState::ChordDetecting { deadline, .. } => {
            assert_eq!(deadline, u32::MAX as u64 - 1 + 1024 - u32::MAX as u64)
        }
        _ => panic!("window should still be open"),
    }
}
