use vstd::prelude::*;

use crate::event::{Emitted, Event};
use crate::laws::lemma_block_timed;

verus! {

/// Frames, counted from the first note-on of a prospective chord, during
/// which a higher note of the same chord still replaces the candidate.
pub const WINDOW: u64 = 1024;

/// What is kept of a note-on so that it can be sent later with another note
/// number and timing.
#[derive(Clone, Copy, Debug, PartialEq, Eq)]
pub struct NoteOnValues {
    pub timing: u32,
    pub voice_id: Option<i32>,
    pub channel: u8,
    pub velocity: u32,
}

/// The arbitration state.
///
/// `ChordDetecting::deadline` is the frame at which the window closes,
/// counted from the start of the block being processed.
#[derive(Clone, Copy, Debug, PartialEq, Eq)]
pub enum PlayingState {
    NotPlaying,
    ChordDetecting { deadline: u64, best_note: u8, captured: NoteOnValues },
    Playing { channel: u8, note: u8 },
}

/// The note arbitration engine: collapses overlapping notes into one
/// monophonic voice where the highest note wins.
#[derive(Debug)]
pub struct TopLiner {
    pub playing_state: PlayingState,
}

impl Default for TopLiner {
    fn default() -> (r: TopLiner)
        ensures
            r.playing_state == PlayingState::NotPlaying,
    {
        TopLiner::new()
    }
}

/// The values captured from a note-on.
pub open spec fn capture(timing: u32, voice_id: Option<i32>, channel: u8, velocity: u32) -> NoteOnValues {
    NoteOnValues { timing, voice_id, channel, velocity }
}

/// The state after a note-on in `s`, and what is sent for it.
pub open spec fn note_on_step<O>(s: PlayingState, ev: Event<O>) -> (PlayingState, Seq<Event<O>>)
    recommends
        ev is NoteOn,
{
    match ev {
        Event::NoteOn { timing, voice_id, channel, note, velocity } => match s {
            PlayingState::NotPlaying => (
                PlayingState::ChordDetecting {
                    deadline: (timing + WINDOW) as u64,
                    best_note: note,
                    captured: capture(timing, voice_id, channel, velocity),
                },
                seq![],
            ),
            PlayingState::ChordDetecting { deadline, best_note, captured } => if note > best_note {
                (
                    PlayingState::ChordDetecting {
                        deadline,
                        best_note: note,
                        captured: capture(timing, voice_id, channel, velocity),
                    },
                    seq![],
                )
            } else {
                (s, seq![])
            },
            PlayingState::Playing { channel: held_channel, note: held_note } => if note > held_note {
                (
                    PlayingState::Playing { channel, note },
                    seq![
                        Event::NoteOff {
                            timing,
                            voice_id,
                            channel: held_channel,
                            note: held_note,
                            velocity,
                        },
                        ev,
                    ],
                )
            } else {
                (s, seq![])
            },
        },
        _ => (s, seq![]),
    }
}

/// The state after a note-off or choke of `(channel, note)` in `s`, and
/// what is sent for it.
pub open spec fn release_step<O>(s: PlayingState, channel: u8, note: u8, ev: Event<O>) -> (
    PlayingState,
    Seq<Event<O>>,
) {
    match s {
        PlayingState::NotPlaying => (s, seq![]),
        PlayingState::ChordDetecting { .. } => (PlayingState::NotPlaying, seq![]),
        PlayingState::Playing { channel: held_channel, note: held_note } => if held_channel
            == channel && held_note == note {
            (PlayingState::NotPlaying, seq![ev])
        } else {
            (s, seq![])
        },
    }
}

/// One input event: the next state and the events sent, in order.
pub open spec fn step<O>(s: PlayingState, ev: Event<O>) -> (PlayingState, Seq<Event<O>>) {
    match ev {
        Event::NoteOn { .. } => note_on_step(s, ev),
        Event::NoteOff { channel, note, .. } => release_step(s, channel, note, ev),
        Event::Choke { channel, note, .. } => release_step(s, channel, note, ev),
        Event::Other(_) => (s, seq![ev]),
    }
}

/// The end of a block of `num_samples` frames: the next state and the
/// note-on sent, if the chord window closes inside the block.
pub open spec fn advance<O>(s: PlayingState, num_samples: u32) -> (PlayingState, Option<Event<O>>) {
    match s {
        PlayingState::ChordDetecting { deadline, best_note, captured } => if deadline < num_samples {
            (
                PlayingState::Playing { channel: captured.channel, note: best_note },
                Some(
                    Event::NoteOn {
                        timing: deadline as u32,
                        voice_id: captured.voice_id,
                        channel: captured.channel,
                        note: best_note,
                        velocity: captured.velocity,
                    },
                ),
            )
        } else {
            (
                PlayingState::ChordDetecting {
                    deadline: (deadline - num_samples) as u64,
                    best_note,
                    captured,
                },
                None,
            )
        },
        _ => (s, None),
    }
}

/// A sequence of input events handled in order from `s`: the state reached
/// and everything sent, in order.
pub open spec fn run<O>(s: PlayingState, evs: Seq<Event<O>>) -> (PlayingState, Seq<Event<O>>)
    decreases evs.len(),
{
    if evs.len() == 0 {
        (s, seq![])
    } else {
        let before = run(s, evs.drop_last());
        let last = step(before.0, evs.last());
        (last.0, before.1 + last.1)
    }
}

/// The events of an optional one.
pub open spec fn opt_seq<O>(e: Option<Event<O>>) -> Seq<Event<O>> {
    match e {
        Some(ev) => seq![ev],
        None => seq![],
    }
}

/// A whole block: its input events handled in order, then its end.
pub open spec fn block<O>(s: PlayingState, evs: Seq<Event<O>>, num_samples: u32) -> (
    PlayingState,
    Seq<Event<O>>,
) {
    let handled = run(s, evs);
    let ended = advance::<O>(handled.0, num_samples);
    (ended.0, handled.1 + opt_seq(ended.1))
}

impl TopLiner {
    /// An engine with nothing held or pending.
    pub fn new() -> (r: TopLiner)
        ensures
            r.playing_state == PlayingState::NotPlaying,
    {
        TopLiner { playing_state: PlayingState::NotPlaying }
    }

    /// Takes one input event of the block and returns what is sent for it.
    pub fn handle_event<O>(&mut self, ev: Event<O>) -> (out: Emitted<O>)
        ensures
            (final(self).playing_state, out@) == step(old(self).playing_state, ev),
    {
        match ev {
            Event::NoteOn { timing, voice_id, channel, note, velocity } => {
                match self.playing_state {
                    PlayingState::NotPlaying => {
                        self.playing_state = PlayingState::ChordDetecting {
                            deadline: timing as u64 + WINDOW,
                            best_note: note,
                            captured: NoteOnValues { timing, voice_id, channel, velocity },
                        };
                        Emitted::Nothing
                    },
                    PlayingState::ChordDetecting { deadline, best_note, .. } => {
                        if note > best_note {
                            self.playing_state = PlayingState::ChordDetecting {
                                deadline,
                                best_note: note,
                                captured: NoteOnValues { timing, voice_id, channel, velocity },
                            };
                        }
                        Emitted::Nothing
                    },
                    PlayingState::Playing { channel: held_channel, note: held_note } => {
                        if note > held_note {
                            self.playing_state = PlayingState::Playing { channel, note };
                            let off = Event::NoteOff {
                                timing,
                                voice_id,
                                channel: held_channel,
                                note: held_note,
                                velocity,
                            };
                            Emitted::Two(off, ev)
                        } else {
                            Emitted::Nothing
                        }
                    },
                }
            },
            Event::NoteOff { channel, note, .. } => self.release(channel, note, ev),
            Event::Choke { channel, note, .. } => self.release(channel, note, ev),
            Event::Other(_) => Emitted::One(ev),
        }
    }

    fn release<O>(&mut self, channel: u8, note: u8, ev: Event<O>) -> (out: Emitted<O>)
        ensures
            (final(self).playing_state, out@) == release_step(
                old(self).playing_state,
                channel,
                note,
                ev,
            ),
    {
        match self.playing_state {
            PlayingState::NotPlaying => Emitted::Nothing,
            PlayingState::ChordDetecting { .. } => {
                self.playing_state = PlayingState::NotPlaying;
                Emitted::Nothing
            },
            PlayingState::Playing { channel: held_channel, note: held_note } => {
                if held_channel == channel && held_note == note {
                    self.playing_state = PlayingState::NotPlaying;
                    Emitted::One(ev)
                } else {
                    Emitted::Nothing
                }
            },
        }
    }

    /// Ends a block of `num_samples` frames, after all its input events were
    /// handled; returns the chord's note-on if the window closes in it.
    pub fn advance_block<O>(&mut self, num_samples: u32) -> (out: Option<Event<O>>)
        ensures
            (final(self).playing_state, out) == advance::<O>(old(self).playing_state, num_samples),
    {
        match self.playing_state {
            PlayingState::ChordDetecting { deadline, best_note, captured } => {
                if deadline < num_samples as u64 {
                    self.playing_state = PlayingState::Playing {
                        channel: captured.channel,
                        note: best_note,
                    };
                    Some(
                        Event::NoteOn {
                            timing: deadline as u32,
                            voice_id: captured.voice_id,
                            channel: captured.channel,
                            note: best_note,
                            velocity: captured.velocity,
                        },
                    )
                } else {
                    self.playing_state = PlayingState::ChordDetecting {
                        deadline: deadline - num_samples as u64,
                        best_note,
                        captured,
                    };
                    None
                }
            },
            _ => None,
        }
    }
    /// Processes one block: each input event in order, then the block's end.
    /// Returns every event sent, in order.
    pub fn process_block<O>(&mut self, events: Vec<Event<O>>, num_samples: u32) -> (out: Vec<
        Event<O>,
    >)
        ensures
            (final(self).playing_state, out@) == block(
                old(self).playing_state,
                events@,
                num_samples,
            ),
            (forall|i: int| 0 <= i < events@.len() ==> (#[trigger] events@[i]).timed_before(
                num_samples,
            )) ==> forall|j: int| 0 <= j < out@.len() ==> (#[trigger] out@[j]).timed_before(
                num_samples,
            ),
    {
        let ghost input = events@;
        let mut events = events;
        let mut pending: Vec<Event<O>> = Vec::new();
        while events.len() > 0
            invariant
                pending@.len() + events@.len() == input.len(),
                events@ == input.subrange(0, events@.len() as int),
                forall|k: int|
                    0 <= k < pending@.len() ==> pending@[k] == input[input.len() - 1 - k],
            decreases events@.len(),
        {
            let ev = events.pop().unwrap();
            pending.push(ev);
        }
        let mut out: Vec<Event<O>> = Vec::new();
        proof {
            assert(input.subrange(0, 0) =~= Seq::<Event<O>>::empty());
        }
        while pending.len() > 0
            invariant
                pending@.len() <= input.len(),
                forall|k: int|
                    0 <= k < pending@.len() ==> pending@[k] == input[input.len() - 1 - k],
                (self.playing_state, out@) == run(
                    old(self).playing_state,
                    input.subrange(0, input.len() - pending@.len()),
                ),
            decreases pending@.len(),
        {
            let ghost done = input.len() - pending@.len();
            let ev = pending.pop().unwrap();
            proof {
                assert(input.subrange(0, done + 1).drop_last() =~= input.subrange(0, done));
            }
            let sent = self.handle_event(ev);
            let mut sent = sent.into_vec();
            out.append(&mut sent);
        }
        proof {
            assert(input.subrange(0, input.len() as int) =~= input);
        }
        let ended = self.advance_block(num_samples);
        match ended {
            Some(e) => {
                out.push(e);
            },
            None => {},
        }
        proof {
            let whole = block(old(self).playing_state, input, num_samples);
            assert((self.playing_state, out@) == whole);
            lemma_block_timed(old(self).playing_state, input, num_samples);
            assert((forall|i: int| 0 <= i < input.len() ==> (#[trigger] input[i]).timed_before(
                num_samples,
            )) ==> forall|j: int| 0 <= j < whole.1.len() ==> (#[trigger] whole.1[j]).timed_before(
                num_samples,
            ));
        }
        out
    }
}

} // verus!
