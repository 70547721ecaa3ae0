use vstd::prelude::*;

use crate::arbiter::{advance, block, capture, opt_seq, run, step, NoteOnValues, PlayingState, WINDOW};
use crate::event::Event;

verus! {

/// Every event sent for an input event carries a timing of an input event.
pub proof fn lemma_step_timed<O>(s: PlayingState, ev: Event<O>, num_samples: u32)
    requires
        ev.timed_before(num_samples),
    ensures
        forall|j: int|
            0 <= j < step(s, ev).1.len() ==> (#[trigger] step(s, ev).1[j]).timed_before(
                num_samples,
            ),
{
}

/// Handling events whose timings lie inside the block sends only such events.
pub proof fn lemma_run_timed<O>(s: PlayingState, evs: Seq<Event<O>>, num_samples: u32)
    requires
        forall|i: int| 0 <= i < evs.len() ==> (#[trigger] evs[i]).timed_before(num_samples),
    ensures
        forall|j: int|
            0 <= j < run(s, evs).1.len() ==> (#[trigger] run(s, evs).1[j]).timed_before(
                num_samples,
            ),
    decreases evs.len(),
{
    if evs.len() > 0 {
        let before = run(s, evs.drop_last());
        lemma_run_timed(s, evs.drop_last(), num_samples);
        assert(evs.last() == evs[evs.len() - 1]);
        lemma_step_timed(before.0, evs.last(), num_samples);
        let sent = step(before.0, evs.last()).1;
        assert forall|j: int| 0 <= j < run(s, evs).1.len() implies (#[trigger] run(
            s,
            evs,
        ).1[j]).timed_before(num_samples) by {
            if j >= before.1.len() {
                assert(run(s, evs).1[j] == sent[j - before.1.len()]);
            } else {
                assert(run(s, evs).1[j] == before.1[j]);
            }
        }
    }
}

/// A block whose input events lie inside it sends only events inside it:
/// the closing note-on of a chord falls before the block's end.
pub proof fn lemma_block_timed<O>(s: PlayingState, evs: Seq<Event<O>>, num_samples: u32)
    ensures
        (forall|i: int| 0 <= i < evs.len() ==> (#[trigger] evs[i]).timed_before(num_samples))
            ==> forall|j: int|
            0 <= j < block(s, evs, num_samples).1.len() ==> (#[trigger] block(
                s,
                evs,
                num_samples,
            ).1[j]).timed_before(num_samples),
{
    if forall|i: int| 0 <= i < evs.len() ==> (#[trigger] evs[i]).timed_before(num_samples) {
        lemma_run_timed(s, evs, num_samples);
        let handled = run(s, evs);
        let tail = opt_seq(advance::<O>(handled.0, num_samples).1);
        assert forall|j: int| 0 <= j < block(s, evs, num_samples).1.len() implies (#[trigger] block(
            s,
            evs,
            num_samples,
        ).1[j]).timed_before(num_samples) by {
            if j >= handled.1.len() {
                assert(block(s, evs, num_samples).1[j] == tail[j - handled.1.len()]);
            } else {
                assert(block(s, evs, num_samples).1[j] == handled.1[j]);
            }
        }
    }
}

/// The note number of a note-on.
pub open spec fn on_note<O>(ev: Event<O>) -> u8 {
    match ev {
        Event::NoteOn { note, .. } => note,
        _ => 0,
    }
}

/// The timing of a note-on.
pub open spec fn on_timing<O>(ev: Event<O>) -> u32 {
    match ev {
        Event::NoteOn { timing, .. } => timing,
        _ => 0,
    }
}

/// What the engine keeps of a note-on.
pub open spec fn on_values<O>(ev: Event<O>) -> NoteOnValues {
    match ev {
        Event::NoteOn { timing, voice_id, channel, velocity, .. } => capture(
            timing,
            voice_id,
            channel,
            velocity,
        ),
        _ => capture(0, None, 0, 0),
    }
}

/// A note-on as `ev`, moved to frame `timing`.
pub open spec fn retimed<O>(ev: Event<O>, timing: u32) -> Event<O> {
    match ev {
        Event::NoteOn { voice_id, channel, note, velocity, .. } => Event::NoteOn {
            timing,
            voice_id,
            channel,
            note,
            velocity,
        },
        _ => ev,
    }
}

/// The index of the first highest note among the note-ons `evs`.
pub open spec fn top_index<O>(evs: Seq<Event<O>>) -> int
    decreases evs.len(),
{
    if evs.len() <= 1 {
        0
    } else {
        let k = top_index(evs.drop_last());
        if on_note(evs.last()) > on_note(evs[k]) {
            evs.len() - 1
        } else {
            k
        }
    }
}

/// The state in which a chord window opened by `first` is pending with the
/// note-on `top` as its candidate.
pub open spec fn detecting<O>(first: Event<O>, top: Event<O>) -> PlayingState {
    PlayingState::ChordDetecting {
        deadline: (on_timing(first) + WINDOW) as u64,
        best_note: on_note(top),
        captured: on_values(top),
    }
}

proof fn lemma_run_note_ons<O>(evs: Seq<Event<O>>)
    requires
        evs.len() > 0,
        forall|i: int| 0 <= i < evs.len() ==> (#[trigger] evs[i]) is NoteOn,
    ensures
        0 <= top_index(evs) < evs.len(),
        forall|i: int| 0 <= i < evs.len() ==> on_note(#[trigger] evs[i]) <= on_note(evs[top_index(evs)]),
        run(PlayingState::NotPlaying, evs) == (detecting(evs[0], evs[top_index(evs)]), Seq::<Event<O>>::empty()),
    decreases evs.len(),
{
    let s = PlayingState::NotPlaying;
    if evs.len() == 1 {
        assert(evs.drop_last() =~= Seq::<Event<O>>::empty());
        assert(evs.last() == evs[0]);
        assert(seq![] + Seq::<Event<O>>::empty() =~= Seq::<Event<O>>::empty());
    } else {
        let front = evs.drop_last();
        lemma_run_note_ons(front);
        assert(front[0] == evs[0]);
        let k = top_index(front);
        assert(front[k] == evs[k]);
        assert(evs.last() == evs[evs.len() - 1]);
        assert(Seq::<Event<O>>::empty() + Seq::<Event<O>>::empty() =~= Seq::<Event<O>>::empty());
        assert forall|i: int| 0 <= i < evs.len() implies on_note(#[trigger] evs[i]) <= on_note(
            evs[top_index(evs)],
        ) by {
            if i < evs.len() - 1 {
                assert(front[i] == evs[i]);
            }
        }
    }
}

/// Chord pick: handling note-ons of distinct pitches from rest leaves the
/// chord pending with the highest of them, whose channel, voice and velocity
/// are kept; a block that holds them and reaches the window's end sends that
/// one note-on alone, at the window's end.
pub proof fn law_chord_pick<O>(evs: Seq<Event<O>>, k: int, num_samples: u32)
    requires
        0 <= k < evs.len(),
        forall|i: int| 0 <= i < evs.len() ==> (#[trigger] evs[i]) is NoteOn,
        forall|i: int, j: int|
            0 <= i < evs.len() && 0 <= j < evs.len() && i != j ==> on_note(#[trigger] evs[i])
                != on_note(#[trigger] evs[j]),
        forall|i: int| 0 <= i < evs.len() ==> on_note(#[trigger] evs[i]) <= on_note(evs[k]),
    ensures
        run(PlayingState::NotPlaying, evs) == (detecting(evs[0], evs[k]), Seq::<Event<O>>::empty()),
        on_timing(evs[0]) + WINDOW < num_samples ==> block(
            PlayingState::NotPlaying,
            evs,
            num_samples,
        ) == (
            PlayingState::Playing { channel: on_values(evs[k]).channel, note: on_note(evs[k]) },
            seq![retimed(evs[k], (on_timing(evs[0]) + WINDOW) as u32)],
        ),
{
    lemma_run_note_ons(evs);
    let t = top_index(evs);
    assert(on_note(evs[t]) <= on_note(evs[k]));
    assert(k == t);
    assert(Seq::<Event<O>>::empty() + seq![retimed(evs[k], (on_timing(evs[0]) + WINDOW) as u32)]
        =~= seq![retimed(evs[k], (on_timing(evs[0]) + WINDOW) as u32)]);
}

/// The sum of block sizes.
pub open spec fn total(ns: Seq<u32>) -> int
    decreases ns.len(),
{
    if ns.len() == 0 {
        0
    } else {
        total(ns.drop_last()) + ns.last()
    }
}

/// Blocks of the sizes `ns`, in order, none with input events: the state
/// reached and everything sent.
pub open spec fn quiet_blocks<O>(s: PlayingState, ns: Seq<u32>) -> (PlayingState, Seq<Event<O>>)
    decreases ns.len(),
{
    if ns.len() == 0 {
        (s, seq![])
    } else {
        let before = quiet_blocks::<O>(s, ns.drop_last());
        let last = block::<O>(before.0, seq![], ns.last());
        (last.0, before.1 + last.1)
    }
}

proof fn lemma_quiet_blocks<O>(deadline: u64, best_note: u8, captured: NoteOnValues, ns: Seq<u32>)
    requires
        total(ns) <= deadline,
    ensures
        quiet_blocks::<O>(PlayingState::ChordDetecting { deadline, best_note, captured }, ns) == (
            PlayingState::ChordDetecting { deadline: (deadline - total(ns)) as u64, best_note, captured },
            Seq::<Event<O>>::empty(),
        ),
    decreases ns.len(),
{
    if ns.len() > 0 {
        lemma_total_nonneg(ns.drop_last());
        lemma_quiet_blocks::<O>(deadline, best_note, captured, ns.drop_last());
        let mid = PlayingState::ChordDetecting {
            deadline: (deadline - total(ns.drop_last())) as u64,
            best_note,
            captured,
        };
        assert(run(mid, Seq::<Event<O>>::empty()) == (mid, Seq::<Event<O>>::empty()));
        assert(Seq::<Event<O>>::empty() + Seq::<Event<O>>::empty() =~= Seq::<Event<O>>::empty());
    }
}

/// Window timing: a lone note-on at frame `t` of a block of `first` frames
/// sounds at frame `t + WINDOW` of that block when the block reaches it.
/// Otherwise that block sends nothing and the pending deadline drops by
/// exactly `first`; each later block without input events that ends before
/// the window's end sends nothing, and the block in which it ends sends the
/// note-on at frame `r` with `first + (sizes of the blocks between) + r`
/// equal to `t + WINDOW`.
pub proof fn law_window_timing<O>(on: Event<O>, first: u32, ns: Seq<u32>, last: u32)
    requires
        on is NoteOn,
    ensures
        on_timing(on) + WINDOW < first ==> block(PlayingState::NotPlaying, seq![on], first) == (
            PlayingState::Playing { channel: on_values(on).channel, note: on_note(on) },
            seq![retimed(on, (on_timing(on) + WINDOW) as u32)],
        ),
        first <= on_timing(on) + WINDOW ==> block(PlayingState::NotPlaying, seq![on], first) == (
            PlayingState::ChordDetecting {
                deadline: (on_timing(on) + WINDOW - first) as u64,
                best_note: on_note(on),
                captured: on_values(on),
            },
            Seq::<Event<O>>::empty(),
        ),
        first + total(ns) <= on_timing(on) + WINDOW ==> quiet_blocks::<O>(
            block(PlayingState::NotPlaying, seq![on], first).0,
            ns,
        ).1 == Seq::<Event<O>>::empty(),
        first + total(ns) <= on_timing(on) + WINDOW < first + total(ns) + last ==> ({
            let pending = quiet_blocks::<O>(block(PlayingState::NotPlaying, seq![on], first).0, ns).0;
            let r = (on_timing(on) + WINDOW - first - total(ns)) as u32;
            &&& block::<O>(pending, seq![], last).1 == seq![retimed(on, r)]
            &&& first + total(ns) + r == on_timing(on) + WINDOW
        }),
{
    let t = on_timing(on);
    let ons = seq![on];
    assert(ons.drop_last() =~= Seq::<Event<O>>::empty());
    assert(ons.last() == on);
    assert(Seq::<Event<O>>::empty() + Seq::<Event<O>>::empty() =~= Seq::<Event<O>>::empty());
    assert(run(PlayingState::NotPlaying, Seq::<Event<O>>::empty()) == (
        PlayingState::NotPlaying,
        Seq::<Event<O>>::empty(),
    ));
    assert(run(PlayingState::NotPlaying, ons) == (detecting(on, on), Seq::<Event<O>>::empty()));
    lemma_total_nonneg(ns);
    if t + WINDOW < first {
        assert(Seq::<Event<O>>::empty() + seq![retimed(on, (t + WINDOW) as u32)] =~= seq![
            retimed(on, (t + WINDOW) as u32),
        ]);
    } else {
        let d = (t + WINDOW - first) as u64;
        if first + total(ns) <= t + WINDOW {
            lemma_quiet_blocks::<O>(d, on_note(on), on_values(on), ns);
            let pending = quiet_blocks::<O>(block(PlayingState::NotPlaying, ons, first).0, ns).0;
            let r = (t + WINDOW - first - total(ns)) as u32;
            assert(run(pending, Seq::<Event<O>>::empty()) == (pending, Seq::<Event<O>>::empty()));
            if t + WINDOW < first + total(ns) + last {
                assert(Seq::<Event<O>>::empty() + seq![retimed(on, r)] =~= seq![retimed(on, r)]);
            }
        }
    }
}

proof fn lemma_total_nonneg(ns: Seq<u32>)
    ensures
        total(ns) >= 0,
    decreases ns.len(),
{
    if ns.len() > 0 {
        lemma_total_nonneg(ns.drop_last());
    }
}

/// Abandonment: a note-off or choke while a chord is pending drops the chord
/// and sends nothing; a note-on after it opens a fresh window.
pub proof fn law_abandonment<O>(
    deadline: u64,
    best_note: u8,
    captured: NoteOnValues,
    off: Event<O>,
    on: Event<O>,
)
    requires
        off.released_key() is Some,
        on is NoteOn,
    ensures
        step(PlayingState::ChordDetecting { deadline, best_note, captured }, off) == (
            PlayingState::NotPlaying,
            Seq::<Event<O>>::empty(),
        ),
        run(PlayingState::ChordDetecting { deadline, best_note, captured }, seq![off, on]) == (
            detecting(on, on),
            Seq::<Event<O>>::empty(),
        ),
{
    let s = PlayingState::ChordDetecting { deadline, best_note, captured };
    let evs = seq![off, on];
    assert(evs.drop_last() =~= seq![off]);
    assert(evs.drop_last().drop_last() =~= Seq::<Event<O>>::empty());
    assert(Seq::<Event<O>>::empty() + Seq::<Event<O>>::empty() =~= Seq::<Event<O>>::empty());
    assert(run(s, Seq::<Event<O>>::empty()) == (s, Seq::<Event<O>>::empty()));
    assert(evs.drop_last().last() == off);
    assert(evs.last() == on);
    assert(run(s, evs.drop_last()) == (PlayingState::NotPlaying, Seq::<Event<O>>::empty()));
}

/// Monophonic replace: while a note is held, a higher note-on sends a
/// note-off of the held note, then itself, and becomes the held note; a
/// note-on that is not higher sends nothing and changes nothing.
pub proof fn law_monophonic_replace<O>(channel: u8, note: u8, on: Event<O>)
    requires
        on is NoteOn,
    ensures
        on_note(on) > note ==> step(PlayingState::Playing { channel, note }, on) == (
            PlayingState::Playing { channel: on_values(on).channel, note: on_note(on) },
            seq![
                Event::NoteOff {
                    timing: on_timing(on),
                    voice_id: on_values(on).voice_id,
                    channel,
                    note,
                    velocity: on_values(on).velocity,
                },
                on,
            ],
        ),
        on_note(on) <= note ==> step(PlayingState::Playing { channel, note }, on) == (
            PlayingState::Playing { channel, note },
            Seq::<Event<O>>::empty(),
        ),
{
}

/// Release: while a note is held, a note-off or choke of that note is sent
/// on unchanged and ends it; one of any other key does nothing.
pub proof fn law_release<O>(channel: u8, note: u8, off: Event<O>)
    requires
        off.released_key() is Some,
    ensures
        off.released_key() == Some((channel, note)) ==> step(
            PlayingState::Playing { channel, note },
            off,
        ) == (PlayingState::NotPlaying, seq![off]),
        off.released_key() != Some((channel, note)) ==> step(
            PlayingState::Playing { channel, note },
            off,
        ) == (PlayingState::Playing { channel, note }, Seq::<Event<O>>::empty()),
{
}

/// Handling `a` then `b` is handling `a + b`.
pub proof fn lemma_run_append<O>(s: PlayingState, a: Seq<Event<O>>, b: Seq<Event<O>>)
    ensures
        run(s, a + b) == (run(run(s, a).0, b).0, run(s, a).1 + run(run(s, a).0, b).1),
    decreases b.len(),
{
    if b.len() == 0 {
        assert(a + b =~= a);
        assert(run(s, a).1 + Seq::<Event<O>>::empty() =~= run(s, a).1);
    } else {
        lemma_run_append(s, a, b.drop_last());
        assert((a + b).drop_last() =~= a + b.drop_last());
        assert((a + b).last() == b.last());
        let mid = run(s, a);
        let front = run(mid.0, b.drop_last());
        let last = step(front.0, b.last());
        assert(mid.1 + front.1 + last.1 =~= mid.1 + (front.1 + last.1));
    }
}

/// Passthrough and order: an event that arbitration does not read is sent
/// on unchanged and leaves the state as it was; among the events sent for
/// `before + [other] + after` it stands between those sent for `before`
/// and those sent for `after`.
pub proof fn law_passthrough<O>(
    s: PlayingState,
    before: Seq<Event<O>>,
    other: Event<O>,
    after: Seq<Event<O>>,
)
    requires
        other is Other,
    ensures
        step(s, other) == (s, seq![other]),
        run(s, before + seq![other] + after) == (
            run(run(s, before).0, after).0,
            run(s, before).1 + seq![other] + run(run(s, before).0, after).1,
        ),
{
    let mid = run(s, before);
    lemma_run_append(s, before, seq![other]);
    lemma_run_append(s, before + seq![other], after);
    assert(seq![other].drop_last() =~= Seq::<Event<O>>::empty());
    assert(seq![other].last() == other);
    assert(run(mid.0, Seq::<Event<O>>::empty()) == (mid.0, Seq::<Event<O>>::empty()));
    assert(Seq::<Event<O>>::empty() + seq![other] =~= seq![other]);
}

/// While a chord is pending, a note-on keeps the deadline and never lowers
/// the candidate: it becomes the candidate exactly when it is higher.
pub proof fn law_candidate_rises<O>(deadline: u64, best_note: u8, captured: NoteOnValues, on: Event<O>)
    requires
        on is NoteOn,
    ensures
        step(PlayingState::ChordDetecting { deadline, best_note, captured }, on) == (
            PlayingState::ChordDetecting {
                deadline,
                best_note: if on_note(on) > best_note {
                    on_note(on)
                } else {
                    best_note
                },
                captured: if on_note(on) > best_note {
                    on_values(on)
                } else {
                    captured
                },
            },
            Seq::<Event<O>>::empty(),
        ),
{
}

} // verus!
