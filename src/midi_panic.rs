use vstd::prelude::*;

use crate::event::Event;

verus! {

/// MIDI channels a panic burst covers.
pub const CHANNELS: u8 = 16;

/// Keys per channel a panic burst covers.
pub const KEYS: u8 = 128;

/// Velocity of every note-off of a panic burst: 64.0 as IEEE-754
/// single-precision bits.
pub const PANIC_VELOCITY: u32 = 0x4280_0000;

/// Sends a note-off for every key of every channel once each time its
/// trigger switches on.
#[derive(Debug)]
pub struct MidiPanic {
    pub sent_panic: bool,
}

/// The last frame of a block of `num_samples` frames, or 0 for an empty one.
pub open spec fn last_frame(num_samples: u32) -> u32 {
    if num_samples == 0 {
        0
    } else {
        (num_samples - 1) as u32
    }
}

/// The note-off of a panic burst for `(channel, note)`.
pub open spec fn panic_note_off<O>(num_samples: u32, channel: int, note: int) -> Event<O> {
    Event::NoteOff {
        timing: last_frame(num_samples),
        voice_id: None,
        channel: channel as u8,
        note: note as u8,
        velocity: PANIC_VELOCITY,
    }
}

/// The burst: channel by channel, key by key within a channel.
pub open spec fn is_panic_burst<O>(evs: Seq<Event<O>>, num_samples: u32) -> bool {
    &&& evs.len() == CHANNELS * KEYS
    &&& forall|c: int, n: int|
        0 <= c < CHANNELS && 0 <= n < KEYS ==> #[trigger] evs[c * KEYS + n] == panic_note_off::<O>(
            num_samples,
            c,
            n,
        )
}

/// Every note-off of a panic burst for a block of `num_samples` frames, at
/// its last frame.
pub fn panic_events<O>(num_samples: u32) -> (r: Vec<Event<O>>)
    ensures
        is_panic_burst(r@, num_samples),
{
    let timing: u32 = if num_samples == 0 {
        0
    } else {
        num_samples - 1
    };
    let mut r: Vec<Event<O>> = Vec::new();
    let mut channel: u8 = 0;
    while channel < CHANNELS
        invariant
            channel <= CHANNELS,
            timing == last_frame(num_samples),
            r@.len() == channel * KEYS,
            forall|c: int, n: int|
                0 <= c < channel && 0 <= n < KEYS ==> #[trigger] r@[c * KEYS + n]
                    == panic_note_off::<O>(num_samples, c, n),
        decreases CHANNELS - channel,
    {
        let mut note: u8 = 0;
        while note < KEYS
            invariant
                channel < CHANNELS,
                note <= KEYS,
                timing == last_frame(num_samples),
                r@.len() == channel * KEYS + note,
                forall|c: int, n: int|
                    0 <= c < channel && 0 <= n < KEYS ==> #[trigger] r@[c * KEYS + n]
                        == panic_note_off::<O>(num_samples, c, n),
                forall|n: int|
                    0 <= n < note ==> #[trigger] r@[channel * KEYS + n] == panic_note_off::<O>(
                        num_samples,
                        channel as int,
                        n,
                    ),
            decreases KEYS - note,
        {
            r.push(Event::NoteOff { timing, voice_id: None, channel, note, velocity: PANIC_VELOCITY });
            note = note + 1;
        }
        channel = channel + 1;
    }
    r
}

impl Default for MidiPanic {
    fn default() -> (r: MidiPanic)
        ensures
            !r.sent_panic,
    {
        MidiPanic::new()
    }
}

impl MidiPanic {
    /// A generator whose trigger has not fired.
    pub fn new() -> (r: MidiPanic)
        ensures
            !r.sent_panic,
    {
        MidiPanic { sent_panic: false }
    }

    /// Takes the trigger's value for this block; returns whether a burst is
    /// due, which is when the trigger has just switched on.
    pub fn on_trigger(&mut self, trigger: bool) -> (fire: bool)
        ensures
            fire == (trigger && !old(self).sent_panic),
            final(self).sent_panic == trigger,
    {
        if trigger {
            if !self.sent_panic {
                self.sent_panic = true;
                true
            } else {
                false
            }
        } else {
            self.sent_panic = false;
            false
        }
    }

    /// Processes one block: every input event is passed on in order, then,
    /// when the trigger has just switched on, the panic burst follows.
    pub fn process_block<O>(&mut self, events: Vec<Event<O>>, trigger: bool, num_samples: u32) -> (out: Vec<Event<O>>)
        ensures
            final(self).sent_panic == trigger,
            out@.subrange(0, events@.len() as int) == events@,
            trigger && !old(self).sent_panic ==> is_panic_burst(
                out@.subrange(events@.len() as int, out@.len() as int),
                num_samples,
            ),
            !(trigger && !old(self).sent_panic) ==> out@ == events@,
    {
        let ghost input = events@;
        let mut out = events;
        if self.on_trigger(trigger) {
            let mut burst = panic_events(num_samples);
            let ghost b = burst@;
            out.append(&mut burst);
            proof {
                assert(out@.subrange(0, input.len() as int) =~= input);
                assert(out@.subrange(input.len() as int, out@.len() as int) =~= b);
            }
        } else {
            proof {
                assert(out@.subrange(0, input.len() as int) =~= input);
            }
        }
        out
    }
}

} // verus!
