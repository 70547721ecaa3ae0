use vstd::prelude::*;

verus! {

/// A note event of one processing block.
///
/// `timing` is the sample-frame offset inside the block. `velocity` is the
/// host's velocity value as raw IEEE-754 single-precision bits: the library
/// carries it from one event to another and never interprets it.
/// `Other` holds any event that note arbitration does not read; it is passed
/// on as it came.
#[derive(Clone, Copy, Debug, PartialEq, Eq)]
pub enum Event<O> {
    NoteOn { timing: u32, voice_id: Option<i32>, channel: u8, note: u8, velocity: u32 },
    NoteOff { timing: u32, voice_id: Option<i32>, channel: u8, note: u8, velocity: u32 },
    Choke { timing: u32, voice_id: Option<i32>, channel: u8, note: u8 },
    Other(O),
}

impl<O> Event<O> {
    /// The `(channel, note)` that a `NoteOff` or `Choke` releases.
    pub open spec fn released_key(self) -> Option<(u8, u8)> {
        match self {
            Event::NoteOff { channel, note, .. } => Some((channel, note)),
            Event::Choke { channel, note, .. } => Some((channel, note)),
            _ => None,
        }
    }

    /// The frame offset of an event that the library can read it from.
    pub open spec fn note_timing(self) -> Option<u32> {
        match self {
            Event::NoteOn { timing, .. } => Some(timing),
            Event::NoteOff { timing, .. } => Some(timing),
            Event::Choke { timing, .. } => Some(timing),
            Event::Other(_) => None,
        }
    }

    /// Whether the event's frame offset, where it has one, lies before `n`.
    pub open spec fn timed_before(self, n: u32) -> bool {
        self.note_timing() matches Some(t) ==> t < n
    }
}

/// Zero, one or two events handed out by one call, in order.
#[derive(Clone, Copy, Debug, PartialEq, Eq)]
pub enum Emitted<O> {
    Nothing,
    One(Event<O>),
    Two(Event<O>, Event<O>),
}

impl<O> Emitted<O> {
    pub open spec fn view(self) -> Seq<Event<O>> {
        match self {
            Emitted::Nothing => seq![],
            Emitted::One(a) => seq![a],
            Emitted::Two(a, b) => seq![a, b],
        }
    }

    /// The events in order, as a vector.
    pub fn into_vec(self) -> (r: Vec<Event<O>>)
        ensures
            r@ == self@,
    {
        let mut r: Vec<Event<O>> = Vec::new();
        match self {
            Emitted::Nothing => {},
            Emitted::One(a) => {
                r.push(a);
            },
            Emitted::Two(a, b) => {
                r.push(a);
                r.push(b);
            },
        }
        proof {
            assert(r@ =~= self@);
        }
        r
    }
}

} // verus!
