use vstd::prelude::*;

verus! {

/// What the tick trigger answered when asked whether a frame should advance.
#[derive(Debug, Clone, Copy, PartialEq, Eq, Structural)]
pub enum TickSignal {
    /// Advance one frame, and ask no more this update.
    Yes,
    /// Do not advance.
    No,
    /// Advance one frame, then ask again.
    YesAndCheckAgain,
    /// Do not advance now; the trigger expects to be asked later.
    NoAndCheckAgain,
}

impl TickSignal {
    /// Whether a tick is requested now.
    pub fn requests_tick(self) -> (r: bool)
        ensures
            r == (self == TickSignal::Yes || self == TickSignal::YesAndCheckAgain),
    {
        match self {
            TickSignal::Yes | TickSignal::YesAndCheckAgain => true,
            TickSignal::No | TickSignal::NoAndCheckAgain => false,
        }
    }

    /// Whether the trigger is to be asked again in this update, after the tick it
    /// requested has been replayed to quiescence.
    pub fn asks_again(self) -> (r: bool)
        ensures
            r == (self == TickSignal::YesAndCheckAgain),
    {
        match self {
            TickSignal::YesAndCheckAgain => true,
            _ => false,
        }
    }
}

} // verus!
