//! Values the emulator loop exchanges with its host: what one poll of the
//! host asked for, and the audio sink that discards everything.

use vstd::prelude::*;

verus! {

/// What the host asked for since the last poll.
pub struct PollResult {
    pub exit: bool,
    pub save_state: bool,
    pub load_state: bool,
    pub cycle_slot: bool,
    pub reset: bool,
}

impl PollResult {
    /// Nothing was asked for.
    pub open spec fn is_idle(&self) -> bool {
        !self.exit && !self.save_state && !self.load_state && !self.cycle_slot && !self.reset
    }
}

impl Default for PollResult {
    fn default() -> (r: PollResult)
        ensures
            r.is_idle(),
    {
        PollResult { exit: false, save_state: false, load_state: false, cycle_slot: false, reset: false }
    }
}

/// An audio sink that drops every sample.
pub struct SilentAudioOutput;

impl SilentAudioOutput {
    pub fn new() -> (s: SilentAudioOutput) {
        SilentAudioOutput
    }
}

impl Default for SilentAudioOutput {
    fn default() -> (s: SilentAudioOutput) {
        SilentAudioOutput::new()
    }
}

} // verus!
