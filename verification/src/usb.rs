//! What the capture loop does after a failed bulk read: report an error
//! only when it differs from the last one reported, and pause.

use vstd::prelude::*;

verus! {

/// Pause after a failed bulk read, in milliseconds.
pub const ERROR_PAUSE_MS: u64 = 1000;

/// What to do after a failed bulk read.
#[derive(Debug, PartialEq, Eq, Structural)]
pub struct ErrorAction {
    /// Whether to report the error.
    pub report: bool,
    /// How long to pause before the next read, in milliseconds.
    pub pause_ms: u64,
}

/// The last USB error reported, by error code.
pub struct UsbErrorLog {
    last: Option<u32>,
}

impl View for UsbErrorLog {
    type V = Option<u32>;

    closed spec fn view(&self) -> Option<u32> {
        self.last
    }
}

impl UsbErrorLog {
    /// A log in which nothing has been reported yet.
    pub fn new() -> (log: UsbErrorLog)
        ensures
            log@ == None::<u32>,
    {
        UsbErrorLog { last: None }
    }

    /// Records the failed read with error code `code`: it is reported when
    /// it differs from the last error reported, and the loop pauses either way.
    pub fn on_error(&mut self, code: u32) -> (action: ErrorAction)
        ensures
            action.report == (old(self)@ != Some(code)),
            action.pause_ms == ERROR_PAUSE_MS,
            final(self)@ == Some(code),
    {
        let report = match self.last {
            Some(c) => c != code,
            None => true,
        };
        self.last = Some(code);
        ErrorAction { report, pause_ms: ERROR_PAUSE_MS }
    }
}

} // verus!
