use vstd::prelude::*;

verus! {

/// The character written to show progress, once for each port found open.
pub const PROGRESS_MARK: char = '.';

/// What one connection attempt to one port came to.
#[derive(Clone, Copy, Debug, PartialEq, Eq, Structural)]
pub struct ProbeOutcome {
    pub port: u16,
    pub reachable: bool,
}

impl ProbeOutcome {
    /// What the probe hands on to the collector: its port when the connection
    /// was made, nothing when it failed.
    pub fn forwarded(&self) -> (r: Option<u16>)
        ensures
            r == (if self.reachable {
                Some(self.port)
            } else {
                None::<u16>
            }),
    {
        if self.reachable {
            Some(self.port)
        } else {
            None
        }
    }

    /// The progress mark that the probe writes: one on success, none on failure.
    pub fn progress_mark(&self) -> (r: Option<char>)
        ensures
            r == (if self.reachable {
                Some(PROGRESS_MARK)
            } else {
                None::<char>
            }),
    {
        if self.reachable {
            Some(PROGRESS_MARK)
        } else {
            None
        }
    }
}

} // verus!
