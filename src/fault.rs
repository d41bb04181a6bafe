use vstd::prelude::*;
use std::sync::atomic::{AtomicU32, Ordering};

verus! {

/// The release channel the application was built for.
#[derive(Clone, Copy, Debug, PartialEq, Eq, Structural)]
pub enum ReleaseChannel {
    Dev,
    Nightly,
    Preview,
    Stable,
}

pub open spec fn channel_name(c: ReleaseChannel) -> Seq<char> {
    match c {
        ReleaseChannel::Dev => "dev"@,
        ReleaseChannel::Nightly => "nightly"@,
        ReleaseChannel::Preview => "preview"@,
        ReleaseChannel::Stable => "stable"@,
    }
}

impl ReleaseChannel {
    /// The channel's name as reports carry it.
    pub fn dev_name(&self) -> (r: &'static str)
        ensures
            r@ == channel_name(*self),
    {
        match self {
            ReleaseChannel::Dev => "dev",
            ReleaseChannel::Nightly => "nightly",
            ReleaseChannel::Preview => "preview",
            ReleaseChannel::Stable => "stable",
        }
    }
}

/// What a thread that has just faulted does next.
#[derive(Clone, Copy, Debug, PartialEq, Eq, Structural)]
pub enum FaultRole {
    /// A later fault: yield forever, leaving the first one the time to finish.
    Wait,
    /// The first fault of a development build: print it and exit at once.
    PrintAndExit,
    /// The first fault otherwise: build and log the report, write it to a panic file
    /// when `write_file`, then abort.
    Report { write_file: bool },
}

pub open spec fn fault_role_spec(prior: u32, channel: ReleaseChannel, stdout_is_terminal: bool) -> FaultRole {
    if prior > 0 {
        FaultRole::Wait
    } else if channel == ReleaseChannel::Dev {
        FaultRole::PrintAndExit
    } else {
        FaultRole::Report { write_file: !stdout_is_terminal }
    }
}

/// The role of a faulting thread, given how many faults the process saw before it.
pub fn fault_role(prior: u32, channel: ReleaseChannel, stdout_is_terminal: bool) -> (r: FaultRole)
    ensures
        r == fault_role_spec(prior, channel, stdout_is_terminal),
{
    if prior > 0 {
        FaultRole::Wait
    } else if channel == ReleaseChannel::Dev {
        FaultRole::PrintAndExit
    } else {
        FaultRole::Report { write_file: !stdout_is_terminal }
    }
}

/// The process-wide count of faults, shared by every thread that faults.
pub struct FaultGate {
    count: AtomicU32,
}

impl FaultGate {
    pub fn new() -> (r: FaultGate) {
        FaultGate { count: AtomicU32::new(0) }
    }

    /// Counts one more fault and returns the role of the calling thread, given by the
    /// number of faults counted before it.
    pub fn enter(&self, channel: ReleaseChannel, stdout_is_terminal: bool) -> (r: FaultRole)
        ensures
            exists|prior: u32| r == fault_role_spec(prior, channel, stdout_is_terminal),
    {
        let prior = self.count.fetch_add(1, Ordering::SeqCst);
        fault_role(prior, channel, stdout_is_terminal)
    }
}

/// Of `n` faults counted by one gate, which sees each of `0..n` exactly once as the
/// count before it, exactly one thread goes on to report and every other one waits.
pub proof fn lemma_single_reporter(priors: Seq<u32>, channel: ReleaseChannel, stdout_is_terminal: bool)
    requires
        priors.len() >= 1,
        priors.no_duplicates(),
        forall|k: int| 0 <= k < priors.len() ==> #[trigger] priors.contains(k as u32),
    ensures
        exists|i: int|
            0 <= i < priors.len() && !(fault_role_spec(priors[i], channel, stdout_is_terminal) is Wait)
                && forall|j: int| 0 <= j < priors.len() && j != i ==> (#[trigger] fault_role_spec(priors[j], channel, stdout_is_terminal)) is Wait,
{
    assert(priors.contains(0 as u32));
    let i = choose|i: int| 0 <= i < priors.len() && priors[i] == 0u32;
    assert forall|j: int| 0 <= j < priors.len() && j != i implies (#[trigger] fault_role_spec(priors[j], channel, stdout_is_terminal)) is Wait by {
        assert(priors[j] != priors[i]);
    };
}

} // verus!
