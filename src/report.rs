use vstd::prelude::*;

verus! {

/// Where in the source a fault was raised.
#[derive(Clone, Debug, PartialEq, Eq)]
pub struct LocationData {
    pub file: String,
    pub line: u32,
}

/// What is recorded of one fault of the process.
#[derive(Clone, Debug, PartialEq, Eq)]
pub struct PanicReport {
    pub thread: String,
    pub payload: String,
    pub location_data: Option<LocationData>,
    pub app_version: String,
    pub app_commit_sha: Option<String>,
    pub release_channel: String,
    pub target: Option<String>,
    pub os_name: String,
    pub os_version: Option<String>,
    pub architecture: String,
    /// Milliseconds since the Unix epoch.
    pub panicked_on: i64,
    /// Symbol texts of the faulting thread's frames, outermost first.
    pub backtrace: Vec<String>,
    pub system_id: Option<String>,
    pub installation_id: Option<String>,
    pub session_id: String,
}

/// One frame of a stalled primary thread, with the symbol names it resolved to.
#[derive(Clone, Debug, PartialEq, Eq)]
pub struct BacktraceFrame {
    pub ip: usize,
    pub symbol_addr: usize,
    pub base: Option<usize>,
    pub symbols: Vec<String>,
}

/// What is recorded of a stall of the primary thread.
#[derive(Clone, Debug, PartialEq, Eq)]
pub struct HangReport {
    pub backtrace: Vec<BacktraceFrame>,
    pub app_version: Option<String>,
    pub os_name: String,
    pub os_version: Option<String>,
    pub architecture: String,
    pub installation_id: Option<String>,
}

/// A report that a remote peer relayed, attributed to this process's session: the
/// three identifiers are replaced and every other field is kept.
pub open spec fn relayed(r: PanicReport, session_id: String, system_id: Option<String>, installation_id: Option<String>) -> PanicReport {
    PanicReport { session_id, system_id, installation_id, ..r }
}

/// Attributes a report relayed by a remote peer to this process's session.
pub fn relay_report(
    report: PanicReport,
    session_id: String,
    system_id: Option<String>,
    installation_id: Option<String>,
) -> (r: PanicReport)
    ensures
        r == relayed(report, session_id, system_id, installation_id),
{
    let mut r = report;
    r.session_id = session_id;
    r.system_id = system_id;
    r.installation_id = installation_id;
    r
}

/// Of the two readings of a panic file, the one that counts: the whole text read as one
/// JSON object when that succeeded, else its first line read as one.
pub fn select_report(whole: Option<PanicReport>, first_line: Option<PanicReport>) -> (r: Option<PanicReport>)
    ensures
        whole is Some ==> r == whole,
        whole is None ==> r == first_line,
{
    match whole {
        Some(w) => Some(w),
        None => first_line,
    }
}

} // verus!
