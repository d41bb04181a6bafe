use vstd::prelude::*;
use crate::report::PanicReport;
use crate::text::{has_prefix, has_suffix, padded, padded_decimal, str_has_prefix, str_has_suffix};

verus! {

/// Path of the endpoint that takes panic reports.
pub const PANIC_ENDPOINT: &'static str = "/telemetry/panics";

/// Header that carries the checksum of a request body.
pub const CHECKSUM_HEADER: &'static str = "x-zed-checksum";

/// Whether a file of the log directory holds a panic report: `zed…` ending in `.panic`.
pub open spec fn is_panic_artifact(name: Seq<char>) -> bool {
    has_prefix(name, "zed"@) && has_suffix(name, ".panic"@)
}

pub fn is_panic_file_name(name: &str) -> (r: bool)
    ensures
        r == is_panic_artifact(name@),
{
    str_has_prefix(name, "zed") && str_has_suffix(name, ".panic")
}

/// A moment in UTC, as calendar fields.
#[derive(Clone, Copy, Debug, PartialEq, Eq, Structural)]
pub struct Timestamp {
    pub year: u32,
    pub month: u32,
    pub day: u32,
    pub hour: u32,
    pub minute: u32,
    pub second: u32,
}

impl Timestamp {
    pub open spec fn wf(&self) -> bool {
        self.year <= 9999 && 1 <= self.month <= 12 && 1 <= self.day <= 31 && self.hour < 24
            && self.minute < 60 && self.second <= 60
    }
}

/// `zed-YYYY_MM_DD HH_MM_SS.panic`.
pub open spec fn panic_file_name_spec(t: Timestamp) -> Seq<char> {
    "zed-"@ + padded(t.year as nat, 4) + "_"@ + padded(t.month as nat, 2) + "_"@ + padded(t.day as nat, 2)
        + " "@ + padded(t.hour as nat, 2) + "_"@ + padded(t.minute as nat, 2) + "_"@
        + padded(t.second as nat, 2) + ".panic"@
}

/// Name of the file that the report of a fault at `t` is written to.
pub fn panic_file_name(t: &Timestamp) -> (r: String)
    requires
        t.wf(),
    ensures
        r@ == panic_file_name_spec(*t),
{
    let mut s = String::from_str("zed-");
    s.append(padded_decimal(t.year as u64, 4).as_str());
    s.append("_");
    s.append(padded_decimal(t.month as u64, 2).as_str());
    s.append("_");
    s.append(padded_decimal(t.day as u64, 2).as_str());
    s.append(" ");
    s.append(padded_decimal(t.hour as u64, 2).as_str());
    s.append("_");
    s.append(padded_decimal(t.minute as u64, 2).as_str());
    s.append("_");
    s.append(padded_decimal(t.second as u64, 2).as_str());
    s.append(".panic");
    s
}

/// The file a fault is written to is one that the next run's panic pass picks up.
pub proof fn lemma_panic_file_is_artifact(t: Timestamp)
    requires
        t.wf(),
    ensures
        is_panic_artifact(panic_file_name_spec(t)),
{
    let n = panic_file_name_spec(t);
    reveal_strlit("zed-");
    reveal_strlit("zed");
    reveal_strlit(".panic");
    let head = n.subrange(0, n.len() - 6);
    assert(n == head + ".panic"@);
    assert(n.subrange(n.len() - 6, n.len() as int) =~= ".panic"@);
    assert(n[0] == 'z' && n[1] == 'e' && n[2] == 'd');
    assert(n.subrange(0, 3) =~= "zed"@);
}

/// Where the handling of one panic file stands.
#[derive(Clone, Copy, Debug, PartialEq, Eq, Structural)]
pub enum PanicFileStage {
    Listed,
    Reading,
    Uploading,
    Removing,
    Done,
}

/// What came back from the last action on a panic file.
#[derive(Debug)]
pub enum PanicFileEvent {
    /// Handling of the file begins.
    Begin,
    /// The file was read; the report it holds, where one of its two forms parsed.
    Parsed(Option<PanicReport>),
    /// The file could not be read.
    ReadFailed,
    /// The upload request was made, whatever its response.
    UploadFinished { success: bool },
    /// The file was removed, or removing it failed.
    Removed,
}

/// What to do next with a panic file.
#[derive(Debug)]
pub enum PanicFileAction {
    Read,
    /// Post the report, with its checksum, to the panic endpoint.
    Upload(PanicReport),
    Remove,
    Nothing,
}

pub open spec fn panic_step(diagnostics: bool, stage: PanicFileStage, event: PanicFileEvent) -> (PanicFileStage, PanicFileAction) {
    match (stage, event) {
        (PanicFileStage::Listed, PanicFileEvent::Begin) =>
            if diagnostics { (PanicFileStage::Reading, PanicFileAction::Read) }
            else { (PanicFileStage::Removing, PanicFileAction::Remove) },
        (PanicFileStage::Reading, PanicFileEvent::Parsed(Some(r))) => (PanicFileStage::Uploading, PanicFileAction::Upload(r)),
        (PanicFileStage::Reading, PanicFileEvent::Parsed(None)) => (PanicFileStage::Removing, PanicFileAction::Remove),
        (PanicFileStage::Reading, PanicFileEvent::ReadFailed) => (PanicFileStage::Removing, PanicFileAction::Remove),
        (PanicFileStage::Uploading, PanicFileEvent::UploadFinished { .. }) => (PanicFileStage::Removing, PanicFileAction::Remove),
        (PanicFileStage::Removing, PanicFileEvent::Removed) => (PanicFileStage::Done, PanicFileAction::Nothing),
        (s, _) => (s, PanicFileAction::Nothing),
    }
}

/// The panic pass over the log directory: it decides, file by file, what to do, and
/// keeps the most recent panic that it uploaded.
pub struct PanicPass {
    pub diagnostics: bool,
    /// Time and message of the last report handed out for upload.
    pub most_recent: Option<(i64, String)>,
}

impl PanicPass {
    pub fn new(diagnostics: bool) -> (r: PanicPass)
        ensures
            r.diagnostics == diagnostics,
            r.most_recent is None,
    {
        PanicPass { diagnostics, most_recent: None }
    }

    /// Whether a file of the log directory is one for this pass.
    pub fn accepts(&self, name: &str) -> (r: bool)
        ensures
            r == is_panic_artifact(name@),
    {
        is_panic_file_name(name)
    }

    /// The next stage of a file and the action to take, given what came of the last one.
    /// A report handed out for upload becomes the most recent panic.
    pub fn step(&mut self, stage: PanicFileStage, event: PanicFileEvent) -> (r: (PanicFileStage, PanicFileAction))
        ensures
            r == panic_step(old(self).diagnostics, stage, event),
            final(self).diagnostics == old(self).diagnostics,
            r.1 matches PanicFileAction::Upload(p) ==> final(self).most_recent == Some((p.panicked_on, p.payload)),
            !(r.1 is Upload) ==> final(self).most_recent == old(self).most_recent,
    {
        match (stage, event) {
            (PanicFileStage::Listed, PanicFileEvent::Begin) => {
                if self.diagnostics {
                    (PanicFileStage::Reading, PanicFileAction::Read)
                } else {
                    (PanicFileStage::Removing, PanicFileAction::Remove)
                }
            },
            (PanicFileStage::Reading, PanicFileEvent::Parsed(Some(r))) => {
                self.most_recent = Some((r.panicked_on, r.payload.clone()));
                (PanicFileStage::Uploading, PanicFileAction::Upload(r))
            },
            (PanicFileStage::Reading, PanicFileEvent::Parsed(None)) => (PanicFileStage::Removing, PanicFileAction::Remove),
            (PanicFileStage::Reading, PanicFileEvent::ReadFailed) => (PanicFileStage::Removing, PanicFileAction::Remove),
            (PanicFileStage::Uploading, PanicFileEvent::UploadFinished { .. }) => (PanicFileStage::Removing, PanicFileAction::Remove),
            (PanicFileStage::Removing, PanicFileEvent::Removed) => (PanicFileStage::Done, PanicFileAction::Nothing),
            (s, _) => (s, PanicFileAction::Nothing),
        }
    }
}

/// The actions taken for a file that starts at `stage` and meets `events` in turn.
pub open spec fn panic_run(diagnostics: bool, stage: PanicFileStage, events: Seq<PanicFileEvent>) -> Seq<PanicFileAction>
    decreases events.len(),
{
    if events.len() == 0 {
        Seq::empty()
    } else {
        let (s, a) = panic_step(diagnostics, stage, events[0]);
        seq![a] + panic_run(diagnostics, s, events.drop_first())
    }
}

pub open spec fn upload_count(actions: Seq<PanicFileAction>) -> nat
    decreases actions.len(),
{
    if actions.len() == 0 {
        0
    } else {
        (if actions[0] is Upload { 1nat } else { 0nat }) + upload_count(actions.drop_first())
    }
}

proof fn lemma_upload_count_prepend(a: PanicFileAction, rest: Seq<PanicFileAction>)
    ensures
        upload_count(seq![a] + rest) == (if a is Upload { 1nat } else { 0nat }) + upload_count(rest),
{
    assert((seq![a] + rest).drop_first() =~= rest);
}

proof fn lemma_run_uploads(diagnostics: bool, stage: PanicFileStage, events: Seq<PanicFileEvent>)
    ensures
        upload_count(panic_run(diagnostics, stage, events)) <= (if stage == PanicFileStage::Listed {
            if diagnostics { 1nat } else { 0nat }
        } else if stage == PanicFileStage::Reading { 1nat } else { 0nat }),
    decreases events.len(),
{
    if events.len() > 0 {
        let (s, a) = panic_step(diagnostics, stage, events[0]);
        lemma_run_uploads(diagnostics, s, events.drop_first());
        lemma_upload_count_prepend(a, panic_run(diagnostics, s, events.drop_first()));
    }
}

/// With diagnostics off, a panic file is removed at once and never uploaded, whatever
/// comes back from each step.
pub proof fn lemma_disabled_removes_without_upload(events: Seq<PanicFileEvent>)
    ensures
        upload_count(panic_run(false, PanicFileStage::Listed, events)) == 0,
        events.len() > 0 && events[0] is Begin ==> panic_run(false, PanicFileStage::Listed, events)[0] is Remove,
{
    lemma_run_uploads(false, PanicFileStage::Listed, events);
}

/// With diagnostics on, a panic file whose report parsed is uploaded once and then
/// removed, whether the upload succeeded or not; and no run uploads a file twice.
pub proof fn lemma_parsed_uploaded_once_then_removed(report: PanicReport, success: bool, events: Seq<PanicFileEvent>)
    ensures
        panic_run(true, PanicFileStage::Listed, seq![
            PanicFileEvent::Begin,
            PanicFileEvent::Parsed(Some(report)),
            PanicFileEvent::UploadFinished { success },
            PanicFileEvent::Removed,
        ]) =~= seq![PanicFileAction::Read, PanicFileAction::Upload(report), PanicFileAction::Remove, PanicFileAction::Nothing],
        upload_count(panic_run(true, PanicFileStage::Listed, events)) <= 1,
{
    let ev = seq![
        PanicFileEvent::Begin,
        PanicFileEvent::Parsed(Some(report)),
        PanicFileEvent::UploadFinished { success },
        PanicFileEvent::Removed,
    ];
    assert(ev.drop_first() =~= seq![PanicFileEvent::Parsed(Some(report)), PanicFileEvent::UploadFinished { success }, PanicFileEvent::Removed]);
    assert(ev.drop_first().drop_first() =~= seq![PanicFileEvent::UploadFinished { success }, PanicFileEvent::Removed]);
    assert(ev.drop_first().drop_first().drop_first() =~= seq![PanicFileEvent::Removed]);
    assert(ev.drop_first().drop_first().drop_first().drop_first() =~= Seq::<PanicFileEvent>::empty());
    reveal_with_fuel(panic_run, 5);
    lemma_run_uploads(true, PanicFileStage::Listed, events);
}

} // verus!
