use vstd::prelude::*;
use crate::text::{decimal_i64, decimal_int, has_prefix, has_suffix, lex_lt, lex_max, str_has_prefix, str_has_suffix, str_lt};

verus! {

/// Path of the endpoint that takes crash files.
pub const CRASH_ENDPOINT: &'static str = "/telemetry/crashes";

/// Path of the endpoint that takes hang reports.
pub const HANG_ENDPOINT: &'static str = "/telemetry/hangs";

/// Key under which the cursor of uploaded crash files is stored.
pub const LAST_CRASH_UPLOADED: &'static str = "LAST_CRASH_UPLOADED";

/// The cursor before any crash file was uploaded: older crash files are never sent.
pub const CRASH_CURSOR_FLOOR: &'static str = "zed-2024-01-17-221900.ips";

/// What `str::to_lowercase` makes of a text.
pub uninterp spec fn lower_of(s: Seq<char>) -> Seq<char>;

/// Relies on `str::to_lowercase`: the result depends on the characters alone.
#[verifier::external_body]
fn lowercase(s: &str) -> (r: String)
    ensures
        r@ == lower_of(s@),
{
    s.to_lowercase()
}

/// Whether a lower-cased file name is that of a crash file: `zed-…` ending in `.ips`.
pub open spec fn is_crash_artifact(lowered: Seq<char>) -> bool {
    has_prefix(lowered, "zed-"@) && has_suffix(lowered, ".ips"@)
}

/// The crash pass: it uploads each crash file newer than the stored cursor once, and
/// moves the cursor to the latest name processed. It never removes a crash file.
pub struct CrashPass {
    diagnostics: bool,
    last_uploaded: String,
    uploaded: String,
    most_recent_panic: Option<(i64, String)>,
    installation_id: Option<String>,
}

/// The request headers that go with a crash file.
pub open spec fn crash_headers_spec(most_recent_panic: Option<(i64, String)>, installation_id: Option<String>) -> Seq<(Seq<char>, Seq<char>)> {
    let base = seq![("Content-Type"@, "text/plain"@)];
    let with_panic = match most_recent_panic {
        Some((t, p)) => base + seq![("x-zed-panicked-on"@, decimal_int(t as int)), ("x-zed-panic"@, p@)],
        None => base,
    };
    match installation_id {
        Some(id) => with_panic.push(("x-zed-installation-id"@, id@)),
        None => with_panic,
    }
}

pub open spec fn header_views(h: Seq<(String, String)>) -> Seq<(Seq<char>, Seq<char>)> {
    h.map_values(|p: (String, String)| (p.0@, p.1@))
}

impl CrashPass {
    /// The cursor that files are filtered by: the stored one, as read when the pass began.
    pub closed spec fn start_cursor(&self) -> Seq<char> {
        self.last_uploaded@
    }

    /// The cursor as it stands: the latest name processed so far.
    pub closed spec fn cursor(&self) -> Seq<char> {
        self.uploaded@
    }

    pub closed spec fn enabled(&self) -> bool {
        self.diagnostics
    }

    pub closed spec fn headers_spec(&self) -> Seq<(Seq<char>, Seq<char>)> {
        crash_headers_spec(self.most_recent_panic, self.installation_id)
    }

    /// A pass that starts from the stored cursor, or from the floor where none is stored.
    pub fn new(
        diagnostics: bool,
        stored_cursor: Option<String>,
        most_recent_panic: Option<(i64, String)>,
        installation_id: Option<String>,
    ) -> (r: CrashPass)
        ensures
            r.enabled() == diagnostics,
            stored_cursor matches Some(c) ==> r.start_cursor() == c@,
            stored_cursor is None ==> r.start_cursor() == CRASH_CURSOR_FLOOR@,
            r.cursor() == r.start_cursor(),
            r.headers_spec() == crash_headers_spec(most_recent_panic, installation_id),
    {
        let last_uploaded = match stored_cursor {
            Some(c) => c,
            None => String::from_str(CRASH_CURSOR_FLOOR),
        };
        let uploaded = last_uploaded.clone();
        CrashPass { diagnostics, last_uploaded, uploaded, most_recent_panic, installation_id }
    }

    /// Whether a crash file, by its lower-cased name, is to be uploaded: diagnostics are
    /// on, the name is that of a crash file, and it sorts strictly after the start cursor.
    pub fn wants_lowered(&self, lowered: &str) -> (r: bool)
        ensures
            r <==> self.enabled() && is_crash_artifact(lowered@) && lex_lt(self.start_cursor(), lowered@),
    {
        self.diagnostics && str_has_prefix(lowered, "zed-") && str_has_suffix(lowered, ".ips")
            && str_lt(self.last_uploaded.as_str(), lowered)
    }

    /// The lower-cased name of a file of a crash directory, where it is to be uploaded.
    pub fn candidate(&self, file_name: &str) -> (r: Option<String>)
        ensures
            r matches Some(n) ==> n@ == lower_of(file_name@),
            r is Some <==> self.enabled() && is_crash_artifact(lower_of(file_name@))
                && lex_lt(self.start_cursor(), lower_of(file_name@)),
    {
        let lowered = lowercase(file_name);
        if self.wants_lowered(lowered.as_str()) {
            Some(lowered)
        } else {
            None
        }
    }

    /// Headers of a crash upload: the content type, the most recent panic's time and
    /// message where there is one, and the installation id where it is known.
    pub fn headers(&self) -> (r: Vec<(String, String)>)
        ensures
            header_views(r@) == self.headers_spec(),
    {
        let mut h: Vec<(String, String)> = Vec::new();
        h.push((String::from_str("Content-Type"), String::from_str("text/plain")));
        match &self.most_recent_panic {
            Some((t, p)) => {
                h.push((String::from_str("x-zed-panicked-on"), decimal_i64(*t)));
                h.push((String::from_str("x-zed-panic"), p.clone()));
            },
            None => {},
        }
        match &self.installation_id {
            Some(id) => {
                h.push((String::from_str("x-zed-installation-id"), id.clone()));
            },
            None => {},
        }
        assert(header_views(h@) =~= self.headers_spec());
        h
    }

    /// Notes that a crash file was processed, whatever came of its upload. The cursor moves
    /// to its name where that sorts after it; the new cursor is returned then, to be stored.
    pub fn record_processed(&mut self, name: &str) -> (r: Option<String>)
        ensures
            final(self).cursor() == lex_max(old(self).cursor(), name@),
            final(self).start_cursor() == old(self).start_cursor(),
            final(self).enabled() == old(self).enabled(),
            final(self).headers_spec() == old(self).headers_spec(),
            r is Some <==> lex_lt(old(self).cursor(), name@),
            r matches Some(c) ==> c@ == name@,
    {
        if str_lt(self.uploaded.as_str(), name) {
            self.uploaded = String::from_str(name);
            Some(String::from_str(name))
        } else {
            None
        }
    }
}

/// The cursor after names were processed in turn, from `start`.
pub open spec fn cursor_after(start: Seq<char>, names: Seq<Seq<char>>) -> Seq<char>
    decreases names.len(),
{
    if names.len() == 0 {
        start
    } else {
        lex_max(cursor_after(start, names.drop_last()), names.last())
    }
}

/// Whatever the order in which crash files are processed, the cursor ends at the
/// lexicographic maximum of the old cursor and every name processed.
pub proof fn lemma_cursor_is_maximum(start: Seq<char>, names: Seq<Seq<char>>)
    ensures
        cursor_after(start, names) == start || names.contains(cursor_after(start, names)),
        !lex_lt(cursor_after(start, names), start),
        forall|i: int| 0 <= i < names.len() ==> !lex_lt(cursor_after(start, names), #[trigger] names[i]),
    decreases names.len(),
{
    crate::text::lemma_lex_lt_irreflexive(start);
    if names.len() > 0 {
        let prefix = names.drop_last();
        let m = cursor_after(start, prefix);
        let x = names.last();
        lemma_cursor_is_maximum(start, prefix);
        crate::text::lemma_lex_lt_irreflexive(x);
        if lex_lt(m, x) {
            if lex_lt(x, start) {
                crate::text::lemma_lex_lt_transitive(m, x, start);
            }
            assert forall|i: int| 0 <= i < names.len() implies !lex_lt(x, #[trigger] names[i]) by {
                if i < names.len() - 1 {
                    assert(names[i] == prefix[i]);
                    if lex_lt(x, names[i]) {
                        crate::text::lemma_lex_lt_transitive(m, x, names[i]);
                    }
                }
            };
            assert(names.contains(x)) by {
                assert(names[names.len() - 1] == x);
            };
        } else {
            crate::text::lemma_lex_lt_irreflexive(m);
            assert forall|i: int| 0 <= i < names.len() implies !lex_lt(m, #[trigger] names[i]) by {
                if i < names.len() - 1 {
                    assert(names[i] == prefix[i]);
                }
            };
            if m != start {
                let j = choose|j: int| 0 <= j < prefix.len() && prefix[j] == m;
                assert(names[j] == m);
            }
        }
    }
}

} // verus!
