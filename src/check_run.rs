//! The check run as the remote service sees it, and the annotation model.

use vstd::prelude::*;

use crate::clippy::{
    lemma_no_primary_selects_first, lemma_single_primary_selected, primary_span_index,
    select_primary_span, CompilerMessage, Span,
};

verus! {

/// The identifier the remote service gives a check run.
#[derive(Clone, Copy, Debug, PartialEq, Eq)]
pub struct CheckRunId {
    pub id: u64,
}

/// Where a check run stands.
#[derive(Clone, Copy, Debug, PartialEq, Eq, Structural)]
pub enum Status {
    InProgress,
    Completed,
}

/// The verdict of a finished check run.
#[derive(Clone, Copy, Debug, PartialEq, Eq, Structural)]
pub enum Conclusion {
    Failure,
    Success,
    Neutral,
}

/// A point in time, as seconds and nanoseconds since the Unix epoch (UTC).
#[derive(Clone, Copy, Debug, PartialEq, Eq, Structural)]
pub struct Timestamp {
    pub seconds: i64,
    pub nanos: u32,
}

/// The output block of an update: title, summary and one batch of
/// annotations.
#[derive(Debug)]
pub struct Output {
    pub title: String,
    pub summary: String,
    pub annotations: Vec<Annotation>,
}

/// What every message about a check run repeats.
#[derive(Debug)]
pub struct CheckDetails {
    pub name: String,
    pub head_sha: String,
    pub title: String,
    pub summary: String,
}

/// One message to the remote service about a check run.
#[derive(Debug)]
pub struct CheckRun {
    pub details: CheckDetails,
    pub status: Status,
    pub completed_at: Option<Timestamp>,
    pub conclusion: Option<Conclusion>,
    pub output: Option<Output>,
}

/// How serious an annotation is: a notice, a warning or a failure.
#[derive(Clone, Copy, Debug, PartialEq, Eq, Structural)]
pub enum AnnotationLevel {
    Info,
    Warning,
    Error,
}

/// A diagnostic in the service's terms, with a workspace-relative path.
/// Columns are given for single-line spans only.
#[derive(Debug)]
pub struct Annotation {
    pub annotation_level: AnnotationLevel,
    pub message: String,
    pub path: String,
    pub start_line: u64,
    pub end_line: u64,
    pub start_column: Option<u64>,
    pub end_column: Option<u64>,
}

/// The value of an annotation, with its texts as character sequences.
pub struct AnnotationView {
    pub level: AnnotationLevel,
    pub message: Seq<char>,
    pub path: Seq<char>,
    pub start_line: u64,
    pub end_line: u64,
    pub start_column: Option<u64>,
    pub end_column: Option<u64>,
}

impl View for Annotation {
    type V = AnnotationView;

    open spec fn view(&self) -> AnnotationView {
        AnnotationView {
            level: self.annotation_level,
            message: self.message@,
            path: self.path@,
            start_line: self.start_line,
            end_line: self.end_line,
            start_column: self.start_column,
            end_column: self.end_column,
        }
    }
}

/// Why a diagnostic could not be turned into an annotation.
#[derive(Clone, Copy, Debug, PartialEq, Eq, Structural)]
pub enum TranslateError {
    /// The source path does not lie under the workspace root.
    PathOutsideWorkspace,
    /// The diagnostic has no span to report it at.
    NoSpans,
}

/// Severity text to annotation level.
pub open spec fn level_of(level: Seq<char>) -> AnnotationLevel {
    if level == "warning"@ {
        AnnotationLevel::Warning
    } else if level == "error"@ {
        AnnotationLevel::Error
    } else {
        AnnotationLevel::Info
    }
}

/// `s` without the `/` characters it starts with.
pub open spec fn trim_leading_slashes(s: Seq<char>) -> Seq<char>
    decreases s.len(),
{
    if s.len() > 0 && s[0] == '/' {
        trim_leading_slashes(s.subrange(1, s.len() as int))
    } else {
        s
    }
}

/// What is left after trimming starts with no `/`.
pub proof fn lemma_trimmed_is_relative(s: Seq<char>)
    ensures
        trim_leading_slashes(s).len() == 0 || trim_leading_slashes(s)[0] != '/',
    decreases s.len(),
{
    if s.len() > 0 && s[0] == '/' {
        lemma_trimmed_is_relative(s.subrange(1, s.len() as int));
    }
}

/// `path` made relative to `root` by stripping it as a prefix. The prefix
/// must end at a path component boundary: where neither side has a `/`
/// there (`/ws` against `/wsx/a`), the path is not under the root. The
/// separators left at the start of the rest are dropped, so the result
/// never starts with `/`.
pub open spec fn relative_path(path: Seq<char>, root: Seq<char>) -> Option<Seq<char>> {
    if root.len() <= path.len() && path.subrange(0, root.len() as int) == root {
        let rest = path.subrange(root.len() as int, path.len() as int);
        if rest.len() == 0 || rest[0] == '/' || root.len() == 0 || root.last() == '/' {
            Some(trim_leading_slashes(rest))
        } else {
            None
        }
    } else {
        None
    }
}

/// The annotation for `span`, with `message` as its text.
pub open spec fn annotation_at(
    level: AnnotationLevel,
    message: Seq<char>,
    path: Seq<char>,
    span: Span,
) -> AnnotationView {
    let single = span.line_start == span.line_end;
    AnnotationView {
        level,
        message,
        path,
        start_line: span.line_start,
        end_line: span.line_end,
        start_column: if single { Some(span.column_start) } else { None },
        end_column: if single { Some(span.column_end) } else { None },
    }
}

/// The annotation a diagnostic becomes under workspace root `root`.
pub open spec fn translate(root: Seq<char>, data: CompilerMessage) -> Result<AnnotationView, TranslateError> {
    match relative_path(data.target.src_path@, root) {
        None => Err(TranslateError::PathOutsideWorkspace),
        Some(path) => match primary_span_index(data.message.spans@) {
            None => Err(TranslateError::NoSpans),
            Some(i) => Ok(
                annotation_at(
                    level_of(data.message.level@),
                    data.message.rendered@,
                    path,
                    data.message.spans@[i as int],
                ),
            ),
        },
    }
}

/// A diagnostic with exactly one primary span is reported at that span,
/// wherever it stands in the list.
pub proof fn lemma_translate_single_primary(root: Seq<char>, data: CompilerMessage, k: nat)
    requires
        k < data.message.spans@.len(),
        data.message.spans@[k as int].is_primary,
        forall|j: int|
            0 <= j < data.message.spans@.len() && j != k ==> !data.message.spans@[j].is_primary,
        relative_path(data.target.src_path@, root) is Some,
    ensures
        translate(root, data) == Ok::<AnnotationView, TranslateError>(
            annotation_at(
                level_of(data.message.level@),
                data.message.rendered@,
                relative_path(data.target.src_path@, root)->0,
                data.message.spans@[k as int],
            ),
        ),
{
    lemma_single_primary_selected(data.message.spans@, k);
}

/// A diagnostic with spans but no primary one is reported at its first
/// span.
pub proof fn lemma_translate_no_primary(root: Seq<char>, data: CompilerMessage)
    requires
        data.message.spans@.len() > 0,
        forall|j: int| 0 <= j < data.message.spans@.len() ==> !data.message.spans@[j].is_primary,
        relative_path(data.target.src_path@, root) is Some,
    ensures
        translate(root, data) == Ok::<AnnotationView, TranslateError>(
            annotation_at(
                level_of(data.message.level@),
                data.message.rendered@,
                relative_path(data.target.src_path@, root)->0,
                data.message.spans@[0],
            ),
        ),
{
    lemma_no_primary_selects_first(data.message.spans@);
}

/// An annotation carries columns exactly when its span is on one line, and
/// then they are the span's own column bounds.
pub proof fn lemma_translate_columns(root: Seq<char>, data: CompilerMessage)
    requires
        translate(root, data) is Ok,
    ensures
        ({
            let a = translate(root, data)->Ok_0;
            let span = data.message.spans@[primary_span_index(data.message.spans@)->0 as int];
            &&& a.start_line == span.line_start
            &&& a.end_line == span.line_end
            &&& span.line_start != span.line_end ==> a.start_column is None && a.end_column is None
            &&& span.line_start == span.line_end ==> a.start_column == Some(span.column_start)
                && a.end_column == Some(span.column_end)
        }),
{
}

/// Severity `error` becomes a failure, `warning` a warning, and any other
/// text a notice; a translated diagnostic carries that level.
pub proof fn lemma_translate_severity(root: Seq<char>, data: CompilerMessage)
    ensures
        level_of("error"@) == AnnotationLevel::Error,
        level_of("warning"@) == AnnotationLevel::Warning,
        data.message.level@ != "error"@ && data.message.level@ != "warning"@
            ==> level_of(data.message.level@) == AnnotationLevel::Info,
        translate(root, data) is Ok ==> translate(root, data)->Ok_0.level == level_of(
            data.message.level@,
        ),
{
    reveal_strlit("error");
    reveal_strlit("warning");
    assert("error"@ != "warning"@) by {
        assert("error"@[0] != "warning"@[0]);
    }
}

/// A source path that does not start with the workspace root is refused.
pub proof fn lemma_translate_outside_root(root: Seq<char>, data: CompilerMessage)
    requires
        !(root.len() <= data.target.src_path@.len() && data.target.src_path@.subrange(
            0,
            root.len() as int,
        ) == root),
    ensures
        translate(root, data) == Err::<AnnotationView, TranslateError>(
            TranslateError::PathOutsideWorkspace,
        ),
{
}

/// The path `<root>/<rel>`, for a relative `rel`, is reported as `rel`.
pub proof fn lemma_translate_under_root(root: Seq<char>, rel: Seq<char>, data: CompilerMessage)
    requires
        data.target.src_path@ == root + seq!['/'] + rel,
        rel.len() == 0 || rel[0] != '/',
        data.message.spans@.len() > 0,
    ensures
        relative_path(root + seq!['/'] + rel, root) == Some(rel),
        translate(root, data) is Ok,
        translate(root, data)->Ok_0.path == rel,
{
    let path = root + seq!['/'] + rel;
    assert(path.subrange(0, root.len() as int) =~= root);
    let rest = path.subrange(root.len() as int, path.len() as int);
    assert(rest =~= seq!['/'] + rel);
    assert(rest.subrange(1, rest.len() as int) =~= rel);
    assert(trim_leading_slashes(rest) == trim_leading_slashes(rel));
}

/// Relies on chrono's `Utc::now`, with `DateTime::timestamp` and
/// `DateTime::timestamp_subsec_nanos`: the current time, built from a
/// `Duration` whose sub-second part is below one second.
#[verifier::external_body]
pub(crate) fn now() -> (r: Timestamp)
    ensures
        r.nanos < 1_000_000_000,
{
    let t = chrono::Utc::now();
    Timestamp { seconds: t.timestamp(), nanos: t.timestamp_subsec_nanos() }
}

impl CheckDetails {
    /// Details for commit `sha`.
    pub fn create(name: String, sha: String, title: String, summary: String) -> (r: CheckDetails)
        ensures
            r.name == name,
            r.head_sha == sha,
            r.title == title,
            r.summary == summary,
    {
        CheckDetails { name, head_sha: sha, title, summary }
    }

    /// Replaces the summary, keeping the rest.
    pub fn update_summary(&mut self, summary: String)
        ensures
            final(self).summary == summary,
            final(self).name == old(self).name,
            final(self).head_sha == old(self).head_sha,
            final(self).title == old(self).title,
    {
        self.summary = summary;
    }

    /// A field-by-field copy.
    pub fn copy(&self) -> (r: CheckDetails)
        ensures
            r == *self,
    {
        CheckDetails {
            name: self.name.clone(),
            head_sha: self.head_sha.clone(),
            title: self.title.clone(),
            summary: self.summary.clone(),
        }
    }
}

impl CheckRun {
    /// The message that opens a check run: in progress, with no output.
    pub fn new(details: &CheckDetails) -> (r: CheckRun)
        ensures
            r.details == *details,
            r.status == Status::InProgress,
            r.completed_at is None,
            r.conclusion is None,
            r.output is None,
    {
        CheckRun {
            details: details.copy(),
            status: Status::InProgress,
            completed_at: None,
            conclusion: None,
            output: None,
        }
    }

    /// A progress message carrying exactly one batch of annotations.
    pub fn update(details: &CheckDetails, annotations: Vec<Annotation>) -> (r: CheckRun)
        ensures
            r.details == *details,
            r.status == Status::InProgress,
            r.completed_at is None,
            r.conclusion is None,
            r.output is Some,
            r.output->0.title == details.title,
            r.output->0.summary == details.summary,
            r.output->0.annotations@ == annotations@,
    {
        let title = details.title.clone();
        let summary = details.summary.clone();
        CheckRun {
            details: details.copy(),
            status: Status::InProgress,
            completed_at: None,
            conclusion: None,
            output: Some(Output { title, summary, annotations }),
        }
    }

    /// The closing message, stamped with time `at`. Its status stays in
    /// progress: the conclusion and the completion time mark the end.
    pub fn complete_at(
        details: &CheckDetails,
        conclusion: Conclusion,
        annotations: Vec<Annotation>,
        at: Timestamp,
    ) -> (r: CheckRun)
        ensures
            r.details == *details,
            r.status == Status::InProgress,
            r.completed_at == Some(at),
            r.conclusion == Some(conclusion),
            r.output is Some,
            r.output->0.title == details.title,
            r.output->0.summary == details.summary,
            r.output->0.annotations@ == annotations@,
    {
        let title = details.title.clone();
        let summary = details.summary.clone();
        CheckRun {
            details: details.copy(),
            status: Status::InProgress,
            completed_at: Some(at),
            conclusion: Some(conclusion),
            output: Some(Output { title, summary, annotations }),
        }
    }

    /// The closing message, stamped with the current time.
    pub fn complete(details: &CheckDetails, conclusion: Conclusion, annotations: Vec<Annotation>) -> (r: CheckRun)
        ensures
            r.details == *details,
            r.status == Status::InProgress,
            r.completed_at is Some,
            r.conclusion == Some(conclusion),
            r.output is Some,
            r.output->0.title == details.title,
            r.output->0.summary == details.summary,
            r.output->0.annotations@ == annotations@,
    {
        let at = now();
        CheckRun::complete_at(details, conclusion, annotations, at)
    }
}

/// Whether two texts hold the same characters.
pub(crate) fn text_eq(a: &str, b: &str) -> (r: bool)
    ensures
        r == (a@ == b@),
{
    a.to_owned() == b.to_owned()
}

/// Whether `prefix` is a prefix of `s`.
fn starts_with(s: &str, prefix: &str) -> (r: bool)
    ensures
        r == (prefix@.len() <= s@.len() && s@.subrange(0, prefix@.len() as int) == prefix@),
{
    let n = prefix.unicode_len();
    let m = s.unicode_len();
    if n > m {
        return false;
    }
    let head = s.substring_char(0, n);
    text_eq(head, prefix)
}

/// Strips the workspace root from a source path.
pub fn strip_root(path: &str, root: &str) -> (r: Option<String>)
    ensures
        match r {
            Some(p) => relative_path(path@, root@) == Some(p@),
            None => relative_path(path@, root@) is None,
        },
        r matches Some(p) ==> p@.len() == 0 || p@[0] != '/',
{
    if !starts_with(path, root) {
        return None;
    }
    let n = root.unicode_len();
    let m = path.unicode_len();
    let rest = path.substring_char(n, m);
    let k = rest.unicode_len();
    if !(k == 0 || rest.get_char(0) == '/' || n == 0 || root.get_char(n - 1) == '/') {
        return None;
    }
    let mut i: usize = 0;
    assert(rest@.subrange(0, k as int) =~= rest@);
    while i < k && rest.get_char(i) == '/'
        invariant
            0 <= i <= k,
            k == rest@.len(),
            trim_leading_slashes(rest@) == trim_leading_slashes(rest@.subrange(i as int, k as int)),
        decreases k - i,
    {
        assert(rest@.subrange(i as int, k as int).subrange(1, k - i) =~= rest@.subrange(
            i + 1,
            k as int,
        ));
        i = i + 1;
    }
    proof {
        lemma_trimmed_is_relative(rest@);
    }
    Some(rest.substring_char(i, k).to_owned())
}

impl AnnotationLevel {
    /// The level for a diagnostic's severity text.
    pub fn from_severity(level: &str) -> (r: AnnotationLevel)
        ensures
            r == level_of(level@),
    {
        if text_eq(level, "warning") {
            AnnotationLevel::Warning
        } else if text_eq(level, "error") {
            AnnotationLevel::Error
        } else {
            AnnotationLevel::Info
        }
    }
}

impl Annotation {
    /// Turns a diagnostic into an annotation whose path is relative to
    /// `ws_root`.
    pub fn from_clippy_message(ws_root: &str, data: CompilerMessage) -> (r: Result<Annotation, TranslateError>)
        ensures
            match r {
                Ok(a) => translate(ws_root@, data) == Ok::<AnnotationView, TranslateError>(a@),
                Err(e) => translate(ws_root@, data) == Err::<AnnotationView, TranslateError>(e),
            },
            r matches Ok(a) ==> a.path@.len() == 0 || a.path@[0] != '/',
    {
        let level = AnnotationLevel::from_severity(data.message.level.as_str());
        let path = match strip_root(data.target.src_path.as_str(), ws_root) {
            Some(p) => p,
            None => return Err(TranslateError::PathOutsideWorkspace),
        };
        let i = match select_primary_span(&data.message.spans) {
            Some(i) => i,
            None => return Err(TranslateError::NoSpans),
        };
        let span = data.message.spans[i];
        let single = span.line_start == span.line_end;
        let start_column = if single { Some(span.column_start) } else { None };
        let end_column = if single { Some(span.column_end) } else { None };
        let r = Annotation {
            annotation_level: level,
            message: data.message.rendered,
            path,
            start_line: span.line_start,
            end_line: span.line_end,
            start_column,
            end_column,
        };
        Ok(r)
    }
}

} // verus!
