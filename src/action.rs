//! The decisions of one run: which input lines count, when a batch goes
//! out, and how the run concludes. Reading the input and talking to the
//! service are left to the caller, which feeds each line in as a
//! `LineEvent` and sends the messages handed back.

use vstd::prelude::*;

use crate::check_run::{
    now, text_eq, translate, Annotation, AnnotationView, CheckDetails, CheckRun, Conclusion,
    Status, Timestamp, TranslateError,
};
use crate::clippy::CompilerMessage;
use crate::publisher::{push_all, push_step, Publisher, BATCH_SIZE};

verus! {

/// A required piece of the run's context is absent.
#[derive(Debug)]
pub enum ActionError {
    MissingEnvironmentVar(String),
}

/// How a run is set up: the check's name and title, where the diagnostics
/// come from, and whether records that fail to decode are skipped.
#[derive(Debug)]
pub struct ActionOptions {
    pub name: String,
    pub title: String,
    pub input_path: String,
    pub ignore_parse_errors: bool,
}

impl ActionOptions {
    /// Options with the given values.
    pub fn new(name: String, title: String, input_path: String, ignore_parse_errors: bool) -> (r: Self)
        ensures
            r.name == name,
            r.title == title,
            r.input_path == input_path,
            r.ignore_parse_errors == ignore_parse_errors,
    {
        ActionOptions { name, title, input_path, ignore_parse_errors }
    }
}

/// What one line of the input turned out to be.
#[derive(Debug)]
pub enum LineEvent {
    /// A record of another kind.
    Other,
    /// A diagnostic record, decoded.
    Diagnostic(CompilerMessage),
    /// A diagnostic record that did not decode.
    Malformed,
}

/// Why a run stopped.
#[derive(Clone, Copy, Debug, PartialEq, Eq, Structural)]
pub enum RunError {
    /// A diagnostic record did not decode and such records are not skipped.
    Decode,
    /// A diagnostic could not be made into an annotation.
    Translate(TranslateError),
}

/// The record kind that carries a diagnostic.
pub open spec fn is_compiler_message_reason(reason: Seq<char>) -> bool {
    reason == "compiler-message"@
}

/// Whether a record's `reason` marks it as a diagnostic.
pub fn is_compiler_message(reason: &str) -> (r: bool)
    ensures
        r == is_compiler_message_reason(reason@),
{
    text_eq(reason, "compiler-message")
}

/// The character of decimal digit `d`.
pub open spec fn digit_char(d: nat) -> char {
    seq!['0', '1', '2', '3', '4', '5', '6', '7', '8', '9'][d as int]
}

/// The decimal digits of `n`, most significant first.
pub open spec fn decimal(n: nat) -> Seq<char>
    decreases n,
{
    if n < 10 {
        seq![digit_char(n)]
    } else {
        decimal(n / 10).push(digit_char(n % 10))
    }
}

/// The summary a finished run reports.
pub open spec fn summary_text(issues: nat) -> Seq<char> {
    decimal(issues) + " issues found"@
}

/// The text of decimal digit `d`.
fn digit_text(d: u64) -> (r: &'static str)
    requires
        d < 10,
    ensures
        r@ == seq![digit_char(d as nat)],
{
    if d == 0 {
        proof {
            reveal_strlit("0");
        }
        assert("0"@ =~= seq![digit_char(d as nat)]);
        "0"
    } else if d == 1 {
        proof {
            reveal_strlit("1");
        }
        assert("1"@ =~= seq![digit_char(d as nat)]);
        "1"
    } else if d == 2 {
        proof {
            reveal_strlit("2");
        }
        assert("2"@ =~= seq![digit_char(d as nat)]);
        "2"
    } else if d == 3 {
        proof {
            reveal_strlit("3");
        }
        assert("3"@ =~= seq![digit_char(d as nat)]);
        "3"
    } else if d == 4 {
        proof {
            reveal_strlit("4");
        }
        assert("4"@ =~= seq![digit_char(d as nat)]);
        "4"
    } else if d == 5 {
        proof {
            reveal_strlit("5");
        }
        assert("5"@ =~= seq![digit_char(d as nat)]);
        "5"
    } else if d == 6 {
        proof {
            reveal_strlit("6");
        }
        assert("6"@ =~= seq![digit_char(d as nat)]);
        "6"
    } else if d == 7 {
        proof {
            reveal_strlit("7");
        }
        assert("7"@ =~= seq![digit_char(d as nat)]);
        "7"
    } else if d == 8 {
        proof {
            reveal_strlit("8");
        }
        assert("8"@ =~= seq![digit_char(d as nat)]);
        "8"
    } else {
        proof {
            reveal_strlit("9");
        }
        assert("9"@ =~= seq![digit_char(d as nat)]);
        "9"
    }
}

/// `n` written in decimal.
pub fn decimal_string(n: u64) -> (r: String)
    ensures
        r@ == decimal(n as nat),
    decreases n,
{
    if n < 10 {
        String::from_str(digit_text(n))
    } else {
        let mut s = decimal_string(n / 10);
        s.append(digit_text(n % 10));
        s
    }
}

/// The summary for `issues` issues found.
pub fn issues_summary(issues: u64) -> (r: String)
    ensures
        r@ == summary_text(issues as nat),
{
    let s = decimal_string(issues);
    s.concat(" issues found")
}

/// A run fails when any issue was found.
pub open spec fn conclusion_for(issues: nat) -> Conclusion {
    if issues > 0 {
        Conclusion::Failure
    } else {
        Conclusion::Success
    }
}

/// The state of a run: the issues counted so far and the annotations
/// waiting to be sent.
pub struct RunModel {
    pub issues: nat,
    pub pending: Seq<AnnotationView>,
}

/// A run that has counted nothing and holds nothing.
pub open spec fn initial_model() -> RunModel {
    RunModel { issues: 0, pending: Seq::empty() }
}

/// One line's effect on a run under workspace root `root`: the next state
/// and the batch to send, if one filled up.
pub open spec fn step_model(ignore_parse_errors: bool, root: Seq<char>, s: RunModel, e: LineEvent) -> Result<
    (RunModel, Option<Seq<AnnotationView>>),
    RunError,
> {
    match e {
        LineEvent::Other => Ok((s, None)),
        LineEvent::Malformed => if ignore_parse_errors {
            Ok((s, None))
        } else {
            Err(RunError::Decode)
        },
        LineEvent::Diagnostic(m) => match translate(root, m) {
            Err(t) => Err(RunError::Translate(t)),
            Ok(a) => {
                let (batch, pending) = push_step(s.pending, a);
                Ok((RunModel { issues: s.issues + 1, pending }, batch))
            },
        },
    }
}

/// A whole stream's effect on a run: the final state and the batches sent
/// on the way, or the error that stopped it.
pub open spec fn drive(ignore_parse_errors: bool, root: Seq<char>, s: RunModel, events: Seq<LineEvent>) -> Result<
    (RunModel, Seq<Seq<AnnotationView>>),
    RunError,
>
    decreases events.len(),
{
    if events.len() == 0 {
        Ok((s, Seq::empty()))
    } else {
        match step_model(ignore_parse_errors, root, s, events[0]) {
            Err(e) => Err(e),
            Ok((next, batch)) => match drive(ignore_parse_errors, root, next, events.drop_first()) {
                Err(e) => Err(e),
                Ok((last, rest)) => match batch {
                    Some(b) => Ok((last, seq![b] + rest)),
                    None => Ok((last, rest)),
                },
            },
        }
    }
}

/// A stream with no diagnostic record in it sends no batch, counts no
/// issue and so concludes in success, with an empty closing batch.
pub proof fn lemma_no_diagnostics_succeeds(ignore_parse_errors: bool, root: Seq<char>, events: Seq<LineEvent>)
    requires
        forall|i: int| 0 <= i < events.len() ==> #[trigger] events[i] is Other,
    ensures
        drive(ignore_parse_errors, root, initial_model(), events) == Ok::<
            (RunModel, Seq<Seq<AnnotationView>>),
            RunError,
        >((initial_model(), Seq::empty())),
        conclusion_for(initial_model().issues) == Conclusion::Success,
        initial_model().pending.len() == 0,
    decreases events.len(),
{
    if events.len() > 0 {
        assert(events[0] is Other);
        let rest = events.drop_first();
        assert forall|i: int| 0 <= i < rest.len() implies #[trigger] rest[i] is Other by {
            assert(rest[i] == events[i + 1]);
        };
        lemma_no_diagnostics_succeeds(ignore_parse_errors, root, rest);
    }
}

/// Every issue counted becomes exactly one annotation: over a stream, the
/// issues added equal the annotations sent in batches plus the growth of
/// what is pending. From a fresh run, the issue count is the number of
/// annotations sent and still pending.
pub proof fn lemma_issues_match_annotations(
    ignore_parse_errors: bool,
    root: Seq<char>,
    s: RunModel,
    events: Seq<LineEvent>,
)
    requires
        drive(ignore_parse_errors, root, s, events) is Ok,
    ensures
        ({
            let (m, batches) = drive(ignore_parse_errors, root, s, events)->Ok_0;
            m.issues + s.pending.len() == s.issues + batches.flatten().len() + m.pending.len()
        }),
    decreases events.len(),
{
    if events.len() == 0 {
        assert(Seq::<Seq<AnnotationView>>::empty().flatten() =~= Seq::<AnnotationView>::empty());
    } else {
        let (next, batch) = step_model(ignore_parse_errors, root, s, events[0])->Ok_0;
        lemma_issues_match_annotations(ignore_parse_errors, root, next, events.drop_first());
        let (m, rest) = drive(ignore_parse_errors, root, next, events.drop_first())->Ok_0;
        match batch {
            Some(b) => {
                let all = seq![b] + rest;
                assert(all.drop_first() =~= rest);
                assert(all.flatten() == b + rest.flatten());
            },
            None => {},
        }
    }
}

/// How many of `events` are decoded diagnostic records.
pub open spec fn count_diagnostics(events: Seq<LineEvent>) -> nat
    decreases events.len(),
{
    if events.len() == 0 {
        0
    } else {
        (if events[0] is Diagnostic {
            1nat
        } else {
            0nat
        }) + count_diagnostics(events.drop_first())
    }
}

/// Whether an event goes through a run without stopping it, whatever the
/// handling of malformed records.
pub open spec fn passes(root: Seq<char>, e: LineEvent) -> bool {
    match e {
        LineEvent::Other => true,
        LineEvent::Diagnostic(m) => translate(root, m) is Ok,
        LineEvent::Malformed => false,
    }
}

/// Where every diagnostic record can be annotated, a run that skips
/// malformed records goes to the end and counts one issue per diagnostic
/// record.
pub proof fn lemma_skipping_counts_diagnostics(root: Seq<char>, s: RunModel, events: Seq<LineEvent>)
    requires
        forall|i: int|
            0 <= i < events.len() ==> passes(root, #[trigger] events[i]) || events[i] is Malformed,
    ensures
        drive(true, root, s, events) is Ok,
        drive(true, root, s, events)->Ok_0.0.issues == s.issues + count_diagnostics(events),
    decreases events.len(),
{
    if events.len() > 0 {
        let rest = events.drop_first();
        assert(passes(root, events[0]) || events[0] is Malformed);
        assert forall|i: int| 0 <= i < rest.len() implies passes(root, #[trigger] rest[i])
            || rest[i] is Malformed by {
            assert(rest[i] == events[i + 1]);
        };
        let next = step_model(true, root, s, events[0])->Ok_0.0;
        lemma_skipping_counts_diagnostics(root, next, rest);
    }
}

/// A run that does not skip malformed records stops with a decode error
/// at the first one, when nothing before it stopped the run.
pub proof fn lemma_malformed_stops(root: Seq<char>, s: RunModel, events: Seq<LineEvent>, k: int)
    requires
        0 <= k < events.len(),
        events[k] is Malformed,
        forall|i: int| 0 <= i < k ==> passes(root, #[trigger] events[i]),
    ensures
        drive(false, root, s, events) == Err::<(RunModel, Seq<Seq<AnnotationView>>), RunError>(
            RunError::Decode,
        ),
    decreases k,
{
    if k > 0 {
        let rest = events.drop_first();
        assert(passes(root, events[0]));
        assert forall|i: int| 0 <= i < k - 1 implies passes(root, #[trigger] rest[i]) by {
            assert(rest[i] == events[i + 1]);
        };
        let next = step_model(false, root, s, events[0])->Ok_0.0;
        lemma_malformed_stops(root, next, rest, k - 1);
    }
}

/// The annotations that the diagnostic records among `events` become,
/// in order.
pub open spec fn annotations_of(root: Seq<char>, events: Seq<LineEvent>) -> Seq<AnnotationView>
    decreases events.len(),
{
    if events.len() == 0 {
        Seq::empty()
    } else {
        let rest = annotations_of(root, events.drop_first());
        match events[0] {
            LineEvent::Diagnostic(m) => seq![translate(root, m)->Ok_0] + rest,
            _ => rest,
        }
    }
}

/// Over a whole stream that nothing stops, a run batches exactly as the
/// publisher does on the stream's annotations: the batches sent and what
/// is left for the closing message are those of `push_all`, and one
/// issue is counted per diagnostic record.
pub proof fn lemma_stream_batches(
    ignore_parse_errors: bool,
    root: Seq<char>,
    s: RunModel,
    events: Seq<LineEvent>,
)
    requires
        forall|i: int|
            0 <= i < events.len() ==> passes(root, #[trigger] events[i]) || (ignore_parse_errors
                && events[i] is Malformed),
    ensures
        drive(ignore_parse_errors, root, s, events) == Ok::<
            (RunModel, Seq<Seq<AnnotationView>>),
            RunError,
        >(
            (
                RunModel {
                    issues: s.issues + count_diagnostics(events),
                    pending: push_all(s.pending, annotations_of(root, events)).1,
                },
                push_all(s.pending, annotations_of(root, events)).0,
            ),
        ),
    decreases events.len(),
{
    if events.len() > 0 {
        let rest = events.drop_first();
        assert(passes(root, events[0]) || (ignore_parse_errors && events[0] is Malformed));
        assert forall|i: int| 0 <= i < rest.len() implies passes(root, #[trigger] rest[i]) || (
        ignore_parse_errors && rest[i] is Malformed) by {
            assert(rest[i] == events[i + 1]);
        };
        let next = step_model(ignore_parse_errors, root, s, events[0])->Ok_0.0;
        lemma_stream_batches(ignore_parse_errors, root, next, rest);
        let ann = annotations_of(root, events);
        let ann_rest = annotations_of(root, rest);
        match events[0] {
            LineEvent::Diagnostic(m) => {
                assert(ann[0] == translate(root, m)->Ok_0);
                assert(ann.drop_first() =~= ann_rest);
            },
            _ => {},
        }
    }
}

/// The values of a sequence of annotations.
pub open spec fn views(s: Seq<Annotation>) -> Seq<AnnotationView> {
    s.map_values(|a: Annotation| a@)
}

/// One run of the pipeline, between the message that opens the check and
/// the one that closes it.
pub struct Run {
    details: CheckDetails,
    publisher: Publisher,
    total_issues: u64,
    workspace: String,
    ignore_parse_errors: bool,
}

impl Run {
    /// The issues counted and the annotations pending.
    pub closed spec fn model(&self) -> RunModel {
        RunModel { issues: self.total_issues as nat, pending: views(self.publisher@) }
    }

    /// The workspace root that paths are made relative to.
    pub closed spec fn root(&self) -> Seq<char> {
        self.workspace@
    }

    /// Whether records that fail to decode are skipped.
    pub closed spec fn ignores_parse_errors(&self) -> bool {
        self.ignore_parse_errors
    }

    /// The details every message of the run repeats.
    pub closed spec fn details(&self) -> CheckDetails {
        self.details
    }

    /// The pending annotations stay below a full batch.
    pub closed spec fn wf(&self) -> bool {
        self.publisher.wf()
    }

    /// Sets up a run for commit `sha` with diagnostics under `workspace`,
    /// and gives the message that opens its check.
    pub fn start(options: ActionOptions, sha: String, workspace: String) -> (r: (Run, CheckRun))
        ensures
            r.0.wf(),
            r.0.model() == initial_model(),
            r.0.root() == workspace@,
            r.0.ignores_parse_errors() == options.ignore_parse_errors,
            r.0.details().name == options.name,
            r.0.details().head_sha == sha,
            r.0.details().title == options.title,
            r.0.details().summary@ == "In Progress"@,
            r.1.details == r.0.details(),
            r.1.status == Status::InProgress,
            r.1.completed_at is None,
            r.1.conclusion is None,
            r.1.output is None,
    {
        let details = CheckDetails::create(options.name, sha, options.title, "In Progress".to_owned());
        let opening = CheckRun::new(&details);
        let publisher = Publisher::new();
        assert(views(publisher@) =~= Seq::<AnnotationView>::empty());
        let run = Run {
            details,
            publisher,
            total_issues: 0,
            workspace,
            ignore_parse_errors: options.ignore_parse_errors,
        };
        (run, opening)
    }

    /// The number of issues counted so far.
    pub fn issue_count(&self) -> (r: u64)
        ensures
            r as nat == self.model().issues,
    {
        self.total_issues
    }

    /// Takes in one line of the input; gives the progress message to send
    /// when a batch has filled up.
    pub fn step(&mut self, event: LineEvent) -> (r: Result<Option<CheckRun>, RunError>)
        requires
            old(self).wf(),
            old(self).model().issues < u64::MAX,
        ensures
            final(self).wf(),
            final(self).root() == old(self).root(),
            final(self).ignores_parse_errors() == old(self).ignores_parse_errors(),
            final(self).details() == old(self).details(),
            match step_model(old(self).ignores_parse_errors(), old(self).root(), old(self).model(), event) {
                Err(e) => r == Err::<Option<CheckRun>, RunError>(e) && final(self).model() == old(self).model(),
                Ok((m, batch)) => {
                    &&& r is Ok
                    &&& final(self).model() == m
                    &&& match batch {
                        None => r->Ok_0 is None,
                        Some(b) => {
                            &&& r->Ok_0 is Some
                            &&& r->Ok_0->0.details == old(self).details()
                            &&& r->Ok_0->0.status == Status::InProgress
                            &&& r->Ok_0->0.completed_at is None
                            &&& r->Ok_0->0.conclusion is None
                            &&& r->Ok_0->0.output is Some
                            &&& r->Ok_0->0.output->0.title == old(self).details().title
                            &&& r->Ok_0->0.output->0.summary == old(self).details().summary
                            &&& views(r->Ok_0->0.output->0.annotations@) == b
                        },
                    }
                },
            },
    {
        match event {
            LineEvent::Other => Ok(None),
            LineEvent::Malformed => {
                if self.ignore_parse_errors {
                    Ok(None)
                } else {
                    Err(RunError::Decode)
                }
            },
            LineEvent::Diagnostic(m) => {
                let annotation = match Annotation::from_clippy_message(self.workspace.as_str(), m) {
                    Ok(a) => a,
                    Err(e) => return Err(RunError::Translate(e)),
                };
                let ghost a = annotation;
                let ghost before = self.publisher@;
                self.total_issues = self.total_issues + 1;
                let flushed = self.publisher.push(annotation);
                proof {
                    let next = before.push(a);
                    assert(views(next) =~= views(before).push(a@));
                    if next.len() < BATCH_SIZE {
                        assert(views(self.publisher@) =~= views(next));
                    } else {
                        assert(views(self.publisher@) =~= Seq::<AnnotationView>::empty());
                    }
                }
                match flushed {
                    Some(batch) => Ok(Some(CheckRun::update(&self.details, batch))),
                    None => Ok(None),
                }
            },
        }
    }

    /// Ends the run at time `at`: the closing message reports the issue
    /// count, the conclusion and the annotations still pending.
    pub fn finish_at(self, at: Timestamp) -> (r: CheckRun)
        requires
            self.wf(),
        ensures
            r.details.name == self.details().name,
            r.details.head_sha == self.details().head_sha,
            r.details.title == self.details().title,
            r.details.summary@ == summary_text(self.model().issues),
            r.status == Status::InProgress,
            r.completed_at == Some(at),
            r.conclusion == Some(conclusion_for(self.model().issues)),
            r.output is Some,
            r.output->0.title == self.details().title,
            r.output->0.summary@ == summary_text(self.model().issues),
            views(r.output->0.annotations@) == self.model().pending,
    {
        let Run { mut details, publisher, total_issues, workspace: _, ignore_parse_errors: _ } = self;
        details.update_summary(issues_summary(total_issues));
        let conclusion = if total_issues > 0 {
            Conclusion::Failure
        } else {
            Conclusion::Success
        };
        CheckRun::complete_at(&details, conclusion, publisher.finish(), at)
    }

    /// Ends the run now.
    pub fn finish(self) -> (r: CheckRun)
        requires
            self.wf(),
        ensures
            r.details.name == self.details().name,
            r.details.head_sha == self.details().head_sha,
            r.details.title == self.details().title,
            r.details.summary@ == summary_text(self.model().issues),
            r.status == Status::InProgress,
            r.completed_at is Some,
            r.conclusion == Some(conclusion_for(self.model().issues)),
            r.output is Some,
            r.output->0.title == self.details().title,
            r.output->0.summary@ == summary_text(self.model().issues),
            views(r.output->0.annotations@) == self.model().pending,
    {
        let at = now();
        self.finish_at(at)
    }
}

} // verus!
