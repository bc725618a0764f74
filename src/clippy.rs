//! The compiler diagnostic record, as one line of the input stream holds it.

use vstd::prelude::*;

verus! {

/// The compilation target that a diagnostic belongs to.
#[derive(Debug)]
pub struct Target {
    pub src_path: String,
    pub name: String,
}

/// The diagnostic itself: short text, severity, rendered text and spans.
#[derive(Debug)]
pub struct Message {
    pub message: String,
    pub level: String,
    pub spans: Vec<Span>,
    pub rendered: String,
}

/// A source region that a diagnostic points at.
#[derive(Clone, Copy, Debug, PartialEq, Eq)]
pub struct Span {
    pub line_start: u64,
    pub line_end: u64,
    pub column_start: u64,
    pub column_end: u64,
    pub is_primary: bool,
}

/// One decoded "compiler-message" record.
#[derive(Debug)]
pub struct CompilerMessage {
    pub target: Target,
    pub message: Message,
}

/// The index of the first primary span at or after `i`, if any.
pub open spec fn first_primary_from(spans: Seq<Span>, i: nat) -> Option<nat>
    decreases spans.len() - i,
{
    if i >= spans.len() {
        None
    } else if spans[i as int].is_primary {
        Some(i)
    } else {
        first_primary_from(spans, i + 1)
    }
}

/// The span a diagnostic is reported at: the first primary one, or else
/// the first one; none for an empty list.
pub open spec fn primary_span_index(spans: Seq<Span>) -> Option<nat> {
    if spans.len() == 0 {
        None
    } else {
        match first_primary_from(spans, 0) {
            Some(i) => Some(i),
            None => Some(0),
        }
    }
}

/// Where no span before `k` is primary and span `k` is, the search from
/// any `i <= k` ends at `k`.
pub proof fn lemma_first_primary_at(spans: Seq<Span>, i: nat, k: nat)
    requires
        i <= k < spans.len(),
        spans[k as int].is_primary,
        forall|j: int| i <= j < k ==> !spans[j].is_primary,
    ensures
        first_primary_from(spans, i) == Some(k),
    decreases k - i,
{
    if i < k {
        lemma_first_primary_at(spans, i + 1, k);
    }
}

/// Where no span from `i` on is primary, the search from `i` finds none.
pub proof fn lemma_no_primary_from(spans: Seq<Span>, i: nat)
    requires
        forall|j: int| i <= j < spans.len() ==> !spans[j].is_primary,
    ensures
        first_primary_from(spans, i) == None::<nat>,
    decreases spans.len() - i,
{
    if i < spans.len() {
        lemma_no_primary_from(spans, i + 1);
    }
}

/// Of a list with exactly one primary span, that span is the one
/// reported, wherever it stands.
pub proof fn lemma_single_primary_selected(spans: Seq<Span>, k: nat)
    requires
        k < spans.len(),
        spans[k as int].is_primary,
        forall|j: int| 0 <= j < spans.len() && j != k ==> !spans[j].is_primary,
    ensures
        primary_span_index(spans) == Some(k),
{
    lemma_first_primary_at(spans, 0, k);
}

/// Of a non-empty list with no primary span, the first span is the one
/// reported.
pub proof fn lemma_no_primary_selects_first(spans: Seq<Span>)
    requires
        spans.len() > 0,
        forall|j: int| 0 <= j < spans.len() ==> !spans[j].is_primary,
    ensures
        primary_span_index(spans) == Some(0nat),
{
    lemma_no_primary_from(spans, 0);
}

/// Picks the span a diagnostic is reported at.
pub fn select_primary_span(spans: &Vec<Span>) -> (r: Option<usize>)
    ensures
        match r {
            Some(i) => primary_span_index(spans@) == Some(i as nat) && i < spans@.len(),
            None => primary_span_index(spans@) is None,
        },
{
    if spans.len() == 0 {
        return None;
    }
    let mut i: usize = 0;
    while i < spans.len()
        invariant
            0 <= i <= spans.len(),
            first_primary_from(spans@, 0) == first_primary_from(spans@, i as nat),
        decreases spans.len() - i,
    {
        if spans[i].is_primary {
            return Some(i);
        }
        i = i + 1;
    }
    Some(0)
}

} // verus!
