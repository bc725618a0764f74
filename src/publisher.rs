//! Collects annotations into batches no larger than the service accepts in
//! one request.

use vstd::prelude::*;

use crate::check_run::Annotation;

verus! {

/// The most annotations the remote service takes in one request.
pub const BATCH_SIZE: usize = 50;

/// One push: the item joins the pending batch, and a batch that reaches
/// `BATCH_SIZE` is handed out whole, leaving nothing pending.
pub open spec fn push_step<A>(pending: Seq<A>, item: A) -> (Option<Seq<A>>, Seq<A>) {
    let next = pending.push(item);
    if next.len() >= BATCH_SIZE {
        (Some(next), Seq::empty())
    } else {
        (None, next)
    }
}

/// Pushing `items` in order onto `pending`: the batches handed out, and
/// what is left pending.
pub open spec fn push_all<A>(pending: Seq<A>, items: Seq<A>) -> (Seq<Seq<A>>, Seq<A>)
    decreases items.len(),
{
    if items.len() == 0 {
        (Seq::empty(), pending)
    } else {
        let (batch, next) = push_step(pending, items[0]);
        let (rest, left) = push_all(next, items.drop_first());
        match batch {
            Some(b) => (seq![b] + rest, left),
            None => (rest, left),
        }
    }
}

/// Nothing is lost, duplicated or reordered: the batches handed out,
/// followed by what is left pending, are the pending items followed by
/// the pushed ones. Every batch is full and fewer than a batch stay
/// pending.
pub proof fn lemma_push_all_keeps_order<A>(pending: Seq<A>, items: Seq<A>)
    requires
        pending.len() < BATCH_SIZE,
    ensures
        push_all(pending, items).0.flatten() + push_all(pending, items).1 == pending + items,
        forall|i: int|
            0 <= i < push_all(pending, items).0.len() ==> #[trigger] push_all(
                pending,
                items,
            ).0[i].len() == BATCH_SIZE,
        push_all(pending, items).1.len() < BATCH_SIZE,
    decreases items.len(),
{
    if items.len() == 0 {
        assert(Seq::<Seq<A>>::empty().flatten() =~= Seq::<A>::empty());
        assert(Seq::<A>::empty() + pending =~= pending + items);
    } else {
        let (batch, next) = push_step(pending, items[0]);
        lemma_push_all_keeps_order(next, items.drop_first());
        let (rest, left) = push_all(next, items.drop_first());
        assert(pending + items =~= pending.push(items[0]) + items.drop_first());
        match batch {
            Some(b) => {
                let all = seq![b] + rest;
                assert(all.drop_first() =~= rest);
                assert(all.flatten() == b + rest.flatten());
                assert(b + rest.flatten() + left =~= b + (rest.flatten() + left));
                assert(rest.flatten() + left =~= items.drop_first()) by {
                    assert(next =~= Seq::<A>::empty());
                };
                assert forall|i: int| 0 <= i < all.len() implies #[trigger] all[i].len() == BATCH_SIZE by {
                    if i > 0 {
                        assert(all[i] == rest[i - 1]);
                    }
                };
            },
            None => {},
        }
    }
}

/// Pushing items until exactly `BATCH_SIZE` have gathered hands out one
/// batch of all of them, in order, and leaves nothing pending.
pub proof fn lemma_full_batch_flushes_once<A>(pending: Seq<A>, items: Seq<A>)
    requires
        items.len() > 0,
        pending.len() + items.len() == BATCH_SIZE,
    ensures
        push_all(pending, items) == (seq![pending + items], Seq::<A>::empty()),
    decreases items.len(),
{
    let (batch, next) = push_step(pending, items[0]);
    if items.len() == 1 {
        assert(pending.push(items[0]) =~= pending + items);
        assert(push_all(next, items.drop_first()) == (Seq::<Seq<A>>::empty(), next));
        assert(seq![pending + items] + Seq::<Seq<A>>::empty() =~= seq![pending + items]);
    } else {
        lemma_full_batch_flushes_once(next, items.drop_first());
        assert(next + items.drop_first() =~= pending + items);
    }
}

/// Pushing items that leave fewer than `BATCH_SIZE` gathered hands out
/// nothing: all of them stay pending, in order.
pub proof fn lemma_partial_batch_stays<A>(pending: Seq<A>, items: Seq<A>)
    requires
        pending.len() + items.len() < BATCH_SIZE,
    ensures
        push_all(pending, items) == (Seq::<Seq<A>>::empty(), pending + items),
    decreases items.len(),
{
    if items.len() == 0 {
        assert(pending + items =~= pending);
    } else {
        let (batch, next) = push_step(pending, items[0]);
        lemma_partial_batch_stays(next, items.drop_first());
        assert(next + items.drop_first() =~= pending + items);
    }
}

/// The annotations gathered for the next request to the service.
pub struct Publisher {
    buffer: Vec<Annotation>,
}

impl View for Publisher {
    type V = Seq<Annotation>;

    closed spec fn view(&self) -> Seq<Annotation> {
        self.buffer@
    }
}

impl Publisher {
    /// Fewer than a full batch is ever held.
    pub open spec fn wf(&self) -> bool {
        self@.len() < BATCH_SIZE
    }

    /// An empty publisher.
    pub fn new() -> (r: Publisher)
        ensures
            r.wf(),
            r@ == Seq::<Annotation>::empty(),
    {
        Publisher { buffer: Vec::with_capacity(BATCH_SIZE) }
    }

    /// How many annotations are pending.
    pub fn len(&self) -> (r: usize)
        ensures
            r == self@.len(),
    {
        self.buffer.len()
    }

    /// Adds an annotation; returns the batch to send once it is full.
    pub fn push(&mut self, annotation: Annotation) -> (flushed: Option<Vec<Annotation>>)
        requires
            old(self).wf(),
        ensures
            final(self).wf(),
            push_step(old(self)@, annotation) == (
                match flushed {
                    Some(b) => Some(b@),
                    None => None::<Seq<Annotation>>,
                },
                final(self)@,
            ),
    {
        self.buffer.push(annotation);
        if self.buffer.len() >= BATCH_SIZE {
            let mut batch = Vec::with_capacity(BATCH_SIZE);
            std::mem::swap(&mut batch, &mut self.buffer);
            Some(batch)
        } else {
            None
        }
    }

    /// Hands out what is pending, for the closing request.
    pub fn finish(self) -> (rest: Vec<Annotation>)
        ensures
            rest@ == self@,
    {
        self.buffer
    }
}

} // verus!
