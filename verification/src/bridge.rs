//! Changes to the host that wait for a safe moment.
use std::collections::VecDeque;
use vstd::prelude::*;

verus! {

/// Changes that callbacks of the embedded application queue for the host.
///
/// Nothing happens to the host when a change is queued. Changes are applied one by
/// one, and one that queues another has it applied in the same run.
pub struct BevyMutationQueue<M> {
    queue: VecDeque<M>,
}

impl<M> View for BevyMutationQueue<M> {
    type V = Seq<M>;

    closed spec fn view(&self) -> Seq<M> {
        self.queue@
    }
}

impl<M> Default for BevyMutationQueue<M> {
    /// Nothing queued.
    fn default() -> (r: Self)
        ensures
            r@ == Seq::<M>::empty(),
    {
        BevyMutationQueue { queue: VecDeque::new() }
    }
}

impl<M> BevyMutationQueue<M> {
    /// Queues a change.
    pub fn push(&mut self, mutation: M)
        ensures
            final(self)@ == old(self)@.push(mutation),
    {
        self.queue.push_back(mutation);
    }

    /// The next change to apply, the one queued first.
    pub fn next_mutation(&mut self) -> (r: Option<M>)
        ensures
            r is Some <==> old(self)@.len() > 0,
            r matches Some(mutation) ==> mutation == old(self)@[0] && final(self)@ == old(
                self,
            )@.drop_first(),
            r is None ==> final(self)@ == old(self)@,
    {
        let next = self.queue.pop_front();
        proof {
            if next is Some {
                assert(self@ =~= old(self)@.drop_first());
            }
        }
        next
    }
}

/// The queue during a drain, once a change was applied for each element of `pushed`,
/// which holds what that change queued in turn.
pub open spec fn left_after<M>(queue: Seq<M>, pushed: Seq<Seq<M>>) -> Seq<M>
    decreases pushed.len(),
{
    if pushed.len() == 0 {
        queue
    } else {
        left_after(queue, pushed.drop_last()).drop_first() + pushed.last()
    }
}

/// The changes applied during a drain, in order.
pub open spec fn applied<M>(queue: Seq<M>, pushed: Seq<Seq<M>>) -> Seq<M>
    decreases pushed.len(),
{
    if pushed.len() == 0 {
        Seq::empty()
    } else {
        applied(queue, pushed.drop_last()).push(left_after(queue, pushed.drop_last())[0])
    }
}

/// Everything that was queued before and during a drain, in order.
pub open spec fn queued<M>(queue: Seq<M>, pushed: Seq<Seq<M>>) -> Seq<M>
    decreases pushed.len(),
{
    if pushed.len() == 0 {
        queue
    } else {
        queued(queue, pushed.drop_last()) + pushed.last()
    }
}

/// Whether a drain went on only while there was something to apply.
pub open spec fn is_drain<M>(queue: Seq<M>, pushed: Seq<Seq<M>>) -> bool
    decreases pushed.len(),
{
    pushed.len() > 0 ==> is_drain(queue, pushed.drop_last()) && left_after(
        queue,
        pushed.drop_last(),
    ).len() > 0
}

/// Changes are applied in the order they were queued, each once: those queued during
/// a drain come after all that were queued before them. A drain that finds nothing
/// more has applied everything, and another finds an empty queue.
pub proof fn law_mutations_apply_in_order<M>(queue: Seq<M>, pushed: Seq<Seq<M>>)
    requires
        is_drain(queue, pushed),
    ensures
        applied(queue, pushed).len() == pushed.len(),
        pushed.len() <= queued(queue, pushed).len(),
        applied(queue, pushed) == queued(queue, pushed).take(pushed.len() as int),
        left_after(queue, pushed) == queued(queue, pushed).skip(pushed.len() as int),
        queue.is_prefix_of(queued(queue, pushed)),
        left_after(queue, pushed).len() == 0 ==> applied(queue, pushed) == queued(queue, pushed),
    decreases pushed.len(),
{
    if pushed.len() > 0 {
        let rest = pushed.drop_last();
        let n = rest.len() as int;
        law_mutations_apply_in_order(queue, rest);
        let all = queued(queue, rest);
        let next = queued(queue, pushed);
        assert(next =~= all + pushed.last());
        assert(left_after(queue, rest) == all.skip(n));
        assert(n < all.len());
        assert(all.skip(n).drop_first() + pushed.last() =~= next.skip(n + 1));
        assert(all.take(n).push(all[n]) =~= next.take(n + 1));
        assert(queue =~= next.take(queue.len() as int));
    } else {
        assert(queue.take(0) =~= Seq::<M>::empty());
        assert(queue.skip(0) =~= queue);
    }
    if left_after(queue, pushed).len() == 0 {
        let all = queued(queue, pushed);
        assert(all.len() <= pushed.len());
        assert(all.take(pushed.len() as int) =~= all);
    }
}

/// A change that is queued waits behind all that were queued before it, and the one that
/// waited longest comes out first, once.
pub proof fn law_first_queued_is_applied_first<M>(
    queue: &mut BevyMutationQueue<M>,
    mutation: M,
    later: &mut BevyMutationQueue<M>,
    next: Option<M>,
)
    requires
        call_ensures(BevyMutationQueue::<M>::push, (queue, mutation), ()),
        old(later)@ == final(queue)@,
        call_ensures(BevyMutationQueue::<M>::next_mutation, (later,), next),
    ensures
        old(queue)@.len() == 0 ==> next == Some(mutation) && final(later)@.len() == 0,
        old(queue)@.len() > 0 ==> next == Some(old(queue)@[0]) && final(later)@.last() == mutation,
        final(later)@.len() == old(queue)@.len(),
        forall|i: int|
            0 <= i < old(queue)@.len() - 1 ==> #[trigger] final(later)@[i] == old(queue)@[i + 1],
{
}

} // verus!
