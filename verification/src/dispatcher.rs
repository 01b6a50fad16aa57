//! Foreground tasks of the embedded application and its timers.
use std::collections::VecDeque;
use vstd::prelude::*;

verus! {

/// A task that waits for a point in time.
pub struct DelayedRunnable<R> {
    /// When it is due, in nanoseconds.
    pub deadline: u64,
    /// The task.
    pub runnable: R,
}

/// Tasks for the main thread, and those that wait for their time.
pub struct BevyDispatcher<R> {
    main_queue: VecDeque<R>,
    delayed: Vec<DelayedRunnable<R>>,
}

/// The dispatcher as plain values.
#[verifier::ext_equal]
#[verifier::reject_recursive_types(R)]
pub struct DispatcherView<R> {
    /// Tasks to run, the next one first.
    pub main_queue: Seq<R>,
    /// Tasks that wait.
    pub delayed: Seq<DelayedRunnable<R>>,
}

/// How many tasks of a bounded run have been started.
#[derive(Clone, Copy, Debug, PartialEq, Eq, Structural)]
pub struct DrainBudget {
    /// Most tasks to start.
    pub limit: usize,
    /// Tasks started so far.
    pub drained: usize,
}

impl DrainBudget {
    /// Whether another task may start, with some tasks queued.
    pub open spec fn has_next(self, queued: nat) -> bool {
        self.drained < self.limit && queued > 0
    }

    /// The budget once the next task was asked for.
    pub open spec fn after_next(self, queued: nat) -> DrainBudget {
        if self.has_next(queued) {
            DrainBudget { drained: (self.drained + 1) as usize, ..self }
        } else {
            self
        }
    }
}

impl<R> View for BevyDispatcher<R> {
    type V = DispatcherView<R>;

    closed spec fn view(&self) -> DispatcherView<R> {
        DispatcherView { main_queue: self.main_queue@, delayed: self.delayed@ }
    }
}

/// A list without the element at an index, whose place the last one takes.
pub open spec fn swap_removed<T>(items: Seq<T>, index: int) -> Seq<T> {
    items.update(index, items.last()).drop_last()
}

/// The tasks that become due, in the order in which they do: each that is due
/// leaves its place to the last one, which is then looked at in turn.
pub open spec fn due_from<R>(delayed: Seq<DelayedRunnable<R>>, index: int, now: u64) -> Seq<R>
    decreases delayed.len() - index,
{
    if index < 0 || index >= delayed.len() {
        Seq::empty()
    } else if delayed[index].deadline <= now {
        seq![delayed[index].runnable] + due_from(swap_removed(delayed, index), index, now)
    } else {
        due_from(delayed, index + 1, now)
    }
}

/// The tasks that go on waiting.
pub open spec fn waiting_from<R>(
    delayed: Seq<DelayedRunnable<R>>,
    index: int,
    now: u64,
) -> Seq<DelayedRunnable<R>>
    decreases delayed.len() - index,
{
    if index < 0 || index >= delayed.len() {
        delayed
    } else if delayed[index].deadline <= now {
        waiting_from(swap_removed(delayed, index), index, now)
    } else {
        waiting_from(delayed, index + 1, now)
    }
}

impl<R> DispatcherView<R> {
    /// The dispatcher once the due tasks have joined the queue.
    pub open spec fn released(self, now: u64) -> DispatcherView<R> {
        DispatcherView {
            main_queue: self.main_queue + due_from(self.delayed, 0, now),
            delayed: waiting_from(self.delayed, 0, now),
        }
    }
}

impl<R> BevyDispatcher<R> {
    /// A dispatcher without tasks.
    pub fn new() -> (r: Self)
        ensures
            r@ == (DispatcherView::<R> { main_queue: Seq::empty(), delayed: Seq::empty() }),
    {
        BevyDispatcher { main_queue: VecDeque::new(), delayed: Vec::new() }
    }

    /// Queues a task for the main thread.
    pub fn dispatch_on_main_thread(&mut self, runnable: R)
        ensures
            final(self)@ == (DispatcherView::<R> {
                main_queue: old(self)@.main_queue.push(runnable),
                ..old(self)@
            }),
    {
        self.main_queue.push_back(runnable);
    }

    /// Lets a task wait for some nanoseconds from now.
    pub fn dispatch_after(&mut self, now: u64, duration: u64, runnable: R)
        requires
            now + duration <= u64::MAX,
        ensures
            final(self)@ == (DispatcherView::<R> {
                delayed: old(self)@.delayed.push(
                    DelayedRunnable { deadline: (now + duration) as u64, runnable },
                ),
                ..old(self)@
            }),
    {
        self.delayed.push(DelayedRunnable { deadline: now + duration, runnable });
    }

    /// Moves the tasks that are due to the end of the queue.
    pub fn release_expired(&mut self, now: u64)
        ensures
            final(self)@ == old(self)@.released(now),
    {
        let mut index: usize = 0;
        let ghost before = self@;
        proof {
            assert(before.main_queue + due_from(self.delayed@, 0, now) =~= before.released(
                now,
            ).main_queue);
        }
        while index < self.delayed.len()
            invariant
                index <= self.delayed@.len(),
                self.main_queue@ + due_from(self.delayed@, index as int, now) == before.released(
                    now,
                ).main_queue,
                waiting_from(self.delayed@, index as int, now) == before.released(now).delayed,
            decreases self.delayed@.len() - index,
        {
            if self.delayed[index].deadline <= now {
                let ghost items = self.delayed@;
                let ghost queue = self.main_queue@;
                let task = self.delayed.swap_remove(index);
                proof {
                    assert(self.delayed@ =~= swap_removed(items, index as int));
                    assert(task == items[index as int]);
                    assert(queue + due_from(items, index as int, now) =~= queue.push(
                        task.runnable,
                    ) + due_from(self.delayed@, index as int, now));
                }
                self.main_queue.push_back(task.runnable);
            } else {
                index = index + 1;
            }
        }
        proof {
            assert(self.main_queue@ + Seq::<R>::empty() =~= self.main_queue@);
        }
    }

    /// Starts a bounded run: due tasks join the queue first.
    pub fn begin_drain(&mut self, now: u64, limit: usize) -> (r: DrainBudget)
        ensures
            r == (DrainBudget { limit, drained: 0 }),
            final(self)@ == old(self)@.released(now),
    {
        self.release_expired(now);
        DrainBudget { limit, drained: 0 }
    }

    /// The next task of a bounded run, unless the queue is empty or the budget is
    /// used up.
    pub fn next_runnable(&mut self, budget: &mut DrainBudget) -> (r: Option<R>)
        ensures
            r == (if old(budget).has_next(old(self)@.main_queue.len()) {
                Some(old(self)@.main_queue[0])
            } else {
                None
            }),
            final(self)@ == (if old(budget).has_next(old(self)@.main_queue.len()) {
                (DispatcherView::<R> {
                    main_queue: old(self)@.main_queue.drop_first(),
                    ..old(self)@
                })
            } else {
                old(self)@
            }),
            *final(budget) == old(budget).after_next(old(self)@.main_queue.len()),
    {
        if budget.drained >= budget.limit {
            return None;
        }
        match self.main_queue.pop_front() {
            Some(runnable) => {
                budget.drained = budget.drained + 1;
                proof {
                    assert(self.main_queue@ =~= old(self)@.main_queue.drop_first());
                }
                Some(runnable)
            },
            None => None,
        }
    }
}

proof fn lemma_swap_removed<T>(items: Seq<T>, index: int)
    requires
        0 <= index < items.len(),
    ensures
        swap_removed(items, index).to_multiset() == items.to_multiset().remove(items[index]),
        swap_removed(items, index).len() == items.len() - 1,
{
    let last = items.last();
    let kept = items.drop_last();
    let out = swap_removed(items, index);
    items.to_multiset_ensures();
    kept.to_multiset_ensures();
    assert(items =~= kept.push(last));
    assert(items.contains(items[index]));
    if index == items.len() - 1 {
        assert(out =~= kept);
    } else {
        out.to_multiset_ensures();
        assert(out[index] == last);
        assert(kept.remove(index) =~= out.remove(index));
        assert(kept.remove(index).to_multiset() =~= kept.to_multiset().remove(kept[index]));
        assert(out.remove(index).to_multiset() =~= out.to_multiset().remove(out[index]));
        assert(kept.to_multiset().remove(kept[index]) =~= out.to_multiset().remove(last));
        assert(kept.contains(kept[index]));
        assert(out.contains(last));
    }
    assert forall|item: T| #[trigger] out.to_multiset().count(item) == items.to_multiset().remove(
        items[index],
    ).count(item) by {
        assert(items.to_multiset().count(item) == kept.to_multiset().insert(last).count(item));
        if index < items.len() - 1 {
            assert(kept.to_multiset().remove(kept[index]).count(item) == out.to_multiset().remove(
                last,
            ).count(item));
        }
    }
    assert(out.to_multiset() =~= items.to_multiset().remove(items[index]));
}

/// The tasks that become due, with their deadlines.
pub open spec fn due_tasks_from<R>(
    delayed: Seq<DelayedRunnable<R>>,
    index: int,
    now: u64,
) -> Seq<DelayedRunnable<R>>
    decreases delayed.len() - index,
{
    if index < 0 || index >= delayed.len() {
        Seq::empty()
    } else if delayed[index].deadline <= now {
        seq![delayed[index]] + due_tasks_from(swap_removed(delayed, index), index, now)
    } else {
        due_tasks_from(delayed, index + 1, now)
    }
}

proof fn lemma_released_from<R>(
    delayed: Seq<DelayedRunnable<R>>,
    index: int,
    now: u64,
)
    requires
        0 <= index <= delayed.len(),
        forall|i: int| 0 <= i < index ==> (#[trigger] delayed[i]).deadline > now,
    ensures
        due_from(delayed, index, now) == due_tasks_from(delayed, index, now).map_values(
            |task: DelayedRunnable<R>| task.runnable,
        ),
        due_tasks_from(delayed, index, now).to_multiset().add(
            waiting_from(delayed, index, now).to_multiset(),
        ) == delayed.to_multiset(),
        forall|i: int|
            0 <= i < due_tasks_from(delayed, index, now).len() ==> (#[trigger] due_tasks_from(
                delayed,
                index,
                now,
            )[i]).deadline <= now,
        forall|i: int|
            0 <= i < waiting_from(delayed, index, now).len() ==> (#[trigger] waiting_from(
                delayed,
                index,
                now,
            )[i]).deadline > now,
    decreases delayed.len() - index,
{
    let pick = |task: DelayedRunnable<R>| task.runnable;
    if index >= delayed.len() {
        assert(due_tasks_from(delayed, index, now).map_values(pick) =~= Seq::<R>::empty());
        Seq::<DelayedRunnable<R>>::empty().to_multiset_ensures();
        assert(due_tasks_from(delayed, index, now).to_multiset().add(delayed.to_multiset())
            =~= delayed.to_multiset());
    } else if delayed[index].deadline <= now {
        let rest = swap_removed(delayed, index);
        assert forall|i: int| 0 <= i < index implies (#[trigger] rest[i]).deadline > now by {
            assert(rest[i] == delayed[i]);
        }
        lemma_released_from(rest, index, now);
        lemma_swap_removed(delayed, index);
        let later = due_tasks_from(rest, index, now);
        let all = seq![delayed[index]] + later;
        assert(all.map_values(pick) =~= seq![delayed[index].runnable] + later.map_values(pick));
        lemma_prepend_multiset(delayed[index], later);
        delayed.to_multiset_ensures();
        assert(delayed.contains(delayed[index]));
        let waiting = waiting_from(rest, index, now);
        assert forall|task: DelayedRunnable<R>| #[trigger]
            all.to_multiset().add(waiting.to_multiset()).count(task) == delayed.to_multiset().count(
                task,
            ) by {
            assert(rest.to_multiset().count(task) == later.to_multiset().add(
                waiting.to_multiset(),
            ).count(task));
            assert(all.to_multiset().count(task) == later.to_multiset().insert(
                delayed[index],
            ).count(task));
        }
        assert(all.to_multiset().add(waiting.to_multiset()) =~= delayed.to_multiset());
    } else {
        lemma_released_from(delayed, index + 1, now);
    }
}

proof fn lemma_prepend_multiset<T>(first: T, rest: Seq<T>)
    ensures
        (seq![first] + rest).to_multiset() == rest.to_multiset().insert(first),
    decreases rest.len(),
{
    if rest.len() == 0 {
        assert(seq![first] + rest =~= rest.push(first));
        rest.to_multiset_ensures();
    } else {
        let shorter = rest.drop_last();
        let last = rest.last();
        lemma_prepend_multiset(first, shorter);
        assert(seq![first] + rest =~= (seq![first] + shorter).push(last));
        (seq![first] + shorter).to_multiset_ensures();
        shorter.to_multiset_ensures();
        assert(rest =~= shorter.push(last));
        assert((seq![first] + rest).to_multiset() =~= rest.to_multiset().insert(first));
    }
}

/// Exactly the tasks whose deadline has passed join the queue, behind those already
/// there, and the others go on waiting: none is lost and none runs early or twice.
pub proof fn law_exactly_expired_tasks_are_released<R>(dispatcher: DispatcherView<R>, now: u64)
    ensures
        ({
            let due = due_tasks_from(dispatcher.delayed, 0, now);
            let after = dispatcher.released(now);
            &&& after.main_queue == dispatcher.main_queue + due.map_values(
                |task: DelayedRunnable<R>| task.runnable,
            )
            &&& due.to_multiset().add(after.delayed.to_multiset())
                == dispatcher.delayed.to_multiset()
            &&& forall|i: int| 0 <= i < due.len() ==> (#[trigger] due[i]).deadline <= now
            &&& forall|i: int|
                0 <= i < after.delayed.len() ==> (#[trigger] after.delayed[i]).deadline > now
        }),
{
    lemma_released_from(dispatcher.delayed, 0, now);
}

/// A bounded run never starts more tasks than its limit.
pub proof fn law_drain_stays_within_limit(budget: DrainBudget, queued: nat)
    requires
        budget.drained <= budget.limit,
    ensures
        budget.after_next(queued).drained <= budget.after_next(queued).limit,
        budget.after_next(queued).limit == budget.limit,
        budget.drained == budget.limit ==> budget.after_next(queued) == budget,
{
}

/// Tasks queued for the main thread run in the order they were queued.
pub proof fn law_queue_is_first_in_first_out<R>(queue: Seq<R>, first: R, second: R)
    ensures
        queue.len() == 0 ==> queue.push(first).push(second)[0] == first && queue.push(first).push(
            second,
        ).drop_first()[0] == second,
        queue.len() > 0 ==> queue.push(first)[0] == queue[0],
{
}

/// Another task starts exactly while tasks are queued and fewer have started than the
/// run may start, and is then counted.
pub proof fn law_tasks_start_while_budget_lasts(budget: DrainBudget, queued: nat)
    ensures
        budget.has_next(queued) <==> queued >= 1 && budget.limit > budget.drained,
        budget.after_next(queued).limit == budget.limit,
        queued >= 1 && budget.limit > budget.drained ==> budget.after_next(queued).drained
            == budget.drained + 1,
        queued == 0 || budget.limit <= budget.drained ==> budget.after_next(queued) == budget,
{
}

/// A task whose deadline is now or past joins the queue and one whose deadline lies
/// ahead goes on waiting, wherever it stands among the waiting tasks.
pub proof fn law_deadlines_decide<R>(
    dispatcher: DispatcherView<R>,
    now: u64,
    task: DelayedRunnable<R>,
)
    requires
        dispatcher.delayed.contains(task),
    ensures
        task.deadline > now ==> dispatcher.released(now).delayed.contains(task),
        task.deadline <= now ==> exists|i: int|
            dispatcher.main_queue.len() <= i < dispatcher.released(now).main_queue.len()
                && #[trigger] dispatcher.released(now).main_queue[i] == task.runnable,
        task.deadline <= now ==> !dispatcher.released(now).delayed.contains(task),
{
    law_exactly_expired_tasks_are_released(dispatcher, now);
    let due = due_tasks_from(dispatcher.delayed, 0, now);
    let after = dispatcher.released(now);
    dispatcher.delayed.to_multiset_ensures();
    due.to_multiset_ensures();
    after.delayed.to_multiset_ensures();
    assert(dispatcher.delayed.to_multiset().count(task) > 0);
    assert(due.to_multiset().count(task) + after.delayed.to_multiset().count(task)
        == dispatcher.delayed.to_multiset().count(task));
    if task.deadline <= now {
        if after.delayed.contains(task) {
            let i = choose|i: int| 0 <= i < after.delayed.len() && after.delayed[i] == task;
            assert(after.delayed[i].deadline > now);
        }
        assert(due.contains(task));
        let i = choose|i: int| 0 <= i < due.len() && due[i] == task;
        assert(after.main_queue[dispatcher.main_queue.len() + i] == task.runnable);
    } else if due.contains(task) {
        let i = choose|i: int| 0 <= i < due.len() && due[i] == task;
        assert(due[i].deadline <= now);
    }
}

/// A task that is to wait becomes due that long from now and not a moment earlier, and
/// joins the queue no sooner.
pub proof fn law_waiting_tasks_become_due_in_time<R>(
    dispatcher: &mut BevyDispatcher<R>,
    now: u64,
    duration: u64,
    runnable: R,
    later: u64,
)
    requires
        now + duration <= u64::MAX,
        call_ensures(BevyDispatcher::<R>::dispatch_after, (dispatcher, now, duration, runnable), ()),
    ensures
        final(dispatcher)@.main_queue == old(dispatcher)@.main_queue,
        final(dispatcher)@.delayed.len() == old(dispatcher)@.delayed.len() + 1,
        final(dispatcher)@.delayed.last().runnable == runnable,
        final(dispatcher)@.delayed.last().deadline - now == duration,
        later < now + duration ==> final(dispatcher)@.released(later).delayed.contains(
            final(dispatcher)@.delayed.last(),
        ),
        later >= now + duration ==> !final(dispatcher)@.released(later).delayed.contains(
            final(dispatcher)@.delayed.last(),
        ),
{
    let after = final(dispatcher)@;
    assert(after.delayed[after.delayed.len() - 1] == after.delayed.last());
    assert(after.delayed.contains(after.delayed.last()));
    law_deadlines_decide(after, later, after.delayed.last());
}

/// A task queued for the main thread runs after all that were queued before it, and a
/// run that may start one starts the one that waited longest, once.
pub proof fn law_first_queued_task_runs_first<R>(
    dispatcher: &mut BevyDispatcher<R>,
    runnable: R,
    later: &mut BevyDispatcher<R>,
    budget: &mut DrainBudget,
    next: Option<R>,
)
    requires
        call_ensures(BevyDispatcher::<R>::dispatch_on_main_thread, (dispatcher, runnable), ()),
        old(later)@ == final(dispatcher)@,
        old(budget).drained < old(budget).limit,
        call_ensures(BevyDispatcher::<R>::next_runnable, (later, budget), next),
    ensures
        old(dispatcher)@.main_queue.len() == 0 ==> next == Some(runnable),
        old(dispatcher)@.main_queue.len() > 0 ==> next == Some(old(dispatcher)@.main_queue[0])
            && final(later)@.main_queue.last() == runnable,
        final(later)@.main_queue.len() == old(dispatcher)@.main_queue.len(),
        final(later)@.delayed == old(dispatcher)@.delayed,
        final(budget).drained == old(budget).drained + 1,
{
}

/// A run that has started as many tasks as it may starts no more and leaves the queue,
/// and a run starts with the tasks that are due in the queue and none started.
pub proof fn law_runs_are_bounded<R>(
    dispatcher: &mut BevyDispatcher<R>,
    budget: &mut DrainBudget,
    next: Option<R>,
    fresh: &mut BevyDispatcher<R>,
    now: u64,
    limit: usize,
    begun: DrainBudget,
)
    requires
        old(budget).drained >= old(budget).limit,
        call_ensures(BevyDispatcher::<R>::next_runnable, (dispatcher, budget), next),
        call_ensures(BevyDispatcher::<R>::begin_drain, (fresh, now, limit), begun),
    ensures
        next is None,
        final(dispatcher)@ == old(dispatcher)@,
        begun.limit == limit && begun.drained == 0,
        old(fresh)@.main_queue.is_prefix_of(final(fresh)@.main_queue),
        forall|i: int|
            0 <= i < final(fresh)@.delayed.len() ==> (#[trigger] final(fresh)@.delayed[i]).deadline
                > now,
{
    law_exactly_expired_tasks_are_released(old(fresh)@, now);
}

} // verus!
