//! The delayed-work queue behind a task runner: tasks wait until their target time, and each
//! pass of the owning thread runs the due ones and says when to wake next.
use vstd::prelude::*;

verus! {

/// A piece of work that must not run before `target_time` (engine clock, nanoseconds).
pub struct ScheduledTask<T> {
    pub target_time: u64,
    pub task: T,
}

/// The tasks waiting on one runner's thread.
pub struct TaskQueue<T> {
    pending: Vec<ScheduledTask<T>>,
}

/// The work of the tasks in `s` that are due at `now`, in the order they were posted.
pub open spec fn due_tasks<T>(s: Seq<ScheduledTask<T>>, now: u64) -> Seq<T>
    decreases s.len(),
{
    if s.len() == 0 {
        Seq::empty()
    } else if s.last().target_time <= now {
        due_tasks(s.drop_last(), now).push(s.last().task)
    } else {
        due_tasks(s.drop_last(), now)
    }
}

/// The tasks of `s` that are not yet due at `now`, in the order they were posted.
pub open spec fn pending_tasks<T>(s: Seq<ScheduledTask<T>>, now: u64) -> Seq<ScheduledTask<T>>
    decreases s.len(),
{
    if s.len() == 0 {
        Seq::empty()
    } else if s.last().target_time <= now {
        pending_tasks(s.drop_last(), now)
    } else {
        pending_tasks(s.drop_last(), now).push(s.last())
    }
}

/// The smallest target time in `s`, if `s` is not empty.
pub open spec fn earliest_target<T>(s: Seq<ScheduledTask<T>>) -> Option<u64>
    decreases s.len(),
{
    if s.len() == 0 {
        None
    } else {
        let t = s.last().target_time;
        match earliest_target(s.drop_last()) {
            Some(m) => Some(if m <= t { m } else { t }),
            None => Some(t),
        }
    }
}

/// A pass loses no task: each one either runs or stays pending, and what stays pending is not
/// due yet.
pub proof fn lemma_pass_partitions<T>(s: Seq<ScheduledTask<T>>, now: u64)
    ensures
        due_tasks(s, now).len() + pending_tasks(s, now).len() == s.len(),
        forall|i: int|
            0 <= i < pending_tasks(s, now).len() ==> pending_tasks(s, now)[i].target_time > now,
    decreases s.len(),
{
    if s.len() > 0 {
        lemma_pass_partitions(s.drop_last(), now);
    }
}

/// The next wake time is the target time of one of the tasks, and no task has an earlier one.
pub proof fn lemma_earliest_target<T>(s: Seq<ScheduledTask<T>>)
    ensures
        earliest_target(s) is Some <==> s.len() > 0,
        earliest_target(s) matches Some(m) ==> {
            &&& forall|i: int| 0 <= i < s.len() ==> m <= s[i].target_time
            &&& exists|i: int| 0 <= i < s.len() && s[i].target_time == m
        },
    decreases s.len(),
{
    if s.len() > 0 {
        let p = s.drop_last();
        lemma_earliest_target(p);
        let m = earliest_target(s)->0;
        assert forall|i: int| 0 <= i < s.len() implies m <= s[i].target_time by {
            if i < p.len() {
                assert(s[i] == p[i]);
            }
        }
        if m == s.last().target_time {
            assert(s[s.len() - 1].target_time == m);
        } else {
            let j = choose|j: int| 0 <= j < p.len() && p[j].target_time == m;
            assert(s[j] == p[j]);
        }
    }
}

impl<T> TaskQueue<T> {
    /// The tasks waiting, in the order they were posted.
    pub closed spec fn view(&self) -> Seq<ScheduledTask<T>> {
        self.pending@
    }

    /// An empty queue.
    pub fn new() -> (r: TaskQueue<T>)
        ensures
            r.view() == Seq::<ScheduledTask<T>>::empty(),
    {
        TaskQueue { pending: Vec::new() }
    }

    /// The number of tasks waiting.
    pub fn len(&self) -> (r: usize)
        ensures
            r == self.view().len(),
    {
        self.pending.len()
    }

    /// Adds `task`, to run no earlier than `target_time`.
    pub fn post_task(&mut self, task: T, target_time: u64)
        ensures
            final(self).view() == old(self).view().push(
                ScheduledTask { target_time, task },
            ),
    {
        self.pending.push(ScheduledTask { target_time, task });
    }

    /// One scheduling pass at time `now`: removes and returns the work of every task whose
    /// target time is at most `now`, keeps the others, and returns the earliest target time
    /// among those kept (the instant to wake at), or `None` when nothing is left.
    pub fn run_due(&mut self, now: u64) -> (r: (Vec<T>, Option<u64>))
        ensures
            r.0@ == due_tasks(old(self).view(), now),
            final(self).view() == pending_tasks(old(self).view(), now),
            r.1 == earliest_target(final(self).view()),
    {
        let mut rest: Vec<ScheduledTask<T>> = Vec::new();
        std::mem::swap(&mut rest, &mut self.pending);
        let ghost orig = rest@;
        let n: usize = rest.len();
        let mut due: Vec<T> = Vec::new();
        let mut kept: Vec<ScheduledTask<T>> = Vec::new();
        let mut next: Option<u64> = None;
        let mut i: usize = 0;
        while rest.len() > 0
            invariant
                i + rest@.len() == orig.len(),
                orig.len() == n,
                rest@ == orig.subrange(i as int, orig.len() as int),
                due@ == due_tasks(orig.subrange(0, i as int), now),
                kept@ == pending_tasks(orig.subrange(0, i as int), now),
                next == earliest_target(kept@),
            decreases rest@.len(),
        {
            let t = rest.remove(0);
            proof {
                assert(orig.subrange(0, i + 1).drop_last() =~= orig.subrange(0, i as int));
                assert(orig.subrange(0, i + 1).last() == t);
            }
            if t.target_time <= now {
                due.push(t.task);
            } else {
                let tt = t.target_time;
                let ghost before = kept@;
                kept.push(t);
                proof {
                    assert(kept@.drop_last() =~= before);
                }
                next = match next {
                    Some(m) => Some(if m <= tt { m } else { tt }),
                    None => Some(tt),
                };
            }
            i = i + 1;
            proof {
                assert(rest@ =~= orig.subrange(i as int, orig.len() as int));
            }
        }
        proof {
            assert(orig.subrange(0, i as int) =~= orig);
        }
        self.pending = kept;
        (due, next)
    }
}

} // verus!
