//! A counting semaphore that parks the task which finds it at zero.

use crate::io::Op;
use crate::isr::Traps;
use crate::task::{self, enters_on, set_blocked, Tasks};
use vstd::prelude::*;

verus! {

/// A counter, and the task that waits for it to rise above zero. There is
/// room to remember one waiting task.
pub struct Semaphore {
    counter: u32,
    waiting_task: Option<usize>,
}

/// How an attempt to take a semaphore ended.
#[derive(Clone, Copy, Debug, PartialEq, Eq)]
pub enum Down {
    /// The counter was above zero and has been lowered by one.
    Acquired,
    /// The counter was zero. The running task has been recorded as waiting
    /// and blocked, and the scheduler has looked for another task: the
    /// argument is the switch that the machine has to make, if any. Once
    /// the task runs again, [`Semaphore::resume`] is due, and then the next
    /// attempt.
    Parked(Option<Op>),
}

/// What tasks do at a semaphore.
#[derive(Clone, Copy, Debug, PartialEq, Eq)]
pub enum Event {
    /// A task tries to take the semaphore.
    Down,
    /// A task raises the semaphore.
    Up,
}

/// The counter of a semaphore once `trace` has happened at it, and the
/// number of takes that have succeeded less the number of raises.
///
/// An attempt to take the semaphore succeeds where the counter is above
/// zero, and lowers it by one then; a raise raises it by one.
pub open spec fn run(counter: nat, trace: Seq<Event>) -> (nat, int)
    decreases trace.len(),
{
    if trace.len() == 0 {
        (counter, 0)
    } else {
        let (count, held) = run(counter, trace.drop_last());
        match trace.last() {
            Event::Down => if count > 0 {
                ((count - 1) as nat, held + 1)
            } else {
                (count, held)
            },
            Event::Up => (count + 1, held - 1),
        }
    }
}

/// Mutual exclusion: whatever happens at a semaphore, the takes that
/// succeeded and have not been made up for by a raise are as many as the
/// counter has fallen, and so never more than the counter was at first. Of
/// a semaphore that starts at one, at most one take is not made up for at
/// any time.
pub proof fn lemma_exclusion(counter: nat, trace: Seq<Event>)
    ensures
        run(counter, trace).0 + run(counter, trace).1 == counter,
        run(counter, trace).1 <= counter,
    decreases trace.len(),
{
    if trace.len() > 0 {
        lemma_exclusion(counter, trace.drop_last());
    }
}

/// Whether `after` is what an attempt of task `cur` to take the semaphore
/// makes of `before`, and `acquired` tells whether the attempt succeeded.
pub open spec fn down_step(before: Semaphore, cur: usize, after: Semaphore, acquired: bool) -> bool {
    if before.count() > 0 {
        &&& acquired
        &&& after.count() == before.count() - 1
        &&& after.waiter() == before.waiter()
    } else {
        &&& !acquired
        &&& after.count() == 0
        &&& after.waiter() == Some(cur)
    }
}

/// Whether `after` is what a raise makes of `before`.
pub open spec fn up_step(before: Semaphore, after: Semaphore) -> bool {
    &&& after.count() == before.count() + 1
    &&& after.waiter().is_none()
}

/// The steps of a semaphore are those of its counter in `run`.
pub proof fn lemma_steps_run(before: Semaphore, cur: usize, after: Semaphore, acquired: bool)
    ensures
        down_step(before, cur, after, acquired) ==> run(before.count() as nat, seq![Event::Down])
            == (after.count() as nat, if acquired {
            1int
        } else {
            0int
        }),
        up_step(before, after) ==> run(before.count() as nat, seq![Event::Up]) == (
            after.count() as nat,
            -1int,
        ),
{
    assert(seq![Event::Down].drop_last() =~= Seq::<Event>::empty());
    assert(seq![Event::Up].drop_last() =~= Seq::<Event>::empty());
    reveal_with_fuel(run, 2);
}

/// A task that finds the counter at zero does not get the semaphore, however
/// often it tries, until the semaphore is raised; the next attempt after the
/// raise succeeds and leaves the counter at zero again. A take of a
/// semaphore whose counter is one succeeds at once and leaves it at zero.
pub proof fn lemma_parks_until_up(
    empty: Semaphore,
    parked: Semaphore,
    again: Semaphore,
    raised: Semaphore,
    taken: Semaphore,
    cur: usize,
    first: bool,
    second: bool,
    third: bool,
)
    requires
        empty.count() == 0,
        down_step(empty, cur, parked, first),
        down_step(parked, cur, again, second),
        up_step(again, raised),
        down_step(raised, cur, taken, third),
    ensures
        !first,
        !second,
        parked.count() == 0,
        again.count() == 0,
        raised.count() == 1,
        third,
        taken.count() == 0,
{
}

impl Semaphore {
    /// The value of the counter.
    pub closed spec fn count(&self) -> u32 {
        self.counter
    }

    /// The task that is recorded as waiting.
    pub closed spec fn waiter(&self) -> Option<usize> {
        self.waiting_task
    }

    /// A semaphore with the given value and without a waiting task
    pub fn new(counter: u32) -> (sem: Semaphore)
        ensures
            sem.count() == counter,
            sem.waiter().is_none(),
    {
        Semaphore { counter, waiting_task: None }
    }

    /// Returns the value of the counter
    pub fn counter(&self) -> (n: u32)
        ensures
            n == self.count(),
    {
        self.counter
    }

    /// Returns the task that is recorded as waiting
    pub fn waiting_task(&self) -> (t: Option<usize>)
        ensures
            t == self.waiter(),
    {
        self.waiting_task
    }

    /// Raises the counter by one. If a task is recorded as waiting, the
    /// record is cleared and the task is unblocked: it is runnable again and
    /// goes on when the scheduler next picks it.
    pub fn up(&mut self, tasks: &mut Tasks)
        requires
            old(self).count() < u32::MAX,
            old(tasks).wf(),
        ensures
            up_step(*old(self), *final(self)),
            final(tasks)@ == match old(self).waiter() {
                Some(waiting) => set_blocked(old(tasks)@, waiting as int, false),
                None => old(tasks)@,
            },
            final(tasks).cur() == old(tasks).cur(),
            final(tasks).task_start() == old(tasks).task_start(),
            final(tasks).count() == old(tasks).count(),
            final(tasks).wf(),
            forall|limit: nat| old(tasks).below(limit) ==> final(tasks).below(limit),
    {
        self.counter += 1;

        // if there is someone waiting, unblock the task
        if let Some(waiting) = self.waiting_task.take() {
            task::unblock(tasks, waiting);
        }
    }

    /// Tries once to lower the counter by one.
    ///
    /// Where the counter is above zero, it is lowered and nothing else
    /// changes. Where it is zero, it stays so: the running task is recorded
    /// as waiting and blocked, and the scheduler is invoked.
    pub fn down(&mut self, tasks: &mut Tasks, traps: &mut Traps) -> (r: Down)
        requires
            old(tasks).wf(),
            old(self).count() == 0 ==> old(tasks).count() > 0,
        ensures
            final(tasks).wf(),
            final(tasks).task_start() == old(tasks).task_start(),
            final(tasks).count() == old(tasks).count(),
            forall|limit: nat| old(tasks).below(limit) ==> final(tasks).below(limit),
            down_step(*old(self), old(tasks).cur(), *final(self), r == Down::Acquired),
            old(self).count() > 0 ==> {
                &&& final(tasks)@ == old(tasks)@
                &&& final(tasks).cur() == old(tasks).cur()
                &&& *final(traps) == *old(traps)
            },
            old(self).count() == 0 ==> {
                &&& final(tasks)@ == set_blocked(old(tasks)@, old(tasks).cur() as int, true)
                &&& match old(tasks).next() {
                    Some(next) => {
                        &&& r == Down::Parked(Some(Op::Switch { prev: old(tasks).cur(), next }))
                        &&& final(tasks).cur() == next
                        &&& enters_on(*old(traps), *final(traps), old(tasks)@[next as int].unwrap())
                    },
                    None => {
                        &&& r == Down::Parked(None)
                        &&& final(tasks).cur() == old(tasks).cur()
                        &&& *final(traps) == *old(traps)
                    },
                }
            },
    {
        // the counter is read anew in each attempt
        if self.counter == 0 {
            self.waiting_task = Some(task::current(tasks).id());
            Down::Parked(task::block(tasks, traps))
        } else {
            self.counter -= 1;
            Down::Acquired
        }
    }

    /// What the task that was parked in [`Semaphore::down`] does when it
    /// runs again, before its next attempt: it clears the record of the
    /// waiting task.
    pub fn resume(&mut self)
        ensures
            final(self).count() == old(self).count(),
            final(self).waiter().is_none(),
    {
        self.waiting_task = None;
    }
}

} // verus!
