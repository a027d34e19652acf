//! The platform task runner: deferred work ordered by due time, posted from
//! any thread, run on the platform thread only.
use vstd::prelude::*;

verus! {

/// A unit of deferred work: when it is due, and the engine's handle for it.
#[derive(Debug, Clone, Copy, PartialEq, Eq, Structural)]
pub struct Task {
    pub due_time: u64,
    pub payload: u64,
}

/// The tasks are in non-decreasing order of due time.
pub open spec fn sorted(s: Seq<Task>) -> bool {
    forall|i: int, j: int| 0 <= i < j < s.len() ==> s[i].due_time <= s[j].due_time
}

/// The number of leading tasks of `s` that are due at `t`, where `s` is sorted.
pub open spec fn due_prefix(s: Seq<Task>, t: u64, k: int) -> bool {
    &&& 0 <= k <= s.len()
    &&& forall|j: int| 0 <= j < k ==> s[j].due_time <= t
    &&& forall|j: int| k <= j < s.len() ==> s[j].due_time > t
}

/// The queue of one platform thread; the thread is fixed when the runner is made.
#[derive(Debug)]
pub struct TaskRunner {
    platform_thread: u64,
    tasks: Vec<Task>,
}

impl TaskRunner {
    pub closed spec fn platform_thread(&self) -> u64 {
        self.platform_thread
    }

    /// The queued tasks, earliest first.
    pub closed spec fn tasks(&self) -> Seq<Task> {
        self.tasks@
    }

    pub open spec fn wf(&self) -> bool {
        sorted(self.tasks())
    }

    /// A runner for the platform thread `platform_thread`, with no task.
    pub fn new(platform_thread: u64) -> (r: TaskRunner)
        ensures
            r.wf(),
            r.platform_thread() == platform_thread,
            r.tasks().len() == 0,
    {
        TaskRunner { platform_thread, tasks: Vec::new() }
    }

    /// Whether `current` is the runner's platform thread.
    pub fn runs_task_on_current_thread(&self, current: u64) -> (r: bool)
        ensures
            r == (current == self.platform_thread()),
    {
        current == self.platform_thread
    }

    /// How many tasks are queued.
    pub fn len(&self) -> (r: usize)
        ensures
            r == self.tasks().len(),
    {
        self.tasks.len()
    }

    /// Queues `payload` to run at `due_time`, after every queued task that is
    /// due no later. Returns whether the platform thread must be woken: it
    /// must when the caller is another thread.
    pub fn post_task(&mut self, current: u64, due_time: u64, payload: u64) -> (wake: bool)
        requires
            old(self).wf(),
        ensures
            final(self).wf(),
            final(self).platform_thread() == old(self).platform_thread(),
            wake == (current != old(self).platform_thread()),
            exists|k: int|
                due_prefix(old(self).tasks(), due_time, k) && final(self).tasks() == old(
                    self,
                ).tasks().insert(k, Task { due_time, payload }),
    {
        let mut k: usize = 0;
        while k < self.tasks.len() && self.tasks[k].due_time <= due_time
            invariant
                k <= self.tasks@.len(),
                forall|j: int| 0 <= j < k ==> self.tasks@[j].due_time <= due_time,
            decreases self.tasks@.len() - k,
        {
            k = k + 1;
        }
        let ghost before = self.tasks@;
        let t = Task { due_time, payload };
        self.tasks.insert(k, t);
        assert(due_prefix(before, due_time, k as int));
        assert(self.tasks@ == before.insert(k as int, t));
        assert forall|i: int, j: int| 0 <= i < j < self.tasks@.len() implies self.tasks@[i].due_time
            <= self.tasks@[j].due_time by {
            if j < k {
            } else if j == k {
                assert(self.tasks@[i] == before[i]);
            } else if i < k {
                assert(self.tasks@[j] == before[j - 1]);
            } else if i == k {
                assert(self.tasks@[j] == before[j - 1]);
            } else {
                assert(self.tasks@[i] == before[i - 1]);
                assert(self.tasks@[j] == before[j - 1]);
            }
        }
        current != self.platform_thread
    }

    /// Takes out every task due at `now`, earliest first (tasks due at the
    /// same time in the order they were posted), for the caller to run; and
    /// gives the due time of the earliest task left, if any. Only the
    /// platform thread runs tasks.
    pub fn execute_tasks(&mut self, current: u64, now: u64) -> (r: (Vec<Task>, Option<u64>))
        requires
            old(self).wf(),
            current == old(self).platform_thread(),
        ensures
            final(self).wf(),
            final(self).platform_thread() == old(self).platform_thread(),
            ({
                let (ran, next) = r;
                let k = ran@.len() as int;
                &&& due_prefix(old(self).tasks(), now, k)
                &&& ran@ == old(self).tasks().take(k)
                &&& sorted(ran@)
                &&& final(self).tasks() == old(self).tasks().skip(k)
                &&& next == if final(self).tasks().len() == 0 {
                    None::<u64>
                } else {
                    Some(final(self).tasks()[0].due_time)
                }
            }),
    {
        let ghost before = self.tasks@;
        let mut k: usize = 0;
        while k < self.tasks.len() && self.tasks[k].due_time <= now
            invariant
                k <= self.tasks@.len(),
                forall|j: int| 0 <= j < k ==> self.tasks@[j].due_time <= now,
            decreases self.tasks@.len() - k,
        {
            k = k + 1;
        }
        assert(due_prefix(before, now, k as int));
        let mut rest = self.tasks.split_off(k);
        std::mem::swap(&mut self.tasks, &mut rest);
        let ran = rest;
        assert(ran@ =~= before.take(k as int));
        assert(self.tasks@ =~= before.skip(k as int));
        let next = if self.tasks.len() == 0 {
            None
        } else {
            Some(self.tasks[0].due_time)
        };
        (ran, next)
    }
}

} // verus!
