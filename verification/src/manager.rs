//! The table of tasks and the decisions of the scheduler: which task runs,
//! and what becomes of the one that gives up the processor.

use vstd::prelude::*;
use crate::config::MAX_SYSCALL_NUM;
use crate::memory::AddressSpace;
use crate::task::{TaskContext, TaskControlBlock, TaskInfo, TaskStatus};

verus! {

/// How often `id` occurs in `calls`.
pub open spec fn count_of(calls: Seq<usize>, id: int) -> nat
    decreases calls.len(),
{
    if calls.len() == 0 {
        0
    } else {
        count_of(calls.drop_last(), id) + if calls.last() == id {
            1nat
        } else {
            0nat
        }
    }
}

/// Each counter of `info` equals the number of times its call number
/// occurs in `calls`.
pub open spec fn counts_match(info: TaskInfo, calls: Seq<usize>) -> bool {
    forall|id: int|
        #![trigger info.syscall_times[id]]
        #![trigger count_of(calls, id)]
        0 <= id < MAX_SYSCALL_NUM ==> info.syscall_times[id] == count_of(calls, id)
}

/// Place of task `i` in the round that starts just after task `current`:
/// the task after `current` comes first, `current` itself last.
pub open spec fn turn(current: int, i: int, n: int) -> int {
    if i > current {
        i - current - 1
    } else {
        i + n - current - 1
    }
}

/// Whether `next` is the task the scheduler picks after `current`: `None`
/// where no task is ready, else the ready task whose turn comes first.
pub open spec fn is_next_task(tasks: Seq<TaskControlBlock>, current: int, next: Option<usize>) -> bool {
    match next {
        None => forall|i: int|
            0 <= i < tasks.len() ==> (#[trigger] tasks[i]).task_status != TaskStatus::Ready,
        Some(j) => {
            &&& j < tasks.len()
            &&& tasks[j as int].task_status == TaskStatus::Ready
            &&& forall|i: int|
                0 <= i < tasks.len() && (#[trigger] tasks[i]).task_status == TaskStatus::Ready
                    ==> turn(current, j as int, tasks.len() as int) <= turn(
                    current,
                    i,
                    tasks.len() as int,
                )
        },
    }
}

/// All tasks of the system, each with its address space, and the one that
/// holds the processor.
pub struct TaskManager {
    /// The control blocks, by task number.
    pub tasks: Vec<TaskControlBlock>,
    /// The address space of each task, by task number.
    pub spaces: Vec<AddressSpace>,
    /// Number of the task that holds the processor, or held it last.
    pub current: usize,
    /// For each task, the system calls counted for it so far, oldest first.
    pub calls: Ghost<Seq<Seq<usize>>>,
}

impl TaskManager {
    /// Every task has its address space and its record of calls, only the
    /// current task can be running, and each counter of a task equals the
    /// number of calls recorded for it under that number.
    pub open spec fn wf(&self) -> bool {
        &&& self.tasks.len() == self.spaces.len()
        &&& self.tasks.len() == self.calls@.len()
        &&& self.tasks.len() > 0 ==> self.current < self.tasks.len()
        &&& self.tasks.len() == 0 ==> self.current == 0
        &&& forall|i: int| 0 <= i < self.spaces.len() ==> (#[trigger] self.spaces[i]).wf()
        &&& forall|i: int|
            0 <= i < self.tasks.len() && (#[trigger] self.tasks[i]).task_status
                == TaskStatus::Running ==> i == self.current
        &&& forall|i: int|
            0 <= i < self.tasks.len() ==> #[trigger] counts_match(
                self.tasks[i].task_info,
                self.calls@[i],
            )
    }

    /// The manager is well-formed and its current task is running.
    pub open spec fn running(&self) -> bool {
        &&& self.wf()
        &&& self.current < self.tasks.len()
        &&& self.tasks[self.current as int].task_status == TaskStatus::Running
    }

    /// The control block of the current task.
    pub open spec fn task(&self) -> TaskControlBlock {
        self.tasks[self.current as int]
    }

    /// The address space of the current task.
    pub open spec fn space(&self) -> AddressSpace {
        self.spaces[self.current as int]
    }

    /// The figures of the current task as it may see them: its counters
    /// and its start time, with the status it has at this moment.
    pub open spec fn snapshot(&self) -> TaskInfo {
        TaskInfo {
            status: self.task().task_status,
            syscall_times: self.task().task_info.syscall_times,
            start_time: self.task().task_info.start_time,
        }
    }

    /// Nothing differs between `self` and `before` but the address space
    /// of the current task.
    pub open spec fn same_but_space(&self, before: &TaskManager) -> bool {
        &&& self.tasks@ == before.tasks@
        &&& self.current == before.current
        &&& self.calls@ == before.calls@
        &&& self.spaces.len() == before.spaces.len()
        &&& forall|i: int|
            0 <= i < self.spaces.len() && i != self.current ==> self.spaces[i] == before.spaces[i]
    }

    /// A manager without tasks.
    pub fn new() -> (manager: TaskManager)
        ensures
            manager.wf(),
            manager.tasks.len() == 0,
    {
        TaskManager { tasks: Vec::new(), spaces: Vec::new(), current: 0, calls: Ghost(Seq::empty()) }
    }

    /// Adds a task that is ready to run from `cx` in `space`, with no call
    /// counted, and returns its number.
    pub fn add_task(&mut self, cx: TaskContext, space: AddressSpace) -> (id: usize)
        requires
            old(self).wf(),
            space.wf(),
        ensures
            final(self).wf(),
            id == old(self).tasks.len(),
            final(self).current == old(self).current,
            final(self).tasks@ == old(self).tasks@.push(final(self).tasks[id as int]),
            final(self).spaces@ == old(self).spaces@.push(space),
            final(self).calls@ == old(self).calls@.push(Seq::empty()),
            final(self).tasks[id as int].task_status == TaskStatus::Ready,
            final(self).tasks[id as int].task_cx == cx,
            final(self).tasks[id as int].task_info.status == TaskStatus::UnInit,
            final(self).tasks[id as int].task_info.start_time == 0,
            forall|call: int|
                0 <= call < MAX_SYSCALL_NUM
                    ==> #[trigger] final(self).tasks[id as int].task_info.syscall_times[call] == 0,
    {
        let id: usize = self.tasks.len();
        let block = TaskControlBlock {
            task_status: TaskStatus::Ready,
            task_cx: cx,
            task_info: TaskInfo::new(),
        };
        self.tasks.push(block);
        self.spaces.push(space);
        proof {
            self.calls@ = old(self).calls@.push(Seq::empty());
        }
        id
    }
}

impl TaskManager {
    /// Picks the task that runs after the current one: the next ready task
    /// in the order of the task numbers, starting after the current task
    /// and wrapping round to it.
    pub fn find_next_task(&self) -> (next: Option<usize>)
        requires
            self.wf(),
        ensures
            is_next_task(self.tasks@, self.current as int, next),
    {
        let n: usize = self.tasks.len();
        if n == 0 {
            return None;
        }
        let current: usize = self.current;
        let mut i: usize = if current + 1 < n { current + 1 } else { 0 };
        let mut k: usize = 0;
        while k < n
            invariant
                n == self.tasks.len(),
                current == self.current,
                current < n,
                k <= n,
                i < n,
                k < n ==> turn(current as int, i as int, n as int) == k,
                forall|j: int|
                    0 <= j < n && turn(current as int, j, n as int) < k ==> (
                    #[trigger] self.tasks[j]).task_status != TaskStatus::Ready,
            decreases n - k,
        {
            if self.tasks[i].task_status == TaskStatus::Ready {
                return Some(i);
            }
            i = if i + 1 < n { i + 1 } else { 0 };
            k = k + 1;
        }
        None
    }

    /// Takes the processor from the current task, which stays ready.
    pub fn mark_current_suspended(&mut self)
        requires
            old(self).running(),
        ensures
            final(self).wf(),
            final(self).current == old(self).current,
            final(self).spaces@ == old(self).spaces@,
            final(self).calls@ == old(self).calls@,
            final(self).tasks@ == suspended(old(self).tasks@, old(self).current as int),
    {
        let current: usize = self.current;
        self.tasks[current].task_status = TaskStatus::Ready;
    }

    /// Ends the current task.
    pub fn mark_current_exited(&mut self)
        requires
            old(self).running(),
        ensures
            final(self).wf(),
            final(self).current == old(self).current,
            final(self).spaces@ == old(self).spaces@,
            final(self).calls@ == old(self).calls@,
            final(self).tasks@ == exited(old(self).tasks@, old(self).current as int),
    {
        let current: usize = self.current;
        self.tasks[current].task_status = TaskStatus::Exited;
    }
}

/// The tasks once task `current` has given up the processor and waits.
pub open spec fn suspended(tasks: Seq<TaskControlBlock>, current: int) -> Seq<TaskControlBlock> {
    tasks.update(current, TaskControlBlock { task_status: TaskStatus::Ready, ..tasks[current] })
}

/// The tasks once task `current` has ended.
pub open spec fn exited(tasks: Seq<TaskControlBlock>, current: int) -> Seq<TaskControlBlock> {
    tasks.update(current, TaskControlBlock { task_status: TaskStatus::Exited, ..tasks[current] })
}

/// Every task that had ended in `before` has ended in `after`.
pub open spec fn exited_stay(before: Seq<TaskControlBlock>, after: Seq<TaskControlBlock>) -> bool {
    &&& after.len() == before.len()
    &&& forall|i: int|
        0 <= i < before.len() && (#[trigger] before[i]).task_status == TaskStatus::Exited
            ==> after[i].task_status == TaskStatus::Exited
}

/// The control block of `block` once it is given the processor at
/// `now_ms`: it is running, and where it runs for the first time its
/// figures say so and hold `now_ms` as its start time.
pub open spec fn dispatched(block: TaskControlBlock, now_ms: usize) -> TaskControlBlock {
    TaskControlBlock {
        task_status: TaskStatus::Running,
        task_cx: block.task_cx,
        task_info: if block.task_info.status == TaskStatus::UnInit {
            TaskInfo {
                status: TaskStatus::Running,
                syscall_times: block.task_info.syscall_times,
                start_time: now_ms,
            }
        } else {
            block.task_info
        },
    }
}

impl TaskManager {
    /// Gives the processor to the task the scheduler picks, if there is
    /// one, and returns its number. No task may be running.
    pub fn run_next_task(&mut self, now_ms: usize) -> (next: Option<usize>)
        requires
            old(self).wf(),
            forall|i: int|
                0 <= i < old(self).tasks.len() ==> (#[trigger] old(self).tasks[i]).task_status
                    != TaskStatus::Running,
        ensures
            final(self).wf(),
            final(self).spaces@ == old(self).spaces@,
            final(self).calls@ == old(self).calls@,
            is_next_task(old(self).tasks@, old(self).current as int, next),
            exited_stay(old(self).tasks@, final(self).tasks@),
            (match next {
                Some(j) => {
                    &&& final(self).current == j
                    &&& final(self).tasks@ == old(self).tasks@.update(
                        j as int,
                        dispatched(old(self).tasks[j as int], now_ms),
                    )
                },
                None => {
                    &&& final(self).current == old(self).current
                    &&& final(self).tasks@ == old(self).tasks@
                },
            }),
    {
        let next = self.find_next_task();
        if let Some(j) = next {
            assert(counts_match(self.tasks[j as int].task_info, self.calls@[j as int]));
            self.tasks[j].task_status = TaskStatus::Running;
            if self.tasks[j].task_info.status == TaskStatus::UnInit {
                self.tasks[j].task_info.start(now_ms);
            }
            self.current = j;
            assert(self.tasks@ =~= old(self).tasks@.update(
                j as int,
                dispatched(old(self).tasks[j as int], now_ms),
            ));
        }
        next
    }
}

impl TaskManager {
    /// Gives the processor to the first task when the system starts.
    pub fn run_first_task(&mut self, now_ms: usize)
        requires
            old(self).wf(),
            old(self).tasks.len() > 0,
            old(self).tasks[0].task_status == TaskStatus::Ready,
            forall|i: int|
                0 <= i < old(self).tasks.len() ==> (#[trigger] old(self).tasks[i]).task_status
                    != TaskStatus::Running,
        ensures
            final(self).running(),
            final(self).current == 0,
            final(self).spaces@ == old(self).spaces@,
            final(self).calls@ == old(self).calls@,
            final(self).tasks@ == old(self).tasks@.update(
                0,
                dispatched(old(self).tasks[0], now_ms),
            ),
            exited_stay(old(self).tasks@, final(self).tasks@),
    {
        assert(counts_match(self.tasks[0].task_info, self.calls@[0]));
        self.tasks[0].task_status = TaskStatus::Running;
        if self.tasks[0].task_info.status == TaskStatus::UnInit {
            self.tasks[0].task_info.start(now_ms);
        }
        self.current = 0;
        assert(self.tasks@ =~= old(self).tasks@.update(0, dispatched(old(self).tasks[0], now_ms)));
    }

    /// The current task gives up the processor and stays ready; the task
    /// the scheduler picks gets it, which is the current task again where
    /// no other is ready. Returns the number of the task that runs now.
    pub fn suspend_current_and_run_next(&mut self, now_ms: usize) -> (next: usize)
        requires
            old(self).running(),
        ensures
            final(self).running(),
            final(self).current == next,
            final(self).spaces@ == old(self).spaces@,
            final(self).calls@ == old(self).calls@,
            is_next_task(
                suspended(old(self).tasks@, old(self).current as int),
                old(self).current as int,
                Some(next),
            ),
            final(self).tasks@ == suspended(old(self).tasks@, old(self).current as int).update(
                next as int,
                dispatched(
                    suspended(old(self).tasks@, old(self).current as int)[next as int],
                    now_ms,
                ),
            ),
            exited_stay(old(self).tasks@, final(self).tasks@),
    {
        self.mark_current_suspended();
        assert(self.tasks[self.current as int].task_status == TaskStatus::Ready);
        let next = self.run_next_task(now_ms);
        match next {
            Some(j) => j,
            None => self.current,
        }
    }

    /// The current task ends; the task the scheduler picks gets the
    /// processor. Returns its number, or `None` where no task is ready, in
    /// which case no task runs any more.
    pub fn exit_current_and_run_next(&mut self, now_ms: usize) -> (next: Option<usize>)
        requires
            old(self).running(),
        ensures
            final(self).wf(),
            final(self).spaces@ == old(self).spaces@,
            final(self).calls@ == old(self).calls@,
            is_next_task(
                exited(old(self).tasks@, old(self).current as int),
                old(self).current as int,
                next,
            ),
            exited_stay(old(self).tasks@, final(self).tasks@),
            final(self).tasks[old(self).current as int].task_status == TaskStatus::Exited,
            (match next {
                Some(j) => {
                    &&& final(self).running()
                    &&& final(self).current == j
                    &&& j != old(self).current
                    &&& final(self).tasks@ == exited(
                        old(self).tasks@,
                        old(self).current as int,
                    ).update(j as int, dispatched(old(self).tasks[j as int], now_ms))
                },
                None => {
                    &&& final(self).current == old(self).current
                    &&& final(self).tasks@ == exited(
                        old(self).tasks@,
                        old(self).current as int,
                    )
                },
            }),
    {
        self.mark_current_exited();
        self.run_next_task(now_ms)
    }

    /// The figures of the current task as it may see them now. Each
    /// counter holds the number of calls recorded for the task under its
    /// call number.
    pub fn get_task_info(&self) -> (info: TaskInfo)
        requires
            self.running(),
        ensures
            info == self.snapshot(),
            info.status == TaskStatus::Running,
            forall|id: int|
                0 <= id < MAX_SYSCALL_NUM ==> #[trigger] info.syscall_times[id] == count_of(
                    self.calls@[self.current as int],
                    id,
                ),
    {
        let block = &self.tasks[self.current];
        assert(counts_match(block.task_info, self.calls@[self.current as int]));
        TaskInfo {
            status: block.task_status,
            syscall_times: block.task_info.syscall_times,
            start_time: block.task_info.start_time,
        }
    }

    /// Counts a call of system call `id` for the current task.
    pub fn record_syscall(&mut self, id: usize)
        requires
            old(self).running(),
            id < MAX_SYSCALL_NUM,
            count_of(old(self).calls@[old(self).current as int], id as int) < u32::MAX,
        ensures
            final(self).running(),
            final(self).current == old(self).current,
            final(self).spaces@ == old(self).spaces@,
            final(self).calls@ == old(self).calls@.update(
                old(self).current as int,
                old(self).calls@[old(self).current as int].push(id),
            ),
            final(self).tasks.len() == old(self).tasks.len(),
            forall|i: int|
                0 <= i < old(self).tasks.len() && i != old(self).current ==> final(self).tasks[i]
                    == old(self).tasks[i],
            final(self).task().task_status == old(self).task().task_status,
            final(self).task().task_cx == old(self).task().task_cx,
            final(self).task().task_info.status == old(self).task().task_info.status,
            final(self).task().task_info.start_time == old(self).task().task_info.start_time,
            final(self).task().task_info.syscall_times@
                == old(self).task().task_info.syscall_times@.update(
                id as int,
                (old(self).task().task_info.syscall_times[id as int] + 1) as u32,
            ),
    {
        let current: usize = self.current;
        let ghost before = self.calls@[current as int];
        assert(counts_match(self.tasks[current as int].task_info, before));
        self.tasks[current].task_info.record_syscall(id);
        proof {
            self.calls@ = old(self).calls@.update(current as int, before.push(id));
            assert(before.push(id).drop_last() =~= before);
            assert(counts_match(self.tasks[current as int].task_info, before.push(id)));
            assert forall|i: int| 0 <= i < self.tasks.len() implies #[trigger] counts_match(
                self.tasks[i].task_info,
                self.calls@[i],
            ) by {
                if i != current {
                    assert(counts_match(old(self).tasks[i].task_info, old(self).calls@[i]));
                }
            }
        }
    }
}

} // verus!
