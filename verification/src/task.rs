//! The record the kernel keeps of one task: its place in the life cycle,
//! its saved context, and the figures it may ask about itself.

use vstd::prelude::*;
use crate::config::MAX_SYSCALL_NUM;

verus! {

/// Where a task stands in its life. A task is made `Ready`, alternates
/// between `Ready` and `Running` as the scheduler decides, and ends
/// `Exited`, which it never leaves.
#[derive(Copy, Clone, PartialEq, Eq, Structural, Debug)]
pub enum TaskStatus {
    /// Not set up yet.
    UnInit,
    /// Waiting for the processor.
    Ready,
    /// Holding the processor.
    Running,
    /// Finished for good.
    Exited,
}

/// The registers saved when a task is switched out: return address, stack
/// pointer, and the callee-saved registers. Only carried, never looked at.
#[derive(Copy, Clone, Debug)]
pub struct TaskContext {
    pub ra: usize,
    pub sp: usize,
    pub s: [usize; 12],
}

impl TaskContext {
    /// A context with every register zero.
    pub fn zero_init() -> (cx: TaskContext)
        ensures
            cx.ra == 0,
            cx.sp == 0,
            forall|i: int| 0 <= i < 12 ==> cx.s[i] == 0,
    {
        TaskContext { ra: 0, sp: 0, s: [0usize; 12] }
    }
}

/// What a task may learn about itself.
#[derive(Clone, Copy, Debug)]
pub struct TaskInfo {
    /// Where the task stands in its life.
    pub status: TaskStatus,
    /// How often the task made each system call, by call number.
    pub syscall_times: [u32; MAX_SYSCALL_NUM],
    /// When the task first got the processor, in milliseconds.
    pub start_time: usize,
}

/// The four bytes of `x`, lowest first.
pub open spec fn le32(x: u32) -> Seq<u8> {
    seq![
        (x % 256) as u8,
        (x / 0x100 % 256) as u8,
        (x / 0x1_0000 % 256) as u8,
        (x / 0x100_0000 % 256) as u8,
    ]
}

/// The eight bytes of `x`, lowest first.
pub open spec fn le64(x: u64) -> Seq<u8> {
    seq![
        (x % 256) as u8,
        (x / 0x100 % 256) as u8,
        (x / 0x1_0000 % 256) as u8,
        (x / 0x100_0000 % 256) as u8,
        (x / 0x1_0000_0000 % 256) as u8,
        (x / 0x100_0000_0000 % 256) as u8,
        (x / 0x1_0000_0000_0000 % 256) as u8,
        (x / 0x100_0000_0000_0000 % 256) as u8,
    ]
}

/// The bytes of all of `times`, four for each, lowest first.
pub open spec fn le32_all(times: Seq<u32>) -> Seq<u8> {
    Seq::new(4 * times.len(), |i: int| le32(times[i / 4])[i % 4])
}

/// The number that stands for a status in a snapshot.
pub open spec fn status_code(status: TaskStatus) -> u64 {
    match status {
        TaskStatus::UnInit => 0,
        TaskStatus::Ready => 1,
        TaskStatus::Running => 2,
        TaskStatus::Exited => 3,
    }
}

/// Appends the four bytes of `x` to `out`, lowest first.
pub fn push_le32(out: &mut Vec<u8>, x: u32)
    ensures
        final(out)@ == old(out)@ + le32(x),
{
    out.push((x % 256) as u8);
    out.push((x / 0x100 % 256) as u8);
    out.push((x / 0x1_0000 % 256) as u8);
    out.push((x / 0x100_0000 % 256) as u8);
    assert(out@ =~= old(out)@ + le32(x));
}

/// Appends the eight bytes of `x` to `out`, lowest first.
pub fn push_le64(out: &mut Vec<u8>, x: u64)
    ensures
        final(out)@ == old(out)@ + le64(x),
{
    out.push((x % 256) as u8);
    out.push((x / 0x100 % 256) as u8);
    out.push((x / 0x1_0000 % 256) as u8);
    out.push((x / 0x100_0000 % 256) as u8);
    out.push((x / 0x1_0000_0000 % 256) as u8);
    out.push((x / 0x100_0000_0000 % 256) as u8);
    out.push((x / 0x1_0000_0000_0000 % 256) as u8);
    out.push((x / 0x100_0000_0000_0000 % 256) as u8);
    assert(out@ =~= old(out)@ + le64(x));
}

impl TaskInfo {
    /// Size of a snapshot in bytes.
    pub open spec fn encoded_len() -> nat {
        (16 + 4 * MAX_SYSCALL_NUM) as nat
    }

    /// The snapshot a task receives: the status as a 64-bit word, the
    /// counters as 32-bit words, the start time as a 64-bit word, in this
    /// order, each word with its lowest byte first.
    pub open spec fn encode(&self) -> Seq<u8> {
        le64(status_code(self.status)) + le32_all(self.syscall_times@) + le64(
            self.start_time as u64,
        )
    }

    /// The figures of a task that has not run yet: no call counted, no
    /// start time.
    pub fn new() -> (info: TaskInfo)
        ensures
            info.status == TaskStatus::UnInit,
            forall|id: int| 0 <= id < MAX_SYSCALL_NUM ==> info.syscall_times[id] == 0,
            info.start_time == 0,
    {
        TaskInfo { status: TaskStatus::UnInit, syscall_times: [0u32; MAX_SYSCALL_NUM], start_time: 0 }
    }

    /// Time the task has been running at `now_ms`, in milliseconds: the
    /// time since its start while it is `Running`, zero otherwise.
    pub fn get_time(&mut self, now_ms: usize) -> (elapsed: usize)
        requires
            old(self).status == TaskStatus::Running ==> old(self).start_time <= now_ms,
        ensures
            *final(self) == *old(self),
            elapsed == (if old(self).status == TaskStatus::Running {
                now_ms - old(self).start_time
            } else {
                0
            }),
    {
        if self.status == TaskStatus::Running {
            now_ms - self.start_time
        } else {
            0
        }
    }

    /// Marks the task as running since `now_ms`. The counters stay.
    pub fn start(&mut self, now_ms: usize)
        ensures
            final(self).status == TaskStatus::Running,
            final(self).start_time == now_ms,
            final(self).syscall_times == old(self).syscall_times,
    {
        self.status = TaskStatus::Running;
        self.start_time = now_ms;
    }

    /// Counts one more call of system call `id`.
    pub fn record_syscall(&mut self, id: usize)
        requires
            id < MAX_SYSCALL_NUM,
            old(self).syscall_times[id as int] < u32::MAX,
        ensures
            final(self).status == old(self).status,
            final(self).start_time == old(self).start_time,
            final(self).syscall_times@ == old(self).syscall_times@.update(
                id as int,
                (old(self).syscall_times[id as int] + 1) as u32,
            ),
    {
        let count: u32 = self.syscall_times[id];
        self.syscall_times[id] = count + 1;
    }

    /// The snapshot of these figures, as the bytes a task receives.
    pub fn to_bytes(&self) -> (bytes: Vec<u8>)
        ensures
            bytes@ == self.encode(),
            bytes@.len() == TaskInfo::encoded_len(),
    {
        let code: u64 = match self.status {
            TaskStatus::UnInit => 0,
            TaskStatus::Ready => 1,
            TaskStatus::Running => 2,
            TaskStatus::Exited => 3,
        };
        let mut bytes: Vec<u8> = Vec::new();
        push_le64(&mut bytes, code);
        let mut id: usize = 0;
        while id < MAX_SYSCALL_NUM
            invariant
                id <= MAX_SYSCALL_NUM,
                bytes@ == le64(code) + le32_all(self.syscall_times@.subrange(0, id as int)),
            decreases MAX_SYSCALL_NUM - id,
        {
            push_le32(&mut bytes, self.syscall_times[id]);
            assert(bytes@ =~= le64(code) + le32_all(
                self.syscall_times@.subrange(0, id + 1),
            ));
            id = id + 1;
        }
        assert(self.syscall_times@.subrange(0, MAX_SYSCALL_NUM as int) =~= self.syscall_times@);
        push_le64(&mut bytes, self.start_time as u64);
        bytes
    }
}

/// The task control block: all the kernel keeps of one task.
#[derive(Copy, Clone)]
pub struct TaskControlBlock {
    /// Where the task stands in its life.
    pub task_status: TaskStatus,
    /// The registers to resume the task from, of use only while the task
    /// is `Ready` or `Running`.
    pub task_cx: TaskContext,
    /// The figures the task may ask about.
    pub task_info: TaskInfo,
}

} // verus!
