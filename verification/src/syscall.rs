//! The system calls by which a task gives up the processor, asks about
//! itself and manages its address space.

use vstd::prelude::*;
use crate::config::{MAX_SYSCALL_NUM, PAGE_SIZE};
use crate::manager::{
    count_of, dispatched, exited, exited_stay, is_next_task, suspended, TaskManager,
};
use crate::mapping::{mmap, mmap_after, mmap_outcome, munmap, munmap_after, munmap_outcome};
use crate::memory::{
    in_range, lemma_regions_cover, lemma_write_region, page_writable, range_mapped, range_pages,
    range_writable, regions, unmap_range, write_bytes, ByteRegion,
};
use crate::task::{le64, push_le64, TaskInfo, TaskStatus};

verus! {

/// A time of day: whole seconds, and the microseconds beyond them.
#[derive(Debug)]
pub struct TimeVal {
    pub sec: usize,
    pub usec: usize,
}

impl TimeVal {
    /// The bytes a task receives for this time: the seconds, then the
    /// microseconds, each as a 64-bit word with its lowest byte first.
    pub open spec fn encode(&self) -> Seq<u8> {
        le64(self.sec as u64) + le64(self.usec as u64)
    }

    /// The time `time_us` microseconds after the start of the clock.
    pub open spec fn of_micros(time_us: usize) -> TimeVal {
        TimeVal { sec: time_us / 1_000_000, usec: time_us % 1_000_000 }
    }

    /// The bytes a task receives for this time.
    pub fn to_bytes(&self) -> (bytes: Vec<u8>)
        ensures
            bytes@ == self.encode(),
            bytes@.len() == 16,
    {
        let mut bytes: Vec<u8> = Vec::new();
        push_le64(&mut bytes, self.sec as u64);
        push_le64(&mut bytes, self.usec as u64);
        bytes
    }
}

/// The current task ends, whatever its exit code, and the task the
/// scheduler picks gets the processor at `now_ms`. Returns the number of
/// that task, or `None` where no task is left to run.
pub fn sys_exit(manager: &mut TaskManager, _exit_code: i32, now_ms: usize) -> (next: Option<usize>)
    requires
        old(manager).running(),
    ensures
        final(manager).wf(),
        final(manager).spaces@ == old(manager).spaces@,
        final(manager).calls@ == old(manager).calls@,
        is_next_task(
            exited(old(manager).tasks@, old(manager).current as int),
            old(manager).current as int,
            next,
        ),
        exited_stay(old(manager).tasks@, final(manager).tasks@),
        final(manager).tasks[old(manager).current as int].task_status == TaskStatus::Exited,
        (match next {
            Some(j) => {
                &&& final(manager).running()
                &&& final(manager).current == j
                &&& j != old(manager).current
                &&& final(manager).tasks@ == exited(
                    old(manager).tasks@,
                    old(manager).current as int,
                ).update(j as int, dispatched(old(manager).tasks[j as int], now_ms))
            },
            None => {
                &&& final(manager).current == old(manager).current
                &&& final(manager).tasks@ == exited(old(manager).tasks@, old(manager).current as int)
            },
        }),
{
    manager.exit_current_and_run_next(now_ms)
}

/// The current task gives up the processor at `now_ms` and stays ready;
/// the task the scheduler picks gets it, which is the same task again
/// where no other is ready. Returns 0.
pub fn sys_yield(manager: &mut TaskManager, now_ms: usize) -> (code: isize)
    requires
        old(manager).running(),
    ensures
        final(manager).running(),
        code == 0,
        final(manager).spaces@ == old(manager).spaces@,
        final(manager).calls@ == old(manager).calls@,
        is_next_task(
            suspended(old(manager).tasks@, old(manager).current as int),
            old(manager).current as int,
            Some(final(manager).current),
        ),
        final(manager).tasks@ == suspended(old(manager).tasks@, old(manager).current as int).update(
            final(manager).current as int,
            dispatched(
                suspended(
                    old(manager).tasks@,
                    old(manager).current as int,
                )[final(manager).current as int],
                now_ms,
            ),
        ),
        exited_stay(old(manager).tasks@, final(manager).tasks@),
{
    manager.suspend_current_and_run_next(now_ms);
    0
}

/// Copies `src` into the memory of the current task, to the addresses
/// from `dest` on. The destination is cut at page boundaries and each
/// part is stored in the frame of its page, so a destination that spans
/// several pages is filled in full and in order.
pub fn copy_to_user_space(manager: &mut TaskManager, dest: usize, src: &[u8])
    requires
        old(manager).running(),
        dest + src@.len() <= usize::MAX,
        src@.len() > 0 ==> range_writable(old(manager).space()@, dest as int, src@.len() as int),
    ensures
        final(manager).running(),
        final(manager).same_but_space(old(manager)),
        final(manager).space().frame_limit() == old(manager).space().frame_limit(),
        final(manager).space().same_heap(&old(manager).space()),
        final(manager).space()@ == write_bytes(old(manager).space()@, dest as int, src@),
{
    let current: usize = manager.current;
    let size: usize = src.len();
    let ghost before = manager.space()@;
    proof {
        manager.space().lemma_wf();
        if size > 0 {
            assert forall|vpn: usize| in_range(vpn, dest as int, size as int) implies #[trigger]
                before.contains_key(vpn) by {
                assert(page_writable(before, vpn));
            }
        }
        assert(before =~~= write_bytes(before, dest as int, src@.subrange(0, 0)));
    }
    let buffers = manager.spaces[current].translated_byte_buffer(dest, size);
    let mut offset: usize = 0;
    let mut i: usize = 0;
    while i < buffers.len()
        invariant
            i <= buffers.len(),
            offset <= size,
            size == src@.len(),
            dest + size <= usize::MAX,
            buffers@ == regions(dest as int, size as int),
            size > 0 ==> buffers.len() == range_pages(dest as int, size as int),
            size > 0 ==> range_mapped(before, dest as int, size as int),
            i < buffers.len() ==> buffers[i as int].va_start() == dest + offset,
            i == buffers.len() ==> offset == size,
            before == old(manager).space()@,
            forall|vpn: usize| #[trigger]
                before.contains_key(vpn) ==> before[vpn].data.len() == PAGE_SIZE,
            manager.running(),
            manager.same_but_space(old(manager)),
            manager.space().frame_limit() == old(manager).space().frame_limit(),
            manager.space().same_heap(&old(manager).space()),
            current == manager.current,
            manager.space()@ == write_bytes(before, dest as int, src@.subrange(0, offset as int)),
        decreases buffers.len() - i,
    {
        let region: ByteRegion = buffers[i];
        proof {
            lemma_regions_cover(dest as int, size as int, i as int);
            if i + 1 < buffers.len() {
                lemma_regions_cover(dest as int, size as int, i + 1);
            }
            assert(before.contains_key(region.vpn));
            lemma_write_region(before, dest as int, src@, offset as int, region);
        }
        manager.spaces[current].write_region(&region, src, offset);
        offset = offset + (region.end - region.start);
        i = i + 1;
    }
    assert(src@.subrange(0, size as int) =~= src@);
}

/// Stores the time `time_us`, the reading of the clock in microseconds,
/// at `ts` in the memory of the current task, as seconds and microseconds.
/// Returns 0, or -1 where `ts` is null, in which case nothing is stored.
pub fn sys_get_time(manager: &mut TaskManager, ts: usize, _tz: usize, time_us: usize) -> (code:
    isize)
    requires
        old(manager).running(),
        ts != 0 ==> ts + 16 <= usize::MAX && range_writable(old(manager).space()@, ts as int, 16),
    ensures
        final(manager).running(),
        code == (if ts == 0 { -1isize } else { 0isize }),
        ts == 0 ==> *final(manager) == *old(manager),
        final(manager).same_but_space(old(manager)),
        final(manager).space().frame_limit() == old(manager).space().frame_limit(),
        final(manager).space().same_heap(&old(manager).space()),
        ts != 0 ==> final(manager).space()@ == write_bytes(
            old(manager).space()@,
            ts as int,
            TimeVal::of_micros(time_us).encode(),
        ),
{
    if ts == 0 {
        return -1;
    }
    let time_val = TimeVal { sec: time_us / 1_000_000, usec: time_us % 1_000_000 };
    let bytes = time_val.to_bytes();
    copy_to_user_space(manager, ts, bytes.as_slice());
    0
}

/// Stores a snapshot of the current task's figures at `ti` in its memory
/// and returns 0. Each counter of the snapshot holds the number of calls
/// recorded for the task under its call number.
pub fn sys_task_info(manager: &mut TaskManager, ti: usize) -> (code: isize)
    requires
        old(manager).running(),
        ti + TaskInfo::encoded_len() <= usize::MAX,
        range_writable(old(manager).space()@, ti as int, TaskInfo::encoded_len() as int),
    ensures
        final(manager).running(),
        code == 0,
        final(manager).same_but_space(old(manager)),
        final(manager).space().frame_limit() == old(manager).space().frame_limit(),
        final(manager).space().same_heap(&old(manager).space()),
        final(manager).space()@ == write_bytes(
            old(manager).space()@,
            ti as int,
            old(manager).snapshot().encode(),
        ),
        forall|id: int|
            0 <= id < MAX_SYSCALL_NUM ==> #[trigger] old(manager).snapshot().syscall_times[id]
                == count_of(old(manager).calls@[old(manager).current as int], id),
{
    let task_info = manager.get_task_info();
    let bytes = task_info.to_bytes();
    copy_to_user_space(manager, ti, bytes.as_slice());
    0
}

/// Maps memory for the current task. Returns 0 where the request was
/// granted and -1 where it was refused, for whatever reason.
pub fn sys_mmap(manager: &mut TaskManager, start: usize, len: usize, port: usize) -> (code: isize)
    requires
        old(manager).running(),
        start + len <= usize::MAX,
    ensures
        final(manager).running(),
        final(manager).same_but_space(old(manager)),
        final(manager).space().frame_limit() == old(manager).space().frame_limit(),
        final(manager).space().same_heap(&old(manager).space()),
        code == (if mmap_outcome(
            old(manager).space()@,
            old(manager).space().free_frames(),
            start,
            len,
            port,
        ) is Ok {
            0isize
        } else {
            -1isize
        }),
        final(manager).space()@ == mmap_after(
            old(manager).space()@,
            old(manager).space().free_frames(),
            start,
            len,
            port,
        ),
{
    match mmap(manager, start, len, port) {
        Ok(_) => 0,
        Err(_) => -1,
    }
}

/// Unmaps memory of the current task. Returns 0 where every page of the
/// range was mapped and is now unmapped, and -1 otherwise; the pages of
/// the range that come before the first unmapped one are then unmapped
/// all the same.
pub fn sys_munmap(manager: &mut TaskManager, start: usize, len: usize) -> (code: isize)
    requires
        old(manager).running(),
        start + len <= usize::MAX,
    ensures
        final(manager).running(),
        final(manager).same_but_space(old(manager)),
        final(manager).space().frame_limit() == old(manager).space().frame_limit(),
        final(manager).space().same_heap(&old(manager).space()),
        code == (if munmap_outcome(old(manager).space()@, start, len) is Ok {
            0isize
        } else {
            -1isize
        }),
        final(manager).space()@ == munmap_after(old(manager).space()@, start, len),
        code == 0 ==> final(manager).space()@ == unmap_range(
            old(manager).space()@,
            start as int,
            len as int,
        ),
{
    match munmap(manager, start, len) {
        Ok(_) => 0,
        Err(_) => -1,
    }
}

/// Moves the program break of the current task by `size` bytes. Returns
/// the break as it was, or -1 where the move would take the break out of
/// the heap, in which case the break stays.
pub fn sys_sbrk(manager: &mut TaskManager, size: i32) -> (code: isize)
    requires
        old(manager).running(),
    ensures
        final(manager).running(),
        final(manager).same_but_space(old(manager)),
        final(manager).space()@ == old(manager).space()@,
        final(manager).space().frame_limit() == old(manager).space().frame_limit(),
        final(manager).space().heap_bottom() == old(manager).space().heap_bottom(),
        final(manager).space().heap_limit() == old(manager).space().heap_limit(),
        (if old(manager).space().heap_bottom() <= old(manager).space().program_brk() + size
            <= old(manager).space().heap_limit() {
            &&& code == old(manager).space().program_brk()
            &&& final(manager).space().program_brk() == old(manager).space().program_brk() + size
        } else {
            &&& code == -1
            &&& final(manager).space().program_brk() == old(manager).space().program_brk()
        }),
{
    let current: usize = manager.current;
    proof {
        manager.space().lemma_wf();
    }
    if let Some(old_brk) = manager.spaces[current].change_program_brk(size) {
        old_brk as isize
    } else {
        -1
    }
}

} // verus!
