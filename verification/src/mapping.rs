//! The mapping engine: it checks a request to map or unmap a range of
//! virtual memory, translates the permission bits, looks for pages that
//! stand in the way, and has the address space of the current task changed.

use vstd::prelude::*;
use crate::config::PAGE_SIZE;
use crate::manager::TaskManager;
use crate::memory::{
    ceil_page, floor_page, in_range, lemma_unmap_pages_len, map_range, page_ceil, page_floor,
    pages_free, pages_mapped, range_free, range_mapped, range_pages, unmap_pages, unmap_range,
    PageView,
};
use crate::permission::{Flags, MapPermission};

verus! {

/// Why a request to map or unmap memory was refused.
#[derive(Clone, Copy, PartialEq, Eq, Structural, Debug)]
pub enum MapError {
    /// The start is not page-aligned, the length is zero, or the
    /// permission bits are malformed.
    InvalidArgument,
    /// A page to map is mapped already, or a page to unmap is not mapped.
    Conflict,
    /// There are not enough free frames.
    ResourceExhausted,
}

/// Whether `port` names at least one of read, write and execute, and
/// nothing else.
pub open spec fn port_valid(port: usize) -> bool {
    1 <= port <= 7
}

/// The rights that `port` asks for: bit 0 for reading, bit 1 for writing,
/// bit 2 for executing, and access from user mode in any case.
pub open spec fn port_flags(port: usize) -> Flags {
    Flags {
        readable: port % 2 == 1,
        writable: (port / 2) % 2 == 1,
        executable: (port / 4) % 2 == 1,
        user: true,
    }
}

/// Checks the permission bits of a mapping request and translates them
/// into a permission set.
pub fn check_and_translate_port(port: usize) -> (perm: Option<MapPermission>)
    ensures
        perm is Some <==> port_valid(port),
        perm matches Some(p) ==> p@ == port_flags(port),
{
    assert((port & !0x7usize != 0) == (port > 7)) by (bit_vector);
    assert((port & 0x7 == 0) == (port % 8 == 0)) by (bit_vector);
    assert((port & 0x1 != 0) == (port % 2 == 1)) by (bit_vector);
    assert((port & 0x2 != 0) == ((port / 2) % 2 == 1)) by (bit_vector);
    assert((port & 0x4 != 0) == ((port / 4) % 2 == 1)) by (bit_vector);
    if port & !0x7 != 0 {
        return None;
    }
    if port & 0x7 == 0 {
        return None;
    }
    let mut flags = MapPermission::u();
    if port & 0x1 != 0 {
        flags = flags.union(MapPermission::r());
    }
    if port & 0x2 != 0 {
        flags = flags.union(MapPermission::w());
    }
    if port & 0x4 != 0 {
        flags = flags.union(MapPermission::x());
    }
    Some(flags)
}

/// What a request to map `[start, start + len)` with `port` comes to in
/// an address space with the mappings `m` and `free` free frames.
pub open spec fn mmap_outcome(
    m: Map<usize, PageView>,
    free: int,
    start: usize,
    len: usize,
    port: usize,
) -> Result<(), MapError> {
    if start % PAGE_SIZE != 0 || len == 0 || !port_valid(port) {
        Err(MapError::InvalidArgument)
    } else if !range_free(m, start as int, len as int) {
        Err(MapError::Conflict)
    } else if range_pages(start as int, len as int) > free {
        Err(MapError::ResourceExhausted)
    } else {
        Ok(())
    }
}

/// The mappings after a request to map `[start, start + len)` with
/// `port`: the pages of the range are added where the request is granted,
/// and nothing changes where it is refused.
pub open spec fn mmap_after(
    m: Map<usize, PageView>,
    free: int,
    start: usize,
    len: usize,
    port: usize,
) -> Map<usize, PageView> {
    if mmap_outcome(m, free, start, len, port) is Ok {
        map_range(m, start as int, len as int, port_flags(port))
    } else {
        m
    }
}

/// Maps the pages of `[start, start + len)` into the address space of the
/// current task, each to a zeroed frame, with the rights that `port` asks
/// for. A request that is refused changes nothing.
pub fn mmap(manager: &mut TaskManager, start: usize, len: usize, port: usize) -> (result: Result<
    (),
    MapError,
>)
    requires
        old(manager).running(),
        start + len <= usize::MAX,
    ensures
        final(manager).running(),
        final(manager).same_but_space(old(manager)),
        final(manager).space().frame_limit() == old(manager).space().frame_limit(),
        final(manager).space().same_heap(&old(manager).space()),
        result == mmap_outcome(
            old(manager).space()@,
            old(manager).space().free_frames(),
            start,
            len,
            port,
        ),
        final(manager).space()@ == mmap_after(
            old(manager).space()@,
            old(manager).space().free_frames(),
            start,
            len,
            port,
        ),
{
    if start % PAGE_SIZE != 0 {
        return Err(MapError::InvalidArgument);
    }
    if len == 0 {
        return Err(MapError::InvalidArgument);
    }
    let perm = match check_and_translate_port(port) {
        Some(flags) => flags,
        None => {
            return Err(MapError::InvalidArgument);
        },
    };
    let current: usize = manager.current;
    let lo: usize = floor_page(start);
    let hi: usize = ceil_page(start + len);
    let mut vpn: usize = lo;
    while vpn < hi
        invariant
            lo <= vpn <= hi,
            lo == page_floor(start as int),
            hi == page_ceil(start + len),
            start % PAGE_SIZE == 0,
            len != 0,
            port_valid(port),
            *manager == *old(manager),
            manager.running(),
            current == manager.current,
            pages_free(manager.space()@, lo as int, vpn as int),
        decreases hi - vpn,
    {
        if manager.spaces[current].check_vpn_exists(vpn) {
            return Err(MapError::Conflict);
        }
        vpn = vpn + 1;
    }
    if !manager.spaces[current].do_mmap(start, len, perm) {
        return Err(MapError::ResourceExhausted);
    }
    Ok(())
}

/// The first of the pages `lo..hi` that is not mapped in `m`, or `hi`
/// where all of them are mapped.
pub open spec fn first_unmapped(m: Map<usize, PageView>, lo: int, hi: int) -> int
    decreases hi - lo,
{
    if lo >= hi {
        hi
    } else if !m.contains_key(lo as usize) {
        lo
    } else {
        first_unmapped(m, lo + 1, hi)
    }
}

/// The first unmapped page is what its name says: the pages before it
/// are mapped, it is not mapped itself unless it is `hi`, and it is `hi`
/// exactly where all of the pages `lo..hi` are mapped.
pub proof fn lemma_first_unmapped(m: Map<usize, PageView>, lo: int, hi: int)
    requires
        0 <= lo <= hi <= usize::MAX + 1,
    ensures
        lo <= first_unmapped(m, lo, hi) <= hi,
        pages_mapped(m, lo, first_unmapped(m, lo, hi)),
        first_unmapped(m, lo, hi) < hi ==> !m.contains_key(first_unmapped(m, lo, hi) as usize),
        first_unmapped(m, lo, hi) == hi <==> pages_mapped(m, lo, hi),
    decreases hi - lo,
{
    if lo < hi && m.contains_key(lo as usize) {
        lemma_first_unmapped(m, lo + 1, hi);
    }
}

/// What a request to unmap `[start, start + len)` comes to in an address
/// space with the mappings `m`.
pub open spec fn munmap_outcome(m: Map<usize, PageView>, start: usize, len: usize) -> Result<
    (),
    MapError,
> {
    if start % PAGE_SIZE != 0 || len == 0 {
        Err(MapError::InvalidArgument)
    } else if !range_mapped(m, start as int, len as int) {
        Err(MapError::Conflict)
    } else {
        Ok(())
    }
}

/// The mappings after a request to unmap `[start, start + len)`: nothing
/// changes where the arguments are invalid; else the pages of the range
/// are gone up to the first that was not mapped, which is all of them
/// where the request succeeds.
pub open spec fn munmap_after(m: Map<usize, PageView>, start: usize, len: usize) -> Map<
    usize,
    PageView,
> {
    if start % PAGE_SIZE != 0 || len == 0 {
        m
    } else {
        unmap_pages(
            m,
            page_floor(start as int),
            first_unmapped(m, page_floor(start as int), page_ceil(start + len)),
        )
    }
}

/// Unmaps the pages of `[start, start + len)` from the address space of
/// the current task, one after the other by ascending address, and stops
/// at the first that is not mapped: the pages before it stay unmapped.
pub fn munmap(manager: &mut TaskManager, start: usize, len: usize) -> (result: Result<(), MapError>)
    requires
        old(manager).running(),
        start + len <= usize::MAX,
    ensures
        final(manager).running(),
        final(manager).same_but_space(old(manager)),
        final(manager).space().frame_limit() == old(manager).space().frame_limit(),
        final(manager).space().same_heap(&old(manager).space()),
        result == munmap_outcome(old(manager).space()@, start, len),
        final(manager).space()@ == munmap_after(old(manager).space()@, start, len),
        result is Ok ==> final(manager).space()@ == unmap_range(
            old(manager).space()@,
            start as int,
            len as int,
        ),
{
    if start % PAGE_SIZE != 0 {
        return Err(MapError::InvalidArgument);
    }
    if len == 0 {
        return Err(MapError::InvalidArgument);
    }
    let current: usize = manager.current;
    let lo: usize = floor_page(start);
    let hi: usize = ceil_page(start + len);
    let ghost before = manager.space()@;
    assert(manager.space()@ =~= unmap_pages(before, lo as int, lo as int));
    let mut vpn: usize = lo;
    while vpn < hi
        invariant
            lo <= vpn <= hi,
            lo == page_floor(start as int),
            hi == page_ceil(start + len),
            start % PAGE_SIZE == 0,
            len != 0,
            before == old(manager).space()@,
            old(manager).running(),
            manager.running(),
            manager.same_but_space(old(manager)),
            manager.space().frame_limit() == old(manager).space().frame_limit(),
            manager.space().same_heap(&old(manager).space()),
            current == manager.current,
            pages_mapped(before, lo as int, vpn as int),
            first_unmapped(before, lo as int, hi as int) == first_unmapped(
                before,
                vpn as int,
                hi as int,
            ),
            manager.space()@ == unmap_pages(before, lo as int, vpn as int),
        decreases hi - vpn,
    {
        if !manager.spaces[current].check_vpn_exists(vpn) {
            assert(!before.contains_key(vpn));
            return Err(MapError::Conflict);
        }
        if !manager.spaces[current].do_munmap(vpn) {
            return Err(MapError::Conflict);
        }
        assert(manager.space()@ =~= unmap_pages(before, lo as int, vpn + 1));
        vpn = vpn + 1;
    }
    Ok(())
}

/// A request to map free pages is granted and gives each page the rights
/// asked for: where the start is page-aligned, the length is not zero, the
/// permission bits are valid, no page of the range is mapped and the free
/// frames suffice, the request succeeds, and every page of the range is
/// then mapped, readable, writable and executable as bits 0, 1 and 2 of
/// `port` say, and open to user mode.
pub proof fn lemma_mmap_grants(
    m: Map<usize, PageView>,
    free: int,
    start: usize,
    len: usize,
    port: usize,
)
    requires
        start % PAGE_SIZE == 0,
        len > 0,
        port_valid(port),
        range_free(m, start as int, len as int),
        range_pages(start as int, len as int) <= free,
    ensures
        mmap_outcome(m, free, start, len, port) is Ok,
        forall|vpn: usize|
            #![trigger map_range(m, start as int, len as int, port_flags(port)).contains_key(vpn)]
            in_range(vpn, start as int, len as int) ==> ({
                &&& map_range(m, start as int, len as int, port_flags(port)).contains_key(vpn)
                &&& map_range(m, start as int, len as int, port_flags(port))[vpn].flags == (Flags {
                    readable: port % 2 == 1,
                    writable: (port / 2) % 2 == 1,
                    executable: (port / 4) % 2 == 1,
                    user: true,
                })
            }),
        forall|vpn: usize|
            #![trigger map_range(m, start as int, len as int, port_flags(port)).contains_key(vpn)]
            !in_range(vpn, start as int, len as int) ==> ({
                &&& map_range(m, start as int, len as int, port_flags(port)).contains_key(vpn)
                    == m.contains_key(vpn)
                &&& m.contains_key(vpn) ==> map_range(
                    m,
                    start as int,
                    len as int,
                    port_flags(port),
                )[vpn] == m[vpn]
            }),
{
}

/// A second request on pages just mapped is refused and changes nothing:
/// once a request to map a range was granted, any request for a range
/// that shares a page with it fails, whatever its other arguments and
/// however many frames are free, and the mappings stay as the first
/// request left them, rights included.
pub proof fn lemma_mmap_again_refused(
    m: Map<usize, PageView>,
    free: int,
    start: usize,
    len: usize,
    port: usize,
    free_again: int,
    start_again: usize,
    len_again: usize,
    port_again: usize,
    shared: usize,
)
    requires
        mmap_outcome(m, free, start, len, port) is Ok,
        in_range(shared, start as int, len as int),
        in_range(shared, start_again as int, len_again as int),
    ensures
        mmap_outcome(
            mmap_after(m, free, start, len, port),
            free_again,
            start_again,
            len_again,
            port_again,
        ) is Err,
        mmap_after(
            mmap_after(m, free, start, len, port),
            free_again,
            start_again,
            len_again,
            port_again,
        ) == mmap_after(m, free, start, len, port),
{
    let after = mmap_after(m, free, start, len, port);
    assert(after.contains_key(shared));
}

/// A request to unmap succeeds exactly where every page of the range is
/// mapped, given an aligned start and a length that is not zero; and a
/// range that was unmapped can be mapped again at once: the frames it
/// gave back suffice for it.
pub proof fn lemma_munmap_then_mmap(
    m: Map<usize, PageView>,
    frame_limit: nat,
    start: usize,
    len: usize,
    port: usize,
)
    requires
        m.dom().finite(),
        m.len() <= frame_limit,
        start + len <= usize::MAX,
        start % PAGE_SIZE == 0,
        len > 0,
        port_valid(port),
    ensures
        munmap_outcome(m, start, len) is Ok <==> range_mapped(m, start as int, len as int),
        munmap_outcome(m, start, len) is Ok ==> ({
            &&& munmap_after(m, start, len) == unmap_range(m, start as int, len as int)
            &&& mmap_outcome(
                munmap_after(m, start, len),
                frame_limit - munmap_after(m, start, len).len(),
                start,
                len,
                port,
            ) is Ok
        }),
{
    lemma_first_unmapped(m, page_floor(start as int), page_ceil(start + len));
    if range_mapped(m, start as int, len as int) {
        lemma_unmap_pages_len(m, page_floor(start as int), page_ceil(start + len));
    }
}

/// Permission bits other than one to seven are refused: a request to map
/// with no bit set, or with a bit above bit 2 set, fails as an invalid
/// argument whatever the range and the state of the address space.
pub proof fn lemma_bad_port_refused(
    m: Map<usize, PageView>,
    free: int,
    start: usize,
    len: usize,
    port: usize,
)
    requires
        port == 0 || port > 7,
    ensures
        mmap_outcome(m, free, start, len, port) == Err::<(), MapError>(MapError::InvalidArgument),
{
}

} // verus!
