//! The address space of one task: which virtual pages are mapped, with what
//! rights, and what their frames hold.

use vstd::prelude::*;
use std::collections::HashMap;
use crate::config::PAGE_SIZE;
use crate::permission::{Flags, MapPermission};

verus! {

broadcast use vstd::std_specs::hash::group_hash_axioms;

/// What one mapped page is, to a specification: its rights and the bytes
/// of its frame.
#[verifier::ext_equal]
pub struct PageView {
    pub flags: Flags,
    pub data: Seq<u8>,
}

/// Number of the page that holds the byte at `addr`.
pub open spec fn page_floor(addr: int) -> int {
    addr / (PAGE_SIZE as int)
}

/// Number of the first page that starts at or after `addr`.
pub open spec fn page_ceil(addr: int) -> int {
    (addr + PAGE_SIZE - 1) / (PAGE_SIZE as int)
}

/// Whether page `vpn` is one of the pages `lo..hi`.
pub open spec fn in_pages(vpn: usize, lo: int, hi: int) -> bool {
    lo <= vpn < hi
}

/// Whether page `vpn` holds a byte of `[start, start + len)`, the range
/// taken from the floor of its start to the ceiling of its end.
pub open spec fn in_range(vpn: usize, start: int, len: int) -> bool {
    in_pages(vpn, page_floor(start), page_ceil(start + len))
}

/// Number of pages that `[start, start + len)` touches.
pub open spec fn range_pages(start: int, len: int) -> int {
    page_ceil(start + len) - page_floor(start)
}

/// None of the pages `lo..hi` is mapped.
pub open spec fn pages_free(m: Map<usize, PageView>, lo: int, hi: int) -> bool {
    forall|vpn: usize| in_pages(vpn, lo, hi) ==> !#[trigger] m.contains_key(vpn)
}

/// Each of the pages `lo..hi` is mapped.
pub open spec fn pages_mapped(m: Map<usize, PageView>, lo: int, hi: int) -> bool {
    forall|vpn: usize| in_pages(vpn, lo, hi) ==> #[trigger] m.contains_key(vpn)
}

/// No page of `[start, start + len)` is mapped.
pub open spec fn range_free(m: Map<usize, PageView>, start: int, len: int) -> bool {
    pages_free(m, page_floor(start), page_ceil(start + len))
}

/// Every page of `[start, start + len)` is mapped.
pub open spec fn range_mapped(m: Map<usize, PageView>, start: int, len: int) -> bool {
    pages_mapped(m, page_floor(start), page_ceil(start + len))
}

/// Page `vpn` is mapped and writable.
pub open spec fn page_writable(m: Map<usize, PageView>, vpn: usize) -> bool {
    m.contains_key(vpn) && m[vpn].flags.writable
}

/// Every page of `[start, start + len)` is mapped and writable.
pub open spec fn range_writable(m: Map<usize, PageView>, start: int, len: int) -> bool {
    forall|vpn: usize| in_range(vpn, start, len) ==> #[trigger] page_writable(m, vpn)
}

/// A page fresh from the allocator: the given rights, every byte zero.
pub open spec fn zero_page(flags: Flags) -> PageView {
    PageView { flags, data: Seq::new(PAGE_SIZE as nat, |i: int| 0u8) }
}

/// `m` with the pages `lo..hi` mapped afresh with `flags`.
pub open spec fn map_pages(m: Map<usize, PageView>, lo: int, hi: int, flags: Flags) -> Map<
    usize,
    PageView,
> {
    Map::new(
        |vpn: usize| m.contains_key(vpn) || in_pages(vpn, lo, hi),
        |vpn: usize| if in_pages(vpn, lo, hi) { zero_page(flags) } else { m[vpn] },
    )
}

/// `m` without the pages `lo..hi`.
pub open spec fn unmap_pages(m: Map<usize, PageView>, lo: int, hi: int) -> Map<usize, PageView> {
    Map::new(|vpn: usize| m.contains_key(vpn) && !in_pages(vpn, lo, hi), |vpn: usize| m[vpn])
}

/// `m` with every page of `[start, start + len)` mapped afresh with `flags`.
pub open spec fn map_range(m: Map<usize, PageView>, start: int, len: int, flags: Flags) -> Map<
    usize,
    PageView,
> {
    map_pages(m, page_floor(start), page_ceil(start + len), flags)
}

/// `m` without the pages of `[start, start + len)`.
pub open spec fn unmap_range(m: Map<usize, PageView>, start: int, len: int) -> Map<
    usize,
    PageView,
> {
    unmap_pages(m, page_floor(start), page_ceil(start + len))
}

/// Number of the page that holds the byte at `addr`.
pub fn floor_page(addr: usize) -> (vpn: usize)
    ensures
        vpn == page_floor(addr as int),
{
    addr / PAGE_SIZE
}

/// Number of the first page that starts at or after `addr`.
pub fn ceil_page(addr: usize) -> (vpn: usize)
    ensures
        vpn == page_ceil(addr as int),
{
    if addr % PAGE_SIZE == 0 {
        addr / PAGE_SIZE
    } else {
        addr / PAGE_SIZE + 1
    }
}

/// One mapped page: its rights and its frame.
struct Page {
    perm: MapPermission,
    data: Vec<u8>,
}

/// The address space of a task. Each mapped page owns a frame of
/// `PAGE_SIZE` bytes; at most `frame_limit` pages can be mapped at a time.
pub struct AddressSpace {
    pages: HashMap<usize, Page>,
    frame_limit: usize,
    heap_bottom: usize,
    program_brk: usize,
    heap_limit: usize,
}

impl View for AddressSpace {
    type V = Map<usize, PageView>;

    closed spec fn view(&self) -> Map<usize, PageView> {
        Map::new(
            |vpn: usize| self.pages@.contains_key(vpn),
            |vpn: usize|
                PageView { flags: self.pages@[vpn].perm@, data: self.pages@[vpn].data@ },
        )
    }
}

impl AddressSpace {
    /// Every frame has the size of a page, the frames in use are within the
    /// limit, and the program break lies inside the heap.
    pub closed spec fn wf(&self) -> bool {
        &&& self.pages@.dom().finite()
        &&& self.pages@.len() <= self.frame_limit
        &&& forall|vpn: usize| #[trigger]
            self.pages@.contains_key(vpn) ==> self.pages@[vpn].data@.len() == PAGE_SIZE
        &&& self.heap_bottom <= self.program_brk <= self.heap_limit <= isize::MAX
    }

    /// Number of pages that can be mapped at a time.
    pub closed spec fn frame_limit(&self) -> nat {
        self.frame_limit as nat
    }

    /// Number of pages that can still be mapped.
    pub closed spec fn free_frames(&self) -> int {
        self.frame_limit - self.pages@.len()
    }

    /// Lowest address of the heap.
    pub closed spec fn heap_bottom(&self) -> int {
        self.heap_bottom as int
    }

    /// End of the data segment.
    pub closed spec fn program_brk(&self) -> int {
        self.program_brk as int
    }

    /// Highest address the program break may reach.
    pub closed spec fn heap_limit(&self) -> int {
        self.heap_limit as int
    }

    /// The heap bounds and the program break of `self` and `other` agree.
    pub open spec fn same_heap(&self, other: &AddressSpace) -> bool {
        &&& self.heap_bottom() == other.heap_bottom()
        &&& self.program_brk() == other.program_brk()
        &&& self.heap_limit() == other.heap_limit()
    }

    /// In a well-formed address space every frame has the size of a page
    /// and the break lies within the heap, below the largest address that
    /// a signed word can hold.
    pub proof fn lemma_wf(&self)
        requires
            self.wf(),
        ensures
            self@.dom().finite(),
            0 <= self.free_frames() <= self.frame_limit(),
            self.free_frames() == self.frame_limit() - self@.len(),
            forall|vpn: usize| #[trigger] self@.contains_key(vpn) ==> self@[vpn].data.len() == PAGE_SIZE,
            0 <= self.heap_bottom() <= self.program_brk() <= self.heap_limit() <= isize::MAX,
    {
        assert(self@.dom() =~= self.pages@.dom());
    }

    /// An address space with nothing mapped, room for `frame_limit` pages,
    /// and an empty data segment at `heap_bottom` that can grow up to
    /// `heap_limit`.
    pub fn new(frame_limit: usize, heap_bottom: usize, heap_limit: usize) -> (space: AddressSpace)
        requires
            heap_bottom <= heap_limit <= isize::MAX,
        ensures
            space.wf(),
            space@ == Map::<usize, PageView>::empty(),
            space.frame_limit() == frame_limit,
            space.free_frames() == frame_limit,
            space.heap_bottom() == heap_bottom,
            space.program_brk() == heap_bottom,
            space.heap_limit() == heap_limit,
    {
        let space = AddressSpace {
            pages: HashMap::new(),
            frame_limit,
            heap_bottom,
            program_brk: heap_bottom,
            heap_limit,
        };
        assert(space@ =~= Map::<usize, PageView>::empty());
        space
    }

    /// The end of the data segment.
    pub fn brk(&self) -> (brk: usize)
        ensures
            brk == self.program_brk(),
    {
        self.program_brk
    }

    /// Number of pages that can still be mapped.
    pub fn available_frames(&self) -> (free: usize)
        requires
            self.wf(),
        ensures
            free == self.free_frames(),
    {
        self.frame_limit - self.pages.len()
    }

    /// Whether page `vpn` is mapped.
    pub fn check_vpn_exists(&self, vpn: usize) -> (mapped: bool)
        ensures
            mapped == self@.contains_key(vpn),
    {
        self.pages.contains_key(&vpn)
    }
}

impl AddressSpace {
    /// Maps every page of `[start, start + len)` to a fresh zeroed frame
    /// with the rights `perm`, or maps nothing where the free frames do not
    /// suffice for all of them.
    pub fn do_mmap(&mut self, start: usize, len: usize, perm: MapPermission) -> (done: bool)
        requires
            old(self).wf(),
            start + len <= usize::MAX,
            range_free(old(self)@, start as int, len as int),
        ensures
            final(self).wf(),
            final(self).frame_limit() == old(self).frame_limit(),
            final(self).same_heap(old(self)),
            done == (range_pages(start as int, len as int) <= old(self).free_frames()),
            done ==> final(self)@ == map_range(old(self)@, start as int, len as int, perm@),
            !done ==> final(self)@ == old(self)@,
    {
        let lo: usize = floor_page(start);
        let hi: usize = ceil_page(start + len);
        if hi - lo > self.frame_limit - self.pages.len() {
            return false;
        }
        let mut vpn: usize = lo;
        while vpn < hi
            invariant
                lo <= vpn <= hi,
                lo == page_floor(start as int),
                hi == page_ceil(start + len),
                pages_free(old(self)@, lo as int, hi as int),
                self.pages@.dom().finite(),
                self.pages@.len() == old(self).pages@.len() + (vpn - lo),
                old(self).pages@.len() + (hi - lo) <= self.frame_limit,
                forall|k: usize| #[trigger]
                    self.pages@.contains_key(k) ==> self.pages@[k].data@.len() == PAGE_SIZE,
                self@ == map_pages(old(self)@, lo as int, vpn as int, perm@),
                self.frame_limit == old(self).frame_limit,
                self.heap_bottom == old(self).heap_bottom,
                self.program_brk == old(self).program_brk,
                self.heap_limit == old(self).heap_limit,
                self.heap_bottom <= self.program_brk <= self.heap_limit <= isize::MAX,
            decreases hi - vpn,
        {
            let ghost before = self@;
            assert(!before.contains_key(vpn));
            let data: Vec<u8> = vec![0u8; PAGE_SIZE];
            self.pages.insert(vpn, Page { perm, data });
            assert(self@ =~~= map_pages(old(self)@, lo as int, vpn + 1, perm@)) by {
                assert(self@ =~~= before.insert(vpn, zero_page(perm@)));
            }
            vpn = vpn + 1;
        }
        true
    }

    /// Unmaps page `vpn` and gives its frame back, or does nothing where
    /// the page is not mapped.
    pub fn do_munmap(&mut self, vpn: usize) -> (done: bool)
        requires
            old(self).wf(),
        ensures
            final(self).wf(),
            final(self).frame_limit() == old(self).frame_limit(),
            final(self).same_heap(old(self)),
            done == old(self)@.contains_key(vpn),
            final(self)@ == old(self)@.remove(vpn),
    {
        let removed = self.pages.remove(&vpn);
        assert(self@ =~~= old(self)@.remove(vpn));
        removed.is_some()
    }
}

impl AddressSpace {
    /// Moves the program break by `size` bytes, up or down, and returns
    /// the break as it was. The break does not leave the heap: a move that
    /// would take it below the heap's bottom or above its limit is refused
    /// and changes nothing.
    pub fn change_program_brk(&mut self, size: i32) -> (old_brk: Option<usize>)
        requires
            old(self).wf(),
        ensures
            final(self).wf(),
            final(self)@ == old(self)@,
            final(self).frame_limit() == old(self).frame_limit(),
            final(self).heap_bottom() == old(self).heap_bottom(),
            final(self).heap_limit() == old(self).heap_limit(),
            old_brk is Some <==> old(self).heap_bottom() <= old(self).program_brk() + size
                <= old(self).heap_limit(),
            old_brk matches Some(brk) ==> brk == old(self).program_brk()
                && final(self).program_brk() == old(self).program_brk() + size,
            old_brk is None ==> final(self).program_brk() == old(self).program_brk(),
    {
        let brk: usize = self.program_brk;
        if size >= 0 {
            let up: usize = size as usize;
            if up > self.heap_limit - brk {
                return None;
            }
            self.program_brk = brk + up;
        } else {
            let down: usize = (-(size as i64)) as usize;
            if down > brk - self.heap_bottom {
                return None;
            }
            self.program_brk = brk - down;
        }
        assert(self@ =~= old(self)@);
        Some(brk)
    }

    /// The rights of page `vpn`, or `None` where it is not mapped.
    pub fn permission(&self, vpn: usize) -> (perm: Option<MapPermission>)
        ensures
            perm is Some <==> self@.contains_key(vpn),
            perm matches Some(p) ==> p@ == self@[vpn].flags,
    {
        match self.pages.get(&vpn) {
            Some(page) => Some(page.perm),
            None => None,
        }
    }

    /// Whether every page of `[addr, addr + len)` is mapped and writable.
    pub fn is_writable(&self, addr: usize, len: usize) -> (writable: bool)
        requires
            addr + len <= usize::MAX,
        ensures
            writable == range_writable(self@, addr as int, len as int),
    {
        let lo: usize = floor_page(addr);
        let hi: usize = ceil_page(addr + len);
        let mut vpn: usize = lo;
        while vpn < hi
            invariant
                lo <= vpn <= hi,
                lo == page_floor(addr as int),
                hi == page_ceil(addr + len),
                forall|k: usize|
                    in_pages(k, lo as int, vpn as int) ==> #[trigger] page_writable(self@, k),
            decreases hi - vpn,
        {
            match self.pages.get(&vpn) {
                Some(page) => {
                    assert(self@.contains_key(vpn) && self@[vpn].flags == page.perm@);
                    if !page.perm.is_writable() {
                        assert(!page_writable(self@, vpn));
                        return false;
                    }
                },
                None => {
                    assert(!page_writable(self@, vpn));
                    return false;
                },
            }
            vpn = vpn + 1;
        }
        true
    }

    /// The `len` bytes at `addr` as the task sees them, or `None` where
    /// one of them lies in a page that is not mapped.
    pub fn read(&self, addr: usize, len: usize) -> (bytes: Option<Vec<u8>>)
        requires
            self.wf(),
            addr + len <= usize::MAX,
        ensures
            bytes is Some <==> (len == 0 || range_mapped(self@, addr as int, len as int)),
            bytes matches Some(b) ==> b@ == read_bytes(self@, addr as int, len as nat),
    {
        let mut bytes: Vec<u8> = Vec::new();
        let mut i: usize = 0;
        while i < len
            invariant
                i <= len,
                self.wf(),
                addr + len <= usize::MAX,
                i > 0 ==> pages_mapped(self@, page_floor(addr as int), page_ceil(addr + i)),
                bytes@ == read_bytes(self@, addr as int, i as nat),
            decreases len - i,
        {
            let at: usize = addr + i;
            let vpn: usize = floor_page(at);
            match self.pages.get(&vpn) {
                Some(page) => {
                    assert(self@.contains_key(vpn) && self@[vpn].data == page.data@);
                    bytes.push(page.data[at % PAGE_SIZE]);
                },
                None => {
                    assert(!self@.contains_key(vpn));
                    return None;
                },
            }
            assert(bytes@ =~= read_bytes(self@, addr as int, (i + 1) as nat));
            i = i + 1;
        }
        Some(bytes)
    }
}

/// A stretch of bytes inside one page: the bytes `start..end` of the
/// frame of page `vpn`.
#[derive(Clone, Copy, Debug)]
pub struct ByteRegion {
    pub vpn: usize,
    pub start: usize,
    pub end: usize,
}

impl ByteRegion {
    /// Number of bytes in the region.
    pub open spec fn len(self) -> int {
        self.end - self.start
    }

    /// Virtual address of the first byte of the region.
    pub open spec fn va_start(self) -> int {
        self.vpn * PAGE_SIZE + self.start
    }

    /// Virtual address just past the last byte of the region.
    pub open spec fn va_end(self) -> int {
        self.vpn * PAGE_SIZE + self.end
    }
}

/// The part of `[addr, addr + len)` that lies in the `i`-th page the range
/// touches.
pub open spec fn region_at(addr: int, len: int, i: int) -> ByteRegion {
    let vpn = page_floor(addr) + i;
    let base = vpn * PAGE_SIZE;
    let lo = if base <= addr { addr } else { base };
    let hi = if addr + len <= base + PAGE_SIZE { addr + len } else { base + PAGE_SIZE };
    ByteRegion { vpn: vpn as usize, start: (lo - base) as usize, end: (hi - base) as usize }
}

/// The range `[addr, addr + len)` cut at page boundaries: one region for
/// each page it touches, by ascending address. An empty range has none.
pub open spec fn regions(addr: int, len: int) -> Seq<ByteRegion> {
    if len <= 0 {
        Seq::empty()
    } else {
        Seq::new(range_pages(addr, len) as nat, |i: int| region_at(addr, len, i))
    }
}

/// The byte that a read at `addr` sees.
pub open spec fn byte_at(m: Map<usize, PageView>, addr: int) -> u8 {
    m[page_floor(addr) as usize].data[addr % (PAGE_SIZE as int)]
}

/// The `len` bytes that a read at `addr` sees.
pub open spec fn read_bytes(m: Map<usize, PageView>, addr: int, len: nat) -> Seq<u8> {
    Seq::new(len, |i: int| byte_at(m, addr + i))
}

/// `data` with `bytes` laid over it from index `at` on.
pub open spec fn splice(data: Seq<u8>, at: int, bytes: Seq<u8>) -> Seq<u8> {
    Seq::new(data.len(), |j: int| if at <= j < at + bytes.len() { bytes[j - at] } else { data[j] })
}

/// `m` after `src` was stored at the addresses from `dest` on: each byte
/// of a mapped page that lies in `[dest, dest + src.len())` holds the byte
/// of `src` at the same distance from the start, every other byte and all
/// rights are as before.
pub open spec fn write_bytes(m: Map<usize, PageView>, dest: int, src: Seq<u8>) -> Map<
    usize,
    PageView,
> {
    Map::new(
        |vpn: usize| m.contains_key(vpn),
        |vpn: usize|
            PageView {
                flags: m[vpn].flags,
                data: splice(m[vpn].data, dest - vpn * PAGE_SIZE, src),
            },
    )
}

impl AddressSpace {
    /// Cuts `[addr, addr + len)` into the stretches that lie in one page
    /// each, in ascending order of address.
    pub fn translated_byte_buffer(&self, addr: usize, len: usize) -> (buffers: Vec<ByteRegion>)
        requires
            self.wf(),
            addr + len <= usize::MAX,
            len > 0 ==> range_mapped(self@, addr as int, len as int),
        ensures
            buffers@ == regions(addr as int, len as int),
    {
        let end: usize = addr + len;
        let mut start: usize = addr;
        let mut buffers: Vec<ByteRegion> = Vec::new();
        while start < end
            invariant
                addr <= start <= end,
                end == addr + len,
                start < end ==> {
                    &&& page_floor(start as int) == page_floor(addr as int) + buffers.len()
                    &&& (buffers.len() == 0 ==> start == addr)
                    &&& (buffers.len() > 0 ==> start % PAGE_SIZE == 0)
                },
                start == end && len > 0 ==> buffers.len() == range_pages(addr as int, len as int),
                len == 0 ==> buffers.len() == 0,
                forall|j: int|
                    0 <= j < buffers.len() ==> buffers[j] == #[trigger] region_at(
                        addr as int,
                        len as int,
                        j,
                    ),
            decreases end - start,
        {
            let vpn: usize = floor_page(start);
            let offset: usize = start % PAGE_SIZE;
            let room: usize = PAGE_SIZE - offset;
            let rest: usize = end - start;
            let count: usize = if rest < room { rest } else { room };
            buffers.push(ByteRegion { vpn, start: offset, end: offset + count });
            start = start + count;
        }
        assert(buffers@ =~= regions(addr as int, len as int));
        buffers
    }

    /// Stores the bytes of `src` from index `offset` on into `region`, as
    /// many as the region holds.
    pub fn write_region(&mut self, region: &ByteRegion, src: &[u8], offset: usize)
        requires
            old(self).wf(),
            old(self)@.contains_key(region.vpn),
            region.start <= region.end <= PAGE_SIZE,
            offset + region.len() <= src@.len(),
        ensures
            final(self).wf(),
            final(self).frame_limit() == old(self).frame_limit(),
            final(self).same_heap(old(self)),
            final(self)@ == old(self)@.insert(
                region.vpn,
                PageView {
                    flags: old(self)@[region.vpn].flags,
                    data: splice(
                        old(self)@[region.vpn].data,
                        region.start as int,
                        src@.subrange(offset as int, offset + region.len()),
                    ),
                },
            ),
    {
        let vpn: usize = region.vpn;
        let count: usize = region.end - region.start;
        let total: usize = src.len();
        let ghost before = old(self).pages@[vpn];
        let removed = self.pages.remove(&vpn);
        if let Some(mut page) = removed {
            let mut i: usize = 0;
            while i < count
                invariant
                    i <= count,
                    count == region.end - region.start,
                    region.end <= PAGE_SIZE,
                    offset + count <= total,
                    total == src@.len(),
                    page.perm == before.perm,
                    page.data@.len() == PAGE_SIZE,
                    before.data@.len() == PAGE_SIZE,
                    page.data@ == splice(
                        before.data@,
                        region.start as int,
                        src@.subrange(offset as int, offset + i),
                    ),
                decreases count - i,
            {
                page.data.set(region.start + i, src[offset + i]);
                assert(page.data@ =~= splice(
                    before.data@,
                    region.start as int,
                    src@.subrange(offset as int, offset + i + 1),
                ));
                i = i + 1;
            }
            self.pages.insert(vpn, page);
            assert(self.pages@.dom() =~= old(self).pages@.dom());
        }
        assert(self@ =~~= old(self)@.insert(
            region.vpn,
            PageView {
                flags: old(self)@[region.vpn].flags,
                data: splice(
                    old(self)@[region.vpn].data,
                    region.start as int,
                    src@.subrange(offset as int, offset + region.len()),
                ),
            },
        ));
    }
}

/// The regions of a range are what is said of them: region `i` lies in
/// the `i`-th page the range touches and is not empty; the first starts at
/// `addr`, each further one starts at a page boundary, where the one
/// before it ends, and the last ends at `addr + len`.
pub proof fn lemma_regions_cover(addr: int, len: int, i: int)
    requires
        0 <= addr,
        0 < len,
        addr + len <= usize::MAX,
        0 <= i < range_pages(addr, len),
    ensures
        regions(addr, len).len() == range_pages(addr, len),
        regions(addr, len)[i].vpn == page_floor(addr) + i,
        in_range(regions(addr, len)[i].vpn, addr, len),
        regions(addr, len)[i].start < regions(addr, len)[i].end <= PAGE_SIZE,
        i == 0 ==> regions(addr, len)[i].va_start() == addr,
        i > 0 ==> regions(addr, len)[i].start == 0 && regions(addr, len)[i].va_start() == regions(
            addr,
            len,
        )[i - 1].va_end(),
        i == range_pages(addr, len) - 1 ==> regions(addr, len)[i].va_end() == addr + len,
{
}

/// Storing one more region's worth of `src` in the page of that region
/// gives what storing the longer part of `src` gives: the bytes of that
/// part have their place in this page alone.
pub proof fn lemma_write_region(
    m: Map<usize, PageView>,
    dest: int,
    src: Seq<u8>,
    offset: int,
    region: ByteRegion,
)
    requires
        forall|vpn: usize| #[trigger] m.contains_key(vpn) ==> m[vpn].data.len() == PAGE_SIZE,
        m.contains_key(region.vpn),
        region.start <= region.end <= PAGE_SIZE,
        0 <= offset,
        offset + region.len() <= src.len(),
        region.va_start() == dest + offset,
    ensures
        write_bytes(m, dest, src.subrange(0, offset)).insert(
            region.vpn,
            PageView {
                flags: write_bytes(m, dest, src.subrange(0, offset))[region.vpn].flags,
                data: splice(
                    write_bytes(m, dest, src.subrange(0, offset))[region.vpn].data,
                    region.start as int,
                    src.subrange(offset, offset + region.len()),
                ),
            },
        ) == write_bytes(m, dest, src.subrange(0, offset + region.len())),
{
    let shorter = write_bytes(m, dest, src.subrange(0, offset));
    let longer = write_bytes(m, dest, src.subrange(0, offset + region.len()));
    let page = PageView {
        flags: shorter[region.vpn].flags,
        data: splice(
            shorter[region.vpn].data,
            region.start as int,
            src.subrange(offset, offset + region.len()),
        ),
    };
    assert forall|vpn: usize| #[trigger] longer.contains_key(vpn) implies shorter.insert(
        region.vpn,
        page,
    )[vpn] == longer[vpn] by {
        if vpn == region.vpn {
            assert(page.data =~= longer[vpn].data);
        } else {
            assert(shorter[vpn].data =~= longer[vpn].data);
        }
    }
    assert(shorter.insert(region.vpn, page) =~= longer);
}

/// Unmapping the pages `lo..hi`, all of them mapped, leaves as many pages
/// fewer as there are in `lo..hi`.
pub proof fn lemma_unmap_pages_len(m: Map<usize, PageView>, lo: int, hi: int)
    requires
        m.dom().finite(),
        0 <= lo <= hi <= usize::MAX + 1,
        pages_mapped(m, lo, hi),
    ensures
        unmap_pages(m, lo, hi).dom().finite(),
        unmap_pages(m, lo, hi).len() == m.len() - (hi - lo),
    decreases hi - lo,
{
    if lo == hi {
        assert(unmap_pages(m, lo, hi) =~= m);
    } else {
        lemma_unmap_pages_len(m, lo, hi - 1);
        let last = (hi - 1) as usize;
        assert(m.contains_key(last));
        assert(unmap_pages(m, lo, hi) =~= unmap_pages(m, lo, hi - 1).remove(last));
    }
}

/// What was stored is what a read finds: after `src` was stored at `dest`
/// in mapped pages, the bytes at `dest` are those of `src`, in order.
pub proof fn lemma_read_after_write(m: Map<usize, PageView>, dest: usize, src: Seq<u8>)
    requires
        forall|vpn: usize| #[trigger] m.contains_key(vpn) ==> m[vpn].data.len() == PAGE_SIZE,
        dest + src.len() <= usize::MAX,
        src.len() > 0 ==> range_mapped(m, dest as int, src.len() as int),
    ensures
        read_bytes(write_bytes(m, dest as int, src), dest as int, src.len()) == src,
{
    let after = write_bytes(m, dest as int, src);
    assert forall|i: int| 0 <= i < src.len() implies #[trigger] byte_at(after, dest + i)
        == src[i] by {
        let vpn = page_floor(dest + i) as usize;
        assert(in_range(vpn, dest as int, src.len() as int));
        assert(m.contains_key(vpn));
    }
    assert(read_bytes(after, dest as int, src.len()) =~= src);
}

/// A value stored across one page boundary lies in two frames: where
/// `src` is stored at `dest` and its byte `k` is the first of the next
/// page, the bytes before `k` fill the end of the frame of the one page,
/// the bytes from `k` on fill the start of the frame of the next, and the
/// two parts put together are `src`.
pub proof fn lemma_write_across_boundary(m: Map<usize, PageView>, dest: usize, src: Seq<u8>, k: int)
    requires
        forall|vpn: usize| #[trigger] m.contains_key(vpn) ==> m[vpn].data.len() == PAGE_SIZE,
        dest + src.len() <= usize::MAX,
        0 < k < src.len(),
        (dest + k) % (PAGE_SIZE as int) == 0,
        k <= PAGE_SIZE,
        src.len() - k <= PAGE_SIZE,
        range_mapped(m, dest as int, src.len() as int),
    ensures
        ({
            let after = write_bytes(m, dest as int, src);
            let second = page_floor(dest + k) as usize;
            let first = (second - 1) as usize;
            let head = after[first].data.subrange(PAGE_SIZE - k, PAGE_SIZE as int);
            let tail = after[second].data.subrange(0, src.len() - k);
            &&& first == page_floor(dest as int)
            &&& after.contains_key(first)
            &&& after.contains_key(second)
            &&& head == src.subrange(0, k)
            &&& tail == src.subrange(k, src.len() as int)
            &&& head + tail == src
        }),
{
    let after = write_bytes(m, dest as int, src);
    let second = page_floor(dest + k) as usize;
    let first = (second - 1) as usize;
    assert(in_range(first, dest as int, src.len() as int));
    assert(in_range(second, dest as int, src.len() as int));
    assert(m.contains_key(first));
    assert(m.contains_key(second));
    let head = after[first].data.subrange(PAGE_SIZE - k, PAGE_SIZE as int);
    let tail = after[second].data.subrange(0, src.len() - k);
    assert(head =~= src.subrange(0, k));
    assert(tail =~= src.subrange(k, src.len() as int));
    assert(head + tail =~= src);
}

} // verus!
