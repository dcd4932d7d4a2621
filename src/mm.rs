//! A task's address space, seen as the set of mapped virtual-page areas.
//!
//! Frames and page-table entries belong to the page-table layer; this module
//! keeps the areas that layer was asked to map, validates `mmap` / `munmap`
//! requests against them, and records the effect of an accepted one.
use vstd::prelude::*;

verus! {

/// Bytes in one page.
pub const PAGE_SIZE: usize = 4096;

/// Readable.
pub const PERM_R: u8 = 2;

/// Writable.
pub const PERM_W: u8 = 4;

/// Executable.
pub const PERM_X: u8 = 8;

/// Reachable from user mode.
pub const PERM_U: u8 = 16;

/// The page holding address `va`.
pub open spec fn page_floor(va: int) -> int {
    va / (PAGE_SIZE as int)
}

/// The first page past every byte below `va`.
pub open spec fn page_ceil(va: int) -> int {
    if va % (PAGE_SIZE as int) == 0 {
        va / (PAGE_SIZE as int)
    } else {
        va / (PAGE_SIZE as int) + 1
    }
}

/// A permission request from user code: bit 0 read, bit 1 write, bit 2
/// execute; at least one of them, and nothing else.
pub open spec fn valid_port(port: int) -> bool {
    1 <= port <= 7
}

/// The permission bits of a user mapping made for request `port`.
pub open spec fn port_bits(port: int) -> int {
    port * 2 + PERM_U as int
}

/// A range `[start, start + len)` that `mmap` / `munmap` may work on:
/// starting on a page boundary, and not running past the address space. It
/// may be empty.
pub open spec fn range_valid(start: int, len: int) -> bool {
    &&& start % (PAGE_SIZE as int) == 0
    &&& start + len <= usize::MAX
}

/// Returns the page holding address `va`.
pub fn floor_page(va: usize) -> (r: usize)
    ensures
        r == page_floor(va as int),
{
    va / PAGE_SIZE
}

/// Returns the first page past every byte below `va`.
pub fn ceil_page(va: usize) -> (r: usize)
    ensures
        r == page_ceil(va as int),
{
    if va % PAGE_SIZE == 0 {
        va / PAGE_SIZE
    } else {
        va / PAGE_SIZE + 1
    }
}

/// Access rights of a mapped area, as page-table flag bits.
#[derive(Clone, Copy, Debug, PartialEq, Eq, Structural)]
pub struct MapPermission {
    pub bits: u8,
}

impl MapPermission {
    /// Turns a user permission request into the bits of a user mapping;
    /// `None` when the request is empty or holds an unknown bit.
    pub fn from_port(port: usize) -> (r: Option<MapPermission>)
        ensures
            r is Some <==> valid_port(port as int),
            r is Some ==> r->0.bits as int == port_bits(port as int),
    {
        if port == 0 || port > 7 {
            None
        } else {
            Some(MapPermission { bits: (port as u8) * 2 + PERM_U })
        }
    }
}

/// A run of consecutive virtual pages `[start_vpn, end_vpn)` mapped with
/// one permission.
#[derive(Clone, Copy, Debug, PartialEq, Eq, Structural)]
pub struct MapArea {
    pub start_vpn: usize,
    pub end_vpn: usize,
    pub perm: MapPermission,
}

impl MapArea {
    pub open spec fn contains(self, vpn: int) -> bool {
        self.start_vpn <= vpn < self.end_vpn
    }

    /// The two areas share no page.
    pub open spec fn disjoint(self, other: MapArea) -> bool {
        self.end_vpn <= other.start_vpn || other.end_vpn <= self.start_vpn
    }
}

/// The mapped areas of one task, plus the token that names its page table.
pub struct MemorySet {
    pub token: usize,
    pub areas: Vec<MapArea>,
}

impl MemorySet {
    /// Every area holds a page, and no two areas share one.
    pub open spec fn wf(self) -> bool {
        &&& forall|i: int|
            0 <= i < self.areas@.len() ==> #[trigger] self.areas@[i].start_vpn
                < self.areas@[i].end_vpn
        &&& forall|i: int, j: int|
            0 <= i < self.areas@.len() && 0 <= j < self.areas@.len() && i != j
                ==> #[trigger] self.areas@[i].disjoint(#[trigger] self.areas@[j])
    }

    pub open spec fn is_mapped(self, vpn: int) -> bool {
        exists|i: int| 0 <= i < self.areas@.len() && #[trigger] self.areas@[i].contains(vpn)
    }

    /// Some page of `[s, e)` is mapped.
    pub open spec fn any_mapped(self, s: int, e: int) -> bool {
        exists|v: int| s <= v < e && #[trigger] self.is_mapped(v)
    }

    /// Every page of `[s, e)` is mapped.
    pub open spec fn all_mapped(self, s: int, e: int) -> bool {
        forall|v: int| s <= v < e ==> #[trigger] self.is_mapped(v)
    }

    /// Some area begins at page `vpn`.
    pub open spec fn has_area_at(self, vpn: int) -> bool {
        exists|i: int| 0 <= i < self.areas@.len() && #[trigger] self.areas@[i].start_vpn == vpn
    }

    /// What `mmap(start, len, port)` accepts.
    pub open spec fn mmap_accepts(self, start: int, len: int, port: int) -> bool {
        &&& range_valid(start, len)
        &&& valid_port(port)
        &&& !self.any_mapped(page_floor(start), page_ceil(start + len))
    }

    /// The area that an accepted `mmap(start, len, port)` adds.
    pub open spec fn mmap_area(start: int, len: int, port: int) -> MapArea {
        MapArea {
            start_vpn: page_floor(start) as usize,
            end_vpn: page_ceil(start + len) as usize,
            perm: MapPermission { bits: port_bits(port) as u8 },
        }
    }

    /// `post` and `r` are what `mmap(start, len, port)` makes of `pre`: on
    /// acceptance 0 and one area more (none for an empty range, which maps
    /// no page), otherwise no change and -1.
    pub open spec fn mmap_post(
        pre: MemorySet,
        post: MemorySet,
        start: int,
        len: int,
        port: int,
        r: isize,
    ) -> bool {
        if pre.mmap_accepts(start, len, port) {
            &&& r == 0
            &&& post.token == pre.token
            &&& if len == 0 {
                post == pre
            } else {
                post.areas@ == pre.areas@.push(Self::mmap_area(start, len, port))
            }
        } else {
            r == -1 && post == pre
        }
    }

    /// What `munmap(start, len)` accepts: an aligned range whose pages are
    /// all mapped and, unless the range is empty, with an area beginning at
    /// its first page.
    pub open spec fn munmap_accepts(self, start: int, len: int) -> bool {
        &&& range_valid(start, len)
        &&& self.all_mapped(page_floor(start), page_ceil(start + len))
        &&& (len == 0 || self.has_area_at(page_floor(start)))
    }

    /// `post` and `r` are what `munmap(start, len)` makes of `pre`: on
    /// acceptance 0, and the area that begins at the first page is gone (an
    /// empty range with no such area changes nothing); otherwise no change
    /// and -1.
    pub open spec fn munmap_post(pre: MemorySet, post: MemorySet, start: int, len: int, r: isize) -> bool {
        if pre.munmap_accepts(start, len) {
            &&& r == 0
            &&& post.token == pre.token
            &&& if pre.has_area_at(page_floor(start)) {
                exists|i: int|
                    0 <= i < pre.areas@.len() && #[trigger] pre.areas@[i].start_vpn == page_floor(start)
                        && post.areas@ == pre.areas@.remove(i)
            } else {
                post == pre
            }
        } else {
            r == -1 && post == pre
        }
    }

    /// An address space with no mapping, under page table `token`.
    pub fn new_bare(token: usize) -> (r: MemorySet)
        ensures
            r.wf(),
            r.token == token,
            r.areas@.len() == 0,
            forall|v: int| !r.is_mapped(v),
    {
        MemorySet { token, areas: Vec::new() }
    }

    /// Returns the token of the page table.
    pub fn token(&self) -> (r: usize)
        ensures
            r == self.token,
    {
        self.token
    }

    /// Tells whether page `vpn` is mapped.
    pub fn vpn_ismap(&self, vpn: usize) -> (r: bool)
        ensures
            r == self.is_mapped(vpn as int),
    {
        let mut i: usize = 0;
        while i < self.areas.len()
            invariant
                i <= self.areas@.len(),
                forall|k: int| 0 <= k < i ==> !(#[trigger] self.areas@[k].contains(vpn as int)),
            decreases self.areas@.len() - i,
        {
            let a = self.areas[i];
            if a.start_vpn <= vpn && vpn < a.end_vpn {
                assert(self.areas@[i as int].contains(vpn as int));
                return true;
            }
            i = i + 1;
        }
        false
    }

    /// Tells whether some page of `[start, end)` is mapped.
    pub fn vpnrange_exist_mapped(&self, start: usize, end: usize) -> (r: bool)
        requires
            self.wf(),
        ensures
            r == self.any_mapped(start as int, end as int),
    {
        if start >= end {
            return false;
        }
        let mut i: usize = 0;
        while i < self.areas.len()
            invariant
                self.wf(),
                start < end,
                i <= self.areas@.len(),
                forall|k: int|
                    0 <= k < i ==> #[trigger] self.areas@[k].end_vpn <= start
                        || self.areas@[k].start_vpn >= end,
            decreases self.areas@.len() - i,
        {
            let a = self.areas[i];
            if a.start_vpn < end && start < a.end_vpn {
                let v: usize = if a.start_vpn < start {
                    start
                } else {
                    a.start_vpn
                };
                assert(self.areas@[i as int].contains(v as int));
                assert(self.is_mapped(v as int));
                return true;
            }
            i = i + 1;
        }
        assert forall|v: int| start <= v < end implies !#[trigger] self.is_mapped(v) by {
            if self.is_mapped(v) {
                let k = choose|k: int| 0 <= k < self.areas@.len() && #[trigger] self.areas@[k].contains(v);
                assert(self.areas@[k].end_vpn <= start || self.areas@[k].start_vpn >= end);
            }
        }
        false
    }

    /// Tells whether some page of `[start, end)` is not mapped.
    pub fn vpnrange_exist_unmapped(&self, start: usize, end: usize) -> (r: bool)
        ensures
            r == !self.all_mapped(start as int, end as int),
    {
        let mut v: usize = start;
        while v < end
            invariant
                start <= v,
                v <= end || start >= end,
                forall|w: int| start <= w < v ==> #[trigger] self.is_mapped(w),
            decreases end - v,
        {
            if !self.vpn_ismap(v) {
                return true;
            }
            v = v + 1;
        }
        false
    }

    /// Adds the area `[start_vpn, end_vpn)`, none of whose pages is mapped.
    pub fn insert_framed_area(&mut self, start_vpn: usize, end_vpn: usize, perm: MapPermission)
        requires
            old(self).wf(),
            start_vpn < end_vpn,
            !old(self).any_mapped(start_vpn as int, end_vpn as int),
        ensures
            final(self).wf(),
            final(self).token == old(self).token,
            final(self).areas@ == old(self).areas@.push(
                MapArea { start_vpn, end_vpn, perm },
            ),
    {
        let area = MapArea { start_vpn, end_vpn, perm };
        proof {
            assert forall|i: int| 0 <= i < self.areas@.len() implies #[trigger] self.areas@[i].disjoint(
                area,
            ) by {
                let a = self.areas@[i];
                if !a.disjoint(area) {
                    let v: int = if a.start_vpn < start_vpn {
                        start_vpn as int
                    } else {
                        a.start_vpn as int
                    };
                    assert(self.areas@[i].contains(v));
                    assert(self.is_mapped(v));
                }
            }
        }
        self.areas.push(area);
        proof {
            let n = self.areas@.len() - 1;
            assert forall|i: int, j: int|
                0 <= i < self.areas@.len() && 0 <= j < self.areas@.len() && i != j
                    implies #[trigger] self.areas@[i].disjoint(#[trigger] self.areas@[j]) by {
                if i == n {
                    assert(old(self).areas@[j].disjoint(area));
                } else if j == n {
                    assert(old(self).areas@[i].disjoint(area));
                } else {
                    assert(old(self).areas@[i].disjoint(old(self).areas@[j]));
                }
            }
        }
    }

    /// Removes the area that begins at page `start_vpn`; 0 when there was
    /// one, -1 (and no change) when there was none.
    pub fn remove_area_with_start_vpn(&mut self, start_vpn: usize) -> (r: isize)
        requires
            old(self).wf(),
        ensures
            final(self).wf(),
            r == 0 <==> old(self).has_area_at(start_vpn as int),
            r == 0 || r == -1,
            r == 0 ==> final(self).token == old(self).token && exists|i: int|
                0 <= i < old(self).areas@.len() && #[trigger] old(self).areas@[i].start_vpn
                    == start_vpn && final(self).areas@ == old(self).areas@.remove(i),
            r == -1 ==> *final(self) == *old(self),
    {
        let mut i: usize = 0;
        while i < self.areas.len()
            invariant
                *self == *old(self),
                old(self).wf(),
                i <= self.areas@.len(),
                forall|k: int| 0 <= k < i ==> #[trigger] self.areas@[k].start_vpn != start_vpn,
            decreases self.areas@.len() - i,
        {
            if self.areas[i].start_vpn == start_vpn {
                let ghost pre = self.areas@;
                self.areas.remove(i);
                proof {
                    assert(self.areas@ == pre.remove(i as int));
                    assert forall|a: int, b: int|
                        0 <= a < self.areas@.len() && 0 <= b < self.areas@.len() && a != b
                            implies #[trigger] self.areas@[a].disjoint(#[trigger] self.areas@[b]) by {
                        let a0 = if a < i { a } else { a + 1 };
                        let b0 = if b < i { b } else { b + 1 };
                        assert(pre[a0].disjoint(pre[b0]));
                    }
                    assert forall|a: int| 0 <= a < self.areas@.len() implies #[trigger] self.areas@[a].start_vpn
                        < self.areas@[a].end_vpn by {
                        let a0 = if a < i { a } else { a + 1 };
                        assert(pre[a0].start_vpn < pre[a0].end_vpn);
                    }
                }
                return 0;
            }
            i = i + 1;
        }
        -1
    }

    /// Drops every mapping, as when the owning task exits.
    pub fn recycle_data_pages(&mut self)
        ensures
            final(self).wf(),
            final(self).token == old(self).token,
            final(self).areas@.len() == 0,
    {
        self.areas.clear();
    }

    /// Maps `[start, start + len)` for user access with the rights in
    /// `port`; 0 on success (an empty range maps nothing), -1 (and no
    /// change) when the range is unaligned or past the address space, the
    /// rights are empty or hold an unknown bit, or a page of the range is
    /// already mapped.
    pub fn mmap(&mut self, start: usize, len: usize, port: usize) -> (r: isize)
        requires
            old(self).wf(),
        ensures
            final(self).wf(),
            Self::mmap_post(*old(self), *final(self), start as int, len as int, port as int, r),
    {
        if start % PAGE_SIZE != 0 || len > usize::MAX - start {
            return -1;
        }
        let perm = match MapPermission::from_port(port) {
            Some(p) => p,
            None => {
                return -1;
            },
        };
        let start_vpn = floor_page(start);
        let end_vpn = ceil_page(start + len);
        if self.vpnrange_exist_mapped(start_vpn, end_vpn) {
            return -1;
        }
        if len == 0 {
            return 0;
        }
        assert(start_vpn < end_vpn) by (nonlinear_arith)
            requires
                start_vpn == page_floor(start as int),
                end_vpn == page_ceil(start + len),
                start % 4096 == 0,
                len > 0,
                PAGE_SIZE == 4096,
        ;
        self.insert_framed_area(start_vpn, end_vpn, perm);
        0
    }

    /// Unmaps the area that begins at the page of `start`, provided every
    /// page of `[start, start + len)` is mapped (vacuously so for an empty
    /// range); 0 on success, -1 (and no change) when the range is unaligned
    /// or past the address space, a page of it is not mapped, or it is not
    /// empty and no area begins at its first page. An empty range with no
    /// area at its page succeeds and changes nothing.
    pub fn munmap(&mut self, start: usize, len: usize) -> (r: isize)
        requires
            old(self).wf(),
        ensures
            final(self).wf(),
            Self::munmap_post(*old(self), *final(self), start as int, len as int, r),
    {
        if start % PAGE_SIZE != 0 || len > usize::MAX - start {
            return -1;
        }
        let start_vpn = floor_page(start);
        let end_vpn = ceil_page(start + len);
        if self.vpnrange_exist_unmapped(start_vpn, end_vpn) {
            return -1;
        }
        let r = self.remove_area_with_start_vpn(start_vpn);
        if len == 0 {
            0
        } else {
            r
        }
    }
}

/// Sets up the kernel's own address space: page table `token`, and no user
/// mapping yet.
pub fn init(token: usize) -> (r: MemorySet)
    ensures
        r.wf(),
        r.token == token,
        forall|v: int| !r.is_mapped(v),
{
    MemorySet::new_bare(token)
}

} // verus!
