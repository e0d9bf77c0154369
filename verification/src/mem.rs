//! Model of a task's virtual address space: a list of user regions backed by
//! frames plus one contiguous heap region. Page-table internals and program
//! loading are external collaborators; a loaded image reaches this core as the
//! plain values the loader produced (entry point, initial stack pointer, and
//! the page ranges of its segments).

use vstd::prelude::*;

verus! {

/// Bytes per virtual page.
pub const PAGE_SIZE: usize = 4096;

/// Index of the page that contains address `a`.
pub open spec fn page_floor_spec(a: int) -> int {
    a / (PAGE_SIZE as int)
}

/// Index of the first page at or above address `a`.
pub open spec fn page_ceil_spec(a: int) -> int {
    (a + PAGE_SIZE - 1) / (PAGE_SIZE as int)
}

/// Page index of the page containing `addr`.
pub fn page_floor(addr: usize) -> (r: usize)
    ensures
        r == page_floor_spec(addr as int),
{
    addr / PAGE_SIZE
}

/// First page index at or above `addr`.
pub fn page_ceil(addr: usize) -> (r: usize)
    ensures
        r == page_ceil_spec(addr as int),
{
    let d = addr / PAGE_SIZE;
    let m = addr % PAGE_SIZE;
    if m == 0 {
        assert((addr + PAGE_SIZE - 1) / (PAGE_SIZE as int) == addr as int / (PAGE_SIZE as int))
            by (nonlinear_arith)
            requires
                addr % PAGE_SIZE == 0,
                PAGE_SIZE == 4096,
        ;
        d
    } else {
        assert((addr + PAGE_SIZE - 1) / (PAGE_SIZE as int) == addr as int / (PAGE_SIZE as int) + 1
            && addr as int / (PAGE_SIZE as int) + 1 <= usize::MAX) by (nonlinear_arith)
            requires
                addr % PAGE_SIZE != 0,
                addr <= usize::MAX,
                PAGE_SIZE == 4096,
        ;
        d + 1
    }
}

/// Rounding an address up never lands below rounding a lower address down,
/// and rounding up is monotone.
pub proof fn lemma_page_bounds(a: int, b: int)
    requires
        0 <= a <= b,
    ensures
        page_floor_spec(a) <= page_ceil_spec(a),
        page_ceil_spec(a) <= page_ceil_spec(b),
        page_floor_spec(a) <= page_floor_spec(b),
{
    assert(a / 4096 <= (a + 4095) / 4096 && (a + 4095) / 4096 <= (b + 4095) / 4096 && a / 4096 <= b
        / 4096) by (nonlinear_arith)
        requires
            0 <= a <= b,
    ;
}

/// Whether `addr` is page-aligned.
pub fn is_page_aligned(addr: usize) -> (r: bool)
    ensures
        r == (addr as int % (PAGE_SIZE as int) == 0),
{
    addr % PAGE_SIZE == 0
}

/// One user-accessible region: the pages `[start_vpn, end_vpn)`, all carrying
/// the same low-three-bit permission word (readable/writable/executable).
#[derive(Debug, Clone, Copy)]
pub struct MapArea {
    pub start_vpn: usize,
    pub end_vpn: usize,
    pub port: usize,
}

impl MapArea {
    /// The region contains page `vpn`.
    pub open spec fn covers(self, vpn: int) -> bool {
        self.start_vpn <= vpn < self.end_vpn
    }

    /// Nonempty, with a nonzero permission word inside the low three bits.
    pub open spec fn wf(self) -> bool {
        &&& self.start_vpn < self.end_vpn
        &&& 1 <= self.port <= 7
    }
}

/// Some region of the list contains page `vpn`.
pub open spec fn seq_framed_at(areas: Seq<MapArea>, vpn: int) -> bool {
    exists|i: int| 0 <= i < areas.len() && #[trigger] areas[i].covers(vpn)
}

/// Some region of the list contains page `vpn` with permission word `port`.
pub open spec fn seq_framed_with(areas: Seq<MapArea>, vpn: int, port: usize) -> bool {
    exists|i: int| 0 <= i < areas.len() && #[trigger] areas[i].covers(vpn) && areas[i].port == port
}

/// Every region of the list is well formed.
pub open spec fn areas_wf(areas: Seq<MapArea>) -> bool {
    forall|i: int| 0 <= i < areas.len() ==> (#[trigger] areas[i]).wf()
}

/// What the external loader hands this core about a loaded program: its entry
/// point, its initial user stack pointer (which is also the initial heap
/// bottom and program break), and the page ranges its segments occupy.
pub struct ProgramImage {
    pub entry_point: usize,
    pub user_sp: usize,
    pub segments: Vec<MapArea>,
}

impl ProgramImage {
    /// Segments are well formed and lie below the page that contains the
    /// initial stack top, so the heap can grow from there.
    pub open spec fn wf(self) -> bool {
        &&& areas_wf(self.segments@)
        &&& forall|i: int|
            0 <= i < self.segments@.len() ==> (#[trigger] self.segments@[i]).end_vpn
                <= page_floor_spec(self.user_sp as int)
    }
}

/// A task's address space: the page-table token, the user regions created by
/// `mmap` or inherited from the program image, and the heap `[heap_start,
/// heap_end)` in bytes, grown and shrunk by program-break adjustment.
pub struct MemorySet {
    pub token: usize,
    pub areas: Vec<MapArea>,
    pub heap_start: usize,
    pub heap_end: usize,
}

impl MemorySet {
    /// First heap page.
    pub open spec fn heap_lo(self) -> int {
        page_floor_spec(self.heap_start as int)
    }

    /// One past the last heap page; the heap occupies no page while it is
    /// empty.
    pub open spec fn heap_hi(self) -> int {
        if self.heap_end > self.heap_start {
            page_ceil_spec(self.heap_end as int)
        } else {
            self.heap_lo()
        }
    }

    /// The heap's one-past-last page if the break were `new_end`.
    pub open spec fn heap_hi_if(self, new_end: usize) -> int {
        if new_end > self.heap_start {
            page_ceil_spec(new_end as int)
        } else {
            self.heap_lo()
        }
    }

    /// Page `vpn` belongs to the heap.
    pub open spec fn heap_at(self, vpn: int) -> bool {
        self.heap_lo() <= vpn < self.heap_hi()
    }

    /// Page `vpn` belongs to a framed user region.
    pub open spec fn framed_at(self, vpn: int) -> bool {
        seq_framed_at(self.areas@, vpn)
    }

    /// Page `vpn` belongs to a framed user region with permission word `port`.
    pub open spec fn framed_with(self, vpn: int, port: usize) -> bool {
        seq_framed_with(self.areas@, vpn, port)
    }

    /// Page `vpn` has a valid translation.
    pub open spec fn mapped(self, vpn: int) -> bool {
        self.framed_at(vpn) || self.heap_at(vpn)
    }

    /// The heap does not run backwards, regions are well formed, and no
    /// region overlaps the heap.
    pub open spec fn wf(self) -> bool {
        &&& self.heap_start <= self.heap_end
        &&& areas_wf(self.areas@)
        &&& forall|vpn: int| #[trigger] self.framed_at(vpn) ==> !self.heap_at(vpn)
    }

    /// A fresh address space for a loaded program image: its segments, and an
    /// empty heap at the initial stack pointer. `token` is the page-table
    /// token the external page-table setup assigned.
    pub fn from_image(image: &ProgramImage, token: usize) -> (r: MemorySet)
        requires
            image.wf(),
        ensures
            r.wf(),
            r.token == token,
            r.areas@ == image.segments@,
            r.heap_start == image.user_sp,
            r.heap_end == image.user_sp,
    {
        let mut areas: Vec<MapArea> = Vec::new();
        let mut i: usize = 0;
        while i < image.segments.len()
            invariant
                0 <= i <= image.segments.len(),
                areas@ == image.segments@.take(i as int),
            decreases image.segments.len() - i,
        {
            areas.push(image.segments[i]);
            assert(image.segments@.take(i + 1) == image.segments@.take(i as int).push(
                image.segments@[i as int],
            ));
            i = i + 1;
        }
        assert(image.segments@.take(image.segments@.len() as int) == image.segments@);
        MemorySet { token, areas, heap_start: image.user_sp, heap_end: image.user_sp }
    }

    /// A duplicate of an existing user address space (copy-on-fork is a full
    /// copy): the same regions and heap bounds under a new page-table token.
    pub fn from_existed_user(src: &MemorySet, token: usize) -> (r: MemorySet)
        requires
            src.wf(),
        ensures
            r.wf(),
            r.token == token,
            r.areas@ == src.areas@,
            r.heap_start == src.heap_start,
            r.heap_end == src.heap_end,
            forall|vpn: int| r.mapped(vpn) == src.mapped(vpn),
    {
        let mut areas: Vec<MapArea> = Vec::new();
        let mut i: usize = 0;
        while i < src.areas.len()
            invariant
                0 <= i <= src.areas.len(),
                areas@ == src.areas@.take(i as int),
            decreases src.areas.len() - i,
        {
            areas.push(src.areas[i]);
            assert(src.areas@.take(i + 1) == src.areas@.take(i as int).push(src.areas@[i as int]));
            i = i + 1;
        }
        assert(src.areas@.take(src.areas@.len() as int) == src.areas@);
        let r = MemorySet { token, areas, heap_start: src.heap_start, heap_end: src.heap_end };
        proof {
            assert forall|vpn: int| #[trigger] r.framed_at(vpn) implies !r.heap_at(vpn) by {
                assert(src.framed_at(vpn));
            }
            assert forall|vpn: int| r.mapped(vpn) == src.mapped(vpn) by {
                assert(r.framed_at(vpn) == src.framed_at(vpn));
            }
        }
        r
    }

    /// The page-table token of this address space.
    pub fn get_token(&self) -> (r: usize)
        ensures
            r == self.token,
    {
        self.token
    }

    /// Whether page `vpn` lies in a framed user region.
    pub fn is_framed(&self, vpn: usize) -> (r: bool)
        ensures
            r == self.framed_at(vpn as int),
    {
        let mut i: usize = 0;
        while i < self.areas.len()
            invariant
                0 <= i <= self.areas.len(),
                forall|j: int| 0 <= j < i ==> !(#[trigger] self.areas@[j].covers(vpn as int)),
            decreases self.areas.len() - i,
        {
            let a = self.areas[i];
            if a.start_vpn <= vpn && vpn < a.end_vpn {
                assert(self.areas@[i as int].covers(vpn as int));
                return true;
            }
            i = i + 1;
        }
        false
    }

    /// Whether page `vpn` lies in the heap.
    pub fn is_heap_page(&self, vpn: usize) -> (r: bool)
        ensures
            r == self.heap_at(vpn as int),
    {
        if self.heap_end > self.heap_start {
            page_floor(self.heap_start) <= vpn && vpn < page_ceil(self.heap_end)
        } else {
            false
        }
    }

    /// Valid translation lookup: the permission word of a region holding
    /// `vpn`, the fixed readable-and-writable word for a heap page, or `None`
    /// where the page is unmapped.
    pub fn translate(&self, vpn: usize) -> (r: Option<usize>)
        ensures
            r.is_some() == self.mapped(vpn as int),
            match r {
                Some(p) => self.heap_at(vpn as int) && p == 3 || self.framed_with(vpn as int, p),
                None => true,
            },
    {
        if self.is_heap_page(vpn) {
            return Some(3);
        }
        let mut i: usize = 0;
        while i < self.areas.len()
            invariant
                0 <= i <= self.areas.len(),
                forall|j: int| 0 <= j < i ==> !(#[trigger] self.areas@[j].covers(vpn as int)),
            decreases self.areas.len() - i,
        {
            let a = self.areas[i];
            if a.start_vpn <= vpn && vpn < a.end_vpn {
                assert(self.areas@[i as int].covers(vpn as int) && self.areas@[i as int].port
                    == a.port);
                return Some(a.port);
            }
            i = i + 1;
        }
        None
    }

    /// Insert a framed user region over pages `[start_vpn, end_vpn)` with
    /// permission word `port`. The caller has checked that the range conflicts
    /// with nothing.
    pub fn insert_framed_area(&mut self, start_vpn: usize, end_vpn: usize, port: usize)
        requires
            old(self).wf(),
            start_vpn < end_vpn,
            1 <= port <= 7,
            forall|vpn: int| start_vpn <= vpn < end_vpn ==> !old(self).mapped(vpn),
        ensures
            final(self).wf(),
            final(self).token == old(self).token,
            final(self).heap_start == old(self).heap_start,
            final(self).heap_end == old(self).heap_end,
            forall|vpn: int|
                final(self).mapped(vpn) == (old(self).mapped(vpn) || start_vpn <= vpn < end_vpn),
            forall|vpn: int| start_vpn <= vpn < end_vpn ==> final(self).framed_with(vpn, port),
            forall|vpn: int, p: usize|
                !(start_vpn <= vpn < end_vpn) ==> final(self).framed_with(vpn, p) == old(
                    self,
                ).framed_with(vpn, p),
    {
        let area = MapArea { start_vpn, end_vpn, port };
        self.areas.push(area);
        proof {
            let n = old(self).areas@.len() as int;
            assert forall|vpn: int| start_vpn <= vpn < end_vpn implies self.framed_with(
                vpn,
                port,
            ) by {
                assert(self.areas@[n].covers(vpn) && self.areas@[n].port == port);
            }
            assert forall|vpn: int| start_vpn <= vpn < end_vpn implies self.framed_at(vpn) by {
                assert(self.areas@[n].covers(vpn));
            }
            assert forall|vpn: int, p: usize|
                !(start_vpn <= vpn < end_vpn) && self.framed_with(vpn, p) implies old(
                self,
            ).framed_with(vpn, p) by {
                let i = choose|i: int|
                    0 <= i < self.areas@.len() && #[trigger] self.areas@[i].covers(vpn)
                        && self.areas@[i].port == p;
                assert(i < n && old(self).areas@[i].covers(vpn));
            }
            assert forall|vpn: int, p: usize|
                !(start_vpn <= vpn < end_vpn) && old(self).framed_with(vpn, p) implies self.framed_with(
                vpn,
                p,
            ) by {
                let i = choose|i: int|
                    0 <= i < old(self).areas@.len() && #[trigger] old(self).areas@[i].covers(vpn)
                        && old(self).areas@[i].port == p;
                assert(self.areas@[i].covers(vpn) && self.areas@[i].port == p);
            }
            assert forall|vpn: int| self.framed_at(vpn) implies (old(self).framed_at(vpn)
                || start_vpn <= vpn < end_vpn) by {
                let i = choose|i: int|
                    0 <= i < self.areas@.len() && #[trigger] self.areas@[i].covers(vpn);
                if i < n {
                    assert(old(self).areas@[i].covers(vpn));
                }
            }
            assert forall|vpn: int| old(self).framed_at(vpn) implies self.framed_at(vpn) by {
                let i = choose|i: int|
                    0 <= i < old(self).areas@.len() && #[trigger] old(self).areas@[i].covers(vpn);
                assert(self.areas@[i].covers(vpn));
            }
            assert forall|vpn: int| #[trigger] self.framed_at(vpn) implies !self.heap_at(vpn) by {
                if start_vpn <= vpn < end_vpn {
                    assert(!old(self).mapped(vpn));
                } else {
                    assert(old(self).framed_at(vpn));
                }
            }
            assert forall|vpn: int|
                self.mapped(vpn) == (old(self).mapped(vpn) || start_vpn <= vpn < end_vpn) by {
                assert(self.heap_at(vpn) == old(self).heap_at(vpn));
                if start_vpn <= vpn < end_vpn {
                    assert(self.framed_at(vpn));
                }
            }
        }
    }

    /// Remove every framed page in `[start_vpn, end_vpn)`, splitting regions
    /// that straddle the range. The heap and the token are untouched.
    pub fn remove_framed_range(&mut self, start_vpn: usize, end_vpn: usize)
        requires
            old(self).wf(),
            start_vpn <= end_vpn,
        ensures
            final(self).wf(),
            final(self).token == old(self).token,
            final(self).heap_start == old(self).heap_start,
            final(self).heap_end == old(self).heap_end,
            forall|vpn: int, p: usize|
                final(self).framed_with(vpn, p) == (old(self).framed_with(vpn, p) && !(start_vpn
                    <= vpn < end_vpn)),
            forall|vpn: int|
                final(self).framed_at(vpn) == (old(self).framed_at(vpn) && !(start_vpn <= vpn
                    < end_vpn)),
    {
        let ghost olds = self.areas@;
        let mut kept: Vec<MapArea> = Vec::new();
        let mut i: usize = 0;
        while i < self.areas.len()
            invariant
                0 <= i <= self.areas.len(),
                self.areas@ == olds,
                areas_wf(olds),
                areas_wf(kept@),
                forall|vpn: int, p: usize|
                    seq_framed_with(kept@, vpn, p) == (seq_framed_with(olds.take(i as int), vpn, p)
                        && !(start_vpn <= vpn < end_vpn)),
            decreases self.areas.len() - i,
        {
            let a = self.areas[i];
            assert(olds.take(i + 1) == olds.take(i as int).push(a));
            let ghost kept_pre = kept@;
            if a.end_vpn <= start_vpn || end_vpn <= a.start_vpn {
                kept.push(a);
                proof {
                    lemma_cover_push_outside(
                        kept_pre,
                        a,
                        olds.take(i as int),
                        start_vpn as int,
                        end_vpn as int,
                    );
                }
            } else {
                if a.start_vpn < start_vpn {
                    let left = MapArea { start_vpn: a.start_vpn, end_vpn: start_vpn, port: a.port };
                    kept.push(left);
                }
                if a.end_vpn > end_vpn {
                    let right = MapArea { start_vpn: end_vpn, end_vpn: a.end_vpn, port: a.port };
                    kept.push(right);
                }
                proof {
                    assert forall|vpn: int, p: usize| #[trigger] seq_framed_with(kept@, vpn, p)
                        implies (seq_framed_with(olds.take(i + 1), vpn, p) && !(start_vpn <= vpn
                        < end_vpn)) by {
                        let q = choose|q: int|
                            0 <= q < kept@.len() && (#[trigger] kept@[q]).covers(vpn)
                                && kept@[q].port == p;
                        if q < kept_pre.len() {
                            assert(seq_framed_with(kept_pre, vpn, p));
                            assert(seq_framed_with(olds.take(i as int), vpn, p));
                            let m = choose|m: int|
                                0 <= m < olds.take(i as int).len() && (#[trigger] olds.take(
                                    i as int,
                                )[m]).covers(vpn) && olds.take(i as int)[m].port == p;
                            assert(olds.take(i + 1)[m].covers(vpn) && olds.take(i + 1)[m].port
                                == p);
                        } else {
                            assert(kept@[q].port == a.port && (kept@[q].covers(vpn) ==> a.covers(
                                vpn,
                            ) && !(start_vpn <= vpn < end_vpn)));
                            assert(olds.take(i + 1)[i as int].covers(vpn) && olds.take(
                                i + 1,
                            )[i as int].port == p);
                        }
                    }
                    assert forall|vpn: int, p: usize|
                        seq_framed_with(olds.take(i + 1), vpn, p) && !(start_vpn <= vpn < end_vpn)
                            implies #[trigger] seq_framed_with(kept@, vpn, p) by {
                        let m = choose|m: int|
                            0 <= m < olds.take(i + 1).len() && (#[trigger] olds.take(i + 1)[m]).covers(
                                vpn,
                            ) && olds.take(i + 1)[m].port == p;
                        if m < i {
                            assert(olds.take(i as int)[m].covers(vpn) && olds.take(i as int)[m].port
                                == p);
                            assert(seq_framed_with(olds.take(i as int), vpn, p));
                            assert(seq_framed_with(kept_pre, vpn, p));
                            let q = choose|q: int|
                                0 <= q < kept_pre.len() && (#[trigger] kept_pre[q]).covers(vpn)
                                    && kept_pre[q].port == p;
                            assert(kept@[q].covers(vpn) && kept@[q].port == p);
                        } else {
                            assert(a.covers(vpn) && a.port == p);
                            if vpn < start_vpn {
                                assert(a.start_vpn < start_vpn);
                                let q = kept_pre.len() as int;
                                assert(kept@[q].covers(vpn) && kept@[q].port == p);
                            } else {
                                assert(vpn >= end_vpn && a.end_vpn > end_vpn);
                                let q = kept@.len() - 1;
                                assert(kept@[q].covers(vpn) && kept@[q].port == p);
                            }
                        }
                    }
                }
            }
            i = i + 1;
        }
        proof {
            assert(olds.take(olds.len() as int) == olds);
        }
        self.areas = kept;
        proof {
            assert forall|vpn: int| self.framed_at(vpn) implies (old(self).framed_at(vpn) && !(
            start_vpn <= vpn < end_vpn)) by {
                let q = choose|q: int|
                    0 <= q < self.areas@.len() && #[trigger] self.areas@[q].covers(vpn);
                assert(seq_framed_with(self.areas@, vpn, self.areas@[q].port));
                assert(seq_framed_with(olds, vpn, self.areas@[q].port));
            }
            assert forall|vpn: int|
                old(self).framed_at(vpn) && !(start_vpn <= vpn < end_vpn) implies self.framed_at(
                vpn,
            ) by {
                let q = choose|q: int| 0 <= q < olds.len() && #[trigger] olds[q].covers(vpn);
                assert(seq_framed_with(olds, vpn, olds[q].port));
                assert(seq_framed_with(self.areas@, vpn, olds[q].port));
                let m = choose|m: int|
                    0 <= m < self.areas@.len() && #[trigger] self.areas@[m].covers(vpn)
                        && self.areas@[m].port == olds[q].port;
            }
            assert forall|vpn: int| #[trigger] self.framed_at(vpn) implies !self.heap_at(vpn) by {
                assert(old(self).framed_at(vpn));
            }
        }
    }

    /// Grow the heap so the program break becomes `new_end`. Fails, changing
    /// nothing, if a page the grown heap would newly occupy already lies in a
    /// framed region (a fragmentation conflict).
    pub fn append_to(&mut self, new_end: usize) -> (r: bool)
        requires
            old(self).wf(),
            old(self).heap_end <= new_end,
        ensures
            final(self).token == old(self).token,
            final(self).areas@ == old(self).areas@,
            final(self).heap_start == old(self).heap_start,
            r == (forall|vpn: int|
                old(self).heap_hi() <= vpn < old(self).heap_hi_if(new_end) ==> !old(
                    self,
                ).framed_at(vpn)),
            r ==> final(self).wf() && final(self).heap_end == new_end,
            !r ==> *final(self) == *old(self),
    {
        let lo: usize = if self.heap_end > self.heap_start {
            page_ceil(self.heap_end)
        } else {
            page_floor(self.heap_start)
        };
        let hi: usize = if new_end > self.heap_start {
            page_ceil(new_end)
        } else {
            page_floor(self.heap_start)
        };
        proof {
            assert(lo == old(self).heap_hi());
            if new_end > self.heap_start {
                lemma_page_bounds(self.heap_start as int, new_end as int);
                if self.heap_end > self.heap_start {
                    lemma_page_bounds(self.heap_end as int, new_end as int);
                }
            }
            assert(hi == old(self).heap_hi_if(new_end));
            assert(lo <= hi);
        }
        let mut vpn: usize = lo;
        while vpn < hi
            invariant
                lo <= vpn <= hi,
                lo == old(self).heap_hi(),
                hi == old(self).heap_hi_if(new_end),
                forall|v: int| lo <= v < vpn ==> !(#[trigger] old(self).framed_at(v)),
                *self == *old(self),
            decreases hi - vpn,
        {
            if self.is_framed(vpn) {
                proof {
                    assert(old(self).framed_at(vpn as int));
                    assert(old(self).heap_hi() <= vpn < old(self).heap_hi_if(new_end));
                }
                return false;
            }
            vpn = vpn + 1;
        }
        self.heap_end = new_end;
        proof {
            assert(self.areas@ == old(self).areas@);
            assert(self.heap_hi() == old(self).heap_hi_if(new_end));
            assert forall|v: int| #[trigger] self.framed_at(v) implies !self.heap_at(v) by {
                assert(old(self).framed_at(v));
                if self.heap_at(v) {
                    if v < old(self).heap_hi() {
                        assert(old(self).heap_at(v)) by {
                            if old(self).heap_end > old(self).heap_start {
                                lemma_page_bounds(
                                    old(self).heap_start as int,
                                    old(self).heap_end as int,
                                );
                            }
                        }
                        assert(!old(self).framed_at(v));
                    } else {
                        assert(old(self).heap_hi() <= v < old(self).heap_hi_if(new_end));
                        assert(!old(self).framed_at(v));
                    }
                }
            }
        }
        true
    }

    /// Shrink the heap so the program break becomes `new_end`. Never fails:
    /// the pages the heap gives up simply lose their translation.
    pub fn shrink_to(&mut self, new_end: usize) -> (r: bool)
        requires
            old(self).wf(),
            old(self).heap_start <= new_end <= old(self).heap_end,
        ensures
            r,
            final(self).wf(),
            final(self).token == old(self).token,
            final(self).areas@ == old(self).areas@,
            final(self).heap_start == old(self).heap_start,
            final(self).heap_end == new_end,
    {
        let ghost oe: usize = self.heap_end;
        let ghost hs: usize = self.heap_start;
        self.heap_end = new_end;
        proof {
            assert forall|v: int| #[trigger] self.framed_at(v) implies !self.heap_at(v) by {
                assert(old(self).framed_at(v));
                assert(self.heap_hi() <= old(self).heap_hi()) by {
                    if new_end > hs {
                        lemma_page_bounds(new_end as int, oe as int);
                        lemma_page_bounds(hs as int, new_end as int);
                    }
                }
            }
        }
        true
    }
}

/// Pushing a region that lies entirely outside the removed range preserves the
/// coverage bookkeeping of the rebuild loop.
proof fn lemma_cover_push_outside(
    kept: Seq<MapArea>,
    a: MapArea,
    taken: Seq<MapArea>,
    rs: int,
    re: int,
)
    requires
        a.end_vpn <= rs || re <= a.start_vpn,
        forall|vpn: int, p: usize|
            seq_framed_with(kept, vpn, p) == (seq_framed_with(taken, vpn, p) && !(rs <= vpn < re)),
    ensures
        forall|vpn: int, p: usize|
            seq_framed_with(kept.push(a), vpn, p) == (seq_framed_with(taken.push(a), vpn, p) && !(
            rs <= vpn < re)),
{
    assert forall|vpn: int, p: usize| #[trigger] seq_framed_with(kept.push(a), vpn, p) implies (
    seq_framed_with(taken.push(a), vpn, p) && !(rs <= vpn < re)) by {
        let q = choose|q: int|
            0 <= q < kept.push(a).len() && (#[trigger] kept.push(a)[q]).covers(vpn) && kept.push(
                a,
            )[q].port == p;
        if q < kept.len() {
            assert(kept[q].covers(vpn) && kept[q].port == p);
            assert(seq_framed_with(kept, vpn, p));
            let m = choose|m: int|
                0 <= m < taken.len() && (#[trigger] taken[m]).covers(vpn) && taken[m].port == p;
            assert(taken.push(a)[m].covers(vpn) && taken.push(a)[m].port == p);
        } else {
            assert(kept.push(a)[q] == a);
            assert(taken.push(a)[taken.len() as int].covers(vpn) && taken.push(a)[taken.len() as int].port
                == p);
        }
    }
    assert forall|vpn: int, p: usize|
        seq_framed_with(taken.push(a), vpn, p) && !(rs <= vpn < re)
            implies #[trigger] seq_framed_with(kept.push(a), vpn, p) by {
        let m = choose|m: int|
            0 <= m < taken.push(a).len() && (#[trigger] taken.push(a)[m]).covers(vpn) && taken.push(
                a,
            )[m].port == p;
        if m < taken.len() {
            assert(taken[m].covers(vpn) && taken[m].port == p);
            assert(seq_framed_with(taken, vpn, p));
            assert(seq_framed_with(kept, vpn, p));
            let q = choose|q: int|
                0 <= q < kept.len() && (#[trigger] kept[q]).covers(vpn) && kept[q].port == p;
            assert(kept.push(a)[q].covers(vpn) && kept.push(a)[q].port == p);
        } else {
            assert(taken.push(a)[m] == a);
            assert(kept.push(a)[kept.len() as int].covers(vpn) && kept.push(a)[kept.len() as int].port
                == p);
        }
    }
}

} // verus!
