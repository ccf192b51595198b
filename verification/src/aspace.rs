//! User address spaces: a page-table root plus a set of page-aligned,
//! pairwise-disjoint mappings from virtual ranges to physical backing.

use vstd::prelude::*;

use crate::PAGE_SIZE;
use crate::error::KernelError;
use crate::lemma_aligned_add;
use crate::page_aligned;
use crate::phys::PhysMemory;

verus! {

/// Permission set of one mapping, as checked by the underlying hardware.
#[derive(Clone, Copy, Debug, PartialEq, Eq, Structural)]
pub struct MappingFlags {
    pub read: bool,
    pub write: bool,
    pub execute: bool,
    pub user: bool,
}

impl MappingFlags {
    /// Permissions of program code at load time: readable, writable (so the
    /// image can be copied in), executable and user-accessible.
    pub fn code() -> (f: MappingFlags)
        ensures
            f == (MappingFlags { read: true, write: true, execute: true, user: true }),
    {
        MappingFlags { read: true, write: true, execute: true, user: true }
    }

    /// Permissions of the user stack: readable, writable, user-accessible
    /// and never executable.
    pub fn stack() -> (f: MappingFlags)
        ensures
            f == (MappingFlags { read: true, write: true, execute: false, user: true }),
    {
        MappingFlags { read: true, write: true, execute: false, user: true }
    }
}

/// One mapping: the virtual range `[start, start + size)` is backed by the
/// physical range `[paddr, paddr + size)` with permissions `flags`.
#[derive(Clone, Copy, Debug, PartialEq, Eq, Structural)]
pub struct MapEntry {
    pub start: usize,
    pub size: usize,
    pub paddr: usize,
    pub flags: MappingFlags,
}

/// Shape every mapping keeps: page-aligned, non-empty, and free of address
/// wrap-around on both the virtual and the physical side.
pub open spec fn entry_wf(e: MapEntry) -> bool {
    &&& page_aligned(e.start as int)
    &&& page_aligned(e.size as int)
    &&& page_aligned(e.paddr as int)
    &&& e.size > 0
    &&& e.start + e.size <= usize::MAX
    &&& e.paddr + e.size <= usize::MAX
}

/// Holds when the half-open ranges `[s1, s1 + z1)` and `[s2, s2 + z2)` share
/// at least one address.
pub open spec fn ranges_overlap(s1: int, z1: int, s2: int, z2: int) -> bool {
    s1 < s2 + z2 && s2 < s1 + z1
}

/// Holds when the mapping `e` covers the virtual address `va`.
pub open spec fn covers(e: MapEntry, va: int) -> bool {
    e.start <= va < e.start + e.size
}

/// Holds when the physical backing of `e` lies within `[lo, hi)`.
pub open spec fn backed_within(e: MapEntry, lo: int, hi: int) -> bool {
    lo <= e.paddr && e.paddr + e.size <= hi
}

/// A user address space: the contiguous virtual region
/// `[base, base + size)`, the page-table root frame, and the mappings
/// installed so far. Mappings created through `map_region` lie inside the
/// region; imported kernel mappings may lie outside it, but all mappings are
/// pairwise disjoint.
pub struct AddrSpace {
    base: usize,
    size: usize,
    pt_root: usize,
    entries: Vec<MapEntry>,
}

impl AddrSpace {
    /// Lowest virtual address of the region.
    pub closed spec fn base(self) -> int {
        self.base as int
    }

    /// Size of the region in bytes.
    pub closed spec fn size(self) -> int {
        self.size as int
    }

    /// Physical address of the page-table root frame.
    pub closed spec fn root(self) -> int {
        self.pt_root as int
    }

    /// The mappings installed so far, in installation order.
    pub closed spec fn mappings(self) -> Seq<MapEntry> {
        self.entries@
    }

    /// One past the highest virtual address of the region.
    pub open spec fn end_spec(self) -> int {
        self.base() + self.size()
    }

    /// Structural invariant: base and size are page-aligned, the region is
    /// non-empty and free of wrap-around, every mapping is well formed and
    /// no two mappings overlap.
    pub open spec fn wf(self) -> bool {
        &&& 0 <= self.base()
        &&& page_aligned(self.base())
        &&& page_aligned(self.size())
        &&& self.size() > 0
        &&& self.base() + self.size() <= usize::MAX
        &&& forall|i: int| 0 <= i < self.mappings().len() ==> entry_wf(#[trigger] self.mappings()[i])
        &&& forall|i: int, j: int|
            0 <= i < self.mappings().len() && 0 <= j < self.mappings().len() && i != j
                ==> !ranges_overlap(
                (#[trigger] self.mappings()[i]).start as int,
                self.mappings()[i].size as int,
                (#[trigger] self.mappings()[j]).start as int,
                self.mappings()[j].size as int,
            )
    }

    /// Holds when `[start, start + size)` is a page-aligned, non-empty range
    /// lying inside the region.
    pub open spec fn valid_user_range(self, start: int, size: int) -> bool {
        &&& page_aligned(start)
        &&& page_aligned(size)
        &&& size > 0
        &&& self.base() <= start
        &&& start + size <= self.end_spec()
    }

    /// Holds when `[start, start + size)` overlaps some installed mapping.
    pub open spec fn overlaps_existing(self, start: int, size: int) -> bool {
        exists|i: int|
            0 <= i < self.mappings().len() && ranges_overlap(
                start,
                size,
                (#[trigger] self.mappings()[i]).start as int,
                self.mappings()[i].size as int,
            )
    }

    /// Holds when some mapping of `other` overlaps some mapping of `self`.
    pub open spec fn conflicts_with(self, other: AddrSpace) -> bool {
        exists|i: int|
            0 <= i < other.mappings().len() && self.overlaps_existing(
                (#[trigger] other.mappings()[i]).start as int,
                other.mappings()[i].size as int,
            )
    }

    /// Holds when some installed mapping covers the virtual address `va`.
    pub open spec fn mapped_at(self, va: int) -> bool {
        exists|i: int| 0 <= i < self.mappings().len() && covers(#[trigger] self.mappings()[i], va)
    }

    /// Index of the mapping covering `va` (meaningful when `mapped_at(va)`;
    /// unique because mappings are disjoint).
    pub open spec fn covering_index(self, va: int) -> int {
        choose|i: int| 0 <= i < self.mappings().len() && covers(#[trigger] self.mappings()[i], va)
    }

    /// Physical address backing the virtual address `va` (meaningful when
    /// `mapped_at(va)`).
    pub open spec fn translate(self, va: int) -> int {
        let e = self.mappings()[self.covering_index(va)];
        e.paddr + (va - e.start)
    }

    /// Permissions at the virtual address `va` (meaningful when
    /// `mapped_at(va)`).
    pub open spec fn flags_at(self, va: int) -> MappingFlags {
        self.mappings()[self.covering_index(va)].flags
    }

    /// Creates an empty address space over `[base, base + size)`, allocating
    /// one fresh zeroed frame from `mem` as its page-table root.
    ///
    /// Fails with `KernelError::Allocation`, leaving `mem` unchanged,
    /// exactly when `mem` has no room for the root frame.
    pub fn new_empty(base: usize, size: usize, mem: &mut PhysMemory) -> (r: Result<
        AddrSpace,
        KernelError,
    >)
        requires
            old(mem).wf(),
            page_aligned(base as int),
            page_aligned(size as int),
            size > 0,
            base + size <= usize::MAX,
        ensures
            final(mem).wf(),
            final(mem).capacity() == old(mem).capacity(),
            r is Ok <==> old(mem).mem().len() + PAGE_SIZE <= old(mem).capacity(),
            r matches Err(e) ==> e == KernelError::Allocation && *final(mem) == *old(mem),
            r matches Ok(s) ==> {
                &&& s.wf()
                &&& s.base() == base
                &&& s.size() == size
                &&& s.mappings().len() == 0
                &&& s.root() == old(mem).mem().len()
                &&& final(mem).mem().len() == old(mem).mem().len() + PAGE_SIZE
                &&& forall|a: int|
                    0 <= a < old(mem).mem().len() ==> final(mem).byte_at(a) == old(mem).byte_at(a)
            },
    {
        let pt_root = match mem.alloc_pages(PAGE_SIZE) {
            Ok(p) => p,
            Err(e) => {
                return Err(e);
            },
        };
        Ok(AddrSpace { base, size, pt_root, entries: Vec::new() })
    }

    /// One past the highest virtual address of the region; page-aligned
    /// because base and size are.
    pub fn end(&self) -> (r: usize)
        requires
            self.wf(),
        ensures
            r as int == self.end_spec(),
            page_aligned(r as int),
    {
        proof {
            lemma_aligned_add(self.base(), self.size());
        }
        self.base + self.size
    }

    /// The page-table root, installed by the scheduler on every switch into
    /// the task that owns this address space.
    pub fn page_table_root(&self) -> (r: usize)
        ensures
            r as int == self.root(),
    {
        self.pt_root
    }

    /// Installs a mapping of `[start, start + size)` with permissions
    /// `flags`, backed by `size` bytes of fresh zeroed physical memory.
    ///
    /// Fails with `KernelError::Mapping` when the range is not a valid,
    /// page-aligned range inside the region or overlaps an installed
    /// mapping, and with `KernelError::Allocation` when `mem` has no room;
    /// on failure neither the address space nor `mem` changes.
    pub fn map_region(
        &mut self,
        start: usize,
        size: usize,
        flags: MappingFlags,
        mem: &mut PhysMemory,
    ) -> (r: Result<(), KernelError>)
        requires
            old(self).wf(),
            old(mem).wf(),
        ensures
            final(self).wf(),
            final(self).base() == old(self).base(),
            final(self).size() == old(self).size(),
            final(self).root() == old(self).root(),
            final(mem).wf(),
            final(mem).capacity() == old(mem).capacity(),
            r is Ok <==> {
                &&& old(self).valid_user_range(start as int, size as int)
                &&& !old(self).overlaps_existing(start as int, size as int)
                &&& old(mem).mem().len() + size <= old(mem).capacity()
            },
            r == Err::<(), KernelError>(KernelError::Mapping) <==> {
                ||| !old(self).valid_user_range(start as int, size as int)
                ||| old(self).overlaps_existing(start as int, size as int)
            },
            r == Err::<(), KernelError>(KernelError::Allocation) <==> {
                &&& old(self).valid_user_range(start as int, size as int)
                &&& !old(self).overlaps_existing(start as int, size as int)
                &&& old(mem).mem().len() + size > old(mem).capacity()
            },
            r is Err ==> *final(self) == *old(self) && *final(mem) == *old(mem),
            r is Ok ==> {
                &&& final(self).mappings() == old(self).mappings().push(
                    MapEntry {
                        start,
                        size,
                        paddr: old(mem).mem().len() as usize,
                        flags,
                    },
                )
                &&& final(mem).mem().len() == old(mem).mem().len() + size
                &&& forall|a: int|
                    0 <= a < old(mem).mem().len() ==> final(mem).byte_at(a) == old(mem).byte_at(a)
                &&& forall|a: int|
                    old(mem).mem().len() <= a < final(mem).mem().len() ==> final(mem).byte_at(a)
                        == 0u8
            },
    {
        // The range must be page-aligned, non-empty and inside the region.
        if !(start % PAGE_SIZE == 0 && size % PAGE_SIZE == 0 && size > 0 && start >= self.base
            && size <= self.size && start - self.base <= self.size - size) {
            return Err(KernelError::Mapping);
        }
        // The range must not overlap any installed mapping.
        let n = self.entries.len();
        let mut i: usize = 0;
        while i < n
            invariant
                i <= n,
                n == self.mappings().len(),
                self.wf(),
                start + size <= usize::MAX,
                forall|j: int|
                    0 <= j < i ==> !ranges_overlap(
                        start as int,
                        size as int,
                        (#[trigger] self.mappings()[j]).start as int,
                        self.mappings()[j].size as int,
                    ),
            decreases n - i,
        {
            let e = self.entries[i];
            if e.start < start + size && start < e.start + e.size {
                proof {
                    assert((i as int) < self.mappings().len() && ranges_overlap(
                        start as int,
                        size as int,
                        self.mappings()[i as int].start as int,
                        self.mappings()[i as int].size as int,
                    ));
                }
                return Err(KernelError::Mapping);
            }
            i = i + 1;
        }
        // Back the range with fresh frames.
        let paddr = match mem.alloc_pages(size) {
            Ok(p) => p,
            Err(e) => {
                return Err(e);
            },
        };
        self.entries.push(MapEntry { start, size, paddr, flags });
        proof {
            let m = self.entries@;
            let pl = m.len() - 1;
            assert(entry_wf(m[pl]));
            assert forall|ii: int, jj: int|
                0 <= ii < m.len() && 0 <= jj < m.len() && ii != jj implies !ranges_overlap(
                m[ii].start as int,
                m[ii].size as int,
                m[jj].start as int,
                m[jj].size as int,
            ) by {
                if ii < pl && jj < pl {
                    assert(m[ii] == old(self).mappings()[ii]);
                    assert(m[jj] == old(self).mappings()[jj]);
                } else if ii == pl {
                    assert(m[jj] == old(self).mappings()[jj]);
                } else {
                    assert(m[ii] == old(self).mappings()[ii]);
                }
            }
        }
        Ok(())
    }

    /// Imports every mapping of `kernel` into this address space, so kernel
    /// code and data stay reachable while a trap from user mode is handled.
    ///
    /// Fails with `KernelError::MappingConflict`, changing nothing, exactly
    /// when a kernel mapping overlaps an installed one; into a freshly
    /// created space it always succeeds and reproduces the kernel's mappings
    /// exactly — no extras, no omissions.
    pub fn copy_mappings_from(&mut self, kernel: &AddrSpace) -> (r: Result<(), KernelError>)
        requires
            old(self).wf(),
            kernel.wf(),
        ensures
            final(self).wf(),
            final(self).base() == old(self).base(),
            final(self).size() == old(self).size(),
            final(self).root() == old(self).root(),
            r is Ok <==> !old(self).conflicts_with(*kernel),
            r is Err ==> r == Err::<(), KernelError>(KernelError::MappingConflict) && *final(self)
                == *old(self),
            r is Ok ==> final(self).mappings() == old(self).mappings() + kernel.mappings(),
            old(self).mappings().len() == 0 ==> r is Ok && final(self).mappings()
                == kernel.mappings(),
    {
        let kn = kernel.entries.len();
        let n = self.entries.len();
        // First pass: detect any collision without changing anything.
        let mut k: usize = 0;
        while k < kn
            invariant
                k <= kn,
                kn == kernel.mappings().len(),
                n == self.mappings().len(),
                self.wf(),
                kernel.wf(),
                forall|kk: int|
                    0 <= kk < k ==> !self.overlaps_existing(
                        (#[trigger] kernel.mappings()[kk]).start as int,
                        kernel.mappings()[kk].size as int,
                    ),
            decreases kn - k,
        {
            let ke = kernel.entries[k];
            let mut i: usize = 0;
            while i < n
                invariant
                    i <= n,
                    k < kn,
                    kn == kernel.mappings().len(),
                    n == self.mappings().len(),
                    self.wf(),
                    kernel.wf(),
                    ke == kernel.mappings()[k as int],
                    forall|j: int|
                        0 <= j < i ==> !ranges_overlap(
                            ke.start as int,
                            ke.size as int,
                            (#[trigger] self.mappings()[j]).start as int,
                            self.mappings()[j].size as int,
                        ),
                decreases n - i,
            {
                let e = self.entries[i];
                if e.start < ke.start + ke.size && ke.start < e.start + e.size {
                    proof {
                        assert((i as int) < self.mappings().len() && ranges_overlap(
                            ke.start as int,
                            ke.size as int,
                            self.mappings()[i as int].start as int,
                            self.mappings()[i as int].size as int,
                        ));
                        assert(self.overlaps_existing(ke.start as int, ke.size as int));
                        assert((k as int) < kernel.mappings().len() && self.overlaps_existing(
                            kernel.mappings()[k as int].start as int,
                            kernel.mappings()[k as int].size as int,
                        ));
                    }
                    return Err(KernelError::MappingConflict);
                }
                i = i + 1;
            }
            k = k + 1;
        }
        // Second pass: install the kernel mappings.
        let ghost pre = self.entries@;
        proof {
            assert(pre + kernel.mappings().subrange(0, 0) =~= pre);
        }
        let mut k: usize = 0;
        while k < kn
            invariant
                k <= kn,
                self.base == old(self).base,
                self.size == old(self).size,
                self.pt_root == old(self).pt_root,
                self.entries@ == pre + kernel.mappings().subrange(0, k as int),
            decreases kn - k,
        {
            let ke = kernel.entries[k];
            self.entries.push(ke);
            proof {
                assert(self.entries@ =~= pre + kernel.mappings().subrange(0, k + 1));
            }
            k = k + 1;
        }
        proof {
            let m = self.entries@;
            let pl = pre.len() as int;
            assert(kernel.mappings().subrange(0, kn as int) =~= kernel.mappings());
            assert(m == pre + kernel.mappings());
            // The combined sequence keeps every mapping well formed and the
            // whole set pairwise disjoint: the original entries were, the
            // kernel's are, and the first pass ruled out any cross overlap.
            assert forall|i: int| 0 <= i < m.len() implies entry_wf(m[i]) by {
                if i < pl {
                    assert(m[i] == old(self).mappings()[i]);
                } else {
                    assert(m[i] == kernel.mappings()[i - pl]);
                }
            }
            assert forall|i: int, j: int|
                0 <= i < m.len() && 0 <= j < m.len() && i != j implies !ranges_overlap(
                m[i].start as int,
                m[i].size as int,
                m[j].start as int,
                m[j].size as int,
            ) by {
                if i < pl && j < pl {
                    assert(m[i] == old(self).mappings()[i]);
                    assert(m[j] == old(self).mappings()[j]);
                } else if i >= pl && j >= pl {
                    assert(m[i] == kernel.mappings()[i - pl]);
                    assert(m[j] == kernel.mappings()[j - pl]);
                } else if i < pl {
                    assert(m[i] == old(self).mappings()[i]);
                    assert(m[j] == kernel.mappings()[j - pl]);
                    assert(!old(self).overlaps_existing(m[j].start as int, m[j].size as int));
                } else {
                    assert(m[j] == old(self).mappings()[j]);
                    assert(m[i] == kernel.mappings()[i - pl]);
                    assert(!old(self).overlaps_existing(m[i].start as int, m[i].size as int));
                }
            }
            if pre.len() == 0 {
                assert(self.entries@ =~= kernel.mappings());
            }
        }
        Ok(())
    }

    /// Looks up the virtual address `va`: the physical address backing it
    /// and the permissions of its mapping, or `None` when `va` is unmapped.
    pub fn query(&self, va: usize) -> (r: Option<(usize, MappingFlags)>)
        requires
            self.wf(),
        ensures
            r is Some <==> self.mapped_at(va as int),
            r matches Some((p, f)) ==> p as int == self.translate(va as int) && f == self.flags_at(
                va as int,
            ),
    {
        let n = self.entries.len();
        let mut i: usize = 0;
        while i < n
            invariant
                i <= n,
                n == self.mappings().len(),
                self.wf(),
                forall|j: int| 0 <= j < i ==> !covers(#[trigger] self.mappings()[j], va as int),
            decreases n - i,
        {
            let e = self.entries[i];
            if e.start <= va && va - e.start < e.size {
                proof {
                    assert(covers(self.mappings()[i as int], va as int));
                    assert(self.mapped_at(va as int));
                    let j = self.covering_index(va as int);
                    assert(0 <= j < self.mappings().len() && covers(
                        self.mappings()[j],
                        va as int,
                    ));
                    lemma_cover_unique(*self, j, i as int, va as int);
                }
                return Some((e.paddr + (va - e.start), e.flags));
            }
            i = i + 1;
        }
        proof {
            assert(!self.mapped_at(va as int));
        }
        None
    }
}

/// Mappings are pairwise disjoint, so at most one covers any given virtual
/// address.
pub proof fn lemma_cover_unique(s: AddrSpace, i: int, j: int, va: int)
    requires
        s.wf(),
        0 <= i < s.mappings().len(),
        0 <= j < s.mappings().len(),
        covers(s.mappings()[i], va),
        covers(s.mappings()[j], va),
    ensures
        i == j,
{
    if i != j {
        assert(ranges_overlap(
            s.mappings()[i].start as int,
            s.mappings()[i].size as int,
            s.mappings()[j].start as int,
            s.mappings()[j].size as int,
        ));
    }
}

/// Spaces with the same mappings overlap the same ranges, whatever their
/// base, size or root.
pub proof fn lemma_overlaps_same_mappings(a: AddrSpace, b: AddrSpace, start: int, size: int)
    requires
        a.mappings() == b.mappings(),
    ensures
        a.overlaps_existing(start, size) == b.overlaps_existing(start, size),
{
    if a.overlaps_existing(start, size) {
        let i = choose|i: int|
            0 <= i < a.mappings().len() && ranges_overlap(
                start,
                size,
                (#[trigger] a.mappings()[i]).start as int,
                a.mappings()[i].size as int,
            );
        assert((i as int) < b.mappings().len() && ranges_overlap(
            start,
            size,
            b.mappings()[i].start as int,
            b.mappings()[i].size as int,
        ));
    }
    if b.overlaps_existing(start, size) {
        let i = choose|i: int|
            0 <= i < b.mappings().len() && ranges_overlap(
                start,
                size,
                (#[trigger] b.mappings()[i]).start as int,
                b.mappings()[i].size as int,
            );
        assert((i as int) < a.mappings().len() && ranges_overlap(
            start,
            size,
            a.mappings()[i].start as int,
            a.mappings()[i].size as int,
        ));
    }
}

/// Adding one mapping adds exactly its own range to what a space overlaps.
pub proof fn lemma_overlaps_push(a: AddrSpace, b: AddrSpace, e: MapEntry, start: int, size: int)
    requires
        b.mappings() == a.mappings().push(e),
    ensures
        b.overlaps_existing(start, size) == (a.overlaps_existing(start, size) || ranges_overlap(
            start,
            size,
            e.start as int,
            e.size as int,
        )),
{
    let al = a.mappings().len() as int;
    if b.overlaps_existing(start, size) {
        let i = choose|i: int|
            0 <= i < b.mappings().len() && ranges_overlap(
                start,
                size,
                (#[trigger] b.mappings()[i]).start as int,
                b.mappings()[i].size as int,
            );
        if i < al {
            assert(ranges_overlap(
                start,
                size,
                a.mappings()[i].start as int,
                a.mappings()[i].size as int,
            ));
        } else {
            assert(b.mappings()[i] == e);
        }
    }
    if a.overlaps_existing(start, size) {
        let i = choose|i: int|
            0 <= i < a.mappings().len() && ranges_overlap(
                start,
                size,
                (#[trigger] a.mappings()[i]).start as int,
                a.mappings()[i].size as int,
            );
        assert((i as int) < b.mappings().len() && ranges_overlap(
            start,
            size,
            b.mappings()[i].start as int,
            b.mappings()[i].size as int,
        ));
    }
    if ranges_overlap(start, size, e.start as int, e.size as int) {
        assert(b.mappings()[al] == e);
        assert(al < b.mappings().len() && ranges_overlap(
            start,
            size,
            b.mappings()[al].start as int,
            b.mappings()[al].size as int,
        ));
    }
}

/// Law: physical regions carved out of disjoint allocation windows never
/// overlap — two sequentially built address spaces share no backing.
pub proof fn lemma_sequential_backings_disjoint(
    e1: MapEntry,
    e2: MapEntry,
    lo1: int,
    mid: int,
    hi2: int,
)
    requires
        backed_within(e1, lo1, mid),
        backed_within(e2, mid, hi2),
    ensures
        !ranges_overlap(e1.paddr as int, e1.size as int, e2.paddr as int, e2.size as int),
{
}

} // verus!
