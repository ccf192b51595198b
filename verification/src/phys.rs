//! Model of physical memory: a bounded pool of page-sized frames handed out
//! in allocation order, together with byte-level access to their contents.
//!
//! Every allocation returns a region that begins exactly where the previous
//! one ended, so regions handed out by successive allocations never overlap —
//! the fact that makes two sequentially built address spaces isolated.

use vstd::prelude::*;

use crate::PAGE_SIZE;
use crate::error::KernelError;
use crate::page_aligned;

verus! {

/// The pool of physical memory available to the execution core.
///
/// Addresses are byte offsets from the start of the pool; the pool grows in
/// whole pages up to a fixed capacity, and freshly allocated pages are
/// zeroed.
pub struct PhysMemory {
    bytes: Vec<u8>,
    capacity: usize,
}

/// Holds when `post` is `pre` with exactly the bytes of `data` written at
/// `at` and every other byte unchanged.
pub open spec fn updated_range(pre: PhysMemory, post: PhysMemory, at: int, data: Seq<u8>) -> bool {
    &&& post.mem().len() == pre.mem().len()
    &&& post.capacity() == pre.capacity()
    &&& forall|a: int|
        0 <= a < pre.mem().len() && !(at <= a < at + data.len()) ==> post.byte_at(a)
            == pre.byte_at(a)
    &&& forall|i: int| 0 <= i < data.len() ==> post.byte_at(at + i) == data[i]
}

impl PhysMemory {
    /// The bytes of every allocated frame, in allocation order.
    pub closed spec fn mem(self) -> Seq<u8> {
        self.bytes@
    }

    /// Total number of bytes the pool can ever hand out.
    pub closed spec fn capacity(self) -> int {
        self.capacity as int
    }

    /// The byte stored at physical address `addr`.
    pub open spec fn byte_at(self, addr: int) -> u8 {
        self.mem()[addr]
    }

    /// The pool always holds whole pages and never exceeds its capacity.
    pub open spec fn wf(self) -> bool {
        &&& page_aligned(self.mem().len() as int)
        &&& self.mem().len() <= self.capacity()
        &&& self.capacity() <= usize::MAX
    }

    /// Creates an empty pool that can grow to `capacity` bytes.
    pub fn new(capacity: usize) -> (m: PhysMemory)
        ensures
            m.wf(),
            m.mem().len() == 0,
            m.capacity() == capacity,
    {
        PhysMemory { bytes: Vec::new(), capacity }
    }

    /// Number of bytes allocated so far.
    pub fn allocated(&self) -> (n: usize)
        ensures
            n == self.mem().len(),
    {
        self.bytes.len()
    }

    /// Hands out `size` fresh bytes of backing, zeroed, in whole pages.
    ///
    /// The region begins exactly at the previous end of the pool, so the
    /// result never overlaps any region handed out earlier. Fails with
    /// `KernelError::Allocation`, leaving the pool unchanged, exactly when
    /// the pool cannot grow by `size` bytes.
    pub fn alloc_pages(&mut self, size: usize) -> (r: Result<usize, KernelError>)
        requires
            old(self).wf(),
            page_aligned(size as int),
        ensures
            final(self).wf(),
            final(self).capacity() == old(self).capacity(),
            r matches Ok(p) <==> old(self).mem().len() + size <= old(self).capacity(),
            r matches Err(e) ==> e == KernelError::Allocation && *final(self) == *old(self),
            r matches Ok(p) ==> {
                &&& p == old(self).mem().len()
                &&& final(self).mem().len() == old(self).mem().len() + size
                &&& forall|a: int|
                    0 <= a < old(self).mem().len() ==> final(self).byte_at(a) == old(
                        self,
                    ).byte_at(a)
                &&& forall|a: int|
                    old(self).mem().len() <= a < final(self).mem().len() ==> final(self).byte_at(a)
                        == 0u8
            },
    {
        let start = self.bytes.len();
        if size > self.capacity - start {
            return Err(KernelError::Allocation);
        }
        let mut i: usize = 0;
        while i < size
            invariant
                i <= size,
                start + size <= self.capacity,
                self.capacity == old(self).capacity,
                self.bytes@.len() == start + i,
                forall|a: int| 0 <= a < start ==> self.bytes@[a] == old(self).bytes@[a],
                forall|a: int| start <= a < start + i ==> self.bytes@[a] == 0u8,
            decreases size - i,
        {
            self.bytes.push(0u8);
            i = i + 1;
        }
        proof {
            crate::lemma_aligned_add(old(self).mem().len() as int, size as int);
        }
        Ok(start)
    }

    /// Reads the byte at physical address `addr`.
    pub fn read_byte(&self, addr: usize) -> (b: u8)
        requires
            addr < self.mem().len(),
        ensures
            b == self.byte_at(addr as int),
    {
        self.bytes[addr]
    }

    /// Reads `n` consecutive bytes starting at physical address `addr`.
    pub fn read_bytes(&self, addr: usize, n: usize) -> (out: Vec<u8>)
        requires
            addr + n <= self.mem().len(),
        ensures
            out@.len() == n,
            forall|i: int| 0 <= i < n ==> out@[i] == self.byte_at(addr + i),
    {
        let len = self.bytes.len();
        let mut out: Vec<u8> = Vec::new();
        let mut i: usize = 0;
        while i < n
            invariant
                i <= n,
                addr + n <= len,
                len == self.mem().len(),
                out@.len() == i,
                forall|j: int| 0 <= j < i ==> out@[j] == self.byte_at(addr + j),
            decreases n - i,
        {
            out.push(self.bytes[addr + i]);
            i = i + 1;
        }
        out
    }

    /// Writes the bytes of `data` at physical address `at`, leaving every
    /// byte outside `[at, at + data.len())` unchanged.
    pub fn write_bytes(&mut self, at: usize, data: &Vec<u8>)
        requires
            old(self).wf(),
            at + data@.len() <= old(self).mem().len(),
        ensures
            final(self).wf(),
            updated_range(*old(self), *final(self), at as int, data@),
    {
        let n = data.len();
        let len = self.bytes.len();
        let mut i: usize = 0;
        while i < n
            invariant
                i <= n,
                n == data@.len(),
                at + n <= len,
                len == self.bytes@.len(),
                self.bytes@.len() == old(self).bytes@.len(),
                self.capacity == old(self).capacity,
                forall|a: int|
                    0 <= a < self.bytes@.len() && !(at <= a < at + i) ==> self.bytes@[a] == old(
                        self,
                    ).bytes@[a],
                forall|j: int| 0 <= j < i ==> self.bytes@[at + j] == data@[j],
            decreases n - i,
        {
            self.bytes.set(at + i, data[i]);
            i = i + 1;
        }
    }
}

/// Law: a write confined to one allocated region is not observable through
/// any region disjoint from it — the bytes of the disjoint region read back
/// unchanged.
pub proof fn lemma_isolated_write(
    pre: PhysMemory,
    post: PhysMemory,
    at: int,
    data: Seq<u8>,
    lo: int,
    hi: int,
)
    requires
        updated_range(pre, post, at, data),
        0 <= lo <= hi <= pre.mem().len(),
        hi <= at || at + data.len() <= lo,
    ensures
        forall|a: int| lo <= a < hi ==> post.byte_at(a) == pre.byte_at(a),
{
}

} // verus!
