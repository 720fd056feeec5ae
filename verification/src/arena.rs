//! A transient, append-only byte arena standing in front of one GPU buffer
//! object. The arena tracks the write cursor, the buffer's current size and
//! a host-side shadow copy of every byte written since the last `clear`; the
//! caller performs the actual GPU uploads from the returned offsets and the
//! shadow bytes.

use vstd::prelude::*;

verus! {

pub struct BumpAllocatedBuffer {
    buffer: u32,
    target: u32,
    usage: u32,
    offset: usize,
    size: usize,
    data_copy: Vec<u8>,
    buffer_leaked: bool,
}

impl BumpAllocatedBuffer {
    /// The write cursor mirrors the shadow copy and never passes the
    /// buffer's size.
    pub closed spec fn wf(&self) -> bool {
        &&& self.offset == self.data_copy@.len()
        &&& self.offset <= self.size
    }

    pub closed spec fn spec_offset(&self) -> int {
        self.offset as int
    }

    pub closed spec fn spec_size(&self) -> int {
        self.size as int
    }

    /// Every byte written since the last `clear`, in write order.
    pub closed spec fn contents(&self) -> Seq<u8> {
        self.data_copy@
    }

    pub closed spec fn spec_buffer(&self) -> u32 {
        self.buffer
    }

    pub closed spec fn spec_target(&self) -> u32 {
        self.target
    }

    pub closed spec fn spec_usage(&self) -> u32 {
        self.usage
    }

    pub closed spec fn leaked(&self) -> bool {
        self.buffer_leaked
    }

    /// A fresh arena in front of the (caller-created) buffer object
    /// `buffer`, with an empty backing store and the cursor at zero.
    pub fn new(target: u32, usage: u32, buffer: u32) -> (r: BumpAllocatedBuffer)
        ensures
            r.wf(),
            r.spec_offset() == 0,
            r.spec_size() == 0,
            r.contents() == Seq::<u8>::empty(),
            r.spec_buffer() == buffer,
            r.spec_target() == target,
            r.spec_usage() == usage,
            !r.leaked(),
    {
        BumpAllocatedBuffer {
            buffer,
            target,
            usage,
            offset: 0,
            size: 0,
            data_copy: Vec::new(),
            buffer_leaked: false,
        }
    }

    /// Returns the backing buffer object. If `leak` is true, the buffer is
    /// marked as leaked: its lifetime is from then on the caller's business,
    /// and tearing the arena down must not release it.
    pub fn get_buffer(&mut self, leak: bool) -> (r: u32)
        ensures
            r == old(self).spec_buffer(),
            final(self).leaked() == (old(self).leaked() || leak),
            final(self).spec_buffer() == old(self).spec_buffer(),
            final(self).spec_target() == old(self).spec_target(),
            final(self).spec_usage() == old(self).spec_usage(),
            final(self).spec_offset() == old(self).spec_offset(),
            final(self).spec_size() == old(self).spec_size(),
            final(self).contents() == old(self).contents(),
    {
        self.buffer_leaked = self.buffer_leaked || leak;
        self.buffer
    }

    /// Appends `bytes` at the current write cursor and returns the buffer
    /// object and the byte offset where they begin. When the bytes would not
    /// fit, the buffer grows to twice its size plus the new allocation, and
    /// the previously written bytes are retained (the caller re-uploads them
    /// from the shadow copy); growth never fails.
    pub fn allocate_buffer(&mut self, bytes: &[u8]) -> (r: (u32, usize))
        requires
            old(self).wf(),
        ensures
            final(self).wf(),
            r.0 == old(self).spec_buffer(),
            r.1 == old(self).spec_offset(),
            final(self).spec_offset() == old(self).spec_offset() + bytes@.len(),
            final(self).contents() == old(self).contents() + bytes@,
            final(self).spec_buffer() == old(self).spec_buffer(),
            final(self).spec_target() == old(self).spec_target(),
            final(self).spec_usage() == old(self).spec_usage(),
            final(self).leaked() == old(self).leaked(),
            old(self).spec_offset() + bytes@.len() < old(self).spec_size() ==> final(self).spec_size() == old(self).spec_size(),
            old(self).spec_offset() + bytes@.len() >= old(self).spec_size() ==> final(self).spec_size() == grown_size(old(self).spec_size(), bytes@.len() as int),
    {
        if bytes.len() >= self.size - self.offset {
            let a1: usize = if bytes.len() <= usize::MAX - self.size {
                bytes.len() + self.size
            } else {
                usize::MAX
            };
            self.size = if self.size <= usize::MAX - a1 {
                self.size + a1
            } else {
                usize::MAX
            };
        }
        let upload_offset = self.offset;
        let mut i: usize = 0;
        while i < bytes.len()
            invariant
                i <= bytes@.len(),
                self.data_copy@ == old(self).data_copy@ + bytes@.subrange(0, i as int),
                self.offset == old(self).offset,
                self.size >= old(self).offset + bytes@.len() || self.size == usize::MAX,
                old(self).offset + bytes@.len() < old(self).size ==> self.size == old(self).size,
                old(self).offset + bytes@.len() >= old(self).size ==> self.size == grown_size(
                    old(self).size as int,
                    bytes@.len() as int,
                ),
                self.buffer == old(self).buffer,
                self.target == old(self).target,
                self.usage == old(self).usage,
                self.buffer_leaked == old(self).buffer_leaked,
                old(self).wf(),
            decreases bytes@.len() - i,
        {
            self.data_copy.push(bytes[i]);
            i = i + 1;
        }
        proof {
            assert(bytes@.subrange(0, bytes@.len() as int) =~= bytes@);
        }
        self.offset = self.data_copy.len();
        (self.buffer, upload_offset)
    }

    /// The shadow copy: every byte written since the last `clear`.
    pub fn data(&self) -> (r: &Vec<u8>)
        ensures
            r@ == self.contents(),
    {
        &self.data_copy
    }

    /// The current write cursor.
    pub fn offset(&self) -> (r: usize)
        ensures
            r == self.spec_offset(),
    {
        self.offset
    }

    /// Resets the write cursor to zero and forgets the shadow copy; the
    /// buffer object keeps its size.
    pub fn clear(&mut self)
        ensures
            final(self).wf(),
            final(self).spec_offset() == 0,
            final(self).contents() == Seq::<u8>::empty(),
            final(self).spec_size() == old(self).spec_size(),
            final(self).spec_buffer() == old(self).spec_buffer(),
            final(self).spec_target() == old(self).spec_target(),
            final(self).spec_usage() == old(self).spec_usage(),
            final(self).leaked() == old(self).leaked(),
    {
        self.offset = 0;
        self.data_copy.clear();
    }
}

/// A well-formed arena's cursor sits exactly past its shadow copy and never
/// past its buffer's size.
pub proof fn lemma_wf_cursor(a: &BumpAllocatedBuffer)
    requires
        a.wf(),
    ensures
        a.spec_offset() == a.contents().len(),
        a.spec_offset() <= a.spec_size(),
{
}

/// The size the backing buffer grows to when an allocation of `len` bytes
/// does not fit: twice the old size plus the new allocation, held to the
/// machine's address-space limit.
pub open spec fn grown_size(size: int, len: int) -> int {
    if size * 2 + len <= usize::MAX {
        size * 2 + len
    } else {
        usize::MAX as int
    }
}

/// The byte offset at which the `k`-th allocation of a run of allocations
/// with the given lengths begins, when the run starts at a cursor of zero
/// (as it does after `clear`).
pub open spec fn alloc_offset(lens: Seq<nat>, k: int) -> int
    decreases k,
{
    if k <= 0 {
        0
    } else {
        alloc_offset(lens, k - 1) + lens[k - 1]
    }
}

proof fn lemma_alloc_offset_monotonic(lens: Seq<nat>, i: int, j: int)
    requires
        0 <= i <= j <= lens.len(),
    ensures
        alloc_offset(lens, i) <= alloc_offset(lens, j),
    decreases j - i,
{
    if i < j {
        lemma_alloc_offset_monotonic(lens, i, j - 1);
    }
}

/// For any run of allocations made after a `clear`, the byte ranges handed
/// out are pairwise disjoint: an earlier allocation's range ends at or
/// before a later one's begins.
pub proof fn lemma_alloc_ranges_disjoint(lens: Seq<nat>, i: int, j: int)
    requires
        0 <= i < j < lens.len(),
    ensures
        alloc_offset(lens, i) + lens[i] <= alloc_offset(lens, j),
    decreases j - i,
{
    lemma_alloc_offset_monotonic(lens, i + 1, j);
}

} // verus!
