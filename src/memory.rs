//! Page-granular linear memory.
use vstd::prelude::*;

verus! {

/// Size of one WebAssembly page in bytes.
pub const PAGE_SIZE: usize = 65536;

/// Number of bytes held by `pages` pages.
pub open spec fn page_bytes(pages: nat) -> nat {
    pages * (PAGE_SIZE as nat)
}

/// A linear memory: a zero-initialized byte region of whole pages.
pub struct LinearMemory {
    /// Current size in pages.
    pub current: u32,
    /// Declared maximum size in pages, if any.
    pub maximum: Option<u32>,
    /// Backing storage; its length is always `current` pages.
    pub mmap: Vec<u8>,
}

impl LinearMemory {
    /// The backing storage holds exactly `current` pages.
    pub open spec fn wf(&self) -> bool {
        self.mmap@.len() == page_bytes(self.current as nat)
    }

    /// Contents of the memory.
    pub open spec fn bytes(&self) -> Seq<u8> {
        self.mmap@
    }

    /// Create a zero-filled memory of `initial` pages with an optional maximum.
    pub fn new(initial: u32, maximum: Option<u32>) -> (r: Self)
        requires
            page_bytes(initial as nat) <= usize::MAX,
        ensures
            r.wf(),
            r.current == initial,
            r.maximum == maximum,
            r.bytes() == Seq::new(page_bytes(initial as nat), |i: int| 0u8),
    {
        let len: usize = initial as usize * PAGE_SIZE;
        let mut mmap: Vec<u8> = Vec::with_capacity(len);
        let mut i: usize = 0;
        while i < len
            invariant
                i <= len,
                mmap@.len() == i,
                forall|j: int| 0 <= j < i ==> mmap@[j] == 0u8,
            decreases len - i,
        {
            mmap.push(0u8);
            i = i + 1;
        }
        assert(mmap@ =~= Seq::new(page_bytes(initial as nat), |i: int| 0u8));
        LinearMemory { current: initial, maximum, mmap }
    }

    /// Current size in bytes.
    pub fn current_size(&self) -> (r: usize)
        requires
            self.wf(),
        ensures
            r == page_bytes(self.current as nat),
    {
        self.mmap.len()
    }

    /// Read-only view of the whole memory.
    pub fn as_slice(&self) -> (r: &[u8])
        ensures
            r@ == self.bytes(),
    {
        self.mmap.as_slice()
    }

    /// Copy `data` into the memory starting at `offset`.
    pub fn write(&mut self, offset: usize, data: &Vec<u8>)
        requires
            offset + data@.len() <= old(self).bytes().len(),
        ensures
            final(self).current == old(self).current,
            final(self).maximum == old(self).maximum,
            final(self).bytes() == old(self).bytes().take(offset as int) + data@
                + old(self).bytes().skip(offset + data@.len()),
    {
        let n: usize = self.mmap.len();
        let mut i: usize = 0;
        while i < data.len()
            invariant
                offset + data@.len() <= old(self).bytes().len(),
                n == old(self).mmap@.len(),
                i <= data@.len(),
                self.current == old(self).current,
                self.maximum == old(self).maximum,
                self.mmap@.len() == old(self).mmap@.len(),
                forall|j: int| 0 <= j < self.mmap@.len() ==> #[trigger] self.mmap@[j] == if offset <= j < offset + i {
                    data@[j - offset]
                } else {
                    old(self).mmap@[j]
                },
            decreases data@.len() - i,
        {
            self.mmap.set(offset + i, data[i]);
            i = i + 1;
        }
        assert(self.mmap@ =~= old(self).bytes().take(offset as int) + data@
            + old(self).bytes().skip(offset + data@.len()));
    }
}

} // verus!
