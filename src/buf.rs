//! A description of a memory region owned outside this library.
use vstd::prelude::*;

verus! {

/// What a [`FileVolatileBuf`] is, as a mathematical value.
pub struct BufModel {
    /// Start address of the region.
    pub addr: nat,
    /// Bytes at the start of the region that hold valid data.
    pub len: nat,
    /// Bytes that may be written, starting at `addr`.
    pub cap: nat,
}

impl BufModel {
    /// Bytes that an I/O operation may still add to the region.
    pub open spec fn room(self) -> int {
        self.cap - self.len
    }

    pub open spec fn bounded(self) -> bool {
        self.len <= self.cap
    }

    /// The same region with another valid length.
    pub open spec fn with_len(self, len: nat) -> BufModel {
        BufModel { addr: self.addr, len, cap: self.cap }
    }
}

/// A borrowed memory region: its address, its capacity and how many of its
/// bytes are valid. The region itself is neither allocated nor freed here; an
/// operation only moves the valid length, never beyond the capacity.
#[derive(Clone, Copy, Debug)]
pub struct FileVolatileBuf {
    addr: usize,
    size: usize,
    cap: usize,
}

impl View for FileVolatileBuf {
    type V = BufModel;

    closed spec fn view(&self) -> BufModel {
        BufModel { addr: self.addr as nat, len: self.size as nat, cap: self.cap as nat }
    }
}

impl FileVolatileBuf {
    #[verifier::type_invariant]
    closed spec fn inv(self) -> bool {
        self.size <= self.cap
    }

    /// An empty region of `cap` writable bytes at `addr`, ready to be read into.
    pub fn new(addr: usize, cap: usize) -> (r: Self)
        ensures
            r@ == (BufModel { addr: addr as nat, len: 0, cap: cap as nat }),
    {
        FileVolatileBuf { addr, size: 0, cap }
    }

    /// A region at `addr` of `cap` bytes whose first `size` bytes are valid.
    pub fn from_raw(addr: usize, size: usize, cap: usize) -> (r: Self)
        requires
            size <= cap,
        ensures
            r@ == (BufModel { addr: addr as nat, len: size as nat, cap: cap as nat }),
    {
        FileVolatileBuf { addr, size, cap }
    }

    /// Start address of the region.
    pub fn addr(&self) -> (r: usize)
        ensures
            r == self@.addr,
    {
        self.addr
    }

    /// Number of valid bytes.
    pub fn len(&self) -> (r: usize)
        ensures
            r == self@.len,
    {
        self.size
    }

    /// Whether no byte is valid.
    pub fn is_empty(&self) -> (r: bool)
        ensures
            r == (self@.len == 0),
    {
        self.size == 0
    }

    /// Number of writable bytes.
    pub fn cap(&self) -> (r: usize)
        ensures
            r == self@.cap,
    {
        self.cap
    }

    /// Bytes that may still be added after the valid ones.
    pub fn room(&self) -> (r: usize)
        ensures
            r == self@.room(),
            self@.bounded(),
    {
        proof {
            use_type_invariant(self);
        }
        self.cap - self.size
    }

    /// Set the number of valid bytes; it may not exceed the capacity.
    pub fn set_size(&mut self, size: usize)
        requires
            size <= old(self)@.cap,
        ensures
            final(self)@ == old(self)@.with_len(size as nat),
    {
        self.size = size;
    }

    /// Add `n` bytes to the valid ones; there must be room for them.
    pub fn grow(&mut self, n: usize)
        requires
            n <= old(self)@.room(),
        ensures
            final(self)@ == old(self)@.with_len(old(self)@.len + n as nat),
    {
        self.size = self.size + n;
    }

    /// Record that the first `pos` bytes are valid, keeping a longer valid
    /// length as it is.
    pub fn extend_to(&mut self, pos: usize)
        requires
            pos <= old(self)@.cap,
        ensures
            final(self)@ == old(self)@.with_len(
                if pos > old(self)@.len {
                    pos as nat
                } else {
                    old(self)@.len
                },
            ),
    {
        if self.size < pos {
            self.size = pos;
        }
    }
}

} // verus!
