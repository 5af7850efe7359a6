//! Handles into the byte arena that guest and host exchange data through.
//!
//! The two sides share no address space. A host call answers with one 64-bit
//! integer: zero when the operation failed, otherwise the offset of a block
//! whose length has to be asked for before a single byte is copied out.

use vstd::prelude::*;

verus! {

/// A descriptor of a byte range in the arena. It owns nothing: the bytes are
/// reached only through explicit host calls.
#[derive(Clone, Copy, Debug, PartialEq, Eq, Structural)]
pub struct MemoryHandle {
    pub offset: u64,
    pub length: u64,
}

/// Whether a raw result of a host call denotes a block rather than a failure.
pub open spec fn is_valid_offset(raw: u64) -> bool {
    raw > 0
}

/// An offset that has passed the validity check. The only way to obtain one is
/// [`Handle::new`], so code that holds a `Handle` never dereferences a sentinel.
#[derive(Clone, Copy, Debug)]
pub struct Handle {
    offset: u64,
}

impl Handle {
    #[verifier::type_invariant]
    spec fn holds_valid_offset(self) -> bool {
        is_valid_offset(self.offset)
    }

    /// The offset this handle stands for.
    pub closed spec fn raw(self) -> u64 {
        self.offset
    }

    /// Checks a raw host result: a positive offset becomes a handle, the
    /// sentinel is rejected.
    pub fn new(raw: u64) -> (r: Option<Handle>)
        ensures
            r is Some <==> is_valid_offset(raw),
            r matches Some(h) ==> h.raw() == raw,
    {
        if raw <= 0 {
            None
        } else {
            Some(Handle { offset: raw })
        }
    }

    /// The offset, known to be positive.
    pub fn offset(&self) -> (r: u64)
        ensures
            r == self.raw(),
            is_valid_offset(r),
    {
        proof {
            use_type_invariant(self);
        }
        self.offset
    }

    /// The descriptor of the block at this offset, once its length has been looked up.
    pub fn with_length(&self, length: u64) -> (r: MemoryHandle)
        ensures
            r == (MemoryHandle { offset: self.raw(), length }),
            is_valid_offset(r.offset),
    {
        proof {
            use_type_invariant(self);
        }
        MemoryHandle { offset: self.offset, length }
    }
}

} // verus!
