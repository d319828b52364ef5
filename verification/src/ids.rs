//! Names for the buffers and blocks of an editor.

use vstd::prelude::*;

verus! {

/// The number of a buffer. No buffer has the number zero.
#[derive(Clone, Copy, Debug, PartialEq, Eq, Structural, Hash)]
pub struct BufferId {
    id: u64,
}

impl View for BufferId {
    type V = u64;

    closed spec fn view(&self) -> u64 {
        self.id
    }
}

impl BufferId {
    #[verifier::type_invariant]
    spec fn is_not_zero(self) -> bool {
        self.id != 0
    }

    /// The buffer with the given number; `None` for zero.
    pub fn new(id: u64) -> (res: Option<BufferId>)
        ensures
            res is Some <==> id != 0,
            res matches Some(buffer_id) ==> buffer_id@ == id,
    {
        if id == 0 {
            None
        } else {
            Some(BufferId { id })
        }
    }

    /// The number of the buffer.
    pub fn to_u64(&self) -> (res: u64)
        ensures
            res == self@,
            res != 0,
    {
        proof {
            use_type_invariant(self);
        }
        self.id
    }
}

/// Two buffers with the same number are the same buffer.
pub proof fn law_buffer_number_identifies(a: BufferId, b: BufferId)
    ensures
        a@ == b@ <==> a == b,
{
}

/// The number of a block that stands between the lines of an editor.
#[derive(Clone, Copy, Debug, PartialEq, Eq, Structural, Hash)]
pub struct CustomBlockId(pub usize);

} // verus!
