//! The fixed-size message that threads exchange over endpoints.

use vstd::prelude::*;

verus! {

/// A message: a tag, four capability slots and six data words.
#[derive(Debug, Clone, Copy)]
pub struct IpcMessage {
    pub tag: u64,
    pub caps: [u64; 4],
    pub data: [u64; 6],
}

impl IpcMessage {
    /// Every word of the message is zero.
    pub open spec fn is_zeroed(&self) -> bool {
        &&& self.tag == 0
        &&& forall|i: int| 0 <= i < 4 ==> #[trigger] self.caps@[i] == 0
        &&& forall|i: int| 0 <= i < 6 ==> #[trigger] self.data@[i] == 0
    }

    /// The message whose words are all zero.
    pub fn empty() -> (r: Self)
        ensures
            r.is_zeroed(),
    {
        IpcMessage { tag: 0, caps: [0u64; 4], data: [0u64; 6] }
    }
}

} // verus!
