use vstd::prelude::*;

verus! {

/// The unit relayed by this crate: an opaque encrypted proof addressed to one
/// authority, together with the ephemeral key material its recipient needs.
#[derive(Clone, Debug, PartialEq, Eq)]
pub struct ProofMessage {
    /// Identifier of the intended recipient.
    pub authority_id: u64,
    /// Fixed 32-byte per-message ephemeral key.
    pub ephemeral_key: Vec<u8>,
    /// Variable-length opaque encrypted proof body.
    pub encrypted_payload: Vec<u8>,
}

/// Mathematical model of a [`ProofMessage`].
#[verifier::ext_equal]
pub struct ProofMessageView {
    pub authority_id: u64,
    pub ephemeral_key: Seq<u8>,
    pub encrypted_payload: Seq<u8>,
}

impl View for ProofMessage {
    type V = ProofMessageView;

    open spec fn view(&self) -> ProofMessageView {
        ProofMessageView {
            authority_id: self.authority_id,
            ephemeral_key: self.ephemeral_key@,
            encrypted_payload: self.encrypted_payload@,
        }
    }
}

impl ProofMessageView {
    /// A message is well formed when its key has the fixed 32-byte width and
    /// its payload length fits the wire format's 32-bit length field.
    pub open spec fn wf(self) -> bool {
        &&& self.ephemeral_key.len() == 32
        &&& self.encrypted_payload.len() <= u32::MAX
    }
}

impl ProofMessage {
    /// Runtime counterpart of [`ProofMessageView::wf`], for callers outside
    /// the verified world.
    pub fn is_well_formed(&self) -> (b: bool)
        ensures
            b == self@.wf(),
    {
        self.ephemeral_key.len() == 32 && self.encrypted_payload.len() <= u32::MAX as usize
    }
}

} // verus!
