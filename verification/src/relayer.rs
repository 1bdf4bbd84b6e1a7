//! Relayer admission gate: only submitters on the governance-maintained
//! allow-list may carry bridge-relay transactions.
//!
//! This list is independent of the admission policy's own allow-lists: one
//! gates who may relay proofs, the other gates whose programs may execute.

use vstd::prelude::*;

use crate::location::bytes32_eq;

verus! {

/// A local account identifier.
#[derive(Clone, Copy, Debug, PartialEq, Eq)]
pub struct AccountId {
    pub bytes: [u8; 32],
}

/// Rejection of a bridge-relay transaction submitter.
#[derive(Clone, Copy, Debug, PartialEq, Eq, Structural)]
pub enum RelayerError {
    /// The submitter is not a whitelisted relayer.
    BadSigner,
}

/// Holds when `who` is on the relayer allow-list.
pub open spec fn spec_whitelisted(list: Seq<AccountId>, who: AccountId) -> bool {
    exists|k: int| 0 <= k < list.len() && list[k].bytes@ == who.bytes@
}

/// Accepts `who` if and only if it is on the relayer allow-list.
pub fn ensure_whitelisted_relayer(who: &AccountId, whitelisted: &Vec<AccountId>) -> (r: Result<
    (),
    RelayerError,
>)
    ensures
        r is Ok <==> spec_whitelisted(whitelisted@, *who),
{
    let mut i: usize = 0;
    while i < whitelisted.len()
        invariant
            i <= whitelisted@.len(),
            forall|k: int| 0 <= k < i ==> (#[trigger] whitelisted@[k]).bytes@ != who.bytes@,
        decreases whitelisted@.len() - i,
    {
        if bytes32_eq(&whitelisted[i].bytes, &who.bytes) {
            return Ok(());
        }
        i += 1;
    }
    Err(RelayerError::BadSigner)
}

} // verus!
