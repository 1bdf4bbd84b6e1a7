//! Destination resolver: checks that a decoded universal destination really
//! names the local network.

use vstd::prelude::*;

use crate::location::{network_eq, InteriorLocation, Junction, NetworkId};

verus! {

/// Why a destination does not resolve to the local network.
#[derive(Clone, Copy, Debug, PartialEq, Eq, Structural)]
pub enum ResolveError {
    /// The destination does not start at the global scope.
    NonUniversal,
    /// The destination's leading segment names another global network.
    WrongGlobal,
}

/// Holds when the first segment of `dest` is a global consensus marker.
pub open spec fn spec_universal(dest: Seq<Junction>) -> bool {
    dest.len() > 0 && dest[0] is GlobalConsensus
}

/// Holds when `dest` resolves to the network `local`.
pub open spec fn resolves_locally(dest: Seq<Junction>, local: NetworkId) -> bool {
    spec_universal(dest) && dest[0]->GlobalConsensus_0 == local
}

/// Accepts a universal destination exactly when its leading global-network
/// segment names `local`. Fails with `NonUniversal` when the destination does
/// not start at the global scope, and with `WrongGlobal` when its first
/// segment names a different network.
pub fn resolve(dest: &InteriorLocation, local: &NetworkId) -> (r: Result<(), ResolveError>)
    ensures
        r is Ok <==> resolves_locally(dest@, *local),
        r == Err::<(), ResolveError>(ResolveError::NonUniversal) <==> !spec_universal(dest@),
        r == Err::<(), ResolveError>(ResolveError::WrongGlobal) <==> (spec_universal(dest@)
            && dest@[0]->GlobalConsensus_0 != *local),
{
    match dest.global_consensus() {
        None => Err(ResolveError::NonUniversal),
        Some(network) => {
            if network_eq(&network, local) {
                Ok(())
            } else {
                Err(ResolveError::WrongGlobal)
            }
        },
    }
}

} // verus!
