//! Structural model of locations in the universe of consensus systems.
//!
//! A universal destination is a sequence of junctions whose first segment must
//! name a global consensus network; a relative location adds a number of
//! parent hops. Only the junction shapes that the bridge inspects are modelled
//! here; anything else is rejected by the codec.

use vstd::prelude::*;

verus! {

broadcast use vstd::array::group_array_axioms;

/// Identity of a global consensus network.
#[derive(Clone, Copy, Debug, PartialEq, Eq)]
pub enum NetworkId {
    /// A network identified by the hash of its genesis block.
    ByGenesis([u8; 32]),
    /// The Polkadot relay chain network.
    Polkadot,
    /// The Kusama relay chain network.
    Kusama,
}

/// One segment of a location path.
#[derive(Clone, Copy, Debug, PartialEq, Eq)]
pub enum Junction {
    /// An indexed parachain of the surrounding consensus system.
    Parachain(u32),
    /// A global network able to externalize its own consensus.
    GlobalConsensus(NetworkId),
}

/// The interior part of a location: an ordered path of junctions.
#[derive(Clone, Debug, PartialEq, Eq)]
pub struct InteriorLocation {
    pub junctions: Vec<Junction>,
}

impl View for InteriorLocation {
    type V = Seq<Junction>;

    open spec fn view(&self) -> Seq<Junction> {
        self.junctions@
    }
}

impl InteriorLocation {
    /// An interior path can carry at most eight junctions on the wire.
    pub open spec fn wf(&self) -> bool {
        self@.len() <= 8
    }

    /// The global network this path resolves to, when its first segment is a
    /// global consensus marker.
    pub open spec fn spec_global_consensus(&self) -> Option<NetworkId> {
        if self@.len() > 0 && self@[0] is GlobalConsensus {
            Some(self@[0]->GlobalConsensus_0)
        } else {
            None
        }
    }

    /// Returns the global network named by the first junction, or `None` when
    /// the path does not start at the global scope.
    pub fn global_consensus(&self) -> (r: Option<NetworkId>)
        ensures
            r == self.spec_global_consensus(),
    {
        if self.junctions.len() > 0 {
            match self.junctions[0] {
                Junction::GlobalConsensus(n) => Some(n),
                _ => None,
            }
        } else {
            None
        }
    }
}

/// A location relative to the local consensus system.
#[derive(Clone, Debug, PartialEq, Eq)]
pub struct Location {
    /// Number of parent hops before the interior path is followed.
    pub parents: u8,
    /// The interior path after the parent hops.
    pub interior: InteriorLocation,
}

/// Mathematical value of a [`Location`].
#[verifier::ext_equal]
pub ghost struct LocationView {
    pub parents: u8,
    pub interior: Seq<Junction>,
}

impl View for Location {
    type V = LocationView;

    open spec fn view(&self) -> LocationView {
        LocationView { parents: self.parents, interior: self.interior@ }
    }
}

impl Location {
    pub open spec fn wf(&self) -> bool {
        self.interior.wf()
    }
}

/// Compares two byte arrays.
pub fn bytes32_eq(a: &[u8; 32], b: &[u8; 32]) -> (r: bool)
    ensures
        r == (a@ == b@),
{
    let mut i: usize = 0;
    while i < 32
        invariant
            i <= 32,
            forall|k: int| 0 <= k < i ==> a@[k] == b@[k],
        decreases 32 - i,
    {
        if a[i] != b[i] {
            assert(a@ != b@);
            return false;
        }
        i += 1;
    }
    assert(a@ =~= b@);
    true
}

/// Compares two network identities.
pub fn network_eq(a: &NetworkId, b: &NetworkId) -> (r: bool)
    ensures
        r == (a == b),
{
    match (a, b) {
        (NetworkId::ByGenesis(g1), NetworkId::ByGenesis(g2)) => {
            let r = bytes32_eq(g1, g2);
            proof {
                if r {
                    assert(g1 =~= g2);
                }
            }
            r
        },
        (NetworkId::Polkadot, NetworkId::Polkadot) => true,
        (NetworkId::Kusama, NetworkId::Kusama) => true,
        _ => false,
    }
}

/// Compares two junctions.
pub fn junction_eq(a: &Junction, b: &Junction) -> (r: bool)
    ensures
        r == (a == b),
{
    match (a, b) {
        (Junction::Parachain(p1), Junction::Parachain(p2)) => p1 == p2,
        (Junction::GlobalConsensus(n1), Junction::GlobalConsensus(n2)) => network_eq(n1, n2),
        _ => false,
    }
}

/// Compares two interior paths.
pub fn interior_eq(a: &InteriorLocation, b: &InteriorLocation) -> (r: bool)
    ensures
        r == (a@ == b@),
{
    if a.junctions.len() != b.junctions.len() {
        assert(a@ != b@);
        return false;
    }
    let mut i: usize = 0;
    while i < a.junctions.len()
        invariant
            i <= a@.len(),
            a@.len() == b@.len(),
            forall|k: int| 0 <= k < i ==> a@[k] == b@[k],
        decreases a@.len() - i,
    {
        if !junction_eq(&a.junctions[i], &b.junctions[i]) {
            assert(a@ != b@);
            return false;
        }
        i += 1;
    }
    assert(a@ =~= b@);
    true
}

/// Compares two locations.
pub fn location_eq(a: &Location, b: &Location) -> (r: bool)
    ensures
        r == (a@ == b@),
{
    let r = a.parents == b.parents && interior_eq(&a.interior, &b.interior);
    if r {
        assert(a@ =~= b@);
    }
    r
}

/// Parachain index of the Kawabunga chain, the one trusted remote principal.
pub const KAWABUNGA_PARACHAIN_ID: u32 = 42;

/// The genesis hash byte that identifies the local network.
pub const LOCAL_GENESIS_BYTE: u8 = 42;

/// The genesis hash identifying the local network: one byte repeated.
pub open spec fn spec_local_genesis() -> Seq<u8> {
    Seq::new(32, |i: int| LOCAL_GENESIS_BYTE)
}

/// Holds when `n` is the local network's own identity.
pub open spec fn is_local_network(n: NetworkId) -> bool {
    n is ByGenesis && n->ByGenesis_0@ == spec_local_genesis()
}

/// The local network's own identity.
pub fn this_network() -> (r: NetworkId)
    ensures
        is_local_network(r),
{
    let genesis = [LOCAL_GENESIS_BYTE; 32];
    proof {
        assert(genesis@ =~= spec_local_genesis());
    }
    NetworkId::ByGenesis(genesis)
}

/// Location of the Kawabunga parachain, relative to the local chain.
pub fn kawabunga_location() -> (r: Location)
    ensures
        r@.parents == 1,
        r@.interior =~= seq![
            Junction::GlobalConsensus(NetworkId::Polkadot),
            Junction::Parachain(KAWABUNGA_PARACHAIN_ID),
        ],
        r.wf(),
{
    let mut junctions: Vec<Junction> = Vec::new();
    junctions.push(Junction::GlobalConsensus(NetworkId::Polkadot));
    junctions.push(Junction::Parachain(KAWABUNGA_PARACHAIN_ID));
    Location { parents: 1, interior: InteriorLocation { junctions } }
}

/// The local chain's own place in the universe: a single global consensus
/// junction naming the local network.
pub fn universal_location() -> (r: InteriorLocation)
    ensures
        r@.len() == 1,
        r@[0] is GlobalConsensus,
        is_local_network(r@[0]->GlobalConsensus_0),
        r.wf(),
{
    let mut junctions: Vec<Junction> = Vec::new();
    junctions.push(Junction::GlobalConsensus(this_network()));
    InteriorLocation { junctions }
}

} // verus!
