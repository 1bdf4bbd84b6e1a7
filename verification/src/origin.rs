//! Origin converter: maps a remote sender's declared identity to a local
//! execution authority.
//!
//! Exactly one conversion rule exists: the Kawabunga parachain, asserting
//! superuser authority, becomes the local root origin. Every other
//! combination is handed back unchanged, so further converters could be tried
//! in order; this bridge deliberately recognizes a single trusted principal.

use vstd::prelude::*;

use crate::location::{location_eq, Location, LocationView};
use crate::program::OriginKind;

verus! {

/// The local execution authority a conversion yields.
#[derive(Clone, Copy, Debug, PartialEq, Eq, Structural)]
pub enum LocalOrigin {
    /// The administrative (root) origin of the local chain.
    Root,
}

/// Converter from the Kawabunga parachain's identity to the local root.
pub struct KawabungaParachainAsRoot;

impl KawabungaParachainAsRoot {
    /// Holds when `(origin, kind)` is the one combination this converter
    /// accepts: the trusted location asserting superuser authority.
    pub open spec fn spec_converts(origin: LocationView, kind: OriginKind, trusted: LocationView) -> bool {
        kind == OriginKind::Superuser && origin == trusted
    }

    /// Returns the local root origin if and only if `origin` equals the
    /// trusted remote location and `kind` is superuser; any other combination
    /// returns the unmodified location, never a silent default origin.
    pub fn convert_origin(origin: Location, kind: OriginKind, trusted: &Location) -> (r: Result<
        LocalOrigin,
        Location,
    >)
        ensures
            Self::spec_converts(origin@, kind, trusted@) ==> r == Ok::<LocalOrigin, Location>(
                LocalOrigin::Root,
            ),
            !Self::spec_converts(origin@, kind, trusted@) ==> r == Err::<LocalOrigin, Location>(
                origin,
            ),
    {
        let superuser = match kind {
            OriginKind::Superuser => true,
            _ => false,
        };
        if superuser && location_eq(&origin, trusted) {
            Ok(LocalOrigin::Root)
        } else {
            Err(origin)
        }
    }
}

} // verus!
