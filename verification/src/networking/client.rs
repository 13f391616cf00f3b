//! Client identity.

use vstd::prelude::*;

verus! {

/// The bits of a UUID that hold its version and its variant.
pub const VERSION_AND_VARIANT_MASK: u128 = 0x0000_0000_0000_f000_c000_0000_0000_0000;

/// What those bits hold in a random (version 4) UUID of the RFC variant.
pub const RANDOM_VERSION_AND_VARIANT: u128 = 0x0000_0000_0000_4000_8000_0000_0000_0000;

/// The identifier of one accepted connection: the 128 bits of its UUID,
/// most significant byte first.
#[derive(Clone, Copy, Debug, PartialEq, Eq, Hash, Structural)]
pub struct ClientId {
    pub uuid: u128,
}

impl ClientId {
    /// Whether the identifier has the shape of a random UUID: version 4,
    /// RFC variant.
    pub open spec fn is_random(self) -> bool {
        self.uuid & VERSION_AND_VARIANT_MASK == RANDOM_VERSION_AND_VARIANT
    }

    /// Mints the identifier of a newly accepted connection.
    pub fn new() -> (id: ClientId)
        ensures
            id.is_random(),
    {
        ClientId { uuid: random_uuid_bits() }
    }
}

/// Calls `uuid::Uuid::new_v4` and packs the result with `Uuid::as_u128`.
///
/// Trusted: the sixteen bytes come from the operating system's random
/// source, so nothing is claimed of them but the version and variant bits,
/// which `new_v4` sets itself. The call panics if the operating system
/// cannot supply random bytes.
#[verifier::external_body]
fn random_uuid_bits() -> (bits: u128)
    ensures
        bits & VERSION_AND_VARIANT_MASK == RANDOM_VERSION_AND_VARIANT,
{
    uuid::Uuid::new_v4().as_u128()
}

} // verus!
