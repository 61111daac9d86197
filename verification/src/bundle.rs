//! Prekey-bundle data model for the hybrid key-agreement boundary.
//!
//! The bundles carry base64-encoded key material between the device and
//! the key-distribution service. Producing the keys (classical and
//! post-quantum) and serialising the bundles is the platform layer's
//! work; the core only fixes the shape of the records.

use vstd::prelude::*;

verus! {

/// The public half of a freshly generated prekey set.
#[derive(Debug, Clone)]
pub struct PrekeyBundle {
    pub identity_key: String,
    pub identity_key_kyber: String,
    pub signed_prekey: String,
    pub signed_prekey_kyber: String,
    pub one_time_prekey: String,
    pub one_time_prekey_kyber: String,
}

/// The secret half, kept on the device.
#[derive(Debug, Clone)]
pub struct PrekeySecretBundle {
    pub identity_key_secret: String,
    pub identity_key_kyber_secret: String,
    pub signed_prekey_secret: String,
    pub signed_prekey_kyber_secret: String,
}

/// Both halves of a prekey set, as generated together.
#[derive(Debug, Clone)]
pub struct BundleContainer {
    pub public_bundle: PrekeyBundle,
    pub secret_bundle: PrekeySecretBundle,
}

} // verus!
