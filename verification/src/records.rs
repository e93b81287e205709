//! The directory records the repository hands the core: omikrons, iotas
//! and users as stored in the persistent directory.

use vstd::prelude::*;

verus! {

/// A registered relay node: its id, long-term public key (base64) and
/// reachable address.
#[derive(Clone, Debug)]
pub struct OmikronRecord {
    pub id: i64,
    pub public_key: String,
    pub ip_address: String,
}

/// A registered home-server instance.
#[derive(Clone, Debug)]
pub struct IotaRecord {
    pub id: i64,
    pub public_key: String,
}

/// A registered end user.
#[derive(Clone, Debug)]
pub struct UserRecord {
    pub id: i64,
    pub iota_id: i64,
    pub username: String,
    pub display: Option<String>,
    pub status: Option<String>,
    pub about: Option<String>,
    /// Avatar bytes, base64-encoded.
    pub avatar: Option<String>,
    pub sub_level: i32,
    pub sub_end: i64,
    pub public_key: String,
    pub private_key_hash: String,
    pub reset_token: String,
}

} // verus!
