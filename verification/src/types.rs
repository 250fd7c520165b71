//! Data records of the registry that surrounds the verifier.
//!
//! These are inert, call-scoped values: the registry constructs a
//! canonical message from one of them and hands it, together with the
//! claimed identity's key and signature, to the verifier.

use vstd::prelude::*;

verus! {

/// A content listing announced by its creator.
#[derive(Debug)]
pub struct ContentListing {
    pub content_hash: String,
    pub encrypted_hash: String,
    pub file_name: String,
    pub size_bytes: u64,
    pub price_sats: u64,
    pub chunk_size: u64,
    pub chunk_count: u64,
    pub plaintext_root: String,
    pub encrypted_root: String,
    pub creator_pubkey: String,
    pub creator_address: String,
    pub creator_ln_address: String,
    pub creator_alias: String,
    pub registered_at: String,
    pub pre_c1_hex: String,
    pub pre_c2_hex: String,
    pub pre_pk_creator_hex: String,
    pub playback_policy: String,
    pub creator_signature: String,
}

/// The playback policy a listing gets when none is stated.
pub fn default_playback_policy() -> (r: String)
    ensures
        r@ == "open"@,
{
    "open".to_owned()
}

/// A seeder's announcement that it serves a listing.
#[derive(Debug)]
pub struct SeederAnnouncement {
    pub encrypted_hash: String,
    pub seeder_pubkey: String,
    pub seeder_address: String,
    pub seeder_ln_address: String,
    pub seeder_alias: String,
    pub transport_price: u64,
    pub chunk_count: u64,
    pub announced_at: String,
}

/// A registered device manufacturer.
#[derive(Debug)]
pub struct Manufacturer {
    pub pk_hex: String,
    pub name: String,
    pub description: String,
    pub website: String,
    pub registered_at: String,
}

/// Filters of a listing search.
#[derive(Debug)]
pub struct SearchParams {
    pub q: Option<String>,
    pub content_type: Option<String>,
    pub max_price: Option<u64>,
}

/// A listing together with the seeders that serve it.
#[derive(Debug)]
pub struct DiscoverResponse {
    pub listing: ContentListing,
    pub seeders: Vec<SeederAnnouncement>,
}

} // verus!
