//! Deterministic MAC addresses for a VM's two NICs.

use vstd::prelude::*;
use std::hash::{Hash, Hasher};

verus! {

/// The 64-bit hash that std's `DefaultHasher`, created by `DefaultHasher::new`,
/// gives a string.
pub uninterp spec fn default_str_hash(s: Seq<char>) -> u64;

/// Hashes `s` with a fresh `std::collections::hash_map::DefaultHasher`
/// (`DefaultHasher::new`, `Hash::hash`, `Hasher::finish`). Claimed: the result
/// is a function of the string alone, which std documents for hashers built by
/// `new` within one build of the program.
#[verifier::external_body]
fn hash_str(s: &str) -> (h: u64)
    ensures
        h == default_str_hash(s@),
{
    let mut hasher = std::collections::hash_map::DefaultHasher::new();
    s.hash(&mut hasher);
    hasher.finish()
}

/// The MAC address for NIC `nic` of a VM whose id hashes to `hash`: a locally
/// administered unicast prefix `52:54`, four bytes of the hash, and the NIC
/// index xored into the last byte.
pub open spec fn mac_for(hash: u64, nic: u8) -> Seq<u8> {
    seq![
        0x52u8,
        0x54u8,
        ((hash as int / 0x1_0000_0000) % 256) as u8,
        ((hash as int / 0x10000) % 256) as u8,
        ((hash as int / 0x100) % 256) as u8,
        ((hash as int % 256) as u8) ^ nic,
    ]
}

/// The MAC address of NIC `nic_index` of VM `vm_id`.
pub fn generate_mac(vm_id: &str, nic_index: u8) -> (mac: [u8; 6])
    ensures
        mac@ == mac_for(default_str_hash(vm_id@), nic_index),
{
    let hash = hash_str(vm_id);
    mac_from_hash(hash, nic_index)
}

/// The MAC address of NIC `nic_index` for a VM id with hash `hash`.
pub fn mac_from_hash(hash: u64, nic_index: u8) -> (mac: [u8; 6])
    ensures
        mac@ == mac_for(hash, nic_index),
{
    let mac: [u8; 6] = [
        0x52,
        0x54,
        ((hash / 0x1_0000_0000) % 256) as u8,
        ((hash / 0x10000) % 256) as u8,
        ((hash / 0x100) % 256) as u8,
        ((hash % 256) as u8) ^ nic_index,
    ];
    assert(mac@ =~= mac_for(hash, nic_index));
    mac
}

/// The two NICs of one VM never share a MAC address, and both addresses are
/// locally administered unicast ones.
pub proof fn lemma_nic_macs_distinct(hash: u64)
    ensures
        mac_for(hash, 0) != mac_for(hash, 1),
        mac_for(hash, 0)[0] & 3 == 2,
        mac_for(hash, 1)[0] & 3 == 2,
{
    let b = (hash as int % 256) as u8;
    assert(b ^ 0u8 != b ^ 1u8) by (bit_vector);
    assert(mac_for(hash, 0)[5] != mac_for(hash, 1)[5]);
    assert(0x52u8 & 3u8 == 2u8) by (bit_vector);
}

} // verus!
