//! Ethernet/IPv4/UDP framing and the IPv4 header checksum.

use vstd::prelude::*;
use vstd::arithmetic::div_mod::*;
use crate::bytes::{be16_bytes, push_u16_be, push_zeros, push_slice};

verus! {

/// The Ethernet broadcast address.
pub open spec fn broadcast_mac() -> Seq<u8> {
    seq![0xFFu8, 0xFF, 0xFF, 0xFF, 0xFF, 0xFF]
}

/// The limited IPv4 broadcast address.
pub open spec fn broadcast_ip() -> Seq<u8> {
    seq![255u8, 255, 255, 255]
}

/// Sum of the big-endian 16-bit words of `h` from offset `i`; a trailing odd
/// byte counts as the high byte of a word.
pub open spec fn word_sum_from(h: Seq<u8>, i: int) -> int
    decreases (if 0 <= i < h.len() { h.len() - i } else { 0 }),
{
    if i < 0 || i >= h.len() {
        0
    } else if i + 1 < h.len() {
        (h[i] as int) * 256 + (h[i + 1] as int) + word_sum_from(h, i + 2)
    } else {
        (h[i] as int) * 256 + word_sum_from(h, i + 2)
    }
}

/// Folds the carries of a sum back into its low 16 bits until none is left.
pub open spec fn fold16(s: int) -> int
    decreases s,
{
    if s < 0x10000 {
        s
    } else {
        proof {
            lemma_fold_step(s);
        }
        fold16(s % 0x10000 + s / 0x10000)
    }
}

/// The internet checksum of `h`: the one's complement of the folded word sum.
pub open spec fn ip_checksum_of(h: Seq<u8>) -> int {
    0xFFFF - fold16(word_sum_from(h, 0))
}

/// An IPv4 header (no options, TTL and identification zero) carrying UDP.
pub open spec fn ipv4_header(src_ip: Seq<u8>, dst_ip: Seq<u8>, payload_len: int, checksum: Seq<u8>) -> Seq<u8> {
    seq![0x45u8, 0] + be16_bytes(28 + payload_len) + seq![0u8, 0, 0, 0, 0, 17] + checksum + src_ip
        + dst_ip
}

/// A UDP header without checksum.
pub open spec fn udp_header(src_port: int, dst_port: int, payload_len: int) -> Seq<u8> {
    be16_bytes(src_port) + be16_bytes(dst_port) + be16_bytes(8 + payload_len) + seq![0u8, 0]
}

/// An Ethernet frame carrying an IPv4/UDP datagram, with the given IPv4
/// checksum bytes.
pub open spec fn udp_frame(
    dst_mac: Seq<u8>,
    src_mac: Seq<u8>,
    src_ip: Seq<u8>,
    dst_ip: Seq<u8>,
    src_port: int,
    dst_port: int,
    checksum: Seq<u8>,
    payload: Seq<u8>,
) -> Seq<u8> {
    dst_mac + src_mac + seq![8u8, 0] + ipv4_header(src_ip, dst_ip, payload.len() as int, checksum)
        + udp_header(src_port, dst_port, payload.len() as int) + payload
}

/// The frame with the IPv4 checksum field left zero.
pub open spec fn plain_udp_frame(
    dst_mac: Seq<u8>,
    src_mac: Seq<u8>,
    src_ip: Seq<u8>,
    dst_ip: Seq<u8>,
    src_port: int,
    dst_port: int,
    payload: Seq<u8>,
) -> Seq<u8> {
    udp_frame(dst_mac, src_mac, src_ip, dst_ip, src_port, dst_port, seq![0u8, 0], payload)
}

/// The frame with the IPv4 checksum of its header filled in.
pub open spec fn checksummed_udp_frame(
    dst_mac: Seq<u8>,
    src_mac: Seq<u8>,
    src_ip: Seq<u8>,
    dst_ip: Seq<u8>,
    src_port: int,
    dst_port: int,
    payload: Seq<u8>,
) -> Seq<u8> {
    udp_frame(
        dst_mac,
        src_mac,
        src_ip,
        dst_ip,
        src_port,
        dst_port,
        be16_bytes(ip_checksum_of(ipv4_header(src_ip, dst_ip, payload.len() as int, seq![0u8, 0]))),
        payload,
    )
}

pub proof fn lemma_fold_step(s: int)
    requires
        s >= 0x10000,
    ensures
        0 <= s % 0x10000 + s / 0x10000 < s,
{
    lemma_fundamental_div_mod(s, 0x10000);
    lemma_mod_pos_bound(s, 0x10000);
    assert(s / 0x10000 >= 1) by {
        lemma_div_is_ordered(0x10000, s, 0x10000);
    }
}

proof fn lemma_word_sum_bound(h: Seq<u8>, i: int)
    requires
        0 <= i,
    ensures
        0 <= word_sum_from(h, i) <= 65536 * (if i < h.len() { h.len() - i } else { 0 }),
    decreases (if 0 <= i < h.len() { h.len() - i } else { 0 }),
{
    if i < h.len() {
        lemma_word_sum_bound(h, i + 2);
    }
}

/// Replacing a zero word at an even offset `k` by `w` raises every word sum
/// that covers it by `w`.
proof fn lemma_word_sum_replace(h0: Seq<u8>, h1: Seq<u8>, k: int, i: int)
    requires
        h0.len() == h1.len(),
        0 <= k,
        k + 1 < h0.len(),
        k % 2 == 0,
        0 <= i,
        i % 2 == 0,
        h0[k] == 0,
        h0[k + 1] == 0,
        forall|j: int| 0 <= j < h0.len() && j != k && j != k + 1 ==> h0[j] == h1[j],
    ensures
        word_sum_from(h1, i) == word_sum_from(h0, i) + (if i <= k {
            (h1[k] as int) * 256 + (h1[k + 1] as int)
        } else {
            0
        }),
    decreases (if 0 <= i < h0.len() { h0.len() - i } else { 0 }),
{
    if i < h0.len() {
        lemma_word_sum_replace(h0, h1, k, i + 2);
        if i != k {
            assert(h0[i] == h1[i]);
            if i + 1 < h0.len() {
                assert(h0[i + 1] == h1[i + 1]);
            }
        }
    }
}

proof fn lemma_fold_congruent(s: int)
    requires
        s >= 0,
    ensures
        fold16(s) % 65535 == s % 65535,
        0 <= fold16(s) <= 65535,
        s > 0 ==> fold16(s) > 0,
    decreases s,
{
    if s >= 0x10000 {
        lemma_fold_step(s);
        let q = s / 0x10000;
        let r = s % 0x10000;
        lemma_fundamental_div_mod(s, 0x10000);
        assert(s == 65535 * q + (q + r));
        lemma_mod_multiples_vanish(q, q + r, 65535);
        assert(q >= 1) by {
            lemma_div_is_ordered(0x10000, s, 0x10000);
        }
        lemma_fold_congruent(q + r);
    }
}

/// The checksum of a header whose checksum field holds the checksum computed
/// over the same header with that field zero is itself zero: the receiver's
/// check of the IPv4 header succeeds.
pub proof fn lemma_checksum_verifies(h0: Seq<u8>, h1: Seq<u8>, k: int)
    requires
        h0.len() == h1.len(),
        0 <= k,
        k + 1 < h0.len(),
        k % 2 == 0,
        h0[k] == 0,
        h0[k + 1] == 0,
        h1[k] == (ip_checksum_of(h0) / 256) as u8,
        h1[k + 1] == (ip_checksum_of(h0) % 256) as u8,
        forall|j: int| 0 <= j < h0.len() && j != k && j != k + 1 ==> h0[j] == h1[j],
    ensures
        ip_checksum_of(h1) == 0,
{
    let s = word_sum_from(h0, 0);
    lemma_word_sum_bound(h0, 0);
    lemma_fold_congruent(s);
    let c = ip_checksum_of(h0);
    assert(0 <= c <= 65535);
    assert((h1[k] as int) * 256 + (h1[k + 1] as int) == c) by {
        lemma_fundamental_div_mod(c, 256);
        lemma_mod_pos_bound(c, 256);
        lemma_div_is_ordered(c, 65535, 256);
    }
    lemma_word_sum_replace(h0, h1, k, 0);
    let t = word_sum_from(h1, 0);
    assert(t == s + 65535 - fold16(s));
    assert(t > 0);
    assert(t % 65535 == 0) by {
        lemma_fundamental_div_mod(s, 65535);
        lemma_fundamental_div_mod(fold16(s), 65535);
        let a = s / 65535;
        let b = fold16(s) / 65535;
        assert(t == 65535 * (a - b + 1));
        lemma_mod_multiples_basic(a - b + 1, 65535);
    }
    lemma_fold_congruent(t);
    let f = fold16(t);
    assert(f == 65535) by {
        lemma_fundamental_div_mod(f, 65535);
        if f < 65535 {
            lemma_small_mod(f as nat, 65535);
        }
    }
}

/// The internet checksum of `header`, as the IPv4 header checksum field holds it.
pub fn ip_checksum(header: &[u8]) -> (c: u16)
    requires
        header@.len() <= isize::MAX,
        word_sum_from(header@, 0) <= u32::MAX,
    ensures
        c as int == ip_checksum_of(header@),
{
    let mut sum: u32 = 0;
    let mut i: usize = 0;
    proof {
        lemma_word_sum_bound(header@, 0);
    }
    while i < header.len()
        invariant
            header@.len() <= isize::MAX,
            i <= header@.len() + 1,
            0 <= word_sum_from(header@, 0) <= u32::MAX,
            sum + word_sum_from(header@, i as int) == word_sum_from(header@, 0),
        decreases header@.len() + 1 - i,
    {
        proof {
            lemma_word_sum_bound(header@, i as int + 2);
        }
        let word: u32 = if i + 1 < header.len() {
            (header[i] as u32) * 256 + (header[i + 1] as u32)
        } else {
            (header[i] as u32) * 256
        };
        sum = sum + word;
        i = i + 2;
    }
    proof {
        lemma_word_sum_bound(header@, i as int);
    }
    while sum >= 0x10000
        invariant
            fold16(sum as int) == fold16(word_sum_from(header@, 0)),
        decreases sum,
    {
        proof {
            lemma_fold_step(sum as int);
        }
        sum = (sum % 0x10000) + (sum / 0x10000);
    }
    0xFFFFu16 - (sum as u16)
}

/// Builds an Ethernet/IPv4/UDP frame around `payload`; the IPv4 header
/// checksum is filled in when `with_checksum` holds and left zero otherwise.
pub fn build_udp_frame(
    dst_mac: &[u8],
    src_mac: &[u8],
    src_ip: &[u8],
    dst_ip: &[u8],
    src_port: u16,
    dst_port: u16,
    payload: &[u8],
    with_checksum: bool,
) -> (pkt: Vec<u8>)
    requires
        dst_mac@.len() == 6,
        src_mac@.len() == 6,
        src_ip@.len() == 4,
        dst_ip@.len() == 4,
        payload@.len() + 28 <= 0xFFFF,
    ensures
        pkt@ == (if with_checksum {
            checksummed_udp_frame(
                dst_mac@,
                src_mac@,
                src_ip@,
                dst_ip@,
                src_port as int,
                dst_port as int,
                payload@,
            )
        } else {
            plain_udp_frame(
                dst_mac@,
                src_mac@,
                src_ip@,
                dst_ip@,
                src_port as int,
                dst_port as int,
                payload@,
            )
        }),
{
    let udp_len: u16 = (8 + payload.len()) as u16;
    let ip_len: u16 = 20 + udp_len;
    let mut hdr: Vec<u8> = Vec::new();
    hdr.push(0x45);
    hdr.push(0);
    push_u16_be(&mut hdr, ip_len);
    push_zeros(&mut hdr, 4);
    hdr.push(0);
    hdr.push(17);
    hdr.push(0);
    hdr.push(0);
    push_slice(&mut hdr, src_ip);
    push_slice(&mut hdr, dst_ip);
    let ghost zero_hdr = hdr@;
    assert(zero_hdr =~= ipv4_header(src_ip@, dst_ip@, payload@.len() as int, seq![0u8, 0]));
    if with_checksum {
        proof {
            lemma_word_sum_bound(hdr@, 0);
        }
        let c = ip_checksum(hdr.as_slice());
        hdr.set(10, (c / 256) as u8);
        hdr.set(11, (c % 256) as u8);
        assert(hdr@ =~= ipv4_header(
            src_ip@,
            dst_ip@,
            payload@.len() as int,
            be16_bytes(ip_checksum_of(zero_hdr)),
        ));
    }
    let mut pkt: Vec<u8> = Vec::new();
    push_slice(&mut pkt, dst_mac);
    push_slice(&mut pkt, src_mac);
    pkt.push(8);
    pkt.push(0);
    push_slice(&mut pkt, hdr.as_slice());
    push_u16_be(&mut pkt, src_port);
    push_u16_be(&mut pkt, dst_port);
    push_u16_be(&mut pkt, udp_len);
    pkt.push(0);
    pkt.push(0);
    push_slice(&mut pkt, payload);
    proof {
        let ck = if with_checksum {
            be16_bytes(ip_checksum_of(zero_hdr))
        } else {
            seq![0u8, 0]
        };
        assert(pkt@ =~= udp_frame(
            dst_mac@,
            src_mac@,
            src_ip@,
            dst_ip@,
            src_port as int,
            dst_port as int,
            ck,
            payload@,
        ));
    }
    pkt
}

/// Every frame built with its checksum filled in passes the receiver's IPv4
/// header check: the checksum over bytes 14..34 of the frame is zero.
pub proof fn lemma_checksummed_frame_verifies(
    dst_mac: Seq<u8>,
    src_mac: Seq<u8>,
    src_ip: Seq<u8>,
    dst_ip: Seq<u8>,
    src_port: int,
    dst_port: int,
    payload: Seq<u8>,
)
    requires
        dst_mac.len() == 6,
        src_mac.len() == 6,
        src_ip.len() == 4,
        dst_ip.len() == 4,
        payload.len() + 28 <= 0xFFFF,
    ensures
        ip_checksum_of(
            checksummed_udp_frame(dst_mac, src_mac, src_ip, dst_ip, src_port, dst_port, payload).subrange(
                14,
                34,
            ),
        ) == 0,
{
    let h0 = ipv4_header(src_ip, dst_ip, payload.len() as int, seq![0u8, 0]);
    let c = ip_checksum_of(h0);
    let h1 = ipv4_header(src_ip, dst_ip, payload.len() as int, be16_bytes(c));
    let f = checksummed_udp_frame(dst_mac, src_mac, src_ip, dst_ip, src_port, dst_port, payload);
    assert(f.subrange(14, 34) =~= h1);
    lemma_checksum_verifies(h0, h1, 10);
}

} // verus!
