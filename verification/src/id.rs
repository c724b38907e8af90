//! Escrow identifier derivation.
//!
//! An identifier is the Keccak-256 digest of a packed byte string:
//! the two principals normalized to 32-byte keys by SHA-256, then the
//! amount, the hashlock, the deadline and the creation instant, each in
//! a fixed-width big-endian encoding. The packing is injective, so two
//! parameter sets produce the same identifier only if the digest itself
//! collides; in particular a re-creation at a different instant always
//! has a different digest preimage.

use vstd::prelude::*;
use crate::digest::{keccak256_digest, keccak256_of, sha256_digest, sha256_of};
use crate::encode::{
    be_bytes, lemma_be_bytes_injective, lemma_be_bytes_len, lemma_concat_parts, pow256,
    push_all, to_be_bytes_fixed,
};
use crate::principal::Principal;

verus! {

/// The packed preimage of the identifier digest. `sender_key` and
/// `receiver_key` are the 32-byte normalized principal keys.
pub open spec fn pack_id_fields(
    sender_key: Seq<u8>,
    receiver_key: Seq<u8>,
    amount: i128,
    hashlock: Seq<u8>,
    timelock: u64,
    timestamp: u64,
) -> Seq<u8> {
    sender_key + receiver_key + be_bytes(amount as u128 as nat, 16) + hashlock + be_bytes(
        timelock as nat,
        8,
    ) + be_bytes(timestamp as nat, 8)
}

/// The identifier of an escrow with these parameters.
pub open spec fn derive_id(
    sender: Seq<u8>,
    receiver: Seq<u8>,
    amount: i128,
    hashlock: Seq<u8>,
    timelock: u64,
    timestamp: u64,
) -> Seq<u8> {
    keccak256_of(
        pack_id_fields(
            sha256_of(sender),
            sha256_of(receiver),
            amount,
            hashlock,
            timelock,
            timestamp,
        ),
    )
}

/// Normalizes a principal to a fixed 32-byte key, so the identifier
/// scheme is independent of the length of native encodings.
pub fn address_to_bytes32(address: &Principal) -> (r: Vec<u8>)
    ensures
        r@ == sha256_of(address@),
        r@.len() == 32,
{
    sha256_digest(address.as_bytes())
}

/// Computes the identifier of an escrow with these parameters.
pub fn generate_contract_id(
    sender: &Principal,
    receiver: &Principal,
    amount: i128,
    hashlock: &Vec<u8>,
    timelock: u64,
    timestamp: u64,
) -> (r: Vec<u8>)
    ensures
        r@ == derive_id(sender@, receiver@, amount, hashlock@, timelock, timestamp),
        r@.len() == 32,
{
    let sender_bytes = address_to_bytes32(sender);
    let receiver_bytes = address_to_bytes32(receiver);
    let mut packed: Vec<u8> = Vec::new();
    push_all(&mut packed, &sender_bytes);
    push_all(&mut packed, &receiver_bytes);
    let amount_be = to_be_bytes_fixed(amount as u128, 16);
    push_all(&mut packed, &amount_be);
    push_all(&mut packed, hashlock);
    let timelock_be = to_be_bytes_fixed(timelock as u128, 8);
    push_all(&mut packed, &timelock_be);
    let timestamp_be = to_be_bytes_fixed(timestamp as u128, 8);
    push_all(&mut packed, &timestamp_be);
    assert(packed@ == pack_id_fields(
        sender_bytes@,
        receiver_bytes@,
        amount,
        hashlock@,
        timelock,
        timestamp,
    ));
    keccak256_digest(&packed)
}

proof fn lemma_pow256_values()
    ensures
        pow256(8) == 0x1_0000_0000_0000_0000,
        pow256(16) == 0x1_0000_0000_0000_0000_0000_0000_0000_0000,
{
    assert(pow256(0) == 1);
    assert(pow256(1) == 0x100);
    assert(pow256(2) == 0x1_0000);
    assert(pow256(3) == 0x100_0000);
    assert(pow256(4) == 0x1_0000_0000);
    assert(pow256(5) == 0x100_0000_0000);
    assert(pow256(6) == 0x1_0000_0000_0000);
    assert(pow256(7) == 0x100_0000_0000_0000);
    assert(pow256(8) == 0x1_0000_0000_0000_0000);
    assert(pow256(9) == 0x100_0000_0000_0000_0000);
    assert(pow256(10) == 0x1_0000_0000_0000_0000_0000);
    assert(pow256(11) == 0x100_0000_0000_0000_0000_0000);
    assert(pow256(12) == 0x1_0000_0000_0000_0000_0000_0000);
    assert(pow256(13) == 0x100_0000_0000_0000_0000_0000_0000);
    assert(pow256(14) == 0x1_0000_0000_0000_0000_0000_0000_0000);
    assert(pow256(15) == 0x100_0000_0000_0000_0000_0000_0000_0000);
    assert(pow256(16) == 0x1_0000_0000_0000_0000_0000_0000_0000_0000);
}

/// The packing is injective: equal packed strings with well-formed
/// field widths come from equal fields. Identifiers therefore collide
/// only where Keccak-256 itself collides.
pub proof fn lemma_pack_id_fields_injective(
    sk1: Seq<u8>,
    rk1: Seq<u8>,
    a1: i128,
    h1: Seq<u8>,
    t1: u64,
    c1: u64,
    sk2: Seq<u8>,
    rk2: Seq<u8>,
    a2: i128,
    h2: Seq<u8>,
    t2: u64,
    c2: u64,
)
    requires
        sk1.len() == 32,
        rk1.len() == 32,
        h1.len() == 32,
        sk2.len() == 32,
        rk2.len() == 32,
        h2.len() == 32,
        pack_id_fields(sk1, rk1, a1, h1, t1, c1) == pack_id_fields(sk2, rk2, a2, h2, t2, c2),
    ensures
        sk1 == sk2,
        rk1 == rk2,
        a1 == a2,
        h1 == h2,
        t1 == t2,
        c1 == c2,
{
    lemma_pow256_values();
    let am1 = be_bytes(a1 as u128 as nat, 16);
    let am2 = be_bytes(a2 as u128 as nat, 16);
    let tl1 = be_bytes(t1 as nat, 8);
    let tl2 = be_bytes(t2 as nat, 8);
    let ts1 = be_bytes(c1 as nat, 8);
    let ts2 = be_bytes(c2 as nat, 8);
    lemma_be_bytes_len(a1 as u128 as nat, 16);
    lemma_be_bytes_len(a2 as u128 as nat, 16);
    lemma_be_bytes_len(t1 as nat, 8);
    lemma_be_bytes_len(t2 as nat, 8);
    lemma_be_bytes_len(c1 as nat, 8);
    lemma_be_bytes_len(c2 as nat, 8);
    lemma_concat_parts(
        sk1 + rk1 + am1 + h1 + tl1,
        ts1,
        sk2 + rk2 + am2 + h2 + tl2,
        ts2,
    );
    lemma_concat_parts(sk1 + rk1 + am1 + h1, tl1, sk2 + rk2 + am2 + h2, tl2);
    lemma_concat_parts(sk1 + rk1 + am1, h1, sk2 + rk2 + am2, h2);
    lemma_concat_parts(sk1 + rk1, am1, sk2 + rk2, am2);
    lemma_concat_parts(sk1, rk1, sk2, rk2);
    lemma_be_bytes_injective(c1 as nat, c2 as nat, 8);
    lemma_be_bytes_injective(t1 as nat, t2 as nat, 8);
    lemma_be_bytes_injective(a1 as u128 as nat, a2 as u128 as nat, 16);
    assert(a1 as u128 == a2 as u128);
    assert(a1 == a2) by (bit_vector)
        requires
            a1 as u128 == a2 as u128,
    ;
}

/// A creation at a different instant, all other parameters equal or
/// not, never repeats an identifier digest preimage.
pub proof fn lemma_distinct_instant_distinct_preimage(
    sk1: Seq<u8>,
    rk1: Seq<u8>,
    a1: i128,
    h1: Seq<u8>,
    t1: u64,
    c1: u64,
    sk2: Seq<u8>,
    rk2: Seq<u8>,
    a2: i128,
    h2: Seq<u8>,
    t2: u64,
    c2: u64,
)
    requires
        sk1.len() == 32,
        rk1.len() == 32,
        h1.len() == 32,
        sk2.len() == 32,
        rk2.len() == 32,
        h2.len() == 32,
        c1 != c2,
    ensures
        pack_id_fields(sk1, rk1, a1, h1, t1, c1) != pack_id_fields(sk2, rk2, a2, h2, t2, c2),
{
    if pack_id_fields(sk1, rk1, a1, h1, t1, c1) == pack_id_fields(sk2, rk2, a2, h2, t2, c2) {
        lemma_pack_id_fields_injective(
            sk1,
            rk1,
            a1,
            h1,
            t1,
            c1,
            sk2,
            rk2,
            a2,
            h2,
            t2,
            c2,
        );
    }
}

} // verus!
