//! Content digests: BLAKE3 hashes, their hex form and the vector-index keys
//! derived from them.

use vstd::prelude::*;
use vstd::string::*;

verus! {

/// The 32-byte BLAKE3 digest of `data`, as `blake3::hash` computes it.
pub uninterp spec fn blake3_digest(data: Seq<u8>) -> Seq<u8>;

/// `blake3::hash`, taken as its raw 32 bytes (`Hash::as_bytes`). The
/// contract ties the bytes to the input through `blake3_digest` and says
/// nothing more of their value.
#[verifier::external_body]
fn blake3_hash_bytes(data: &[u8]) -> (res: [u8; 32])
    ensures
        res@ == blake3_digest(data@),
{
    *blake3::hash(data).as_bytes()
}

/// The unsigned little-endian value of the first `n` bytes of `b`.
pub open spec fn le_value(b: Seq<u8>, n: nat) -> int
    decreases n,
{
    if n == 0 {
        0
    } else {
        le_value(b, (n - 1) as nat) + (b[n - 1] as int) * pow256((n - 1) as nat)
    }
}

pub open spec fn pow256(n: nat) -> int
    decreases n,
{
    if n == 0 {
        1
    } else {
        256 * pow256((n - 1) as nat)
    }
}

/// The two's-complement value of the first eight bytes of `b`, little-endian.
pub open spec fn le_i64(b: Seq<u8>) -> int {
    let u = le_value(b, 8);
    if u >= 0x8000_0000_0000_0000 {
        u - 0x1_0000_0000_0000_0000
    } else {
        u
    }
}

/// Lowercase hex digit of a nibble.
pub open spec fn hex_digit(n: int) -> char {
    if n < 10 {
        (('0' as int) + n) as char
    } else {
        (('a' as int) + n - 10) as char
    }
}

/// Lowercase hexadecimal encoding, two digits per byte, high nibble first
/// (`blake3::Hash::to_hex`).
pub open spec fn hex_lower(b: Seq<u8>) -> Seq<char>
    decreases b.len(),
{
    if b.len() == 0 {
        Seq::empty()
    } else {
        hex_lower(b.drop_last()).push(hex_digit(b.last() as int / 16)).push(
            hex_digit(b.last() as int % 16),
        )
    }
}

fn hex_digit_exec(n: u8) -> (c: char)
    requires
        n < 16,
    ensures
        c == hex_digit(n as int),
{
    if n < 10 {
        ((48u8 + n) as char)
    } else {
        ((87u8 + n) as char)
    }
}

/// Lowercase hexadecimal encoding of a byte string.
pub fn to_hex(b: &[u8]) -> (res: String)
    ensures
        res@ == hex_lower(b@),
{
    let mut res = String::new();
    let mut i: usize = 0;
    while i < b.len()
        invariant
            i <= b.len(),
            res@ == hex_lower(b@.take(i as int)),
        decreases b.len() - i,
    {
        let byte = b[i];
        crate::text::push_char(&mut res, hex_digit_exec(byte / 16));
        crate::text::push_char(&mut res, hex_digit_exec(byte % 16));
        i += 1;
        assert(b@.take(i as int).drop_last() == b@.take(i - 1));
    }
    assert(b@.take(b.len() as int) == b@);
    res
}

/// The unsigned value of a prefix is below the next power of 256.
proof fn lemma_le_value_bound(b: Seq<u8>, n: nat)
    requires
        n <= b.len(),
    ensures
        0 <= le_value(b, n) < pow256(n),
    decreases n,
{
    if n > 0 {
        lemma_le_value_bound(b, (n - 1) as nat);
        let p = pow256((n - 1) as nat);
        let x = b[n - 1] as int;
        assert(x * p <= 255 * p) by (nonlinear_arith)
            requires
                0 <= x <= 255,
                p >= 0,
        ;
        assert(x * p >= 0) by (nonlinear_arith)
            requires
                0 <= x,
                p >= 0,
        ;
    }
}

proof fn lemma_pow256_positive(n: nat)
    ensures
        pow256(n) >= 1,
    decreases n,
{
    if n > 0 {
        lemma_pow256_positive((n - 1) as nat);
    }
}

/// The little-endian `i64` read from the first eight bytes of a digest
/// (two's complement, as `i64::from_le_bytes` reads them).
pub fn hash_to_i64(hash: &[u8; 32]) -> (res: i64)
    ensures
        res == le_i64(hash@),
{
    let ghost b = hash@;
    assert(pow256(8) == 0x1_0000_0000_0000_0000) by {
        reveal_with_fuel(pow256, 9);
    }
    assert(pow256(7) == 0x100_0000_0000_0000) by {
        reveal_with_fuel(pow256, 8);
    }
    let mut u: u64 = 0;
    let mut p: u64 = 1;
    let mut i: usize = 0;
    while i < 8
        invariant
            i <= 8,
            b == hash@,
            b.len() == 32,
            u == le_value(b, i as nat),
            i < 8 ==> p == pow256(i as nat),
            pow256(7) == 0x100_0000_0000_0000,
            pow256(8) == 0x1_0000_0000_0000_0000,
        decreases 8 - i,
    {
        proof {
            lemma_le_value_bound(b, (i + 1) as nat);
            lemma_pow256_positive(i as nat);
        }
        let x = hash[i] as u64;
        proof {
            assert(le_value(b, (i + 1) as nat) == le_value(b, i as nat) + (x as int) * (p as int));
            if i < 7 {
                lemma_pow256_grows(i as nat, 7);
            }
        }
        u = u + x * p;
        if i < 7 {
            proof {
                lemma_pow256_grows((i + 1) as nat, 7);
            }
            p = p * 256;
        }
        i += 1;
    }
    proof {
        lemma_le_value_bound(b, 8);
    }
    if u >= 0x8000_0000_0000_0000 {
        let v = u - 0x8000_0000_0000_0000;
        (v as i64) + i64::MIN
    } else {
        u as i64
    }
}

proof fn lemma_pow256_grows(a: nat, b: nat)
    requires
        a <= b,
    ensures
        pow256(a) <= pow256(b),
    decreases b - a,
{
    if a < b {
        lemma_pow256_grows(a, (b - 1) as nat);
        lemma_pow256_positive((b - 1) as nat);
    }
}

/// The vector-index key of an entity: the first eight bytes of the BLAKE3
/// digest of its id, read little-endian.
pub fn entity_id_to_usearch_key(entity_id: &str) -> (res: i64)
    ensures
        res == le_i64(blake3_digest(entity_id.spec_bytes())),
{
    let digest = blake3_hash_bytes(entity_id.as_bytes());
    hash_to_i64(&digest)
}

/// The hex BLAKE3 digest of some bytes.
pub fn hex_digest(data: &[u8]) -> (res: String)
    ensures
        res@ == hex_lower(blake3_digest(data@)),
{
    let digest = blake3_hash_bytes(data);
    to_hex(&digest)
}

/// The hash recorded for a file's content: `blake3:` followed by the hex
/// digest of its UTF-8 bytes.
pub fn content_hash(content: &str) -> (res: String)
    ensures
        res@ == "blake3:"@ + hex_lower(blake3_digest(content.spec_bytes())),
{
    let mut res = crate::text::owned("blake3:");
    let hex = hex_digest(content.as_bytes());
    crate::text::push_str(&mut res, hex.as_str());
    res
}

} // verus!
