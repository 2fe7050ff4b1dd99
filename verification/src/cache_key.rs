//! Content-addressed cache keys: the BLAKE3 digest of a vector's
//! little-endian byte representation, printed as 64 lowercase hexadecimal
//! digits.
//!
//! The vector arrives as the `u64` bit patterns of its double-precision
//! components; a component's bit pattern has exactly the bytes of the
//! component's little-endian representation. Serialization and hex printing
//! are verified; only the digest itself is trusted to BLAKE3.

use vstd::prelude::*;

use crate::vector_ops::VectorOperations;

verus! {

/// Byte `j` (little-endian, `0 <= j < 8`) of a component's bit pattern.
pub open spec fn u64_le_byte(x: u64, j: int) -> u8 {
    (x >> ((8 * j) as u64)) as u8
}

/// The little-endian byte representation of a whole vector.
pub open spec fn le_bytes_of(v: Seq<u64>) -> Seq<u8> {
    Seq::new(v.len() * 8, |k: int| u64_le_byte(v[k / 8], k % 8))
}

/// The lowercase hexadecimal digit for a value below sixteen.
pub open spec fn hex_digit(d: int) -> char {
    if d == 0 {
        '0'
    } else if d == 1 {
        '1'
    } else if d == 2 {
        '2'
    } else if d == 3 {
        '3'
    } else if d == 4 {
        '4'
    } else if d == 5 {
        '5'
    } else if d == 6 {
        '6'
    } else if d == 7 {
        '7'
    } else if d == 8 {
        '8'
    } else if d == 9 {
        '9'
    } else if d == 10 {
        'a'
    } else if d == 11 {
        'b'
    } else if d == 12 {
        'c'
    } else if d == 13 {
        'd'
    } else if d == 14 {
        'e'
    } else {
        'f'
    }
}

/// The lowercase hexadecimal printing of a byte string, two digits per byte,
/// high nibble first.
pub open spec fn hex_of(bytes: Seq<u8>) -> Seq<char> {
    Seq::new(
        bytes.len() * 2,
        |k: int|
            if k % 2 == 0 {
                hex_digit(bytes[k / 2] as int / 16)
            } else {
                hex_digit(bytes[k / 2] as int % 16)
            },
    )
}

/// What BLAKE3 digests a byte string to: a pure function of the bytes.
pub uninterp spec fn blake3_digest_of(bytes: Seq<u8>) -> Seq<u8>;

/// The cache key of a vector: the hexadecimal printing of the BLAKE3 digest
/// of its little-endian bytes.
pub open spec fn spec_cache_key(v: Seq<u64>) -> Seq<char> {
    hex_of(blake3_digest_of(le_bytes_of(v)))
}

/// Relies on `blake3::hash`: the digest is 32 bytes long and depends on the
/// input bytes alone.
#[verifier::external_body]
fn blake3_digest(bytes: &Vec<u8>) -> (r: Vec<u8>)
    ensures
        r@ == blake3_digest_of(bytes@),
        r@.len() == 32,
{
    blake3::hash(bytes.as_slice()).as_bytes().to_vec()
}

/// Relies on `String::push`: appends exactly the one character.
#[verifier::external_body]
fn string_push_char(s: &mut String, c: char)
    ensures
        final(s)@ == old(s)@.push(c),
{
    s.push(c);
}

/// Serializes a vector of component bit patterns to its little-endian bytes.
pub fn vector_le_bytes(v: &Vec<u64>) -> (r: Vec<u8>)
    ensures
        r@ == le_bytes_of(v@),
{
    let mut r: Vec<u8> = Vec::new();
    let mut i: usize = 0;
    while i < v.len()
        invariant
            i <= v@.len(),
            r@.len() == 8 * i,
            forall|k: int| 0 <= k < r@.len() ==> r@[k] == u64_le_byte(v@[k / 8], k % 8),
        decreases v@.len() - i,
    {
        let x = v[i];
        let mut j: usize = 0;
        while j < 8
            invariant
                i < v@.len(),
                j <= 8,
                x == v@[i as int],
                r@.len() == 8 * i + j,
                forall|k: int| 0 <= k < r@.len() ==> r@[k] == u64_le_byte(v@[k / 8], k % 8),
            decreases 8 - j,
        {
            let b = (x >> ((8 * j) as u64)) as u8;
            r.push(b);
            proof {
                assert((8 * i + j) / 8 == i && (8 * i + j) % 8 == j) by (nonlinear_arith)
                    requires
                        0 <= i,
                        0 <= j < 8,
                ;
                assert(b == u64_le_byte(v@[i as int], j as int));
            }
            j += 1;
        }
        i += 1;
    }
    proof {
        assert(r@ =~= le_bytes_of(v@));
    }
    r
}

/// Prints a byte string as lowercase hexadecimal, two digits per byte.
fn to_hex_lower(bytes: &Vec<u8>) -> (r: String)
    ensures
        r@ == hex_of(bytes@),
{
    let mut r = String::new();
    let mut i: usize = 0;
    while i < bytes.len()
        invariant
            i <= bytes@.len(),
            r@.len() == 2 * i,
            forall|k: int| 0 <= k < r@.len() ==> r@[k] == hex_of(bytes@)[k],
        decreases bytes@.len() - i,
    {
        let b = bytes[i];
        let hi = hex_digit_char(b / 16);
        let lo = hex_digit_char(b % 16);
        string_push_char(&mut r, hi);
        string_push_char(&mut r, lo);
        proof {
            assert((2 * i) / 2 == i && (2 * i) % 2 == 0 && (2 * i + 1) / 2 == i && (2 * i + 1) % 2
                == 1) by (nonlinear_arith)
                requires
                    0 <= i,
            ;
        }
        i += 1;
    }
    proof {
        assert(r@ =~= hex_of(bytes@));
    }
    r
}

/// The lowercase hexadecimal digit character of a value below sixteen.
fn hex_digit_char(d: u8) -> (c: char)
    requires
        d < 16,
    ensures
        c == hex_digit(d as int),
{
    match d {
        0 => '0',
        1 => '1',
        2 => '2',
        3 => '3',
        4 => '4',
        5 => '5',
        6 => '6',
        7 => '7',
        8 => '8',
        9 => '9',
        10 => 'a',
        11 => 'b',
        12 => 'c',
        13 => 'd',
        14 => 'e',
        _ => 'f',
    }
}

impl VectorOperations {
    /// The content-addressed cache key of a vector: 64 lowercase hexadecimal
    /// digits, a pure function of the vector's components. Two vectors with
    /// the same components always get the same key.
    pub fn create_cache_key(&self, vector: &Vec<u64>) -> (r: String)
        ensures
            r@ == spec_cache_key(vector@),
            r@.len() == 64,
    {
        let bytes = vector_le_bytes(vector);
        let digest = blake3_digest(&bytes);
        to_hex_lower(&digest)
    }
}

/// Two equal component bit patterns have equal little-endian bytes only when
/// they are the same pattern: the byte serialization is injective.
proof fn lemma_u64_le_bytes_injective(x: u64, y: u64)
    requires
        forall|j: int| 0 <= j < 8 ==> u64_le_byte(x, j) == u64_le_byte(y, j),
    ensures
        x == y,
{
    assert(u64_le_byte(x, 0) == u64_le_byte(y, 0));
    assert(u64_le_byte(x, 1) == u64_le_byte(y, 1));
    assert(u64_le_byte(x, 2) == u64_le_byte(y, 2));
    assert(u64_le_byte(x, 3) == u64_le_byte(y, 3));
    assert(u64_le_byte(x, 4) == u64_le_byte(y, 4));
    assert(u64_le_byte(x, 5) == u64_le_byte(y, 5));
    assert(u64_le_byte(x, 6) == u64_le_byte(y, 6));
    assert(u64_le_byte(x, 7) == u64_le_byte(y, 7));
    assert((((x >> 0u64) as u8 == (y >> 0u64) as u8) && ((x >> 8u64) as u8 == (y >> 8u64) as u8)
        && ((x >> 16u64) as u8 == (y >> 16u64) as u8) && ((x >> 24u64) as u8 == (y >> 24u64) as u8)
        && ((x >> 32u64) as u8 == (y >> 32u64) as u8) && ((x >> 40u64) as u8 == (y >> 40u64) as u8)
        && ((x >> 48u64) as u8 == (y >> 48u64) as u8) && ((x >> 56u64) as u8 == (y >> 56u64) as u8))
        ==> x == y) by (bit_vector);
}

/// The byte serialization of whole vectors is injective: two vectors hand
/// the digest the same bytes only when their components are identical, so a
/// cache-key collision between different vectors needs a collision of BLAKE3
/// itself.
pub proof fn lemma_le_bytes_injective(a: Seq<u64>, b: Seq<u64>)
    requires
        le_bytes_of(a) == le_bytes_of(b),
    ensures
        a == b,
{
    assert(le_bytes_of(a).len() == a.len() * 8);
    assert(le_bytes_of(b).len() == b.len() * 8);
    assert(a.len() * 8 == b.len() * 8);
    assert(a.len() == b.len());
    assert forall|i: int| 0 <= i < a.len() implies a[i] == b[i] by {
        assert forall|j: int| 0 <= j < 8 implies u64_le_byte(a[i], j) == u64_le_byte(b[i], j) by {
            assert((8 * i + j) / 8 == i && (8 * i + j) % 8 == j) by (nonlinear_arith)
                requires
                    0 <= i,
                    0 <= j < 8,
            ;
            assert(0 <= 8 * i + j < a.len() * 8) by (nonlinear_arith)
                requires
                    0 <= i < a.len(),
                    0 <= j < 8,
            ;
            assert(0 <= 8 * i + j < b.len() * 8);
            assert(le_bytes_of(a)[8 * i + j] == u64_le_byte(a[(8 * i + j) / 8], (8 * i + j) % 8));
            assert(le_bytes_of(b)[8 * i + j] == u64_le_byte(b[(8 * i + j) / 8], (8 * i + j) % 8));
            assert(le_bytes_of(a)[8 * i + j] == le_bytes_of(b)[8 * i + j]);
        }
        lemma_u64_le_bytes_injective(a[i], b[i]);
    }
    assert(a =~= b);
}

/// A cache key depends on the vector's components alone: equal components
/// give equal keys.
pub proof fn lemma_cache_key_deterministic(a: Seq<u64>, b: Seq<u64>)
    requires
        a == b,
    ensures
        spec_cache_key(a) == spec_cache_key(b),
{
}

/// The hexadecimal digits of two values below sixteen coincide only when
/// the values do.
proof fn lemma_hex_digit_injective(c: int, d: int)
    requires
        0 <= c < 16,
        0 <= d < 16,
        hex_digit(c) == hex_digit(d),
    ensures
        c == d,
{
}

/// Two byte strings print to the same hexadecimal only when they are equal.
proof fn lemma_hex_injective(a: Seq<u8>, b: Seq<u8>)
    requires
        hex_of(a) == hex_of(b),
    ensures
        a == b,
{
    assert(hex_of(a).len() == a.len() * 2);
    assert(hex_of(b).len() == b.len() * 2);
    assert(a.len() * 2 == b.len() * 2);
    assert(a.len() == b.len());
    assert forall|i: int| 0 <= i < a.len() implies a[i] == b[i] by {
        assert((2 * i) / 2 == i && (2 * i) % 2 == 0 && (2 * i + 1) / 2 == i && (2 * i + 1) % 2
            == 1) by (nonlinear_arith)
            requires
                0 <= i,
        ;
        assert(0 <= 2 * i && 2 * i + 1 < a.len() * 2) by (nonlinear_arith)
            requires
                0 <= i < a.len(),
        ;
        assert(hex_of(a)[2 * i] == hex_digit(a[i] as int / 16));
        assert(hex_of(b)[2 * i] == hex_digit(b[i] as int / 16));
        assert(hex_of(a)[2 * i + 1] == hex_digit(a[i] as int % 16));
        assert(hex_of(b)[2 * i + 1] == hex_digit(b[i] as int % 16));
        lemma_hex_digit_injective(a[i] as int / 16, b[i] as int / 16);
        lemma_hex_digit_injective(a[i] as int % 16, b[i] as int % 16);
    }
    assert(a =~= b);
}

/// Equal cache keys come from equal digests: the hexadecimal printing is
/// injective. Together with `lemma_le_bytes_injective`, which says that
/// different vectors hand BLAKE3 different inputs, a key collision between
/// vectors with different components is a collision of BLAKE3 itself.
pub proof fn lemma_cache_key_collision_is_digest_collision(a: Seq<u64>, b: Seq<u64>)
    requires
        spec_cache_key(a) == spec_cache_key(b),
    ensures
        blake3_digest_of(le_bytes_of(a)) == blake3_digest_of(le_bytes_of(b)),
{
    lemma_hex_injective(blake3_digest_of(le_bytes_of(a)), blake3_digest_of(le_bytes_of(b)));
}

} // verus!
