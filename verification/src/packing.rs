//! How bytes are cut into 6-bit fields and put together again.
//!
//! Three bytes hold 24 bits, which make four 6-bit fields, most significant
//! bits first. A last group of one or two bytes is filled up with zero bits
//! and yields two or three fields. In the other direction four fields make
//! three bytes, three fields two bytes and two fields one byte.

use vstd::prelude::*;

verus! {

/// First field of a group: bits 7..2 of the first byte.
pub open spec fn field_1(b1: u8) -> u8 {
    b1 >> 2
}

/// Second field: bits 1..0 of the first byte, then bits 7..4 of the second.
pub open spec fn field_2(b1: u8, b2: u8) -> u8 {
    ((b1 & 0x03) << 4) | (b2 >> 4)
}

/// Third field: bits 3..0 of the second byte, then bits 7..6 of the third.
pub open spec fn field_3(b2: u8, b3: u8) -> u8 {
    ((b2 & 0x0f) << 2) | (b3 >> 6)
}

/// Fourth field: bits 5..0 of the third byte.
pub open spec fn field_4(b3: u8) -> u8 {
    b3 & 0x3f
}

/// First byte of a group, from its first two fields.
pub open spec fn byte_1(a: u8, b: u8) -> u8 {
    (a << 2) | (b >> 4)
}

/// Second byte of a group, from its second and third field.
pub open spec fn byte_2(b: u8, c: u8) -> u8 {
    (b << 4) | (c >> 2)
}

/// Third byte of a group, from its third and fourth field.
pub open spec fn byte_3(c: u8, d: u8) -> u8 {
    (c << 6) | d
}

/// The byte at index `k`, or zero where `bytes` has no such index.
pub open spec fn byte_or_zero(bytes: Seq<u8>, k: int) -> u8 {
    if 0 <= k < bytes.len() {
        bytes[k]
    } else {
        0
    }
}

/// Number of 6-bit fields that hold the bits of `n` bytes: 4n/3, rounded up.
pub open spec fn sextet_count(n: nat) -> nat {
    (4 * n + 2) / 3
}

/// Number of whole bytes that `n` 6-bit fields hold: 3n/4, rounded down.
pub open spec fn octet_count(n: nat) -> nat {
    3 * n / 4
}

/// The 6-bit field at index `j` of `bytes`, where bytes past the end count
/// as zero.
pub open spec fn sextet(bytes: Seq<u8>, j: int) -> u8 {
    let first = 3 * (j / 4);
    let b1 = byte_or_zero(bytes, first);
    let b2 = byte_or_zero(bytes, first + 1);
    let b3 = byte_or_zero(bytes, first + 2);
    if j % 4 == 0 {
        field_1(b1)
    } else if j % 4 == 1 {
        field_2(b1, b2)
    } else if j % 4 == 2 {
        field_3(b2, b3)
    } else {
        field_4(b3)
    }
}

/// All 6-bit fields of `bytes`, in order.
pub open spec fn sextets(bytes: Seq<u8>) -> Seq<u8> {
    Seq::new(sextet_count(bytes.len()), |j: int| sextet(bytes, j))
}

/// The byte at index `k` that the 6-bit fields `values` hold.
pub open spec fn octet(values: Seq<u8>, k: int) -> u8 {
    let first = 4 * (k / 3);
    if k % 3 == 0 {
        byte_1(values[first], values[first + 1])
    } else if k % 3 == 1 {
        byte_2(values[first + 1], values[first + 2])
    } else {
        byte_3(values[first + 2], values[first + 3])
    }
}

/// All whole bytes that the 6-bit fields `values` hold, in order.
pub open spec fn octets(values: Seq<u8>) -> Seq<u8> {
    Seq::new(octet_count(values.len()), |k: int| octet(values, k))
}

/// Each field of a group fits in six bits.
pub proof fn lemma_fields_fit(b1: u8, b2: u8, b3: u8)
    by (bit_vector)
    ensures
        field_1(b1) < 64,
        field_2(b1, b2) < 64,
        field_3(b2, b3) < 64,
        field_4(b3) < 64,
{
}

/// The bytes of a group are got back from its fields. A byte needs only the
/// two fields that hold its bits, whatever the bytes after it are.
pub proof fn lemma_fields_restore(b1: u8, b2: u8, b3: u8)
    by (bit_vector)
    ensures
        byte_1(field_1(b1), field_2(b1, b2)) == b1,
        byte_2(field_2(b1, b2), field_3(b2, b3)) == b2,
        byte_3(field_3(b2, b3), field_4(b3)) == b3,
{
}

/// Every 6-bit field is below 64.
pub proof fn lemma_sextet_fits(bytes: Seq<u8>, j: int)
    ensures
        sextet(bytes, j) < 64,
{
    let first = 3 * (j / 4);
    lemma_fields_fit(
        byte_or_zero(bytes, first),
        byte_or_zero(bytes, first + 1),
        byte_or_zero(bytes, first + 2),
    );
}

/// The fields of `n` bytes never leave a group of one: their number is
/// 0, 2 or 3 modulo 4, and they hold exactly `n` whole bytes.
pub proof fn lemma_counts(n: nat)
    ensures
        sextet_count(n) % 4 != 1,
        octet_count(sextet_count(n)) == n,
        n % 3 == 0 ==> sextet_count(n) == 4 * (n / 3),
        n % 3 == 1 ==> sextet_count(n) == 4 * (n / 3) + 2,
        n % 3 == 2 ==> sextet_count(n) == 4 * (n / 3) + 3,
{
}

/// Cutting bytes into 6-bit fields and putting the fields together again
/// gives the bytes back.
pub proof fn lemma_octets_of_sextets(bytes: Seq<u8>)
    ensures
        octets(sextets(bytes)) == bytes,
{
    let values = sextets(bytes);
    lemma_counts(bytes.len());
    assert forall|k: int| 0 <= k < bytes.len() implies octet(values, k) == bytes[k] by {
        let g = k / 3;
        let b1 = byte_or_zero(bytes, 3 * g);
        let b2 = byte_or_zero(bytes, 3 * g + 1);
        let b3 = byte_or_zero(bytes, 3 * g + 2);
        lemma_fields_restore(b1, b2, b3);
    }
}

} // verus!
