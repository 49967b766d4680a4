//! The ones'-complement 16-bit checksum of a byte sequence.

use vstd::prelude::*;
use vstd::slice::slice_to_vec;
use crate::header::{CHECKSUM_OFFSET, HEADER_LENGTH, MAGIC_BYTE};

verus! {

/// Value that a byte at position `i` contributes per unit: bytes at even
/// positions are the high byte of a big-endian 16-bit word, bytes at odd
/// positions the low byte.
pub open spec fn byte_weight(i: int) -> int {
    if i % 2 == 0 {
        256
    } else {
        1
    }
}

/// Sum of the big-endian 16-bit words of `data` as an unbounded number. A
/// final byte at an even position counts as the high byte of a word whose low
/// byte is zero.
pub open spec fn word_sum(data: Seq<u8>) -> int
    decreases data.len(),
{
    if data.len() == 0 {
        0
    } else {
        word_sum(data.drop_last()) + data.last() as int * byte_weight(data.len() - 1)
    }
}

/// One round of carry folding: the low 16 bits plus everything above them.
pub open spec fn carry_step(sum: int) -> int {
    sum % 0x1_0000 + sum / 0x1_0000
}

/// Carry folding repeated until no carry remains.
pub open spec fn fold_carries(sum: int) -> int
    decreases sum,
{
    if sum < 0x1_0000 {
        sum
    } else {
        fold_carries(carry_step(sum))
    }
}

/// The 16-bit ones'-complement reduction of a non-negative sum: zero stays
/// zero, every other sum lands in `1..=0xFFFF` on its residue modulo `0xFFFF`.
pub open spec fn fold16(sum: int) -> int {
    if sum <= 0 {
        0
    } else {
        1 + (sum - 1) % 0xFFFF
    }
}

/// The checksum of `data`: the complement of the folded word sum.
pub open spec fn checksum(data: Seq<u8>) -> u16 {
    (0xFFFF - fold16(word_sum(data))) as u16
}

/// The word sum is never negative.
pub proof fn lemma_word_sum_nonnegative(data: Seq<u8>)
    ensures
        word_sum(data) >= 0,
    decreases data.len(),
{
    if data.len() > 0 {
        lemma_word_sum_nonnegative(data.drop_last());
    }
}

/// Appending one byte adds that byte, weighted by its position.
pub proof fn lemma_word_sum_push(data: Seq<u8>, byte: u8)
    ensures
        word_sum(data.push(byte)) == word_sum(data) + byte as int * byte_weight(data.len() as int),
{
    assert(data.push(byte).drop_last() =~= data);
}

/// A folded sum fits in 16 bits, and sums that already fit are left alone.
pub proof fn lemma_fold16_range(sum: int)
    requires
        sum >= 0,
    ensures
        0 <= fold16(sum) <= 0xFFFF,
        sum <= 0xFFFF ==> fold16(sum) == sum,
        fold16(sum) == 0 <==> sum == 0,
{
}

/// One round of carry folding does not change the folded sum.
pub proof fn lemma_carry_step_keeps_fold(sum: int)
    requires
        sum >= 0,
    ensures
        carry_step(sum) >= 0,
        sum >= 0x1_0000 ==> carry_step(sum) < sum,
        fold16(carry_step(sum)) == fold16(sum),
{
}

/// Adding the same amount to two sums that fold alike gives sums that fold
/// alike.
pub proof fn lemma_fold16_add(a: int, b: int, w: int)
    requires
        a >= 0,
        b >= 0,
        w >= 0,
        fold16(a) == fold16(b),
    ensures
        fold16(a + w) == fold16(b + w),
{
}

/// Computes the checksum of `data`: the bytes are read as big-endian 16-bit
/// words (an odd final byte is the high byte of a word padded with a zero low
/// byte), the words are added up, the carries are folded back in until none
/// remains, and the low 16 bits are complemented.
///
/// The words are added up in 32 bits. Where the sum would outgrow them, its
/// carries are folded in early, which leaves the result as it is: data of
/// any length has its checksum.
pub fn calc_checksum(data: &[u8]) -> (sum16: u16)
    ensures
        sum16 == checksum(data@),
{
    let n: usize = data.len();
    let mut sum: u32 = 0;
    let mut i: usize = 0;
    proof {
        assert(data@.take(0) =~= Seq::<u8>::empty());
    }
    while n - i >= 2
        invariant
            n == data@.len(),
            i <= n,
            i % 2 == 0,
            sum <= 0xFFFF_0000u32,
            fold16(sum as int) == fold16(word_sum(data@.take(i as int))),
        decreases n - i,
    {
        let word: u32 = data[i] as u32 * 256 + data[i + 1] as u32;
        proof {
            let before = data@.take(i as int);
            let mid = data@.take(i + 1);
            assert(mid =~= before.push(data@[i as int]));
            assert(data@.take(i + 2) =~= mid.push(data@[i + 1]));
            lemma_word_sum_push(before, data@[i as int]);
            lemma_word_sum_push(mid, data@[i + 1]);
            lemma_word_sum_nonnegative(before);
            lemma_fold16_add(sum as int, word_sum(before), word as int);
        }
        sum = sum + word;
        if sum > 0xFFFF_0000u32 {
            proof {
                lemma_split_u32(sum);
                lemma_carry_step_keeps_fold(sum as int);
            }
            sum = (sum & 0xFFFF) + (sum >> 16);
        }
        i = i + 2;
    }
    if i < n {
        let word: u32 = data[i] as u32 * 256;
        proof {
            let before = data@.take(i as int);
            assert(data@ =~= before.push(data@[i as int]));
            lemma_word_sum_push(before, data@[i as int]);
            lemma_word_sum_nonnegative(before);
            lemma_fold16_add(sum as int, word_sum(before), word as int);
        }
        sum = sum + word;
    } else {
        proof {
            assert(data@.take(i as int) =~= data@);
        }
    }
    while (sum >> 16) > 0
        invariant
            fold16(sum as int) == fold16(word_sum(data@)),
        decreases sum,
    {
        proof {
            lemma_split_u32(sum);
            lemma_carry_step_keeps_fold(sum as int);
        }
        sum = (sum & 0xFFFF) + (sum >> 16);
    }
    proof {
        lemma_split_u32(sum);
        lemma_fold16_range(sum as int);
        lemma_complement_u16(sum as u16);
    }
    !(sum as u16)
}

/// The bytes that the checksum of a sensitive frame covers: the header with
/// the two bytes of its checksum field replaced by the magic byte, followed by
/// the body.
pub open spec fn covered_bytes(header: Seq<u8>, body: Seq<u8>) -> Seq<u8> {
    header.update(CHECKSUM_OFFSET as int, MAGIC_BYTE).update(CHECKSUM_OFFSET + 1, MAGIC_BYTE)
        + body
}

/// Whether `claimed` is the checksum of the frame made of `header` and `body`.
pub open spec fn checksum_matches(header: Seq<u8>, body: Seq<u8>, claimed: u16) -> bool {
    checksum(covered_bytes(header, body)) == claimed
}

/// Checks the checksum that a sensitive frame claims. The checksum is computed
/// over the header, with both bytes of its checksum field replaced by the
/// magic byte, followed by the body; the result is compared with
/// `received_checksum`.
pub fn verify_checksum(header: &[u8], body: &[u8], received_checksum: u16) -> (ok: bool)
    requires
        header@.len() == HEADER_LENGTH,
    ensures
        ok == checksum_matches(header@, body@, received_checksum),
{
    let mut total: Vec<u8> = slice_to_vec(header);
    total[CHECKSUM_OFFSET] = MAGIC_BYTE;
    total[CHECKSUM_OFFSET + 1] = MAGIC_BYTE;
    total.extend_from_slice(body);
    proof {
        assert(total@ =~= covered_bytes(header@, body@));
    }
    calc_checksum(total.as_slice()) == received_checksum
}

/// The low half and the high half of a 32-bit number, in arithmetic.
proof fn lemma_split_u32(x: u32)
    ensures
        (x & 0xFFFF) == x % 0x1_0000,
        (x >> 16) == x / 0x1_0000,
        (x >> 16) > 0 <==> x >= 0x1_0000,
{
    assert((x & 0xFFFF) == x % 0x1_0000) by (bit_vector);
    assert((x >> 16) == x / 0x1_0000) by (bit_vector);
}

/// The bitwise complement of a 16-bit number, in arithmetic.
proof fn lemma_complement_u16(x: u16)
    ensures
        !x == 0xFFFF - x,
{
    assert(!x == 0xFFFFu16 - x) by (bit_vector);
}

} // verus!
