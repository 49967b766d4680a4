//! Laws of the checksum: when carries are folded does not matter, and no
//! single flipped bit goes unnoticed.

use vstd::prelude::*;
use crate::checksum::{
    byte_weight, carry_step, checksum, checksum_matches, covered_bytes, fold16, fold_carries,
    lemma_carry_step_keeps_fold, lemma_fold16_range, lemma_word_sum_nonnegative, word_sum,
};
use crate::header::{CHECKSUM_OFFSET, HEADER_LENGTH};

verus! {

/// The checksum is a function of the bytes alone: equal data has equal
/// checksums.
pub proof fn lemma_checksum_is_deterministic(a: Seq<u8>, b: Seq<u8>)
    requires
        a.len() == b.len(),
        forall|i: int| 0 <= i < a.len() ==> a[i] == b[i],
    ensures
        checksum(a) == checksum(b),
{
    assert(a =~= b);
}

/// Folding the carries round by round until none remains arrives at the
/// ones'-complement reduction of the sum.
pub proof fn lemma_fold_carries_is_fold16(sum: int)
    requires
        sum >= 0,
    ensures
        fold_carries(sum) == fold16(sum),
    decreases sum,
{
    lemma_carry_step_keeps_fold(sum);
    if sum >= 0x1_0000 {
        lemma_fold_carries_is_fold16(carry_step(sum));
    }
}

/// Folding is associative: a partial sum may be folded before the rest is
/// added, on either side or on both, without changing the folded total.
pub proof fn lemma_fold16_associative(a: int, b: int)
    requires
        a >= 0,
        b >= 0,
    ensures
        fold16(fold16(a) + b) == fold16(a + b),
        fold16(a + fold16(b)) == fold16(a + b),
        fold16(fold16(a) + fold16(b)) == fold16(a + b),
{
}

/// Behind a prefix of whole words, the word sum of a concatenation is the sum
/// of the word sums.
pub proof fn lemma_word_sum_concat(a: Seq<u8>, b: Seq<u8>)
    requires
        a.len() % 2 == 0,
    ensures
        word_sum(a + b) == word_sum(a) + word_sum(b),
    decreases b.len(),
{
    if b.len() == 0 {
        assert(a + b =~= a);
    } else {
        lemma_word_sum_concat(a, b.drop_last());
        assert((a + b).drop_last() =~= a + b.drop_last());
    }
}

/// The checksum of a sequence of whole words followed by more data can be
/// computed from the folded sums of the two parts: folding early and folding
/// late agree.
pub proof fn lemma_checksum_of_parts(a: Seq<u8>, b: Seq<u8>)
    requires
        a.len() % 2 == 0,
    ensures
        checksum(a + b) == (0xFFFF - fold16(fold16(word_sum(a)) + fold16(word_sum(b)))) as u16,
{
    lemma_word_sum_concat(a, b);
    lemma_word_sum_nonnegative(a);
    lemma_word_sum_nonnegative(b);
    lemma_fold16_associative(word_sum(a), word_sum(b));
}

/// The checksum does not depend on the order of the words: two runs of whole
/// words may change places.
pub proof fn lemma_checksum_order_of_words(a: Seq<u8>, b: Seq<u8>)
    requires
        a.len() % 2 == 0,
        b.len() % 2 == 0,
    ensures
        checksum(a + b) == checksum(b + a),
{
    lemma_word_sum_concat(a, b);
    lemma_word_sum_concat(b, a);
}

/// Replacing one byte changes the word sum by the difference of the two bytes,
/// weighted by the position.
pub proof fn lemma_word_sum_update(data: Seq<u8>, i: int, byte: u8)
    requires
        0 <= i < data.len(),
    ensures
        word_sum(data.update(i, byte)) == word_sum(data) + (byte as int - data[i] as int)
            * byte_weight(i),
    decreases data.len(),
{
    let changed = data.update(i, byte);
    let w = byte_weight(i);
    assert((byte as int - data[i] as int) * w == byte as int * w - data[i] as int * w) by {
        assert(w == 1 || w == 256);
    }
    if i == data.len() - 1 {
        assert(changed.drop_last() =~= data.drop_last());
    } else {
        lemma_word_sum_update(data.drop_last(), i, byte);
        assert(changed.drop_last() =~= data.drop_last().update(i, byte));
    }
}

/// The byte `byte` with bit number `bit` inverted.
pub open spec fn flip_bit(byte: u8, bit: u8) -> u8 {
    byte ^ (1u8 << bit)
}

/// Inverting one bit moves a byte up or down by a power of two.
proof fn lemma_flip_bit_distance(byte: u8, bit: u8)
    requires
        bit < 8,
    ensures
        ({
            let d = flip_bit(byte, bit) as int - byte as int;
            d == 1 || d == 2 || d == 4 || d == 8 || d == 16 || d == 32 || d == 64 || d == 128
                || d == -1 || d == -2 || d == -4 || d == -8 || d == -16 || d == -32 || d == -64
                || d == -128
        }),
{
    assert(bit < 8 ==> (byte ^ (1u8 << bit)) == byte + (1u8 << bit) || byte == (byte ^ (1u8
        << bit)) + (1u8 << bit)) by (bit_vector);
    assert(bit < 8 ==> (1u8 << bit) == 1 || (1u8 << bit) == 2 || (1u8 << bit) == 4 || (1u8 << bit)
        == 8 || (1u8 << bit) == 16 || (1u8 << bit) == 32 || (1u8 << bit) == 64 || (1u8 << bit)
        == 128) by (bit_vector);
}

/// Sums that differ by less than `0xFFFF` fold to different values.
proof fn lemma_fold16_separates(a: int, b: int)
    requires
        a >= 0,
        b >= 0,
        0 < b - a < 0xFFFF,
    ensures
        fold16(a) != fold16(b),
{
}

/// A single inverted bit anywhere in the data changes the checksum.
pub proof fn lemma_checksum_detects_bit_flip(data: Seq<u8>, i: int, bit: u8)
    requires
        0 <= i < data.len(),
        bit < 8,
    ensures
        checksum(data.update(i, flip_bit(data[i], bit))) != checksum(data),
{
    let flipped = data.update(i, flip_bit(data[i], bit));
    lemma_word_sum_update(data, i, flip_bit(data[i], bit));
    lemma_flip_bit_distance(data[i], bit);
    lemma_word_sum_nonnegative(data);
    lemma_word_sum_nonnegative(flipped);
    let d = (flip_bit(data[i], bit) as int - data[i] as int) * byte_weight(i);
    assert(-0xFFFF < d < 0xFFFF && d != 0);
    if d > 0 {
        lemma_fold16_separates(word_sum(data), word_sum(flipped));
    } else {
        lemma_fold16_separates(word_sum(flipped), word_sum(data));
    }
    lemma_fold16_range(word_sum(data));
    lemma_fold16_range(word_sum(flipped));
}

/// A frame whose claimed checksum is the checksum of its covered bytes
/// verifies.
pub proof fn lemma_sealed_frame_verifies(header: Seq<u8>, body: Seq<u8>)
    ensures
        checksum_matches(header, body, checksum(covered_bytes(header, body))),
{
}

/// The checksum field itself is not covered: whatever its two bytes hold, the
/// covered bytes are the same.
pub proof fn lemma_checksum_field_not_covered(header: Seq<u8>, body: Seq<u8>, hi: u8, lo: u8)
    requires
        header.len() == HEADER_LENGTH,
    ensures
        covered_bytes(
            header.update(CHECKSUM_OFFSET as int, hi).update(CHECKSUM_OFFSET + 1, lo),
            body,
        ) == covered_bytes(header, body),
{
    assert(covered_bytes(
        header.update(CHECKSUM_OFFSET as int, hi).update(CHECKSUM_OFFSET + 1, lo),
        body,
    ) =~= covered_bytes(header, body));
}

/// Once a frame verifies against a claimed checksum, inverting any single bit
/// of its header outside the checksum field makes verification against the
/// same claim fail.
pub proof fn lemma_header_bit_flip_detected(
    header: Seq<u8>,
    body: Seq<u8>,
    claimed: u16,
    i: int,
    bit: u8,
)
    requires
        header.len() == HEADER_LENGTH,
        0 <= i < HEADER_LENGTH,
        i != CHECKSUM_OFFSET,
        i != CHECKSUM_OFFSET + 1,
        bit < 8,
        checksum_matches(header, body, claimed),
    ensures
        !checksum_matches(header.update(i, flip_bit(header[i], bit)), body, claimed),
{
    let covered = covered_bytes(header, body);
    lemma_checksum_detects_bit_flip(covered, i, bit);
    assert(covered_bytes(header.update(i, flip_bit(header[i], bit)), body) =~= covered.update(
        i,
        flip_bit(covered[i], bit),
    ));
}

/// Once a frame verifies against a claimed checksum, inverting any single bit
/// of its body makes verification against the same claim fail.
pub proof fn lemma_body_bit_flip_detected(
    header: Seq<u8>,
    body: Seq<u8>,
    claimed: u16,
    i: int,
    bit: u8,
)
    requires
        header.len() == HEADER_LENGTH,
        0 <= i < body.len(),
        bit < 8,
        checksum_matches(header, body, claimed),
    ensures
        !checksum_matches(header, body.update(i, flip_bit(body[i], bit)), claimed),
{
    let covered = covered_bytes(header, body);
    let at = HEADER_LENGTH + i;
    lemma_checksum_detects_bit_flip(covered, at, bit);
    assert(covered_bytes(header, body.update(i, flip_bit(body[i], bit))) =~= covered.update(
        at,
        flip_bit(covered[at], bit),
    ));
}

} // verus!
