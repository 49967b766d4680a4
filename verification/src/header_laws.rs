//! Laws of the header codec: which headers are valid, and that building and
//! validating a header are inverse to each other.

use vstd::prelude::*;
use crate::header::{
    be16, claimed_checksum, declared_length, encoded_header, header_verdict, is_sensitive,
    HEADER_LENGTH, MAGIC_BYTE, SENSITIVE_BIT,
};

verus! {

/// An options byte passes the checks on the reserved bit and on the padding
/// bits exactly if it is zero or the sensitive bit alone.
pub proof fn lemma_options_byte(options: u8)
    ensures
        (options & 0x80 == 0 && options & 0x3F == 0) <==> (options == 0 || options == 0x40),
        options == 0 ==> options & 0x40 == 0,
        options == 0x40 ==> options & 0x40 != 0,
{
    assert((options & 0x80 == 0 && options & 0x3F == 0) <==> (options == 0 || options == 0x40))
        by (bit_vector);
    assert(options == 0 ==> options & 0x40 == 0) by (bit_vector);
    assert(options == 0x40 ==> options & 0x40 != 0) by (bit_vector);
}

/// A header is valid exactly if it starts with the magic byte, its options
/// byte is zero or the sensitive bit alone, its last two bytes are zero, and,
/// unless it is sensitive, its checksum field is zero too.
pub proof fn lemma_valid_headers(hdr: Seq<u8>)
    requires
        hdr.len() == HEADER_LENGTH,
    ensures
        header_verdict(hdr) is Ok <==> {
            &&& hdr[0] == MAGIC_BYTE
            &&& (hdr[1] == 0 || hdr[1] == SENSITIVE_BIT)
            &&& hdr[6] == 0
            &&& hdr[7] == 0
            &&& (hdr[1] == 0 ==> hdr[4] == 0 && hdr[5] == 0)
        },
        header_verdict(hdr) matches Ok((length, sensitive)) ==> length == declared_length(hdr)
            && sensitive == (hdr[1] == SENSITIVE_BIT),
{
    lemma_options_byte(hdr[1]);
}

/// Splitting a 16-bit number into its two bytes and joining them again gives
/// the number back.
pub proof fn lemma_be16_of_its_bytes(value: u16)
    ensures
        be16((value / 256) as u8, (value % 256) as u8) == value,
{
}

/// Joining two bytes to a 16-bit number and splitting it again gives the
/// bytes back.
pub proof fn lemma_bytes_of_be16(hi: u8, lo: u8)
    ensures
        (be16(hi, lo) / 256) as u8 == hi,
        (be16(hi, lo) % 256) as u8 == lo,
{
}

/// A header that was built is valid, and validation gives back what it was
/// built from: the length, whether it carries a checksum, and the checksum.
pub proof fn lemma_built_header_is_valid(length: u16, checksum: Option<u16>)
    ensures
        encoded_header(length, checksum).len() == HEADER_LENGTH,
        header_verdict(encoded_header(length, checksum)) matches Ok((declared, sensitive))
            && declared == length && sensitive == (checksum is Some),
        checksum matches Some(c) ==> claimed_checksum(encoded_header(length, checksum)) == c,
{
    let hdr = encoded_header(length, checksum);
    lemma_valid_headers(hdr);
    lemma_be16_of_its_bytes(length);
    if let Some(c) = checksum {
        lemma_be16_of_its_bytes(c);
    }
}

/// Round trip of a valid header: building a header from what validation
/// yields (and, for a sensitive frame, from its checksum field) gives the
/// very same eight bytes.
pub proof fn lemma_valid_header_round_trip(hdr: Seq<u8>)
    requires
        hdr.len() == HEADER_LENGTH,
        header_verdict(hdr) is Ok,
    ensures
        hdr == encoded_header(
            declared_length(hdr),
            if is_sensitive(hdr) {
                Some(claimed_checksum(hdr))
            } else {
                None
            },
        ),
{
    lemma_valid_headers(hdr);
    lemma_bytes_of_be16(hdr[2], hdr[3]);
    lemma_bytes_of_be16(hdr[4], hdr[5]);
    let rebuilt = encoded_header(
        declared_length(hdr),
        if is_sensitive(hdr) {
            Some(claimed_checksum(hdr))
        } else {
            None
        },
    );
    assert(rebuilt =~= hdr);
}

/// Round trip of a plain frame: for the bytes of a valid frame that is not
/// sensitive, the header built from the validated length, followed by the
/// body, is the frame byte for byte.
pub proof fn lemma_plain_frame_round_trip(frame: Seq<u8>)
    requires
        frame.len() >= HEADER_LENGTH,
        header_verdict(frame.take(HEADER_LENGTH as int)) matches Ok((length, sensitive))
            && !sensitive && frame.len() == HEADER_LENGTH + length,
    ensures
        encoded_header(declared_length(frame.take(HEADER_LENGTH as int)), None) + frame.skip(
            HEADER_LENGTH as int,
        ) == frame,
{
    let hdr = frame.take(HEADER_LENGTH as int);
    lemma_valid_header_round_trip(hdr);
    assert(hdr + frame.skip(HEADER_LENGTH as int) =~= frame);
}

} // verus!
