//! Laws of whole frames: how a frame is built so that it is accepted.

use vstd::prelude::*;
use crate::checksum::{checksum, covered_bytes};
use crate::checksum_laws::lemma_checksum_field_not_covered;
use crate::frame::frame_accepted;
use crate::header::encoded_header;
use crate::header_laws::lemma_built_header_is_valid;

verus! {

/// The checksum that seals a sensitive frame with this body: the checksum of
/// the covered bytes, which do not depend on what the checksum field holds.
pub open spec fn seal(length: u16, body: Seq<u8>) -> u16 {
    checksum(covered_bytes(encoded_header(length, Some(0u16)), body))
}

/// A plain frame that is built with the length of its body is accepted.
pub proof fn lemma_plain_frame_is_accepted(body: Seq<u8>)
    requires
        body.len() <= u16::MAX,
    ensures
        frame_accepted(encoded_header(body.len() as u16, None), body),
{
    lemma_built_header_is_valid(body.len() as u16, None);
}

/// A sensitive frame that is built with the length of its body and with the
/// checksum of its covered bytes is accepted: its checksum verifies.
pub proof fn lemma_sealed_frame_is_accepted(body: Seq<u8>)
    requires
        body.len() <= u16::MAX,
    ensures
        frame_accepted(
            encoded_header(body.len() as u16, Some(seal(body.len() as u16, body))),
            body,
        ),
{
    let length = body.len() as u16;
    let sum = seal(length, body);
    let blank = encoded_header(length, Some(0u16));
    let sealed = encoded_header(length, Some(sum));
    lemma_built_header_is_valid(length, Some(sum));
    lemma_built_header_is_valid(length, Some(0u16));
    assert(sealed =~= blank.update(4, (sum / 256) as u8).update(5, (sum % 256) as u8));
    lemma_checksum_field_not_covered(blank, body, (sum / 256) as u8, (sum % 256) as u8);
}

} // verus!
