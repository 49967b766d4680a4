//! A frame that passed every check and may be forwarded.

use vstd::prelude::*;
use crate::checksum::checksum_matches;
use crate::header::{claimed_checksum, header_verdict, HEADER_LENGTH};

verus! {

/// Whether the frame made of `header` and `body` may be forwarded: the header
/// is valid, the body has the declared length, and, if the frame is
/// sensitive, the checksum in the header is the checksum of the frame.
pub open spec fn frame_accepted(header: Seq<u8>, body: Seq<u8>) -> bool {
    &&& header.len() == HEADER_LENGTH
    &&& header_verdict(header) matches Ok((length, sensitive))
    &&& body.len() == length
    &&& sensitive ==> checksum_matches(header, body, claimed_checksum(header))
}

/// One complete frame, header and body, that passed every check. A value of
/// this type never holds anything else: it is handed out by a session only,
/// and carries the bytes as they were received.
#[derive(Debug)]
pub struct Frame {
    header: Vec<u8>,
    body: Vec<u8>,
}

impl Frame {
    #[verifier::type_invariant]
    spec fn accepted(self) -> bool {
        frame_accepted(self.header@, self.body@)
    }

    /// The eight header bytes.
    pub closed spec fn header_bytes(self) -> Seq<u8> {
        self.header@
    }

    /// The bytes of the body.
    pub closed spec fn body_bytes(self) -> Seq<u8> {
        self.body@
    }

    /// The frame as it travels: the header followed by the body.
    pub open spec fn wire_bytes(self) -> Seq<u8> {
        self.header_bytes() + self.body_bytes()
    }

    /// Puts a checked header and body together.
    pub(crate) fn from_checked(header: Vec<u8>, body: Vec<u8>) -> (frame: Frame)
        requires
            frame_accepted(header@, body@),
        ensures
            frame.header_bytes() == header@,
            frame.body_bytes() == body@,
    {
        Frame { header, body }
    }

    /// The header, as received. It is a valid header, and it goes with the
    /// body.
    pub fn header(&self) -> (hdr: &[u8])
        ensures
            hdr@ == self.header_bytes(),
            frame_accepted(self.header_bytes(), self.body_bytes()),
    {
        proof {
            use_type_invariant(self);
        }
        self.header.as_slice()
    }

    /// The body, as received.
    pub fn body(&self) -> (body: &[u8])
        ensures
            body@ == self.body_bytes(),
            frame_accepted(self.header_bytes(), self.body_bytes()),
    {
        proof {
            use_type_invariant(self);
        }
        self.body.as_slice()
    }

    /// Number of bytes of the frame on the wire: header and body.
    pub fn wire_len(&self) -> (len: usize)
        ensures
            len == self.wire_bytes().len(),
            HEADER_LENGTH <= len <= HEADER_LENGTH + u16::MAX,
    {
        proof {
            use_type_invariant(self);
        }
        HEADER_LENGTH + self.body.len()
    }

    /// The frame as one run of bytes, the header followed by the body.
    pub fn to_bytes(&self) -> (bytes: Vec<u8>)
        ensures
            bytes@ == self.wire_bytes(),
    {
        let mut bytes: Vec<u8> = Vec::new();
        bytes.extend_from_slice(self.header.as_slice());
        bytes.extend_from_slice(self.body.as_slice());
        proof {
            assert(bytes@ =~= self.wire_bytes());
        }
        bytes
    }
}

} // verus!
