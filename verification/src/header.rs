//! The 8-byte frame header: its layout and its validation.
//!
//! ```text
//! byte 0     magic, always 0xCC
//! byte 1     options: reserved (0x80), sensitive (0x40), six padding bits
//! bytes 2-3  length of the body, big-endian
//! bytes 4-5  checksum of a sensitive frame, zero otherwise
//! bytes 6-7  zero
//! ```

use vstd::prelude::*;

verus! {

/// Number of bytes in a frame header.
pub const HEADER_LENGTH: usize = 8;

/// Value of the first byte of every frame.
pub const MAGIC_BYTE: u8 = 0xCC;

/// Bit of the options byte that marks a frame as carrying a checksum.
pub const SENSITIVE_BIT: u8 = 0x40;

/// Bit of the options byte that is reserved and must be clear.
pub const RESERVE_BIT: u8 = 0x80;

/// Bits of the options byte that are padding and must be clear.
pub const PADDING_MASK: u8 = 0x3F;

/// Position of the two-byte length field in the header.
pub const LENGTH_OFFSET: usize = 2;

/// Position of the two-byte checksum field in the header.
pub const CHECKSUM_OFFSET: usize = 4;

/// Why a header was rejected. The checks run in the order of the variants,
/// and the first one that fails names the reason.
#[derive(Clone, Copy, Debug, PartialEq, Eq, Structural)]
pub enum ValidationError {
    /// The first byte is not the magic byte.
    InvalidMagic,
    /// The reserved bit of the options byte is set.
    ReservedBitSet,
    /// One of the six padding bits of the options byte is set.
    PaddingBitsSet,
    /// The frame is not sensitive and one of its last four header bytes is
    /// not zero.
    NonSensitivePadding,
    /// The frame is sensitive and one of its last two header bytes is not
    /// zero.
    SensitivePadding,
}

impl ValidationError {
    /// The text of the diagnostic for this reason.
    pub open spec fn message_text(self) -> Seq<char> {
        match self {
            ValidationError::InvalidMagic => "Invalid magic byte"@,
            ValidationError::ReservedBitSet => "Reserve bit must be 0"@,
            ValidationError::PaddingBitsSet => "Invalid padding"@,
            ValidationError::NonSensitivePadding => "Invaid padding for non sensitive"@,
            ValidationError::SensitivePadding => "Invaid padding for sensitive"@,
        }
    }

    /// A short diagnostic for this reason.
    pub fn message(&self) -> (text: &'static str)
        ensures
            text@ == self.message_text(),
    {
        match self {
            ValidationError::InvalidMagic => "Invalid magic byte",
            ValidationError::ReservedBitSet => "Reserve bit must be 0",
            ValidationError::PaddingBitsSet => "Invalid padding",
            ValidationError::NonSensitivePadding => "Invaid padding for non sensitive",
            ValidationError::SensitivePadding => "Invaid padding for sensitive",
        }
    }
}

/// The 16-bit number whose big-endian bytes are `hi`, `lo`.
pub open spec fn be16(hi: u8, lo: u8) -> u16 {
    (hi as int * 256 + lo as int) as u16
}

/// The body length that a header declares. It is read as it stands, whether
/// or not the header is valid.
pub open spec fn declared_length(hdr: Seq<u8>) -> u16 {
    be16(hdr[LENGTH_OFFSET as int], hdr[LENGTH_OFFSET + 1])
}

/// The content of a header's checksum field.
pub open spec fn claimed_checksum(hdr: Seq<u8>) -> u16 {
    be16(hdr[CHECKSUM_OFFSET as int], hdr[CHECKSUM_OFFSET + 1])
}

/// Whether the sensitive bit of a header's options byte is set.
pub open spec fn is_sensitive(hdr: Seq<u8>) -> bool {
    hdr[1] & SENSITIVE_BIT != 0
}

/// The outcome of validating an 8-byte header: the declared body length and
/// the sensitivity flag, or the first check that fails.
pub open spec fn header_verdict(hdr: Seq<u8>) -> Result<(u16, bool), ValidationError> {
    if hdr[0] != MAGIC_BYTE {
        Err(ValidationError::InvalidMagic)
    } else if hdr[1] & RESERVE_BIT != 0 {
        Err(ValidationError::ReservedBitSet)
    } else if hdr[1] & PADDING_MASK != 0 {
        Err(ValidationError::PaddingBitsSet)
    } else if !is_sensitive(hdr) && (hdr[4] != 0 || hdr[5] != 0 || hdr[6] != 0 || hdr[7] != 0) {
        Err(ValidationError::NonSensitivePadding)
    } else if is_sensitive(hdr) && (hdr[6] != 0 || hdr[7] != 0) {
        Err(ValidationError::SensitivePadding)
    } else {
        Ok((declared_length(hdr), is_sensitive(hdr)))
    }
}

/// Reads the big-endian 16-bit number at `at` and `at + 1`.
fn read_be16(bytes: &[u8], at: usize) -> (value: u16)
    requires
        at + 1 < bytes@.len(),
    ensures
        value == be16(bytes@[at as int], bytes@[at + 1]),
{
    bytes[at] as u16 * 256 + bytes[at + 1] as u16
}

/// Reads the body length that a header declares, valid or not.
pub fn read_length(hdr: &[u8]) -> (length: u16)
    requires
        hdr@.len() == HEADER_LENGTH,
    ensures
        length == declared_length(hdr@),
{
    read_be16(hdr, LENGTH_OFFSET)
}

/// Reads the checksum field of a header.
pub fn read_checksum(hdr: &[u8]) -> (claimed: u16)
    requires
        hdr@.len() == HEADER_LENGTH,
    ensures
        claimed == claimed_checksum(hdr@),
{
    read_be16(hdr, CHECKSUM_OFFSET)
}

/// Reads the sensitivity flag of a header.
pub fn read_sensitive(hdr: &[u8]) -> (sensitive: bool)
    requires
        hdr@.len() == HEADER_LENGTH,
    ensures
        sensitive == is_sensitive(hdr@),
{
    (hdr[1] & SENSITIVE_BIT) != 0
}

/// Validates an 8-byte header. The checks run in this order, and the first
/// that fails is reported: the magic byte; the reserved bit; the padding
/// bits; for a frame that is not sensitive, the four trailing bytes; for a
/// sensitive frame, the last two trailing bytes. A header that passes yields
/// its declared body length and its sensitivity flag.
pub fn verify_header(hdr: &[u8]) -> (verdict: Result<(u16, bool), ValidationError>)
    requires
        hdr@.len() == HEADER_LENGTH,
    ensures
        verdict == header_verdict(hdr@),
{
    let length: u16 = read_length(hdr);
    let options: u8 = hdr[1];
    let sensitive: bool = read_sensitive(hdr);

    if hdr[0] != MAGIC_BYTE {
        return Err(ValidationError::InvalidMagic);
    }
    if (options & RESERVE_BIT) != 0 {
        return Err(ValidationError::ReservedBitSet);
    }
    if (options & PADDING_MASK) != 0 {
        return Err(ValidationError::PaddingBitsSet);
    }
    if !sensitive && (hdr[4] != 0 || hdr[5] != 0 || hdr[6] != 0 || hdr[7] != 0) {
        return Err(ValidationError::NonSensitivePadding);
    } else if sensitive && (hdr[6] != 0 || hdr[7] != 0) {
        return Err(ValidationError::SensitivePadding);
    }
    Ok((length, sensitive))
}

/// The header of a well-formed frame with a body of `length` bytes: a
/// sensitive one carrying `checksum` if there is one, a plain one otherwise.
pub open spec fn encoded_header(length: u16, checksum: Option<u16>) -> Seq<u8> {
    let options = if checksum is Some {
        SENSITIVE_BIT
    } else {
        0u8
    };
    let sum = match checksum {
        Some(c) => c,
        None => 0u16,
    };
    seq![
        MAGIC_BYTE,
        options,
        (length / 256) as u8,
        (length % 256) as u8,
        (sum / 256) as u8,
        (sum % 256) as u8,
        0u8,
        0u8,
    ]
}

/// Builds the header of a well-formed frame with a body of `length` bytes: a
/// sensitive one carrying `checksum` if there is one, a plain one otherwise.
pub fn encode_header(length: u16, checksum: Option<u16>) -> (hdr: [u8; 8])
    ensures
        hdr@ == encoded_header(length, checksum),
{
    let options: u8 = if checksum.is_some() {
        SENSITIVE_BIT
    } else {
        0
    };
    let sum: u16 = match checksum {
        Some(c) => c,
        None => 0,
    };
    let hdr: [u8; 8] = [
        MAGIC_BYTE,
        options,
        (length / 256) as u8,
        (length % 256) as u8,
        (sum / 256) as u8,
        (sum % 256) as u8,
        0,
        0,
    ];
    proof {
        assert(hdr@ =~= encoded_header(length, checksum));
    }
    hdr
}

} // verus!
