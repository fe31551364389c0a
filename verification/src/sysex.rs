//! The capability shared by every binary-encodable entity of a K4 dump:
//! fallible decode from bytes, byte-exact re-encoding, and a fixed encoded
//! size; and the structural fault such a decode can report.

use vstd::prelude::*;

use crate::text::{dec_rep, decimal_string};

verus! {

/// The section of a bank dump in which a structural fault was found.
#[derive(Debug, Clone, Copy, PartialEq, Eq, Structural)]
pub enum Section {
    Single,
    Multi,
    DrumCommon,
    DrumNote,
    Effect,
}

/// A structural fault in a byte buffer of the right length.
#[derive(Debug, Clone, Copy, PartialEq, Eq, Structural)]
pub enum DecodeError {
    /// The checksum byte that closes a record does not match the checksum
    /// computed over the record's data bytes.
    Checksum { section: Section, index: u8, expected: u8, found: u8 },
}

/// The wording used for each section in fault messages.
pub open spec fn section_name_spec(s: Section) -> Seq<char> {
    match s {
        Section::Single => "single patch "@,
        Section::Multi => "multi patch "@,
        Section::DrumCommon => "drum common"@,
        Section::DrumNote => "drum note "@,
        Section::Effect => "effect patch "@,
    }
}

/// Where a fault lies: the section's name, followed by the record's index
/// within the section for the sections that have more than one record.
pub open spec fn location_spec(section: Section, index: int) -> Seq<char> {
    if section is DrumCommon {
        section_name_spec(section)
    } else {
        section_name_spec(section) + dec_rep(index)
    }
}

/// The human-readable description of a fault.
pub open spec fn message_spec(e: DecodeError) -> Seq<char> {
    match e {
        DecodeError::Checksum { section, index, expected, found } => "checksum mismatch in "@
            + location_spec(section, index as int) + ": expected "@ + dec_rep(expected as int)
            + ", found "@ + dec_rep(found as int),
    }
}

fn section_label(s: Section) -> (r: &'static str)
    ensures
        r@ == section_name_spec(s),
{
    match s {
        Section::Single => "single patch ",
        Section::Multi => "multi patch ",
        Section::DrumCommon => "drum common",
        Section::DrumNote => "drum note ",
        Section::Effect => "effect patch ",
    }
}

impl DecodeError {
    /// Renders the fault as one human-readable line.
    pub fn message(&self) -> (r: String)
        ensures
            r@ == message_spec(*self),
    {
        match *self {
            DecodeError::Checksum { section, index, expected, found } => {
                let mut s = String::from_str("checksum mismatch in ");
                s.append(section_label(section));
                match section {
                    Section::DrumCommon => {},
                    _ => {
                        let d = decimal_string(index as u16);
                        s.append(d.as_str());
                    },
                }
                s.append(": expected ");
                let d = decimal_string(expected as u16);
                s.append(d.as_str());
                s.append(", found ");
                let d = decimal_string(found as u16);
                s.append(d.as_str());
                proof {
                    assert(s@ =~= message_spec(*self));
                }
                s
            },
        }
    }
}

/// The capability every binary-encodable entity implements: decode a byte
/// buffer of the entity's fixed size into a typed value (all-or-nothing),
/// re-encode a decoded value into exactly the bytes it came from, and report
/// the fixed encoded size.
pub trait SystemExclusiveData: View + Sized {
    /// The exact, fixed byte length of this entity's encoding.
    spec fn spec_data_size() -> nat;

    /// Well-formedness of a decoded value.
    spec fn wf(&self) -> bool;

    /// Whether a buffer of the right length conforms to the entity's layout.
    spec fn valid_encoding(data: Seq<u8>) -> bool;

    /// The abstract value that a conforming buffer decodes to.
    spec fn spec_decode(data: Seq<u8>) -> Self::V;

    /// The bytes that a decoded value re-encodes to.
    spec fn spec_encode(v: Self::V) -> Seq<u8>;

    /// Which fault `from_bytes` reports for a non-conforming buffer.
    spec fn decode_fault(data: Seq<u8>, e: DecodeError) -> bool;

    /// The fixed encoded byte length, for callers to pre-validate buffer
    /// lengths before attempting a decode.
    fn data_size() -> (r: usize)
        ensures
            r == Self::spec_data_size(),
    ;

    /// Decodes a buffer of exactly `data_size()` bytes. Succeeds if and only
    /// if the buffer conforms to the layout; there is no partial result.
    fn from_bytes(data: &Vec<u8>) -> (r: Result<Self, DecodeError>)
        requires
            data@.len() == Self::spec_data_size(),
        ensures
            r is Ok <==> Self::valid_encoding(data@),
            r matches Ok(v) ==> v.wf() && v@ == Self::spec_decode(data@),
            r matches Err(e) ==> Self::decode_fault(data@, e),
    ;

    /// Re-encodes the value: the exact inverse of `from_bytes` for any value
    /// that `from_bytes` produced.
    fn to_bytes(&self) -> (r: Vec<u8>)
        requires
            self.wf(),
        ensures
            r@ == Self::spec_encode(self@),
            r@.len() == Self::spec_data_size(),
    ;
}

} // verus!
