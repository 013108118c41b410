use vstd::prelude::*;

use crate::error::DecodeError;

verus! {

/// The wire type of a Protobuf field: how its value is laid out in the
/// encoding.
#[derive(Debug, Clone, Copy, PartialEq, Eq, Structural)]
pub enum WireType {
    Varint,
    SixtyFourBit,
    LengthDelimited,
    StartGroup,
    EndGroup,
    ThirtyTwoBit,
}

/// The number that stands for a wire type in the low three bits of a key.
pub open spec fn wire_type_value(wt: WireType) -> nat {
    match wt {
        WireType::Varint => 0,
        WireType::SixtyFourBit => 1,
        WireType::LengthDelimited => 2,
        WireType::StartGroup => 3,
        WireType::EndGroup => 4,
        WireType::ThirtyTwoBit => 5,
    }
}

/// The wire type that a number stands for, if any.
pub open spec fn spec_wire_type_from(v: int) -> Option<WireType> {
    if v == 0 {
        Some(WireType::Varint)
    } else if v == 1 {
        Some(WireType::SixtyFourBit)
    } else if v == 2 {
        Some(WireType::LengthDelimited)
    } else if v == 3 {
        Some(WireType::StartGroup)
    } else if v == 4 {
        Some(WireType::EndGroup)
    } else if v == 5 {
        Some(WireType::ThirtyTwoBit)
    } else {
        None
    }
}

/// Each wire type is recovered from its number.
pub proof fn lemma_wire_type_value_roundtrip(wt: WireType)
    ensures
        wire_type_value(wt) < 8,
        spec_wire_type_from(wire_type_value(wt) as int) == Some(wt),
{
}

impl WireType {
    /// The number of this wire type.
    pub fn value(self) -> (r: u32)
        ensures
            r == wire_type_value(self),
    {
        match self {
            WireType::Varint => 0,
            WireType::SixtyFourBit => 1,
            WireType::LengthDelimited => 2,
            WireType::StartGroup => 3,
            WireType::EndGroup => 4,
            WireType::ThirtyTwoBit => 5,
        }
    }

    /// The wire type of a number, or an error for the numbers 6 and up.
    pub fn try_from_u64(value: u64) -> (r: Result<WireType, DecodeError>)
        ensures
            match spec_wire_type_from(value as int) {
                Some(wt) => r == Ok::<WireType, DecodeError>(wt),
                None => r == Err::<WireType, DecodeError>(DecodeError::InvalidWireType(value)),
            },
    {
        match value {
            0 => Ok(WireType::Varint),
            1 => Ok(WireType::SixtyFourBit),
            2 => Ok(WireType::LengthDelimited),
            3 => Ok(WireType::StartGroup),
            4 => Ok(WireType::EndGroup),
            5 => Ok(WireType::ThirtyTwoBit),
            _ => Err(DecodeError::InvalidWireType(value)),
        }
    }
}

/// Checks that a field arrived with the wire type its type uses.
pub fn check_wire_type(expected: WireType, actual: WireType) -> (r: Result<(), DecodeError>)
    ensures
        expected == actual ==> r is Ok,
        expected != actual ==> r == Err::<(), DecodeError>(
            DecodeError::WireTypeMismatch { expected, actual },
        ),
{
    if expected == actual {
        Ok(())
    } else {
        Err(DecodeError::WireTypeMismatch { expected, actual })
    }
}

/// The `Debug` name of a wire type.
pub open spec fn spec_wire_type_name(wt: WireType) -> Seq<char> {
    match wt {
        WireType::Varint => "Varint"@,
        WireType::SixtyFourBit => "SixtyFourBit"@,
        WireType::LengthDelimited => "LengthDelimited"@,
        WireType::StartGroup => "StartGroup"@,
        WireType::EndGroup => "EndGroup"@,
        WireType::ThirtyTwoBit => "ThirtyTwoBit"@,
    }
}

impl WireType {
    /// The `Debug` name of the wire type.
    pub fn name(&self) -> (r: &'static str)
        ensures
            r@ == spec_wire_type_name(*self),
    {
        match self {
            WireType::Varint => "Varint",
            WireType::SixtyFourBit => "SixtyFourBit",
            WireType::LengthDelimited => "LengthDelimited",
            WireType::StartGroup => "StartGroup",
            WireType::EndGroup => "EndGroup",
            WireType::ThirtyTwoBit => "ThirtyTwoBit",
        }
    }
}

} // verus!
