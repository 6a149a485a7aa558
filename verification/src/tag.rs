//! The type-tag codec: a bidirectional mapping between the closed set of 26
//! value kinds and the one-byte wire tag that announces a kind in the stream.
//!
//! The first revision of the format had 18 kinds, numbered 0 to 17; a later
//! revision added 8 more without disturbing the original byte values by
//! switching the high bit on for the new kinds.
use vstd::prelude::*;

verus! {

/// Decoding failure taxonomy for the whole codec.
#[derive(Clone, Copy, PartialEq, Eq, Structural, Debug)]
pub enum BinError {
    /// Bad magic or unsupported version at the head of a tree stream.
    FormatError,
    /// The stream ended in the middle of a field.
    TruncatedInput,
    /// A tag byte does not unpack to a known value kind.
    InvalidTag,
    /// String bytes are not valid UTF-8.
    InvalidUtf8,
    /// A kind outside the hashable subset was declared as a map key.
    UnsupportedMapKey,
}

/// The closed set of 26 discriminators for value nodes.
#[derive(Clone, Copy, PartialEq, Eq, Structural, Debug)]
pub enum BinValueType {
    Nil,
    Boolean,
    SByte,
    Byte,
    Int16,
    UInt16,
    Int32,
    UInt32,
    Int64,
    UInt64,
    Float,
    Vector2,
    Vector3,
    Vector4,
    Matrix44,
    Color,
    String,
    Hash,
    Container,
    Container2,
    Structure,
    Embedded,
    Link,
    Optional,
    Dict,
    FlagsBoolean,
}

/// The ordinal of a kind: its position in the closed set, 0 to 25.
pub open spec fn type_ordinal(t: BinValueType) -> u8 {
    match t {
        BinValueType::Nil => 0,
        BinValueType::Boolean => 1,
        BinValueType::SByte => 2,
        BinValueType::Byte => 3,
        BinValueType::Int16 => 4,
        BinValueType::UInt16 => 5,
        BinValueType::Int32 => 6,
        BinValueType::UInt32 => 7,
        BinValueType::Int64 => 8,
        BinValueType::UInt64 => 9,
        BinValueType::Float => 10,
        BinValueType::Vector2 => 11,
        BinValueType::Vector3 => 12,
        BinValueType::Vector4 => 13,
        BinValueType::Matrix44 => 14,
        BinValueType::Color => 15,
        BinValueType::String => 16,
        BinValueType::Hash => 17,
        BinValueType::Container => 18,
        BinValueType::Container2 => 19,
        BinValueType::Structure => 20,
        BinValueType::Embedded => 21,
        BinValueType::Link => 22,
        BinValueType::Optional => 23,
        BinValueType::Dict => 24,
        BinValueType::FlagsBoolean => 25,
    }
}

/// The wire tag of a kind: ordinals 0-17 map to themselves, ordinals 18-25
/// map to `(ordinal - 18) + 128`, setting the top bit.
pub open spec fn spec_pack_value_type(t: BinValueType) -> u8 {
    if type_ordinal(t) >= 18 {
        ((type_ordinal(t) - 18) + 128) as u8
    } else {
        type_ordinal(t)
    }
}

/// The kind a wire tag stands for, if any: a byte with the top bit set is
/// mapped back to ordinal `(byte - 128) + 18`, any other byte is its own
/// ordinal; an ordinal outside 0-25 is unknown.
pub open spec fn spec_unpack_value_type(b: u8) -> Option<BinValueType> {
    ordinal_type(if b >= 128 {
        ((b - 128) + 18) as u8
    } else {
        b
    })
}

/// The kind at a given ordinal, if the ordinal is in range.
pub open spec fn ordinal_type(v: u8) -> Option<BinValueType> {
    if v == 0 {
        Some(BinValueType::Nil)
    } else if v == 1 {
        Some(BinValueType::Boolean)
    } else if v == 2 {
        Some(BinValueType::SByte)
    } else if v == 3 {
        Some(BinValueType::Byte)
    } else if v == 4 {
        Some(BinValueType::Int16)
    } else if v == 5 {
        Some(BinValueType::UInt16)
    } else if v == 6 {
        Some(BinValueType::Int32)
    } else if v == 7 {
        Some(BinValueType::UInt32)
    } else if v == 8 {
        Some(BinValueType::Int64)
    } else if v == 9 {
        Some(BinValueType::UInt64)
    } else if v == 10 {
        Some(BinValueType::Float)
    } else if v == 11 {
        Some(BinValueType::Vector2)
    } else if v == 12 {
        Some(BinValueType::Vector3)
    } else if v == 13 {
        Some(BinValueType::Vector4)
    } else if v == 14 {
        Some(BinValueType::Matrix44)
    } else if v == 15 {
        Some(BinValueType::Color)
    } else if v == 16 {
        Some(BinValueType::String)
    } else if v == 17 {
        Some(BinValueType::Hash)
    } else if v == 18 {
        Some(BinValueType::Container)
    } else if v == 19 {
        Some(BinValueType::Container2)
    } else if v == 20 {
        Some(BinValueType::Structure)
    } else if v == 21 {
        Some(BinValueType::Embedded)
    } else if v == 22 {
        Some(BinValueType::Link)
    } else if v == 23 {
        Some(BinValueType::Optional)
    } else if v == 24 {
        Some(BinValueType::Dict)
    } else if v == 25 {
        Some(BinValueType::FlagsBoolean)
    } else {
        None
    }
}

impl BinValueType {
    /// Packs this kind into its one-byte wire tag.
    pub fn pack(self) -> (r: u8)
        ensures
            r == spec_pack_value_type(self),
    {
        let ord: u8 = match self {
            BinValueType::Nil => 0,
            BinValueType::Boolean => 1,
            BinValueType::SByte => 2,
            BinValueType::Byte => 3,
            BinValueType::Int16 => 4,
            BinValueType::UInt16 => 5,
            BinValueType::Int32 => 6,
            BinValueType::UInt32 => 7,
            BinValueType::Int64 => 8,
            BinValueType::UInt64 => 9,
            BinValueType::Float => 10,
            BinValueType::Vector2 => 11,
            BinValueType::Vector3 => 12,
            BinValueType::Vector4 => 13,
            BinValueType::Matrix44 => 14,
            BinValueType::Color => 15,
            BinValueType::String => 16,
            BinValueType::Hash => 17,
            BinValueType::Container => 18,
            BinValueType::Container2 => 19,
            BinValueType::Structure => 20,
            BinValueType::Embedded => 21,
            BinValueType::Link => 22,
            BinValueType::Optional => 23,
            BinValueType::Dict => 24,
            BinValueType::FlagsBoolean => 25,
        };
        if ord >= 18 {
            (ord - 18) + 128
        } else {
            ord
        }
    }

    /// Unpacks a wire tag back into a kind, or reports `InvalidTag` for a
    /// byte whose ordinal falls outside the closed set.
    pub fn unpack(b: u8) -> (r: Result<BinValueType, BinError>)
        ensures
            r matches Ok(t) ==> spec_unpack_value_type(b) == Some(t),
            r matches Err(e) ==> spec_unpack_value_type(b) is None && e == BinError::InvalidTag,
    {
        let ord: u8 = if b >= 128 {
            (b - 128) + 18
        } else {
            b
        };
        let t = match ord {
            0 => BinValueType::Nil,
            1 => BinValueType::Boolean,
            2 => BinValueType::SByte,
            3 => BinValueType::Byte,
            4 => BinValueType::Int16,
            5 => BinValueType::UInt16,
            6 => BinValueType::Int32,
            7 => BinValueType::UInt32,
            8 => BinValueType::Int64,
            9 => BinValueType::UInt64,
            10 => BinValueType::Float,
            11 => BinValueType::Vector2,
            12 => BinValueType::Vector3,
            13 => BinValueType::Vector4,
            14 => BinValueType::Matrix44,
            15 => BinValueType::Color,
            16 => BinValueType::String,
            17 => BinValueType::Hash,
            18 => BinValueType::Container,
            19 => BinValueType::Container2,
            20 => BinValueType::Structure,
            21 => BinValueType::Embedded,
            22 => BinValueType::Link,
            23 => BinValueType::Optional,
            24 => BinValueType::Dict,
            25 => BinValueType::FlagsBoolean,
            _ => {
                return Err(BinError::InvalidTag);
            },
        };
        Ok(t)
    }
}

/// Tag round trip: every kind survives packing and unpacking unchanged.
pub proof fn lemma_tag_round_trip(t: BinValueType)
    ensures
        spec_unpack_value_type(spec_pack_value_type(t)) == Some(t),
{
}

/// A wire tag unpacks to some kind exactly when, after the high-bit
/// namespace switch, its ordinal lies in the closed set: plain bytes 0-25
/// and high-bit bytes 128-135 are accepted, everything else is rejected.
pub proof fn lemma_tag_valid_range(b: u8)
    ensures
        spec_unpack_value_type(b) is Some <==> (b < 26 || (128 <= b && b < 136)),
{
}

} // verus!
