//! The wire format as a deterministic parser, stated as spec functions: for
//! every byte sequence, position and expected shape, either the node those
//! bytes denote and the position just past it, or the error that aborts the
//! decode. The executable decoder is proved to return exactly these results.
//!
//! Content-size prefixes are advisory on the wire: the parser reads and
//! discards them, as the format requires, so a stream with a stale size
//! still decodes by its actual contents.
use vstd::prelude::*;
use crate::tag::{BinValueType, BinError, spec_unpack_value_type};
use crate::bytes::{Parsed, rd_u8, rd_u16, rd_u32, rd_u64, rd_bytes};
use crate::value::{
    Node, StructV, ContainerV, MapV, Vector2, Vector3, Vector4, build_map, is_hashable_kind,
};
use vstd::utf8::valid_utf8;

verus! {

/// A parse outcome for a list, with `prefix` already taken off the front.
pub open spec fn prepend_parsed<T>(prefix: Seq<T>, p: Parsed<Seq<T>>) -> Parsed<Seq<T>> {
    match p {
        Parsed::Found(v, end) => Parsed::Found(prefix + v, end),
        Parsed::Fail(e) => Parsed::Fail(e),
    }
}

/// Taking a prefix off the front twice is taking the joined prefix off once.
pub proof fn lemma_prepend_assoc<T>(a: Seq<T>, b: Seq<T>, p: Parsed<Seq<T>>)
    ensures
        prepend_parsed(a, prepend_parsed(b, p)) == prepend_parsed(a + b, p),
{
    match p {
        Parsed::Found(v, end) => {
            assert(a + (b + v) =~= (a + b) + v);
        },
        Parsed::Fail(_) => {
        },
    }
}

/// An empty prefix takes nothing off the front.
pub proof fn lemma_prepend_empty<T>(p: Parsed<Seq<T>>)
    ensures
        prepend_parsed(Seq::<T>::empty(), p) == p,
{
    match p {
        Parsed::Found(v, end) => {
            assert(Seq::<T>::empty() + v =~= v);
        },
        Parsed::Fail(_) => {
        },
    }
}

/// `n` little-endian `u32` values, back to back.
pub open spec fn dec_u32_list(s: Seq<u8>, pos: int, n: int) -> Parsed<Seq<u32>>
    decreases n,
{
    if n <= 0 {
        Parsed::Found(Seq::empty(), pos)
    } else {
        match rd_u32(s, pos) {
            Parsed::Found(v, p1) => match dec_u32_list(s, p1, n - 1) {
                Parsed::Found(rest, end) => Parsed::Found(seq![v] + rest, end),
                Parsed::Fail(e) => Parsed::Fail(e),
            },
            Parsed::Fail(e) => Parsed::Fail(e),
        }
    }
}

/// A node in a named position: 32-bit name, one tag byte, then the payload
/// of the unpacked kind.
pub open spec fn dec_named(s: Seq<u8>, pos: int) -> Parsed<Node>
    decreases s.len() - pos, 2int, 0int,
{
    match rd_u32(s, pos) {
        Parsed::Found(name, p1) => match rd_u8(s, p1) {
            Parsed::Found(tag, p2) => match spec_unpack_value_type(tag) {
                Some(k) => dec_bare(s, p2, k, name),
                None => Parsed::Fail(BinError::InvalidTag),
            },
            Parsed::Fail(e) => Parsed::Fail(e),
        },
        Parsed::Fail(e) => Parsed::Fail(e),
    }
}

/// The payload of a node of kind `k` in a bare position, carrying `name`
/// (zero in every truly bare position; the name read by `dec_named`
/// otherwise).
pub open spec fn dec_bare(s: Seq<u8>, pos: int, k: BinValueType, name: u32) -> Parsed<Node>
    decreases s.len() - pos, 2int, 0int,
{
    match k {
        BinValueType::Nil => Parsed::Found(Node::Nil { name }, pos),
        BinValueType::Boolean => match rd_u8(s, pos) {
            Parsed::Found(b, end) => Parsed::Found(Node::Boolean { name, value: b != 0 }, end),
            Parsed::Fail(e) => Parsed::Fail(e),
        },
        BinValueType::SByte => match rd_u8(s, pos) {
            Parsed::Found(b, end) => Parsed::Found(Node::SByte { name, value: b as i8 }, end),
            Parsed::Fail(e) => Parsed::Fail(e),
        },
        BinValueType::Byte => match rd_u8(s, pos) {
            Parsed::Found(b, end) => Parsed::Found(Node::Byte { name, value: b }, end),
            Parsed::Fail(e) => Parsed::Fail(e),
        },
        BinValueType::Int16 => match rd_u16(s, pos) {
            Parsed::Found(v, end) => Parsed::Found(Node::Int16 { name, value: v as i16 }, end),
            Parsed::Fail(e) => Parsed::Fail(e),
        },
        BinValueType::UInt16 => match rd_u16(s, pos) {
            Parsed::Found(v, end) => Parsed::Found(Node::UInt16 { name, value: v }, end),
            Parsed::Fail(e) => Parsed::Fail(e),
        },
        BinValueType::Int32 => match rd_u32(s, pos) {
            Parsed::Found(v, end) => Parsed::Found(Node::Int32 { name, value: v as i32 }, end),
            Parsed::Fail(e) => Parsed::Fail(e),
        },
        BinValueType::UInt32 => match rd_u32(s, pos) {
            Parsed::Found(v, end) => Parsed::Found(Node::UInt32 { name, value: v }, end),
            Parsed::Fail(e) => Parsed::Fail(e),
        },
        BinValueType::Int64 => match rd_u64(s, pos) {
            Parsed::Found(v, end) => Parsed::Found(Node::Int64 { name, value: v as i64 }, end),
            Parsed::Fail(e) => Parsed::Fail(e),
        },
        BinValueType::UInt64 => match rd_u64(s, pos) {
            Parsed::Found(v, end) => Parsed::Found(Node::UInt64 { name, value: v }, end),
            Parsed::Fail(e) => Parsed::Fail(e),
        },
        BinValueType::Float => match rd_u32(s, pos) {
            Parsed::Found(v, end) => Parsed::Found(Node::Float { name, value: v }, end),
            Parsed::Fail(e) => Parsed::Fail(e),
        },
        BinValueType::Vector2 => match dec_u32_list(s, pos, 2) {
            Parsed::Found(v, end) => Parsed::Found(
                Node::Vector2 { name, value: Vector2 { x: v[0], y: v[1] } },
                end,
            ),
            Parsed::Fail(e) => Parsed::Fail(e),
        },
        BinValueType::Vector3 => match dec_u32_list(s, pos, 3) {
            Parsed::Found(v, end) => Parsed::Found(
                Node::Vector3 { name, value: Vector3 { x: v[0], y: v[1], z: v[2] } },
                end,
            ),
            Parsed::Fail(e) => Parsed::Fail(e),
        },
        BinValueType::Vector4 => match dec_u32_list(s, pos, 4) {
            Parsed::Found(v, end) => Parsed::Found(
                Node::Vector4 { name, value: Vector4 { x: v[0], y: v[1], z: v[2], w: v[3] } },
                end,
            ),
            Parsed::Fail(e) => Parsed::Fail(e),
        },
        BinValueType::Matrix44 => match dec_u32_list(s, pos, 16) {
            Parsed::Found(v, end) => Parsed::Found(Node::Matrix44 { name, bits: v }, end),
            Parsed::Fail(e) => Parsed::Fail(e),
        },
        BinValueType::Color => match rd_bytes(s, pos, 4) {
            Parsed::Found(b, end) => Parsed::Found(
                Node::Color {
                    name,
                    value: (crate::color_rgba::ColorRGBA { r: b[0], g: b[1], b: b[2], a: b[3] }),
                },
                end,
            ),
            Parsed::Fail(e) => Parsed::Fail(e),
        },
        BinValueType::String => match rd_u16(s, pos) {
            Parsed::Found(len, p1) => match rd_bytes(s, p1, len as int) {
                Parsed::Found(bytes, end) => if valid_utf8(bytes) {
                    Parsed::Found(Node::String { name, bytes }, end)
                } else {
                    Parsed::Fail(BinError::InvalidUtf8)
                },
                Parsed::Fail(e) => Parsed::Fail(e),
            },
            Parsed::Fail(e) => Parsed::Fail(e),
        },
        BinValueType::Hash => match rd_u32(s, pos) {
            Parsed::Found(v, end) => Parsed::Found(Node::Hash { name, value: v }, end),
            Parsed::Fail(e) => Parsed::Fail(e),
        },
        BinValueType::Container => match dec_container(s, pos) {
            Parsed::Found(c, end) => Parsed::Found(Node::Container { name, value: c }, end),
            Parsed::Fail(e) => Parsed::Fail(e),
        },
        BinValueType::Container2 => match dec_container(s, pos) {
            Parsed::Found(c, end) => Parsed::Found(Node::Container2 { name, value: c }, end),
            Parsed::Fail(e) => Parsed::Fail(e),
        },
        BinValueType::Structure => match dec_struct(s, pos) {
            Parsed::Found(v, end) => Parsed::Found(Node::Structure { name, value: v }, end),
            Parsed::Fail(e) => Parsed::Fail(e),
        },
        BinValueType::Embedded => match dec_struct(s, pos) {
            Parsed::Found(v, end) => Parsed::Found(Node::Embedded { name, value: v }, end),
            Parsed::Fail(e) => Parsed::Fail(e),
        },
        BinValueType::Link => match rd_u32(s, pos) {
            Parsed::Found(v, end) => Parsed::Found(Node::Link { name, value: v }, end),
            Parsed::Fail(e) => Parsed::Fail(e),
        },
        BinValueType::Optional => match rd_u8(s, pos) {
            Parsed::Found(tag, p1) => match spec_unpack_value_type(tag) {
                Some(inner) => match rd_u8(s, p1) {
                    Parsed::Found(flag, p2) => if flag != 0 {
                        match dec_bare(s, p2, inner, 0) {
                            Parsed::Found(v, end) => Parsed::Found(
                                Node::Optional { name, value_type: inner, value: seq![v] },
                                end,
                            ),
                            Parsed::Fail(e) => Parsed::Fail(e),
                        }
                    } else {
                        Parsed::Found(
                            Node::Optional { name, value_type: inner, value: Seq::empty() },
                            p2,
                        )
                    },
                    Parsed::Fail(e) => Parsed::Fail(e),
                },
                None => Parsed::Fail(BinError::InvalidTag),
            },
            Parsed::Fail(e) => Parsed::Fail(e),
        },
        BinValueType::Dict => match dec_map(s, pos) {
            Parsed::Found(m, end) => Parsed::Found(Node::Dict { name, value: m }, end),
            Parsed::Fail(e) => Parsed::Fail(e),
        },
        BinValueType::FlagsBoolean => match rd_u8(s, pos) {
            Parsed::Found(b, end) => Parsed::Found(Node::FlagsBoolean { name, value: b != 0 }, end),
            Parsed::Fail(e) => Parsed::Fail(e),
        },
    }
}

/// A homogeneous aggregate payload: element kind tag, advisory content
/// size, element count, then that many bare elements of the element kind.
pub open spec fn dec_container(s: Seq<u8>, pos: int) -> Parsed<ContainerV>
    decreases s.len() - pos, 1int, 0int,
{
    match rd_u8(s, pos) {
        Parsed::Found(tag, p1) => match spec_unpack_value_type(tag) {
            Some(ek) => match rd_u32(s, p1) {
                Parsed::Found(_size, p2) => match rd_u32(s, p2) {
                    Parsed::Found(count, p3) => match dec_bare_list(s, p3, ek, count as int) {
                        Parsed::Found(values, end) => Parsed::Found(
                            ContainerV { value_type: ek, values },
                            end,
                        ),
                        Parsed::Fail(e) => Parsed::Fail(e),
                    },
                    Parsed::Fail(e) => Parsed::Fail(e),
                },
                Parsed::Fail(e) => Parsed::Fail(e),
            },
            None => Parsed::Fail(BinError::InvalidTag),
        },
        Parsed::Fail(e) => Parsed::Fail(e),
    }
}

/// A named aggregate payload: 32-bit name; the zero name ends it there with
/// no fields; any other name is followed by an advisory content size, a
/// 16-bit field count, and that many named fields.
pub open spec fn dec_struct(s: Seq<u8>, pos: int) -> Parsed<StructV>
    decreases s.len() - pos, 1int, 0int,
{
    match rd_u32(s, pos) {
        Parsed::Found(name, p1) => if name == 0 {
            Parsed::Found(StructV { name: 0, fields: Seq::empty() }, p1)
        } else {
            match rd_u32(s, p1) {
                Parsed::Found(_size, p2) => match rd_u16(s, p2) {
                    Parsed::Found(count, p3) => match dec_named_list(s, p3, count as int) {
                        Parsed::Found(fields, end) => Parsed::Found(StructV { name, fields }, end),
                        Parsed::Fail(e) => Parsed::Fail(e),
                    },
                    Parsed::Fail(e) => Parsed::Fail(e),
                },
                Parsed::Fail(e) => Parsed::Fail(e),
            }
        },
        Parsed::Fail(e) => Parsed::Fail(e),
    }
}

/// A keyed aggregate payload: key kind tag, value kind tag, a check that
/// the key kind is hashable, advisory content size, entry count, then that
/// many bare key-value pairs, inserted in stream order.
pub open spec fn dec_map(s: Seq<u8>, pos: int) -> Parsed<MapV>
    decreases s.len() - pos, 1int, 0int,
{
    match rd_u8(s, pos) {
        Parsed::Found(ktag, p1) => match spec_unpack_value_type(ktag) {
            Some(kk) => match rd_u8(s, p1) {
                Parsed::Found(vtag, p2) => match spec_unpack_value_type(vtag) {
                    Some(vk) => if !is_hashable_kind(kk) {
                        Parsed::Fail(BinError::UnsupportedMapKey)
                    } else {
                        match rd_u32(s, p2) {
                            Parsed::Found(_size, p3) => match rd_u32(s, p3) {
                                Parsed::Found(count, p4) => match dec_pair_list(
                                    s,
                                    p4,
                                    kk,
                                    vk,
                                    count as int,
                                ) {
                                    Parsed::Found(raw, end) => Parsed::Found(
                                        MapV {
                                            key_type: kk,
                                            value_type: vk,
                                            pairs: build_map(raw),
                                        },
                                        end,
                                    ),
                                    Parsed::Fail(e) => Parsed::Fail(e),
                                },
                                Parsed::Fail(e) => Parsed::Fail(e),
                            },
                            Parsed::Fail(e) => Parsed::Fail(e),
                        }
                    },
                    None => Parsed::Fail(BinError::InvalidTag),
                },
                Parsed::Fail(e) => Parsed::Fail(e),
            },
            None => Parsed::Fail(BinError::InvalidTag),
        },
        Parsed::Fail(e) => Parsed::Fail(e),
    }
}

/// `n` bare nodes of kind `k`, back to back.
pub open spec fn dec_bare_list(s: Seq<u8>, pos: int, k: BinValueType, n: int) -> Parsed<Seq<Node>>
    decreases s.len() - pos, 3int, n,
{
    if n <= 0 {
        Parsed::Found(Seq::empty(), pos)
    } else {
        match dec_bare(s, pos, k, 0) {
            Parsed::Found(v, p1) => if pos <= p1 <= s.len() {
                match dec_bare_list(s, p1, k, n - 1) {
                    Parsed::Found(rest, end) => Parsed::Found(seq![v] + rest, end),
                    Parsed::Fail(e) => Parsed::Fail(e),
                }
            } else {
                Parsed::Fail(BinError::TruncatedInput)
            },
            Parsed::Fail(e) => Parsed::Fail(e),
        }
    }
}

/// `n` named nodes, back to back.
pub open spec fn dec_named_list(s: Seq<u8>, pos: int, n: int) -> Parsed<Seq<Node>>
    decreases s.len() - pos, 3int, n,
{
    if n <= 0 {
        Parsed::Found(Seq::empty(), pos)
    } else {
        match dec_named(s, pos) {
            Parsed::Found(v, p1) => if pos <= p1 <= s.len() {
                match dec_named_list(s, p1, n - 1) {
                    Parsed::Found(rest, end) => Parsed::Found(seq![v] + rest, end),
                    Parsed::Fail(e) => Parsed::Fail(e),
                }
            } else {
                Parsed::Fail(BinError::TruncatedInput)
            },
            Parsed::Fail(e) => Parsed::Fail(e),
        }
    }
}

/// `n` key-value pairs of bare nodes, back to back.
pub open spec fn dec_pair_list(
    s: Seq<u8>,
    pos: int,
    kk: BinValueType,
    vk: BinValueType,
    n: int,
) -> Parsed<Seq<(Node, Node)>>
    decreases s.len() - pos, 3int, n,
{
    if n <= 0 {
        Parsed::Found(Seq::empty(), pos)
    } else {
        match dec_bare(s, pos, kk, 0) {
            Parsed::Found(kv, p1) => if pos <= p1 <= s.len() {
                match dec_bare(s, p1, vk, 0) {
                    Parsed::Found(vv, p2) => if p1 <= p2 <= s.len() {
                        match dec_pair_list(s, p2, kk, vk, n - 1) {
                            Parsed::Found(rest, end) => Parsed::Found(seq![(kv, vv)] + rest, end),
                            Parsed::Fail(e) => Parsed::Fail(e),
                        }
                    } else {
                        Parsed::Fail(BinError::TruncatedInput)
                    },
                    Parsed::Fail(e) => Parsed::Fail(e),
                }
            } else {
                Parsed::Fail(BinError::TruncatedInput)
            },
            Parsed::Fail(e) => Parsed::Fail(e),
        }
    }
}

} // verus!
