//! The exact wire shape of every node, stated over the mathematical models:
//! the byte sequence a node encodes to, and the well-formedness every
//! encodable or decoded node satisfies.
use vstd::prelude::*;
use vstd::bytes::{spec_u16_to_le_bytes, spec_u32_to_le_bytes, spec_u64_to_le_bytes};
use vstd::utf8::valid_utf8;
use crate::tag::{BinValueType, spec_pack_value_type};
use crate::value::{
    Node, StructV, ContainerV, MapV, node_kind, node_name, is_hashable_kind, distinct_keys,
};

verus! {

broadcast use vstd::seq::axiom_seq_index_decreases, vstd::seq::axiom_seq_subrange_decreases;

/// The greatest value a 32-bit size or count prefix can carry.
pub open spec fn size_limit() -> int {
    0xFFFF_FFFF
}

/// A sequence of `u32` values encoded back to back, little-endian.
pub open spec fn enc_u32s(s: Seq<u32>) -> Seq<u8>
    decreases s.len(),
{
    if s.len() == 0 {
        Seq::empty()
    } else {
        spec_u32_to_le_bytes(s[0]) + enc_u32s(s.subrange(1, s.len() as int))
    }
}

/// The payload bytes of a node: what stands after the name and tag byte of
/// a named position, and the whole contribution of a bare position.
pub open spec fn enc_bare(n: Node) -> Seq<u8>
    decreases n, 1int,
{
    match n {
        Node::Nil { .. } => Seq::empty(),
        Node::Boolean { value, .. } => seq![if value { 1u8 } else { 0u8 }],
        Node::SByte { value, .. } => seq![value as u8],
        Node::Byte { value, .. } => seq![value],
        Node::Int16 { value, .. } => spec_u16_to_le_bytes(value as u16),
        Node::UInt16 { value, .. } => spec_u16_to_le_bytes(value),
        Node::Int32 { value, .. } => spec_u32_to_le_bytes(value as u32),
        Node::UInt32 { value, .. } => spec_u32_to_le_bytes(value),
        Node::Int64 { value, .. } => spec_u64_to_le_bytes(value as u64),
        Node::UInt64 { value, .. } => spec_u64_to_le_bytes(value),
        Node::Float { value, .. } => spec_u32_to_le_bytes(value),
        Node::Vector2 { value, .. } => spec_u32_to_le_bytes(value.x) + spec_u32_to_le_bytes(
            value.y,
        ),
        Node::Vector3 { value, .. } => spec_u32_to_le_bytes(value.x) + spec_u32_to_le_bytes(value.y)
            + spec_u32_to_le_bytes(value.z),
        Node::Vector4 { value, .. } => spec_u32_to_le_bytes(value.x) + spec_u32_to_le_bytes(value.y)
            + spec_u32_to_le_bytes(value.z) + spec_u32_to_le_bytes(value.w),
        Node::Matrix44 { bits, .. } => enc_u32s(bits),
        Node::Color { value, .. } => seq![value.r, value.g, value.b, value.a],
        Node::String { bytes, .. } => spec_u16_to_le_bytes(bytes.len() as u16) + bytes,
        Node::Hash { value, .. } => spec_u32_to_le_bytes(value),
        Node::Container { value, .. } => enc_container(value),
        Node::Container2 { value, .. } => enc_container(value),
        Node::Structure { value, .. } => enc_struct(value),
        Node::Embedded { value, .. } => enc_struct(value),
        Node::Link { value, .. } => spec_u32_to_le_bytes(value),
        Node::Optional { value_type, value, .. } => seq![
            spec_pack_value_type(value_type),
            if value.len() > 0 {
                1u8
            } else {
                0u8
            },
        ] + if value.len() > 0 {
            enc_bare(value[0])
        } else {
            Seq::empty()
        },
        Node::Dict { value, .. } => enc_map(value),
        Node::FlagsBoolean { value, .. } => seq![if value { 1u8 } else { 0u8 }],
    }
}

/// The bytes of a node in a named position: name, packed tag, payload.
pub open spec fn enc_named(n: Node) -> Seq<u8>
    decreases n, 2int,
{
    spec_u32_to_le_bytes(node_name(n)) + seq![spec_pack_value_type(node_kind(n))] + enc_bare(n)
}

/// The bytes of a sequence of bare nodes, back to back.
pub open spec fn enc_bare_list(s: Seq<Node>) -> Seq<u8>
    decreases s, s.len(),
{
    if s.len() == 0 {
        Seq::empty()
    } else {
        enc_bare(s[0]) + enc_bare_list(s.subrange(1, s.len() as int))
    }
}

/// The bytes of a sequence of named nodes, back to back.
pub open spec fn enc_named_list(s: Seq<Node>) -> Seq<u8>
    decreases s, s.len(),
{
    if s.len() == 0 {
        Seq::empty()
    } else {
        enc_named(s[0]) + enc_named_list(s.subrange(1, s.len() as int))
    }
}

/// The bytes of a sequence of key-value pairs: each bare key followed by its
/// bare value.
pub open spec fn enc_pair_list(s: Seq<(Node, Node)>) -> Seq<u8>
    decreases s, s.len(),
{
    if s.len() == 0 {
        Seq::empty()
    } else {
        enc_bare(s[0].0) + enc_bare(s[0].1) + enc_pair_list(s.subrange(1, s.len() as int))
    }
}

/// The content bytes of a named aggregate with a nonzero name: what its
/// 32-bit content-size prefix counts.
pub open spec fn struct_content_len(s: StructV) -> int
    decreases s, 0int,
{
    2 + enc_named_list(s.fields).len() as int
}

/// The payload of a named aggregate: its name alone when the name is the
/// absent sentinel, else name, content size, field count and fields.
pub open spec fn enc_struct(s: StructV) -> Seq<u8>
    decreases s, 1int,
{
    spec_u32_to_le_bytes(s.name) + if s.name == 0 {
        Seq::empty()
    } else {
        spec_u32_to_le_bytes(struct_content_len(s) as u32) + spec_u16_to_le_bytes(
            s.fields.len() as u16,
        ) + enc_named_list(s.fields)
    }
}

/// The content bytes of a homogeneous aggregate: what its 32-bit
/// content-size prefix counts.
pub open spec fn container_content_len(c: ContainerV) -> int
    decreases c, 0int,
{
    4 + enc_bare_list(c.values).len() as int
}

/// The payload of a homogeneous aggregate: element kind tag, content size,
/// element count, then the bare elements.
pub open spec fn enc_container(c: ContainerV) -> Seq<u8>
    decreases c, 1int,
{
    seq![spec_pack_value_type(c.value_type)] + spec_u32_to_le_bytes(
        container_content_len(c) as u32,
    ) + spec_u32_to_le_bytes(c.values.len() as u32) + enc_bare_list(c.values)
}

/// The content bytes of a keyed aggregate: what its 32-bit content-size
/// prefix counts.
pub open spec fn map_content_len(m: MapV) -> int
    decreases m, 0int,
{
    4 + enc_pair_list(m.pairs).len() as int
}

/// The payload of a keyed aggregate: key kind tag, value kind tag, content
/// size, entry count, then the bare pairs.
pub open spec fn enc_map(m: MapV) -> Seq<u8>
    decreases m, 1int,
{
    seq![
        spec_pack_value_type(m.key_type),
        spec_pack_value_type(m.value_type),
    ] + spec_u32_to_le_bytes(map_content_len(m) as u32) + spec_u32_to_le_bytes(
        m.pairs.len() as u32,
    ) + enc_pair_list(m.pairs)
}

/// Well-formedness of a node standing in a bare position of declared kind
/// `k`: its own shape is sound, it is of kind `k`, and it carries the elided
/// name as zero.
pub open spec fn wf_bare(n: Node, k: BinValueType) -> bool
    decreases n, 2int,
{
    node_kind(n) == k && node_name(n) == 0 && wf_node(n)
}

/// Well-formedness of a node: every nested count and content size fits its
/// wire prefix, string payloads are valid UTF-8, aggregate members agree
/// with their declared kinds, bare members elide their names as zero, and
/// map keys are pairwise distinct.
pub open spec fn wf_node(n: Node) -> bool
    decreases n, 1int,
{
    match n {
        Node::Matrix44 { bits, .. } => bits.len() == 16,
        Node::String { bytes, .. } => bytes.len() <= 0xFFFF && valid_utf8(bytes),
        Node::Container { value, .. } => wf_container(value),
        Node::Container2 { value, .. } => wf_container(value),
        Node::Structure { value, .. } => wf_struct(value),
        Node::Embedded { value, .. } => wf_struct(value),
        Node::Optional { value_type, value, .. } => value.len() <= 1 && (value.len() == 1
            ==> wf_bare(value[0], value_type) && enc_bare(value[0]).len() <= size_limit()),
        Node::Dict { value, .. } => wf_map(value),
        _ => true,
    }
}

/// Well-formedness of every node of a bare list against one declared kind.
pub open spec fn wf_bare_list(s: Seq<Node>, k: BinValueType) -> bool
    decreases s, 3int,
{
    forall|i: int| 0 <= i < s.len() ==> wf_bare(#[trigger] s[i], k)
}

/// Well-formedness of every node of a named list; named fields may carry
/// any name, the zero name included.
pub open spec fn wf_named_list(s: Seq<Node>) -> bool
    decreases s, 3int,
{
    forall|i: int| 0 <= i < s.len() ==> wf_node(#[trigger] s[i])
}

/// Well-formedness of every key and value of a pair list against the
/// declared key and value kinds.
pub open spec fn wf_pair_list(s: Seq<(Node, Node)>, kk: BinValueType, vk: BinValueType) -> bool
    decreases s, 3int,
{
    forall|i: int| #![trigger s[i]] 0 <= i < s.len() ==> wf_bare(s[i].0, kk) && wf_bare(s[i].1, vk)
}

/// Well-formedness of a named aggregate: an absent name carries no fields,
/// the field count fits its 16-bit prefix, the content size fits its 32-bit
/// prefix, and every field is well-formed.
pub open spec fn wf_struct(s: StructV) -> bool
    decreases s, 2int,
{
    &&& (s.name == 0 ==> s.fields.len() == 0)
    &&& s.fields.len() <= 0xFFFF
    &&& struct_content_len(s) <= size_limit()
    &&& wf_named_list(s.fields)
}

/// Well-formedness of a homogeneous aggregate: the element count and the
/// content size fit their 32-bit prefixes and every element is a well-formed
/// bare node of the declared kind.
pub open spec fn wf_container(c: ContainerV) -> bool
    decreases c, 2int,
{
    &&& c.values.len() <= size_limit()
    &&& container_content_len(c) <= size_limit()
    &&& wf_bare_list(c.values, c.value_type)
}

/// Well-formedness of a keyed aggregate: the entry count and the content
/// size fit their 32-bit prefixes, every pair is well-formed against the
/// declared kinds, and stored keys are pairwise distinct.
pub open spec fn wf_map(m: MapV) -> bool
    decreases m, 2int,
{
    &&& m.pairs.len() <= size_limit()
    &&& map_content_len(m) <= size_limit()
    &&& wf_pair_list(m.pairs, m.key_type, m.value_type)
    &&& distinct_keys(m.pairs)
}

/// Every map nested anywhere below this node declares a hashable key kind.
pub open spec fn node_maps_ok(n: Node) -> bool
    decreases n, 1int,
{
    match n {
        Node::Container { value, .. } => list_maps_ok(value.values),
        Node::Container2 { value, .. } => list_maps_ok(value.values),
        Node::Structure { value, .. } => list_maps_ok(value.fields),
        Node::Embedded { value, .. } => list_maps_ok(value.fields),
        Node::Optional { value, .. } => value.len() == 1 ==> node_maps_ok(value[0]),
        Node::Dict { value, .. } => is_hashable_kind(value.key_type) && pairs_maps_ok(value.pairs),
        _ => true,
    }
}

/// Every map nested anywhere below the nodes of a list declares a hashable
/// key kind.
pub open spec fn list_maps_ok(s: Seq<Node>) -> bool
    decreases s, 3int,
{
    forall|i: int| 0 <= i < s.len() ==> node_maps_ok(#[trigger] s[i])
}

/// Every map nested anywhere below the pairs of a list declares a hashable
/// key kind.
pub open spec fn pairs_maps_ok(s: Seq<(Node, Node)>) -> bool
    decreases s, 3int,
{
    forall|i: int| #![trigger s[i]] 0 <= i < s.len() ==> node_maps_ok(s[i].0) && node_maps_ok(
        s[i].1,
    )
}

} // verus!

