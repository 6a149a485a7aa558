//! The executable encoder and the exact size computation. Every size
//! function returns the exact count of bytes the matching write emits, and
//! every write appends exactly the bytes the wire spec of `wire` denotes.
//!
//! Writing fails only on a keyed aggregate whose declared key kind is not
//! hashable; the partial bytes already appended are then meaningless and the
//! callers that own the buffer discard it.
use vstd::prelude::*;
use crate::tag::{BinValueType, BinError};
use crate::bytes::{put_u8, put_u16, put_u32, put_u64, put_bytes};
use crate::value::{
    BinValue, BinStructure, BinContainer, BinMap, Node, view_value, view_nodes, view_pairs,
};
use crate::wire::{
    enc_bare, enc_named, enc_bare_list, enc_named_list, enc_pair_list, enc_u32s, enc_struct,
    enc_container, enc_map, struct_content_len, container_content_len, map_content_len, wf_node,
    wf_bare, wf_struct, wf_container, wf_map, node_maps_ok, list_maps_ok, pairs_maps_ok,
    size_limit,
};

verus! {

broadcast use vstd::std_specs::vec::axiom_vec_index_decreases;

/// Appending one node to a bare list appends its payload bytes.
pub proof fn lemma_enc_bare_list_push(s: Seq<Node>, v: Node)
    ensures
        enc_bare_list(s.push(v)) == enc_bare_list(s) + enc_bare(v),
    decreases s.len(),
{
    if s.len() == 0 {
        assert(s.push(v).subrange(1, 1) =~= Seq::<Node>::empty());
        assert(enc_bare_list(s.push(v).subrange(1, 1)) == Seq::<u8>::empty());
        assert(s.push(v)[0] == v);
        assert(enc_bare_list(s.push(v)) =~= enc_bare_list(s) + enc_bare(v));
    } else {
        let t = s.subrange(1, s.len() as int);
        assert(s.push(v).subrange(1, s.len() as int + 1) =~= t.push(v));
        lemma_enc_bare_list_push(t, v);
        assert(enc_bare(s[0]) + (enc_bare_list(t) + enc_bare(v)) =~= (enc_bare(s[0])
            + enc_bare_list(t)) + enc_bare(v));
    }
}

/// Appending one node to a named list appends its named bytes.
pub proof fn lemma_enc_named_list_push(s: Seq<Node>, v: Node)
    ensures
        enc_named_list(s.push(v)) == enc_named_list(s) + enc_named(v),
    decreases s.len(),
{
    if s.len() == 0 {
        assert(s.push(v).subrange(1, 1) =~= Seq::<Node>::empty());
        assert(enc_named_list(s.push(v).subrange(1, 1)) == Seq::<u8>::empty());
        assert(s.push(v)[0] == v);
        assert(enc_named_list(s.push(v)) =~= enc_named_list(s) + enc_named(v));
    } else {
        let t = s.subrange(1, s.len() as int);
        assert(s.push(v).subrange(1, s.len() as int + 1) =~= t.push(v));
        lemma_enc_named_list_push(t, v);
        assert(enc_named(s[0]) + (enc_named_list(t) + enc_named(v)) =~= (enc_named(s[0])
            + enc_named_list(t)) + enc_named(v));
    }
}

/// Appending one pair to a pair list appends its key and value bytes.
pub proof fn lemma_enc_pair_list_push(s: Seq<(Node, Node)>, p: (Node, Node))
    ensures
        enc_pair_list(s.push(p)) == enc_pair_list(s) + enc_bare(p.0) + enc_bare(p.1),
    decreases s.len(),
{
    if s.len() == 0 {
        assert(s.push(p).subrange(1, 1) =~= Seq::<(Node, Node)>::empty());
        assert(enc_pair_list(s.push(p).subrange(1, 1)) == Seq::<u8>::empty());
        assert(s.push(p)[0] == p);
        assert(enc_pair_list(s.push(p)) =~= enc_pair_list(s) + enc_bare(p.0) + enc_bare(p.1));
    } else {
        let t = s.subrange(1, s.len() as int);
        assert(s.push(p).subrange(1, s.len() as int + 1) =~= t.push(p));
        lemma_enc_pair_list_push(t, p);
        assert(enc_bare(s[0].0) + enc_bare(s[0].1) + (enc_pair_list(t) + enc_bare(p.0) + enc_bare(
            p.1,
        )) =~= (enc_bare(s[0].0) + enc_bare(s[0].1) + enc_pair_list(t)) + enc_bare(p.0) + enc_bare(
            p.1,
        ));
    }
}

/// Appending one value to a `u32` list appends its four bytes.
pub proof fn lemma_enc_u32s_push(s: Seq<u32>, v: u32)
    ensures
        enc_u32s(s.push(v)) == enc_u32s(s) + vstd::bytes::spec_u32_to_le_bytes(v),
    decreases s.len(),
{
    if s.len() == 0 {
        assert(s.push(v).subrange(1, 1) =~= Seq::<u32>::empty());
        assert(enc_u32s(s.push(v).subrange(1, 1)) == Seq::<u8>::empty());
        assert(s.push(v)[0] == v);
        assert(enc_u32s(s.push(v)) =~= enc_u32s(s) + vstd::bytes::spec_u32_to_le_bytes(v));
    } else {
        let t = s.subrange(1, s.len() as int);
        assert(s.push(v).subrange(1, s.len() as int + 1) =~= t.push(v));
        lemma_enc_u32s_push(t, v);
        assert(vstd::bytes::spec_u32_to_le_bytes(s[0]) + (enc_u32s(t)
            + vstd::bytes::spec_u32_to_le_bytes(v)) =~= (vstd::bytes::spec_u32_to_le_bytes(s[0])
            + enc_u32s(t)) + vstd::bytes::spec_u32_to_le_bytes(v));
    }
}

/// One step of a bare list's bytes: the first `i + 1` nodes are the first
/// `i` nodes followed by the node at `i`.
pub proof fn lemma_enc_bare_list_take_succ(s: Seq<Node>, i: int)
    requires
        0 <= i < s.len(),
    ensures
        enc_bare_list(s.take(i + 1)) == enc_bare_list(s.take(i)) + enc_bare(s[i]),
{
    assert(s.take(i + 1) =~= s.take(i).push(s[i]));
    lemma_enc_bare_list_push(s.take(i), s[i]);
}

/// One step of a named list's bytes.
pub proof fn lemma_enc_named_list_take_succ(s: Seq<Node>, i: int)
    requires
        0 <= i < s.len(),
    ensures
        enc_named_list(s.take(i + 1)) == enc_named_list(s.take(i)) + enc_named(s[i]),
{
    assert(s.take(i + 1) =~= s.take(i).push(s[i]));
    lemma_enc_named_list_push(s.take(i), s[i]);
}

/// One step of a pair list's bytes.
pub proof fn lemma_enc_pair_list_take_succ(s: Seq<(Node, Node)>, i: int)
    requires
        0 <= i < s.len(),
    ensures
        enc_pair_list(s.take(i + 1)) == enc_pair_list(s.take(i)) + enc_bare(s[i].0) + enc_bare(
            s[i].1,
        ),
{
    assert(s.take(i + 1) =~= s.take(i).push(s[i]));
    lemma_enc_pair_list_push(s.take(i), s[i]);
}

/// One step of a `u32` list's bytes.
pub proof fn lemma_enc_u32s_take_succ(s: Seq<u32>, i: int)
    requires
        0 <= i < s.len(),
    ensures
        enc_u32s(s.take(i + 1)) == enc_u32s(s.take(i)) + vstd::bytes::spec_u32_to_le_bytes(s[i]),
{
    assert(s.take(i + 1) =~= s.take(i).push(s[i]));
    lemma_enc_u32s_push(s.take(i), s[i]);
}

/// A prefix of a bare list never encodes to more bytes than the whole.
pub proof fn lemma_enc_bare_list_take_le(s: Seq<Node>, i: int)
    requires
        0 <= i <= s.len(),
    ensures
        enc_bare_list(s.take(i)).len() <= enc_bare_list(s).len(),
    decreases s.len() - i,
{
    if i == s.len() {
        assert(s.take(i) =~= s);
    } else {
        lemma_enc_bare_list_take_succ(s, i);
        lemma_enc_bare_list_take_le(s, i + 1);
    }
}

/// A prefix of a named list never encodes to more bytes than the whole.
pub proof fn lemma_enc_named_list_take_le(s: Seq<Node>, i: int)
    requires
        0 <= i <= s.len(),
    ensures
        enc_named_list(s.take(i)).len() <= enc_named_list(s).len(),
    decreases s.len() - i,
{
    if i == s.len() {
        assert(s.take(i) =~= s);
    } else {
        lemma_enc_named_list_take_succ(s, i);
        lemma_enc_named_list_take_le(s, i + 1);
    }
}

/// A prefix of a pair list never encodes to more bytes than the whole.
pub proof fn lemma_enc_pair_list_take_le(s: Seq<(Node, Node)>, i: int)
    requires
        0 <= i <= s.len(),
    ensures
        enc_pair_list(s.take(i)).len() <= enc_pair_list(s).len(),
    decreases s.len() - i,
{
    if i == s.len() {
        assert(s.take(i) =~= s);
    } else {
        lemma_enc_pair_list_take_succ(s, i);
        lemma_enc_pair_list_take_le(s, i + 1);
    }
}

impl BinValue {
    /// The exact number of bytes this node encodes to: its bare payload
    /// alone in a simple (bare) position, or five more for the name and tag
    /// of a named position.
    #[verifier::loop_isolation(false)]
    pub fn size(&self, is_simple: bool) -> (r: u64)
        requires
            wf_node(self@),
        ensures
            is_simple ==> r == enc_bare(self@).len(),
            !is_simple ==> r == enc_named(self@).len(),
        decreases *self, 1int,
    {
        proof {
            vstd::bytes::lemma_auto_spec_u16_to_from_le_bytes();
            vstd::bytes::lemma_auto_spec_u32_to_from_le_bytes();
            vstd::bytes::lemma_auto_spec_u64_to_from_le_bytes();
        }
        let value_size: u64 = match self {
            BinValue::Nil { .. } => 0,
            BinValue::Boolean { .. } => 1,
            BinValue::SByte { .. } => 1,
            BinValue::Byte { .. } => 1,
            BinValue::Int16 { .. } => 2,
            BinValue::UInt16 { .. } => 2,
            BinValue::Int32 { .. } => 4,
            BinValue::UInt32 { .. } => 4,
            BinValue::Int64 { .. } => 8,
            BinValue::UInt64 { .. } => 8,
            BinValue::Float { .. } => 4,
            BinValue::Vector2 { .. } => 8,
            BinValue::Vector3 { .. } => 12,
            BinValue::Vector4 { .. } => 16,
            BinValue::Matrix44 { value, .. } => {
                proof {
                    lemma_enc_u32s_len(value.m@);
                }
                64
            },
            BinValue::Color { .. } => 4,
            BinValue::String { value, .. } => 2 + value.len() as u64,
            BinValue::Hash { .. } => 4,
            BinValue::Container { value, .. } => value.size(),
            BinValue::Container2 { value, .. } => value.size(),
            BinValue::Structure { value, .. } => value.size(),
            BinValue::Embedded { value, .. } => value.size(),
            BinValue::Link { .. } => 4,
            BinValue::Optional { value, .. } => {
                2 + match value {
                    Some(inner) => inner.size(true),
                    None => 0,
                }
            },
            BinValue::Dict { value, .. } => value.size(),
            BinValue::FlagsBoolean { .. } => 1,
        };
        if is_simple {
            value_size
        } else {
            5 + value_size
        }
    }
}

/// The bytes of a `u32` list are four per entry.
pub proof fn lemma_enc_u32s_len(s: Seq<u32>)
    ensures
        enc_u32s(s).len() == 4 * s.len(),
    decreases s.len(),
{
    vstd::bytes::lemma_auto_spec_u32_to_from_le_bytes();
    if s.len() > 0 {
        lemma_enc_u32s_len(s.subrange(1, s.len() as int));
    }
}

impl BinContainer {
    /// The exact byte count of this aggregate's content: what its 32-bit
    /// content-size prefix carries.
    #[verifier::loop_isolation(false)]
    pub fn content_size(&self) -> (r: u64)
        requires
            wf_container(self@),
        ensures
            r == container_content_len(self@),
        decreases *self, 0int,
    {
        let ghost nodes = view_nodes(self.values);
        let mut size: u64 = 4;
        let n = self.values.len();
        let mut i: usize = 0;
        proof {
            assert(nodes.take(0) =~= Seq::<Node>::empty());
        }
        while i < n
            invariant
                0 <= i <= n,
                n == self.values.len(),
                size == 4 + enc_bare_list(nodes.take(i as int)).len(),
                size <= size_limit(),
            decreases n - i,
        {
            proof {
                lemma_enc_bare_list_take_succ(nodes, i as int);
                lemma_enc_bare_list_take_le(nodes, i as int + 1);
                assert(wf_bare(nodes[i as int], self@.value_type));
            }
            let add = self.values[i].size(true);
            size = size + add;
            i = i + 1;
        }
        proof {
            assert(nodes.take(n as int) =~= nodes);
        }
        size
    }

    /// The exact byte count of this aggregate's whole payload: its element
    /// kind tag and content-size prefix included.
    pub fn size(&self) -> (r: u64)
        requires
            wf_container(self@),
        ensures
            r == enc_container(self@).len(),
        decreases *self, 1int,
    {
        proof {
            vstd::bytes::lemma_auto_spec_u16_to_from_le_bytes();
            vstd::bytes::lemma_auto_spec_u32_to_from_le_bytes();
        }
        1 + 4 + self.content_size()
    }
}

impl BinStructure {
    /// The exact byte count of this aggregate's content: what its 32-bit
    /// content-size prefix carries.
    #[verifier::loop_isolation(false)]
    pub fn content_size(&self) -> (r: u64)
        requires
            wf_struct(self@),
        ensures
            r == struct_content_len(self@),
        decreases *self, 0int,
    {
        let ghost nodes = view_nodes(self.fields);
        let mut size: u64 = 2;
        let n = self.fields.len();
        let mut i: usize = 0;
        proof {
            assert(nodes.take(0) =~= Seq::<Node>::empty());
        }
        while i < n
            invariant
                0 <= i <= n,
                n == self.fields.len(),
                size == 2 + enc_named_list(nodes.take(i as int)).len(),
                size <= size_limit(),
            decreases n - i,
        {
            proof {
                lemma_enc_named_list_take_succ(nodes, i as int);
                lemma_enc_named_list_take_le(nodes, i as int + 1);
                assert(wf_node(nodes[i as int]));
            }
            let add = self.fields[i].size(false);
            size = size + add;
            i = i + 1;
        }
        proof {
            assert(nodes.take(n as int) =~= nodes);
        }
        size
    }

    /// The exact byte count of this aggregate's whole payload: its name
    /// alone when the name is the absent sentinel.
    pub fn size(&self) -> (r: u64)
        requires
            wf_struct(self@),
        ensures
            r == enc_struct(self@).len(),
        decreases *self, 1int,
    {
        proof {
            vstd::bytes::lemma_auto_spec_u16_to_from_le_bytes();
            vstd::bytes::lemma_auto_spec_u32_to_from_le_bytes();
        }
        if self.name == 0 {
            4
        } else {
            4 + 4 + self.content_size()
        }
    }
}

impl BinMap {
    /// The exact byte count of this aggregate's content: what its 32-bit
    /// content-size prefix carries.
    #[verifier::loop_isolation(false)]
    pub fn content_size(&self) -> (r: u64)
        requires
            wf_map(self@),
        ensures
            r == map_content_len(self@),
        decreases *self, 0int,
    {
        let ghost pairs = view_pairs(self.map);
        let mut size: u64 = 4;
        let n = self.map.len();
        let mut i: usize = 0;
        proof {
            assert(pairs.take(0) =~= Seq::<(Node, Node)>::empty());
        }
        while i < n
            invariant
                0 <= i <= n,
                n == self.map.len(),
                size == 4 + enc_pair_list(pairs.take(i as int)).len(),
                size <= size_limit(),
            decreases n - i,
        {
            proof {
                lemma_enc_pair_list_take_succ(pairs, i as int);
                lemma_enc_pair_list_take_le(pairs, i as int + 1);
                assert(wf_bare(pairs[i as int].0, self@.key_type));
                assert(wf_bare(pairs[i as int].1, self@.value_type));
            }
            let add_k = self.map[i].0.size(true);
            let add_v = self.map[i].1.size(true);
            size = size + add_k + add_v;
            i = i + 1;
        }
        proof {
            assert(pairs.take(n as int) =~= pairs);
        }
        size
    }

    /// The exact byte count of this aggregate's whole payload: its two kind
    /// tags and content-size prefix included.
    pub fn size(&self) -> (r: u64)
        requires
            wf_map(self@),
        ensures
            r == enc_map(self@).len(),
        decreases *self, 1int,
    {
        proof {
            vstd::bytes::lemma_auto_spec_u16_to_from_le_bytes();
            vstd::bytes::lemma_auto_spec_u32_to_from_le_bytes();
        }
        1 + 1 + 4 + self.content_size()
    }
}


impl BinValue {
    /// The field-name hash this node carries.
    pub fn name(&self) -> (r: u32)
        ensures
            r == crate::value::node_name(self@),
    {
        match self {
            BinValue::Nil { name } => *name,
            BinValue::Boolean { name, .. } => *name,
            BinValue::SByte { name, .. } => *name,
            BinValue::Byte { name, .. } => *name,
            BinValue::Int16 { name, .. } => *name,
            BinValue::UInt16 { name, .. } => *name,
            BinValue::Int32 { name, .. } => *name,
            BinValue::UInt32 { name, .. } => *name,
            BinValue::Int64 { name, .. } => *name,
            BinValue::UInt64 { name, .. } => *name,
            BinValue::Float { name, .. } => *name,
            BinValue::Vector2 { name, .. } => *name,
            BinValue::Vector3 { name, .. } => *name,
            BinValue::Vector4 { name, .. } => *name,
            BinValue::Matrix44 { name, .. } => *name,
            BinValue::Color { name, .. } => *name,
            BinValue::String { name, .. } => *name,
            BinValue::Hash { name, .. } => *name,
            BinValue::Container { name, .. } => *name,
            BinValue::Container2 { name, .. } => *name,
            BinValue::Structure { name, .. } => *name,
            BinValue::Embedded { name, .. } => *name,
            BinValue::Link { name, .. } => *name,
            BinValue::Optional { name, .. } => *name,
            BinValue::Dict { name, .. } => *name,
            BinValue::FlagsBoolean { name, .. } => *name,
        }
    }

    /// The kind this node declares through its variant.
    pub fn value_type(&self) -> (r: BinValueType)
        ensures
            r == crate::value::node_kind(self@),
    {
        match self {
            BinValue::Nil { .. } => BinValueType::Nil,
            BinValue::Boolean { .. } => BinValueType::Boolean,
            BinValue::SByte { .. } => BinValueType::SByte,
            BinValue::Byte { .. } => BinValueType::Byte,
            BinValue::Int16 { .. } => BinValueType::Int16,
            BinValue::UInt16 { .. } => BinValueType::UInt16,
            BinValue::Int32 { .. } => BinValueType::Int32,
            BinValue::UInt32 { .. } => BinValueType::UInt32,
            BinValue::Int64 { .. } => BinValueType::Int64,
            BinValue::UInt64 { .. } => BinValueType::UInt64,
            BinValue::Float { .. } => BinValueType::Float,
            BinValue::Vector2 { .. } => BinValueType::Vector2,
            BinValue::Vector3 { .. } => BinValueType::Vector3,
            BinValue::Vector4 { .. } => BinValueType::Vector4,
            BinValue::Matrix44 { .. } => BinValueType::Matrix44,
            BinValue::Color { .. } => BinValueType::Color,
            BinValue::String { .. } => BinValueType::String,
            BinValue::Hash { .. } => BinValueType::Hash,
            BinValue::Container { .. } => BinValueType::Container,
            BinValue::Container2 { .. } => BinValueType::Container2,
            BinValue::Structure { .. } => BinValueType::Structure,
            BinValue::Embedded { .. } => BinValueType::Embedded,
            BinValue::Link { .. } => BinValueType::Link,
            BinValue::Optional { .. } => BinValueType::Optional,
            BinValue::Dict { .. } => BinValueType::Dict,
            BinValue::FlagsBoolean { .. } => BinValueType::FlagsBoolean,
        }
    }

    /// Writes this node in a named position: name, packed tag, payload.
    pub fn write(&self, out: &mut Vec<u8>) -> (r: Result<(), BinError>)
        requires
            wf_node(self@),
        ensures
            (match r {
                Ok(()) => final(out)@ == old(out)@ + enc_named(self@) && node_maps_ok(self@),
                Err(e) => e == BinError::UnsupportedMapKey && !node_maps_ok(self@),
            }),
        decreases *self, 3int,
    {
        proof {
            vstd::bytes::lemma_auto_spec_u32_to_from_le_bytes();
        }
        put_u32(out, self.name());
        put_u8(out, self.value_type().pack());
        match self.write_value(out) {
            Ok(()) => {
                proof {
                    assert(final(out)@ =~= old(out)@ + enc_named(self@));
                }
                Ok(())
            },
            Err(e) => Err(e),
        }
    }

    /// Writes the payload of a fixed-width kind.
    fn write_value_scalar(&self, out: &mut Vec<u8>)
        requires
            matches!(*self,
                BinValue::Nil { .. } | BinValue::Boolean { .. } | BinValue::SByte { .. }
                | BinValue::Byte { .. } | BinValue::Int16 { .. } | BinValue::UInt16 { .. }
                | BinValue::Int32 { .. } | BinValue::UInt32 { .. } | BinValue::Int64 { .. }
                | BinValue::UInt64 { .. } | BinValue::Float { .. } | BinValue::Hash { .. }
                | BinValue::Link { .. } | BinValue::FlagsBoolean { .. }),
        ensures
            final(out)@ == old(out)@ + enc_bare(self@),
    {
        match self {
            BinValue::Nil { .. } => {
                proof {
                    assert(out@ =~= out@ + Seq::<u8>::empty());
                }
            },
            BinValue::Boolean { value, .. } => {
                put_u8(out, if *value { 1 } else { 0 });
            },
            BinValue::SByte { value, .. } => {
                put_u8(out, *value as u8);
            },
            BinValue::Byte { value, .. } => {
                put_u8(out, *value);
            },
            BinValue::Int16 { value, .. } => {
                put_u16(out, *value as u16);
            },
            BinValue::UInt16 { value, .. } => {
                put_u16(out, *value);
            },
            BinValue::Int32 { value, .. } => {
                put_u32(out, *value as u32);
            },
            BinValue::UInt32 { value, .. } => {
                put_u32(out, *value);
            },
            BinValue::Int64 { value, .. } => {
                put_u64(out, *value as u64);
            },
            BinValue::UInt64 { value, .. } => {
                put_u64(out, *value);
            },
            BinValue::Float { value, .. } => {
                put_u32(out, *value);
            },
            BinValue::Hash { value, .. } => {
                put_u32(out, *value);
            },
            BinValue::Link { value, .. } => {
                put_u32(out, *value);
            },
            BinValue::FlagsBoolean { value, .. } => {
                put_u8(out, if *value { 1 } else { 0 });
            },
            _ => {
                proof {
                    assert(false);
                }
            },
        }
    }

    /// Writes the payload of a geometry, color or string kind.
    #[verifier::loop_isolation(false)]
    fn write_value_flat(&self, out: &mut Vec<u8>)
        requires
            wf_node(self@),
            matches!(*self,
                BinValue::Vector2 { .. } | BinValue::Vector3 { .. } | BinValue::Vector4 { .. }
                | BinValue::Matrix44 { .. } | BinValue::Color { .. } | BinValue::String { .. }),
        ensures
            final(out)@ == old(out)@ + enc_bare(self@),
    {
        match self {
            BinValue::Vector2 { value, .. } => {
                put_u32(out, value.x);
                put_u32(out, value.y);
                proof {
                    assert(final(out)@ =~= old(out)@ + enc_bare(self@));
                }
            },
            BinValue::Vector3 { value, .. } => {
                put_u32(out, value.x);
                put_u32(out, value.y);
                put_u32(out, value.z);
                proof {
                    assert(final(out)@ =~= old(out)@ + enc_bare(self@));
                }
            },
            BinValue::Vector4 { value, .. } => {
                put_u32(out, value.x);
                put_u32(out, value.y);
                put_u32(out, value.z);
                put_u32(out, value.w);
                proof {
                    assert(final(out)@ =~= old(out)@ + enc_bare(self@));
                }
            },
            BinValue::Matrix44 { value, .. } => {
                let ghost base = out@;
                let ghost bits = value.m@;
                let mut i: usize = 0;
                proof {
                    assert(bits.take(0) =~= Seq::<u32>::empty());
                    assert(out@ =~= base + enc_u32s(bits.take(0)));
                }
                while i < 16
                    invariant
                        0 <= i <= 16,
                        out@ == base + enc_u32s(bits.take(i as int)),
                    decreases 16 - i,
                {
                    put_u32(out, value.m[i]);
                    proof {
                        lemma_enc_u32s_take_succ(bits, i as int);
                        assert(base + enc_u32s(bits.take(i as int))
                            + vstd::bytes::spec_u32_to_le_bytes(bits[i as int]) =~= base + enc_u32s(
                            bits.take(i as int + 1),
                        ));
                    }
                    i = i + 1;
                }
                proof {
                    assert(bits.take(16) =~= bits);
                }
            },
            BinValue::Color { value, .. } => {
                put_u8(out, value.r);
                put_u8(out, value.g);
                put_u8(out, value.b);
                put_u8(out, value.a);
                proof {
                    assert(final(out)@ =~= old(out)@ + enc_bare(self@));
                }
            },
            BinValue::String { value, .. } => {
                put_u16(out, value.len() as u16);
                put_bytes(out, value);
                proof {
                    assert(final(out)@ =~= old(out)@ + enc_bare(self@));
                }
            },
            _ => {
                proof {
                    assert(false);
                }
            },
        }
    }

    /// Writes the payload of this node, without name or tag: what stands in
    /// a bare position.
    #[verifier::spinoff_prover]
    pub fn write_value(&self, out: &mut Vec<u8>) -> (r: Result<(), BinError>)
        requires
            wf_node(self@),
        ensures
            (match r {
                Ok(()) => final(out)@ == old(out)@ + enc_bare(self@) && node_maps_ok(self@),
                Err(e) => e == BinError::UnsupportedMapKey && !node_maps_ok(self@),
            }),
        decreases *self, 2int,
    {
        match self {
            BinValue::Nil { .. }
            | BinValue::Boolean { .. }
            | BinValue::SByte { .. }
            | BinValue::Byte { .. }
            | BinValue::Int16 { .. }
            | BinValue::UInt16 { .. }
            | BinValue::Int32 { .. }
            | BinValue::UInt32 { .. }
            | BinValue::Int64 { .. }
            | BinValue::UInt64 { .. }
            | BinValue::Float { .. }
            | BinValue::Hash { .. }
            | BinValue::Link { .. }
            | BinValue::FlagsBoolean { .. } => {
                self.write_value_scalar(out);
                Ok(())
            },
            BinValue::Vector2 { .. }
            | BinValue::Vector3 { .. }
            | BinValue::Vector4 { .. }
            | BinValue::Matrix44 { .. }
            | BinValue::Color { .. }
            | BinValue::String { .. } => {
                self.write_value_flat(out);
                Ok(())
            },
            BinValue::Container { value, .. } => value.write(out),
            BinValue::Container2 { value, .. } => value.write(out),
            BinValue::Structure { value, .. } => value.write(out),
            BinValue::Embedded { value, .. } => value.write(out),
            BinValue::Optional { value_type, value, .. } => {
                put_u8(out, value_type.pack());
                match value {
                    Some(inner) => {
                        put_u8(out, 1);
                        match inner.write_value(out) {
                            Ok(()) => {
                                proof {
                                    assert(final(out)@ =~= old(out)@ + enc_bare(self@));
                                }
                                Ok(())
                            },
                            Err(e) => Err(e),
                        }
                    },
                    None => {
                        put_u8(out, 0);
                        proof {
                            assert(final(out)@ =~= old(out)@ + enc_bare(self@));
                        }
                        Ok(())
                    },
                }
            },
            BinValue::Dict { value, .. } => value.write(out),
        }
    }
}

impl BinContainer {
    /// Writes this aggregate's payload: element kind tag, exact content
    /// size, element count, then every bare element in order.
    #[verifier::loop_isolation(false)]
    pub fn write(&self, out: &mut Vec<u8>) -> (r: Result<(), BinError>)
        requires
            wf_container(self@),
        ensures
            (match r {
                Ok(()) => final(out)@ == old(out)@ + enc_container(self@) && list_maps_ok(
                    self@.values,
                ),
                Err(e) => e == BinError::UnsupportedMapKey && !list_maps_ok(self@.values),
            }),
        decreases *self, 1int,
    {
        proof {
            vstd::bytes::lemma_auto_spec_u32_to_from_le_bytes();
        }
        put_u8(out, self.value_type.pack());
        let cs = self.content_size();
        put_u32(out, cs as u32);
        put_u32(out, self.values.len() as u32);
        let ghost base = out@;
        let ghost nodes = view_nodes(self.values);
        let n = self.values.len();
        let mut i: usize = 0;
        proof {
            assert(nodes.take(0) =~= Seq::<Node>::empty());
            assert(out@ =~= base + enc_bare_list(nodes.take(0)));
        }
        while i < n
            invariant
                0 <= i <= n,
                n == self.values.len(),
                out@ == base + enc_bare_list(nodes.take(i as int)),
                forall|j: int| 0 <= j < i ==> node_maps_ok(#[trigger] nodes[j]),
            decreases n - i,
        {
            proof {
                assert(wf_bare(nodes[i as int], self@.value_type));
            }
            match self.values[i].write_value(out) {
                Ok(()) => {
                    proof {
                        lemma_enc_bare_list_take_succ(nodes, i as int);
                        assert(base + enc_bare_list(nodes.take(i as int)) + enc_bare(
                            nodes[i as int],
                        ) =~= base + enc_bare_list(nodes.take(i as int + 1)));
                    }
                    i = i + 1;
                },
                Err(e) => {
                    proof {
                        assert(!node_maps_ok(nodes[i as int]));
                    }
                    return Err(e);
                },
            }
        }
        proof {
            assert(nodes.take(n as int) =~= nodes);
            assert(base + enc_bare_list(nodes) =~= old(out)@ + enc_container(self@));
        }
        Ok(())
    }
}

impl BinStructure {
    /// Writes this aggregate's payload: the name alone for the absent
    /// sentinel, else name, exact content size, field count and every named
    /// field in order.
    #[verifier::loop_isolation(false)]
    pub fn write(&self, out: &mut Vec<u8>) -> (r: Result<(), BinError>)
        requires
            wf_struct(self@),
        ensures
            (match r {
                Ok(()) => final(out)@ == old(out)@ + enc_struct(self@) && list_maps_ok(
                    self@.fields,
                ),
                Err(e) => e == BinError::UnsupportedMapKey && !list_maps_ok(self@.fields),
            }),
        decreases *self, 1int,
    {
        proof {
            vstd::bytes::lemma_auto_spec_u16_to_from_le_bytes();
            vstd::bytes::lemma_auto_spec_u32_to_from_le_bytes();
        }
        put_u32(out, self.name);
        if self.name == 0 {
            proof {
                assert(view_nodes(self.fields).len() == 0);
                assert(final(out)@ =~= old(out)@ + enc_struct(self@));
            }
            return Ok(());
        }
        let cs = self.content_size();
        put_u32(out, cs as u32);
        put_u16(out, self.fields.len() as u16);
        let ghost base = out@;
        let ghost nodes = view_nodes(self.fields);
        let n = self.fields.len();
        let mut i: usize = 0;
        proof {
            assert(nodes.take(0) =~= Seq::<Node>::empty());
            assert(out@ =~= base + enc_named_list(nodes.take(0)));
        }
        while i < n
            invariant
                0 <= i <= n,
                n == self.fields.len(),
                out@ == base + enc_named_list(nodes.take(i as int)),
                forall|j: int| 0 <= j < i ==> node_maps_ok(#[trigger] nodes[j]),
            decreases n - i,
        {
            proof {
                assert(wf_node(nodes[i as int]));
            }
            match self.fields[i].write(out) {
                Ok(()) => {
                    proof {
                        lemma_enc_named_list_take_succ(nodes, i as int);
                        assert(base + enc_named_list(nodes.take(i as int)) + enc_named(
                            nodes[i as int],
                        ) =~= base + enc_named_list(nodes.take(i as int + 1)));
                    }
                    i = i + 1;
                },
                Err(e) => {
                    proof {
                        assert(!node_maps_ok(nodes[i as int]));
                    }
                    return Err(e);
                },
            }
        }
        proof {
            assert(nodes.take(n as int) =~= nodes);
            assert(base + enc_named_list(nodes) =~= old(out)@ + enc_struct(self@));
        }
        Ok(())
    }
}

impl BinMap {
    /// Writes this aggregate's payload: both kind tags, exact content size,
    /// entry count, then every key-value pair in stored order. A key kind
    /// outside the hashable subset is rejected before any byte of the
    /// content is written.
    #[verifier::loop_isolation(false)]
    #[verifier::rlimit(100)]
    #[verifier::spinoff_prover]
    pub fn write(&self, out: &mut Vec<u8>) -> (r: Result<(), BinError>)
        requires
            wf_map(self@),
        ensures
            (match r {
                Ok(()) => final(out)@ == old(out)@ + enc_map(self@) && crate::value::is_hashable_kind(
                    self@.key_type,
                ) && pairs_maps_ok(self@.pairs),
                Err(e) => e == BinError::UnsupportedMapKey && !(crate::value::is_hashable_kind(
                    self@.key_type,
                ) && pairs_maps_ok(self@.pairs)),
            }),
        decreases *self, 1int,
    {
        proof {
            vstd::bytes::lemma_auto_spec_u32_to_from_le_bytes();
        }
        if !self.key_type.is_hashable() {
            return Err(BinError::UnsupportedMapKey);
        }
        put_u8(out, self.key_type.pack());
        put_u8(out, self.value_type.pack());
        let cs = self.content_size();
        put_u32(out, cs as u32);
        put_u32(out, self.map.len() as u32);
        let ghost base = out@;
        let ghost pairs = view_pairs(self.map);
        let n = self.map.len();
        let mut i: usize = 0;
        proof {
            assert(pairs.take(0) =~= Seq::<(Node, Node)>::empty());
            assert(out@ =~= base + enc_pair_list(pairs.take(0)));
        }
        while i < n
            invariant
                0 <= i <= n,
                n == self.map.len(),
                out@ == base + enc_pair_list(pairs.take(i as int)),
                forall|j: int| #![trigger pairs[j]] 0 <= j < i ==> node_maps_ok(pairs[j].0)
                    && node_maps_ok(pairs[j].1),
            decreases n - i,
        {
            proof {
                assert(pairs == self@.pairs);
                assert(pairs[i as int] == (
                    view_value(self.map[i as int].0),
                    view_value(self.map[i as int].1),
                ));
                assert(crate::wire::wf_pair_list(self@.pairs, self@.key_type, self@.value_type));
                assert(wf_bare(pairs[i as int].0, self@.key_type));
                assert(wf_bare(pairs[i as int].1, self@.value_type));
            }
            let ghost before = out@;
            match self.map[i].0.write_value(out) {
                Ok(()) => {
                },
                Err(e) => {
                    proof {
                        assert(!node_maps_ok(pairs[i as int].0));
                    }
                    return Err(e);
                },
            }
            match self.map[i].1.write_value(out) {
                Ok(()) => {
                    proof {
                        lemma_enc_pair_list_take_succ(pairs, i as int);
                        assert(before + enc_bare(pairs[i as int].0) + enc_bare(pairs[i as int].1)
                            =~= base + enc_pair_list(pairs.take(i as int + 1)));
                    }
                    i = i + 1;
                },
                Err(e) => {
                    proof {
                        assert(!node_maps_ok(pairs[i as int].1));
                    }
                    return Err(e);
                },
            }
        }
        proof {
            assert(pairs.take(n as int) =~= pairs);
            assert(base + enc_pair_list(pairs) =~= old(out)@ + enc_map(self@));
            assert(pairs_maps_ok(self@.pairs));
        }
        Ok(())
    }
}

} // verus!
