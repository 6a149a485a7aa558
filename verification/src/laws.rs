//! The laws of the codec: decoding inverts encoding. Every well-formed
//! value, entry and tree decodes back from its own bytes to an equal value,
//! wherever those bytes stand in a larger stream; and what the decoder
//! accepts is well-formed and re-encodes to a stream of the bytes it
//! consumed in count.
use vstd::prelude::*;
use vstd::bytes::{
    spec_u16_to_le_bytes, spec_u32_to_le_bytes, lemma_auto_spec_u16_to_from_le_bytes,
    lemma_auto_spec_u32_to_from_le_bytes, lemma_auto_spec_u64_to_from_le_bytes,
};
use crate::tag::{BinValueType, lemma_tag_round_trip, spec_pack_value_type, spec_unpack_value_type};
use crate::bytes::{Parsed, rd_u16, rd_u32, rd_bytes};
use crate::value::{
    Node, StructV, ContainerV, MapV, node_kind, node_name, build_map, key_eq, distinct_keys,
    is_hashable_kind,
};
use crate::wire::{
    enc_bare, enc_named, enc_bare_list, enc_named_list, enc_pair_list, enc_u32s, enc_struct,
    enc_container, enc_map, struct_content_len, container_content_len, map_content_len, wf_bare,
    wf_node, wf_bare_list, wf_named_list, wf_pair_list, wf_struct, wf_container, wf_map,
    node_maps_ok, list_maps_ok, pairs_maps_ok, size_limit,
};
use crate::parse::{
    dec_named, dec_bare, dec_container, dec_struct, dec_map, dec_u32_list, dec_bare_list,
    dec_named_list, dec_pair_list,
};
use crate::keys::lemma_map_insert_miss;

verus! {

broadcast use vstd::seq::axiom_seq_index_decreases, vstd::seq::axiom_seq_subrange_decreases;

/// A window of a stream that holds two byte strings back to back holds each
/// of them in its own half.
pub proof fn lemma_subrange_split(s: Seq<u8>, pos: int, a: Seq<u8>, b: Seq<u8>)
    requires
        0 <= pos,
        pos + a.len() + b.len() <= s.len(),
        s.subrange(pos, pos + a.len() + b.len()) == a + b,
    ensures
        s.subrange(pos, pos + a.len() as int) == a,
        s.subrange(pos + a.len() as int, pos + a.len() + b.len()) == b,
{
    let w = s.subrange(pos, pos + a.len() + b.len());
    assert(s.subrange(pos, pos + a.len() as int) =~= a) by {
        assert forall|i: int| 0 <= i < a.len() implies s.subrange(pos, pos + a.len() as int)[i]
            == a[i] by {
            assert(w[i] == (a + b)[i]);
        }
    }
    assert(s.subrange(pos + a.len() as int, pos + a.len() + b.len()) =~= b) by {
        assert forall|i: int| 0 <= i < b.len() implies s.subrange(
            pos + a.len() as int,
            pos + a.len() + b.len(),
        )[i] == b[i] by {
            assert(w[a.len() + i] == (a + b)[a.len() + i]);
        }
    }
}

/// Inserting the pairs of an association whose keys are pairwise distinct
/// rebuilds exactly that association.
pub proof fn lemma_build_map_distinct(l: Seq<(Node, Node)>)
    requires
        distinct_keys(l),
    ensures
        build_map(l) == l,
    decreases l.len(),
{
    if l.len() == 0 {
        assert(build_map(l) =~= l);
    } else {
        let front = l.drop_last();
        assert(distinct_keys(front)) by {
            assert forall|i: int, j: int| 0 <= i < j < front.len() implies !key_eq(
                front[i].0,
                front[j].0,
            ) by {
                assert(front[i] == l[i] && front[j] == l[j]);
            }
        }
        lemma_build_map_distinct(front);
        assert forall|j: int| 0 <= j < front.len() implies !key_eq(
            #[trigger] front[j].0,
            l.last().0,
        ) by {
            assert(front[j] == l[j]);
            assert(!key_eq(l[j].0, l[l.len() - 1].0));
        }
        lemma_map_insert_miss(front, l.last().0, l.last().1);
        assert(front.push(l.last()) =~= l);
    }
}

/// A `u32` list decodes back from its own bytes.
pub proof fn lemma_dec_enc_u32s(s: Seq<u8>, pos: int, l: Seq<u32>)
    requires
        0 <= pos,
        pos + enc_u32s(l).len() <= s.len(),
        s.subrange(pos, pos + enc_u32s(l).len() as int) == enc_u32s(l),
    ensures
        dec_u32_list(s, pos, l.len() as int) == Parsed::Found(l, pos + enc_u32s(l).len()),
    decreases l.len(),
{
    lemma_auto_spec_u32_to_from_le_bytes();
    crate::encode::lemma_enc_u32s_len(l);
    if l.len() == 0 {
        assert(dec_u32_list(s, pos, 0) == Parsed::<Seq<u32>>::Found(l, pos)) by {
            assert(l =~= Seq::<u32>::empty());
        }
    } else {
        let t = l.subrange(1, l.len() as int);
        let head = spec_u32_to_le_bytes(l[0]);
        lemma_subrange_split(s, pos, head, enc_u32s(t));
        assert(rd_u32(s, pos) == Parsed::Found(l[0], pos + 4)) by {
            assert(s.subrange(pos, pos + 4) == head);
        }
        lemma_dec_enc_u32s(s, pos + 4, t);
        assert(seq![l[0]] + t =~= l);
    }
}


/// A well-formed node in a named position decodes back from its own bytes,
/// wherever they stand in a larger stream.
pub proof fn lemma_dec_enc_named(s: Seq<u8>, pos: int, n: Node)
    requires
        wf_node(n),
        node_maps_ok(n),
        0 <= pos,
        pos + enc_named(n).len() <= s.len(),
        s.subrange(pos, pos + enc_named(n).len() as int) == enc_named(n),
    ensures
        dec_named(s, pos) == Parsed::Found(n, pos + enc_named(n).len()),
    decreases n, 2int,
{
    lemma_auto_spec_u32_to_from_le_bytes();
    let h1 = spec_u32_to_le_bytes(node_name(n));
    let h2 = seq![spec_pack_value_type(node_kind(n))];
    let body = enc_bare(n);
    assert(enc_named(n) == h1 + h2 + body);
    assert(h1 + h2 + body =~= h1 + (h2 + body));
    lemma_subrange_split(s, pos, h1, h2 + body);
    lemma_subrange_split(s, pos + 4, h2, body);
    assert(rd_u32(s, pos) == Parsed::Found(node_name(n), pos + 4)) by {
        assert(s.subrange(pos, pos + 4) == h1);
    }
    assert(s[pos + 4] == spec_pack_value_type(node_kind(n))) by {
        assert(s.subrange(pos + 4, pos + 5)[0] == h2[0]);
    }
    lemma_tag_round_trip(node_kind(n));
    lemma_dec_enc_bare(s, pos + 5, n);
}

/// A well-formed bare node decodes back from its own payload bytes, for the
/// kind it declares and the name it carries.
#[verifier::rlimit(100)]
#[verifier::spinoff_prover]
pub proof fn lemma_dec_enc_bare(s: Seq<u8>, pos: int, n: Node)
    requires
        wf_node(n),
        node_maps_ok(n),
        0 <= pos,
        pos + enc_bare(n).len() <= s.len(),
        s.subrange(pos, pos + enc_bare(n).len() as int) == enc_bare(n),
    ensures
        dec_bare(s, pos, node_kind(n), node_name(n)) == Parsed::Found(n, pos + enc_bare(n).len()),
    decreases n, 1int,
{
    lemma_auto_spec_u16_to_from_le_bytes();
    lemma_auto_spec_u32_to_from_le_bytes();
    lemma_auto_spec_u64_to_from_le_bytes();
    let e = enc_bare(n);
    match n {
        Node::Nil { .. } => {
        },
        Node::Boolean { value, .. } => {
            assert(s[pos] == e[0]) by {
                assert(s.subrange(pos, pos + 1)[0] == e[0]);
            }
        },
        Node::SByte { value, .. } => {
            assert(s[pos] == e[0]) by {
                assert(s.subrange(pos, pos + 1)[0] == e[0]);
            }
            assert((value as u8) as i8 == value) by (bit_vector);
        },
        Node::Byte { value, .. } => {
            assert(s[pos] == e[0]) by {
                assert(s.subrange(pos, pos + 1)[0] == e[0]);
            }
        },
        Node::Int16 { value, .. } => {
            assert(s.subrange(pos, pos + 2) == e);
            assert((value as u16) as i16 == value) by (bit_vector);
        },
        Node::UInt16 { value, .. } => {
            assert(s.subrange(pos, pos + 2) == e);
        },
        Node::Int32 { value, .. } => {
            assert(s.subrange(pos, pos + 4) == e);
            assert((value as u32) as i32 == value) by (bit_vector);
        },
        Node::UInt32 { value, .. } => {
            assert(s.subrange(pos, pos + 4) == e);
        },
        Node::Int64 { value, .. } => {
            assert(s.subrange(pos, pos + 8) == e);
            assert((value as u64) as i64 == value) by (bit_vector);
        },
        Node::UInt64 { value, .. } => {
            assert(s.subrange(pos, pos + 8) == e);
        },
        Node::Float { value, .. } => {
            assert(s.subrange(pos, pos + 4) == e);
        },
        Node::Vector2 { value, .. } => {
            let l = seq![value.x, value.y];
            lemma_enc_u32s_two(value.x, value.y);
            lemma_dec_enc_u32s(s, pos, l);
        },
        Node::Vector3 { value, .. } => {
            let l = seq![value.x, value.y, value.z];
            lemma_enc_u32s_three(value.x, value.y, value.z);
            lemma_dec_enc_u32s(s, pos, l);
        },
        Node::Vector4 { value, .. } => {
            let l = seq![value.x, value.y, value.z, value.w];
            lemma_enc_u32s_four(value.x, value.y, value.z, value.w);
            lemma_dec_enc_u32s(s, pos, l);
        },
        Node::Matrix44 { bits, .. } => {
            lemma_dec_enc_u32s(s, pos, bits);
        },
        Node::Color { value, .. } => {
            assert(s.subrange(pos, pos + 4) == e);
            assert(e[0] == value.r && e[1] == value.g && e[2] == value.b && e[3] == value.a);
        },
        Node::String { bytes, .. } => {
            let h = spec_u16_to_le_bytes(bytes.len() as u16);
            lemma_subrange_split(s, pos, h, bytes);
            assert(rd_u16(s, pos) == Parsed::Found(bytes.len() as u16, pos + 2)) by {
                assert(s.subrange(pos, pos + 2) == h);
            }
            assert((bytes.len() as u16) as int == bytes.len() as int);
        },
        Node::Hash { value, .. } => {
            assert(s.subrange(pos, pos + 4) == e);
        },
        Node::Container { value, .. } => {
            lemma_dec_enc_container(s, pos, value);
        },
        Node::Container2 { value, .. } => {
            lemma_dec_enc_container(s, pos, value);
        },
        Node::Structure { value, .. } => {
            lemma_dec_enc_struct(s, pos, value);
        },
        Node::Embedded { value, .. } => {
            lemma_dec_enc_struct(s, pos, value);
        },
        Node::Link { value, .. } => {
            assert(s.subrange(pos, pos + 4) == e);
        },
        Node::Optional { value_type, value, .. } => {
            let h = seq![
                spec_pack_value_type(value_type),
                if value.len() > 0 {
                    1u8
                } else {
                    0u8
                },
            ];
            if value.len() == 1 {
                let body = enc_bare(value[0]);
                assert(e == h + body);
                lemma_subrange_split(s, pos, h, body);
                assert(s[pos] == h[0] && s[pos + 1] == h[1]) by {
                    assert(s.subrange(pos, pos + 2)[0] == h[0]);
                    assert(s.subrange(pos, pos + 2)[1] == h[1]);
                }
                lemma_tag_round_trip(value_type);
                lemma_dec_enc_bare(s, pos + 2, value[0]);
                assert(seq![value[0]] =~= value);
            } else {
                assert(e == h + Seq::<u8>::empty());
                assert(e =~= h);
                assert(s[pos] == h[0] && s[pos + 1] == h[1]) by {
                    assert(s.subrange(pos, pos + 2)[0] == h[0]);
                    assert(s.subrange(pos, pos + 2)[1] == h[1]);
                }
                lemma_tag_round_trip(value_type);
                assert(value =~= Seq::<Node>::empty());
            }
        },
        Node::Dict { value, .. } => {
            lemma_dec_enc_map(s, pos, value);
        },
        Node::FlagsBoolean { value, .. } => {
            assert(s[pos] == e[0]) by {
                assert(s.subrange(pos, pos + 1)[0] == e[0]);
            }
        },
    }
}

/// The bytes of a two-entry `u32` list are the two little-endian words.
pub proof fn lemma_enc_u32s_two(x: u32, y: u32)
    ensures
        enc_u32s(seq![x, y]) == spec_u32_to_le_bytes(x) + spec_u32_to_le_bytes(y),
{
    let l = seq![x, y];
    assert(l.subrange(1, 2) =~= seq![y]);
    assert(seq![y].subrange(1, 1) =~= Seq::<u32>::empty());
    assert(enc_u32s(seq![y].subrange(1, 1)) == Seq::<u8>::empty());
    assert(enc_u32s(seq![y]) =~= spec_u32_to_le_bytes(y));
    assert(enc_u32s(l) =~= spec_u32_to_le_bytes(x) + spec_u32_to_le_bytes(y));
}

/// The bytes of a three-entry `u32` list are the three little-endian words.
pub proof fn lemma_enc_u32s_three(x: u32, y: u32, z: u32)
    ensures
        enc_u32s(seq![x, y, z]) == spec_u32_to_le_bytes(x) + spec_u32_to_le_bytes(y)
            + spec_u32_to_le_bytes(z),
{
    let l = seq![x, y, z];
    assert(l.subrange(1, 3) =~= seq![y, z]);
    lemma_enc_u32s_two(y, z);
    assert(enc_u32s(l) =~= spec_u32_to_le_bytes(x) + spec_u32_to_le_bytes(y)
        + spec_u32_to_le_bytes(z));
}

/// The bytes of a four-entry `u32` list are the four little-endian words.
pub proof fn lemma_enc_u32s_four(x: u32, y: u32, z: u32, w: u32)
    ensures
        enc_u32s(seq![x, y, z, w]) == spec_u32_to_le_bytes(x) + spec_u32_to_le_bytes(y)
            + spec_u32_to_le_bytes(z) + spec_u32_to_le_bytes(w),
{
    let l = seq![x, y, z, w];
    assert(l.subrange(1, 4) =~= seq![y, z, w]);
    lemma_enc_u32s_three(y, z, w);
    assert(enc_u32s(l) =~= spec_u32_to_le_bytes(x) + spec_u32_to_le_bytes(y)
        + spec_u32_to_le_bytes(z) + spec_u32_to_le_bytes(w));
}

/// A well-formed homogeneous aggregate decodes back from its own payload.
pub proof fn lemma_dec_enc_container(s: Seq<u8>, pos: int, c: ContainerV)
    requires
        wf_container(c),
        list_maps_ok(c.values),
        0 <= pos,
        pos + enc_container(c).len() <= s.len(),
        s.subrange(pos, pos + enc_container(c).len() as int) == enc_container(c),
    ensures
        dec_container(s, pos) == Parsed::Found(c, pos + enc_container(c).len()),
    decreases c, 0int,
{
    lemma_auto_spec_u32_to_from_le_bytes();
    let h1 = seq![spec_pack_value_type(c.value_type)];
    let h2 = spec_u32_to_le_bytes(container_content_len(c) as u32);
    let h3 = spec_u32_to_le_bytes(c.values.len() as u32);
    let body = enc_bare_list(c.values);
    assert(enc_container(c) == h1 + h2 + h3 + body);
    assert(h1 + h2 + h3 + body =~= h1 + (h2 + (h3 + body)));
    assert(h2 + (h3 + body) =~= h2 + h3 + body) by {
        assert(h2 + (h3 + body) =~= (h2 + h3) + body);
        assert((h2 + h3) + body =~= h2 + h3 + body);
    }
    lemma_subrange_split(s, pos, h1, h2 + (h3 + body));
    lemma_subrange_split(s, pos + 1, h2, h3 + body);
    lemma_subrange_split(s, pos + 5, h3, body);
    assert(s[pos] == spec_pack_value_type(c.value_type)) by {
        assert(s.subrange(pos, pos + 1)[0] == h1[0]);
    }
    lemma_tag_round_trip(c.value_type);
    assert(rd_u32(s, pos + 1) is Found) by {
        assert(s.subrange(pos + 1, pos + 5) == h2);
    }
    assert(rd_u32(s, pos + 5) == Parsed::Found(c.values.len() as u32, pos + 9)) by {
        assert(s.subrange(pos + 5, pos + 9) == h3);
    }
    assert((c.values.len() as u32) as int == c.values.len() as int);
    lemma_dec_enc_bare_list(s, pos + 9, c.values, c.value_type);
}

/// A well-formed named aggregate decodes back from its own payload.
pub proof fn lemma_dec_enc_struct(s: Seq<u8>, pos: int, sv: StructV)
    requires
        wf_struct(sv),
        list_maps_ok(sv.fields),
        0 <= pos,
        pos + enc_struct(sv).len() <= s.len(),
        s.subrange(pos, pos + enc_struct(sv).len() as int) == enc_struct(sv),
    ensures
        dec_struct(s, pos) == Parsed::Found(sv, pos + enc_struct(sv).len()),
    decreases sv, 0int,
{
    lemma_auto_spec_u16_to_from_le_bytes();
    lemma_auto_spec_u32_to_from_le_bytes();
    let h1 = spec_u32_to_le_bytes(sv.name);
    if sv.name == 0 {
        assert(enc_struct(sv) == h1 + Seq::<u8>::empty());
        assert(enc_struct(sv) =~= h1);
        assert(rd_u32(s, pos) == Parsed::Found(0u32, pos + 4)) by {
            assert(s.subrange(pos, pos + 4) =~= h1);
        }
        assert(sv.fields =~= Seq::<Node>::empty());
    } else {
        let h2 = spec_u32_to_le_bytes(struct_content_len(sv) as u32);
        let h3 = spec_u16_to_le_bytes(sv.fields.len() as u16);
        let body = enc_named_list(sv.fields);
        assert(enc_struct(sv) == h1 + (h2 + h3 + body));
        assert(h2 + h3 + body =~= h2 + (h3 + body));
        lemma_subrange_split(s, pos, h1, h2 + (h3 + body));
        lemma_subrange_split(s, pos + 4, h2, h3 + body);
        lemma_subrange_split(s, pos + 8, h3, body);
        assert(rd_u32(s, pos) == Parsed::Found(sv.name, pos + 4)) by {
            assert(s.subrange(pos, pos + 4) == h1);
        }
        assert(rd_u32(s, pos + 4) is Found) by {
            assert(s.subrange(pos + 4, pos + 8) == h2);
        }
        assert(rd_u16(s, pos + 8) == Parsed::Found(sv.fields.len() as u16, pos + 10)) by {
            assert(s.subrange(pos + 8, pos + 10) == h3);
        }
        assert((sv.fields.len() as u16) as int == sv.fields.len() as int);
        lemma_dec_enc_named_list(s, pos + 10, sv.fields);
    }
}

/// A well-formed keyed aggregate with a hashable key kind decodes back from
/// its own payload: re-inserting its distinct pairs rebuilds it unchanged.
pub proof fn lemma_dec_enc_map(s: Seq<u8>, pos: int, m: MapV)
    requires
        wf_map(m),
        is_hashable_kind(m.key_type),
        pairs_maps_ok(m.pairs),
        0 <= pos,
        pos + enc_map(m).len() <= s.len(),
        s.subrange(pos, pos + enc_map(m).len() as int) == enc_map(m),
    ensures
        dec_map(s, pos) == Parsed::Found(m, pos + enc_map(m).len()),
    decreases m, 0int,
{
    lemma_auto_spec_u32_to_from_le_bytes();
    let h1 = seq![spec_pack_value_type(m.key_type), spec_pack_value_type(m.value_type)];
    let h2 = spec_u32_to_le_bytes(map_content_len(m) as u32);
    let h3 = spec_u32_to_le_bytes(m.pairs.len() as u32);
    let body = enc_pair_list(m.pairs);
    assert(enc_map(m) == h1 + h2 + h3 + body);
    assert(h1 + h2 + h3 + body =~= h1 + (h2 + (h3 + body)));
    assert(h2 + (h3 + body) =~= h2 + h3 + body) by {
        assert(h2 + (h3 + body) =~= (h2 + h3) + body);
        assert((h2 + h3) + body =~= h2 + h3 + body);
    }
    lemma_subrange_split(s, pos, h1, h2 + (h3 + body));
    lemma_subrange_split(s, pos + 2, h2, h3 + body);
    lemma_subrange_split(s, pos + 6, h3, body);
    assert(s[pos] == h1[0] && s[pos + 1] == h1[1]) by {
        assert(s.subrange(pos, pos + 2)[0] == h1[0]);
        assert(s.subrange(pos, pos + 2)[1] == h1[1]);
    }
    lemma_tag_round_trip(m.key_type);
    lemma_tag_round_trip(m.value_type);
    assert(rd_u32(s, pos + 2) is Found) by {
        assert(s.subrange(pos + 2, pos + 6) == h2);
    }
    assert(rd_u32(s, pos + 6) == Parsed::Found(m.pairs.len() as u32, pos + 10)) by {
        assert(s.subrange(pos + 6, pos + 10) == h3);
    }
    assert((m.pairs.len() as u32) as int == m.pairs.len() as int);
    lemma_dec_enc_pair_list(s, pos + 10, m.pairs, m.key_type, m.value_type);
    lemma_build_map_distinct(m.pairs);
}

/// A well-formed bare list decodes back element by element.
pub proof fn lemma_dec_enc_bare_list(s: Seq<u8>, pos: int, l: Seq<Node>, k: BinValueType)
    requires
        wf_bare_list(l, k),
        list_maps_ok(l),
        0 <= pos,
        pos + enc_bare_list(l).len() <= s.len(),
        s.subrange(pos, pos + enc_bare_list(l).len() as int) == enc_bare_list(l),
    ensures
        dec_bare_list(s, pos, k, l.len() as int) == Parsed::Found(l, pos + enc_bare_list(l).len()),
    decreases l, 3int,
{
    if l.len() == 0 {
        assert(l =~= Seq::<Node>::empty());
    } else {
        let head = enc_bare(l[0]);
        let t = l.subrange(1, l.len() as int);
        let rest = enc_bare_list(t);
        assert(enc_bare_list(l) == head + rest);
        lemma_subrange_split(s, pos, head, rest);
        assert(wf_bare(l[0], k));
        lemma_dec_enc_bare(s, pos, l[0]);
        let p1 = pos + head.len();
        lemma_dec_enc_bare_list(s, p1, t, k);
        assert(seq![l[0]] + t =~= l);
    }
}

/// A well-formed named list decodes back field by field.
pub proof fn lemma_dec_enc_named_list(s: Seq<u8>, pos: int, l: Seq<Node>)
    requires
        wf_named_list(l),
        list_maps_ok(l),
        0 <= pos,
        pos + enc_named_list(l).len() <= s.len(),
        s.subrange(pos, pos + enc_named_list(l).len() as int) == enc_named_list(l),
    ensures
        dec_named_list(s, pos, l.len() as int) == Parsed::Found(
            l,
            pos + enc_named_list(l).len(),
        ),
    decreases l, 3int,
{
    if l.len() == 0 {
        assert(l =~= Seq::<Node>::empty());
    } else {
        let head = enc_named(l[0]);
        let t = l.subrange(1, l.len() as int);
        let rest = enc_named_list(t);
        assert(enc_named_list(l) == head + rest);
        lemma_subrange_split(s, pos, head, rest);
        lemma_dec_enc_named(s, pos, l[0]);
        let p1 = pos + head.len();
        lemma_dec_enc_named_list(s, p1, t);
        assert(seq![l[0]] + t =~= l);
    }
}

/// A well-formed pair list decodes back pair by pair.
pub proof fn lemma_dec_enc_pair_list(
    s: Seq<u8>,
    pos: int,
    l: Seq<(Node, Node)>,
    kk: BinValueType,
    vk: BinValueType,
)
    requires
        wf_pair_list(l, kk, vk),
        pairs_maps_ok(l),
        0 <= pos,
        pos + enc_pair_list(l).len() <= s.len(),
        s.subrange(pos, pos + enc_pair_list(l).len() as int) == enc_pair_list(l),
    ensures
        dec_pair_list(s, pos, kk, vk, l.len() as int) == Parsed::Found(
            l,
            pos + enc_pair_list(l).len(),
        ),
    decreases l, 3int,
{
    if l.len() == 0 {
        assert(l =~= Seq::<(Node, Node)>::empty());
    } else {
        let hk = enc_bare(l[0].0);
        let hv = enc_bare(l[0].1);
        let t = l.subrange(1, l.len() as int);
        let rest = enc_pair_list(t);
        assert(enc_pair_list(l) == hk + hv + rest);
        assert(hk + hv + rest =~= hk + (hv + rest));
        lemma_subrange_split(s, pos, hk, hv + rest);
        lemma_subrange_split(s, pos + hk.len() as int, hv, rest);
        assert(wf_bare(l[0].0, kk) && wf_bare(l[0].1, vk));
        lemma_dec_enc_bare(s, pos, l[0].0);
        lemma_dec_enc_bare(s, pos + hk.len() as int, l[0].1);
        let p2 = pos + hk.len() + hv.len();
        lemma_dec_enc_pair_list(s, p2, t, kk, vk);
        assert(seq![l[0]] + t =~= l);
    }
}


/// A well-formed dependency list decodes back name by name.
pub proof fn lemma_dec_enc_dep_list(s: Seq<u8>, pos: int, l: Seq<Seq<u8>>)
    requires
        forall|i: int| 0 <= i < l.len() ==> crate::tree::wf_dep(#[trigger] l[i]),
        0 <= pos,
        pos + crate::tree::enc_dep_list(l).len() <= s.len(),
        s.subrange(pos, pos + crate::tree::enc_dep_list(l).len() as int)
            == crate::tree::enc_dep_list(l),
    ensures
        crate::tree::dec_dep_list(s, pos, l.len() as int) == Parsed::Found(
            l,
            pos + crate::tree::enc_dep_list(l).len(),
        ),
    decreases l.len(),
{
    lemma_auto_spec_u16_to_from_le_bytes();
    if l.len() == 0 {
        assert(l =~= Seq::<Seq<u8>>::empty());
    } else {
        let head = crate::tree::enc_dep(l[0]);
        let t = l.subrange(1, l.len() as int);
        let rest = crate::tree::enc_dep_list(t);
        assert(crate::tree::enc_dep_list(l) == head + rest);
        lemma_subrange_split(s, pos, head, rest);
        let h = spec_u16_to_le_bytes(l[0].len() as u16);
        lemma_subrange_split(s, pos, h, l[0]);
        assert(rd_u16(s, pos) == Parsed::Found(l[0].len() as u16, pos + 2)) by {
            assert(s.subrange(pos, pos + 2) == h);
        }
        assert((l[0].len() as u16) as int == l[0].len() as int);
        assert(crate::tree::dec_dep(s, pos) == Parsed::<Seq<u8>>::Found(
            l[0],
            pos + head.len(),
        ));
        lemma_dec_enc_dep_list(s, pos + head.len(), t);
        assert(seq![l[0]] + t =~= l);
    }
}

/// A well-formed entry decodes back from its own body bytes, for the class
/// it carries.
pub proof fn lemma_dec_enc_entry(s: Seq<u8>, pos: int, e: crate::tree::EntryV)
    requires
        crate::tree::wf_entry(e),
        list_maps_ok(e.values),
        0 <= pos,
        pos + crate::tree::enc_entry(e).len() <= s.len(),
        s.subrange(pos, pos + crate::tree::enc_entry(e).len() as int) == crate::tree::enc_entry(e),
    ensures
        crate::tree::dec_entry(s, pos, e.class) == Parsed::Found(
            e,
            pos + crate::tree::enc_entry(e).len(),
        ),
{
    lemma_auto_spec_u16_to_from_le_bytes();
    lemma_auto_spec_u32_to_from_le_bytes();
    let h1 = spec_u32_to_le_bytes(crate::tree::entry_content_len(e) as u32);
    let h2 = spec_u32_to_le_bytes(e.path);
    let h3 = spec_u16_to_le_bytes(e.values.len() as u16);
    let body = enc_named_list(e.values);
    assert(crate::tree::enc_entry(e) == h1 + h2 + h3 + body);
    assert(h1 + h2 + h3 + body =~= h1 + (h2 + (h3 + body)));
    assert(h2 + (h3 + body) =~= h2 + h3 + body) by {
        assert(h2 + (h3 + body) =~= (h2 + h3) + body);
        assert((h2 + h3) + body =~= h2 + h3 + body);
    }
    lemma_subrange_split(s, pos, h1, h2 + (h3 + body));
    lemma_subrange_split(s, pos + 4, h2, h3 + body);
    lemma_subrange_split(s, pos + 8, h3, body);
    assert(rd_u32(s, pos) is Found) by {
        assert(s.subrange(pos, pos + 4) == h1);
    }
    assert(rd_u32(s, pos + 4) == Parsed::Found(e.path, pos + 8)) by {
        assert(s.subrange(pos + 4, pos + 8) == h2);
    }
    assert(rd_u16(s, pos + 8) == Parsed::Found(e.values.len() as u16, pos + 10)) by {
        assert(s.subrange(pos + 8, pos + 10) == h3);
    }
    assert((e.values.len() as u16) as int == e.values.len() as int);
    lemma_dec_enc_named_list(s, pos + 10, e.values);
}

/// A well-formed entry list decodes back body by body, each matched to its
/// class by position.
pub proof fn lemma_dec_enc_entry_list(
    s: Seq<u8>,
    pos: int,
    l: Seq<crate::tree::EntryV>,
    classes: Seq<u32>,
    i: int,
)
    requires
        0 <= i,
        i + l.len() == classes.len(),
        forall|j: int| 0 <= j < l.len() ==> classes[i + j] == (#[trigger] l[j]).class,
        forall|j: int| 0 <= j < l.len() ==> crate::tree::wf_entry(#[trigger] l[j]),
        forall|j: int| 0 <= j < l.len() ==> list_maps_ok((#[trigger] l[j]).values),
        0 <= pos,
        pos + crate::tree::enc_entry_list(l).len() <= s.len(),
        s.subrange(pos, pos + crate::tree::enc_entry_list(l).len() as int)
            == crate::tree::enc_entry_list(l),
    ensures
        crate::tree::dec_entry_list(s, pos, classes, i) == Parsed::Found(
            l,
            pos + crate::tree::enc_entry_list(l).len(),
        ),
    decreases l.len(),
{
    if l.len() == 0 {
        assert(l =~= Seq::<crate::tree::EntryV>::empty());
    } else {
        let head = crate::tree::enc_entry(l[0]);
        let t = l.subrange(1, l.len() as int);
        let rest = crate::tree::enc_entry_list(t);
        assert(crate::tree::enc_entry_list(l) == head + rest);
        lemma_subrange_split(s, pos, head, rest);
        assert(classes[i] == l[0].class);
        lemma_dec_enc_entry(s, pos, l[0]);
        assert(forall|j: int| 0 <= j < t.len() ==> classes[i + 1 + j] == (#[trigger] t[j]).class);
        lemma_dec_enc_entry_list(s, pos + head.len(), t, classes, i + 1);
        assert(seq![l[0]] + t =~= l);
    }
}

/// A well-formed document whose maps all declare hashable key kinds decodes
/// back from its own bytes, with anything after them ignored.
pub proof fn lemma_dec_enc_tree(s: Seq<u8>, t: crate::tree::TreeV)
    requires
        crate::tree::wf_tree(t),
        crate::tree::tree_maps_ok(t),
        crate::tree::enc_tree(t).len() <= s.len(),
        s.subrange(0, crate::tree::enc_tree(t).len() as int) == crate::tree::enc_tree(t),
    ensures
        crate::tree::dec_tree(s) == Parsed::Found(t, crate::tree::enc_tree(t).len() as int),
{
    lemma_auto_spec_u32_to_from_le_bytes();
    let m = crate::tree::magic_bytes();
    let h1 = spec_u32_to_le_bytes(2);
    let h2 = spec_u32_to_le_bytes(t.dependencies.len() as u32);
    let deps = crate::tree::enc_dep_list(t.dependencies);
    let h3 = spec_u32_to_le_bytes(t.entries.len() as u32);
    let classes = crate::tree::entry_classes(t.entries);
    let cls = enc_u32s(classes);
    let ents = crate::tree::enc_entry_list(t.entries);
    assert(crate::tree::enc_tree(t) == m + h1 + h2 + deps + h3 + cls + ents);
    let r5 = ents;
    let r4 = cls + r5;
    let r3 = h3 + r4;
    let r2 = deps + r3;
    let r1 = h2 + r2;
    let r0 = h1 + r1;
    assert(m + h1 + h2 + deps + h3 + cls + ents =~= m + r0);
    lemma_subrange_split(s, 0, m, r0);
    assert(r0 =~= h1 + r1);
    lemma_subrange_split(s, 4, h1, r1);
    lemma_subrange_split(s, 8, h2, r2);
    assert(rd_bytes(s, 0, 4) == Parsed::Found(m, 4int)) by {
        assert(s.subrange(0, 4) == m);
    }
    assert(rd_u32(s, 4) == Parsed::Found(2u32, 8int)) by {
        assert(s.subrange(4, 8) == h1);
    }
    assert(rd_u32(s, 8) == Parsed::Found(t.dependencies.len() as u32, 12int)) by {
        assert(s.subrange(8, 12) == h2);
    }
    lemma_subrange_split(s, 12, deps, r3);
    assert((t.dependencies.len() as u32) as int == t.dependencies.len() as int);
    lemma_dec_enc_dep_list(s, 12, t.dependencies);
    let p3 = 12 + deps.len() as int;
    lemma_subrange_split(s, p3, h3, r4);
    assert(rd_u32(s, p3) == Parsed::Found(t.entries.len() as u32, p3 + 4)) by {
        assert(s.subrange(p3, p3 + 4) == h3);
    }
    let p4 = p3 + 4;
    lemma_subrange_split(s, p4, cls, r5);
    assert(classes.len() == t.entries.len());
    lemma_dec_enc_u32s(s, p4, classes);
    assert((t.entries.len() as u32) as int == t.entries.len() as int);
    let p5 = p4 + cls.len() as int;
    assert(forall|j: int|
        0 <= j < t.entries.len() ==> classes[j] == (#[trigger] t.entries[j]).class);
    assert(forall|j: int|
        0 <= j < t.entries.len() ==> list_maps_ok((#[trigger] t.entries[j]).values));
    lemma_dec_enc_entry_list(s, p5, t.entries, classes, 0);
    assert(p5 + ents.len() == crate::tree::enc_tree(t).len());
}

/// An optional payload with its presence byte clear decodes to the absent
/// value whatever inner kind it declares; with the presence byte set it
/// decodes to exactly what a bare value of the declared kind decodes to
/// from the same following bytes.
pub proof fn lemma_optional_presence(s: Seq<u8>, pos: int, name: u32)
    requires
        0 <= pos,
        pos + 2 <= s.len(),
    ensures
        (match spec_unpack_value_type(s[pos]) {
            Some(k) => {
                &&& (s[pos + 1] == 0 ==> dec_bare(s, pos, BinValueType::Optional, name)
                    == Parsed::Found(
                    (Node::Optional { name, value_type: k, value: Seq::empty() }),
                    pos + 2,
                ))
                &&& (s[pos + 1] != 0 ==> dec_bare(s, pos, BinValueType::Optional, name) == (
                match dec_bare(s, pos + 2, k, 0) {
                    Parsed::Found(v, end) => Parsed::Found(
                        (Node::Optional { name, value_type: k, value: seq![v] }),
                        end,
                    ),
                    Parsed::Fail(e) => Parsed::Fail(e),
                }))
            },
            None => dec_bare(s, pos, BinValueType::Optional, name) == Parsed::<Node>::Fail(
                crate::tag::BinError::InvalidTag,
            ),
        }),
{
}

/// A four-byte field whose last byte the stream cuts off decodes to
/// `TruncatedInput`, never to a value.
pub proof fn lemma_truncated_float(s: Seq<u8>, pos: int, name: u32)
    requires
        0 <= pos,
        pos + 4 > s.len(),
    ensures
        dec_bare(s, pos, BinValueType::Float, name) == Parsed::<Node>::Fail(
            crate::tag::BinError::TruncatedInput,
        ),
{
}


/// String keys compare case-insensitively: two string keys carrying the
/// same name stand for the same map slot exactly when their bytes agree
/// after ASCII case folding.
pub proof fn lemma_string_keys_fold(name: u32, a: Seq<u8>, b: Seq<u8>)
    ensures
        key_eq((Node::String { name, bytes: a }), (Node::String { name, bytes: b }))
            <==> crate::value::lc_bytes(a) == crate::value::lc_bytes(b),
{
}

} // verus!
