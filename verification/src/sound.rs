//! Soundness of the decoder: whatever it accepts from a stream whose
//! length fits the format's 32-bit size prefixes is well-formed, keeps
//! every nested map hashable, and re-encodes to at most as many bytes as
//! it consumed: a map whose stream repeated a key keeps one slot for it.
//! Together with the inversion laws this closes the round trip that
//! starts from bytes.
use vstd::prelude::*;
use vstd::bytes::{
    lemma_auto_spec_u16_to_from_le_bytes, lemma_auto_spec_u32_to_from_le_bytes,
    lemma_auto_spec_u64_to_from_le_bytes,
};
use crate::tag::BinValueType;
use crate::bytes::Parsed;
use crate::value::{
    Node, node_kind, node_name, build_map, map_insert, key_eq, distinct_keys, is_hashable_kind,
};
use crate::wire::{
    enc_bare, enc_named, enc_bare_list, enc_named_list, enc_pair_list, enc_u32s, enc_struct,
    enc_container, enc_map, wf_bare, wf_node, wf_bare_list, wf_named_list, wf_pair_list,
    wf_struct, wf_container, wf_map, node_maps_ok, list_maps_ok, pairs_maps_ok, size_limit,
};
use crate::parse::{
    dec_named, dec_bare, dec_container, dec_struct, dec_map, dec_u32_list, dec_bare_list,
    dec_named_list, dec_pair_list,
};

verus! {

/// Whether some stored pair carries exactly this key value.
pub open spec fn is_stored_key(l: Seq<(Node, Node)>, x: Node) -> bool {
    exists|i: int| 0 <= i < l.len() && (#[trigger] l[i]).0 == x
}

/// Inserting into a well-formed distinct association keeps it well-formed
/// and distinct, grows it by at most one pair, grows its bytes by at most
/// the new pair's bytes, and introduces no stored key beyond the old ones
/// and the inserted one.
proof fn lemma_map_insert_props(
    l: Seq<(Node, Node)>,
    k: Node,
    v: Node,
    kk: BinValueType,
    vk: BinValueType,
)
    requires
        wf_pair_list(l, kk, vk),
        pairs_maps_ok(l),
        distinct_keys(l),
        wf_bare(k, kk),
        wf_bare(v, vk),
        node_maps_ok(k),
        node_maps_ok(v),
    ensures
        wf_pair_list(map_insert(l, k, v), kk, vk),
        pairs_maps_ok(map_insert(l, k, v)),
        distinct_keys(map_insert(l, k, v)),
        map_insert(l, k, v).len() <= l.len() + 1,
        enc_pair_list(map_insert(l, k, v)).len() <= enc_pair_list(l).len() + enc_bare(k).len()
            + enc_bare(v).len(),
        forall|j: int| #![trigger map_insert(l, k, v)[j]]
            0 <= j < map_insert(l, k, v).len() ==> (map_insert(l, k, v)[j].0 == k || is_stored_key(
                l,
                map_insert(l, k, v)[j].0,
            )),
    decreases l.len(),
{
    let r = map_insert(l, k, v);
    if l.len() == 0 {
        assert(r =~= seq![(k, v)]);
        assert(enc_pair_list(seq![(k, v)].subrange(1, 1)) == Seq::<u8>::empty()) by {
            assert(seq![(k, v)].subrange(1, 1) =~= Seq::<(Node, Node)>::empty());
        }
        assert(enc_pair_list(r).len() == enc_bare(k).len() + enc_bare(v).len());
        assert(r[0].0 == k);
    } else {
        let tail = l.subrange(1, l.len() as int);
        assert(forall|i: int| 0 <= i < tail.len() ==> #[trigger] tail[i] == l[i + 1]);
        assert(distinct_keys(tail)) by {
            assert forall|i: int, j: int| 0 <= i < j < tail.len() implies !key_eq(
                tail[i].0,
                tail[j].0,
            ) by {
                assert(tail[i] == l[i + 1] && tail[j] == l[j + 1]);
            }
        }
        if key_eq(l[0].0, k) {
            assert(r == seq![(l[0].0, v)] + tail);
            assert(forall|j: int| 1 <= j < r.len() ==> #[trigger] r[j] == tail[j - 1]);
            assert(r[0].0 == l[0].0);
            assert(distinct_keys(r)) by {
                assert forall|i: int, j: int| 0 <= i < j < r.len() implies !key_eq(
                    r[i].0,
                    r[j].0,
                ) by {
                    assert(r[i].0 == l[i].0 && r[j].0 == l[j].0);
                }
            }
            assert(r.subrange(1, r.len() as int) =~= tail);
            assert(enc_pair_list(r) == enc_bare(l[0].0) + enc_bare(v) + enc_pair_list(tail));
            assert(enc_pair_list(l) == enc_bare(l[0].0) + enc_bare(l[0].1) + enc_pair_list(tail));
            assert forall|j: int| 0 <= j < r.len() implies (r[j].0 == k || is_stored_key(
                l,
                r[j].0,
            )) by {
                if j == 0 {
                    assert(l[0].0 == r[j].0);
                    assert(is_stored_key(l, r[j].0));
                } else {
                    assert(r[j].0 == l[j].0);
                    assert(is_stored_key(l, r[j].0));
                }
            }
        } else {
            let rr = map_insert(tail, k, v);
            assert(wf_pair_list(tail, kk, vk)) by {
                assert(forall|i: int|
                    0 <= i < tail.len() ==> wf_bare((#[trigger] tail[i]).0, kk) && wf_bare(
                        tail[i].1,
                        vk,
                    ));
            }
            assert(pairs_maps_ok(tail));
            lemma_map_insert_props(tail, k, v, kk, vk);
            assert(r == seq![l[0]] + rr);
            assert(forall|j: int| 1 <= j < r.len() ==> #[trigger] r[j] == rr[j - 1]);
            assert(distinct_keys(r)) by {
                assert forall|i: int, j: int| 0 <= i < j < r.len() implies !key_eq(
                    r[i].0,
                    r[j].0,
                ) by {
                    if i == 0 {
                        assert(r[j] == rr[j - 1]);
                        if rr[j - 1].0 == k {
                            assert(!key_eq(l[0].0, k));
                        } else {
                            assert(is_stored_key(tail, rr[j - 1].0));
                            let w = choose|w: int|
                                0 <= w < tail.len() && (#[trigger] tail[w]).0 == rr[j - 1].0;
                            assert(tail[w] == l[w + 1]);
                            assert(!key_eq(l[0].0, l[w + 1].0));
                        }
                    } else {
                        assert(r[i] == rr[i - 1] && r[j] == rr[j - 1]);
                    }
                }
            }
            assert(r.subrange(1, r.len() as int) =~= rr);
            assert(enc_pair_list(r) == enc_bare(l[0].0) + enc_bare(l[0].1) + enc_pair_list(rr));
            assert(enc_pair_list(l) == enc_bare(l[0].0) + enc_bare(l[0].1) + enc_pair_list(tail));
            assert forall|j: int| 0 <= j < r.len() implies (r[j].0 == k || is_stored_key(
                l,
                r[j].0,
            )) by {
                if j == 0 {
                    assert(r[j].0 == l[0].0);
                    assert(is_stored_key(l, r[j].0));
                } else {
                    assert(r[j] == rr[j - 1]);
                    if rr[j - 1].0 == k {
                    } else {
                        assert(is_stored_key(tail, rr[j - 1].0));
                        let w = choose|w: int|
                            0 <= w < tail.len() && (#[trigger] tail[w]).0 == rr[j - 1].0;
                        assert(tail[w] == l[w + 1]);
                        assert(is_stored_key(l, r[j].0));
                    }
                }
            }
        }
    }
}

/// Building an association from a well-formed pair stream yields a
/// well-formed distinct association no longer, in pairs or in bytes, than
/// the stream.
proof fn lemma_build_map_props(raw: Seq<(Node, Node)>, kk: BinValueType, vk: BinValueType)
    requires
        wf_pair_list(raw, kk, vk),
        pairs_maps_ok(raw),
    ensures
        wf_pair_list(build_map(raw), kk, vk),
        pairs_maps_ok(build_map(raw)),
        distinct_keys(build_map(raw)),
        build_map(raw).len() <= raw.len(),
        enc_pair_list(build_map(raw)).len() <= enc_pair_list(raw).len(),
    decreases raw.len(),
{
    if raw.len() == 0 {
        assert(build_map(raw) =~= Seq::<(Node, Node)>::empty());
    } else {
        let front = raw.drop_last();
        assert(forall|i: int| 0 <= i < front.len() ==> #[trigger] front[i] == raw[i]);
        assert(wf_pair_list(front, kk, vk)) by {
            assert(forall|i: int|
                0 <= i < front.len() ==> wf_bare((#[trigger] front[i]).0, kk) && wf_bare(
                    front[i].1,
                    vk,
                ));
        }
        assert(pairs_maps_ok(front));
        lemma_build_map_props(front, kk, vk);
        let k = raw.last().0;
        let v = raw.last().1;
        assert(wf_bare(k, kk) && wf_bare(v, vk) && node_maps_ok(k) && node_maps_ok(v)) by {
            assert(raw[raw.len() - 1] == raw.last());
        }
        lemma_map_insert_props(build_map(front), k, v, kk, vk);
        assert(enc_pair_list(raw) == enc_pair_list(front) + enc_bare(k) + enc_bare(v)) by {
            crate::encode::lemma_enc_pair_list_push(front, raw.last());
            assert(front.push(raw.last()) =~= raw);
        }
    }
}


/// A `u32` list the decoder accepts has exactly the asked count and
/// consumed four bytes per entry.
proof fn lemma_dec_wf_u32_list(s: Seq<u8>, pos: int, n: int)
    requires
        0 <= pos <= s.len(),
    ensures
        (match dec_u32_list(s, pos, n) {
            Parsed::Found(l, end) => l.len() == (if n >= 0 { n } else { 0 }) && end == pos + 4
                * l.len() && pos <= end <= s.len(),
            Parsed::Fail(_) => true,
        }),
    decreases (if n >= 0 { n } else { 0 }),
{
    if n > 0 {
        match crate::bytes::rd_u32(s, pos) {
            Parsed::Found(v, p1) => {
                lemma_dec_wf_u32_list(s, p1, n - 1);
            },
            Parsed::Fail(_) => {
            },
        }
    }
}

/// A node in a named position the decoder accepts is well-formed, keeps its
/// maps hashable, and re-encodes to at most the bytes consumed.
proof fn lemma_dec_wf_named(s: Seq<u8>, pos: int)
    requires
        0 <= pos <= s.len(),
        s.len() <= size_limit(),
    ensures
        (match dec_named(s, pos) {
            Parsed::Found(n, end) => pos <= end <= s.len() && wf_node(n) && node_maps_ok(n)
                && enc_named(n).len() <= end - pos,
            Parsed::Fail(_) => true,
        }),
    decreases s.len() - pos, 2int, 1int,
{
    lemma_auto_spec_u32_to_from_le_bytes();
    match crate::bytes::rd_u32(s, pos) {
        Parsed::Found(name, p1) => {
            match crate::bytes::rd_u8(s, p1) {
                Parsed::Found(tag, p2) => {
                    match crate::tag::spec_unpack_value_type(tag) {
                        Some(k) => {
                            lemma_dec_wf_bare(s, p2, k, name);
                        },
                        None => {
                        },
                    }
                },
                Parsed::Fail(_) => {
                },
            }
        },
        Parsed::Fail(_) => {
        },
    }
}

/// A bare payload the decoder accepts is well-formed, declares the asked
/// kind, carries the asked name, keeps its maps hashable, and re-encodes
/// to at most the bytes consumed.
#[verifier::rlimit(100)]
#[verifier::spinoff_prover]
proof fn lemma_dec_wf_bare(s: Seq<u8>, pos: int, k: BinValueType, name: u32)
    requires
        0 <= pos <= s.len(),
        s.len() <= size_limit(),
    ensures
        (match dec_bare(s, pos, k, name) {
            Parsed::Found(n, end) => pos <= end <= s.len() && node_kind(n) == k && node_name(n)
                == name && wf_node(n) && node_maps_ok(n) && enc_bare(n).len() <= end - pos,
            Parsed::Fail(_) => true,
        }),
    decreases s.len() - pos, 2int, 0int,
{
    lemma_auto_spec_u16_to_from_le_bytes();
    lemma_auto_spec_u32_to_from_le_bytes();
    lemma_auto_spec_u64_to_from_le_bytes();
    match k {
        BinValueType::Vector2 => {
            lemma_dec_wf_u32_list(s, pos, 2);
        },
        BinValueType::Vector3 => {
            lemma_dec_wf_u32_list(s, pos, 3);
        },
        BinValueType::Vector4 => {
            lemma_dec_wf_u32_list(s, pos, 4);
        },
        BinValueType::Matrix44 => {
            lemma_dec_wf_u32_list(s, pos, 16);
            match dec_u32_list(s, pos, 16) {
                Parsed::Found(l, _) => {
                    crate::encode::lemma_enc_u32s_len(l);
                },
                Parsed::Fail(_) => {
                },
            }
        },
        BinValueType::Container => {
            lemma_dec_wf_container(s, pos);
        },
        BinValueType::Container2 => {
            lemma_dec_wf_container(s, pos);
        },
        BinValueType::Structure => {
            lemma_dec_wf_struct(s, pos);
        },
        BinValueType::Embedded => {
            lemma_dec_wf_struct(s, pos);
        },
        BinValueType::Optional => {
            match crate::bytes::rd_u8(s, pos) {
                Parsed::Found(tag, p1) => {
                    match crate::tag::spec_unpack_value_type(tag) {
                        Some(inner) => {
                            match crate::bytes::rd_u8(s, p1) {
                                Parsed::Found(flag, p2) => {
                                    if flag != 0 {
                                        lemma_dec_wf_bare(s, p2, inner, 0);
                                    }
                                },
                                Parsed::Fail(_) => {
                                },
                            }
                        },
                        None => {
                        },
                    }
                },
                Parsed::Fail(_) => {
                },
            }
        },
        BinValueType::Dict => {
            lemma_dec_wf_map(s, pos);
        },
        _ => {
        },
    }
}

/// A homogeneous aggregate the decoder accepts is well-formed and
/// re-encodes to at most the bytes consumed.
proof fn lemma_dec_wf_container(s: Seq<u8>, pos: int)
    requires
        0 <= pos <= s.len(),
        s.len() <= size_limit(),
    ensures
        (match dec_container(s, pos) {
            Parsed::Found(c, end) => pos <= end <= s.len() && wf_container(c) && list_maps_ok(
                c.values,
            ) && enc_container(c).len() <= end - pos,
            Parsed::Fail(_) => true,
        }),
    decreases s.len() - pos, 1int, 0int,
{
    lemma_auto_spec_u32_to_from_le_bytes();
    match crate::bytes::rd_u8(s, pos) {
        Parsed::Found(tag, p1) => {
            match crate::tag::spec_unpack_value_type(tag) {
                Some(ek) => {
                    match crate::bytes::rd_u32(s, p1) {
                        Parsed::Found(_size, p2) => {
                            match crate::bytes::rd_u32(s, p2) {
                                Parsed::Found(count, p3) => {
                                    lemma_dec_wf_bare_list(s, p3, ek, count as int);
                                },
                                Parsed::Fail(_) => {
                                },
                            }
                        },
                        Parsed::Fail(_) => {
                        },
                    }
                },
                None => {
                },
            }
        },
        Parsed::Fail(_) => {
        },
    }
}

/// A named aggregate the decoder accepts is well-formed and re-encodes to
/// at most the bytes consumed.
proof fn lemma_dec_wf_struct(s: Seq<u8>, pos: int)
    requires
        0 <= pos <= s.len(),
        s.len() <= size_limit(),
    ensures
        (match dec_struct(s, pos) {
            Parsed::Found(sv, end) => pos <= end <= s.len() && wf_struct(sv) && list_maps_ok(
                sv.fields,
            ) && enc_struct(sv).len() <= end - pos,
            Parsed::Fail(_) => true,
        }),
    decreases s.len() - pos, 1int, 0int,
{
    lemma_auto_spec_u16_to_from_le_bytes();
    lemma_auto_spec_u32_to_from_le_bytes();
    match crate::bytes::rd_u32(s, pos) {
        Parsed::Found(sname, p1) => {
            if sname != 0 {
                match crate::bytes::rd_u32(s, p1) {
                    Parsed::Found(_size, p2) => {
                        match crate::bytes::rd_u16(s, p2) {
                            Parsed::Found(count, p3) => {
                                lemma_dec_wf_named_list(s, p3, count as int);
                            },
                            Parsed::Fail(_) => {
                            },
                        }
                    },
                    Parsed::Fail(_) => {
                    },
                }
            }
        },
        Parsed::Fail(_) => {
        },
    }
}

/// A keyed aggregate the decoder accepts is well-formed, declares a
/// hashable key kind, and re-encodes to at most the bytes consumed.
proof fn lemma_dec_wf_map(s: Seq<u8>, pos: int)
    requires
        0 <= pos <= s.len(),
        s.len() <= size_limit(),
    ensures
        (match dec_map(s, pos) {
            Parsed::Found(m, end) => pos <= end <= s.len() && wf_map(m) && is_hashable_kind(
                m.key_type,
            ) && pairs_maps_ok(m.pairs) && enc_map(m).len() <= end - pos,
            Parsed::Fail(_) => true,
        }),
    decreases s.len() - pos, 1int, 0int,
{
    lemma_auto_spec_u32_to_from_le_bytes();
    match crate::bytes::rd_u8(s, pos) {
        Parsed::Found(ktag, p1) => {
            match crate::tag::spec_unpack_value_type(ktag) {
                Some(kk) => {
                    match crate::bytes::rd_u8(s, p1) {
                        Parsed::Found(vtag, p2) => {
                            match crate::tag::spec_unpack_value_type(vtag) {
                                Some(vk) => {
                                    if is_hashable_kind(kk) {
                                        match crate::bytes::rd_u32(s, p2) {
                                            Parsed::Found(_size, p3) => {
                                                match crate::bytes::rd_u32(s, p3) {
                                                    Parsed::Found(count, p4) => {
                                                        lemma_dec_wf_pair_list(
                                                            s,
                                                            p4,
                                                            kk,
                                                            vk,
                                                            count as int,
                                                        );
                                                        match dec_pair_list(
                                                            s,
                                                            p4,
                                                            kk,
                                                            vk,
                                                            count as int,
                                                        ) {
                                                            Parsed::Found(raw, _end) => {
                                                                lemma_build_map_props(raw, kk, vk);
                                                            },
                                                            Parsed::Fail(_) => {
                                                            },
                                                        }
                                                    },
                                                    Parsed::Fail(_) => {
                                                    },
                                                }
                                            },
                                            Parsed::Fail(_) => {
                                            },
                                        }
                                    }
                                },
                                None => {
                                },
                            }
                        },
                        Parsed::Fail(_) => {
                        },
                    }
                },
                None => {
                },
            }
        },
        Parsed::Fail(_) => {
        },
    }
}

/// A bare list the decoder accepts has the asked count of well-formed
/// elements of the asked kind and re-encodes to at most the bytes consumed.
proof fn lemma_dec_wf_bare_list(s: Seq<u8>, pos: int, k: BinValueType, n: int)
    requires
        0 <= pos <= s.len(),
        s.len() <= size_limit(),
    ensures
        (match dec_bare_list(s, pos, k, n) {
            Parsed::Found(l, end) => pos <= end <= s.len() && l.len() == (if n >= 0 {
                n
            } else {
                0
            }) && wf_bare_list(l, k) && list_maps_ok(l) && enc_bare_list(l).len() <= end - pos,
            Parsed::Fail(_) => true,
        }),
    decreases s.len() - pos, 3int, n,
{
    if n > 0 {
        match dec_bare(s, pos, k, 0) {
            Parsed::Found(v, p1) => {
                lemma_dec_wf_bare(s, pos, k, 0);
                if pos <= p1 <= s.len() {
                    lemma_dec_wf_bare_list(s, p1, k, n - 1);
                    match dec_bare_list(s, p1, k, n - 1) {
                        Parsed::Found(rest, _end) => {
                            assert((seq![v] + rest).subrange(1, 1 + rest.len() as int) =~= rest);
                            assert((seq![v] + rest)[0] == v);
                            assert(wf_bare_list(seq![v] + rest, k)) by {
                                assert(forall|i: int|
                                    1 <= i < (seq![v] + rest).len() ==> (seq![v] + rest)[i]
                                        == rest[i - 1]);
                            }
                            assert(list_maps_ok(seq![v] + rest)) by {
                                assert(forall|i: int|
                                    1 <= i < (seq![v] + rest).len() ==> (seq![v] + rest)[i]
                                        == rest[i - 1]);
                            }
                        },
                        Parsed::Fail(_) => {
                        },
                    }
                }
            },
            Parsed::Fail(_) => {
            },
        }
    }
}

/// A named list the decoder accepts has the asked count of well-formed
/// fields and re-encodes to at most the bytes consumed.
proof fn lemma_dec_wf_named_list(s: Seq<u8>, pos: int, n: int)
    requires
        0 <= pos <= s.len(),
        s.len() <= size_limit(),
    ensures
        (match dec_named_list(s, pos, n) {
            Parsed::Found(l, end) => pos <= end <= s.len() && l.len() == (if n >= 0 {
                n
            } else {
                0
            }) && wf_named_list(l) && list_maps_ok(l) && enc_named_list(l).len() <= end - pos,
            Parsed::Fail(_) => true,
        }),
    decreases s.len() - pos, 3int, n,
{
    if n > 0 {
        match dec_named(s, pos) {
            Parsed::Found(v, p1) => {
                lemma_dec_wf_named(s, pos);
                if pos <= p1 <= s.len() {
                    lemma_dec_wf_named_list(s, p1, n - 1);
                    match dec_named_list(s, p1, n - 1) {
                        Parsed::Found(rest, _end) => {
                            assert((seq![v] + rest).subrange(1, 1 + rest.len() as int) =~= rest);
                            assert((seq![v] + rest)[0] == v);
                            assert(wf_named_list(seq![v] + rest)) by {
                                assert(forall|i: int|
                                    1 <= i < (seq![v] + rest).len() ==> (seq![v] + rest)[i]
                                        == rest[i - 1]);
                            }
                            assert(list_maps_ok(seq![v] + rest)) by {
                                assert(forall|i: int|
                                    1 <= i < (seq![v] + rest).len() ==> (seq![v] + rest)[i]
                                        == rest[i - 1]);
                            }
                        },
                        Parsed::Fail(_) => {
                        },
                    }
                }
            },
            Parsed::Fail(_) => {
            },
        }
    }
}

/// A pair list the decoder accepts has the asked count of well-formed
/// pairs and re-encodes to at most the bytes consumed.
proof fn lemma_dec_wf_pair_list(s: Seq<u8>, pos: int, kk: BinValueType, vk: BinValueType, n: int)
    requires
        0 <= pos <= s.len(),
        s.len() <= size_limit(),
    ensures
        (match dec_pair_list(s, pos, kk, vk, n) {
            Parsed::Found(l, end) => pos <= end <= s.len() && l.len() == (if n >= 0 {
                n
            } else {
                0
            }) && wf_pair_list(l, kk, vk) && pairs_maps_ok(l) && enc_pair_list(l).len() <= end
                - pos,
            Parsed::Fail(_) => true,
        }),
    decreases s.len() - pos, 3int, n,
{
    if n > 0 {
        match dec_bare(s, pos, kk, 0) {
            Parsed::Found(kv, p1) => {
                lemma_dec_wf_bare(s, pos, kk, 0);
                if pos <= p1 <= s.len() {
                    match dec_bare(s, p1, vk, 0) {
                        Parsed::Found(vv, p2) => {
                            lemma_dec_wf_bare(s, p1, vk, 0);
                            if p1 <= p2 <= s.len() {
                                lemma_dec_wf_pair_list(s, p2, kk, vk, n - 1);
                                match dec_pair_list(s, p2, kk, vk, n - 1) {
                                    Parsed::Found(rest, _end) => {
                                        let l = seq![(kv, vv)] + rest;
                                        assert(l.subrange(1, 1 + rest.len() as int) =~= rest);
                                        assert(l[0] == (kv, vv));
                                        assert(forall|i: int|
                                            1 <= i < l.len() ==> #[trigger] l[i] == rest[i - 1]);
                                        assert(wf_pair_list(l, kk, vk));
                                        assert(pairs_maps_ok(l));
                                    },
                                    Parsed::Fail(_) => {
                                    },
                                }
                            }
                        },
                        Parsed::Fail(_) => {
                        },
                    }
                }
            },
            Parsed::Fail(_) => {
            },
        }
    }
}


/// A dependency list the decoder accepts has the asked count of well-formed
/// names.
proof fn lemma_dec_wf_dep_list(s: Seq<u8>, pos: int, n: int)
    requires
        0 <= pos <= s.len(),
    ensures
        (match crate::tree::dec_dep_list(s, pos, n) {
            Parsed::Found(l, end) => pos <= end <= s.len() && l.len() == (if n >= 0 {
                n
            } else {
                0
            }) && (forall|i: int| 0 <= i < l.len() ==> crate::tree::wf_dep(#[trigger] l[i])),
            Parsed::Fail(_) => true,
        }),
    decreases (if n >= 0 { n } else { 0 }),
{
    if n > 0 {
        match crate::tree::dec_dep(s, pos) {
            Parsed::Found(d, p1) => {
                lemma_dec_wf_dep_list(s, p1, n - 1);
                match crate::tree::dec_dep_list(s, p1, n - 1) {
                    Parsed::Found(rest, _end) => {
                        assert(forall|i: int|
                            1 <= i < (seq![d] + rest).len() ==> (#[trigger] (seq![d] + rest)[i])
                                == rest[i - 1]);
                        assert((seq![d] + rest)[0] == d);
                    },
                    Parsed::Fail(_) => {
                    },
                }
            },
            Parsed::Fail(_) => {
            },
        }
    }
}

/// An entry body the decoder accepts is well-formed and carries the class
/// it was matched to.
proof fn lemma_dec_wf_entry(s: Seq<u8>, pos: int, class: u32)
    requires
        0 <= pos <= s.len(),
        s.len() <= size_limit(),
    ensures
        (match crate::tree::dec_entry(s, pos, class) {
            Parsed::Found(e, end) => pos <= end <= s.len() && crate::tree::wf_entry(e)
                && list_maps_ok(e.values) && e.class == class,
            Parsed::Fail(_) => true,
        }),
{
    match crate::bytes::rd_u32(s, pos) {
        Parsed::Found(_size, p1) => {
            match crate::bytes::rd_u32(s, p1) {
                Parsed::Found(_path, p2) => {
                    match crate::bytes::rd_u16(s, p2) {
                        Parsed::Found(count, p3) => {
                            lemma_dec_wf_named_list(s, p3, count as int);
                        },
                        Parsed::Fail(_) => {
                        },
                    }
                },
                Parsed::Fail(_) => {
                },
            }
        },
        Parsed::Fail(_) => {
        },
    }
}

/// An entry list the decoder accepts pairs each body with its class by
/// position and every body is well-formed.
proof fn lemma_dec_wf_entry_list(s: Seq<u8>, pos: int, classes: Seq<u32>, i: int)
    requires
        0 <= pos <= s.len(),
        s.len() <= size_limit(),
        0 <= i <= classes.len(),
    ensures
        (match crate::tree::dec_entry_list(s, pos, classes, i) {
            Parsed::Found(l, end) => pos <= end <= s.len() && l.len() == classes.len() - i && (
            forall|j: int| 0 <= j < l.len() ==> crate::tree::wf_entry(#[trigger] l[j])) && (
            forall|j: int| 0 <= j < l.len() ==> list_maps_ok((#[trigger] l[j]).values)) && (
            forall|j: int| 0 <= j < l.len() ==> (#[trigger] l[j]).class == classes[i + j]),
            Parsed::Fail(_) => true,
        }),
    decreases classes.len() - i,
{
    if i < classes.len() {
        match crate::tree::dec_entry(s, pos, classes[i]) {
            Parsed::Found(e, p1) => {
                lemma_dec_wf_entry(s, pos, classes[i]);
                lemma_dec_wf_entry_list(s, p1, classes, i + 1);
                match crate::tree::dec_entry_list(s, p1, classes, i + 1) {
                    Parsed::Found(rest, _end) => {
                        assert(forall|j: int|
                            1 <= j < (seq![e] + rest).len() ==> (#[trigger] (seq![e] + rest)[j])
                                == rest[j - 1]);
                        assert((seq![e] + rest)[0] == e);
                    },
                    Parsed::Fail(_) => {
                    },
                }
            },
            Parsed::Fail(_) => {
            },
        }
    }
}

/// A document the decoder accepts from a stream whose length fits the
/// 32-bit size prefixes is well-formed, and every map in it declares a
/// hashable key kind.
pub proof fn lemma_dec_wf_tree(s: Seq<u8>)
    requires
        s.len() <= size_limit(),
    ensures
        (match crate::tree::dec_tree(s) {
            Parsed::Found(t, end) => 0 <= end <= s.len() && crate::tree::wf_tree(t)
                && crate::tree::tree_maps_ok(t),
            Parsed::Fail(_) => true,
        }),
{
    match crate::bytes::rd_bytes(s, 0, 4) {
        Parsed::Found(m, p0) => {
            if m == crate::tree::magic_bytes() {
                match crate::bytes::rd_u32(s, p0) {
                    Parsed::Found(version, p1) => {
                        if version == 1 || version == 2 {
                            let deps: Parsed<Seq<Seq<u8>>> = if version >= 2 {
                                match crate::bytes::rd_u32(s, p1) {
                                    Parsed::Found(dep_count, p2) => {
                                        lemma_dec_wf_dep_list(s, p2, dep_count as int);
                                        crate::tree::dec_dep_list(s, p2, dep_count as int)
                                    },
                                    Parsed::Fail(e) => Parsed::Fail(e),
                                }
                            } else {
                                Parsed::Found(Seq::empty(), p1)
                            };
                            match deps {
                                Parsed::Found(dependencies, p3) => {
                                    match crate::bytes::rd_u32(s, p3) {
                                        Parsed::Found(entry_count, p4) => {
                                            lemma_dec_wf_u32_list(s, p4, entry_count as int);
                                            match dec_u32_list(s, p4, entry_count as int) {
                                                Parsed::Found(classes, p5) => {
                                                    lemma_dec_wf_entry_list(s, p5, classes, 0);
                                                },
                                                Parsed::Fail(_) => {
                                                },
                                            }
                                        },
                                        Parsed::Fail(_) => {
                                        },
                                    }
                                },
                                Parsed::Fail(_) => {
                                },
                            }
                        }
                    },
                    Parsed::Fail(_) => {
                    },
                }
            }
        },
        Parsed::Fail(_) => {
        },
    }
}

/// The round trip that starts from bytes: a stream that decodes to a tree,
/// when its length fits the format's 32-bit size prefixes, yields a
/// well-formed tree whose encoding decodes back to the very same tree.
/// Since sizes are advisory and tags have two spellings on the wire, the
/// re-encoded stream need not repeat the original bytes; the value does.
pub proof fn lemma_tree_round_trip(s: Seq<u8>, t: crate::tree::TreeV, end: int)
    requires
        s.len() <= size_limit(),
        crate::tree::dec_tree(s) == Parsed::Found(t, end),
    ensures
        crate::tree::wf_tree(t),
        crate::tree::tree_maps_ok(t),
        crate::tree::dec_tree(crate::tree::enc_tree(t)) == Parsed::Found(
            t,
            crate::tree::enc_tree(t).len() as int,
        ),
{
    lemma_dec_wf_tree(s);
    let e = crate::tree::enc_tree(t);
    assert(e.subrange(0, e.len() as int) =~= e);
    crate::laws::lemma_dec_enc_tree(e, t);
}

/// The same round trip for one node in a named position: what decodes from
/// a bounded stream is well-formed and decodes back from its own encoding.
pub proof fn lemma_value_round_trip(s: Seq<u8>, pos: int, n: Node, end: int)
    requires
        s.len() <= size_limit(),
        0 <= pos <= s.len(),
        dec_named(s, pos) == Parsed::Found(n, end),
    ensures
        wf_node(n),
        node_maps_ok(n),
        dec_named(enc_named(n), 0) == Parsed::Found(n, enc_named(n).len() as int),
{
    lemma_dec_wf_named(s, pos);
    let e = enc_named(n);
    assert(e.subrange(0, e.len() as int) =~= e);
    crate::laws::lemma_dec_enc_named(e, 0, n);
}

} // verus!
