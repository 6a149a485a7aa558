//! Executable key equality and insertion for keyed aggregates: values of a
//! hashable kind compare by name and payload, string payloads compare
//! case-insensitively by ASCII folding, and inserting over an equal key
//! keeps the stored key while replacing its value.
use vstd::prelude::*;
use crate::value::{
    BinValue, Node, view_value, view_pairs, key_eq, lc_byte, lc_bytes, map_insert,
};

verus! {

/// ASCII lowercase of one byte, as `lc_byte` describes.
fn fold_byte(b: u8) -> (r: u8)
    ensures
        r == lc_byte(b),
{
    if 65 <= b && b <= 90 {
        b + 32
    } else {
        b
    }
}

/// Whether two byte strings are equal after ASCII case folding.
fn eq_ignore_ascii_case(x: &Vec<u8>, y: &Vec<u8>) -> (r: bool)
    ensures
        r == (lc_bytes(x@) == lc_bytes(y@)),
{
    if x.len() != y.len() {
        proof {
            assert(lc_bytes(x@).len() == x@.len());
            assert(lc_bytes(y@).len() == y@.len());
        }
        return false;
    }
    let n = x.len();
    let mut i: usize = 0;
    while i < n
        invariant
            n == x@.len() == y@.len(),
            0 <= i <= n,
            forall|j: int| 0 <= j < i ==> lc_byte(x@[j]) == lc_byte(y@[j]),
        decreases n - i,
    {
        if fold_byte(x[i]) != fold_byte(y[i]) {
            proof {
                assert(lc_bytes(x@)[i as int] != lc_bytes(y@)[i as int]);
            }
            return false;
        }
        i = i + 1;
    }
    proof {
        assert(lc_bytes(x@) =~= lc_bytes(y@));
    }
    true
}

/// Whether two nodes stand for the same map key, as `key_eq` describes.
pub(crate) fn key_matches(a: &BinValue, b: &BinValue) -> (r: bool)
    ensures
        r == key_eq(a@, b@),
{
    match (a, b) {
        (
            BinValue::Boolean { name: n1, value: v1 },
            BinValue::Boolean { name: n2, value: v2 },
        ) => n1 == n2 && v1 == v2,
        (BinValue::SByte { name: n1, value: v1 }, BinValue::SByte { name: n2, value: v2 }) => n1
            == n2 && v1 == v2,
        (BinValue::Byte { name: n1, value: v1 }, BinValue::Byte { name: n2, value: v2 }) => n1 == n2
            && v1 == v2,
        (BinValue::Int16 { name: n1, value: v1 }, BinValue::Int16 { name: n2, value: v2 }) => n1
            == n2 && v1 == v2,
        (BinValue::UInt16 { name: n1, value: v1 }, BinValue::UInt16 { name: n2, value: v2 }) => n1
            == n2 && v1 == v2,
        (BinValue::Int32 { name: n1, value: v1 }, BinValue::Int32 { name: n2, value: v2 }) => n1
            == n2 && v1 == v2,
        (BinValue::UInt32 { name: n1, value: v1 }, BinValue::UInt32 { name: n2, value: v2 }) => n1
            == n2 && v1 == v2,
        (BinValue::Int64 { name: n1, value: v1 }, BinValue::Int64 { name: n2, value: v2 }) => n1
            == n2 && v1 == v2,
        (BinValue::UInt64 { name: n1, value: v1 }, BinValue::UInt64 { name: n2, value: v2 }) => n1
            == n2 && v1 == v2,
        (BinValue::String { name: n1, value: v1 }, BinValue::String { name: n2, value: v2 }) => n1
            == n2 && eq_ignore_ascii_case(v1, v2),
        (BinValue::Hash { name: n1, value: v1 }, BinValue::Hash { name: n2, value: v2 }) => n1 == n2
            && v1 == v2,
        _ => {
            proof {
                assert(!key_eq(a@, b@));
            }
            false
        },
    }
}

/// Inserting where the first match sits at `i` updates that entry in place,
/// keeping its stored key.
proof fn lemma_map_insert_hit(s: Seq<(Node, Node)>, k: Node, v: Node, i: int)
    requires
        0 <= i < s.len(),
        key_eq(s[i].0, k),
        forall|j: int| 0 <= j < i ==> !key_eq(#[trigger] s[j].0, k),
    ensures
        map_insert(s, k, v) == s.update(i, (s[i].0, v)),
    decreases s.len(),
{
    if i == 0 {
        assert(map_insert(s, k, v) =~= s.update(0, (s[0].0, v)));
    } else {
        let tail = s.subrange(1, s.len() as int);
        lemma_map_insert_hit(tail, k, v, i - 1);
        assert(seq![s[0]] + tail.update(i - 1, (tail[i - 1].0, v)) =~= s.update(i, (s[i].0, v)));
    }
}

/// Inserting with no matching stored key appends the pair.
pub(crate) proof fn lemma_map_insert_miss(s: Seq<(Node, Node)>, k: Node, v: Node)
    requires
        forall|j: int| 0 <= j < s.len() ==> !key_eq(#[trigger] s[j].0, k),
    ensures
        map_insert(s, k, v) == s.push((k, v)),
    decreases s.len(),
{
    if s.len() == 0 {
        assert(map_insert(s, k, v) =~= s.push((k, v)));
    } else {
        let tail = s.subrange(1, s.len() as int);
        lemma_map_insert_miss(tail, k, v);
        assert(seq![s[0]] + tail.push((k, v)) =~= s.push((k, v)));
    }
}

/// Inserts a pair into the pair vector, as `map_insert` describes: the
/// first stored key equal to the new key keeps its place and its spelling
/// and takes the new value; with no equal stored key the pair is appended.
pub(crate) fn insert_pair(entries: &mut Vec<(BinValue, BinValue)>, k: BinValue, v: BinValue)
    ensures
        view_pairs(*final(entries)) == map_insert(view_pairs(*old(entries)), view_value(k), view_value(v)),
{
    let ghost s0 = view_pairs(*entries);
    let n = entries.len();
    let mut i: usize = 0;
    while i < n
        invariant
            n == entries.len(),
            0 <= i <= n,
            s0 == view_pairs(*entries),
            s0 == view_pairs(*old(entries)),
            forall|j: int| 0 <= j < i ==> !key_eq(#[trigger] s0[j].0, view_value(k)),
        decreases n - i,
    {
        if key_matches(&entries[i].0, &k) {
            proof {
                assert(s0[i as int].0 == view_value(entries[i as int].0));
                lemma_map_insert_hit(s0, view_value(k), view_value(v), i as int);
            }
            let (old_k, _old_v) = entries.remove(i);
            entries.insert(i, (old_k, v));
            proof {
                assert(view_pairs(*entries) =~= s0.update(
                    i as int,
                    (s0[i as int].0, view_value(v)),
                ));
            }
            return ;
        }
        proof {
            assert(s0[i as int].0 == view_value(entries[i as int].0));
        }
        i = i + 1;
    }
    proof {
        lemma_map_insert_miss(s0, view_value(k), view_value(v));
    }
    entries.push((k, v));
    proof {
        assert(view_pairs(*entries) =~= s0.push((view_value(k), view_value(v))));
    }
}

} // verus!
