//! An executable well-formedness check: callers that assemble trees by
//! hand can establish, at run time, exactly the condition the writer's
//! contract asks for.
use vstd::prelude::*;
use crate::value::{
    BinValue, BinStructure, BinContainer, BinMap, Node, view_value, view_nodes, view_pairs,
    key_eq, distinct_keys,
};
use crate::wire::{
    enc_bare_list, enc_named_list, enc_pair_list, wf_bare, wf_node, wf_struct, wf_container,
    wf_map, size_limit,
};
use crate::tree::{BinEntry, BinTree, wf_entry, wf_tree};
use crate::encode::{
    lemma_enc_bare_list_take_succ, lemma_enc_bare_list_take_le, lemma_enc_named_list_take_succ,
    lemma_enc_named_list_take_le, lemma_enc_pair_list_take_succ, lemma_enc_pair_list_take_le,
};
use crate::keys::key_matches;

verus! {

broadcast use vstd::std_specs::vec::axiom_vec_index_decreases;

/// Whether no two stored keys compare equal under the key equality of the
/// format.
#[verifier::loop_isolation(false)]
fn check_distinct_keys(entries: &Vec<(BinValue, BinValue)>) -> (r: bool)
    ensures
        r == distinct_keys(view_pairs(*entries)),
{
    let ghost pairs = view_pairs(*entries);
    let n = entries.len();
    let mut i: usize = 0;
    while i < n
        invariant
            0 <= i <= n,
            n == entries.len(),
            forall|a: int, b: int|
                0 <= a < b < pairs.len() && a < i ==> !key_eq(
                    (#[trigger] pairs[a]).0,
                    (#[trigger] pairs[b]).0,
                ),
        decreases n - i,
    {
        let mut j: usize = i + 1;
        while j < n
            invariant
                0 <= i < j <= n,
                n == entries.len(),
                forall|b: int| i < b < j ==> !key_eq(pairs[i as int].0, (#[trigger] pairs[b]).0),
            decreases n - j,
        {
            if key_matches(&entries[i].0, &entries[j].0) {
                proof {
                    assert(pairs[i as int].0 == view_value(entries[i as int].0));
                    assert(pairs[j as int].0 == view_value(entries[j as int].0));
                    assert(key_eq(pairs[i as int].0, pairs[j as int].0));
                }
                return false;
            }
            proof {
                assert(pairs[i as int].0 == view_value(entries[i as int].0));
                assert(pairs[j as int].0 == view_value(entries[j as int].0));
            }
            j = j + 1;
        }
        i = i + 1;
    }
    true
}

impl BinValue {
    /// Whether this node, with everything below it, is well-formed.
    #[verifier::loop_isolation(false)]
    #[verifier::rlimit(100)]
    #[verifier::spinoff_prover]
    pub fn is_well_formed(&self) -> (r: bool)
        ensures
            r == wf_node(self@),
        decreases *self, 3int,
    {
        match self {
            BinValue::String { value, .. } => value.len() <= 0xFFFF && crate::decode::is_valid_utf8(
                value,
            ),
            BinValue::Container { value, .. } => value.is_well_formed(),
            BinValue::Container2 { value, .. } => value.is_well_formed(),
            BinValue::Structure { value, .. } => value.is_well_formed(),
            BinValue::Embedded { value, .. } => value.is_well_formed(),
            BinValue::Optional { value_type, value, .. } => {
                match value {
                    Some(inner) => {
                        let vt = inner.value_type();
                        let nm = inner.name();
                        if !(vt == *value_type && nm == 0) {
                            false
                        } else if !inner.is_well_formed() {
                            false
                        } else {
                            let sz = inner.size(true);
                            sz <= 0xFFFF_FFFF
                        }
                    },
                    None => true,
                }
            },
            BinValue::Dict { value, .. } => value.is_well_formed(),
            _ => true,
        }
    }
}

impl BinContainer {
    /// Whether this aggregate, with everything below it, is well-formed.
    #[verifier::loop_isolation(false)]
    pub fn is_well_formed(&self) -> (r: bool)
        ensures
            r == wf_container(self@),
        decreases *self, 2int,
    {
        let ghost nodes = view_nodes(self.values);
        if self.values.len() as u64 > 0xFFFF_FFFF {
            return false;
        }
        let n = self.values.len();
        let mut size: u64 = 4;
        let mut i: usize = 0;
        proof {
            assert(nodes.take(0) =~= Seq::<Node>::empty());
        }
        while i < n
            invariant
                0 <= i <= n,
                n == self.values.len(),
                size == 4 + enc_bare_list(nodes.take(i as int)).len(),
                size <= size_limit(),
                forall|j: int| 0 <= j < i ==> wf_bare(#[trigger] nodes[j], self@.value_type),
            decreases n - i,
        {
            let v = &self.values[i];
            proof {
                assert(nodes[i as int] == view_value(self.values[i as int]));
            }
            let vt = v.value_type();
            let nm = v.name();
            if !(vt == self.value_type && nm == 0) {
                proof {
                    assert(!wf_bare(nodes[i as int], self@.value_type));
                }
                return false;
            }
            if !v.is_well_formed() {
                proof {
                    assert(!wf_bare(nodes[i as int], self@.value_type));
                }
                return false;
            }
            let add = v.size(true);
            proof {
                lemma_enc_bare_list_take_succ(nodes, i as int);
            }
            if add > 0xFFFF_FFFF - size {
                proof {
                    lemma_enc_bare_list_take_le(nodes, i as int + 1);
                }
                return false;
            }
            size = size + add;
            i = i + 1;
        }
        proof {
            assert(nodes.take(n as int) =~= nodes);
        }
        true
    }
}

impl BinStructure {
    /// Whether this aggregate, with everything below it, is well-formed.
    #[verifier::loop_isolation(false)]
    pub fn is_well_formed(&self) -> (r: bool)
        ensures
            r == wf_struct(self@),
        decreases *self, 2int,
    {
        let ghost nodes = view_nodes(self.fields);
        if self.name == 0 && self.fields.len() > 0 {
            return false;
        }
        if self.fields.len() > 0xFFFF {
            return false;
        }
        let n = self.fields.len();
        let mut size: u64 = 2;
        let mut i: usize = 0;
        proof {
            assert(nodes.take(0) =~= Seq::<Node>::empty());
        }
        while i < n
            invariant
                0 <= i <= n,
                n == self.fields.len(),
                size == 2 + enc_named_list(nodes.take(i as int)).len(),
                size <= size_limit(),
                forall|j: int| 0 <= j < i ==> wf_node(#[trigger] nodes[j]),
            decreases n - i,
        {
            let v = &self.fields[i];
            proof {
                assert(nodes[i as int] == view_value(self.fields[i as int]));
            }
            if !v.is_well_formed() {
                return false;
            }
            let add = v.size(false);
            proof {
                lemma_enc_named_list_take_succ(nodes, i as int);
            }
            if add > 0xFFFF_FFFF - size {
                proof {
                    lemma_enc_named_list_take_le(nodes, i as int + 1);
                }
                return false;
            }
            size = size + add;
            i = i + 1;
        }
        proof {
            assert(nodes.take(n as int) =~= nodes);
        }
        true
    }
}

impl BinMap {
    /// Whether this aggregate, with everything below it, is well-formed.
    #[verifier::loop_isolation(false)]
    pub fn is_well_formed(&self) -> (r: bool)
        ensures
            r == wf_map(self@),
        decreases *self, 2int,
    {
        let ghost pairs = view_pairs(self.map);
        if self.map.len() as u64 > 0xFFFF_FFFF {
            return false;
        }
        let n = self.map.len();
        let mut size: u64 = 4;
        let mut i: usize = 0;
        proof {
            assert(pairs.take(0) =~= Seq::<(Node, Node)>::empty());
        }
        while i < n
            invariant
                0 <= i <= n,
                n == self.map.len(),
                size == 4 + enc_pair_list(pairs.take(i as int)).len(),
                size <= size_limit(),
                forall|j: int| #![trigger pairs[j]]
                    0 <= j < i ==> wf_bare(pairs[j].0, self@.key_type) && wf_bare(
                        pairs[j].1,
                        self@.value_type,
                    ),
            decreases n - i,
        {
            proof {
                assert(pairs[i as int] == (
                    view_value(self.map[i as int].0),
                    view_value(self.map[i as int].1),
                ));
            }
            let k = &self.map[i].0;
            let v = &self.map[i].1;
            if !(k.value_type() == self.key_type && k.name() == 0 && v.value_type()
                == self.value_type && v.name() == 0) {
                return false;
            }
            if !k.is_well_formed() || !v.is_well_formed() {
                return false;
            }
            let add_k = k.size(true);
            let add_v = v.size(true);
            proof {
                lemma_enc_pair_list_take_succ(pairs, i as int);
            }
            if add_k > 0xFFFF_FFFF - size {
                proof {
                    lemma_enc_pair_list_take_le(pairs, i as int + 1);
                }
                return false;
            }
            let mid = size + add_k;
            if add_v > 0xFFFF_FFFF - mid {
                proof {
                    lemma_enc_pair_list_take_le(pairs, i as int + 1);
                }
                return false;
            }
            size = mid + add_v;
            i = i + 1;
        }
        proof {
            assert(pairs.take(n as int) =~= pairs);
        }
        check_distinct_keys(&self.map)
    }
}

impl BinEntry {
    /// Whether this entry, with everything below it, is well-formed.
    #[verifier::loop_isolation(false)]
    pub fn is_well_formed(&self) -> (r: bool)
        ensures
            r == wf_entry(self@),
    {
        let ghost nodes = view_nodes(self.values);
        if self.values.len() > 0xFFFF {
            return false;
        }
        let n = self.values.len();
        let mut size: u64 = 6;
        let mut i: usize = 0;
        proof {
            assert(nodes.take(0) =~= Seq::<Node>::empty());
        }
        while i < n
            invariant
                0 <= i <= n,
                n == self.values.len(),
                size == 6 + enc_named_list(nodes.take(i as int)).len(),
                size <= size_limit(),
                forall|j: int| 0 <= j < i ==> wf_node(#[trigger] nodes[j]),
            decreases n - i,
        {
            let v = &self.values[i];
            proof {
                assert(nodes[i as int] == view_value(self.values[i as int]));
            }
            if !v.is_well_formed() {
                return false;
            }
            let add = v.size(false);
            proof {
                lemma_enc_named_list_take_succ(nodes, i as int);
            }
            if add > 0xFFFF_FFFF - size {
                proof {
                    lemma_enc_named_list_take_le(nodes, i as int + 1);
                }
                return false;
            }
            size = size + add;
            i = i + 1;
        }
        proof {
            assert(nodes.take(n as int) =~= nodes);
        }
        true
    }
}

impl BinTree {
    /// Whether this document is well-formed: exactly the condition the
    /// writer's contract asks for.
    #[verifier::loop_isolation(false)]
    pub fn is_well_formed(&self) -> (r: bool)
        ensures
            r == wf_tree(self@),
    {
        let ghost deps = crate::tree::view_deps(self.dependencies);
        let ghost ents = crate::tree::view_entries(self.entries);
        if self.dependencies.len() as u64 > 0xFFFF_FFFF {
            return false;
        }
        if self.entries.len() as u64 > 0xFFFF_FFFF {
            return false;
        }
        let nd = self.dependencies.len();
        let mut i: usize = 0;
        while i < nd
            invariant
                0 <= i <= nd,
                nd == self.dependencies.len(),
                forall|j: int| 0 <= j < i ==> crate::tree::wf_dep(#[trigger] deps[j]),
            decreases nd - i,
        {
            let d = &self.dependencies[i];
            proof {
                assert(deps[i as int] == self.dependencies[i as int]@);
            }
            if d.len() > 0xFFFF {
                return false;
            }
            if !crate::decode::is_valid_utf8(d) {
                return false;
            }
            i = i + 1;
        }
        let ne = self.entries.len();
        let mut j: usize = 0;
        while j < ne
            invariant
                0 <= j <= ne,
                ne == self.entries.len(),
                forall|l: int| 0 <= l < j ==> wf_entry(#[trigger] ents[l]),
            decreases ne - j,
        {
            proof {
                assert(ents[j as int] == crate::tree::view_entry(self.entries[j as int]));
            }
            if !self.entries[j].is_well_formed() {
                return false;
            }
            j = j + 1;
        }
        true
    }
}

} // verus!
