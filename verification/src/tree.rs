//! The document root: a tree of dependency names and entries, its exact
//! wire shape, its spec parser, and the executable reader and writer.
//!
//! The stream opens with the magic literal "PROP" and a version word; only
//! versions 1 and 2 are accepted, and version 2 is always produced. Version
//! 2 carries a dependency list before the entries. Entry class identifiers
//! are laid out contiguously before any entry body, and each body is
//! matched to its class by position.
use vstd::prelude::*;
use vstd::bytes::{spec_u16_to_le_bytes, spec_u32_to_le_bytes};
use vstd::utf8::valid_utf8;
use crate::tag::BinError;
use crate::bytes::{
    Parsed, rd_u16, rd_u32, rd_bytes, get_u16, get_u32, get_bytes, put_u16, put_u32, put_bytes,
};
use crate::value::{BinValue, Node, view_nodes, view_value, lemma_view_nodes_push};
use crate::wire::{
    enc_named_list, wf_named_list, list_maps_ok, size_limit, enc_u32s,
};
use crate::parse::{
    dec_named_list, dec_u32_list, prepend_parsed, lemma_prepend_assoc, lemma_prepend_empty,
};
use crate::encode::{
    lemma_enc_named_list_take_succ, lemma_enc_named_list_take_le, lemma_enc_u32s_take_succ,
};
use crate::decode::{get_u32_list, is_valid_utf8};

verus! {

broadcast use vstd::std_specs::vec::axiom_vec_index_decreases;

/// Mathematical model of an entry: a class identifier, a path identifier,
/// and an ordered sequence of named value nodes.
#[verifier::ext_equal]
pub ghost struct EntryV {
    pub class: u32,
    pub path: u32,
    pub values: Seq<Node>,
}

/// Mathematical model of a document: dependency names as UTF-8 byte
/// strings, and an ordered sequence of entries.
#[verifier::ext_equal]
pub ghost struct TreeV {
    pub dependencies: Seq<Seq<u8>>,
    pub entries: Seq<EntryV>,
}

/// A named, classed record holding an ordered list of value nodes.
#[derive(PartialEq, Debug)]
pub struct BinEntry {
    pub class: u32,
    pub path: u32,
    pub values: Vec<BinValue>,
}

/// The document root: dependency names and entries.
#[derive(PartialEq, Debug)]
pub struct BinTree {
    pub dependencies: Vec<Vec<u8>>,
    pub entries: Vec<BinEntry>,
}

/// Decodes trees from byte streams.
pub struct BinReader;

/// Encodes trees to byte streams.
pub struct BinWriter;

/// The model of an entry.
pub open spec fn view_entry(e: BinEntry) -> EntryV {
    EntryV { class: e.class, path: e.path, values: view_nodes(e.values) }
}

/// The models of a vector of entries, in order.
pub open spec fn view_entries(v: Vec<BinEntry>) -> Seq<EntryV> {
    Seq::new(
        v.len() as nat,
        |i: int|
            if 0 <= i < v.len() {
                view_entry(v[i])
            } else {
                EntryV { class: 0, path: 0, values: Seq::empty() }
            },
    )
}

/// The models of a vector of dependency names, in order.
pub open spec fn view_deps(v: Vec<Vec<u8>>) -> Seq<Seq<u8>> {
    Seq::new(
        v.len() as nat,
        |i: int|
            if 0 <= i < v.len() {
                v[i]@
            } else {
                Seq::empty()
            },
    )
}

impl View for BinEntry {
    type V = EntryV;

    open spec fn view(&self) -> EntryV {
        view_entry(*self)
    }
}

impl View for BinTree {
    type V = TreeV;

    open spec fn view(&self) -> TreeV {
        TreeV { dependencies: view_deps(self.dependencies), entries: view_entries(self.entries) }
    }
}

/// The four magic bytes that open every stream: the letters "PROP".
pub open spec fn magic_bytes() -> Seq<u8> {
    seq![80u8, 82u8, 79u8, 80u8]
}

/// The bytes of one dependency name: 16-bit byte length, then the bytes.
pub open spec fn enc_dep(d: Seq<u8>) -> Seq<u8> {
    spec_u16_to_le_bytes(d.len() as u16) + d
}

/// The bytes of the dependency list, back to back.
pub open spec fn enc_dep_list(s: Seq<Seq<u8>>) -> Seq<u8>
    decreases s.len(),
{
    if s.len() == 0 {
        Seq::empty()
    } else {
        enc_dep(s[0]) + enc_dep_list(s.subrange(1, s.len() as int))
    }
}

/// The declared byte size of an entry's body: the path, the count, and the
/// named values; what its 32-bit size prefix carries.
pub open spec fn entry_content_len(e: EntryV) -> int {
    6 + enc_named_list(e.values).len() as int
}

/// The bytes of one entry body: size, path, value count, named values.
pub open spec fn enc_entry(e: EntryV) -> Seq<u8> {
    spec_u32_to_le_bytes(entry_content_len(e) as u32) + spec_u32_to_le_bytes(e.path)
        + spec_u16_to_le_bytes(e.values.len() as u16) + enc_named_list(e.values)
}

/// The bytes of the entry bodies, back to back.
pub open spec fn enc_entry_list(s: Seq<EntryV>) -> Seq<u8>
    decreases s.len(),
{
    if s.len() == 0 {
        Seq::empty()
    } else {
        enc_entry(s[0]) + enc_entry_list(s.subrange(1, s.len() as int))
    }
}

/// The class identifiers of a sequence of entries, in order.
pub open spec fn entry_classes(s: Seq<EntryV>) -> Seq<u32> {
    Seq::new(s.len(), |i: int| s[i].class)
}

/// The bytes of a whole document, always at version 2: magic, version,
/// dependency count and names, entry count, the contiguous class
/// identifiers, then the entry bodies in the same order.
pub open spec fn enc_tree(t: TreeV) -> Seq<u8> {
    magic_bytes() + spec_u32_to_le_bytes(2) + spec_u32_to_le_bytes(t.dependencies.len() as u32)
        + enc_dep_list(t.dependencies) + spec_u32_to_le_bytes(t.entries.len() as u32) + enc_u32s(
        entry_classes(t.entries),
    ) + enc_entry_list(t.entries)
}

/// Well-formedness of one dependency name: its byte length fits the 16-bit
/// prefix and its bytes are valid UTF-8.
pub open spec fn wf_dep(d: Seq<u8>) -> bool {
    d.len() <= 0xFFFF && valid_utf8(d)
}

/// Well-formedness of an entry: the value count fits its 16-bit prefix, the
/// body size fits its 32-bit prefix, and every value is well-formed.
pub open spec fn wf_entry(e: EntryV) -> bool {
    &&& e.values.len() <= 0xFFFF
    &&& entry_content_len(e) <= size_limit()
    &&& wf_named_list(e.values)
}

/// Well-formedness of a document: both counts fit their 32-bit prefixes and
/// every dependency name and entry is well-formed.
pub open spec fn wf_tree(t: TreeV) -> bool {
    &&& t.dependencies.len() <= size_limit()
    &&& t.entries.len() <= size_limit()
    &&& (forall|i: int| 0 <= i < t.dependencies.len() ==> wf_dep(#[trigger] t.dependencies[i]))
    &&& (forall|i: int| 0 <= i < t.entries.len() ==> wf_entry(#[trigger] t.entries[i]))
}

/// Every map nested anywhere in the document declares a hashable key kind.
pub open spec fn tree_maps_ok(t: TreeV) -> bool {
    forall|i: int| 0 <= i < t.entries.len() ==> list_maps_ok(#[trigger] t.entries[i].values)
}

/// One dependency name: 16-bit length, then that many UTF-8 bytes.
pub open spec fn dec_dep(s: Seq<u8>, pos: int) -> Parsed<Seq<u8>> {
    match rd_u16(s, pos) {
        Parsed::Found(len, p1) => match rd_bytes(s, p1, len as int) {
            Parsed::Found(bytes, end) => if valid_utf8(bytes) {
                Parsed::Found(bytes, end)
            } else {
                Parsed::Fail(BinError::InvalidUtf8)
            },
            Parsed::Fail(e) => Parsed::Fail(e),
        },
        Parsed::Fail(e) => Parsed::Fail(e),
    }
}

/// `n` dependency names, back to back.
pub open spec fn dec_dep_list(s: Seq<u8>, pos: int, n: int) -> Parsed<Seq<Seq<u8>>>
    decreases n,
{
    if n <= 0 {
        Parsed::Found(Seq::empty(), pos)
    } else {
        match dec_dep(s, pos) {
            Parsed::Found(d, p1) => match dec_dep_list(s, p1, n - 1) {
                Parsed::Found(rest, end) => Parsed::Found(seq![d] + rest, end),
                Parsed::Fail(e) => Parsed::Fail(e),
            },
            Parsed::Fail(e) => Parsed::Fail(e),
        }
    }
}

/// One entry body for a class read earlier: advisory size, path, 16-bit
/// value count, then that many named values.
pub open spec fn dec_entry(s: Seq<u8>, pos: int, class: u32) -> Parsed<EntryV> {
    match rd_u32(s, pos) {
        Parsed::Found(_size, p1) => match rd_u32(s, p1) {
            Parsed::Found(path, p2) => match rd_u16(s, p2) {
                Parsed::Found(count, p3) => match dec_named_list(s, p3, count as int) {
                    Parsed::Found(values, end) => Parsed::Found(EntryV { class, path, values }, end),
                    Parsed::Fail(e) => Parsed::Fail(e),
                },
                Parsed::Fail(e) => Parsed::Fail(e),
            },
            Parsed::Fail(e) => Parsed::Fail(e),
        },
        Parsed::Fail(e) => Parsed::Fail(e),
    }
}

/// The entry bodies from position `i` of the class list on, each matched to
/// its class by position.
pub open spec fn dec_entry_list(s: Seq<u8>, pos: int, classes: Seq<u32>, i: int) -> Parsed<
    Seq<EntryV>,
>
    decreases classes.len() - i,
{
    if i >= classes.len() {
        Parsed::Found(Seq::empty(), pos)
    } else {
        match dec_entry(s, pos, classes[i]) {
            Parsed::Found(e, p1) => match dec_entry_list(s, p1, classes, i + 1) {
                Parsed::Found(rest, end) => Parsed::Found(seq![e] + rest, end),
                Parsed::Fail(err) => Parsed::Fail(err),
            },
            Parsed::Fail(err) => Parsed::Fail(err),
        }
    }
}

/// A whole document: the magic literal (any other opening aborts with
/// `FormatError`), a version that must be 1 or 2, the dependency list of
/// version 2, the entry count, the contiguous class identifiers, then the
/// entry bodies.
pub open spec fn dec_tree(s: Seq<u8>) -> Parsed<TreeV> {
    match rd_bytes(s, 0, 4) {
        Parsed::Found(m, p0) => if m != magic_bytes() {
            Parsed::Fail(BinError::FormatError)
        } else {
            match rd_u32(s, p0) {
                Parsed::Found(version, p1) => if version != 1 && version != 2 {
                    Parsed::Fail(BinError::FormatError)
                } else {
                    let deps: Parsed<Seq<Seq<u8>>> = if version >= 2 {
                        match rd_u32(s, p1) {
                            Parsed::Found(dep_count, p2) => dec_dep_list(s, p2, dep_count as int),
                            Parsed::Fail(e) => Parsed::Fail(e),
                        }
                    } else {
                        Parsed::Found(Seq::empty(), p1)
                    };
                    match deps {
                        Parsed::Found(dependencies, p3) => match rd_u32(s, p3) {
                            Parsed::Found(entry_count, p4) => match dec_u32_list(
                                s,
                                p4,
                                entry_count as int,
                            ) {
                                Parsed::Found(classes, p5) => match dec_entry_list(
                                    s,
                                    p5,
                                    classes,
                                    0,
                                ) {
                                    Parsed::Found(entries, end) => Parsed::Found(
                                        TreeV { dependencies, entries },
                                        end,
                                    ),
                                    Parsed::Fail(e) => Parsed::Fail(e),
                                },
                                Parsed::Fail(e) => Parsed::Fail(e),
                            },
                            Parsed::Fail(e) => Parsed::Fail(e),
                        },
                        Parsed::Fail(e) => Parsed::Fail(e),
                    }
                },
                Parsed::Fail(e) => Parsed::Fail(e),
            }
        },
        Parsed::Fail(e) => Parsed::Fail(e),
    }
}


/// Appending one dependency to the list appends its bytes.
pub proof fn lemma_enc_dep_list_push(s: Seq<Seq<u8>>, d: Seq<u8>)
    ensures
        enc_dep_list(s.push(d)) == enc_dep_list(s) + enc_dep(d),
    decreases s.len(),
{
    if s.len() == 0 {
        assert(s.push(d).subrange(1, 1) =~= Seq::<Seq<u8>>::empty());
        assert(enc_dep_list(s.push(d).subrange(1, 1)) == Seq::<u8>::empty());
        assert(s.push(d)[0] == d);
        assert(enc_dep_list(s.push(d)) =~= enc_dep_list(s) + enc_dep(d));
    } else {
        let t = s.subrange(1, s.len() as int);
        assert(s.push(d).subrange(1, s.len() as int + 1) =~= t.push(d));
        lemma_enc_dep_list_push(t, d);
        assert(enc_dep(s[0]) + (enc_dep_list(t) + enc_dep(d)) =~= (enc_dep(s[0]) + enc_dep_list(t))
            + enc_dep(d));
    }
}

/// One step of the dependency list's bytes.
pub proof fn lemma_enc_dep_list_take_succ(s: Seq<Seq<u8>>, i: int)
    requires
        0 <= i < s.len(),
    ensures
        enc_dep_list(s.take(i + 1)) == enc_dep_list(s.take(i)) + enc_dep(s[i]),
{
    assert(s.take(i + 1) =~= s.take(i).push(s[i]));
    lemma_enc_dep_list_push(s.take(i), s[i]);
}

/// Appending one entry to the list appends its body bytes.
pub proof fn lemma_enc_entry_list_push(s: Seq<EntryV>, e: EntryV)
    ensures
        enc_entry_list(s.push(e)) == enc_entry_list(s) + enc_entry(e),
    decreases s.len(),
{
    if s.len() == 0 {
        assert(s.push(e).subrange(1, 1) =~= Seq::<EntryV>::empty());
        assert(enc_entry_list(s.push(e).subrange(1, 1)) == Seq::<u8>::empty());
        assert(s.push(e)[0] == e);
        assert(enc_entry_list(s.push(e)) =~= enc_entry_list(s) + enc_entry(e));
    } else {
        let t = s.subrange(1, s.len() as int);
        assert(s.push(e).subrange(1, s.len() as int + 1) =~= t.push(e));
        lemma_enc_entry_list_push(t, e);
        assert(enc_entry(s[0]) + (enc_entry_list(t) + enc_entry(e)) =~= (enc_entry(s[0])
            + enc_entry_list(t)) + enc_entry(e));
    }
}

/// One step of the entry list's bytes.
pub proof fn lemma_enc_entry_list_take_succ(s: Seq<EntryV>, i: int)
    requires
        0 <= i < s.len(),
    ensures
        enc_entry_list(s.take(i + 1)) == enc_entry_list(s.take(i)) + enc_entry(s[i]),
{
    assert(s.take(i + 1) =~= s.take(i).push(s[i]));
    lemma_enc_entry_list_push(s.take(i), s[i]);
}

impl BinEntry {
    /// Builds an entry from its class, its path and its named values.
    pub fn new(class: u32, path: u32, values: Vec<BinValue>) -> (r: BinEntry)
        ensures
            r@ == (EntryV { class, path, values: view_nodes(values) }),
    {
        BinEntry { class, path, values }
    }

    /// The class identifier of this entry's schema.
    pub fn class(&self) -> (r: u32)
        ensures
            r == self@.class,
    {
        self.class
    }

    /// The path identifier keying this entry.
    pub fn path(&self) -> (r: u32)
        ensures
            r == self@.path,
    {
        self.path
    }

    /// The ordered named values of this entry.
    pub fn values(&self) -> (r: &Vec<BinValue>)
        ensures
            view_nodes(*r) == self@.values,
    {
        &self.values
    }

    /// The declared byte size of this entry's body: what its 32-bit size
    /// prefix carries on the wire.
    #[verifier::loop_isolation(false)]
    pub fn size(&self) -> (r: u64)
        requires
            wf_entry(self@),
        ensures
            r == entry_content_len(self@),
    {
        let ghost nodes = view_nodes(self.values);
        let mut size: u64 = 6;
        let n = self.values.len();
        let mut i: usize = 0;
        proof {
            assert(nodes.take(0) =~= Seq::<Node>::empty());
        }
        while i < n
            invariant
                0 <= i <= n,
                n == self.values.len(),
                size == 6 + enc_named_list(nodes.take(i as int)).len(),
                size <= 4 + size_limit(),
            decreases n - i,
        {
            proof {
                lemma_enc_named_list_take_succ(nodes, i as int);
                lemma_enc_named_list_take_le(nodes, i as int + 1);
                assert(crate::wire::wf_node(nodes[i as int]));
            }
            let add = self.values[i].size(false);
            size = size + add;
            i = i + 1;
        }
        proof {
            assert(nodes.take(n as int) =~= nodes);
        }
        size
    }

    /// Reads one entry body for a class read earlier, as `dec_entry`
    /// describes.
    #[verifier::loop_isolation(false)]
    pub fn read(class: u32, data: &[u8], pos: usize) -> (r: Result<(BinEntry, usize), BinError>)
        requires
            pos <= data@.len(),
        ensures
            (match r {
                Ok((e, end)) => dec_entry(data@, pos as int, class) == Parsed::Found(
                    e@,
                    end as int,
                ) && pos <= end <= data@.len(),
                Err(err) => dec_entry(data@, pos as int, class) == Parsed::<EntryV>::Fail(err),
            }),
    {
        let (_size, p1) = match get_u32(data, pos) {
            Ok(x) => x,
            Err(e) => {
                return Err(e);
            },
        };
        let (path, p2) = match get_u32(data, p1) {
            Ok(x) => x,
            Err(e) => {
                return Err(e);
            },
        };
        let (count, p3) = match get_u16(data, p2) {
            Ok(x) => x,
            Err(e) => {
                return Err(e);
            },
        };
        let mut values: Vec<BinValue> = Vec::new();
        let mut cur: usize = p3;
        let mut i: u16 = 0;
        proof {
            assert(view_nodes(values) =~= Seq::<Node>::empty());
            lemma_prepend_empty(dec_named_list(data@, p3 as int, count as int));
        }
        while i < count
            invariant
                0 <= i <= count,
                p3 <= cur <= data@.len(),
                dec_named_list(data@, p3 as int, count as int) == prepend_parsed(
                    view_nodes(values),
                    dec_named_list(data@, cur as int, (count - i) as int),
                ),
            decreases count - i,
        {
            match BinValue::read(data, cur) {
                Ok((v, p4)) => {
                    proof {
                        let rest = dec_named_list(data@, p4 as int, (count - i) as int - 1);
                        assert(dec_named_list(data@, cur as int, (count - i) as int)
                            == prepend_parsed(seq![v@], rest)) by {
                            match rest {
                                Parsed::Found(_, _) => {},
                                Parsed::Fail(_) => {},
                            }
                        }
                        lemma_prepend_assoc(view_nodes(values), seq![v@], rest);
                    }
                    let ghost pre = values;
                    values.push(v);
                    proof {
                        lemma_view_nodes_push(pre, values, v);
                        assert(view_nodes(pre) + seq![view_value(v)] =~= view_nodes(pre).push(
                            view_value(v),
                        ));
                    }
                    cur = p4;
                    i = i + 1;
                },
                Err(e) => {
                    proof {
                        assert(dec_named_list(data@, cur as int, (count - i) as int)
                            == Parsed::<Seq<Node>>::Fail(e));
                    }
                    return Err(e);
                },
            }
        }
        proof {
            assert(dec_named_list(data@, cur as int, 0) == Parsed::<Seq<Node>>::Found(
                Seq::empty(),
                cur as int,
            ));
            assert(view_nodes(values) + Seq::<Node>::empty() =~= view_nodes(values));
        }
        Ok((BinEntry { class, path, values }, cur))
    }

    /// Writes this entry's body: its exact size, its path, its value count,
    /// then every named value in order.
    #[verifier::loop_isolation(false)]
    pub fn write(&self, out: &mut Vec<u8>) -> (r: Result<(), BinError>)
        requires
            wf_entry(self@),
        ensures
            (match r {
                Ok(()) => final(out)@ == old(out)@ + enc_entry(self@) && list_maps_ok(
                    self@.values,
                ),
                Err(e) => e == BinError::UnsupportedMapKey && !list_maps_ok(self@.values),
            }),
    {
        proof {
            vstd::bytes::lemma_auto_spec_u16_to_from_le_bytes();
            vstd::bytes::lemma_auto_spec_u32_to_from_le_bytes();
        }
        let sz = self.size();
        put_u32(out, sz as u32);
        put_u32(out, self.path);
        put_u16(out, self.values.len() as u16);
        let ghost base = out@;
        let ghost nodes = view_nodes(self.values);
        let n = self.values.len();
        let mut i: usize = 0;
        proof {
            assert(nodes.take(0) =~= Seq::<Node>::empty());
            assert(out@ =~= base + enc_named_list(nodes.take(0)));
        }
        while i < n
            invariant
                0 <= i <= n,
                n == self.values.len(),
                out@ == base + enc_named_list(nodes.take(i as int)),
                forall|j: int| 0 <= j < i ==> crate::wire::node_maps_ok(#[trigger] nodes[j]),
            decreases n - i,
        {
            proof {
                assert(crate::wire::wf_node(nodes[i as int]));
            }
            match self.values[i].write(out) {
                Ok(()) => {
                    proof {
                        lemma_enc_named_list_take_succ(nodes, i as int);
                        assert(base + enc_named_list(nodes.take(i as int)) + crate::wire::enc_named(
                            nodes[i as int],
                        ) =~= base + enc_named_list(nodes.take(i as int + 1)));
                    }
                    i = i + 1;
                },
                Err(e) => {
                    proof {
                        assert(!crate::wire::node_maps_ok(nodes[i as int]));
                    }
                    return Err(e);
                },
            }
        }
        proof {
            assert(nodes.take(n as int) =~= nodes);
            assert(base + enc_named_list(nodes) =~= old(out)@ + enc_entry(self@));
        }
        Ok(())
    }
}

impl BinTree {
    /// Builds a document from its dependency names and entries.
    pub fn new(dependencies: Vec<Vec<u8>>, entries: Vec<BinEntry>) -> (r: BinTree)
        ensures
            r@ == (TreeV { dependencies: view_deps(dependencies), entries: view_entries(entries) }),
    {
        BinTree { dependencies, entries }
    }

    /// The ordered dependency names, as UTF-8 byte strings.
    pub fn dependencies(&self) -> (r: &Vec<Vec<u8>>)
        ensures
            view_deps(*r) == self@.dependencies,
    {
        &self.dependencies
    }

    /// The ordered entries.
    pub fn entries(&self) -> (r: &Vec<BinEntry>)
        ensures
            view_entries(*r) == self@.entries,
    {
        &self.entries
    }
}

impl BinReader {
    /// Decodes a whole document from the head of a byte stream, as
    /// `dec_tree` describes; bytes past the last entry are ignored, as the
    /// format allows.
    #[verifier::loop_isolation(false)]
    #[verifier::rlimit(100)]
    #[verifier::spinoff_prover]
    pub fn read_tree(data: &[u8]) -> (r: Result<BinTree, BinError>)
        ensures
            (match r {
                Ok(t) => dec_tree(data@) matches Parsed::Found(tv, _) && tv == t@,
                Err(e) => dec_tree(data@) == Parsed::<TreeV>::Fail(e),
            }),
    {
        let (m, p0) = match get_bytes(data, 0, 4) {
            Ok(x) => x,
            Err(e) => {
                return Err(e);
            },
        };
        if !(m.len() == 4 && m[0] == 80 && m[1] == 82 && m[2] == 79 && m[3] == 80) {
            proof {
                assert(m@ != magic_bytes());
            }
            return Err(BinError::FormatError);
        }
        proof {
            assert(m@ =~= magic_bytes());
        }
        let (version, p1) = match get_u32(data, p0) {
            Ok(x) => x,
            Err(e) => {
                return Err(e);
            },
        };
        if version != 1 && version != 2 {
            return Err(BinError::FormatError);
        }
        let mut dependencies: Vec<Vec<u8>> = Vec::new();
        let mut p3: usize = p1;
        if version >= 2 {
            let (dep_count, p2) = match get_u32(data, p1) {
                Ok(x) => x,
                Err(e) => {
                    return Err(e);
                },
            };
            let mut cur: usize = p2;
            let mut i: u32 = 0;
            proof {
                assert(view_deps(dependencies) =~= Seq::<Seq<u8>>::empty());
                lemma_prepend_empty(dec_dep_list(data@, p2 as int, dep_count as int));
            }
            while i < dep_count
                invariant
                    0 <= i <= dep_count,
                    p2 <= cur <= data@.len(),
                    dec_dep_list(data@, p2 as int, dep_count as int) == prepend_parsed(
                        view_deps(dependencies),
                        dec_dep_list(data@, cur as int, (dep_count - i) as int),
                    ),
                decreases dep_count - i,
            {
                let (len, q1) = match get_u16(data, cur) {
                    Ok(x) => x,
                    Err(e) => {
                        return Err(e);
                    },
                };
                let (bytes, q2) = match get_bytes(data, q1, len as usize) {
                    Ok(x) => x,
                    Err(e) => {
                        return Err(e);
                    },
                };
                if !is_valid_utf8(&bytes) {
                    return Err(BinError::InvalidUtf8);
                }
                proof {
                    assert(dec_dep(data@, cur as int) == Parsed::<Seq<u8>>::Found(
                        bytes@,
                        q2 as int,
                    ));
                    let rest = dec_dep_list(data@, q2 as int, (dep_count - i) as int - 1);
                    assert(dec_dep_list(data@, cur as int, (dep_count - i) as int)
                        == prepend_parsed(seq![bytes@], rest)) by {
                        match rest {
                            Parsed::Found(_, _) => {},
                            Parsed::Fail(_) => {},
                        }
                    }
                    lemma_prepend_assoc(view_deps(dependencies), seq![bytes@], rest);
                }
                let ghost pre = dependencies;
                dependencies.push(bytes);
                proof {
                    assert(view_deps(dependencies) =~= view_deps(pre) + seq![
                        dependencies[pre.len() as int]@,
                    ]);
                }
                cur = q2;
                i = i + 1;
            }
            proof {
                assert(dec_dep_list(data@, cur as int, 0) == Parsed::<Seq<Seq<u8>>>::Found(
                    Seq::empty(),
                    cur as int,
                ));
                assert(view_deps(dependencies) + Seq::<Seq<u8>>::empty() =~= view_deps(
                    dependencies,
                ));
            }
            p3 = cur;
        }
        let (entry_count, p4) = match get_u32(data, p3) {
            Ok(x) => x,
            Err(e) => {
                return Err(e);
            },
        };
        let (classes, p5) = match get_u32_list(data, p4, entry_count as usize) {
            Ok(x) => x,
            Err(e) => {
                return Err(e);
            },
        };
        let mut entries: Vec<BinEntry> = Vec::new();
        let mut cur: usize = p5;
        let mut i: usize = 0;
        let n = classes.len();
        proof {
            assert(view_entries(entries) =~= Seq::<EntryV>::empty());
            lemma_prepend_entries_empty(dec_entry_list(data@, p5 as int, classes@, 0));
        }
        while i < n
            invariant
                0 <= i <= n,
                n == classes.len(),
                p5 <= cur <= data@.len(),
                i == view_entries(entries).len(),
                dec_entry_list(data@, p5 as int, classes@, 0) == prepend_entries(
                    view_entries(entries),
                    dec_entry_list(data@, cur as int, classes@, i as int),
                ),
            decreases n - i,
        {
            match BinEntry::read(classes[i], data, cur) {
                Ok((e, p6)) => {
                    proof {
                        let rest = dec_entry_list(data@, p6 as int, classes@, i as int + 1);
                        assert(dec_entry_list(data@, cur as int, classes@, i as int)
                            == prepend_entries(seq![e@], rest)) by {
                            match rest {
                                Parsed::Found(_, _) => {},
                                Parsed::Fail(_) => {},
                            }
                        }
                        lemma_prepend_entries_assoc(view_entries(entries), seq![e@], rest);
                    }
                    let ghost pre = entries;
                    entries.push(e);
                    proof {
                        assert(view_entries(entries) =~= view_entries(pre) + seq![e@]);
                    }
                    cur = p6;
                    i = i + 1;
                },
                Err(err) => {
                    proof {
                        assert(dec_entry_list(data@, cur as int, classes@, i as int)
                            == Parsed::<Seq<EntryV>>::Fail(err));
                    }
                    return Err(err);
                },
            }
        }
        proof {
            assert(dec_entry_list(data@, cur as int, classes@, n as int) == Parsed::<
                Seq<EntryV>,
            >::Found(Seq::empty(), cur as int));
            assert(view_entries(entries) + Seq::<EntryV>::empty() =~= view_entries(entries));
        }
        Ok(BinTree { dependencies, entries })
    }

    /// Decodes a whole document from an owned buffer.
    pub fn read_tree_buffer(buffer: Vec<u8>) -> (r: Result<BinTree, BinError>)
        ensures
            (match r {
                Ok(t) => dec_tree(buffer@) matches Parsed::Found(tv, _) && tv == t@,
                Err(e) => dec_tree(buffer@) == Parsed::<TreeV>::Fail(e),
            }),
    {
        BinReader::read_tree(buffer.as_slice())
    }
}

/// A parse outcome for the entry list, with `prefix` already taken off the
/// front.
pub open spec fn prepend_entries(prefix: Seq<EntryV>, p: Parsed<Seq<EntryV>>) -> Parsed<
    Seq<EntryV>,
> {
    prepend_parsed(prefix, p)
}

/// Taking an entry prefix off the front twice is taking the joined prefix
/// off once.
pub proof fn lemma_prepend_entries_assoc(a: Seq<EntryV>, b: Seq<EntryV>, p: Parsed<Seq<EntryV>>)
    ensures
        prepend_entries(a, prepend_entries(b, p)) == prepend_entries(a + b, p),
{
    lemma_prepend_assoc(a, b, p);
}

/// An empty entry prefix takes nothing off the front.
pub proof fn lemma_prepend_entries_empty(p: Parsed<Seq<EntryV>>)
    ensures
        prepend_entries(Seq::<EntryV>::empty(), p) == p,
{
    lemma_prepend_empty(p);
}

impl BinWriter {
    /// Encodes a whole document, always at version 2, as `enc_tree`
    /// describes: the result is the exact byte stream, or
    /// `UnsupportedMapKey` exactly when some nested map declares a key kind
    /// outside the hashable subset.
    #[verifier::loop_isolation(false)]
    #[verifier::rlimit(100)]
    #[verifier::spinoff_prover]
    pub fn write_tree(tree: &BinTree) -> (r: Result<Vec<u8>, BinError>)
        requires
            wf_tree(tree@),
        ensures
            (match r {
                Ok(out) => out@ == enc_tree(tree@) && tree_maps_ok(tree@),
                Err(e) => e == BinError::UnsupportedMapKey && !tree_maps_ok(tree@),
            }),
    {
        proof {
            vstd::bytes::lemma_auto_spec_u16_to_from_le_bytes();
            vstd::bytes::lemma_auto_spec_u32_to_from_le_bytes();
        }
        let mut out: Vec<u8> = Vec::new();
        put_magic(&mut out);
        put_u32(&mut out, 2);
        put_u32(&mut out, tree.dependencies.len() as u32);
        let ghost deps = view_deps(tree.dependencies);
        let ghost base = out@;
        let nd = tree.dependencies.len();
        let mut i: usize = 0;
        proof {
            assert(deps.take(0) =~= Seq::<Seq<u8>>::empty());
            assert(out@ =~= base + enc_dep_list(deps.take(0)));
        }
        while i < nd
            invariant
                0 <= i <= nd,
                nd == tree.dependencies.len(),
                out@ == base + enc_dep_list(deps.take(i as int)),
            decreases nd - i,
        {
            proof {
                assert(wf_dep(deps[i as int]));
            }
            put_u16(&mut out, tree.dependencies[i].len() as u16);
            put_bytes(&mut out, &tree.dependencies[i]);
            proof {
                lemma_enc_dep_list_take_succ(deps, i as int);
                assert(base + enc_dep_list(deps.take(i as int)) + enc_dep(deps[i as int]) =~= base
                    + enc_dep_list(deps.take(i as int + 1)));
            }
            i = i + 1;
        }
        proof {
            assert(deps.take(nd as int) =~= deps);
        }
        put_u32(&mut out, tree.entries.len() as u32);
        let ghost ents = view_entries(tree.entries);
        let ghost classes = entry_classes(ents);
        let ghost base2 = out@;
        let ne = tree.entries.len();
        let mut j: usize = 0;
        proof {
            assert(classes.take(0) =~= Seq::<u32>::empty());
            assert(out@ =~= base2 + enc_u32s(classes.take(0)));
        }
        while j < ne
            invariant
                0 <= j <= ne,
                ne == tree.entries.len(),
                out@ == base2 + enc_u32s(classes.take(j as int)),
            decreases ne - j,
        {
            put_u32(&mut out, tree.entries[j].class);
            proof {
                lemma_enc_u32s_take_succ(classes, j as int);
                assert(base2 + enc_u32s(classes.take(j as int))
                    + vstd::bytes::spec_u32_to_le_bytes(classes[j as int]) =~= base2 + enc_u32s(
                    classes.take(j as int + 1),
                ));
            }
            j = j + 1;
        }
        proof {
            assert(classes.take(ne as int) =~= classes);
        }
        let ghost base3 = out@;
        let mut k: usize = 0;
        proof {
            assert(ents.take(0) =~= Seq::<EntryV>::empty());
            assert(out@ =~= base3 + enc_entry_list(ents.take(0)));
        }
        while k < ne
            invariant
                0 <= k <= ne,
                ne == tree.entries.len(),
                out@ == base3 + enc_entry_list(ents.take(k as int)),
                forall|l: int| 0 <= l < k ==> list_maps_ok(#[trigger] ents[l].values),
            decreases ne - k,
        {
            proof {
                assert(wf_entry(ents[k as int]));
            }
            match tree.entries[k].write(&mut out) {
                Ok(()) => {
                    proof {
                        lemma_enc_entry_list_take_succ(ents, k as int);
                        assert(base3 + enc_entry_list(ents.take(k as int)) + enc_entry(
                            ents[k as int],
                        ) =~= base3 + enc_entry_list(ents.take(k as int + 1)));
                    }
                    k = k + 1;
                },
                Err(e) => {
                    proof {
                        assert(!list_maps_ok(ents[k as int].values));
                    }
                    return Err(e);
                },
            }
        }
        proof {
            assert(ents.take(ne as int) =~= ents);
            assert(out@ =~= enc_tree(tree@));
        }
        Ok(out)
    }

    /// Encodes a whole document into a fresh buffer.
    pub fn write_tree_buffer(tree: &BinTree) -> (r: Result<Vec<u8>, BinError>)
        requires
            wf_tree(tree@),
        ensures
            (match r {
                Ok(out) => out@ == enc_tree(tree@) && tree_maps_ok(tree@),
                Err(e) => e == BinError::UnsupportedMapKey && !tree_maps_ok(tree@),
            }),
    {
        BinWriter::write_tree(tree)
    }
}

/// Appends the four magic bytes.
fn put_magic(out: &mut Vec<u8>)
    ensures
        final(out)@ == old(out)@ + magic_bytes(),
{
    out.push(80);
    out.push(82);
    out.push(79);
    out.push(80);
    proof {
        assert(out@ =~= old(out)@ + magic_bytes());
    }
}

} // verus!
