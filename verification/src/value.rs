//! The recursive tagged-union value node, its aggregate payloads, their
//! mathematical models, well-formedness, and the exact wire encoding stated
//! as spec functions over the models.
//!
//! Floating-point payloads (`Float`, the vectors, the matrix) are carried as
//! raw IEEE-754 little-endian bit patterns in `u32` fields: the codec never
//! interprets them, it only moves their bytes, so the bit pattern is the
//! faithful value at this layer.
use vstd::prelude::*;
use crate::tag::BinValueType;
use crate::color_rgba::ColorRGBA;

verus! {

broadcast use vstd::std_specs::vec::axiom_vec_index_decreases, vstd::seq::axiom_seq_index_decreases, vstd::seq::axiom_seq_subrange_decreases;

/// A 2-component vector payload, each component an IEEE-754 bit pattern.
#[derive(Clone, Copy, PartialEq, Eq, Structural, Debug)]
pub struct Vector2 {
    pub x: u32,
    pub y: u32,
}

/// A 3-component vector payload, each component an IEEE-754 bit pattern.
#[derive(Clone, Copy, PartialEq, Eq, Structural, Debug)]
pub struct Vector3 {
    pub x: u32,
    pub y: u32,
    pub z: u32,
}

/// A 4-component vector payload, each component an IEEE-754 bit pattern.
#[derive(Clone, Copy, PartialEq, Eq, Structural, Debug)]
pub struct Vector4 {
    pub x: u32,
    pub y: u32,
    pub z: u32,
    pub w: u32,
}

/// A 4 by 4 matrix payload: 16 IEEE-754 bit patterns, row-major as stored.
#[derive(Clone, Copy, PartialEq, Debug)]
pub struct Matrix44 {
    pub m: [u32; 16],
}

/// A value node: a 32-bit field-name hash (zero when the node stands in a
/// bare position) and a kind-specific payload.
#[derive(PartialEq, Debug)]
pub enum BinValue {
    Nil { name: u32 },
    Boolean { name: u32, value: bool },
    SByte { name: u32, value: i8 },
    Byte { name: u32, value: u8 },
    Int16 { name: u32, value: i16 },
    UInt16 { name: u32, value: u16 },
    Int32 { name: u32, value: i32 },
    UInt32 { name: u32, value: u32 },
    Int64 { name: u32, value: i64 },
    UInt64 { name: u32, value: u64 },
    Float { name: u32, value: u32 },
    Vector2 { name: u32, value: Vector2 },
    Vector3 { name: u32, value: Vector3 },
    Vector4 { name: u32, value: Vector4 },
    Matrix44 { name: u32, value: Matrix44 },
    Color { name: u32, value: ColorRGBA<u8> },
    String { name: u32, value: Vec<u8> },
    Hash { name: u32, value: u32 },
    Container { name: u32, value: BinContainer },
    Container2 { name: u32, value: BinContainer },
    Structure { name: u32, value: BinStructure },
    Embedded { name: u32, value: BinStructure },
    Link { name: u32, value: u32 },
    Optional { name: u32, value_type: BinValueType, value: Option<Box<BinValue>> },
    Dict { name: u32, value: BinMap },
    FlagsBoolean { name: u32, value: bool },
}

/// A named aggregate: a 32-bit type identifier (zero meaning "absent", with
/// no field list) and an ordered sequence of named fields.
#[derive(PartialEq, Debug)]
pub struct BinStructure {
    pub name: u32,
    pub fields: Vec<BinValue>,
}

/// A homogeneous aggregate: a declared element kind and an ordered sequence
/// of bare elements of that kind.
#[derive(PartialEq, Debug)]
pub struct BinContainer {
    pub value_type: BinValueType,
    pub values: Vec<BinValue>,
}

/// A keyed aggregate: declared key and value kinds and an association from
/// bare key nodes to bare value nodes, kept in insertion order with keys
/// distinct under the key equality of the format.
#[derive(PartialEq, Debug)]
pub struct BinMap {
    pub key_type: BinValueType,
    pub value_type: BinValueType,
    pub map: Vec<(BinValue, BinValue)>,
}

/// Mathematical model of a value node. The `Optional` payload is a sequence
/// of at most one node; the matrix is its 16 bit patterns.
#[verifier::ext_equal]
pub ghost enum Node {
    Nil { name: u32 },
    Boolean { name: u32, value: bool },
    SByte { name: u32, value: i8 },
    Byte { name: u32, value: u8 },
    Int16 { name: u32, value: i16 },
    UInt16 { name: u32, value: u16 },
    Int32 { name: u32, value: i32 },
    UInt32 { name: u32, value: u32 },
    Int64 { name: u32, value: i64 },
    UInt64 { name: u32, value: u64 },
    Float { name: u32, value: u32 },
    Vector2 { name: u32, value: Vector2 },
    Vector3 { name: u32, value: Vector3 },
    Vector4 { name: u32, value: Vector4 },
    Matrix44 { name: u32, bits: Seq<u32> },
    Color { name: u32, value: ColorRGBA<u8> },
    String { name: u32, bytes: Seq<u8> },
    Hash { name: u32, value: u32 },
    Container { name: u32, value: ContainerV },
    Container2 { name: u32, value: ContainerV },
    Structure { name: u32, value: StructV },
    Embedded { name: u32, value: StructV },
    Link { name: u32, value: u32 },
    Optional { name: u32, value_type: BinValueType, value: Seq<Node> },
    Dict { name: u32, value: MapV },
    FlagsBoolean { name: u32, value: bool },
}

/// Mathematical model of a named aggregate.
#[verifier::ext_equal]
pub ghost struct StructV {
    pub name: u32,
    pub fields: Seq<Node>,
}

/// Mathematical model of a homogeneous aggregate.
#[verifier::ext_equal]
pub ghost struct ContainerV {
    pub value_type: BinValueType,
    pub values: Seq<Node>,
}

/// Mathematical model of a keyed aggregate.
#[verifier::ext_equal]
pub ghost struct MapV {
    pub key_type: BinValueType,
    pub value_type: BinValueType,
    pub pairs: Seq<(Node, Node)>,
}

/// The model of a value node.
pub open spec fn view_value(v: BinValue) -> Node
    decreases v, 1int,
{
    match v {
        BinValue::Nil { name } => Node::Nil { name },
        BinValue::Boolean { name, value } => Node::Boolean { name, value },
        BinValue::SByte { name, value } => Node::SByte { name, value },
        BinValue::Byte { name, value } => Node::Byte { name, value },
        BinValue::Int16 { name, value } => Node::Int16 { name, value },
        BinValue::UInt16 { name, value } => Node::UInt16 { name, value },
        BinValue::Int32 { name, value } => Node::Int32 { name, value },
        BinValue::UInt32 { name, value } => Node::UInt32 { name, value },
        BinValue::Int64 { name, value } => Node::Int64 { name, value },
        BinValue::UInt64 { name, value } => Node::UInt64 { name, value },
        BinValue::Float { name, value } => Node::Float { name, value },
        BinValue::Vector2 { name, value } => Node::Vector2 { name, value },
        BinValue::Vector3 { name, value } => Node::Vector3 { name, value },
        BinValue::Vector4 { name, value } => Node::Vector4 { name, value },
        BinValue::Matrix44 { name, value } => Node::Matrix44 { name, bits: value.m@ },
        BinValue::Color { name, value } => Node::Color { name, value },
        BinValue::String { name, value } => Node::String { name, bytes: value@ },
        BinValue::Hash { name, value } => Node::Hash { name, value },
        BinValue::Container { name, value } => Node::Container { name, value: view_container(value) },
        BinValue::Container2 { name, value } => Node::Container2 {
            name,
            value: view_container(value),
        },
        BinValue::Structure { name, value } => Node::Structure { name, value: view_struct(value) },
        BinValue::Embedded { name, value } => Node::Embedded { name, value: view_struct(value) },
        BinValue::Link { name, value } => Node::Link { name, value },
        BinValue::Optional { name, value_type, value } => Node::Optional {
            name,
            value_type,
            value: match value {
                Option::Some(inner) => seq![view_value(*inner)],
                Option::None => Seq::empty(),
            },
        },
        BinValue::Dict { name, value } => Node::Dict { name, value: view_map(value) },
        BinValue::FlagsBoolean { name, value } => Node::FlagsBoolean { name, value },
    }
}

/// The models of a vector of value nodes, in order.
pub open spec fn view_nodes(v: Vec<BinValue>) -> Seq<Node>
    decreases v, 0int,
{
    Seq::new(
        v.len() as nat,
        |i: int|
            if 0 <= i < v.len() {
                view_value(v[i])
            } else {
                Node::Nil { name: 0 }
            },
    )
}

/// The models of a vector of key-value pairs, in order.
pub open spec fn view_pairs(v: Vec<(BinValue, BinValue)>) -> Seq<(Node, Node)>
    decreases v, 0int,
{
    Seq::new(
        v.len() as nat,
        |i: int|
            if 0 <= i < v.len() {
                (view_value(v[i].0), view_value(v[i].1))
            } else {
                (Node::Nil { name: 0 }, Node::Nil { name: 0 })
            },
    )
}

/// The model of a named aggregate.
pub open spec fn view_struct(s: BinStructure) -> StructV
    decreases s, 1int,
{
    StructV { name: s.name, fields: view_nodes(s.fields) }
}

/// The model of a homogeneous aggregate.
pub open spec fn view_container(c: BinContainer) -> ContainerV
    decreases c, 1int,
{
    ContainerV { value_type: c.value_type, values: view_nodes(c.values) }
}

/// The model of a keyed aggregate.
pub open spec fn view_map(m: BinMap) -> MapV
    decreases m, 1int,
{
    MapV { key_type: m.key_type, value_type: m.value_type, pairs: view_pairs(m.map) }
}

impl View for BinValue {
    type V = Node;

    open spec fn view(&self) -> Node {
        view_value(*self)
    }
}

impl View for BinStructure {
    type V = StructV;

    open spec fn view(&self) -> StructV {
        view_struct(*self)
    }
}

impl View for BinContainer {
    type V = ContainerV;

    open spec fn view(&self) -> ContainerV {
        view_container(*self)
    }
}

impl View for BinMap {
    type V = MapV;

    open spec fn view(&self) -> MapV {
        view_map(*self)
    }
}

/// The kind a model node declares through its variant.
pub open spec fn node_kind(n: Node) -> BinValueType {
    match n {
        Node::Nil { .. } => BinValueType::Nil,
        Node::Boolean { .. } => BinValueType::Boolean,
        Node::SByte { .. } => BinValueType::SByte,
        Node::Byte { .. } => BinValueType::Byte,
        Node::Int16 { .. } => BinValueType::Int16,
        Node::UInt16 { .. } => BinValueType::UInt16,
        Node::Int32 { .. } => BinValueType::Int32,
        Node::UInt32 { .. } => BinValueType::UInt32,
        Node::Int64 { .. } => BinValueType::Int64,
        Node::UInt64 { .. } => BinValueType::UInt64,
        Node::Float { .. } => BinValueType::Float,
        Node::Vector2 { .. } => BinValueType::Vector2,
        Node::Vector3 { .. } => BinValueType::Vector3,
        Node::Vector4 { .. } => BinValueType::Vector4,
        Node::Matrix44 { .. } => BinValueType::Matrix44,
        Node::Color { .. } => BinValueType::Color,
        Node::String { .. } => BinValueType::String,
        Node::Hash { .. } => BinValueType::Hash,
        Node::Container { .. } => BinValueType::Container,
        Node::Container2 { .. } => BinValueType::Container2,
        Node::Structure { .. } => BinValueType::Structure,
        Node::Embedded { .. } => BinValueType::Embedded,
        Node::Link { .. } => BinValueType::Link,
        Node::Optional { .. } => BinValueType::Optional,
        Node::Dict { .. } => BinValueType::Dict,
        Node::FlagsBoolean { .. } => BinValueType::FlagsBoolean,
    }
}

/// The field-name hash a model node carries.
pub open spec fn node_name(n: Node) -> u32 {
    match n {
        Node::Nil { name } => name,
        Node::Boolean { name, .. } => name,
        Node::SByte { name, .. } => name,
        Node::Byte { name, .. } => name,
        Node::Int16 { name, .. } => name,
        Node::UInt16 { name, .. } => name,
        Node::Int32 { name, .. } => name,
        Node::UInt32 { name, .. } => name,
        Node::Int64 { name, .. } => name,
        Node::UInt64 { name, .. } => name,
        Node::Float { name, .. } => name,
        Node::Vector2 { name, .. } => name,
        Node::Vector3 { name, .. } => name,
        Node::Vector4 { name, .. } => name,
        Node::Matrix44 { name, .. } => name,
        Node::Color { name, .. } => name,
        Node::String { name, .. } => name,
        Node::Hash { name, .. } => name,
        Node::Container { name, .. } => name,
        Node::Container2 { name, .. } => name,
        Node::Structure { name, .. } => name,
        Node::Embedded { name, .. } => name,
        Node::Link { name, .. } => name,
        Node::Optional { name, .. } => name,
        Node::Dict { name, .. } => name,
        Node::FlagsBoolean { name, .. } => name,
    }
}

/// The kinds whose values can stand as map keys: the numeric, boolean,
/// string and hash kinds.
pub open spec fn is_hashable_kind(k: BinValueType) -> bool {
    match k {
        BinValueType::Boolean => true,
        BinValueType::SByte => true,
        BinValueType::Byte => true,
        BinValueType::Int16 => true,
        BinValueType::UInt16 => true,
        BinValueType::Int32 => true,
        BinValueType::UInt32 => true,
        BinValueType::Int64 => true,
        BinValueType::UInt64 => true,
        BinValueType::String => true,
        BinValueType::Hash => true,
        _ => false,
    }
}

impl BinValueType {
    /// Whether values of this kind can stand as map keys.
    pub fn is_hashable(self) -> (r: bool)
        ensures
            r == is_hashable_kind(self),
    {
        match self {
            BinValueType::Boolean => true,
            BinValueType::SByte => true,
            BinValueType::Byte => true,
            BinValueType::Int16 => true,
            BinValueType::UInt16 => true,
            BinValueType::Int32 => true,
            BinValueType::UInt32 => true,
            BinValueType::Int64 => true,
            BinValueType::UInt64 => true,
            BinValueType::String => true,
            BinValueType::Hash => true,
            _ => false,
        }
    }
}

/// ASCII lowercase of one byte.
pub open spec fn lc_byte(b: u8) -> u8 {
    if 65 <= b <= 90 {
        (b + 32) as u8
    } else {
        b
    }
}

/// ASCII lowercase of a byte sequence.
pub open spec fn lc_bytes(s: Seq<u8>) -> Seq<u8> {
    s.map_values(|b: u8| lc_byte(b))
}

/// Key equality of the format: values of the same hashable kind compare by
/// name and payload, string payloads case-insensitively; values of any other
/// kind never compare equal.
pub open spec fn key_eq(a: Node, b: Node) -> bool {
    match (a, b) {
        (Node::Boolean { name: n1, value: v1 }, Node::Boolean { name: n2, value: v2 }) => n1 == n2
            && v1 == v2,
        (Node::SByte { name: n1, value: v1 }, Node::SByte { name: n2, value: v2 }) => n1 == n2 && v1
            == v2,
        (Node::Byte { name: n1, value: v1 }, Node::Byte { name: n2, value: v2 }) => n1 == n2 && v1
            == v2,
        (Node::Int16 { name: n1, value: v1 }, Node::Int16 { name: n2, value: v2 }) => n1 == n2 && v1
            == v2,
        (Node::UInt16 { name: n1, value: v1 }, Node::UInt16 { name: n2, value: v2 }) => n1 == n2
            && v1 == v2,
        (Node::Int32 { name: n1, value: v1 }, Node::Int32 { name: n2, value: v2 }) => n1 == n2 && v1
            == v2,
        (Node::UInt32 { name: n1, value: v1 }, Node::UInt32 { name: n2, value: v2 }) => n1 == n2
            && v1 == v2,
        (Node::Int64 { name: n1, value: v1 }, Node::Int64 { name: n2, value: v2 }) => n1 == n2 && v1
            == v2,
        (Node::UInt64 { name: n1, value: v1 }, Node::UInt64 { name: n2, value: v2 }) => n1 == n2
            && v1 == v2,
        (Node::String { name: n1, bytes: b1 }, Node::String { name: n2, bytes: b2 }) => n1 == n2
            && lc_bytes(b1) == lc_bytes(b2),
        (Node::Hash { name: n1, value: v1 }, Node::Hash { name: n2, value: v2 }) => n1 == n2 && v1
            == v2,
        _ => false,
    }
}

/// Inserting a pair into an association: when some stored key equals the new
/// key, that entry keeps its stored key and takes the new value; otherwise
/// the pair is appended.
pub open spec fn map_insert(pairs: Seq<(Node, Node)>, k: Node, v: Node) -> Seq<(Node, Node)>
    decreases pairs.len(),
{
    if pairs.len() == 0 {
        seq![(k, v)]
    } else if key_eq(pairs[0].0, k) {
        seq![(pairs[0].0, v)] + pairs.subrange(1, pairs.len() as int)
    } else {
        seq![pairs[0]] + map_insert(pairs.subrange(1, pairs.len() as int), k, v)
    }
}

/// The association built by inserting the pairs of a stream, in order, into
/// an empty association.
pub open spec fn build_map(pairs: Seq<(Node, Node)>) -> Seq<(Node, Node)>
    decreases pairs.len(),
{
    if pairs.len() == 0 {
        Seq::empty()
    } else {
        map_insert(build_map(pairs.drop_last()), pairs.last().0, pairs.last().1)
    }
}

/// Pushing onto a node vector pushes the node's model onto its model.
pub proof fn lemma_view_nodes_push(pre: Vec<BinValue>, post: Vec<BinValue>, v: BinValue)
    requires
        post@ == pre@.push(v),
    ensures
        view_nodes(post) == view_nodes(pre).push(view_value(v)),
{
    assert(view_nodes(post) =~= view_nodes(pre).push(view_value(v)));
}

/// Pushing onto a pair vector pushes the pair of models onto its model.
pub proof fn lemma_view_pairs_push(
    pre: Vec<(BinValue, BinValue)>,
    post: Vec<(BinValue, BinValue)>,
    k: BinValue,
    v: BinValue,
)
    requires
        post@ == pre@.push((k, v)),
    ensures
        view_pairs(post) == view_pairs(pre).push((view_value(k), view_value(v))),
{
    assert(view_pairs(post) =~= view_pairs(pre).push((view_value(k), view_value(v))));
}

/// No two stored keys compare equal under the key equality of the format.
pub open spec fn distinct_keys(pairs: Seq<(Node, Node)>) -> bool {
    forall|i: int, j: int|
        0 <= i < j < pairs.len() ==> !key_eq(#[trigger] pairs[i].0, #[trigger] pairs[j].0)
}


impl BinStructure {
    /// Builds a named aggregate from its name and its fields.
    pub fn new(name: u32, fields: Vec<BinValue>) -> (r: BinStructure)
        ensures
            r@ == (StructV { name, fields: view_nodes(fields) }),
    {
        BinStructure { name, fields }
    }
}

impl BinContainer {
    /// Builds a homogeneous aggregate from its element kind and elements.
    pub fn new(value_type: BinValueType, values: Vec<BinValue>) -> (r: BinContainer)
        ensures
            r@ == (ContainerV { value_type, values: view_nodes(values) }),
    {
        BinContainer { value_type, values }
    }
}

impl BinMap {
    /// Builds an empty keyed aggregate with declared key and value kinds.
    pub fn new(key_type: BinValueType, value_type: BinValueType) -> (r: BinMap)
        ensures
            r@ == (MapV { key_type, value_type, pairs: Seq::empty() }),
    {
        let map: Vec<(BinValue, BinValue)> = Vec::new();
        proof {
            assert(view_pairs(map) =~= Seq::<(Node, Node)>::empty());
        }
        BinMap { key_type, value_type, map }
    }

    /// The stored key-value pairs, in insertion order.
    pub fn entries(&self) -> (r: &Vec<(BinValue, BinValue)>)
        ensures
            view_pairs(*r) == self@.pairs,
    {
        &self.map
    }

    /// Inserts a pair: a stored key equal to the new key under the key
    /// equality of the format keeps its place and its spelling and takes
    /// the new value; otherwise the pair is appended.
    pub fn insert(&mut self, k: BinValue, v: BinValue)
        ensures
            final(self)@ == (MapV {
                key_type: old(self)@.key_type,
                value_type: old(self)@.value_type,
                pairs: map_insert(old(self)@.pairs, view_value(k), view_value(v)),
            }),
    {
        crate::keys::insert_pair(&mut self.map, k, v);
    }
}

} // verus!
