//! Behavioral tests for the property-tree codec: tag packing, sizes,
//! decoding, encoding, and round trips.
use propbag::tag::{BinError, BinValueType};
use propbag::value::{BinContainer, BinMap, BinStructure, BinValue, Matrix44, Vector2, Vector3, Vector4};
use propbag::tree::{BinEntry, BinReader, BinTree, BinWriter};

fn all_kinds() -> Vec<BinValueType> {
    vec![
        BinValueType::Nil,
        BinValueType::Boolean,
        BinValueType::SByte,
        BinValueType::Byte,
        BinValueType::Int16,
        BinValueType::UInt16,
        BinValueType::Int32,
        BinValueType::UInt32,
        BinValueType::Int64,
        BinValueType::UInt64,
        BinValueType::Float,
        BinValueType::Vector2,
        BinValueType::Vector3,
        BinValueType::Vector4,
        BinValueType::Matrix44,
        BinValueType::Color,
        BinValueType::String,
        BinValueType::Hash,
        BinValueType::Container,
        BinValueType::Container2,
        BinValueType::Structure,
        BinValueType::Embedded,
        BinValueType::Link,
        BinValueType::Optional,
        BinValueType::Dict,
        BinValueType::FlagsBoolean,
    ]
}

#[test]
fn test_tag_round_trip() {
    let kinds = all_kinds();
    assert_eq!(kinds.len(), 26);
    for k in kinds {
        assert_eq!(BinValueType::unpack(k.pack()), Ok(k));
    }
    // An out-of-range byte under the packing rule is rejected.
    assert_eq!(BinValueType::unpack(200), Err(BinError::InvalidTag));
    assert_eq!(BinValueType::unpack(26), Err(BinError::InvalidTag));
    assert_eq!(BinValueType::unpack(127), Err(BinError::InvalidTag));
    assert_eq!(BinValueType::unpack(136), Err(BinError::InvalidTag));
    // The namespace-switch boundaries are accepted.
    assert_eq!(BinValueType::unpack(0), Ok(BinValueType::Nil));
    assert_eq!(BinValueType::unpack(128), Ok(BinValueType::Container));
    assert_eq!(BinValueType::unpack(135), Ok(BinValueType::FlagsBoolean));
}

#[test]
fn test_empty_container_sizes() {
    let c = BinContainer::new(BinValueType::Int32, vec![]);
    assert_eq!(c.content_size(), 4);
    assert_eq!(c.size(), 9);
}

#[test]
fn test_structure_name_zero() {
    let s = BinStructure::new(0, vec![]);
    assert_eq!(s.size(), 4);
    let mut out: Vec<u8> = Vec::new();
    s.write(&mut out).unwrap();
    assert_eq!(out, vec![0u8, 0, 0, 0]);
    let (back, end) = BinStructure::read(&out, 0).unwrap();
    assert_eq!(end, 4);
    assert_eq!(back, BinStructure::new(0, vec![]));
}

#[test]
fn test_optional_presence() {
    // Declared inner kind Int32, presence clear: absent, whatever the kind.
    let absent = [6u8, 0];
    let (v, end) = BinValue::read_value(0, BinValueType::Optional, &absent, 0).unwrap();
    assert_eq!(end, 2);
    assert_eq!(
        v,
        BinValue::Optional { name: 0, value_type: BinValueType::Int32, value: None }
    );
    // Presence set: the payload decodes as a bare value of the inner kind.
    let present = [6u8, 1, 42, 0, 0, 0];
    let (v, end) = BinValue::read_value(0, BinValueType::Optional, &present, 0).unwrap();
    assert_eq!(end, 6);
    let direct = BinValue::read_value(0, BinValueType::Int32, &present, 2).unwrap();
    assert_eq!(direct.0, BinValue::Int32 { name: 0, value: 42 });
    assert_eq!(
        v,
        BinValue::Optional {
            name: 0,
            value_type: BinValueType::Int32,
            value: Some(Box::new(BinValue::Int32 { name: 0, value: 42 })),
        }
    );
    // Presence clear under a different declared kind is still absent.
    let absent_float = [10u8, 0];
    let (v, _) = BinValue::read_value(0, BinValueType::Optional, &absent_float, 0).unwrap();
    assert_eq!(
        v,
        BinValue::Optional { name: 0, value_type: BinValueType::Float, value: None }
    );
}

#[test]
fn test_map_case_insensitive_keys() {
    // A map payload with String keys "Foo" and "foo": the two keys collide
    // into one slot; the first spelling stays, the later value wins.
    let bytes = [
        16u8, // key kind: String
        6,    // value kind: Int32
        0, 0, 0, 0, // advisory content size
        2, 0, 0, 0, // entry count
        3, 0, b'F', b'o', b'o', // key "Foo"
        1, 0, 0, 0, // value 1
        3, 0, b'f', b'o', b'o', // key "foo"
        2, 0, 0, 0, // value 2
    ];
    let (m, end) = BinMap::read(&bytes, 0).unwrap();
    assert_eq!(end, bytes.len());
    assert_eq!(m.entries().len(), 1);
    assert_eq!(
        m.entries()[0].0,
        BinValue::String { name: 0, value: b"Foo".to_vec() }
    );
    assert_eq!(m.entries()[0].1, BinValue::Int32 { name: 0, value: 2 });
}

#[test]
fn test_map_insert_replaces_case_insensitively() {
    let mut m = BinMap::new(BinValueType::String, BinValueType::Int32);
    m.insert(
        BinValue::String { name: 0, value: b"Foo".to_vec() },
        BinValue::Int32 { name: 0, value: 1 },
    );
    m.insert(
        BinValue::String { name: 0, value: b"foo".to_vec() },
        BinValue::Int32 { name: 0, value: 2 },
    );
    m.insert(
        BinValue::String { name: 0, value: b"bar".to_vec() },
        BinValue::Int32 { name: 0, value: 3 },
    );
    assert_eq!(m.entries().len(), 2);
    assert_eq!(
        m.entries()[0].0,
        BinValue::String { name: 0, value: b"Foo".to_vec() }
    );
    assert_eq!(m.entries()[0].1, BinValue::Int32 { name: 0, value: 2 });
}

#[test]
fn test_truncated_float() {
    // A Float32 field cut one byte short fails, never a silently wrong value.
    let bytes = [1u8, 2, 3];
    assert_eq!(
        BinValue::read_value(0, BinValueType::Float, &bytes, 0),
        Err(BinError::TruncatedInput)
    );
    // The same cut inside a named field.
    let named = [7u8, 0, 0, 0, 10, 1, 2, 3];
    assert_eq!(BinValue::read(&named, 0), Err(BinError::TruncatedInput));
}

#[test]
fn test_invalid_tag_aborts() {
    let named = [7u8, 0, 0, 0, 200, 1, 2, 3, 4];
    assert_eq!(BinValue::read(&named, 0), Err(BinError::InvalidTag));
}

#[test]
fn test_invalid_utf8_string() {
    let bytes = [2u8, 0, 0xFF, 0xFE];
    assert_eq!(
        BinValue::read_value(0, BinValueType::String, &bytes, 0),
        Err(BinError::InvalidUtf8)
    );
}

#[test]
fn test_unsupported_map_key() {
    // Decoding a map that declares a non-hashable key kind is rejected
    // before any entry is read.
    let bytes = [
        10u8, // key kind: Float, not hashable
        6,    // value kind: Int32
        0, 0, 0, 0, 0, 0, 0, 0,
    ];
    assert_eq!(BinMap::read(&bytes, 0), Err(BinError::UnsupportedMapKey));
    // Encoding such a map is rejected too.
    let m = BinMap::new(BinValueType::Float, BinValueType::Int32);
    let mut out: Vec<u8> = Vec::new();
    assert_eq!(m.write(&mut out), Err(BinError::UnsupportedMapKey));
    let entry = BinEntry::new(1, 2, vec![BinValue::Dict { name: 9, value: m }]);
    let tree = BinTree::new(vec![], vec![entry]);
    assert_eq!(BinWriter::write_tree(&tree), Err(BinError::UnsupportedMapKey));
}

#[test]
fn test_value_size_matches_bytes_written() {
    let values = vec![
        BinValue::Nil { name: 1 },
        BinValue::Boolean { name: 2, value: true },
        BinValue::Int64 { name: 3, value: -5 },
        BinValue::String { name: 4, value: b"hello".to_vec() },
        BinValue::Container {
            name: 5,
            value: BinContainer::new(
                BinValueType::Byte,
                vec![
                    BinValue::Byte { name: 0, value: 1 },
                    BinValue::Byte { name: 0, value: 2 },
                ],
            ),
        },
        BinValue::Optional {
            name: 6,
            value_type: BinValueType::UInt16,
            value: Some(Box::new(BinValue::UInt16 { name: 0, value: 7 })),
        },
    ];
    for v in &values {
        let mut bare: Vec<u8> = Vec::new();
        v.write_value(&mut bare).unwrap();
        assert_eq!(v.size(true), bare.len() as u64);
        let mut named: Vec<u8> = Vec::new();
        v.write(&mut named).unwrap();
        assert_eq!(v.size(false), named.len() as u64);
    }
}

#[test]
fn test_value_round_trip() {
    let original = BinValue::Structure {
        name: 0xCAFE,
        value: BinStructure::new(
            0xBEEF,
            vec![
                BinValue::Int32 { name: 10, value: -7 },
                BinValue::Container2 {
                    name: 11,
                    value: BinContainer::new(
                        BinValueType::String,
                        vec![
                            BinValue::String { name: 0, value: b"one".to_vec() },
                            BinValue::String { name: 0, value: b"two".to_vec() },
                        ],
                    ),
                },
            ],
        ),
    };
    let mut out: Vec<u8> = Vec::new();
    original.write(&mut out).unwrap();
    let (back, end) = BinValue::read(&out, 0).unwrap();
    assert_eq!(end, out.len());
    assert_eq!(back, original);
}

#[test]
fn test_bin() {
    // A full tree survives encoding and decoding, value-equal, and a second
    // encoding emits the identical stream.
    let mut dict = BinMap::new(BinValueType::Hash, BinValueType::Boolean);
    dict.insert(
        BinValue::Hash { name: 0, value: 0x11 },
        BinValue::Boolean { name: 0, value: true },
    );
    let entry_a = BinEntry::new(
        0xA1,
        0xB2,
        vec![
            BinValue::Float { name: 1, value: 0x40490FDB }, // bit pattern of pi
            BinValue::Dict { name: 2, value: dict },
        ],
    );
    let entry_b = BinEntry::new(0xC3, 0xD4, vec![]);
    let tree = BinTree::new(vec![b"Common".to_vec()], vec![entry_a, entry_b]);
    let bytes = BinWriter::write_tree(&tree).unwrap();
    let back = BinReader::read_tree(&bytes).unwrap();
    assert_eq!(back, tree);
    let again = BinWriter::write_tree(&back).unwrap();
    assert_eq!(again, bytes);
}

#[test]
fn test_tree_rejects_bad_magic_and_version() {
    let bad_magic = [b'P', b'R', b'O', b'Q', 2, 0, 0, 0];
    assert_eq!(BinReader::read_tree(&bad_magic), Err(BinError::FormatError));
    let bad_version = [b'P', b'R', b'O', b'P', 3, 0, 0, 0];
    assert_eq!(BinReader::read_tree(&bad_version), Err(BinError::FormatError));
    // A non-UTF-8 opening is just another bad magic.
    let not_utf8 = [0xFFu8, 0xFE, 0xFD, 0xFC, 2, 0, 0, 0];
    assert_eq!(BinReader::read_tree(&not_utf8), Err(BinError::FormatError));
}

#[test]
fn test_version_one_has_no_dependency_list() {
    // Version 1: no dependency list; zero entries end the stream.
    let bytes = [b'P', b'R', b'O', b'P', 1, 0, 0, 0, 0, 0, 0, 0];
    let tree = BinReader::read_tree(&bytes).unwrap();
    assert_eq!(tree.dependencies().len(), 0);
    assert_eq!(tree.entries().len(), 0);
}

#[test]
fn test_end_to_end_scenario() {
    let entry = BinEntry::new(
        0x1234,
        0x5678,
        vec![
            BinValue::Int32 { name: 0x1, value: 42 },
            BinValue::String { name: 0x2, value: b"abc".to_vec() },
        ],
    );
    let tree = BinTree::new(vec![b"DependencyModule".to_vec()], vec![entry]);
    let bytes = BinWriter::write_tree(&tree).unwrap();
    let mut expected: Vec<u8> = Vec::new();
    expected.extend_from_slice(b"PROP");
    expected.extend_from_slice(&2u32.to_le_bytes()); // version
    expected.extend_from_slice(&1u32.to_le_bytes()); // dependency count
    expected.extend_from_slice(&16u16.to_le_bytes());
    expected.extend_from_slice(b"DependencyModule");
    expected.extend_from_slice(&1u32.to_le_bytes()); // entry count
    expected.extend_from_slice(&0x1234u32.to_le_bytes()); // class
    expected.extend_from_slice(&25u32.to_le_bytes()); // entry size: 6 + 9 + 10
    expected.extend_from_slice(&0x5678u32.to_le_bytes()); // path
    expected.extend_from_slice(&2u16.to_le_bytes()); // value count
    expected.extend_from_slice(&0x1u32.to_le_bytes()); // first name
    expected.push(6); // Int32 tag
    expected.extend_from_slice(&42u32.to_le_bytes());
    expected.extend_from_slice(&0x2u32.to_le_bytes()); // second name
    expected.push(16); // String tag
    expected.extend_from_slice(&3u16.to_le_bytes());
    expected.extend_from_slice(b"abc");
    assert_eq!(bytes, expected);
    let back = BinReader::read_tree(&bytes).unwrap();
    assert_eq!(back, tree);
    assert_eq!(back.entries()[0].class(), 0x1234);
    assert_eq!(back.entries()[0].path(), 0x5678);
    assert_eq!(back.dependencies()[0], b"DependencyModule".to_vec());
}

#[test]
fn test_non_canonical_stream_decodes_value_equal() {
    // A stream using a plain tag byte for a high-bit kind and a stale
    // advisory size still decodes; re-encoding yields the canonical bytes.
    let mut stream: Vec<u8> = Vec::new();
    stream.extend_from_slice(b"PROP");
    stream.extend_from_slice(&2u32.to_le_bytes());
    stream.extend_from_slice(&0u32.to_le_bytes()); // no dependencies
    stream.extend_from_slice(&1u32.to_le_bytes()); // one entry
    stream.extend_from_slice(&7u32.to_le_bytes()); // class
    stream.extend_from_slice(&999u32.to_le_bytes()); // stale advisory size
    stream.extend_from_slice(&8u32.to_le_bytes()); // path
    stream.extend_from_slice(&1u16.to_le_bytes()); // one value
    stream.extend_from_slice(&5u32.to_le_bytes()); // name
    stream.push(18); // Container by plain tag, not the canonical 128
    stream.push(6); // element kind Int32
    stream.extend_from_slice(&0u32.to_le_bytes()); // stale content size
    stream.extend_from_slice(&1u32.to_le_bytes()); // one element
    stream.extend_from_slice(&77u32.to_le_bytes());
    let tree = BinReader::read_tree(&stream).unwrap();
    let expected = BinTree::new(
        vec![],
        vec![BinEntry::new(
            7,
            8,
            vec![BinValue::Container {
                name: 5,
                value: BinContainer::new(
                    BinValueType::Int32,
                    vec![BinValue::Int32 { name: 0, value: 77 }],
                ),
            }],
        )],
    );
    assert_eq!(tree, expected);
    let canonical = BinWriter::write_tree(&tree).unwrap();
    assert_ne!(canonical, stream);
    assert_eq!(BinReader::read_tree(&canonical).unwrap(), expected);
}

#[test]
fn test_well_formed_check() {
    let good = BinTree::new(
        vec![b"Dep".to_vec()],
        vec![BinEntry::new(1, 2, vec![BinValue::Boolean { name: 3, value: false }])],
    );
    assert!(good.is_well_formed());
    // A structure carrying the absent-name sentinel with fields is refused.
    let bad = BinTree::new(
        vec![],
        vec![BinEntry::new(
            1,
            2,
            vec![BinValue::Structure {
                name: 4,
                value: BinStructure::new(0, vec![BinValue::Nil { name: 0 }]),
            }],
        )],
    );
    assert!(!bad.is_well_formed());
    // A non-UTF-8 dependency name is refused.
    let bad_dep = BinTree::new(vec![vec![0xFF, 0xFE]], vec![]);
    assert!(!bad_dep.is_well_formed());
    // An element whose kind disagrees with the container's declared kind is
    // refused.
    let bad_elem = BinTree::new(
        vec![],
        vec![BinEntry::new(
            1,
            2,
            vec![BinValue::Container {
                name: 5,
                value: BinContainer::new(
                    BinValueType::Int32,
                    vec![BinValue::Byte { name: 0, value: 9 }],
                ),
            }],
        )],
    );
    assert!(!bad_elem.is_well_formed());
}

#[test]
fn test_matrix_and_vector_round_trip() {
    let mut m = [0u32; 16];
    let mut i = 0u32;
    while i < 16 {
        m[i as usize] = 0x3F80_0000 + i;
        i += 1;
    }
    let v = BinValue::Structure {
        name: 1,
        value: BinStructure::new(
            2,
            vec![
                BinValue::Vector2 { name: 3, value: Vector2 { x: 1, y: 2 } },
                BinValue::Vector3 { name: 4, value: Vector3 { x: 1, y: 2, z: 3 } },
                BinValue::Vector4 { name: 5, value: Vector4 { x: 1, y: 2, z: 3, w: 4 } },
                BinValue::Matrix44 { name: 6, value: Matrix44 { m } },
                BinValue::Color {
                    name: 7,
                    value: propbag::color_rgba::ColorRGBA::new_u8(10, 20, 30, 40),
                },
            ],
        ),
    };
    let mut out: Vec<u8> = Vec::new();
    v.write(&mut out).unwrap();
    assert_eq!(v.size(false), out.len() as u64);
    let (back, end) = BinValue::read(&out, 0).unwrap();
    assert_eq!(end, out.len());
    assert_eq!(back, v);
}
