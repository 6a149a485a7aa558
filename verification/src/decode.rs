//! The executable decoder: every function returns exactly what the spec
//! parser of `parse` denotes for its bytes and position.
use vstd::prelude::*;
use vstd::utf8::valid_utf8;
use crate::tag::{BinValueType, BinError};
use crate::bytes::{Parsed, get_u8, get_u16, get_u32, get_u64, get_bytes};
use crate::value::{
    BinValue, BinStructure, BinContainer, BinMap, Node, StructV, ContainerV, MapV, Vector2,
    Vector3, Vector4, Matrix44, view_value, view_nodes, view_pairs, build_map,
    lemma_view_nodes_push,
};
use crate::color_rgba::ColorRGBA;
use crate::parse::{
    dec_named, dec_bare, dec_container, dec_struct, dec_map, dec_u32_list, dec_bare_list,
    dec_named_list, dec_pair_list, prepend_parsed, lemma_prepend_assoc, lemma_prepend_empty,
};
use crate::keys::insert_pair;

verus! {

/// Relies on `str::from_utf8` of std: it returns `Ok` exactly on input that
/// is valid UTF-8, the property vstd's `valid_utf8` spells out.
#[verifier::external_body]
pub(crate) fn is_valid_utf8(bytes: &Vec<u8>) -> (r: bool)
    ensures
        r == valid_utf8(bytes@),
{
    core::str::from_utf8(bytes.as_slice()).is_ok()
}

/// Reads `n` little-endian `u32` values, as `dec_u32_list` describes.
#[verifier::loop_isolation(false)]
pub(crate) fn get_u32_list(data: &[u8], pos: usize, n: usize) -> (r: Result<(Vec<u32>, usize), BinError>)
    ensures
        (match r {
            Ok((v, end)) => dec_u32_list(data@, pos as int, n as int) == Parsed::Found(
                v@,
                end as int,
            ) && v@.len() == n && pos <= end && (n > 0 ==> end <= data@.len()),
            Err(e) => dec_u32_list(data@, pos as int, n as int) == Parsed::<Seq<u32>>::Fail(e),
        }),
{
    let mut values: Vec<u32> = Vec::new();
    let mut cur: usize = pos;
    let mut i: usize = 0;
    proof {
        lemma_prepend_empty(dec_u32_list(data@, pos as int, n as int));
        assert(values@ =~= Seq::<u32>::empty());
    }
    while i < n
        invariant
            0 <= i <= n,
            values@.len() == i,
            pos <= cur,
            i > 0 ==> cur <= data@.len(),
            dec_u32_list(data@, pos as int, n as int) == prepend_parsed(
                values@,
                dec_u32_list(data@, cur as int, (n - i) as int),
            ),
        decreases n - i,
    {
        match get_u32(data, cur) {
            Ok((v, p1)) => {
                proof {
                    let rest = dec_u32_list(data@, p1 as int, (n - i - 1) as int);
                    assert(dec_u32_list(data@, cur as int, (n - i) as int) == prepend_parsed(
                        seq![v],
                        rest,
                    )) by {
                        match rest {
                            Parsed::Found(_, _) => {},
                            Parsed::Fail(_) => {},
                        }
                    }
                    lemma_prepend_assoc(values@, seq![v], rest);
                }
                let ghost pre = values;
                values.push(v);
                cur = p1;
                i = i + 1;
                proof {
                    assert(values@ =~= pre@ + seq![v]);
                }
            },
            Err(e) => {
                return Err(e);
            },
        }
    }
    proof {
        assert(dec_u32_list(data@, cur as int, 0) == Parsed::<Seq<u32>>::Found(
            Seq::empty(),
            cur as int,
        ));
        assert(values@ + Seq::<u32>::empty() =~= values@);
    }
    Ok((values, cur))
}

impl BinValue {
    /// Reads a node in a named position, as `dec_named` describes: 32-bit
    /// name, one tag byte, then the payload of the unpacked kind.
    pub fn read(data: &[u8], pos: usize) -> (r: Result<(BinValue, usize), BinError>)
        requires
            pos <= data@.len(),
        ensures
            (match r {
                Ok((v, end)) => dec_named(data@, pos as int) == Parsed::Found(v@, end as int) && pos
                    <= end <= data@.len(),
                Err(e) => dec_named(data@, pos as int) == Parsed::<Node>::Fail(e),
            }),
        decreases data@.len() - pos, 2int, 1int,
    {
        let (name, p1) = match get_u32(data, pos) {
            Ok(x) => x,
            Err(e) => {
                return Err(e);
            },
        };
        let (tag, p2) = match get_u8(data, p1) {
            Ok(x) => x,
            Err(e) => {
                return Err(e);
            },
        };
        let k = match BinValueType::unpack(tag) {
            Ok(k) => k,
            Err(e) => {
                return Err(e);
            },
        };
        BinValue::read_value(name, k, data, p2)
    }

    /// Reads the payload of a fixed-width kind: the numeric, boolean,
    /// hash and link kinds, and the empty kind.
    fn read_value_scalar(
        name: u32,
        value_type: BinValueType,
        data: &[u8],
        pos: usize,
    ) -> (r: Result<(BinValue, usize), BinError>)
        requires
            pos <= data@.len(),
            matches!(value_type,
                BinValueType::Nil | BinValueType::Boolean | BinValueType::SByte
                | BinValueType::Byte | BinValueType::Int16 | BinValueType::UInt16
                | BinValueType::Int32 | BinValueType::UInt32 | BinValueType::Int64
                | BinValueType::UInt64 | BinValueType::Float | BinValueType::Hash
                | BinValueType::Link | BinValueType::FlagsBoolean),
        ensures
            (match r {
                Ok((v, end)) => dec_bare(data@, pos as int, value_type, name) == Parsed::Found(
                    v@,
                    end as int,
                ) && pos <= end <= data@.len(),
                Err(e) => dec_bare(data@, pos as int, value_type, name) == Parsed::<Node>::Fail(e),
            }),
    {
        match value_type {
            BinValueType::Nil => {
                Ok((BinValue::Nil { name }, pos))
            },
            BinValueType::Boolean => {
                let (b, end) = match get_u8(data, pos) {
                    Ok(x) => x,
                    Err(e) => {
                        return Err(e);
                    },
                };
                Ok((BinValue::Boolean { name, value: b != 0 }, end))
            },
            BinValueType::SByte => {
                let (b, end) = match get_u8(data, pos) {
                    Ok(x) => x,
                    Err(e) => {
                        return Err(e);
                    },
                };
                Ok((BinValue::SByte { name, value: b as i8 }, end))
            },
            BinValueType::Byte => {
                let (b, end) = match get_u8(data, pos) {
                    Ok(x) => x,
                    Err(e) => {
                        return Err(e);
                    },
                };
                Ok((BinValue::Byte { name, value: b }, end))
            },
            BinValueType::Int16 => {
                let (v, end) = match get_u16(data, pos) {
                    Ok(x) => x,
                    Err(e) => {
                        return Err(e);
                    },
                };
                Ok((BinValue::Int16 { name, value: v as i16 }, end))
            },
            BinValueType::UInt16 => {
                let (v, end) = match get_u16(data, pos) {
                    Ok(x) => x,
                    Err(e) => {
                        return Err(e);
                    },
                };
                Ok((BinValue::UInt16 { name, value: v }, end))
            },
            BinValueType::Int32 => {
                let (v, end) = match get_u32(data, pos) {
                    Ok(x) => x,
                    Err(e) => {
                        return Err(e);
                    },
                };
                Ok((BinValue::Int32 { name, value: v as i32 }, end))
            },
            BinValueType::UInt32 => {
                let (v, end) = match get_u32(data, pos) {
                    Ok(x) => x,
                    Err(e) => {
                        return Err(e);
                    },
                };
                Ok((BinValue::UInt32 { name, value: v }, end))
            },
            BinValueType::Int64 => {
                let (v, end) = match get_u64(data, pos) {
                    Ok(x) => x,
                    Err(e) => {
                        return Err(e);
                    },
                };
                Ok((BinValue::Int64 { name, value: v as i64 }, end))
            },
            BinValueType::UInt64 => {
                let (v, end) = match get_u64(data, pos) {
                    Ok(x) => x,
                    Err(e) => {
                        return Err(e);
                    },
                };
                Ok((BinValue::UInt64 { name, value: v }, end))
            },
            BinValueType::Float => {
                let (v, end) = match get_u32(data, pos) {
                    Ok(x) => x,
                    Err(e) => {
                        return Err(e);
                    },
                };
                Ok((BinValue::Float { name, value: v }, end))
            },
            BinValueType::Hash => {
                let (v, end) = match get_u32(data, pos) {
                    Ok(x) => x,
                    Err(e) => {
                        return Err(e);
                    },
                };
                Ok((BinValue::Hash { name, value: v }, end))
            },
            BinValueType::Link => {
                let (v, end) = match get_u32(data, pos) {
                    Ok(x) => x,
                    Err(e) => {
                        return Err(e);
                    },
                };
                Ok((BinValue::Link { name, value: v }, end))
            },
            BinValueType::FlagsBoolean => {
                let (b, end) = match get_u8(data, pos) {
                    Ok(x) => x,
                    Err(e) => {
                        return Err(e);
                    },
                };
                Ok((BinValue::FlagsBoolean { name, value: b != 0 }, end))
            },
            _ => {
                proof {
                    assert(false);
                }
                Err(BinError::TruncatedInput)
            },
        }
    }

    /// Reads the payload of a geometry, color or string kind.
    fn read_value_flat(
        name: u32,
        value_type: BinValueType,
        data: &[u8],
        pos: usize,
    ) -> (r: Result<(BinValue, usize), BinError>)
        requires
            pos <= data@.len(),
            matches!(value_type,
                BinValueType::Vector2 | BinValueType::Vector3 | BinValueType::Vector4
                | BinValueType::Matrix44 | BinValueType::Color | BinValueType::String),
        ensures
            (match r {
                Ok((v, end)) => dec_bare(data@, pos as int, value_type, name) == Parsed::Found(
                    v@,
                    end as int,
                ) && pos <= end <= data@.len(),
                Err(e) => dec_bare(data@, pos as int, value_type, name) == Parsed::<Node>::Fail(e),
            }),
    {
        match value_type {
            BinValueType::Vector2 => {
                let (v, end) = match get_u32_list(data, pos, 2) {
                    Ok(x) => x,
                    Err(e) => {
                        return Err(e);
                    },
                };
                Ok((BinValue::Vector2 { name, value: Vector2 { x: v[0], y: v[1] } }, end))
            },
            BinValueType::Vector3 => {
                let (v, end) = match get_u32_list(data, pos, 3) {
                    Ok(x) => x,
                    Err(e) => {
                        return Err(e);
                    },
                };
                Ok((BinValue::Vector3 { name, value: Vector3 { x: v[0], y: v[1], z: v[2] } }, end))
            },
            BinValueType::Vector4 => {
                let (v, end) = match get_u32_list(data, pos, 4) {
                    Ok(x) => x,
                    Err(e) => {
                        return Err(e);
                    },
                };
                Ok((
                    BinValue::Vector4 {
                        name,
                        value: Vector4 { x: v[0], y: v[1], z: v[2], w: v[3] },
                    },
                    end,
                ))
            },
            BinValueType::Matrix44 => {
                let (v, end) = match get_u32_list(data, pos, 16) {
                    Ok(x) => x,
                    Err(e) => {
                        return Err(e);
                    },
                };
                let m: [u32; 16] = [
                    v[0],
                    v[1],
                    v[2],
                    v[3],
                    v[4],
                    v[5],
                    v[6],
                    v[7],
                    v[8],
                    v[9],
                    v[10],
                    v[11],
                    v[12],
                    v[13],
                    v[14],
                    v[15],
                ];
                proof {
                    assert(m@ =~= v@);
                }
                Ok((BinValue::Matrix44 { name, value: Matrix44 { m } }, end))
            },
            BinValueType::Color => {
                let (b, end) = match get_bytes(data, pos, 4) {
                    Ok(x) => x,
                    Err(e) => {
                        return Err(e);
                    },
                };
                Ok((
                    BinValue::Color {
                        name,
                        value: ColorRGBA { r: b[0], g: b[1], b: b[2], a: b[3] },
                    },
                    end,
                ))
            },
            BinValueType::String => {
                let (len, p1) = match get_u16(data, pos) {
                    Ok(x) => x,
                    Err(e) => {
                        return Err(e);
                    },
                };
                let (bytes, end) = match get_bytes(data, p1, len as usize) {
                    Ok(x) => x,
                    Err(e) => {
                        return Err(e);
                    },
                };
                if is_valid_utf8(&bytes) {
                    Ok((BinValue::String { name, value: bytes }, end))
                } else {
                    Err(BinError::InvalidUtf8)
                }
            },
            _ => {
                proof {
                    assert(false);
                }
                Err(BinError::TruncatedInput)
            },
        }
    }

    #[verifier::spinoff_prover]
    pub fn read_value(
        name: u32,
        value_type: BinValueType,
        data: &[u8],
        pos: usize,
    ) -> (r: Result<(BinValue, usize), BinError>)
        requires
            pos <= data@.len(),
        ensures
            (match r {
                Ok((v, end)) => dec_bare(data@, pos as int, value_type, name) == Parsed::Found(
                    v@,
                    end as int,
                ) && pos <= end <= data@.len(),
                Err(e) => dec_bare(data@, pos as int, value_type, name) == Parsed::<Node>::Fail(e),
            }),
        decreases data@.len() - pos, 2int, 0int,
    {
        match value_type {
            BinValueType::Nil
            | BinValueType::Boolean
            | BinValueType::SByte
            | BinValueType::Byte
            | BinValueType::Int16
            | BinValueType::UInt16
            | BinValueType::Int32
            | BinValueType::UInt32
            | BinValueType::Int64
            | BinValueType::UInt64
            | BinValueType::Float
            | BinValueType::Hash
            | BinValueType::Link
            | BinValueType::FlagsBoolean => BinValue::read_value_scalar(
                name,
                value_type,
                data,
                pos,
            ),
            BinValueType::Vector2
            | BinValueType::Vector3
            | BinValueType::Vector4
            | BinValueType::Matrix44
            | BinValueType::Color
            | BinValueType::String => BinValue::read_value_flat(name, value_type, data, pos),
            BinValueType::Container => {
                let (c, end) = match BinContainer::read(data, pos) {
                    Ok(x) => x,
                    Err(e) => {
                        return Err(e);
                    },
                };
                Ok((BinValue::Container { name, value: c }, end))
            },
            BinValueType::Container2 => {
                let (c, end) = match BinContainer::read(data, pos) {
                    Ok(x) => x,
                    Err(e) => {
                        return Err(e);
                    },
                };
                Ok((BinValue::Container2 { name, value: c }, end))
            },
            BinValueType::Structure => {
                let (v, end) = match BinStructure::read(data, pos) {
                    Ok(x) => x,
                    Err(e) => {
                        return Err(e);
                    },
                };
                Ok((BinValue::Structure { name, value: v }, end))
            },
            BinValueType::Embedded => {
                let (v, end) = match BinStructure::read(data, pos) {
                    Ok(x) => x,
                    Err(e) => {
                        return Err(e);
                    },
                };
                Ok((BinValue::Embedded { name, value: v }, end))
            },
            BinValueType::Optional => {
                let (tag, p1) = match get_u8(data, pos) {
                    Ok(x) => x,
                    Err(e) => {
                        return Err(e);
                    },
                };
                let inner = match BinValueType::unpack(tag) {
                    Ok(k) => k,
                    Err(e) => {
                        return Err(e);
                    },
                };
                let (flag, p2) = match get_u8(data, p1) {
                    Ok(x) => x,
                    Err(e) => {
                        return Err(e);
                    },
                };
                if flag != 0 {
                    let (v, end) = match BinValue::read_value(0, inner, data, p2) {
                        Ok(x) => x,
                        Err(e) => {
                            return Err(e);
                        },
                    };
                    Ok((
                        BinValue::Optional {
                            name,
                            value_type: inner,
                            value: Some(Box::new(v)),
                        },
                        end,
                    ))
                } else {
                    Ok((BinValue::Optional { name, value_type: inner, value: None }, p2))
                }
            },
            BinValueType::Dict => {
                let (m, end) = match BinMap::read(data, pos) {
                    Ok(x) => x,
                    Err(e) => {
                        return Err(e);
                    },
                };
                Ok((BinValue::Dict { name, value: m }, end))
            },
        }
    }
}

impl BinContainer {
    /// Reads a homogeneous aggregate payload, as `dec_container` describes.
    #[verifier::loop_isolation(false)]
    pub fn read(data: &[u8], pos: usize) -> (r: Result<(BinContainer, usize), BinError>)
        requires
            pos <= data@.len(),
        ensures
            (match r {
                Ok((c, end)) => dec_container(data@, pos as int) == Parsed::Found(c@, end as int)
                    && pos <= end <= data@.len(),
                Err(e) => dec_container(data@, pos as int) == Parsed::<ContainerV>::Fail(e),
            }),
        decreases data@.len() - pos, 1int, 0int,
    {
        let (tag, p1) = match get_u8(data, pos) {
            Ok(x) => x,
            Err(e) => {
                return Err(e);
            },
        };
        let ek = match BinValueType::unpack(tag) {
            Ok(k) => k,
            Err(e) => {
                return Err(e);
            },
        };
        let (_size, p2) = match get_u32(data, p1) {
            Ok(x) => x,
            Err(e) => {
                return Err(e);
            },
        };
        let (count, p3) = match get_u32(data, p2) {
            Ok(x) => x,
            Err(e) => {
                return Err(e);
            },
        };
        let mut values: Vec<BinValue> = Vec::new();
        let mut cur: usize = p3;
        let mut i: u32 = 0;
        proof {
            assert(view_nodes(values) =~= Seq::<Node>::empty());
            lemma_prepend_empty(dec_bare_list(data@, p3 as int, ek, count as int));
        }
        while i < count
            invariant
                0 <= i <= count,
                p3 <= cur <= data@.len(),
                dec_bare_list(data@, p3 as int, ek, count as int) == prepend_parsed(
                    view_nodes(values),
                    dec_bare_list(data@, cur as int, ek, (count - i) as int),
                ),
            decreases count - i,
        {
            match BinValue::read_value(0, ek, data, cur) {
                Ok((v, p4)) => {
                    proof {
                        let rest = dec_bare_list(data@, p4 as int, ek, (count - i) as int - 1);
                        assert(dec_bare_list(data@, cur as int, ek, (count - i) as int)
                            == prepend_parsed(seq![v@], rest)) by {
                            match rest {
                                Parsed::Found(_, _) => {},
                                Parsed::Fail(_) => {},
                            }
                        }
                        lemma_prepend_assoc(view_nodes(values), seq![v@], rest);
                    }
                    let ghost pre = values;
                    values.push(v);
                    proof {
                        lemma_view_nodes_push(pre, values, v);
                        assert(view_nodes(pre) + seq![view_value(v)] =~= view_nodes(pre).push(
                            view_value(v),
                        ));
                    }
                    cur = p4;
                    i = i + 1;
                },
                Err(e) => {
                    proof {
                        assert(dec_bare_list(data@, cur as int, ek, (count - i) as int)
                            == Parsed::<Seq<Node>>::Fail(e));
                    }
                    return Err(e);
                },
            }
        }
        proof {
            assert(dec_bare_list(data@, cur as int, ek, 0) == Parsed::<Seq<Node>>::Found(
                Seq::empty(),
                cur as int,
            ));
            assert(view_nodes(values) + Seq::<Node>::empty() =~= view_nodes(values));
        }
        Ok((BinContainer { value_type: ek, values }, cur))
    }
}

impl BinStructure {
    /// Reads a named aggregate payload, as `dec_struct` describes: the zero
    /// name ends it at once with no fields.
    #[verifier::loop_isolation(false)]
    pub fn read(data: &[u8], pos: usize) -> (r: Result<(BinStructure, usize), BinError>)
        requires
            pos <= data@.len(),
        ensures
            (match r {
                Ok((v, end)) => dec_struct(data@, pos as int) == Parsed::Found(v@, end as int)
                    && pos <= end <= data@.len(),
                Err(e) => dec_struct(data@, pos as int) == Parsed::<StructV>::Fail(e),
            }),
        decreases data@.len() - pos, 1int, 0int,
    {
        let (name, p1) = match get_u32(data, pos) {
            Ok(x) => x,
            Err(e) => {
                return Err(e);
            },
        };
        if name == 0 {
            let fields: Vec<BinValue> = Vec::new();
            proof {
                assert(view_nodes(fields) =~= Seq::<Node>::empty());
            }
            return Ok((BinStructure { name: 0, fields }, p1));
        }
        let (_size, p2) = match get_u32(data, p1) {
            Ok(x) => x,
            Err(e) => {
                return Err(e);
            },
        };
        let (count, p3) = match get_u16(data, p2) {
            Ok(x) => x,
            Err(e) => {
                return Err(e);
            },
        };
        let mut fields: Vec<BinValue> = Vec::new();
        let mut cur: usize = p3;
        let mut i: u16 = 0;
        proof {
            assert(view_nodes(fields) =~= Seq::<Node>::empty());
            lemma_prepend_empty(dec_named_list(data@, p3 as int, count as int));
        }
        while i < count
            invariant
                0 <= i <= count,
                p3 <= cur <= data@.len(),
                dec_named_list(data@, p3 as int, count as int) == prepend_parsed(
                    view_nodes(fields),
                    dec_named_list(data@, cur as int, (count - i) as int),
                ),
            decreases count - i,
        {
            match BinValue::read(data, cur) {
                Ok((v, p4)) => {
                    proof {
                        let rest = dec_named_list(data@, p4 as int, (count - i) as int - 1);
                        assert(dec_named_list(data@, cur as int, (count - i) as int)
                            == prepend_parsed(seq![v@], rest)) by {
                            match rest {
                                Parsed::Found(_, _) => {},
                                Parsed::Fail(_) => {},
                            }
                        }
                        lemma_prepend_assoc(view_nodes(fields), seq![v@], rest);
                    }
                    let ghost pre = fields;
                    fields.push(v);
                    proof {
                        lemma_view_nodes_push(pre, fields, v);
                        assert(view_nodes(pre) + seq![view_value(v)] =~= view_nodes(pre).push(
                            view_value(v),
                        ));
                    }
                    cur = p4;
                    i = i + 1;
                },
                Err(e) => {
                    proof {
                        assert(dec_named_list(data@, cur as int, (count - i) as int)
                            == Parsed::<Seq<Node>>::Fail(e));
                    }
                    return Err(e);
                },
            }
        }
        proof {
            assert(dec_named_list(data@, cur as int, 0) == Parsed::<Seq<Node>>::Found(
                Seq::empty(),
                cur as int,
            ));
            assert(view_nodes(fields) + Seq::<Node>::empty() =~= view_nodes(fields));
        }
        Ok((BinStructure { name, fields }, cur))
    }
}

impl BinMap {
    /// Reads a keyed aggregate payload, as `dec_map` describes: a key kind
    /// outside the hashable subset is rejected before any entry is read, and
    /// each decoded pair is inserted over the entries read before it.
    #[verifier::loop_isolation(false)]
    pub fn read(data: &[u8], pos: usize) -> (r: Result<(BinMap, usize), BinError>)
        requires
            pos <= data@.len(),
        ensures
            (match r {
                Ok((m, end)) => dec_map(data@, pos as int) == Parsed::Found(m@, end as int) && pos
                    <= end <= data@.len(),
                Err(e) => dec_map(data@, pos as int) == Parsed::<MapV>::Fail(e),
            }),
        decreases data@.len() - pos, 1int, 0int,
    {
        let (ktag, p1) = match get_u8(data, pos) {
            Ok(x) => x,
            Err(e) => {
                return Err(e);
            },
        };
        let kk = match BinValueType::unpack(ktag) {
            Ok(k) => k,
            Err(e) => {
                return Err(e);
            },
        };
        let (vtag, p2) = match get_u8(data, p1) {
            Ok(x) => x,
            Err(e) => {
                return Err(e);
            },
        };
        let vk = match BinValueType::unpack(vtag) {
            Ok(k) => k,
            Err(e) => {
                return Err(e);
            },
        };
        if !kk.is_hashable() {
            return Err(BinError::UnsupportedMapKey);
        }
        let (_size, p3) = match get_u32(data, p2) {
            Ok(x) => x,
            Err(e) => {
                return Err(e);
            },
        };
        let (count, p4) = match get_u32(data, p3) {
            Ok(x) => x,
            Err(e) => {
                return Err(e);
            },
        };
        let mut entries: Vec<(BinValue, BinValue)> = Vec::new();
        let ghost mut raw: Seq<(Node, Node)> = Seq::empty();
        let mut cur: usize = p4;
        let mut i: u32 = 0;
        proof {
            assert(view_pairs(entries) =~= Seq::<(Node, Node)>::empty());
            assert(build_map(raw) =~= Seq::<(Node, Node)>::empty());
            lemma_prepend_empty(dec_pair_list(data@, p4 as int, kk, vk, count as int));
        }
        while i < count
            invariant
                0 <= i <= count,
                p4 <= cur <= data@.len(),
                view_pairs(entries) == build_map(raw),
                dec_pair_list(data@, p4 as int, kk, vk, count as int) == prepend_parsed(
                    raw,
                    dec_pair_list(data@, cur as int, kk, vk, (count - i) as int),
                ),
            decreases count - i,
        {
            let (kvv, pk) = match BinValue::read_value(0, kk, data, cur) {
                Ok(x) => x,
                Err(e) => {
                    proof {
                        assert(dec_pair_list(data@, cur as int, kk, vk, (count - i) as int)
                            == Parsed::<Seq<(Node, Node)>>::Fail(e));
                    }
                    return Err(e);
                },
            };
            let (vvv, pv) = match BinValue::read_value(0, vk, data, pk) {
                Ok(x) => x,
                Err(e) => {
                    proof {
                        assert(dec_pair_list(data@, cur as int, kk, vk, (count - i) as int)
                            == Parsed::<Seq<(Node, Node)>>::Fail(e));
                    }
                    return Err(e);
                },
            };
            proof {
                let rest = dec_pair_list(data@, pv as int, kk, vk, (count - i) as int - 1);
                assert(dec_pair_list(data@, cur as int, kk, vk, (count - i) as int)
                    == prepend_parsed(seq![(kvv@, vvv@)], rest)) by {
                    match rest {
                        Parsed::Found(_, _) => {},
                        Parsed::Fail(_) => {},
                    }
                }
                lemma_prepend_assoc(raw, seq![(kvv@, vvv@)], rest);
            }
            let ghost raw_pre = raw;
            proof {
                raw = raw.push((kvv@, vvv@));
                assert(raw_pre + seq![(kvv@, vvv@)] =~= raw);
                assert(raw.drop_last() =~= raw_pre);
            }
            insert_pair(&mut entries, kvv, vvv);
            cur = pv;
            i = i + 1;
        }
        proof {
            assert(dec_pair_list(data@, cur as int, kk, vk, 0) == Parsed::<
                Seq<(Node, Node)>,
            >::Found(Seq::empty(), cur as int));
            assert(raw + Seq::<(Node, Node)>::empty() =~= raw);
        }
        Ok((BinMap { key_type: kk, value_type: vk, map: entries }, cur))
    }
}

} // verus!
