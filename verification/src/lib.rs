//! Codec for the "PROP" property-bag file format: a self-describing,
//! recursive, tagged-union binary serialization of typed property trees,
//! together with the release-manifest reader that shares its primitive
//! byte-level encoding.
pub mod bytes;
pub mod color_rgba;
pub mod decode;
pub mod environment;
pub mod encode;
pub mod keys;
pub mod laws;
pub mod manifest;
pub mod parse;
pub mod sound;
pub mod tag;
pub mod tree;
pub mod validate;
pub mod value;
pub mod version;
pub mod wire;
