//! The release-manifest reader: a fixed-layout, offset-linked binary format
//! whose body travels zstd-compressed behind a small header. The body's
//! layout is stated as a spec parser over the inflated bytes, and every
//! executable reader is proved to return exactly what that parser denotes;
//! the decompression itself is the one outside call, taken on trust and
//! named.
//!
//! Decoding failures reuse the codec's error taxonomy: a bad signature or
//! version, an offset outside the stream, or a body that does not inflate
//! report `FormatError`; a short read reports `TruncatedInput`; name
//! strings that are not UTF-8 report `InvalidUtf8`.
use vstd::prelude::*;
use vstd::bytes::{spec_u32_from_le_bytes, spec_u64_from_le_bytes};
use vstd::utf8::{valid_utf8, decode_utf8};
use crate::tag::BinError;
use crate::bytes::{
    Parsed, rd_u16, rd_u32, rd_u64, rd_bytes, get_u8, get_u16, get_u32, get_u64, get_bytes,
};
use crate::parse::{prepend_parsed, lemma_prepend_assoc, lemma_prepend_empty};

verus! {

/// The parsed manifest: its release identifier and its four tables.
#[derive(PartialEq, Debug)]
pub struct ReleaseManifest {
    pub release_id: u64,
    pub bundles: Vec<ReleaseManifestBundle>,
    pub languages: Vec<ReleaseManifestLanguage>,
    pub files: Vec<ReleaseManifestFile>,
    pub directories: Vec<ReleaseManifestDirectory>,
}

/// A bundle: its identifier and its chunks.
#[derive(PartialEq, Debug)]
pub struct ReleaseManifestBundle {
    pub id: u64,
    pub chunks: Vec<ReleaseManifestBundleChunk>,
}

/// One chunk of a bundle.
#[derive(PartialEq, Debug)]
pub struct ReleaseManifestBundleChunk {
    pub compressed_size: u32,
    pub uncompressed_size: u32,
    pub id: u64,
}

/// A language entry.
#[derive(PartialEq, Debug)]
pub struct ReleaseManifestLanguage {
    pub id: u32,
    pub name: String,
}

/// A file entry.
#[derive(PartialEq, Debug)]
pub struct ReleaseManifestFile {
    pub name: String,
    pub link: String,
    pub id: u64,
    pub directory_id: u64,
    pub size: u32,
    pub language_ids: Vec<u32>,
    pub chunk_ids: Vec<u64>,
}

/// A directory entry.
#[derive(PartialEq, Debug)]
pub struct ReleaseManifestDirectory {
    pub name: String,
    pub id: u64,
    pub parent_id: u64,
}

/// Mathematical model of a chunk record.
#[verifier::ext_equal]
pub ghost struct ChunkV {
    pub compressed_size: u32,
    pub uncompressed_size: u32,
    pub id: u64,
}

/// Mathematical model of a bundle record.
#[verifier::ext_equal]
pub ghost struct BundleV {
    pub id: u64,
    pub chunks: Seq<ChunkV>,
}

/// Mathematical model of a language record.
#[verifier::ext_equal]
pub ghost struct LanguageV {
    pub id: u32,
    pub name: Seq<char>,
}

/// Mathematical model of a file record.
#[verifier::ext_equal]
pub ghost struct FileV {
    pub name: Seq<char>,
    pub link: Seq<char>,
    pub id: u64,
    pub directory_id: u64,
    pub size: u32,
    pub language_ids: Seq<u32>,
    pub chunk_ids: Seq<u64>,
}

/// Mathematical model of a directory record.
#[verifier::ext_equal]
pub ghost struct DirectoryV {
    pub name: Seq<char>,
    pub id: u64,
    pub parent_id: u64,
}

/// Mathematical model of the whole inflated body: the four tables.
#[verifier::ext_equal]
pub ghost struct BodyV {
    pub bundles: Seq<BundleV>,
    pub languages: Seq<LanguageV>,
    pub files: Seq<FileV>,
    pub directories: Seq<DirectoryV>,
}

/// The model of a chunk.
pub open spec fn view_chunk(c: ReleaseManifestBundleChunk) -> ChunkV {
    ChunkV {
        compressed_size: c.compressed_size,
        uncompressed_size: c.uncompressed_size,
        id: c.id,
    }
}

/// The models of a chunk vector, in order.
pub open spec fn view_chunks(v: Vec<ReleaseManifestBundleChunk>) -> Seq<ChunkV> {
    Seq::new(v.len() as nat, |i: int| view_chunk(v[i]))
}

/// The model of a bundle.
pub open spec fn view_bundle(b: ReleaseManifestBundle) -> BundleV {
    BundleV { id: b.id, chunks: view_chunks(b.chunks) }
}

/// The models of a bundle vector, in order.
pub open spec fn view_bundles(v: Vec<ReleaseManifestBundle>) -> Seq<BundleV> {
    Seq::new(v.len() as nat, |i: int| view_bundle(v[i]))
}

/// The model of a language.
pub open spec fn view_language(l: ReleaseManifestLanguage) -> LanguageV {
    LanguageV { id: l.id, name: l.name@ }
}

/// The models of a language vector, in order.
pub open spec fn view_languages(v: Vec<ReleaseManifestLanguage>) -> Seq<LanguageV> {
    Seq::new(v.len() as nat, |i: int| view_language(v[i]))
}

/// The model of a file.
pub open spec fn view_file(f: ReleaseManifestFile) -> FileV {
    FileV {
        name: f.name@,
        link: f.link@,
        id: f.id,
        directory_id: f.directory_id,
        size: f.size,
        language_ids: f.language_ids@,
        chunk_ids: f.chunk_ids@,
    }
}

/// The models of a file vector, in order.
pub open spec fn view_files(v: Vec<ReleaseManifestFile>) -> Seq<FileV> {
    Seq::new(v.len() as nat, |i: int| view_file(v[i]))
}

/// The model of a directory.
pub open spec fn view_directory(d: ReleaseManifestDirectory) -> DirectoryV {
    DirectoryV { name: d.name@, id: d.id, parent_id: d.parent_id }
}

/// The models of a directory vector, in order.
pub open spec fn view_directories(v: Vec<ReleaseManifestDirectory>) -> Seq<DirectoryV> {
    Seq::new(v.len() as nat, |i: int| view_directory(v[i]))
}

/// What the zstd stream inflates to: a function of the compressed bytes
/// alone.
pub uninterp spec fn zstd_inflate_of(compressed: Seq<u8>) -> Seq<u8>;

/// Relies on `zstd::stream::decode_all`: decompression is deterministic in
/// the compressed bytes, and fails exactly when they are not a well-formed
/// frame.
#[verifier::external_body]
fn zstd_decompress(src: &[u8]) -> (r: Option<Vec<u8>>)
    ensures
        (r matches Some(v) ==> v@ == zstd_inflate_of(src@)),
{
    match zstd::stream::decode_all(src) {
        Ok(v) => Some(v),
        Err(_) => None,
    }
}

/// Relies on `String::from_utf8`: it accepts exactly valid UTF-8 and the
/// accepted string holds those very bytes, so its characters are their
/// decoding.
#[verifier::external_body]
fn bytes_to_string(bytes: Vec<u8>) -> (r: Option<String>)
    ensures
        r is Some <==> valid_utf8(bytes@),
        (r matches Some(s) ==> s@ == decode_utf8(bytes@)),
{
    match String::from_utf8(bytes) {
        Ok(s) => Some(s),
        Err(_) => None,
    }
}

/// A length-prefixed string: 32-bit byte length, then that many UTF-8
/// bytes, decoded to characters.
pub open spec fn dec_sized_string(s: Seq<u8>, pos: int) -> Parsed<Seq<char>> {
    match rd_u32(s, pos) {
        Parsed::Found(len, p1) => match rd_bytes(s, p1, len as int) {
            Parsed::Found(bytes, end) => if valid_utf8(bytes) {
                Parsed::Found(decode_utf8(bytes), end)
            } else {
                Parsed::Fail(BinError::InvalidUtf8)
            },
            Parsed::Fail(e) => Parsed::Fail(e),
        },
        Parsed::Fail(e) => Parsed::Fail(e),
    }
}

/// Reads a length-prefixed string, as `dec_sized_string` describes.
fn read_sized_string(data: &[u8], pos: usize) -> (r: Result<(String, usize), BinError>)
    ensures
        (match r {
            Ok((st, end)) => dec_sized_string(data@, pos as int) == Parsed::Found(
                st@,
                end as int,
            ) && pos <= end <= data@.len(),
            Err(e) => dec_sized_string(data@, pos as int) == Parsed::<Seq<char>>::Fail(e),
        }),
{
    let (len, p1) = match get_u32(data, pos) {
        Ok(x) => x,
        Err(e) => {
            return Err(e);
        },
    };
    let (bytes, end) = match get_bytes(data, p1, len as usize) {
        Ok(x) => x,
        Err(e) => {
            return Err(e);
        },
    };
    match bytes_to_string(bytes) {
        Some(st) => Ok((st, end)),
        None => Err(BinError::InvalidUtf8),
    }
}

/// A base position plus an offset, admitted only inside the stream.
pub open spec fn cp(s: Seq<u8>, base: int, off: int) -> Parsed<int> {
    if 0 <= base && 0 <= off && base + off <= s.len() {
        Parsed::Found(base + off, base + off)
    } else {
        Parsed::Fail(BinError::TruncatedInput)
    }
}

/// Adds an offset to a base position, as `cp` describes.
fn checked_pos(data: &[u8], base: usize, off: u64) -> (r: Result<usize, BinError>)
    ensures
        (match r {
            Ok(p) => cp(data@, base as int, off as int) == Parsed::Found(p as int, p as int) && p
                <= data@.len(),
            Err(e) => cp(data@, base as int, off as int) == Parsed::<int>::Fail(e),
        }),
{
    let n = data.len() as u64;
    let b = base as u64;
    if off <= u64::MAX - b {
        let pos = b + off;
        if pos <= n {
            proof {
                assert(pos as int == base + off);
                assert(pos <= data@.len());
                assert((pos as usize) as int == pos as int);
                assert(cp(data@, base as int, off as int) == Parsed::<int>::Found(
                    base + off,
                    base + off,
                ));
            }
            Ok(pos as usize)
        } else {
            Err(BinError::TruncatedInput)
        }
    } else {
        Err(BinError::TruncatedInput)
    }
}

/// One chunk record: a skipped offset-table word, both sizes, and the
/// identifier.
pub open spec fn dec_chunk(s: Seq<u8>, pos: int) -> Parsed<ChunkV> {
    match rd_u32(s, pos) {
        Parsed::Found(_skip, p1) => match rd_u32(s, p1) {
            Parsed::Found(compressed_size, p2) => match rd_u32(s, p2) {
                Parsed::Found(uncompressed_size, p3) => match rd_u64(s, p3) {
                    Parsed::Found(id, end) => Parsed::Found(
                        (ChunkV { compressed_size, uncompressed_size, id }),
                        end,
                    ),
                    Parsed::Fail(e) => Parsed::Fail(e),
                },
                Parsed::Fail(e) => Parsed::Fail(e),
            },
            Parsed::Fail(e) => Parsed::Fail(e),
        },
        Parsed::Fail(e) => Parsed::Fail(e),
    }
}

/// `n` chunk records, each behind a 32-bit offset relative to the position
/// just before it.
pub open spec fn dec_chunk_walk(s: Seq<u8>, cur: int, n: int) -> Parsed<Seq<ChunkV>>
    decreases n,
{
    if n <= 0 {
        Parsed::Found(Seq::empty(), cur)
    } else {
        match rd_u32(s, cur) {
            Parsed::Found(off, ret) => match cp(s, cur, off as int) {
                Parsed::Found(item, _) => match dec_chunk(s, item) {
                    Parsed::Found(c, _) => prepend_parsed(seq![c], dec_chunk_walk(s, ret, n - 1)),
                    Parsed::Fail(e) => Parsed::Fail(e),
                },
                Parsed::Fail(e) => Parsed::Fail(e),
            },
            Parsed::Fail(e) => Parsed::Fail(e),
        }
    }
}

/// One bundle record: a header whose declared size is skipped, then the
/// chunk table.
pub open spec fn dec_bundle(s: Seq<u8>, pos: int) -> Parsed<BundleV> {
    match rd_u32(s, pos) {
        Parsed::Found(_skip, p1) => match rd_u32(s, p1) {
            Parsed::Found(header_size, p2) => match rd_u64(s, p2) {
                Parsed::Found(id, p3) => if header_size < 12 {
                    Parsed::Fail(BinError::FormatError)
                } else {
                    match cp(s, p3, header_size - 12) {
                        Parsed::Found(table, _) => match rd_u32(s, table) {
                            Parsed::Found(count, start) => match dec_chunk_walk(
                                s,
                                start,
                                count as int,
                            ) {
                                Parsed::Found(chunks, end) => Parsed::Found(
                                    (BundleV { id, chunks }),
                                    end,
                                ),
                                Parsed::Fail(e) => Parsed::Fail(e),
                            },
                            Parsed::Fail(e) => Parsed::Fail(e),
                        },
                        Parsed::Fail(e) => Parsed::Fail(e),
                    }
                },
                Parsed::Fail(e) => Parsed::Fail(e),
            },
            Parsed::Fail(e) => Parsed::Fail(e),
        },
        Parsed::Fail(e) => Parsed::Fail(e),
    }
}

/// One language record: a skipped offset-table word, the identifier, and
/// the name behind its relative offset.
pub open spec fn dec_language(s: Seq<u8>, pos: int) -> Parsed<LanguageV> {
    match rd_u32(s, pos) {
        Parsed::Found(_skip, p1) => match rd_u32(s, p1) {
            Parsed::Found(id, p2) => match rd_u32(s, p2) {
                Parsed::Found(name_off, _ret) => match cp(s, p2, name_off as int) {
                    Parsed::Found(np, _) => match dec_sized_string(s, np) {
                        Parsed::Found(name, end) => Parsed::Found((LanguageV { id, name }), end),
                        Parsed::Fail(e) => Parsed::Fail(e),
                    },
                    Parsed::Fail(e) => Parsed::Fail(e),
                },
                Parsed::Fail(e) => Parsed::Fail(e),
            },
            Parsed::Fail(e) => Parsed::Fail(e),
        },
        Parsed::Fail(e) => Parsed::Fail(e),
    }
}

/// The language identifiers a 64-bit mask names, from bit `bit` upward.
pub open spec fn mask_ids_from(mask: u64, bit: int) -> Seq<u32>
    decreases 64 - bit,
{
    if bit < 0 || bit >= 64 {
        Seq::empty()
    } else if (mask >> (bit as u64)) & 1 != 0 {
        seq![bit as u32] + mask_ids_from(mask, bit + 1)
    } else {
        mask_ids_from(mask, bit + 1)
    }
}

/// `n` 64-bit identifiers, back to back.
pub open spec fn dec_u64_walk(s: Seq<u8>, cur: int, n: int) -> Parsed<Seq<u64>>
    decreases n,
{
    if n <= 0 {
        Parsed::Found(Seq::empty(), cur)
    } else {
        match rd_u64(s, cur) {
            Parsed::Found(v, p1) => prepend_parsed(seq![v], dec_u64_walk(s, p1, n - 1)),
            Parsed::Fail(e) => Parsed::Fail(e),
        }
    }
}

/// One file record: its flag-dependent name offset, its structure-size-
/// dependent optional fields, its language mask, its chunk identifiers,
/// and its name and link strings behind relative offsets.
pub open spec fn dec_file(s: Seq<u8>, pos: int) -> Parsed<FileV> {
    match rd_u32(s, pos) {
        Parsed::Found(_skip, file_offset) => match rd_u32(s, file_offset) {
            Parsed::Found(flags, q1) => {
                let header: Parsed<(int, int)> = if flags == 0x00010200 || flags >> 24 != 0 {
                    match rd_u32(s, q1) {
                        Parsed::Found(v, q2) => Parsed::Found((v as int, q2), q2),
                        Parsed::Fail(e) => Parsed::Fail(e),
                    }
                } else if flags < 4 {
                    Parsed::Fail(BinError::FormatError)
                } else {
                    Parsed::Found(((flags - 4) as int, q1), q1)
                };
                match header {
                    Parsed::Found((name_off, cur), _) => dec_file_tail(
                        s,
                        file_offset,
                        name_off,
                        cur,
                    ),
                    Parsed::Fail(e) => Parsed::Fail(e),
                }
            },
            Parsed::Fail(e) => Parsed::Fail(e),
        },
        Parsed::Fail(e) => Parsed::Fail(e),
    }
}

/// The rest of a file record, after its flags and name offset.
pub open spec fn dec_file_tail(s: Seq<u8>, file_offset: int, name_off: int, cur: int) -> Parsed<
    FileV,
> {
    match rd_u32(s, cur) {
        Parsed::Found(structure_size, q3) => match rd_u32(s, q3) {
            Parsed::Found(link_off, q4) => match rd_u64(s, q4) {
                Parsed::Found(id, q5) => {
                    let dir: Parsed<(u64, int)> = if structure_size > 28 {
                        match rd_u64(s, q5) {
                            Parsed::Found(v, q6) => Parsed::Found((v, q6), q6),
                            Parsed::Fail(e) => Parsed::Fail(e),
                        }
                    } else {
                        Parsed::Found((0u64, q5), q5)
                    };
                    match dir {
                        Parsed::Found((directory_id, cur2), _) => match rd_u32(s, cur2) {
                            Parsed::Found(size, q7) => match rd_u32(s, q7) {
                                Parsed::Found(_permissions, q8) => {
                                    let langs: Parsed<(Seq<u32>, int)> = if structure_size > 36 {
                                        match rd_u64(s, q8) {
                                            Parsed::Found(mask, q9) => Parsed::Found(
                                                (mask_ids_from(mask, 0), q9),
                                                q9,
                                            ),
                                            Parsed::Fail(e) => Parsed::Fail(e),
                                        }
                                    } else {
                                        Parsed::Found((Seq::empty(), q8), q8)
                                    };
                                    match langs {
                                        Parsed::Found((language_ids, cur3), _) => dec_file_end(
                                            s,
                                            file_offset,
                                            name_off,
                                            id,
                                            directory_id,
                                            size,
                                            language_ids,
                                            link_off as int,
                                            cur3,
                                        ),
                                        Parsed::Fail(e) => Parsed::Fail(e),
                                    }
                                },
                                Parsed::Fail(e) => Parsed::Fail(e),
                            },
                            Parsed::Fail(e) => Parsed::Fail(e),
                        },
                        Parsed::Fail(e) => Parsed::Fail(e),
                    }
                },
                Parsed::Fail(e) => Parsed::Fail(e),
            },
            Parsed::Fail(e) => Parsed::Fail(e),
        },
        Parsed::Fail(e) => Parsed::Fail(e),
    }
}

/// The end of a file record: the chunk identifiers and the two strings.
pub open spec fn dec_file_end(
    s: Seq<u8>,
    file_offset: int,
    name_off: int,
    id: u64,
    directory_id: u64,
    size: u32,
    language_ids: Seq<u32>,
    link_off: int,
    cur: int,
) -> Parsed<FileV> {
    match rd_u32(s, cur) {
        Parsed::Found(_unknown, q10) => match rd_u32(s, q10) {
            Parsed::Found(chunk_count, q11) => match dec_u64_walk(s, q11, chunk_count as int) {
                Parsed::Found(chunk_ids, _) => match cp(s, file_offset, name_off + 4) {
                    Parsed::Found(np, _) => match dec_sized_string(s, np) {
                        Parsed::Found(name, _) => match cp(s, file_offset, link_off + 12) {
                            Parsed::Found(lp, _) => match dec_sized_string(s, lp) {
                                Parsed::Found(link, end) => Parsed::Found(
                                    (FileV {
                                        name,
                                        link,
                                        id,
                                        directory_id,
                                        size,
                                        language_ids,
                                        chunk_ids,
                                    }),
                                    end,
                                ),
                                Parsed::Fail(e) => Parsed::Fail(e),
                            },
                            Parsed::Fail(e) => Parsed::Fail(e),
                        },
                        Parsed::Fail(e) => Parsed::Fail(e),
                    },
                    Parsed::Fail(e) => Parsed::Fail(e),
                },
                Parsed::Fail(e) => Parsed::Fail(e),
            },
            Parsed::Fail(e) => Parsed::Fail(e),
        },
        Parsed::Fail(e) => Parsed::Fail(e),
    }
}

/// One directory record: its offset-table word locates two field offsets
/// behind the record, then the name offset, the identifiers and the name.
pub open spec fn dec_directory(s: Seq<u8>, pos: int) -> Parsed<DirectoryV> {
    match rd_u32(s, pos) {
        Parsed::Found(off_table, dir_off) => if off_table > dir_off {
            Parsed::Fail(BinError::FormatError)
        } else {
            match rd_u16(s, dir_off - off_table) {
                Parsed::Found(_id_off, t1) => match rd_u16(s, t1) {
                    Parsed::Found(parent_id_off, _t2) => match rd_u32(s, dir_off) {
                        Parsed::Found(name_off, d1) => match rd_u64(s, d1) {
                            Parsed::Found(id, d2) => {
                                let parent: Parsed<u64> = if parent_id_off > 0 {
                                    match rd_u64(s, d2) {
                                        Parsed::Found(v, d3) => Parsed::Found(v, d3),
                                        Parsed::Fail(e) => Parsed::Fail(e),
                                    }
                                } else {
                                    Parsed::Found(0u64, d2)
                                };
                                match parent {
                                    Parsed::Found(parent_id, _) => match cp(
                                        s,
                                        dir_off,
                                        name_off as int,
                                    ) {
                                        Parsed::Found(np, _) => match dec_sized_string(s, np) {
                                            Parsed::Found(name, end) => Parsed::Found(
                                                (DirectoryV { name, id, parent_id }),
                                                end,
                                            ),
                                            Parsed::Fail(e) => Parsed::Fail(e),
                                        },
                                        Parsed::Fail(e) => Parsed::Fail(e),
                                    },
                                    Parsed::Fail(e) => Parsed::Fail(e),
                                }
                            },
                            Parsed::Fail(e) => Parsed::Fail(e),
                        },
                        Parsed::Fail(e) => Parsed::Fail(e),
                    },
                    Parsed::Fail(e) => Parsed::Fail(e),
                },
                Parsed::Fail(e) => Parsed::Fail(e),
            }
        },
        Parsed::Fail(e) => Parsed::Fail(e),
    }
}

/// `n` record positions, each a 32-bit offset relative to the position just
/// before it.
pub open spec fn dec_offset_walk(s: Seq<u8>, cur: int, n: int) -> Parsed<Seq<int>>
    decreases n,
{
    if n <= 0 {
        Parsed::Found(Seq::empty(), cur)
    } else {
        match rd_u32(s, cur) {
            Parsed::Found(off, ret) => match cp(s, cur, off as int) {
                Parsed::Found(item, _) => prepend_parsed(
                    seq![item],
                    dec_offset_walk(s, ret, n - 1),
                ),
                Parsed::Fail(e) => Parsed::Fail(e),
            },
            Parsed::Fail(e) => Parsed::Fail(e),
        }
    }
}

/// One body table: a count, then that many record positions.
pub open spec fn dec_table_offsets(s: Seq<u8>, offset: int) -> Parsed<Seq<int>> {
    match rd_u32(s, offset) {
        Parsed::Found(count, start) => dec_offset_walk(s, start, count as int),
        Parsed::Fail(e) => Parsed::Fail(e),
    }
}

/// The bundle records at the given positions, from position `i` on.
pub open spec fn dec_bundles_at(s: Seq<u8>, ps: Seq<int>, i: int) -> Parsed<Seq<BundleV>>
    decreases ps.len() - i,
{
    if i < 0 || i >= ps.len() {
        Parsed::Found(Seq::empty(), 0)
    } else {
        match dec_bundle(s, ps[i]) {
            Parsed::Found(b, _) => prepend_parsed(seq![b], dec_bundles_at(s, ps, i + 1)),
            Parsed::Fail(e) => Parsed::Fail(e),
        }
    }
}

/// The language records at the given positions, from position `i` on.
pub open spec fn dec_languages_at(s: Seq<u8>, ps: Seq<int>, i: int) -> Parsed<Seq<LanguageV>>
    decreases ps.len() - i,
{
    if i < 0 || i >= ps.len() {
        Parsed::Found(Seq::empty(), 0)
    } else {
        match dec_language(s, ps[i]) {
            Parsed::Found(l, _) => prepend_parsed(seq![l], dec_languages_at(s, ps, i + 1)),
            Parsed::Fail(e) => Parsed::Fail(e),
        }
    }
}

/// The file records at the given positions, from position `i` on.
pub open spec fn dec_files_at(s: Seq<u8>, ps: Seq<int>, i: int) -> Parsed<Seq<FileV>>
    decreases ps.len() - i,
{
    if i < 0 || i >= ps.len() {
        Parsed::Found(Seq::empty(), 0)
    } else {
        match dec_file(s, ps[i]) {
            Parsed::Found(f, _) => prepend_parsed(seq![f], dec_files_at(s, ps, i + 1)),
            Parsed::Fail(e) => Parsed::Fail(e),
        }
    }
}

/// The directory records at the given positions, from position `i` on.
pub open spec fn dec_directories_at(s: Seq<u8>, ps: Seq<int>, i: int) -> Parsed<Seq<DirectoryV>>
    decreases ps.len() - i,
{
    if i < 0 || i >= ps.len() {
        Parsed::Found(Seq::empty(), 0)
    } else {
        match dec_directory(s, ps[i]) {
            Parsed::Found(d, _) => prepend_parsed(seq![d], dec_directories_at(s, ps, i + 1)),
            Parsed::Fail(e) => Parsed::Fail(e),
        }
    }
}

/// The whole inflated body: a header of relative table offsets, then the
/// bundle, language, file and directory tables in that order.
pub open spec fn dec_manifest_body(s: Seq<u8>) -> Parsed<BodyV> {
    match rd_u32(s, 0) {
        Parsed::Found(header_offset, _) => match cp(s, 0, header_offset as int) {
            Parsed::Found(hp, _) => match rd_u32(s, hp) {
                Parsed::Found(_offset_table, h1) => match rd_u32(s, h1) {
                    Parsed::Found(b_rel, h2) => match cp(s, h1, b_rel as int) {
                        Parsed::Found(bo, _) => match rd_u32(s, h2) {
                            Parsed::Found(l_rel, h3) => match cp(s, h2, l_rel as int) {
                                Parsed::Found(lo, _) => match rd_u32(s, h3) {
                                    Parsed::Found(f_rel, h4) => match cp(s, h3, f_rel as int) {
                                        Parsed::Found(fo, _) => match rd_u32(s, h4) {
                                            Parsed::Found(d_rel, _h5) => match cp(
                                                s,
                                                h4,
                                                d_rel as int,
                                            ) {
                                                Parsed::Found(dpos, _) => dec_manifest_tables(
                                                    s,
                                                    bo,
                                                    lo,
                                                    fo,
                                                    dpos,
                                                ),
                                                Parsed::Fail(e) => Parsed::Fail(e),
                                            },
                                            Parsed::Fail(e) => Parsed::Fail(e),
                                        },
                                        Parsed::Fail(e) => Parsed::Fail(e),
                                    },
                                    Parsed::Fail(e) => Parsed::Fail(e),
                                },
                                Parsed::Fail(e) => Parsed::Fail(e),
                            },
                            Parsed::Fail(e) => Parsed::Fail(e),
                        },
                        Parsed::Fail(e) => Parsed::Fail(e),
                    },
                    Parsed::Fail(e) => Parsed::Fail(e),
                },
                Parsed::Fail(e) => Parsed::Fail(e),
            },
            Parsed::Fail(e) => Parsed::Fail(e),
        },
        Parsed::Fail(e) => Parsed::Fail(e),
    }
}

/// The four body tables, at their resolved positions.
pub open spec fn dec_manifest_tables(s: Seq<u8>, bo: int, lo: int, fo: int, dpos: int) -> Parsed<
    BodyV,
> {
    match dec_table_offsets(s, bo) {
        Parsed::Found(bps, _) => match dec_bundles_at(s, bps, 0) {
            Parsed::Found(bundles, _) => match dec_table_offsets(s, lo) {
                Parsed::Found(lps, _) => match dec_languages_at(s, lps, 0) {
                    Parsed::Found(languages, _) => match dec_table_offsets(s, fo) {
                        Parsed::Found(fps, _) => match dec_files_at(s, fps, 0) {
                            Parsed::Found(files, _) => match dec_table_offsets(s, dpos) {
                                Parsed::Found(dps, _) => match dec_directories_at(s, dps, 0) {
                                    Parsed::Found(directories, _) => Parsed::Found(
                                        (BodyV { bundles, languages, files, directories }),
                                        0,
                                    ),
                                    Parsed::Fail(e) => Parsed::Fail(e),
                                },
                                Parsed::Fail(e) => Parsed::Fail(e),
                            },
                            Parsed::Fail(e) => Parsed::Fail(e),
                        },
                        Parsed::Fail(e) => Parsed::Fail(e),
                    },
                    Parsed::Fail(e) => Parsed::Fail(e),
                },
                Parsed::Fail(e) => Parsed::Fail(e),
            },
            Parsed::Fail(e) => Parsed::Fail(e),
        },
        Parsed::Fail(e) => Parsed::Fail(e),
    }
}

/// The head of a manifest stream as every accepted stream carries it: the
/// "RMAN" signature and version 2.0, inside a header of at least 28 bytes.
pub open spec fn manifest_header_ok(s: Seq<u8>) -> bool {
    &&& s.len() >= 28
    &&& s.subrange(0, 4) == seq![82u8, 77u8, 65u8, 78u8]
    &&& s[4] == 2
    &&& s[5] == 0
}

/// The zstd-compressed content window the header of a manifest stream
/// declares.
pub open spec fn manifest_window(s: Seq<u8>) -> Seq<u8> {
    let co = spec_u32_from_le_bytes(s.subrange(8, 12)) as int;
    let cs = spec_u32_from_le_bytes(s.subrange(12, 16)) as int;
    s.subrange(co, co + cs)
}

/// Whether a manifest stream's declared content window lies inside it.
pub open spec fn manifest_window_ok(s: Seq<u8>) -> bool {
    spec_u32_from_le_bytes(s.subrange(8, 12)) + spec_u32_from_le_bytes(s.subrange(12, 16))
        <= s.len()
}


/// The record positions of a table, as stream indexes.
pub open spec fn view_positions(v: Vec<usize>) -> Seq<int> {
    Seq::new(v.len() as nat, |i: int| v[i] as int)
}

impl ReleaseManifestBundleChunk {
    /// The chunk identifier.
    pub fn id(&self) -> (r: u64)
        ensures
            r == self.id,
    {
        self.id
    }

    /// The chunk's compressed byte size.
    pub fn compressed_size(&self) -> (r: u32)
        ensures
            r == self.compressed_size,
    {
        self.compressed_size
    }

    /// The chunk's uncompressed byte size.
    pub fn uncompressed_size(&self) -> (r: u32)
        ensures
            r == self.uncompressed_size,
    {
        self.uncompressed_size
    }

    /// Reads one chunk record, as `dec_chunk` describes.
    fn read(data: &[u8], pos: usize) -> (r: Result<ReleaseManifestBundleChunk, BinError>)
        ensures
            (match r {
                Ok(c) => dec_chunk(data@, pos as int) matches Parsed::Found(cv, _) && cv
                    == view_chunk(c),
                Err(e) => dec_chunk(data@, pos as int) == Parsed::<ChunkV>::Fail(e),
            }),
    {
        let (_, p1) = match get_u32(data, pos) {
            Ok(x) => x,
            Err(e) => {
                return Err(e);
            },
        };
        let (compressed_size, p2) = match get_u32(data, p1) {
            Ok(x) => x,
            Err(e) => {
                return Err(e);
            },
        };
        let (uncompressed_size, p3) = match get_u32(data, p2) {
            Ok(x) => x,
            Err(e) => {
                return Err(e);
            },
        };
        let (id, _p4) = match get_u64(data, p3) {
            Ok(x) => x,
            Err(e) => {
                return Err(e);
            },
        };
        Ok(ReleaseManifestBundleChunk { compressed_size, uncompressed_size, id })
    }
}

impl ReleaseManifestBundle {
    /// The bundle identifier.
    pub fn id(&self) -> (r: u64)
        ensures
            r == self.id,
    {
        self.id
    }

    /// The bundle's chunks, in table order.
    pub fn chunks(&self) -> (r: &Vec<ReleaseManifestBundleChunk>)
        ensures
            view_chunks(*r) == view_bundle(*self).chunks,
    {
        &self.chunks
    }

    /// Reads one bundle record, as `dec_bundle` describes.
    #[verifier::loop_isolation(false)]
    fn read(data: &[u8], pos: usize) -> (r: Result<ReleaseManifestBundle, BinError>)
        ensures
            (match r {
                Ok(b) => dec_bundle(data@, pos as int) matches Parsed::Found(bv, _) && bv
                    == view_bundle(b),
                Err(e) => dec_bundle(data@, pos as int) == Parsed::<BundleV>::Fail(e),
            }),
    {
        let (_, p1) = match get_u32(data, pos) {
            Ok(x) => x,
            Err(e) => {
                return Err(e);
            },
        };
        let (header_size, p2) = match get_u32(data, p1) {
            Ok(x) => x,
            Err(e) => {
                return Err(e);
            },
        };
        let (id, p3) = match get_u64(data, p2) {
            Ok(x) => x,
            Err(e) => {
                return Err(e);
            },
        };
        if header_size < 12 {
            return Err(BinError::FormatError);
        }
        let table = match checked_pos(data, p3, (header_size - 12) as u64) {
            Ok(x) => x,
            Err(e) => {
                return Err(e);
            },
        };
        let (chunk_count, start) = match get_u32(data, table) {
            Ok(x) => x,
            Err(e) => {
                return Err(e);
            },
        };
        let mut chunks: Vec<ReleaseManifestBundleChunk> = Vec::new();
        let mut cur: usize = start;
        let mut i: u32 = 0;
        proof {
            assert(view_chunks(chunks) =~= Seq::<ChunkV>::empty());
            lemma_prepend_empty(dec_chunk_walk(data@, start as int, chunk_count as int));
        }
        while i < chunk_count
            invariant
                0 <= i <= chunk_count,
                cur <= data@.len(),
                dec_chunk_walk(data@, start as int, chunk_count as int) == prepend_parsed(
                    view_chunks(chunks),
                    dec_chunk_walk(data@, cur as int, (chunk_count - i) as int),
                ),
            decreases chunk_count - i,
        {
            let (chunk_offset, ret) = match get_u32(data, cur) {
                Ok(x) => x,
                Err(e) => {
                    return Err(e);
                },
            };
            let item = match checked_pos(data, cur, chunk_offset as u64) {
                Ok(x) => x,
                Err(e) => {
                    return Err(e);
                },
            };
            let chunk = match ReleaseManifestBundleChunk::read(data, item) {
                Ok(x) => x,
                Err(e) => {
                    return Err(e);
                },
            };
            proof {
                let rest = dec_chunk_walk(data@, ret as int, (chunk_count - i) as int - 1);
                lemma_prepend_assoc(view_chunks(chunks), seq![view_chunk(chunk)], rest);
            }
            let ghost pre = chunks;
            chunks.push(chunk);
            proof {
                assert(view_chunks(chunks) =~= view_chunks(pre) + seq![view_chunk(chunk)]);
            }
            cur = ret;
            i = i + 1;
        }
        proof {
            assert(dec_chunk_walk(data@, cur as int, 0) == Parsed::<Seq<ChunkV>>::Found(
                Seq::empty(),
                cur as int,
            ));
            assert(view_chunks(chunks) + Seq::<ChunkV>::empty() =~= view_chunks(chunks));
        }
        Ok(ReleaseManifestBundle { id, chunks })
    }
}

impl ReleaseManifestLanguage {
    /// The language identifier.
    pub fn id(&self) -> (r: u32)
        ensures
            r == self.id,
    {
        self.id
    }

    /// The language name.
    pub fn name(&self) -> (r: String)
        ensures
            r@ == self.name@,
    {
        self.name.clone()
    }

    /// Reads one language record, as `dec_language` describes.
    fn read(data: &[u8], pos: usize) -> (r: Result<ReleaseManifestLanguage, BinError>)
        ensures
            (match r {
                Ok(l) => dec_language(data@, pos as int) matches Parsed::Found(lv, _) && lv
                    == view_language(l),
                Err(e) => dec_language(data@, pos as int) == Parsed::<LanguageV>::Fail(e),
            }),
    {
        let (_, p1) = match get_u32(data, pos) {
            Ok(x) => x,
            Err(e) => {
                return Err(e);
            },
        };
        let (id, p2) = match get_u32(data, p1) {
            Ok(x) => x,
            Err(e) => {
                return Err(e);
            },
        };
        let (name_offset, _ret) = match get_u32(data, p2) {
            Ok(x) => x,
            Err(e) => {
                return Err(e);
            },
        };
        let name_pos = match checked_pos(data, p2, name_offset as u64) {
            Ok(x) => x,
            Err(e) => {
                return Err(e);
            },
        };
        let (name, _) = match read_sized_string(data, name_pos) {
            Ok(x) => x,
            Err(e) => {
                return Err(e);
            },
        };
        Ok(ReleaseManifestLanguage { id, name })
    }
}

impl ReleaseManifestFile {
    /// The file name.
    pub fn name(&self) -> (r: String)
        ensures
            r@ == self.name@,
    {
        self.name.clone()
    }

    /// The symbolic link target, empty for a plain file.
    pub fn link(&self) -> (r: String)
        ensures
            r@ == self.link@,
    {
        self.link.clone()
    }

    /// The file identifier.
    pub fn id(&self) -> (r: u64)
        ensures
            r == self.id,
    {
        self.id
    }

    /// The identifier of the directory holding this file.
    pub fn directory_id(&self) -> (r: u64)
        ensures
            r == self.directory_id,
    {
        self.directory_id
    }

    /// The file's byte size.
    pub fn size(&self) -> (r: u32)
        ensures
            r == self.size,
    {
        self.size
    }

    /// The language identifiers this file applies to, from its bit mask.
    pub fn language_ids(&self) -> (r: &Vec<u32>)
        ensures
            r@ == view_file(*self).language_ids,
    {
        &self.language_ids
    }

    /// The identifiers of the chunks that make up this file, in order.
    pub fn chunk_ids(&self) -> (r: &Vec<u64>)
        ensures
            r@ == view_file(*self).chunk_ids,
    {
        &self.chunk_ids
    }

    /// Reads one file record, as `dec_file` describes.
    #[verifier::loop_isolation(false)]
    #[verifier::rlimit(100)]
    #[verifier::spinoff_prover]
    fn read(data: &[u8], pos: usize) -> (r: Result<ReleaseManifestFile, BinError>)
        ensures
            (match r {
                Ok(f) => dec_file(data@, pos as int) matches Parsed::Found(fv, _) && fv
                    == view_file(f),
                Err(e) => dec_file(data@, pos as int) == Parsed::<FileV>::Fail(e),
            }),
    {
        let (_, file_offset) = match get_u32(data, pos) {
            Ok(x) => x,
            Err(e) => {
                return Err(e);
            },
        };
        let (flags, q1) = match get_u32(data, file_offset) {
            Ok(x) => x,
            Err(e) => {
                return Err(e);
            },
        };
        let file_type = flags >> 24;
        let mut name_offset: u64 = 0;
        let mut cur: usize = q1;
        if flags == 0x00010200 || file_type != 0 {
            let (v, q2) = match get_u32(data, cur) {
                Ok(x) => x,
                Err(e) => {
                    return Err(e);
                },
            };
            name_offset = v as u64;
            cur = q2;
        } else {
            if flags < 4 {
                return Err(BinError::FormatError);
            }
            name_offset = (flags - 4) as u64;
        }
        let (structure_size, q3) = match get_u32(data, cur) {
            Ok(x) => x,
            Err(e) => {
                return Err(e);
            },
        };
        let (link_offset, q4) = match get_u32(data, q3) {
            Ok(x) => x,
            Err(e) => {
                return Err(e);
            },
        };
        let (id, q5) = match get_u64(data, q4) {
            Ok(x) => x,
            Err(e) => {
                return Err(e);
            },
        };
        let mut cur2: usize = q5;
        let mut directory_id: u64 = 0;
        if structure_size > 28 {
            let (v, q6) = match get_u64(data, cur2) {
                Ok(x) => x,
                Err(e) => {
                    return Err(e);
                },
            };
            directory_id = v;
            cur2 = q6;
        }
        let (size, q7) = match get_u32(data, cur2) {
            Ok(x) => x,
            Err(e) => {
                return Err(e);
            },
        };
        let (_permissions, q8) = match get_u32(data, q7) {
            Ok(x) => x,
            Err(e) => {
                return Err(e);
            },
        };
        let mut cur3: usize = q8;
        let mut language_ids: Vec<u32> = Vec::new();
        let ghost mut language_model: Seq<u32> = Seq::empty();
        if structure_size > 36 {
            let (language_mask, q9) = match get_u64(data, cur3) {
                Ok(x) => x,
                Err(e) => {
                    return Err(e);
                },
            };
            cur3 = q9;
            let mut bit: u32 = 0;
            proof {
                assert(language_ids@ =~= Seq::<u32>::empty());
            }
            while bit < 64
                invariant
                    0 <= bit <= 64,
                    mask_ids_from(language_mask, 0) == language_ids@ + mask_ids_from(
                        language_mask,
                        bit as int,
                    ),
                decreases 64 - bit,
            {
                if (language_mask >> bit) & 1 != 0 {
                    proof {
                        assert(mask_ids_from(language_mask, bit as int) == seq![bit]
                            + mask_ids_from(language_mask, bit as int + 1));
                        assert(language_ids@ + (seq![bit] + mask_ids_from(
                            language_mask,
                            bit as int + 1,
                        )) =~= (language_ids@ + seq![bit]) + mask_ids_from(
                            language_mask,
                            bit as int + 1,
                        ));
                    }
                    language_ids.push(bit);
                }
                bit = bit + 1;
            }
            proof {
                assert(mask_ids_from(language_mask, 64) == Seq::<u32>::empty());
                assert(language_ids@ + Seq::<u32>::empty() =~= language_ids@);
                language_model = mask_ids_from(language_mask, 0);
            }
        }
        let (_unknown1, q10) = match get_u32(data, cur3) {
            Ok(x) => x,
            Err(e) => {
                return Err(e);
            },
        };
        let (chunk_count, q11) = match get_u32(data, q10) {
            Ok(x) => x,
            Err(e) => {
                return Err(e);
            },
        };
        let mut chunk_ids: Vec<u64> = Vec::new();
        let mut cur4: usize = q11;
        let mut i: u32 = 0;
        proof {
            assert(chunk_ids@ =~= Seq::<u64>::empty());
            lemma_prepend_empty(dec_u64_walk(data@, q11 as int, chunk_count as int));
        }
        while i < chunk_count
            invariant
                0 <= i <= chunk_count,
                cur4 <= data@.len(),
                dec_u64_walk(data@, q11 as int, chunk_count as int) == prepend_parsed(
                    chunk_ids@,
                    dec_u64_walk(data@, cur4 as int, (chunk_count - i) as int),
                ),
            decreases chunk_count - i,
        {
            let (cid, q12) = match get_u64(data, cur4) {
                Ok(x) => x,
                Err(e) => {
                    return Err(e);
                },
            };
            proof {
                let rest = dec_u64_walk(data@, q12 as int, (chunk_count - i) as int - 1);
                lemma_prepend_assoc(chunk_ids@, seq![cid], rest);
            }
            let ghost pre = chunk_ids@;
            chunk_ids.push(cid);
            proof {
                assert(chunk_ids@ =~= pre + seq![cid]);
            }
            cur4 = q12;
            i = i + 1;
        }
        proof {
            assert(dec_u64_walk(data@, cur4 as int, 0) == Parsed::<Seq<u64>>::Found(
                Seq::empty(),
                cur4 as int,
            ));
            assert(chunk_ids@ + Seq::<u64>::empty() =~= chunk_ids@);
        }
        let name_pos = match checked_pos(data, file_offset, name_offset + 4) {
            Ok(x) => x,
            Err(e) => {
                return Err(e);
            },
        };
        let (name, _) = match read_sized_string(data, name_pos) {
            Ok(x) => x,
            Err(e) => {
                return Err(e);
            },
        };
        let link_pos = match checked_pos(data, file_offset, link_offset as u64 + 12) {
            Ok(x) => x,
            Err(e) => {
                return Err(e);
            },
        };
        let (link, _) = match read_sized_string(data, link_pos) {
            Ok(x) => x,
            Err(e) => {
                return Err(e);
            },
        };
        Ok(ReleaseManifestFile { name, link, id, directory_id, size, language_ids, chunk_ids })
    }
}

impl ReleaseManifestDirectory {
    /// The directory name.
    pub fn name(&self) -> (r: String)
        ensures
            r@ == self.name@,
    {
        self.name.clone()
    }

    /// The directory identifier.
    pub fn id(&self) -> (r: u64)
        ensures
            r == self.id,
    {
        self.id
    }

    /// The identifier of the parent directory, zero at the root.
    pub fn parent_id(&self) -> (r: u64)
        ensures
            r == self.parent_id,
    {
        self.parent_id
    }

    /// Reads one directory record, as `dec_directory` describes.
    fn read(data: &[u8], pos: usize) -> (r: Result<ReleaseManifestDirectory, BinError>)
        ensures
            (match r {
                Ok(d) => dec_directory(data@, pos as int) matches Parsed::Found(dv, _) && dv
                    == view_directory(d),
                Err(e) => dec_directory(data@, pos as int) == Parsed::<DirectoryV>::Fail(e),
            }),
    {
        let (offset_table_offset, directory_offset) = match get_u32(data, pos) {
            Ok(x) => x,
            Err(e) => {
                return Err(e);
            },
        };
        if (offset_table_offset as u64) > (directory_offset as u64) {
            return Err(BinError::FormatError);
        }
        let table = directory_offset - offset_table_offset as usize;
        let (_id_offset, t1) = match get_u16(data, table) {
            Ok(x) => x,
            Err(e) => {
                return Err(e);
            },
        };
        let (parent_id_offset, _t2) = match get_u16(data, t1) {
            Ok(x) => x,
            Err(e) => {
                return Err(e);
            },
        };
        let (name_offset, d1) = match get_u32(data, directory_offset) {
            Ok(x) => x,
            Err(e) => {
                return Err(e);
            },
        };
        let (id, d2) = match get_u64(data, d1) {
            Ok(x) => x,
            Err(e) => {
                return Err(e);
            },
        };
        let mut parent_id: u64 = 0;
        if parent_id_offset > 0 {
            let (v, _d3) = match get_u64(data, d2) {
                Ok(x) => x,
                Err(e) => {
                    return Err(e);
                },
            };
            parent_id = v;
        }
        let name_pos = match checked_pos(data, directory_offset, name_offset as u64) {
            Ok(x) => x,
            Err(e) => {
                return Err(e);
            },
        };
        let (name, _) = match read_sized_string(data, name_pos) {
            Ok(x) => x,
            Err(e) => {
                return Err(e);
            },
        };
        Ok(ReleaseManifestDirectory { name, id, parent_id })
    }
}

/// Reads one body table's record positions, as `dec_table_offsets`
/// describes.
#[verifier::loop_isolation(false)]
fn read_table_offsets(data: &[u8], offset: usize) -> (r: Result<Vec<usize>, BinError>)
    ensures
        (match r {
            Ok(items) => dec_table_offsets(data@, offset as int) matches Parsed::Found(ps, _) && ps
                == view_positions(items),
            Err(e) => dec_table_offsets(data@, offset as int) == Parsed::<Seq<int>>::Fail(e),
        }),
{
    let (count, start) = match get_u32(data, offset) {
        Ok(x) => x,
        Err(e) => {
            return Err(e);
        },
    };
    let mut items: Vec<usize> = Vec::new();
    let mut cur: usize = start;
    let mut i: u32 = 0;
    proof {
        assert(view_positions(items) =~= Seq::<int>::empty());
        lemma_prepend_empty(dec_offset_walk(data@, start as int, count as int));
    }
    while i < count
        invariant
            0 <= i <= count,
            cur <= data@.len(),
            dec_offset_walk(data@, start as int, count as int) == prepend_parsed(
                view_positions(items),
                dec_offset_walk(data@, cur as int, (count - i) as int),
            ),
        decreases count - i,
    {
        let (item_offset, ret) = match get_u32(data, cur) {
            Ok(x) => x,
            Err(e) => {
                return Err(e);
            },
        };
        let item = match checked_pos(data, cur, item_offset as u64) {
            Ok(x) => x,
            Err(e) => {
                return Err(e);
            },
        };
        proof {
            let rest = dec_offset_walk(data@, ret as int, (count - i) as int - 1);
            lemma_prepend_assoc(view_positions(items), seq![item as int], rest);
        }
        let ghost pre = items;
        items.push(item);
        proof {
            assert(view_positions(items) =~= view_positions(pre) + seq![item as int]);
        }
        cur = ret;
        i = i + 1;
    }
    proof {
        assert(dec_offset_walk(data@, cur as int, 0) == Parsed::<Seq<int>>::Found(
            Seq::empty(),
            cur as int,
        ));
        assert(view_positions(items) + Seq::<int>::empty() =~= view_positions(items));
    }
    Ok(items)
}

impl ReleaseManifest {
    /// The release identifier from the manifest header.
    pub fn release_id(&self) -> (r: u64)
        ensures
            r == self.release_id,
    {
        self.release_id
    }

    /// The bundle table.
    pub fn bundles(&self) -> (r: &Vec<ReleaseManifestBundle>)
        ensures
            view_bundles(*r) == view_bundles(self.bundles),
    {
        &self.bundles
    }

    /// The language table.
    pub fn languages(&self) -> (r: &Vec<ReleaseManifestLanguage>)
        ensures
            view_languages(*r) == view_languages(self.languages),
    {
        &self.languages
    }

    /// The file table.
    pub fn files(&self) -> (r: &Vec<ReleaseManifestFile>)
        ensures
            view_files(*r) == view_files(self.files),
    {
        &self.files
    }

    /// The directory table.
    pub fn directories(&self) -> (r: &Vec<ReleaseManifestDirectory>)
        ensures
            view_directories(*r) == view_directories(self.directories),
    {
        &self.directories
    }

    /// Parses the decompressed body, as `dec_manifest_body` describes.
    #[verifier::loop_isolation(false)]
    #[verifier::rlimit(100)]
    #[verifier::spinoff_prover]
    fn read_body(body: &[u8]) -> (r: Result<
        (
            Vec<ReleaseManifestBundle>,
            Vec<ReleaseManifestLanguage>,
            Vec<ReleaseManifestFile>,
            Vec<ReleaseManifestDirectory>,
        ),
        BinError,
    >)
        ensures
            (match r {
                Ok((bs, ls, fs, ds)) => dec_manifest_body(body@) matches Parsed::Found(bv, _) && bv
                    == (BodyV {
                    bundles: view_bundles(bs),
                    languages: view_languages(ls),
                    files: view_files(fs),
                    directories: view_directories(ds),
                }),
                Err(e) => dec_manifest_body(body@) == Parsed::<BodyV>::Fail(e),
            }),
    {
        let (header_offset, _) = match get_u32(body, 0) {
            Ok(x) => x,
            Err(e) => {
                return Err(e);
            },
        };
        let hp = match checked_pos(body, 0, header_offset as u64) {
            Ok(x) => x,
            Err(e) => {
                return Err(e);
            },
        };
        let (_offset_table_offset, h1) = match get_u32(body, hp) {
            Ok(x) => x,
            Err(e) => {
                return Err(e);
            },
        };
        let (b_rel, h2) = match get_u32(body, h1) {
            Ok(x) => x,
            Err(e) => {
                return Err(e);
            },
        };
        let bundles_offset = match checked_pos(body, h1, b_rel as u64) {
            Ok(x) => x,
            Err(e) => {
                return Err(e);
            },
        };
        let (l_rel, h3) = match get_u32(body, h2) {
            Ok(x) => x,
            Err(e) => {
                return Err(e);
            },
        };
        let languages_offset = match checked_pos(body, h2, l_rel as u64) {
            Ok(x) => x,
            Err(e) => {
                return Err(e);
            },
        };
        let (f_rel, h4) = match get_u32(body, h3) {
            Ok(x) => x,
            Err(e) => {
                return Err(e);
            },
        };
        let files_offset = match checked_pos(body, h3, f_rel as u64) {
            Ok(x) => x,
            Err(e) => {
                return Err(e);
            },
        };
        let (d_rel, _h5) = match get_u32(body, h4) {
            Ok(x) => x,
            Err(e) => {
                return Err(e);
            },
        };
        let directories_offset = match checked_pos(body, h4, d_rel as u64) {
            Ok(x) => x,
            Err(e) => {
                return Err(e);
            },
        };
        let bundle_positions = match read_table_offsets(body, bundles_offset) {
            Ok(x) => x,
            Err(e) => {
                return Err(e);
            },
        };
        let ghost bps = view_positions(bundle_positions);
        let mut bundles: Vec<ReleaseManifestBundle> = Vec::new();
        let nb = bundle_positions.len();
        let mut i: usize = 0;
        proof {
            assert(view_bundles(bundles) =~= Seq::<BundleV>::empty());
            lemma_prepend_empty(dec_bundles_at(body@, bps, 0));
        }
        while i < nb
            invariant
                0 <= i <= nb,
                nb == bundle_positions.len(),
                dec_bundles_at(body@, bps, 0) == prepend_parsed(
                    view_bundles(bundles),
                    dec_bundles_at(body@, bps, i as int),
                ),
            decreases nb - i,
        {
            let b = match ReleaseManifestBundle::read(body, bundle_positions[i]) {
                Ok(x) => x,
                Err(e) => {
                    return Err(e);
                },
            };
            proof {
                let rest = dec_bundles_at(body@, bps, i as int + 1);
                lemma_prepend_assoc(view_bundles(bundles), seq![view_bundle(b)], rest);
            }
            let ghost pre = bundles;
            bundles.push(b);
            proof {
                assert(view_bundles(bundles) =~= view_bundles(pre) + seq![view_bundle(
                    bundles[pre.len() as int],
                )]);
            }
            i = i + 1;
        }
        proof {
            assert(dec_bundles_at(body@, bps, nb as int) == Parsed::<Seq<BundleV>>::Found(
                Seq::empty(),
                0,
            ));
            assert(view_bundles(bundles) + Seq::<BundleV>::empty() =~= view_bundles(bundles));
        }
        let language_positions = match read_table_offsets(body, languages_offset) {
            Ok(x) => x,
            Err(e) => {
                return Err(e);
            },
        };
        let ghost lps = view_positions(language_positions);
        let mut languages: Vec<ReleaseManifestLanguage> = Vec::new();
        let nl = language_positions.len();
        let mut j: usize = 0;
        proof {
            assert(view_languages(languages) =~= Seq::<LanguageV>::empty());
            lemma_prepend_empty(dec_languages_at(body@, lps, 0));
        }
        while j < nl
            invariant
                0 <= j <= nl,
                nl == language_positions.len(),
                dec_languages_at(body@, lps, 0) == prepend_parsed(
                    view_languages(languages),
                    dec_languages_at(body@, lps, j as int),
                ),
            decreases nl - j,
        {
            let l = match ReleaseManifestLanguage::read(body, language_positions[j]) {
                Ok(x) => x,
                Err(e) => {
                    return Err(e);
                },
            };
            proof {
                let rest = dec_languages_at(body@, lps, j as int + 1);
                lemma_prepend_assoc(view_languages(languages), seq![view_language(l)], rest);
            }
            let ghost pre = languages;
            languages.push(l);
            proof {
                assert(view_languages(languages) =~= view_languages(pre) + seq![view_language(
                    languages[pre.len() as int],
                )]);
            }
            j = j + 1;
        }
        proof {
            assert(dec_languages_at(body@, lps, nl as int) == Parsed::<Seq<LanguageV>>::Found(
                Seq::empty(),
                0,
            ));
            assert(view_languages(languages) + Seq::<LanguageV>::empty() =~= view_languages(
                languages,
            ));
        }
        let file_positions = match read_table_offsets(body, files_offset) {
            Ok(x) => x,
            Err(e) => {
                return Err(e);
            },
        };
        let ghost fps = view_positions(file_positions);
        let mut files: Vec<ReleaseManifestFile> = Vec::new();
        let nf = file_positions.len();
        let mut k: usize = 0;
        proof {
            assert(view_files(files) =~= Seq::<FileV>::empty());
            lemma_prepend_empty(dec_files_at(body@, fps, 0));
        }
        while k < nf
            invariant
                0 <= k <= nf,
                nf == file_positions.len(),
                dec_files_at(body@, fps, 0) == prepend_parsed(
                    view_files(files),
                    dec_files_at(body@, fps, k as int),
                ),
            decreases nf - k,
        {
            let f = match ReleaseManifestFile::read(body, file_positions[k]) {
                Ok(x) => x,
                Err(e) => {
                    return Err(e);
                },
            };
            proof {
                let rest = dec_files_at(body@, fps, k as int + 1);
                lemma_prepend_assoc(view_files(files), seq![view_file(f)], rest);
            }
            let ghost pre = files;
            files.push(f);
            proof {
                assert(view_files(files) =~= view_files(pre) + seq![view_file(
                    files[pre.len() as int],
                )]);
            }
            k = k + 1;
        }
        proof {
            assert(dec_files_at(body@, fps, nf as int) == Parsed::<Seq<FileV>>::Found(
                Seq::empty(),
                0,
            ));
            assert(view_files(files) + Seq::<FileV>::empty() =~= view_files(files));
        }
        let directory_positions = match read_table_offsets(body, directories_offset) {
            Ok(x) => x,
            Err(e) => {
                return Err(e);
            },
        };
        let ghost dps = view_positions(directory_positions);
        let mut directories: Vec<ReleaseManifestDirectory> = Vec::new();
        let nd = directory_positions.len();
        let mut m: usize = 0;
        proof {
            assert(view_directories(directories) =~= Seq::<DirectoryV>::empty());
            lemma_prepend_empty(dec_directories_at(body@, dps, 0));
        }
        while m < nd
            invariant
                0 <= m <= nd,
                nd == directory_positions.len(),
                dec_directories_at(body@, dps, 0) == prepend_parsed(
                    view_directories(directories),
                    dec_directories_at(body@, dps, m as int),
                ),
            decreases nd - m,
        {
            let d = match ReleaseManifestDirectory::read(body, directory_positions[m]) {
                Ok(x) => x,
                Err(e) => {
                    return Err(e);
                },
            };
            proof {
                let rest = dec_directories_at(body@, dps, m as int + 1);
                lemma_prepend_assoc(view_directories(directories), seq![view_directory(d)], rest);
            }
            let ghost pre = directories;
            directories.push(d);
            proof {
                assert(view_directories(directories) =~= view_directories(pre)
                    + seq![view_directory(directories[pre.len() as int])]);
            }
            m = m + 1;
        }
        proof {
            assert(dec_directories_at(body@, dps, nd as int) == Parsed::<Seq<DirectoryV>>::Found(
                Seq::empty(),
                0,
            ));
            assert(view_directories(directories) + Seq::<DirectoryV>::empty() =~= view_directories(
                directories,
            ));
        }
        Ok((bundles, languages, files, directories))
    }

    /// Parses a manifest stream: the "RMAN" signature, version 2.0, the
    /// header fields, the zstd-compressed content window, and the four
    /// tables of the inflated body, exactly as `dec_manifest_body` denotes
    /// them over `zstd_inflate_of` of that window.
    #[verifier::rlimit(100)]
    #[verifier::spinoff_prover]
    pub fn read(data: &[u8]) -> (r: Result<ReleaseManifest, BinError>)
        ensures
            !manifest_header_ok(data@) ==> r is Err,
            (match r {
                Ok(m) => {
                    &&& manifest_header_ok(data@)
                    &&& manifest_window_ok(data@)
                    &&& m.release_id == spec_u64_from_le_bytes(data@.subrange(16, 24))
                    &&& (dec_manifest_body(zstd_inflate_of(manifest_window(data@)))
                        matches Parsed::Found(bv, _) && bv == (BodyV {
                        bundles: view_bundles(m.bundles),
                        languages: view_languages(m.languages),
                        files: view_files(m.files),
                        directories: view_directories(m.directories),
                    }))
                },
                Err(_) => true,
            }),
    {
        let (sig, s1) = match get_bytes(data, 0, 4) {
            Ok(x) => x,
            Err(e) => {
                return Err(e);
            },
        };
        if !(sig.len() == 4 && sig[0] == 82 && sig[1] == 77 && sig[2] == 65 && sig[3] == 78) {
            return Err(BinError::FormatError);
        }
        proof {
            assert(sig@ =~= seq![82u8, 77u8, 65u8, 78u8]);
            assert(data@.subrange(0, 4) =~= sig@);
        }
        let (major, s2) = match get_u8(data, s1) {
            Ok(x) => x,
            Err(e) => {
                return Err(e);
            },
        };
        let (minor, s3) = match get_u8(data, s2) {
            Ok(x) => x,
            Err(e) => {
                return Err(e);
            },
        };
        if major != 2 || minor != 0 {
            return Err(BinError::FormatError);
        }
        let (_unknown, s4) = match get_u8(data, s3) {
            Ok(x) => x,
            Err(e) => {
                return Err(e);
            },
        };
        let (_signature_type, s5) = match get_u8(data, s4) {
            Ok(x) => x,
            Err(e) => {
                return Err(e);
            },
        };
        let (content_offset, s6) = match get_u32(data, s5) {
            Ok(x) => x,
            Err(e) => {
                return Err(e);
            },
        };
        let (compressed_size, s7) = match get_u32(data, s6) {
            Ok(x) => x,
            Err(e) => {
                return Err(e);
            },
        };
        let (release_id, s8) = match get_u64(data, s7) {
            Ok(x) => x,
            Err(e) => {
                return Err(e);
            },
        };
        let (_uncompressed_size, _s9) = match get_u32(data, s8) {
            Ok(x) => x,
            Err(e) => {
                return Err(e);
            },
        };
        let content_start = match checked_pos(data, 0, content_offset as u64) {
            Ok(x) => x,
            Err(e) => {
                return Err(e);
            },
        };
        let (compressed, _after) = match get_bytes(data, content_start, compressed_size as usize) {
            Ok(x) => x,
            Err(e) => {
                return Err(e);
            },
        };
        proof {
            assert(content_offset == spec_u32_from_le_bytes(data@.subrange(8, 12)));
            assert(compressed_size == spec_u32_from_le_bytes(data@.subrange(12, 16)));
            assert(compressed@ == manifest_window(data@));
            assert(release_id == spec_u64_from_le_bytes(data@.subrange(16, 24)));
        }
        let body = match zstd_decompress(compressed.as_slice()) {
            Some(v) => v,
            None => {
                return Err(BinError::FormatError);
            },
        };
        let (bundles, languages, files, directories) = match ReleaseManifest::read_body(
            body.as_slice(),
        ) {
            Ok(x) => x,
            Err(e) => {
                return Err(e);
            },
        };
        Ok(ReleaseManifest { release_id, bundles, languages, files, directories })
    }

    /// Parses a manifest from an owned buffer, exactly as `read` does.
    pub fn read_from_buffer(buffer: Vec<u8>) -> (r: Result<ReleaseManifest, BinError>)
        ensures
            !manifest_header_ok(buffer@) ==> r is Err,
            (match r {
                Ok(m) => {
                    &&& manifest_header_ok(buffer@)
                    &&& manifest_window_ok(buffer@)
                    &&& m.release_id == spec_u64_from_le_bytes(buffer@.subrange(16, 24))
                    &&& (dec_manifest_body(zstd_inflate_of(manifest_window(buffer@)))
                        matches Parsed::Found(bv, _) && bv == (BodyV {
                        bundles: view_bundles(m.bundles),
                        languages: view_languages(m.languages),
                        files: view_files(m.files),
                        directories: view_directories(m.directories),
                    }))
                },
                Err(_) => true,
            }),
    {
        ReleaseManifest::read(buffer.as_slice())
    }
}

} // verus!
