//! Behavioral tests for the release-manifest reader, over streams built in
//! memory: the body is zstd-compressed exactly as the format carries it.
use propbag::manifest::ReleaseManifest;
use propbag::tag::BinError;

fn minimal_body() -> Vec<u8> {
    // Layout: a 32-bit header offset, a header of one skipped word and four
    // relative table offsets, padding, then four empty tables.
    let mut body: Vec<u8> = Vec::new();
    body.extend_from_slice(&4u32.to_le_bytes()); // header at 4
    body.extend_from_slice(&0u32.to_le_bytes()); // offset-table word
    body.extend_from_slice(&24u32.to_le_bytes()); // bundles: 8 + 24 = 32
    body.extend_from_slice(&24u32.to_le_bytes()); // languages: 12 + 24 = 36
    body.extend_from_slice(&24u32.to_le_bytes()); // files: 16 + 24 = 40
    body.extend_from_slice(&24u32.to_le_bytes()); // directories: 20 + 24 = 44
    body.extend_from_slice(&[0u8; 8]); // padding up to 32
    body.extend_from_slice(&0u32.to_le_bytes()); // no bundles
    body.extend_from_slice(&0u32.to_le_bytes()); // no languages
    body.extend_from_slice(&0u32.to_le_bytes()); // no files
    body.extend_from_slice(&0u32.to_le_bytes()); // no directories
    body
}

fn wrap_manifest(body: &[u8], release_id: u64) -> Vec<u8> {
    let compressed = zstd::stream::encode_all(body, 0).unwrap();
    let mut data: Vec<u8> = Vec::new();
    data.extend_from_slice(b"RMAN");
    data.push(2); // major
    data.push(0); // minor
    data.push(0); // unknown
    data.push(0); // signature type
    data.extend_from_slice(&28u32.to_le_bytes()); // content offset
    data.extend_from_slice(&(compressed.len() as u32).to_le_bytes());
    data.extend_from_slice(&release_id.to_le_bytes());
    data.extend_from_slice(&(body.len() as u32).to_le_bytes());
    data.extend_from_slice(&compressed);
    data
}

#[test]
fn test_release_manifest() {
    let data = wrap_manifest(&minimal_body(), 0x1122334455667788);
    let manifest = ReleaseManifest::read_from_buffer(data).unwrap();
    assert_eq!(manifest.release_id(), 0x1122334455667788);
    assert_eq!(manifest.bundles().len(), 0);
    assert_eq!(manifest.languages().len(), 0);
    assert_eq!(manifest.files().len(), 0);
    assert_eq!(manifest.directories().len(), 0);
}

#[test]
fn test_release_manifest_rejects_bad_header() {
    assert_eq!(
        ReleaseManifest::read_from_buffer(b"NOPE".to_vec()),
        Err(BinError::FormatError)
    );
    assert_eq!(
        ReleaseManifest::read_from_buffer(b"RM".to_vec()),
        Err(BinError::TruncatedInput)
    );
    let mut bad_sig = wrap_manifest(&minimal_body(), 1);
    bad_sig[0] = b'X';
    assert_eq!(
        ReleaseManifest::read_from_buffer(bad_sig),
        Err(BinError::FormatError)
    );
    let mut bad_version = wrap_manifest(&minimal_body(), 1);
    bad_version[4] = 3;
    assert_eq!(
        ReleaseManifest::read_from_buffer(bad_version),
        Err(BinError::FormatError)
    );
    // A body that is not a zstd frame does not inflate.
    let mut data: Vec<u8> = Vec::new();
    data.extend_from_slice(b"RMAN");
    data.extend_from_slice(&[2, 0, 0, 0]);
    data.extend_from_slice(&28u32.to_le_bytes());
    data.extend_from_slice(&4u32.to_le_bytes());
    data.extend_from_slice(&7u64.to_le_bytes());
    data.extend_from_slice(&0u32.to_le_bytes());
    data.extend_from_slice(&[1, 2, 3, 4]);
    assert_eq!(
        ReleaseManifest::read_from_buffer(data),
        Err(BinError::FormatError)
    );
}

#[test]
fn test_release_manifest_language_table() {
    // A body with one language record behind its relative offsets.
    let mut body: Vec<u8> = Vec::new();
    body.extend_from_slice(&4u32.to_le_bytes()); // header at 4
    body.extend_from_slice(&0u32.to_le_bytes()); // offset-table word
    body.extend_from_slice(&16u32.to_le_bytes()); // bundles: 8 + 16 = 24
    body.extend_from_slice(&16u32.to_le_bytes()); // languages: 12 + 16 = 28
    body.extend_from_slice(&20u32.to_le_bytes()); // files: 16 + 20 = 36
    body.extend_from_slice(&32u32.to_le_bytes()); // directories: 20 + 32 = 52
    body.extend_from_slice(&0u32.to_le_bytes()); // 24: no bundles
    body.extend_from_slice(&1u32.to_le_bytes()); // 28: one language
    body.extend_from_slice(&8u32.to_le_bytes()); // 32: record at 32 + 8 = 40
    body.extend_from_slice(&0u32.to_le_bytes()); // 36: no files
    body.extend_from_slice(&0u32.to_le_bytes()); // 40: record offset-table word
    body.extend_from_slice(&7u32.to_le_bytes()); // 44: language id
    body.extend_from_slice(&8u32.to_le_bytes()); // 48: name at 48 + 8 = 56
    body.extend_from_slice(&0u32.to_le_bytes()); // 52: no directories
    body.extend_from_slice(&5u32.to_le_bytes()); // 56: name byte length
    body.extend_from_slice(b"en_US");
    let data = wrap_manifest(&body, 42);
    let manifest = ReleaseManifest::read_from_buffer(data).unwrap();
    assert_eq!(manifest.release_id(), 42);
    assert_eq!(manifest.languages().len(), 1);
    assert_eq!(manifest.languages()[0].id(), 7);
    assert_eq!(manifest.languages()[0].name(), "en_US");
    assert_eq!(manifest.bundles().len(), 0);
    assert_eq!(manifest.files().len(), 0);
    assert_eq!(manifest.directories().len(), 0);
}
