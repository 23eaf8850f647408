use testito::storage::{ingest_bytes, is_safe_extension, is_valid_filename, mime_for, serving_mime};

#[test]
fn filename_validation_accepts_hash_with_ext() {
    let h = "a".repeat(64);
    assert!(is_valid_filename(&format!("{h}.png")));
    assert!(is_valid_filename(&format!("{h}.jpg")));
    assert!(is_valid_filename(&h)); // no extension is allowed
}

#[test]
fn filename_validation_rejects_traversal() {
    assert!(!is_valid_filename("../etc/passwd"));
    assert!(!is_valid_filename("./foo"));
    assert!(!is_valid_filename("foo/bar"));
    assert!(!is_valid_filename("foo\\bar"));
    assert!(!is_valid_filename(""));
    assert!(!is_valid_filename("z".repeat(64).as_str())); // not hex
    assert!(!is_valid_filename("abc"));
}

#[test]
fn filename_validation_rejects_long_or_weird_extensions() {
    let h = "a".repeat(64);
    assert!(!is_valid_filename(&format!("{h}.")));
    assert!(!is_valid_filename(&format!("{h}.toolongextension")));
    assert!(!is_valid_filename(&format!("{h}.../etc/p")));
}

#[test]
fn filename_validation_edge_lengths() {
    let h = "0123456789abcdefABCDEF".repeat(3)[..64].to_string();
    assert!(is_valid_filename(&format!("{h}.abcdefgh")));
    assert!(!is_valid_filename(&format!("{h}.abcdefghi")));
    assert!(!is_valid_filename(&h[..63]));
    assert!(!is_valid_filename(&format!("{h}x")));
    assert!(!is_valid_filename(&format!("{h}.p-g")));
}

#[test]
fn mime_types_per_extension() {
    assert_eq!(mime_for("png"), "image/png");
    assert_eq!(mime_for("jpg"), "image/jpeg");
    assert_eq!(mime_for("jpeg"), "image/jpeg");
    assert_eq!(mime_for("gif"), "image/gif");
    assert_eq!(mime_for("webp"), "image/webp");
    assert_eq!(mime_for("svg"), "image/svg+xml");
    assert_eq!(mime_for("bmp"), "image/bmp");
    assert_eq!(mime_for("tiff"), "image/tiff");
    assert_eq!(mime_for("exe"), "application/octet-stream");
    assert_eq!(mime_for(""), "application/octet-stream");
    assert!(is_safe_extension("webp"));
    assert!(!is_safe_extension("PNG"));
    assert!(!is_safe_extension("html"));
}

#[test]
fn serving_mime_follows_the_stored_extension() {
    let h = "b".repeat(64);
    assert_eq!(serving_mime(&format!("{h}.svg")), Some("image/svg+xml"));
    assert_eq!(serving_mime(&h), Some("application/octet-stream"));
    assert_eq!(serving_mime("../etc/passwd"), None);
}

#[test]
fn ingest_dedupes_and_returns_hash() {
    let bytes = b"fake png bytes";
    let a = ingest_bytes(bytes, Some("png"), Some("test.png".to_string()));
    let b = ingest_bytes(bytes, Some("png"), Some("test.png".to_string()));
    assert_eq!(a.content_hash, b.content_hash);
    assert_eq!(a.extension, "png");
    assert_eq!(a.mime_type, "image/png");
    assert!(a.content_hash.chars().all(|c| c.is_ascii_hexdigit()));
    assert_eq!(a.content_hash.len(), 64);
}

#[test]
fn ingest_hashes_with_sha256() {
    let a = ingest_bytes(b"abc", None, None);
    assert_eq!(
        a.content_hash,
        "ba7816bf8f01cfea414140de5dae2223b00361a396177a9cb410ff61f20015ad"
    );
    assert_eq!(a.extension, "");
    assert_eq!(a.mime_type, "application/octet-stream");
    assert_eq!(a.original_filename, a.content_hash);
    assert_eq!(a.bytes_written, 3);
    assert_eq!(a.filename(), a.content_hash);
}

#[test]
fn ingest_lowercases_and_filters_extensions() {
    let a = ingest_bytes(b"x", Some("JPEG"), Some("Shot.JPEG".to_string()));
    assert_eq!(a.extension, "jpeg");
    assert_eq!(a.mime_type, "image/jpeg");
    assert_eq!(a.filename(), format!("{}.jpeg", a.content_hash));
    assert!(is_valid_filename(&a.filename()));
    let b = ingest_bytes(b"x", Some("html"), Some("evil.html".to_string()));
    assert_eq!(b.extension, "");
    assert_eq!(b.original_filename, "evil.html");
    assert!(is_valid_filename(&b.filename()));
}
