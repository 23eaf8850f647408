//! Content-addressed screenshot naming: hashing, extension policy, MIME
//! types, and the filename check that guards serving.
use vstd::prelude::*;

use sha2::Digest;

use crate::text::{ascii_lower, push_char, push_str, str_eq, string_from, to_ascii_lowercase, to_chars};

verus! {

// ---------------------------------------------------------------------------
// Outside calls: SHA-256 and hex encoding
// ---------------------------------------------------------------------------

/// The SHA-256 digest of `data`, as `sha2::Sha256` computes it.
pub uninterp spec fn sha256(data: Seq<u8>) -> Seq<u8>;

/// Calls `sha2::Sha256::{new, update, finalize}` on `data`. Claimed: the
/// result is the digest of `data` (named `sha256`), 32 bytes long.
#[verifier::external_body]
fn sha256_digest(data: &[u8]) -> (d: Vec<u8>)
    ensures
        d@ == sha256(data@),
        d@.len() == 32,
{
    let mut h = sha2::Sha256::new();
    h.update(data);
    h.finalize().to_vec()
}

/// Lowercase hex digit of a value below sixteen.
pub open spec fn hex_digit(d: nat) -> char {
    if d < 10 {
        crate::text::digit_char(d)
    } else if d == 10 {
        'a'
    } else if d == 11 {
        'b'
    } else if d == 12 {
        'c'
    } else if d == 13 {
        'd'
    } else if d == 14 {
        'e'
    } else {
        'f'
    }
}

/// Two lowercase hex digits per byte, high nibble first.
pub open spec fn hex_lower(data: Seq<u8>) -> Seq<char>
    decreases data.len(),
{
    if data.len() == 0 {
        Seq::empty()
    } else {
        hex_lower(data.drop_last()).push(hex_digit((data.last() / 16) as nat)).push(
            hex_digit((data.last() % 16) as nat),
        )
    }
}

/// Calls `hex::encode`, which writes each byte as two lowercase hex digits,
/// high nibble first (its source maps every byte through the table
/// `0123456789abcdef`).
#[verifier::external_body]
fn hex_encode(data: &[u8]) -> (s: String)
    ensures
        s@ == hex_lower(data@),
{
    hex::encode(data)
}

// ---------------------------------------------------------------------------
// Character classes
// ---------------------------------------------------------------------------

pub open spec fn is_hex_char(c: char) -> bool {
    ('0' <= c && c <= '9') || ('a' <= c && c <= 'f') || ('A' <= c && c <= 'F')
}

pub open spec fn is_alnum_char(c: char) -> bool {
    ('0' <= c && c <= '9') || ('a' <= c && c <= 'z') || ('A' <= c && c <= 'Z')
}

fn is_hex_exec(c: char) -> (r: bool)
    ensures
        r == is_hex_char(c),
{
    ('0' <= c && c <= '9') || ('a' <= c && c <= 'f') || ('A' <= c && c <= 'F')
}

fn is_alnum_exec(c: char) -> (r: bool)
    ensures
        r == is_alnum_char(c),
{
    ('0' <= c && c <= '9') || ('a' <= c && c <= 'z') || ('A' <= c && c <= 'Z')
}

// ---------------------------------------------------------------------------
// Extensions and MIME types
// ---------------------------------------------------------------------------

/// The image extensions kept on ingested screenshots.
pub open spec fn safe_extension(e: Seq<char>) -> bool {
    e == "png"@ || e == "jpg"@ || e == "jpeg"@ || e == "gif"@ || e == "webp"@ || e == "svg"@
        || e == "bmp"@ || e == "tiff"@
}

pub fn is_safe_extension(ext: &str) -> (r: bool)
    ensures
        r == safe_extension(ext@),
{
    str_eq(ext, "png") || str_eq(ext, "jpg") || str_eq(ext, "jpeg") || str_eq(ext, "gif")
        || str_eq(ext, "webp") || str_eq(ext, "svg") || str_eq(ext, "bmp") || str_eq(ext, "tiff")
}

/// The MIME type served for an extension.
pub open spec fn mime_of(e: Seq<char>) -> Seq<char> {
    if e == "png"@ {
        "image/png"@
    } else if e == "jpg"@ || e == "jpeg"@ {
        "image/jpeg"@
    } else if e == "gif"@ {
        "image/gif"@
    } else if e == "webp"@ {
        "image/webp"@
    } else if e == "svg"@ {
        "image/svg+xml"@
    } else if e == "bmp"@ {
        "image/bmp"@
    } else if e == "tiff"@ {
        "image/tiff"@
    } else {
        "application/octet-stream"@
    }
}

pub fn mime_for(ext: &str) -> (m: &'static str)
    ensures
        m@ == mime_of(ext@),
{
    if str_eq(ext, "png") {
        "image/png"
    } else if str_eq(ext, "jpg") || str_eq(ext, "jpeg") {
        "image/jpeg"
    } else if str_eq(ext, "gif") {
        "image/gif"
    } else if str_eq(ext, "webp") {
        "image/webp"
    } else if str_eq(ext, "svg") {
        "image/svg+xml"
    } else if str_eq(ext, "bmp") {
        "image/bmp"
    } else if str_eq(ext, "tiff") {
        "image/tiff"
    } else {
        "application/octet-stream"
    }
}

// ---------------------------------------------------------------------------
// Stored filenames
// ---------------------------------------------------------------------------

/// The on-disk name format: 64 hex characters, optionally followed by `.`
/// and an extension of one to eight ASCII letters or digits.
pub open spec fn valid_filename(s: Seq<char>) -> bool {
    &&& s.len() >= 64
    &&& forall|i: int| 0 <= i < 64 ==> is_hex_char(#[trigger] s[i])
    &&& (s.len() == 64 || (s[64] == '.' && 65 < s.len() <= 73 && forall|i: int|
        65 <= i < s.len() ==> is_alnum_char(#[trigger] s[i])))
}

/// Whether `name` has the stored-screenshot format, so that it names a file
/// inside the screenshots directory and nothing else.
pub fn is_valid_filename(name: &str) -> (r: bool)
    ensures
        r == valid_filename(name@),
{
    let v = to_chars(name);
    let n = v.len();
    let mut i: usize = 0;
    while i < n && is_hex_exec(v[i]) && i < 64
        invariant
            v@ == name@,
            n == v.len(),
            i <= n,
            i <= 64,
            forall|k: int| 0 <= k < i ==> is_hex_char(#[trigger] v@[k]),
        decreases n - i,
    {
        i = i + 1;
    }
    if i != 64 {
        proof {
            if valid_filename(name@) {
                assert(is_hex_char(v@[i as int]));
            }
        }
        return false;
    }
    if i == n {
        return true;
    }
    if v[i] != '.' {
        return false;
    }
    let ext_len: usize = n - 65;
    if ext_len == 0 || ext_len > 8 {
        return false;
    }
    let mut k: usize = 65;
    while k < n
        invariant
            v@ == name@,
            n == v.len(),
            65 <= k <= n,
            forall|j: int| 65 <= j < k ==> is_alnum_char(#[trigger] v@[j]),
        decreases n - k,
    {
        if !is_alnum_exec(v[k]) {
            return false;
        }
        k = k + 1;
    }
    true
}

/// The part of a valid stored name after its last `.` (the whole name when
/// it has none): what `rsplit('.').next()` yields on such a name.
pub open spec fn stored_extension(s: Seq<char>) -> Seq<char> {
    if s.len() == 64 {
        s
    } else {
        s.skip(65)
    }
}

/// The MIME type a stored screenshot is served with, or `None` when the
/// requested name is not in the stored format (and must not be opened).
pub fn serving_mime(filename: &str) -> (r: Option<&'static str>)
    ensures
        r is Some <==> valid_filename(filename@),
        r matches Some(m) ==> m@ == mime_of(stored_extension(filename@)),
{
    if !is_valid_filename(filename) {
        return None;
    }
    let v = to_chars(filename);
    if v.len() == 64 {
        return Some(mime_for(filename));
    }
    let mut ext = String::new();
    let mut k: usize = 65;
    while k < v.len()
        invariant
            v@ == filename@,
            65 <= k <= v.len(),
            ext@ == filename@.subrange(65, k as int),
        decreases v.len() - k,
    {
        push_char(&mut ext, v[k]);
        assert(filename@.subrange(65, k + 1) == filename@.subrange(65, k as int).push(v@[k as int]));
        k = k + 1;
    }
    assert(ext@ =~= filename@.skip(65));
    Some(mime_for(ext.as_str()))
}

// ---------------------------------------------------------------------------
// Ingestion
// ---------------------------------------------------------------------------

/// Outcome of a screenshot ingestion. The caller writes one row per
/// attachment, and the on-disk file is content-addressed so duplicates
/// across runs/notes share storage.
pub struct Ingested {
    pub content_hash: String,
    pub extension: String,
    pub mime_type: String,
    pub original_filename: String,
    pub bytes_written: u64,
}

/// `<hash>.<ext>`, or the bare hash when there is no extension.
pub open spec fn stored_name(hash: Seq<char>, ext: Seq<char>) -> Seq<char> {
    if ext.len() == 0 {
        hash
    } else {
        hash + "."@ + ext
    }
}

impl Ingested {
    /// Filename used both on disk and in the served URL (`<hash>.<ext>`).
    pub fn filename(&self) -> (r: String)
        ensures
            r@ == stored_name(self.content_hash@, self.extension@),
    {
        if self.extension.as_str().is_empty() {
            self.content_hash.clone()
        } else {
            let mut s = self.content_hash.clone();
            push_str(&mut s, ".");
            push_str(&mut s, self.extension.as_str());
            s
        }
    }
}

/// The extension kept for a source file: its own extension, ASCII
/// lowercased, when that is one of the safe image extensions; else empty.
pub open spec fn kept_extension(ext: Option<Seq<char>>) -> Seq<char> {
    match ext {
        Some(e) => if safe_extension(ascii_lower(e)) {
            ascii_lower(e)
        } else {
            Seq::empty()
        },
        None => Seq::empty(),
    }
}

/// Hashes the bytes of a screenshot and decides how it is stored:
/// `extension` and `file_name` are those of the source path (`None` where the
/// path has none or they are not UTF-8).
pub fn ingest_bytes(bytes: &[u8], extension: Option<&str>, file_name: Option<String>) -> (r:
    Ingested)
    ensures
        r.content_hash@ == hex_lower(sha256(bytes@)),
        r.content_hash@.len() == 64,
        r.extension@ == kept_extension(
            match extension {
                Some(e) => Some(e@),
                None => None,
            },
        ),
        r.mime_type@ == mime_of(r.extension@),
        r.original_filename@ == (match file_name {
            Some(f) => f@,
            None => r.content_hash@,
        }),
        r.bytes_written == bytes@.len(),
        valid_filename(stored_name(r.content_hash@, r.extension@)),
{
    let digest = sha256_digest(bytes);
    let content_hash = hex_encode(digest.as_slice());
    proof {
        lemma_hex_lower_len(digest@);
        lemma_ingested_name_is_servable(
            digest@,
            match extension {
                Some(e) => Some(e@),
                None => None,
            },
        );
    }
    let ext = match extension {
        Some(e) => {
            let l = to_ascii_lowercase(e);
            if is_safe_extension(l.as_str()) {
                l
            } else {
                String::new()
            }
        },
        None => String::new(),
    };
    let mime_type = string_from(mime_for(ext.as_str()));
    let original_filename = match file_name {
        Some(f) => f,
        None => content_hash.clone(),
    };
    Ingested {
        content_hash,
        extension: ext,
        mime_type,
        original_filename,
        bytes_written: bytes.len() as u64,
    }
}

pub proof fn lemma_hex_lower_len(data: Seq<u8>)
    ensures
        hex_lower(data).len() == 2 * data.len(),
    decreases data.len(),
{
    if data.len() > 0 {
        lemma_hex_lower_len(data.drop_last());
    }
}

proof fn lemma_hex_lower_hex(data: Seq<u8>)
    ensures
        forall|i: int| 0 <= i < hex_lower(data).len() ==> is_hex_char(#[trigger] hex_lower(data)[i]),
    decreases data.len(),
{
    if data.len() > 0 {
        lemma_hex_lower_hex(data.drop_last());
        lemma_hex_lower_len(data.drop_last());
        let h = hex_lower(data.drop_last());
        let a = hex_digit((data.last() / 16) as nat);
        let b = hex_digit((data.last() % 16) as nat);
        assert forall|i: int| 0 <= i < hex_lower(data).len() implies is_hex_char(
            #[trigger] hex_lower(data)[i],
        ) by {
            if i < h.len() {
                assert(hex_lower(data)[i] == h[i]);
            }
        }
    }
}

/// What ingestion stores, serving accepts: the name built from any 32-byte
/// digest and any source extension passes the filename check that guards
/// the screenshot route.
pub proof fn lemma_ingested_name_is_servable(digest: Seq<u8>, ext: Option<Seq<char>>)
    requires
        digest.len() == 32,
    ensures
        valid_filename(stored_name(hex_lower(digest), kept_extension(ext))),
{
    let h = hex_lower(digest);
    let e = kept_extension(ext);
    lemma_hex_lower_len(digest);
    lemma_hex_lower_hex(digest);
    let s = stored_name(h, e);
    assert forall|i: int| 0 <= i < 64 implies is_hex_char(#[trigger] s[i]) by {
        assert(s[i] == h[i]);
    }
    if e.len() > 0 {
        reveal_strlit("png");
        reveal_strlit("jpg");
        reveal_strlit("jpeg");
        reveal_strlit("gif");
        reveal_strlit("webp");
        reveal_strlit("svg");
        reveal_strlit("bmp");
        reveal_strlit("tiff");
        reveal_strlit(".");
        assert(safe_extension(e));
        assert(s[64] == '.');
        assert forall|i: int| 65 <= i < s.len() implies is_alnum_char(#[trigger] s[i]) by {
            assert(s[i] == e[i - 65]);
        }
    }
}

/// A name that passes the filename check stays inside the screenshots
/// directory: it holds no path separator and no `..`, and the only `.` it
/// may hold is the one before the extension.
pub proof fn lemma_valid_filename_is_plain(s: Seq<char>)
    requires
        valid_filename(s),
    ensures
        forall|i: int| 0 <= i < s.len() ==> #[trigger] s[i] != '/' && s[i] != '\\',
        forall|i: int| 0 <= i < s.len() && #[trigger] s[i] == '.' ==> i == 64,
        forall|i: int| 0 <= i < s.len() - 1 ==> !(#[trigger] s[i] == '.' && s[i + 1] == '.'),
{
    assert forall|i: int| 0 <= i < s.len() implies (#[trigger] s[i] != '/' && s[i] != '\\') && (s[i] == '.' ==> i == 64) by {
        if i < 64 {
            assert(is_hex_char(s[i]));
        } else if i > 64 {
            assert(is_alnum_char(s[i]));
        }
    }
}

} // verus!
