//! Asset fingerprinting: the integrity value of a file, its short hash, and
//! the file name that carries the hash.

use vstd::prelude::*;
use base64::Engine;
use sha2::{Digest, Sha384};
use crate::paths::{hashed, hashed_chars};
use crate::text::{chars_of, push_str, string_of};

verus! {

/// An asset with its content hash for cache busting.
#[derive(Debug, Clone)]
pub struct HashedAsset {
    /// Path of the asset as it was given
    pub source: String,
    /// Output path with hash in filename
    pub output: String,
    /// SHA-384 hash for subresource integrity
    pub integrity: String,
    /// Short hash for filename
    pub short_hash: String,
}

/// The SHA-384 digest of `content`.
pub uninterp spec fn sha384_digest(content: Seq<u8>) -> Seq<u8>;

/// `sha2::Sha384`, fed `content` once and finalized: the digest, which has 48
/// bytes.
#[verifier::external_body]
fn sha384(content: &[u8]) -> (r: Vec<u8>)
    ensures
        r@ == sha384_digest(content@),
        r@.len() == 48,
{
    let mut hasher = Sha384::new();
    hasher.update(content);
    hasher.finalize().to_vec()
}

/// The base64 text of `bytes` in the standard alphabet, with padding.
pub uninterp spec fn base64_text(bytes: Seq<u8>) -> Seq<char>;

/// `base64::Engine::encode` of the `STANDARD` engine. The input has to be
/// short enough for the length of its encoding to be computed.
#[verifier::external_body]
fn base64_standard(bytes: &[u8]) -> (r: String)
    requires
        bytes@.len() <= 0x1000_0000,
    ensures
        r@ == base64_text(bytes@),
{
    base64::engine::general_purpose::STANDARD.encode(bytes)
}

/// The 64-bit XXH3 hash of `content`.
pub uninterp spec fn xxh3_hash(content: Seq<u8>) -> u64;

/// `xxhash_rust::xxh3::xxh3_64`.
#[verifier::external_body]
fn xxh3(content: &[u8]) -> (r: u64)
    ensures
        r == xxh3_hash(content@),
{
    xxhash_rust::xxh3::xxh3_64(content)
}

/// The integrity value of a file: `sha384-` and the base64 text of the
/// file's SHA-384 digest.
pub open spec fn integrity(content: Seq<u8>) -> Seq<char> {
    "sha384-"@ + base64_text(sha384_digest(content))
}

/// Compute SHA-384 hash of content for subresource integrity.
pub fn compute_integrity(content: &[u8]) -> (r: String)
    ensures
        r@ == integrity(content@),
{
    let digest = sha384(content);
    let encoded = base64_standard(digest.as_slice());
    let mut text: Vec<char> = Vec::new();
    push_str(&mut text, "sha384-");
    push_str(&mut text, encoded.as_str());
    string_of(&text)
}

/// The lowercase hexadecimal digit for `n`.
pub open spec fn hex_digit(n: u64) -> char
    recommends
        n < 16,
{
    if n < 10 {
        (48 + n) as u8 as char
    } else {
        (87 + n) as u8 as char
    }
}

/// The `i`-th group of four bits of `hash`, counted from its high end.
pub open spec fn nibble(hash: u64, i: int) -> u64 {
    (hash >> ((60 - 4 * i) as u64)) & 0xf
}

/// The short form of a hash: the first eight of its sixteen hexadecimal
/// digits.
pub open spec fn short_form(hash: u64) -> Seq<char> {
    Seq::new(8, |i: int| hex_digit(nibble(hash, i)))
}

/// Writes the short form of `hash`.
pub fn short_hex(hash: u64) -> (r: String)
    ensures
        r@ == short_form(hash),
{
    let mut digits: Vec<char> = Vec::new();
    let mut i: u64 = 0;
    while i < 8
        invariant
            i <= 8,
            digits@ == short_form(hash).take(i as int),
        decreases 8 - i,
    {
        let shift: u64 = 60 - 4 * i;
        let n: u64 = (hash >> shift) & 0xf;
        assert(n < 16) by (bit_vector)
            requires
                n == (hash >> shift) & 0xf,
        ;
        let code: u8 = if n < 10 {
            (48 + n) as u8
        } else {
            (87 + n) as u8
        };
        digits.push(code as char);
        assert(short_form(hash).take(i + 1) == short_form(hash).take(i as int).push(
            short_form(hash)[i as int],
        ));
        i += 1;
    }
    assert(short_form(hash).take(8) == short_form(hash));
    string_of(&digits)
}

/// Compute short hash for a file name: eight hexadecimal digits.
pub fn compute_short_hash(content: &[u8]) -> (r: String)
    ensures
        r@ == short_form(xxh3_hash(content@)),
        r@.len() == 8,
{
    short_hex(xxh3(content))
}

/// Generate hashed asset path.
///
/// Transforms `style.css` to `style.abc12345.css`.
pub fn hashed_path(path: &str, hash: &str) -> (r: String)
    ensures
        r@ == hashed(path@, hash@),
{
    let path_chars = chars_of(path);
    let hash_chars = chars_of(hash);
    let out = hashed_chars(&path_chars, &hash_chars);
    string_of(&out)
}

/// Process an asset file, computing hashes and generating output path.
pub fn process_asset(source: &str, content: &[u8]) -> (r: HashedAsset)
    ensures
        r.source@ == source@,
        r.integrity@ == integrity(content@),
        r.short_hash@ == short_form(xxh3_hash(content@)),
        r.output@ == hashed(source@, r.short_hash@),
{
    let integrity = compute_integrity(content);
    let short_hash = compute_short_hash(content);
    let output = hashed_path(source, short_hash.as_str());
    HashedAsset { source: source.to_owned(), output, integrity, short_hash }
}

} // verus!
