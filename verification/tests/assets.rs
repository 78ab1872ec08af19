use mdbook_htmx::assets::{
    compute_integrity, compute_short_hash, hashed_path, process_asset, short_hex,
};

#[test]
fn test_hashed_path() {
    let result = hashed_path("assets/style.css", "abc12345");
    assert_eq!(result, "assets/style.abc12345.css");
}

#[test]
fn test_short_hash_length() {
    let content = b"test content";
    let hash = compute_short_hash(content);
    assert_eq!(hash.len(), 8);
}

#[test]
fn test_integrity_format() {
    let content = b"test content";
    let integrity = compute_integrity(content);
    assert!(integrity.starts_with("sha384-"));
}

#[test]
fn integrity_is_the_base64_of_the_sha384_digest() {
    assert_eq!(
        compute_integrity(b"test content"),
        "sha384-8cFK5mW+eeVbAO7clwcEVX1yowIas7iMz9wbg9HWbEeQkeI8+2Ah9Dt6EnOm9KMY"
    );
    assert_eq!(
        compute_integrity(b""),
        "sha384-OLBgp1GsljhM2TJ+sbHjaiH9txEUvgdDTAzHv2P24donTt6/529l+9Ua0vFImLlb"
    );
}

#[test]
fn short_hash_is_the_high_half_of_the_hash_in_hex() {
    assert_eq!(short_hex(0x0123_4567_89ab_cdef), "01234567");
    assert_eq!(short_hex(0xfedc_ba98_7654_3210), "fedcba98");
    assert_eq!(short_hex(0), "00000000");
    assert_eq!(short_hex(u64::MAX), "ffffffff");
    assert_eq!(short_hex(0x0000_000a_ffff_ffff), "0000000a");
}

#[test]
fn short_hash_of_empty_content() {
    assert_eq!(compute_short_hash(b""), "2d068005");
}

#[test]
fn short_hash_tells_contents_apart() {
    let one = compute_short_hash(b"test content");
    let other = compute_short_hash(b"test content!");
    assert_ne!(one, other);
    assert!(one.chars().all(|c| c.is_ascii_digit() || ('a'..='f').contains(&c)));
}

#[test]
fn hashed_path_without_extension() {
    assert_eq!(hashed_path("assets/LICENSE", "abc12345"), "assets/LICENSE.abc12345");
    assert_eq!(hashed_path("style.min.css", "ff"), "style.min.ff.css");
    assert_eq!(hashed_path("dir.d/file", "ff"), "dir.d/file.ff");
    assert_eq!(hashed_path(".hidden", "ff"), ".hidden.ff");
    assert_eq!(hashed_path("name.", "ff"), "name.ff");
}

#[test]
fn process_asset_fills_every_field() {
    let asset = process_asset("assets/app.js", b"");
    assert_eq!(asset.source, "assets/app.js");
    assert_eq!(asset.short_hash, "2d068005");
    assert_eq!(asset.output, "assets/app.2d068005.js");
    assert_eq!(
        asset.integrity,
        "sha384-OLBgp1GsljhM2TJ+sbHjaiH9txEUvgdDTAzHv2P24donTt6/529l+9Ua0vFImLlb"
    );
}
