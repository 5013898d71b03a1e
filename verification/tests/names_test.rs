use std::path::PathBuf;

use icon_export::config::OutputFormat;
use icon_export::digest::{hex_sha256, hex_text};
use icon_export::paths::{
    encoded_full_path, encoded_relative_path, texture_path, zip_entry_name,
};
use icon_export::text::{same_text, strip_prefix, to_ascii_lowercase};

#[test]
fn texture_paths() {
    assert_eq!(texture_path(0, "", false), "ui/icon/000000/000000.tex");
    assert_eq!(texture_path(12, "/en", true), "ui/icon/000000/en/000012_hr1.tex");
    assert_eq!(texture_path(62001, "/hq", true), "ui/icon/062000/hq/062001_hr1.tex");
    assert_eq!(texture_path(999_999, "", true), "ui/icon/999000/999999_hr1.tex");
    assert_eq!(texture_path(1_234_567, "", false), "ui/icon/123000/1234567.tex");
}

#[test]
fn known_digests() {
    assert_eq!(
        hex_sha256(b""),
        "e3b0c44298fc1c149afbf4c8996fb92427ae41e4649b934ca495991b7852b855"
    );
    assert_eq!(
        hex_sha256(b"abc"),
        "ba7816bf8f01cfea414140de5dae2223b00361a396177a9cb410ff61f20015ad"
    );
}

#[test]
fn bytes_in_hexadecimal() {
    assert_eq!(hex_text(&[0x00, 0x0f, 0xf0, 0xff, 0x9a]), "000ff0ff9a");
    assert_eq!(hex_text(&[]), "");
}

#[test]
fn places_of_images() {
    let place = encoded_relative_path("ba7816", OutputFormat::Webp);
    assert_eq!((place.shard.as_str(), place.file_name.as_str()), ("ba", "ba7816.webp"));
    let place = encoded_relative_path("f", OutputFormat::Avif);
    assert_eq!((place.shard.as_str(), place.file_name.as_str()), ("f", "f.avif"));
    let place = encoded_relative_path("", OutputFormat::Avif);
    assert_eq!((place.shard.as_str(), place.file_name.as_str()), ("", ".avif"));
}

#[test]
fn directory_is_cut_by_bytes() {
    let place = encoded_relative_path("\u{e9}x", OutputFormat::Webp);
    assert_eq!((place.shard.as_str(), place.file_name.as_str()), ("\u{e9}", "\u{e9}x.webp"));
}

#[test]
fn places_below_the_output_directory() {
    let root = PathBuf::from("out");
    let path = encoded_full_path(&root, "0123", OutputFormat::Webp);
    assert_eq!(path.root, &PathBuf::from("out"));
    assert_eq!(path.relative.shard, "01");
    assert_eq!(path.relative.file_name, "0123.webp");
}

#[test]
fn names_in_the_archive() {
    assert_eq!(zip_entry_name("0123", OutputFormat::Webp), "01/0123.webp");
    assert_eq!(zip_entry_name("a", OutputFormat::Avif), "a/a.avif");
}

#[test]
fn different_digests_have_different_places() {
    let a = hex_sha256(b"a");
    let b = hex_sha256(b"b");
    assert_ne!(a, b);
    assert_ne!(zip_entry_name(&a, OutputFormat::Webp), zip_entry_name(&b, OutputFormat::Webp));
}

#[test]
fn texts() {
    assert_eq!(to_ascii_lowercase("WebP-\u{c9}Z@["), "webp-\u{c9}z@[");
    assert!(same_text("a\u{e9}", "a\u{e9}"));
    assert!(!same_text("a", "A"));
    assert_eq!(strip_prefix("--format=x", "--format="), Some("x"));
    assert_eq!(strip_prefix("--format", "--format="), None);
    assert_eq!(strip_prefix("x", ""), Some("x"));
}
