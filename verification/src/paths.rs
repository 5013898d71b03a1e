//! The names of textures in the game data, and of images in the output.

use std::path::PathBuf;
use vstd::prelude::*;

use crate::config::OutputFormat;
use crate::text::push_padded;

verus! {

/// The end of a texture's name: high-resolution textures have one of their own.
pub open spec fn suffix(hr: bool) -> Seq<char> {
    if hr {
        "_hr1.tex"@
    } else {
        ".tex"@
    }
}

/// The icon id as text, of at least six digits.
pub open spec fn id_text(id: u32) -> Seq<char> {
    crate::text::padded(id as nat, 10, 6)
}

/// Where an icon's texture is in the game data. Icons lie in directories of a thousand, named by
/// the first three digits of their id.
pub open spec fn texture_path_text(id: u32, version: Seq<char>, hr: bool) -> Seq<char> {
    "ui/icon/"@ + id_text(id).take(3) + "000"@ + version + "/"@ + id_text(id) + suffix(hr)
}

/// Where an icon's texture is in the game data.
pub fn texture_path(id: u32, version: &str, hr: bool) -> (r: String)
    ensures
        r@ == texture_path_text(id, version@, hr),
{
    let mut id_string = String::new();
    push_padded(&mut id_string, id as u64, 10, 6);
    assert(id_string@ == id_text(id));
    let mut path = "ui/icon/".to_owned();
    path.append(id_string.as_str().substring_char(0, 3));
    path.append("000");
    path.append(version);
    path.append("/");
    path.append(id_string.as_str());
    path.append(if hr { "_hr1.tex" } else { ".tex" });
    path
}

/// The place of an image below the output directory: a file in a directory.
#[derive(Debug)]
pub struct EncodedPath {
    pub shard: String,
    pub file_name: String,
}

/// The place of an image: a path below the output directory `root`.
#[derive(Debug)]
pub struct FullPath<'a> {
    pub root: &'a PathBuf,
    pub relative: EncodedPath,
}

/// How many of the bytes of a digest name the directory.
pub open spec fn shard_len(sha256: Seq<char>) -> int {
    let len = vstd::utf8::encode_utf8(sha256).len() as int;
    if len < 2 {
        len
    } else {
        2
    }
}

/// Whether the first two bytes of the text can be cut off it.
pub open spec fn can_shard(sha256: Seq<char>) -> bool {
    vstd::utf8::is_char_boundary(vstd::utf8::encode_utf8(sha256), shard_len(sha256))
}

/// The name of an image file.
pub open spec fn file_name_text(sha256: Seq<char>, output_format: OutputFormat) -> Seq<char> {
    sha256 + "."@ + output_format.extension_text()
}

/// The name of the directory of an image: the first two bytes of the digest, or all of it if it is
/// shorter.
pub open spec fn shard_text(sha256: Seq<char>) -> Seq<char> {
    vstd::utf8::decode_utf8(vstd::utf8::encode_utf8(sha256).take(shard_len(sha256)))
}

/// The mathematical form of an [`EncodedPath`].
#[verifier::ext_equal]
pub struct Place {
    pub shard: Seq<char>,
    pub file_name: Seq<char>,
}

impl View for EncodedPath {
    type V = Place;

    open spec fn view(&self) -> Place {
        Place { shard: self.shard@, file_name: self.file_name@ }
    }
}

/// The place of the image with that digest.
pub open spec fn place_of(sha256: Seq<char>, output_format: OutputFormat) -> Place {
    Place { shard: shard_text(sha256), file_name: file_name_text(sha256, output_format) }
}

/// The place of an image below the output directory.
pub fn encoded_relative_path(sha256: &str, output_format: OutputFormat) -> (r: EncodedPath)
    requires
        can_shard(sha256@),
    ensures
        r@ == place_of(sha256@, output_format),
{
    let len: usize = sha256.as_bytes().len();
    let shard_end: usize = if len < 2 { len } else { 2 };
    let (shard, _rest) = sha256.split_at(shard_end);
    proof {
        vstd::utf8::encode_utf8_decode_utf8(shard@);
        assert(vstd::utf8::encode_utf8(shard@) == vstd::utf8::encode_utf8(sha256@).take(shard_end as int));
    }
    let mut file_name = sha256.to_owned();
    file_name.append(".");
    file_name.append(output_format.extension());
    EncodedPath { shard: shard.to_owned(), file_name }
}

/// The place of an image.
pub fn encoded_full_path<'a>(
    output_root: &'a PathBuf,
    sha256: &str,
    output_format: OutputFormat,
) -> (r: FullPath<'a>)
    requires
        can_shard(sha256@),
    ensures
        r.root == output_root,
        r.relative@ == place_of(sha256@, output_format),
{
    FullPath { root: output_root, relative: encoded_relative_path(sha256, output_format) }
}

/// The directory of an ASCII digest is named by its first two characters.
pub proof fn lemma_ascii_shard(sha256: Seq<char>)
    requires
        vstd::utf8::is_ascii_chars(sha256),
    ensures
        can_shard(sha256),
        shard_text(sha256) == sha256.take(
            if sha256.len() < 2 {
                sha256.len() as int
            } else {
                2
            },
        ),
{
    let bytes = vstd::utf8::encode_utf8(sha256);
    let end = shard_len(sha256);
    vstd::utf8::encode_utf8_valid_utf8(sha256);
    vstd::utf8::is_ascii_chars_encode_utf8(sha256);
    vstd::utf8::is_char_boundary_start_end_of_seq(bytes);
    if end < bytes.len() {
        assert(sha256[end] as u8 == bytes[end]);
        vstd::utf8::is_char_boundary_iff_not_is_continuation_byte(bytes, end);
    }
    let head = sha256.take(end);
    vstd::utf8::is_ascii_chars_encode_utf8(head);
    assert(vstd::utf8::encode_utf8(head) == bytes.take(end)) by {
        assert forall|i: int| 0 <= i < end implies vstd::utf8::encode_utf8(head)[i] == bytes[i] by {
            assert(head[i] == sha256[i]);
        }
    }
    vstd::utf8::encode_utf8_decode_utf8(head);
}

/// The name of an image in the archive: its place, with a slash on every system.
pub open spec fn zip_name_text(sha256: Seq<char>, output_format: OutputFormat) -> Seq<char> {
    shard_text(sha256) + "/"@ + file_name_text(sha256, output_format)
}

/// The name of an image in the archive.
pub fn zip_entry_name(sha256: &str, output_format: OutputFormat) -> (r: String)
    requires
        sha256@.len() > 0,
        crate::digest::is_hex(sha256@),
    ensures
        r@ == zip_name_text(sha256@, output_format),
{
    proof {
        crate::digest::lemma_hex_is_ascii(sha256@);
        lemma_ascii_shard(sha256@);
    }
    let place = encoded_relative_path(sha256, output_format);
    let mut name = place.shard;
    name.append("/");
    name.append(place.file_name.as_str());
    name
}

} // verus!
