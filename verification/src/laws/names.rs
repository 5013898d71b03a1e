//! Laws of the names of textures and images.

use vstd::prelude::*;

use crate::config::OutputFormat;

verus! {

use crate::digest::{hex, is_hex};
use crate::paths::{
    file_name_text, id_text, place_of, suffix, texture_path_text, zip_name_text,
};
use crate::text::{after_prefix, digit_char, digits, lowercased, padded};

/// The value of a digit.
pub open spec fn digit_value(c: char) -> nat {
    if c <= '9' {
        (c as nat - '0' as nat) as nat
    } else {
        (c as nat - 'a' as nat + 10) as nat
    }
}

proof fn lemma_digit(d: nat)
    requires
        d < 16,
    ensures
        digit_value(digit_char(d)) == d,
{
}

/// Different bytes have different hexadecimal texts.
pub proof fn law_hex_one_to_one(a: Seq<u8>, b: Seq<u8>)
    requires
        hex(a) == hex(b),
    ensures
        a == b,
{
    assert(hex(a).len() == 2 * a.len() && hex(b).len() == 2 * b.len());
    assert forall|i: int| 0 <= i < a.len() implies a[i] == b[i] by {
        assert(hex(a)[2 * i] == digit_char((a[i] / 16) as nat));
        assert(hex(b)[2 * i] == digit_char((b[i] / 16) as nat));
        assert(hex(a)[2 * i + 1] == digit_char((a[i] % 16) as nat));
        assert(hex(b)[2 * i + 1] == digit_char((b[i] % 16) as nat));
        lemma_digit((a[i] / 16) as nat);
        lemma_digit((b[i] / 16) as nat);
        lemma_digit((a[i] % 16) as nat);
        lemma_digit((b[i] % 16) as nat);
    }
    assert(a =~= b);
}

/// Different digests are stored in different places.
pub proof fn law_places_differ(a: Seq<char>, b: Seq<char>, output_format: OutputFormat)
    requires
        place_of(a, output_format) == place_of(b, output_format),
    ensures
        a == b,
{
    lemma_file_names_differ(a, b, output_format);
}

proof fn lemma_file_names_differ(a: Seq<char>, b: Seq<char>, output_format: OutputFormat)
    requires
        file_name_text(a, output_format) == file_name_text(b, output_format),
    ensures
        a == b,
{
    let (x, y) = (file_name_text(a, output_format), file_name_text(b, output_format));
    let tail = "."@.len() + output_format.extension_text().len();
    assert(x.len() == a.len() + tail && y.len() == b.len() + tail);
    assert(x.take(a.len() as int) =~= a);
    assert(y.take(b.len() as int) =~= b);
}

/// Different digests have different names in the archive.
pub proof fn law_archive_names_differ(a: Seq<char>, b: Seq<char>, output_format: OutputFormat)
    requires
        is_hex(a),
        is_hex(b),
        zip_name_text(a, output_format) == zip_name_text(b, output_format),
    ensures
        a == b,
{
    crate::digest::lemma_hex_is_ascii(a);
    crate::digest::lemma_hex_is_ascii(b);
    crate::paths::lemma_ascii_shard(a);
    crate::paths::lemma_ascii_shard(b);
    let (x, y) = (zip_name_text(a, output_format), zip_name_text(b, output_format));
    let head = crate::paths::shard_text(a).len() as int + "/"@.len();
    let extension = output_format.extension_text();
    assert(x.len() == crate::paths::shard_text(a).len() + "/"@.len() + a.len() + "."@.len()
        + extension.len());
    assert(y.len() == crate::paths::shard_text(b).len() + "/"@.len() + b.len() + "."@.len()
        + extension.len());
    assert(a.len() == b.len());
    assert(crate::paths::shard_text(a).len() == crate::paths::shard_text(b).len());
    assert(x.skip(head) =~= file_name_text(a, output_format));
    assert(y.skip(head) =~= file_name_text(b, output_format));
    lemma_file_names_differ(a, b, output_format);
}

/// The number that a text of digits stands for.
pub open spec fn value(text: Seq<char>, base: nat) -> nat
    decreases text.len(),
{
    if text.len() == 0 {
        0
    } else {
        value(text.drop_last(), base) * base + digit_value(text.last())
    }
}

proof fn lemma_value_of_digits(n: nat, base: nat)
    requires
        2 <= base <= 16,
    ensures
        value(digits(n, base), base) == n,
    decreases n,
{
    let text = digits(n, base);
    if n < base {
        lemma_digit(n);
        assert(text.drop_last() =~= seq![]);
        assert(value(text.drop_last(), base) == 0);
        assert(0 * base == 0);
    } else {
        vstd::arithmetic::div_mod::lemma_div_decreases(n as int, base as int);
        vstd::arithmetic::div_mod::lemma_mod_bound(n as int, base as int);
        vstd::arithmetic::div_mod::lemma_fundamental_div_mod(n as int, base as int);
        lemma_value_of_digits(n / base, base);
        lemma_digit(n % base);
        assert(text.drop_last() =~= digits(n / base, base));
        vstd::arithmetic::mul::lemma_mul_is_commutative(base as int, n as int / base as int);
    }
}

proof fn lemma_leading_zeros(zeros: nat, text: Seq<char>, base: nat)
    ensures
        value(Seq::new(zeros, |i: int| '0') + text, base) == value(text, base),
    decreases zeros + text.len(),
{
    let all = Seq::new(zeros, |i: int| '0') + text;
    if text.len() > 0 {
        assert(all.drop_last() =~= Seq::new(zeros, |i: int| '0') + text.drop_last());
        lemma_leading_zeros(zeros, text.drop_last(), base);
    } else if zeros > 0 {
        let fewer = (zeros - 1) as nat;
        assert(all.drop_last() =~= Seq::new(fewer, |i: int| '0') + text);
        lemma_leading_zeros(fewer, text, base);
        assert(0 * base == 0);
    } else {
        assert(all =~= text);
    }
}

/// Different numbers have different texts, filled up to the same width.
pub proof fn law_numbers_one_to_one(a: nat, b: nat, base: nat, width: nat)
    requires
        2 <= base <= 16,
        padded(a, base, width) == padded(b, base, width),
    ensures
        a == b,
{
    lemma_value_of_digits(a, base);
    lemma_value_of_digits(b, base);
    let (x, y) = (digits(a, base), digits(b, base));
    if x.len() < width {
        lemma_leading_zeros((width - x.len()) as nat, x, base);
    }
    if y.len() < width {
        lemma_leading_zeros((width - y.len()) as nat, y, base);
    }
}

proof fn lemma_decimal_digits(n: nat)
    ensures
        forall|i: int|
            0 <= i < digits(n, 10).len() ==> '0' <= #[trigger] digits(n, 10)[i] <= '9',
    decreases n,
{
    if n >= 10 {
        lemma_decimal_digits(n / 10);
        assert forall|i: int| 0 <= i < digits(n, 10).len() implies '0' <= #[trigger] digits(
            n,
            10,
        )[i] <= '9' by {
            if i < digits(n / 10, 10).len() {
                assert(digits(n, 10)[i] == digits(n / 10, 10)[i]);
            }
        }
    }
}

proof fn lemma_id_text(id: u32)
    requires
        id < crate::config::END_ID_EXCLUSIVE,
    ensures
        id_text(id).len() == 6,
        forall|i: int| 0 <= i < 6 ==> '0' <= #[trigger] id_text(id)[i] <= '9',
{
    reveal_with_fuel(digits, 7);
    lemma_decimal_digits(id as nat);
    assert(digits(id as nat, 10).len() <= 6);
}

/// No two textures of an export have the same name.
pub proof fn law_texture_names_differ(
    a: u32,
    version_a: Seq<char>,
    hr_a: bool,
    b: u32,
    version_b: Seq<char>,
    hr_b: bool,
)
    requires
        a < crate::config::END_ID_EXCLUSIVE,
        b < crate::config::END_ID_EXCLUSIVE,
        texture_path_text(a, version_a, hr_a) == texture_path_text(b, version_b, hr_b),
    ensures
        a == b,
        version_a == version_b,
        hr_a == hr_b,
{
    reveal_strlit("ui/icon/");
    reveal_strlit("000");
    reveal_strlit("/");
    reveal_strlit("_hr1.tex");
    reveal_strlit(".tex");
    lemma_id_text(a);
    lemma_id_text(b);
    let (x, y) = (
        texture_path_text(a, version_a, hr_a),
        texture_path_text(b, version_b, hr_b),
    );
    let len = x.len();
    assert(len == 21 + version_a.len() + suffix(hr_a).len());
    assert(len == 21 + version_b.len() + suffix(hr_b).len());
    assert(hr_a ==> x[len - 6] == suffix(hr_a)[2]);
    assert(hr_b ==> y[len - 6] == suffix(hr_b)[2]);
    assert(!hr_a ==> x[len - 6] == id_text(a)[4]);
    assert(!hr_b ==> y[len - 6] == id_text(b)[4]);
    assert(hr_a == hr_b);
    let end = len - suffix(hr_a).len();
    assert(x.subrange(end - 6, end) =~= id_text(a));
    assert(y.subrange(end - 6, end) =~= id_text(b));
    law_numbers_one_to_one(a as nat, b as nat, 10, 6);
    assert(x.subrange(14, end - 7) =~= version_a);
    assert(y.subrange(14, end - 7) =~= version_b);
}

/// Whether the character is a digit in that base, with lower-case letters from ten on.
pub open spec fn is_digit_of(c: char, base: nat) -> bool {
    ('0' <= c <= '9' || 'a' <= c <= 'f') && digit_value(c) < base
}

/// A number is written in its digits, the highest first, without zeros before it.
pub proof fn law_number_text(n: nat, base: nat)
    requires
        2 <= base <= 16,
    ensures
        value(digits(n, base), base) == n,
        digits(n, base).len() >= 1,
        forall|i: int|
            0 <= i < digits(n, base).len() ==> is_digit_of(#[trigger] digits(n, base)[i], base),
        n > 0 ==> digits(n, base)[0] != '0',
        n == 0 ==> digits(n, base).len() == 1,
        crate::text::decimal(n) == digits(n, 10),
    decreases n,
{
    lemma_value_of_digits(n, base);
    if n < base {
        lemma_digit(n);
    } else {
        vstd::arithmetic::div_mod::lemma_div_decreases(n as int, base as int);
        vstd::arithmetic::div_mod::lemma_mod_bound(n as int, base as int);
        vstd::arithmetic::div_mod::lemma_div_non_zero(n as int, base as int);
        let fewer = digits(n / base, base);
        law_number_text(n / base, base);
        lemma_digit(n % base);
        assert(digits(n, base) == fewer.push(digit_char(n % base)));
        assert forall|i: int| 0 <= i < digits(n, base).len() implies is_digit_of(
            #[trigger] digits(n, base)[i],
            base,
        ) by {
            if i < fewer.len() {
                assert(digits(n, base)[i] == fewer[i]);
            }
        }
        assert(digits(n, base)[0] == fewer[0]);
    }
}

/// A number that is filled up stays the same number. It has the width asked for, or is as long as
/// it has to be.
pub proof fn law_filled_number(n: nat, base: nat, width: nat)
    requires
        2 <= base <= 16,
    ensures
        value(padded(n, base, width), base) == n,
        digits(n, base).len() >= width ==> padded(n, base, width) == digits(n, base),
        digits(n, base).len() < width ==> padded(n, base, width).len() == width,
        forall|i: int|
            0 <= i < padded(n, base, width).len() ==> is_digit_of(
                #[trigger] padded(n, base, width)[i],
                base,
            ),
{
    law_number_text(n, base);
    let text = digits(n, base);
    if text.len() < width {
        let zeros = (width - text.len()) as nat;
        lemma_leading_zeros(zeros, text, base);
        assert forall|i: int| 0 <= i < padded(n, base, width).len() implies is_digit_of(
            #[trigger] padded(n, base, width)[i],
            base,
        ) by {
            if i >= zeros {
                assert(padded(n, base, width)[i] == text[i - zeros]);
            }
        }
    }
}

/// Every byte is written in two hexadecimal digits, the high one first and the bytes in order.
pub proof fn law_hex_digits(bytes: Seq<u8>, i: int)
    requires
        0 <= i < bytes.len(),
    ensures
        hex(bytes).len() == 2 * bytes.len(),
        is_digit_of(hex(bytes)[2 * i], 16),
        is_digit_of(hex(bytes)[2 * i + 1], 16),
        16 * digit_value(hex(bytes)[2 * i]) + digit_value(hex(bytes)[2 * i + 1]) == bytes[i],
{
    assert(hex(bytes)[2 * i] == digit_char((bytes[i] / 16) as nat));
    assert(hex(bytes)[2 * i + 1] == digit_char((bytes[i] % 16) as nat));
    lemma_digit((bytes[i] / 16) as nat);
    lemma_digit((bytes[i] % 16) as nat);
}

/// The digest of a texture is that of all its bytes, in hexadecimal digits.
pub proof fn law_digest_digits(data: Seq<u8>, i: int)
    requires
        0 <= i < crate::digest::sha256(data).len(),
    ensures
        ({
            let text = crate::job::digest_of(data);
            let bytes = crate::digest::sha256(data);
            &&& text.len() == 2 * bytes.len()
            &&& is_digit_of(text[2 * i], 16) && is_digit_of(text[2 * i + 1], 16)
            &&& 16 * digit_value(text[2 * i]) + digit_value(text[2 * i + 1]) == bytes[i]
        }),
{
    law_hex_digits(crate::digest::sha256(data), i);
}

/// Lower case: the letters from A to Z become those from a to z, everything else stays.
pub proof fn law_lower_case(text: Seq<char>, i: int)
    requires
        0 <= i < text.len(),
    ensures
        lowercased(text).len() == text.len(),
        'A' <= text[i] <= 'Z' ==> lowercased(text)[i] as int - 'a' as int == text[i] as int
            - 'A' as int,
        !('A' <= text[i] <= 'Z') ==> lowercased(text)[i] == text[i],
{
}

/// A text starts with another exactly if it is that other text and what follows it.
pub proof fn law_prefix(text: Seq<char>, prefix: Seq<char>, rest: Seq<char>)
    ensures
        after_prefix(text, prefix) == Some(rest) <==> text == prefix + rest,
{
    if text == prefix + rest {
        assert(text.skip(prefix.len() as int) =~= rest);
    }
    if after_prefix(text, prefix) == Some(rest) {
        assert(text =~= prefix + rest);
    }
}

/// Where a texture is: in the directory of the thousand that its icon belongs to, and of its
/// version, under its id of at least six digits; high-resolution textures have a name of their own.
pub proof fn law_texture_path(id: u32, version: Seq<char>)
    ensures
        ({
            let digits = padded(id as nat, 10, 6);
            let directory = "ui/icon/"@ + seq![digits[0], digits[1], digits[2], '0', '0', '0']
                + version + "/"@ + digits;
            &&& texture_path_text(id, version, true) == directory + "_hr1.tex"@
            &&& texture_path_text(id, version, false) == directory + ".tex"@
        }),
{
    law_filled_number(id as nat, 10, 6);
    reveal_strlit("000");
    let digits = padded(id as nat, 10, 6);
    let directory = "ui/icon/"@ + seq![digits[0], digits[1], digits[2], '0', '0', '0'] + version
        + "/"@ + digits;
    assert(digits.take(3) + "000"@ =~= seq![digits[0], digits[1], digits[2], '0', '0', '0']);
    assert(texture_path_text(id, version, true) =~= directory + "_hr1.tex"@);
    assert(texture_path_text(id, version, false) =~= directory + ".tex"@);
}

/// An image lies in the directory of the first two digits of its digest, under the whole digest
/// and the extension of its format; in the archive it has the same name, with a slash. A digest of
/// fewer digits names the directory as a whole.
pub proof fn law_image_names(sha256: Seq<char>)
    requires
        is_hex(sha256),
    ensures
        ({
            let shard = if sha256.len() < 2 {
                sha256
            } else {
                seq![sha256[0], sha256[1]]
            };
            &&& place_of(sha256, OutputFormat::Webp).shard == shard
            &&& place_of(sha256, OutputFormat::Avif).shard == shard
            &&& place_of(sha256, OutputFormat::Webp).file_name == sha256 + ".webp"@
            &&& place_of(sha256, OutputFormat::Avif).file_name == sha256 + ".avif"@
            &&& zip_name_text(sha256, OutputFormat::Webp) == shard + "/"@ + sha256 + ".webp"@
            &&& zip_name_text(sha256, OutputFormat::Avif) == shard + "/"@ + sha256 + ".avif"@
        }),
{
    crate::digest::lemma_hex_is_ascii(sha256);
    crate::paths::lemma_ascii_shard(sha256);
    lemma_extensions(sha256);
    let shard = if sha256.len() < 2 {
        sha256
    } else {
        seq![sha256[0], sha256[1]]
    };
    if sha256.len() >= 2 {
        assert(sha256.take(2) =~= shard);
    } else {
        assert(sha256.take(sha256.len() as int) =~= shard);
    }
    assert(zip_name_text(sha256, OutputFormat::Webp) =~= shard + "/"@ + sha256 + ".webp"@);
    assert(zip_name_text(sha256, OutputFormat::Avif) =~= shard + "/"@ + sha256 + ".avif"@);
}

proof fn lemma_extensions(name: Seq<char>)
    ensures
        name + "."@ + "webp"@ == name + ".webp"@,
        name + "."@ + "avif"@ == name + ".avif"@,
{
    reveal_strlit(".");
    reveal_strlit("webp");
    reveal_strlit("avif");
    reveal_strlit(".webp");
    reveal_strlit(".avif");
    assert(name + "."@ + "webp"@ =~= name + ".webp"@);
    assert(name + "."@ + "avif"@ =~= name + ".avif"@);
}

/// Of any name, the directory is what its first two bytes spell, where they spell something, and
/// the file is the whole name with the extension of its format.
pub proof fn law_places(name: Seq<char>, shard: Seq<char>, rest: Seq<char>)
    requires
        name == shard + rest,
        vstd::utf8::encode_utf8(shard).len() == 2 || rest.len() == 0
            && vstd::utf8::encode_utf8(shard).len() < 2,
    ensures
        place_of(name, OutputFormat::Webp).shard == shard,
        place_of(name, OutputFormat::Avif).shard == shard,
        place_of(name, OutputFormat::Webp).file_name == name + ".webp"@,
        place_of(name, OutputFormat::Avif).file_name == name + ".avif"@,
{
    lemma_extensions(name);
    lemma_encoded_whole(shard, rest);
    let bytes = vstd::utf8::encode_utf8(name);
    if rest.len() == 0 {
        assert(name =~= shard);
    }
    assert(bytes.take(crate::paths::shard_len(name)) =~= vstd::utf8::encode_utf8(shard));
    vstd::utf8::encode_utf8_decode_utf8(shard);
}

proof fn lemma_encoded_whole(a: Seq<char>, b: Seq<char>)
    ensures
        vstd::utf8::encode_utf8(a + b) == vstd::utf8::encode_utf8(a) + vstd::utf8::encode_utf8(b),
    decreases a.len(),
{
    reveal_with_fuel(vstd::utf8::encode_utf8, 2);
    if a.len() == 0 {
        assert(a + b =~= b);
        assert(vstd::utf8::encode_utf8(a) =~= seq![]);
        assert(vstd::utf8::encode_utf8(a) + vstd::utf8::encode_utf8(b) =~= vstd::utf8::encode_utf8(
            b,
        ));
    } else {
        assert((a + b).drop_first() =~= a.drop_first() + b);
        assert((a + b)[0] == a[0]);
        lemma_encoded_whole(a.drop_first(), b);
        assert(vstd::utf8::encode_utf8(a + b) =~= vstd::utf8::encode_utf8(a)
            + vstd::utf8::encode_utf8(b));
    }
}

} // verus!
