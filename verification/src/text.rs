//! Numbers as text, and the few string operations that the other modules build on.

use vstd::prelude::*;

verus! {

/// `String::push` appends its character to the end of the string and changes nothing else.
pub assume_specification[ String::push ](s: &mut String, c: char)
    ensures
        final(s)@ == old(s)@.push(c),
;

/// The digit `d` of a number written in a base of at most sixteen, with lower-case letters.
pub open spec fn digit_char(d: nat) -> char {
    if d < 10 {
        ('0' as nat + d) as char
    } else {
        ('a' as nat + d - 10) as char
    }
}

/// `n` written in base `base`, without leading zeros.
pub open spec fn digits(n: nat, base: nat) -> Seq<char>
    decreases n,
{
    if n < base || base < 2 {
        seq![digit_char(n)]
    } else {
        proof {
            vstd::arithmetic::div_mod::lemma_div_decreases(n as int, base as int);
        }
        digits(n / base, base).push(digit_char(n % base))
    }
}

/// `n` written in base `base`, filled up with leading zeros to at least `width` digits.
pub open spec fn padded(n: nat, base: nat, width: nat) -> Seq<char> {
    let text = digits(n, base);
    if text.len() < width {
        Seq::new((width - text.len()) as nat, |i: int| '0') + text
    } else {
        text
    }
}

/// `n` in decimal.
pub open spec fn decimal(n: nat) -> Seq<char> {
    digits(n, 10)
}

/// The digit `d`.
pub fn digit(d: u8) -> (c: char)
    requires
        d < 16,
    ensures
        c == digit_char(d as nat),
{
    if d < 10 {
        (48u8 + d) as char
    } else {
        (97u8 + (d - 10)) as char
    }
}

/// Appends `n` in base `base`.
pub fn push_digits(out: &mut String, n: u64, base: u64)
    requires
        2 <= base <= 16,
    ensures
        final(out)@ == old(out)@ + digits(n as nat, base as nat),
    decreases n,
{
    if n < base {
        out.push(digit(n as u8));
    } else {
        proof {
            vstd::arithmetic::div_mod::lemma_div_decreases(n as int, base as int);
            vstd::arithmetic::div_mod::lemma_mod_bound(n as int, base as int);
        }
        push_digits(out, n / base, base);
        out.push(digit((n % base) as u8));
    }
    assert(out@ == old(out)@ + digits(n as nat, base as nat));
}

/// Appends `n` in base `base`, zero-filled to at least `width` digits.
pub fn push_padded(out: &mut String, n: u64, base: u64, width: usize)
    requires
        2 <= base <= 16,
    ensures
        final(out)@ == old(out)@ + padded(n as nat, base as nat, width as nat),
{
    let mut text = String::new();
    push_digits(&mut text, n, base);
    let ghost before = out@;
    assert(text@ == digits(n as nat, base as nat));
    let len: usize = text.as_str().unicode_len();
    let mut i: usize = len;
    while i < width
        invariant
            text@.len() == len,
            len <= i,
            i <= width || i == len,
            out@ == before + Seq::new((i - len) as nat, |k: int| '0'),
        decreases width - i,
    {
        out.push('0');
        assert(before + Seq::new((i - len) as nat, |k: int| '0').push('0') == before + Seq::new(
            (i + 1 - len) as nat,
            |k: int| '0',
        ));
        i = i + 1;
    }
    out.append(text.as_str());
    assert(out@ == before + padded(n as nat, base as nat, width as nat));
}

/// `c` with an upper-case ASCII letter turned into its lower-case form.
pub open spec fn lower_char(c: char) -> char {
    if 'A' <= c <= 'Z' {
        (c as nat + 32) as char
    } else {
        c
    }
}

/// `s` with every upper-case ASCII letter turned into its lower-case form.
pub open spec fn lowercased(s: Seq<char>) -> Seq<char> {
    s.map_values(|c: char| lower_char(c))
}

/// The text in lower case, ASCII letters only.
pub fn to_ascii_lowercase(text: &str) -> (r: String)
    ensures
        r@ == lowercased(text@),
{
    let mut out = String::new();
    for c in it: text.chars()
        invariant
            it.seq() == text@,
            out@ == lowercased(text@.take(it.index() as int)),
    {
        let ghost before = out@;
        if c >= 'A' && c <= 'Z' {
            out.push((c as u8 + 32) as char);
        } else {
            out.push(c);
        }
        assert(text@.take(it.index() + 1) == text@.take(it.index() as int).push(c));
        assert(out@ == lowercased(text@.take(it.index() + 1)));
    }
    assert(text@.take(text@.len() as int) == text@);
    out
}

/// Whether the two texts are the same.
pub fn same_text(a: &str, b: &str) -> (r: bool)
    ensures
        r == (a@ == b@),
{
    a.to_owned() == b.to_owned()
}

/// What follows `prefix` in `s`, where `s` starts with it.
pub open spec fn after_prefix(s: Seq<char>, prefix: Seq<char>) -> Option<Seq<char>> {
    if prefix.is_prefix_of(s) {
        Some(s.skip(prefix.len() as int))
    } else {
        None
    }
}

/// What follows `prefix` in `text`, if `text` starts with it.
pub fn strip_prefix<'a>(text: &'a str, prefix: &str) -> (r: Option<&'a str>)
    ensures
        match r {
            Some(rest) => after_prefix(text@, prefix@) == Some(rest@),
            None => after_prefix(text@, prefix@) is None,
        },
{
    let total: usize = text.unicode_len();
    let n: usize = prefix.unicode_len();
    if total >= n && same_text(text.substring_char(0, n), prefix) {
        assert(prefix@.is_prefix_of(text@));
        assert(text@.subrange(n as int, total as int) == text@.skip(n as int));
        Some(text.substring_char(n, total))
    } else {
        assert(!prefix@.is_prefix_of(text@)) by {
            if prefix@.is_prefix_of(text@) {
                assert(text@.subrange(0, n as int) == prefix@);
            }
        }
        None
    }
}

} // verus!
