//! String splitting, trimming and number parsing as the standard library
//! defines them, over the character view of a string.
use vstd::prelude::*;
use vstd::utf8::{decode_utf8, encode_utf8, is_ascii_chars};
use crate::text::{dec_digits, digit_byte, lemma_dec_digits_are_digits};

verus! {

/// Unicode `White_Space` characters.
pub open spec fn is_white_space(c: char) -> bool {
    ||| ('\u{9}' <= c <= '\u{D}')
    ||| c == ' '
    ||| c == '\u{85}'
    ||| c == '\u{A0}'
    ||| c == '\u{1680}'
    ||| ('\u{2000}' <= c <= '\u{200A}')
    ||| c == '\u{2028}'
    ||| c == '\u{2029}'
    ||| c == '\u{202F}'
    ||| c == '\u{205F}'
    ||| c == '\u{3000}'
}

/// Length of the run of non-white-space characters at the start of `s`.
pub open spec fn word_len(s: Seq<char>) -> nat
    decreases s.len(),
{
    if s.len() == 0 || is_white_space(s[0]) {
        0
    } else {
        1 + word_len(s.drop_first())
    }
}

/// The maximal runs of non-white-space characters of `s`, in order.
pub open spec fn words(s: Seq<char>) -> Seq<Seq<char>>
    decreases s.len(),
{
    if s.len() == 0 {
        Seq::empty()
    } else if is_white_space(s[0]) {
        words(s.drop_first())
    } else {
        let n = word_len(s);
        proof {
            lemma_word_len_bound(s);
        }
        seq![s.take(n as int)] + words(s.skip(n as int))
    }
}

pub proof fn lemma_word_len_bound(s: Seq<char>)
    ensures
        word_len(s) <= s.len(),
        s.len() > 0 && !is_white_space(s[0]) ==> word_len(s) >= 1,
    decreases s.len(),
{
    if s.len() > 0 && !is_white_space(s[0]) {
        lemma_word_len_bound(s.drop_first());
    }
}

/// Number of white-space characters at the start of `s`.
pub open spec fn leading_space(s: Seq<char>) -> nat
    decreases s.len(),
{
    if s.len() > 0 && is_white_space(s[0]) {
        1 + leading_space(s.drop_first())
    } else {
        0
    }
}

/// Number of white-space characters at the end of `s`.
pub open spec fn trailing_space(s: Seq<char>) -> nat
    decreases s.len(),
{
    if s.len() > 0 && is_white_space(s.last()) {
        1 + trailing_space(s.drop_last())
    } else {
        0
    }
}

/// `s` without leading and trailing white space.
pub open spec fn trimmed(s: Seq<char>) -> Seq<char> {
    let t = s.skip(leading_space(s) as int);
    t.take(t.len() - trailing_space(t))
}

/// The value of a sequence of decimal digit characters.
pub open spec fn digits_value(s: Seq<char>) -> nat
    decreases s.len(),
{
    if s.len() == 0 {
        0
    } else {
        (digits_value(s.drop_last()) * 10 + (s.last() as nat) - 48) as nat
    }
}

/// The value of `c` as a digit in bases up to 36: `0`-`9`, then `a`-`z`
/// (or `A`-`Z`) for 10 to 35; 36 for any other character.
pub open spec fn digit_value(c: char) -> nat {
    if '0' <= c <= '9' {
        ((c as nat) - 48) as nat
    } else if 'a' <= c <= 'z' {
        ((c as nat) - 87) as nat
    } else if 'A' <= c <= 'Z' {
        ((c as nat) - 55) as nat
    } else {
        36
    }
}

/// The value of a sequence of digits in base `radix`.
pub open spec fn radix_value(s: Seq<char>, radix: nat) -> nat
    decreases s.len(),
{
    if s.len() == 0 {
        0
    } else {
        radix_value(s.drop_last(), radix) * radix + digit_value(s.last())
    }
}

/// The digits after an optional leading `+`.
pub open spec fn unsigned_digits(s: Seq<char>) -> Seq<char> {
    if s.len() > 0 && s[0] == '+' {
        s.drop_first()
    } else {
        s
    }
}

/// What `u64::from_str` gives: the value of an optional `+` followed by at
/// least one decimal digit, when it fits in 64 bits.
pub open spec fn parse_u64_spec(s: Seq<char>) -> Option<u64> {
    let d = unsigned_digits(s);
    if d.len() > 0 && (forall|i: int| 0 <= i < d.len() ==> '0' <= #[trigger] d[i] <= '9') && digits_value(d)
        <= u64::MAX {
        Some(digits_value(d) as u64)
    } else {
        None
    }
}

/// What `u64::from_str_radix(_, radix)` gives: the value of an optional `+`
/// followed by at least one digit below `radix`, when it fits in 64 bits.
pub open spec fn parse_radix_u64_spec(s: Seq<char>, radix: nat) -> Option<u64> {
    let d = unsigned_digits(s);
    if d.len() > 0 && (forall|i: int| 0 <= i < d.len() ==> digit_value(#[trigger] d[i]) < radix) && radix_value(
        d,
        radix,
    ) <= u64::MAX {
        Some(radix_value(d, radix) as u64)
    } else {
        None
    }
}

/// `s` with every leading repetition of `pat` removed (nothing is removed
/// for an empty `pat`).
pub open spec fn without_prefixes(s: Seq<char>, pat: Seq<char>) -> Seq<char>
    decreases s.len(),
{
    if pat.len() > 0 && pat.len() <= s.len() && s.take(pat.len() as int) == pat {
        without_prefixes(s.skip(pat.len() as int), pat)
    } else {
        s
    }
}

/// `str::split_whitespace`, collected: the words of `s` in order. The
/// contract states the documented behaviour: split at Unicode white space,
/// no empty pieces.
#[verifier::external_body]
pub(crate) fn split_whitespace(s: &str) -> (v: Vec<&str>)
    ensures
        v@.len() == words(s@).len(),
        forall|i: int| 0 <= i < v@.len() ==> #[trigger] v@[i]@ == words(s@)[i],
{
    s.split_whitespace().collect()
}

/// `str::trim`: `s` without leading and trailing Unicode white space.
#[verifier::external_body]
pub(crate) fn trim(s: &str) -> (t: &str)
    ensures
        t@ == trimmed(s@),
{
    s.trim()
}

/// `u64::from_str` (`str::parse::<u64>`), with the error dropped: a value
/// exactly when the text is an optional `+` and decimal digits whose value
/// fits in 64 bits.
#[verifier::external_body]
pub(crate) fn parse_u64(s: &str) -> (r: Option<u64>)
    ensures
        r == parse_u64_spec(s@),
{
    s.parse::<u64>().ok()
}

/// `u64::from_str_radix`, with the error dropped: a value exactly when the
/// text is an optional `+` and at least one digit below `radix` whose value
/// fits in 64 bits. The standard library panics for a radix outside 2..=36.
#[verifier::external_body]
pub(crate) fn parse_radix_u64(s: &str, radix: u32) -> (r: Option<u64>)
    requires
        2 <= radix <= 36,
    ensures
        r == parse_radix_u64_spec(s@, radix as nat),
{
    u64::from_str_radix(s, radix).ok()
}

/// `str::trim_start_matches` with a string pattern: `s` with every leading
/// repetition of `pat` removed.
#[verifier::external_body]
pub(crate) fn trim_start_matches<'a>(s: &'a str, pat: &str) -> (r: &'a str)
    ensures
        r@ == without_prefixes(s@, pat@),
{
    s.trim_start_matches(pat)
}

/// `String::push`: appends the character.
#[verifier::external_body]
pub(crate) fn string_push(s: &mut String, c: char)
    ensures
        final(s)@ == old(s)@.push(c),
{
    s.push(c)
}

/// `String::pop`: removes and gives the last character, or gives `None` and
/// leaves an empty string as it is.
#[verifier::external_body]
pub(crate) fn string_pop(s: &mut String) -> (r: Option<char>)
    ensures
        old(s)@.len() == 0 ==> r is None && final(s)@ == old(s)@,
        old(s)@.len() > 0 ==> r == Some(old(s)@.last()) && final(s)@ == old(s)@.drop_last(),
{
    s.pop()
}


/// The characters of an ASCII byte sequence.
pub open spec fn ascii_chars(b: Seq<u8>) -> Seq<char> {
    b.map_values(|x: u8| x as char)
}

proof fn lemma_dec_chars_value(n: nat)
    ensures
        digits_value(ascii_chars(dec_digits(n))) == n,
        forall|i: int| 0 <= i < dec_digits(n).len() ==> '0' <= #[trigger] ascii_chars(dec_digits(n))[i] <= '9',
    decreases n,
{
    lemma_dec_digits_are_digits(n);
    let c = ascii_chars(dec_digits(n));
    let d = digit_byte(n % 10);
    assert(dec_digits(n).last() == d);
    assert(c.last() == d as char);
    assert((d as char) as nat == d as nat);
    assert(c.len() == dec_digits(n).len());
    if n < 10 {
        assert(c.drop_last() =~= Seq::<char>::empty());
        assert(digits_value(c) == digits_value(c.drop_last()) * 10 + (c.last() as nat) - 48);
    } else {
        lemma_dec_chars_value(n / 10);
        lemma_dec_digits_are_digits(n / 10);
        assert(c.drop_last() =~= ascii_chars(dec_digits(n / 10)));
        assert(digits_value(c) == digits_value(c.drop_last()) * 10 + (c.last() as nat) - 48);
        assert((n / 10) * 10 + n % 10 == n);
    }
}

/// A number written out in decimal reads back as the same number: the id
/// that a listing shows, typed back as a command argument, names the same
/// thing.
pub proof fn decimal_reads_back(n: u64)
    ensures
        parse_u64_spec(decode_utf8(dec_digits(n as nat))) == Some(n),
{
    let b = dec_digits(n as nat);
    let c = ascii_chars(b);
    lemma_dec_chars_value(n as nat);
    lemma_dec_digits_are_digits(n as nat);
    assert(is_ascii_chars(c));
    vstd::utf8::is_ascii_chars_encode_utf8(c);
    assert(encode_utf8(c) =~= b);
    vstd::utf8::encode_utf8_decode_utf8(c);
    assert(unsigned_digits(c) == c);
}

} // verus!
