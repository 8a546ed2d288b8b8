//! Building and scanning text.

use vstd::prelude::*;
use vstd::string::*;

verus! {

/// `String::push` appends one character.
pub assume_specification[ String::push ](s: &mut String, c: char)
    ensures
        final(s)@ == old(s)@.push(c),
;

/// Whether two strings hold the same characters.
pub fn same_text(a: &str, b: &str) -> (r: bool)
    ensures
        r == (a@ == b@),
{
    a.to_owned() == b.to_owned()
}

/// The character of a decimal digit.
pub open spec fn digit_char(d: nat) -> char {
    (48 + d) as u8 as char
}

/// `n` in decimal, without leading zeros.
pub open spec fn decimal(n: nat) -> Seq<char>
    decreases n,
{
    if n < 10 {
        seq![digit_char(n)]
    } else {
        decimal(n / 10).push(digit_char(n % 10))
    }
}

/// `n` in decimal, with a minus sign where it is negative.
pub open spec fn signed_decimal(n: int) -> Seq<char> {
    if n < 0 {
        seq!['-'] + decimal((-n) as nat)
    } else {
        decimal(n as nat)
    }
}

/// Appends `n` in decimal.
pub fn push_decimal(out: &mut String, n: u64)
    ensures
        final(out)@ == old(out)@ + decimal(n as nat),
    decreases n,
{
    if n >= 10 {
        push_decimal(out, n / 10);
    }
    let digit: u8 = (n % 10) as u8;
    out.push((48 + digit) as char);
    assert(out@ =~= old(out)@ + decimal(n as nat));
}

/// Appends `n` in decimal, signed.
pub fn push_signed(out: &mut String, n: i64)
    ensures
        final(out)@ == old(out)@ + signed_decimal(n as int),
{
    if n < 0 {
        out.push('-');
        if n == i64::MIN {
            push_decimal(out, 0x8000_0000_0000_0000);
        } else {
            push_decimal(out, (-n) as u64);
        }
        assert(out@ =~= old(out)@ + signed_decimal(n as int));
    } else {
        push_decimal(out, n as u64);
    }
}

/// The characters of a string.
pub fn chars_of(s: &str) -> (v: Vec<char>)
    ensures
        v@ == s@,
{
    let mut v: Vec<char> = Vec::new();
    for c in it: s.chars()
        invariant
            v@ == s@.take(it.index()),
            it.seq() == s@,
    {
        v.push(c);
        assert(v@ =~= s@.take(it.index() + 1));
    }
    assert(s@.take(s@.len() as int) =~= s@);
    v
}

/// White space, as Unicode lists it.
pub open spec fn is_space(c: char) -> bool {
    ||| '\u{9}' <= c <= '\u{d}'
    ||| c == '\u{20}'
    ||| c == '\u{85}'
    ||| c == '\u{a0}'
    ||| c == '\u{1680}'
    ||| '\u{2000}' <= c <= '\u{200a}'
    ||| c == '\u{2028}'
    ||| c == '\u{2029}'
    ||| c == '\u{202f}'
    ||| c == '\u{205f}'
    ||| c == '\u{3000}'
}

/// Whether a character is white space.
pub fn space(c: char) -> (r: bool)
    ensures
        r == is_space(c),
{
    ('\u{9}' <= c && c <= '\u{d}') || c == '\u{20}' || c == '\u{85}' || c == '\u{a0}' || c
        == '\u{1680}' || ('\u{2000}' <= c && c <= '\u{200a}') || c == '\u{2028}' || c == '\u{2029}'
        || c == '\u{202f}' || c == '\u{205f}' || c == '\u{3000}'
}

/// `s` without the white space at its start.
pub open spec fn trim_start(s: Seq<char>) -> Seq<char>
    decreases s.len(),
{
    if s.len() > 0 && is_space(s.first()) {
        trim_start(s.drop_first())
    } else {
        s
    }
}

/// `s` without the white space at its end.
pub open spec fn trim_end(s: Seq<char>) -> Seq<char>
    decreases s.len(),
{
    if s.len() > 0 && is_space(s.last()) {
        trim_end(s.drop_last())
    } else {
        s
    }
}

/// `s` without the white space at both ends.
pub open spec fn trimmed(s: Seq<char>) -> Seq<char> {
    trim_end(trim_start(s))
}

/// The part of `s` between the white space at its two ends.
pub fn trim(s: &str) -> (r: &str)
    ensures
        r@ == trimmed(s@),
{
    let chars = chars_of(s);
    let mut start: usize = 0;
    assert(s@.skip(0) =~= s@);
    while start < chars.len() && space(chars[start])
        invariant
            start <= chars.len(),
            chars@ == s@,
            trim_start(s@) == trim_start(s@.skip(start as int)),
        decreases chars.len() - start,
    {
        assert(s@.skip(start as int).drop_first() =~= s@.skip(start + 1));
        start = start + 1;
    }
    let ghost rest = s@.skip(start as int);
    assert(trim_start(s@) == rest);
    let mut end: usize = chars.len();
    assert(s@.subrange(start as int, end as int) =~= rest);
    while end > start && space(chars[end - 1])
        invariant
            start <= end <= chars.len(),
            chars@ == s@,
            trim_end(rest) == trim_end(s@.subrange(start as int, end as int)),
        decreases end,
    {
        assert(s@.subrange(start as int, end as int).drop_last() =~= s@.subrange(
            start as int,
            end - 1,
        ));
        end = end - 1;
    }
    s.substring_char(start, end)
}

/// `s` begins with `prefix`.
pub open spec fn begins_with(s: Seq<char>, prefix: Seq<char>) -> bool {
    s.len() >= prefix.len() && s.take(prefix.len() as int) == prefix
}

/// What follows a prefix.
pub fn after_prefix<'a>(s: &'a str, prefix: &str) -> (r: Option<&'a str>)
    ensures
        r is Some <==> begins_with(s@, prefix@),
        r matches Some(rest) ==> rest@ == s@.skip(prefix@.len() as int),
{
    let n: usize = s.unicode_len();
    let k: usize = prefix.unicode_len();
    if n >= k && same_text(s.substring_char(0, k), prefix) {
        Some(s.substring_char(k, n))
    } else {
        None
    }
}

/// The text that `String::from_utf8_lossy` makes of some bytes.
pub uninterp spec fn lossy_of(bytes: Seq<u8>) -> Seq<char>;

/// `String::from_utf8_lossy`: the text that the bytes encode, where they are
/// UTF-8. Of other bytes only that the text is a function of them is stated,
/// not which characters stand for what cannot be decoded.
#[verifier::external_body]
pub(crate) fn lossy_text(bytes: &[u8]) -> (r: String)
    ensures
        r@ == lossy_of(bytes@),
        vstd::utf8::valid_utf8(bytes@) ==> r@ == vstd::utf8::decode_utf8(bytes@),
{
    String::from_utf8_lossy(bytes).into_owned()
}

/// The number that decimal digits spell.
pub open spec fn numeral(digits: Seq<char>) -> int
    decreases digits.len(),
{
    if digits.len() == 0 {
        0
    } else {
        10 * numeral(digits.drop_last()) + (digits.last() as int - 48)
    }
}

/// A number's digits spell the number, and the first is no zero where there are
/// more.
pub proof fn law_digits_spell_the_number(n: nat)
    ensures
        decimal(n).len() > 0,
        numeral(decimal(n)) == n,
        forall|i: int| 0 <= i < decimal(n).len() ==> '0' <= #[trigger] decimal(n)[i] <= '9',
        decimal(n).len() > 1 ==> decimal(n)[0] != '0',
        n > 0 ==> decimal(n)[0] != '0',
    decreases n,
{
    if n >= 10 {
        law_digits_spell_the_number(n / 10);
        assert(decimal(n).drop_last() =~= decimal(n / 10));
        assert(decimal(n).last() == digit_char(n % 10));
        assert(numeral(decimal(n)) == 10 * numeral(decimal(n / 10)) + n % 10);
    } else {
        assert(decimal(n).drop_last() =~= Seq::<char>::empty());
        assert(numeral(Seq::<char>::empty()) == 0);
        assert(decimal(n).last() == digit_char(n));
        assert(numeral(decimal(n)) == 10 * numeral(decimal(n).drop_last()) + n);
    }
}

/// A negative number is written with a minus sign before its digits, any other
/// without.
pub proof fn law_minus_sign(n: int)
    ensures
        n >= 0 ==> numeral(signed_decimal(n)) == n && '0' <= signed_decimal(n)[0] <= '9',
        n < 0 ==> signed_decimal(n).len() > 1 && signed_decimal(n)[0] == '-' && numeral(
            signed_decimal(n).skip(1),
        ) == -n,
{
    if n < 0 {
        law_digits_spell_the_number((-n) as nat);
        assert(signed_decimal(n).skip(1) =~= decimal((-n) as nat));
    } else {
        law_digits_spell_the_number(n as nat);
    }
}

/// What is trimmed off is white space, and nothing of it is left at the ends.
pub proof fn law_trimming_takes_white_space(s: Seq<char>) -> (ends: (int, int))
    ensures
        0 <= ends.0 <= ends.1 <= s.len(),
        trimmed(s) == s.subrange(ends.0, ends.1),
        forall|i: int| 0 <= i < ends.0 || ends.1 <= i < s.len() ==> is_space(#[trigger] s[i]),
        trimmed(s).len() > 0 ==> !is_space(trimmed(s).first()) && !is_space(trimmed(s).last()),
{
    let start = lemma_trim_start(s);
    let rest = trim_start(s);
    let len = lemma_trim_end(rest);
    assert(trimmed(s) =~= s.subrange(start, start + len));
    assert forall|i: int| 0 <= i < start || start + len <= i < s.len() implies is_space(
        #[trigger] s[i],
    ) by {
        if i >= start + len {
            assert(rest[i - start] == s[i]);
        }
    }
    (start, start + len)
}

/// The white space at the start ends where the rest begins.
pub(crate) proof fn lemma_trim_start(s: Seq<char>) -> (start: int)
    ensures
        0 <= start <= s.len(),
        trim_start(s) == s.skip(start),
        forall|i: int| 0 <= i < start ==> is_space(#[trigger] s[i]),
        start < s.len() ==> !is_space(s[start]),
    decreases s.len(),
{
    if s.len() > 0 && is_space(s.first()) {
        let rest = s.drop_first();
        let start = lemma_trim_start(rest);
        assert(s.skip(start + 1) =~= rest.skip(start));
        assert forall|i: int| 0 <= i < start + 1 implies is_space(#[trigger] s[i]) by {
            if i > 0 {
                assert(rest[i - 1] == s[i]);
            }
        }
        start + 1
    } else {
        assert(s.skip(0) =~= s);
        0
    }
}

proof fn lemma_trim_end(s: Seq<char>) -> (len: int)
    ensures
        0 <= len <= s.len(),
        trim_end(s) == s.take(len),
        forall|i: int| len <= i < s.len() ==> is_space(#[trigger] s[i]),
        len > 0 ==> !is_space(s[len - 1]),
    decreases s.len(),
{
    if s.len() > 0 && is_space(s.last()) {
        let rest = s.drop_last();
        let len = lemma_trim_end(rest);
        assert(s.take(len) =~= rest.take(len));
        assert forall|i: int| len <= i < s.len() implies is_space(#[trigger] s[i]) by {
            if i < rest.len() {
                assert(rest[i] == s[i]);
            }
        }
        len
    } else {
        assert(s.take(s.len() as int) =~= s);
        s.len() as int
    }
}

/// Among the characters of ASCII, the tab, the four line breaks and the blank
/// are white space, and no others.
pub proof fn law_ascii_white_space(c: char)
    requires
        (c as int) < 128,
    ensures
        is_space(c) <==> c == '\t' || c == '\n' || c == '\u{b}' || c == '\u{c}' || c == '\r' || c
            == ' ',
{
}

/// A text begins with a prefix exactly where it is that prefix and something
/// behind it, which is then what is left.
pub proof fn law_prefix_and_rest(s: Seq<char>, prefix: Seq<char>, rest: Seq<char>)
    ensures
        begins_with(prefix + rest, prefix),
        (prefix + rest).skip(prefix.len() as int) == rest,
        begins_with(s, prefix) ==> s == prefix + s.skip(prefix.len() as int),
{
    assert((prefix + rest).take(prefix.len() as int) =~= prefix);
    assert((prefix + rest).skip(prefix.len() as int) =~= rest);
    if begins_with(s, prefix) {
        assert(s =~= s.take(prefix.len() as int) + s.skip(prefix.len() as int));
    }
}

/// White space, by the numbers of its characters: tab to return, the space, the
/// next-line and no-break characters, and the spaces and separators of other
/// scripts.
pub proof fn law_white_space_by_number(c: char)
    ensures
        is_space(c) <==> {
            let n = c as int;
            ||| 9 <= n <= 13
            ||| n == 32
            ||| n == 133
            ||| n == 160
            ||| n == 5760
            ||| 8192 <= n <= 8202
            ||| 8232 <= n <= 8233
            ||| n == 8239
            ||| n == 8287
            ||| n == 12288
        },
{
}

} // verus!
