//! Text building blocks: character classification, decimal digits and the
//! escaping used when framing JSON payloads.

use vstd::prelude::*;

verus! {

/// What `char::is_alphanumeric` returns for a character.  The full definition
/// enumerates the Unicode letter and number categories, so the result is only
/// given a name here; the facts below cover the characters the contracts need.
pub uninterp spec fn char_is_alphanumeric(c: char) -> bool;

/// Relies on `char::is_alphanumeric` of std: true exactly for Unicode letters
/// and numbers, so in particular true for ASCII letters and digits and false
/// for space, hyphen and underscore.
pub assume_specification[ char::is_alphanumeric ](c: char) -> (r: bool)
    ensures
        r == char_is_alphanumeric(c),
        'a' <= c && c <= 'z' ==> r,
        'A' <= c && c <= 'Z' ==> r,
        '0' <= c && c <= '9' ==> r,
        c == ' ' || c == '-' || c == '_' ==> !r,
;

/// Relies on `String::push` of std: appends the given character to the end of
/// the string.
pub assume_specification[ String::push ](s: &mut String, ch: char)
    ensures
        final(s)@ == old(s)@.push(ch),
;

/// Every character of the key, with everything that is not alphanumeric
/// replaced by an underscore.
pub open spec fn sanitized(s: Seq<char>) -> Seq<char> {
    Seq::new(s.len(), |i: int| if char_is_alphanumeric(s[i]) {
        s[i]
    } else {
        '_'
    })
}

/// Replaces every non-alphanumeric character by `_`, so that the result can
/// serve as a topic segment and object id.
pub fn sanitize(s: &str) -> (r: String)
    ensures
        r@ == sanitized(s@),
{
    let len = s.unicode_len();
    let mut out = String::new();
    let mut i: usize = 0;
    while i < len
        invariant
            len == s@.len(),
            i <= len,
            out@ == sanitized(s@).take(i as int),
        decreases len - i,
    {
        let c = s.get_char(i);
        if c.is_alphanumeric() {
            out.push(c);
        } else {
            out.push('_');
        }
        i = i + 1;
        assert(out@ =~= sanitized(s@).take(i as int));
    }
    assert(sanitized(s@).take(len as int) =~= sanitized(s@));
    out
}

/// How one character is rendered inside a JSON string: quote and backslash
/// get a backslash escape, everything else stands as itself.
pub open spec fn json_escaped_char(c: char) -> Seq<char> {
    if c == '"' {
        seq!['\\', '"']
    } else if c == '\\' {
        seq!['\\', '\\']
    } else {
        seq![c]
    }
}

/// A whole string rendered inside a JSON string literal.
pub open spec fn json_escaped(s: Seq<char>) -> Seq<char>
    decreases s.len(),
{
    if s.len() == 0 {
        Seq::empty()
    } else {
        json_escaped(s.drop_last()) + json_escaped_char(s.last())
    }
}

/// Escapes a string for use inside a JSON string literal.
pub fn json_escape(s: &str) -> (r: String)
    ensures
        r@ == json_escaped(s@),
{
    let len = s.unicode_len();
    let mut out = String::new();
    let mut i: usize = 0;
    while i < len
        invariant
            len == s@.len(),
            i <= len,
            out@ == json_escaped(s@.take(i as int)),
        decreases len - i,
    {
        let c = s.get_char(i);
        if c == '"' {
            out.push('\\');
            out.push('"');
        } else if c == '\\' {
            out.push('\\');
            out.push('\\');
        } else {
            out.push(c);
        }
        i = i + 1;
        proof {
            assert(s@.take(i as int).drop_last() =~= s@.take(i - 1));
            assert(s@.take(i as int).last() == s@[i - 1]);
        }
    }
    proof {
        assert(s@.take(len as int) =~= s@);
    }
    out
}

/// The character for one decimal digit.
pub open spec fn digit_char(d: int) -> char {
    ((48 + d) as u8) as char
}

/// A value below one hundred as two decimal digits.
pub open spec fn two_digits(v: int) -> Seq<char> {
    seq![digit_char(v / 10), digit_char(v % 10)]
}

/// A value below ten thousand as four decimal digits.
pub open spec fn four_digits(v: int) -> Seq<char> {
    seq![
        digit_char(v / 1000),
        digit_char((v / 100) % 10),
        digit_char((v / 10) % 10),
        digit_char(v % 10),
    ]
}

/// A nonnegative value in ordinary decimal notation, no padding.
pub open spec fn dec_digits(v: int) -> Seq<char>
    decreases v,
{
    if v < 10 {
        seq![digit_char(v)]
    } else {
        dec_digits(v / 10).push(digit_char(v % 10))
    }
}

/// Appends `v` in ordinary decimal notation.
pub fn push_decimal(out: &mut String, v: u32)
    ensures
        final(out)@ == old(out)@ + dec_digits(v as int),
    decreases v,
{
    if v < 10 {
        out.push(((48 + v) as u8) as char);
    } else {
        push_decimal(out, v / 10);
        out.push(((48 + v % 10) as u8) as char);
    }
    assert(out@ =~= old(out)@ + dec_digits(v as int));
}

/// Appends `v` as exactly two decimal digits, zero padded.
pub fn push_two_digits(out: &mut String, v: u32)
    requires
        v < 100,
    ensures
        final(out)@ == old(out)@ + two_digits(v as int),
{
    out.push(((48 + v / 10) as u8) as char);
    out.push(((48 + v % 10) as u8) as char);
    assert(out@ =~= old(out)@ + two_digits(v as int));
}

/// Appends `v` as exactly four decimal digits, zero padded.
pub fn push_four_digits(out: &mut String, v: u32)
    requires
        v < 10000,
    ensures
        final(out)@ == old(out)@ + four_digits(v as int),
{
    out.push(((48 + v / 1000) as u8) as char);
    out.push(((48 + (v / 100) % 10) as u8) as char);
    out.push(((48 + (v / 10) % 10) as u8) as char);
    out.push(((48 + v % 10) as u8) as char);
    assert(out@ =~= old(out)@ + four_digits(v as int));
}

} // verus!
