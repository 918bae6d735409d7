//! Character classification and string building used by the scanner and the
//! virtual machine.
use vstd::prelude::*;

verus! {

/// Whether `char::is_numeric` holds of `c` (Unicode general categories Nd, Nl, No).
pub uninterp spec fn char_is_numeric(c: char) -> bool;

/// Whether `char::is_alphabetic` holds of `c` (the Unicode `Alphabetic` property).
pub uninterp spec fn char_is_alphabetic(c: char) -> bool;

/// Whether `c` has the Unicode `White_Space` property, the characters that
/// `str::trim` removes: U+0009..U+000D, space, U+0085, U+00A0, U+1680,
/// U+2000..U+200A, U+2028, U+2029, U+202F, U+205F and U+3000.
pub open spec fn char_is_whitespace(c: char) -> bool {
    let u = c as u32;
    ||| 0x09 <= u <= 0x0d
    ||| u == 0x20
    ||| u == 0x85
    ||| u == 0xa0
    ||| u == 0x1680
    ||| 0x2000 <= u <= 0x200a
    ||| u == 0x2028
    ||| u == 0x2029
    ||| u == 0x202f
    ||| u == 0x205f
    ||| u == 0x3000
}

/// Calls `char::is_numeric`. The result is the named property `char_is_numeric`;
/// the contract adds what the property is on ASCII: exactly the digits `0`..`9`.
/// Which other characters are numeric is left to the Unicode tables.
#[verifier::external_body]
pub fn is_numeric(c: char) -> (r: bool)
    ensures
        r == char_is_numeric(c),
        (c as u32) < 128 ==> (r <==> ('0' <= c && c <= '9')),
{
    c.is_numeric()
}

/// Calls `char::is_alphabetic`. The result is the named property `char_is_alphabetic`;
/// the contract adds what the property is on ASCII: exactly the letters `a`..`z`, `A`..`Z`.
#[verifier::external_body]
pub fn is_alphabetic(c: char) -> (r: bool)
    ensures
        r == char_is_alphabetic(c),
        (c as u32) < 128 ==> (r <==> (('a' <= c && c <= 'z') || ('A' <= c && c <= 'Z'))),
{
    c.is_alphabetic()
}

/// Whether `char::is_uppercase` holds of `c` (the Unicode `Uppercase` property).
pub uninterp spec fn char_is_uppercase(c: char) -> bool;

/// Calls `char::is_uppercase`. The result is the named property `char_is_uppercase`;
/// on ASCII it holds exactly of the letters `A`..`Z`.
#[verifier::external_body]
pub fn is_uppercase(c: char) -> (r: bool)
    ensures
        r == char_is_uppercase(c),
        (c as u32) < 128 ==> (r <==> ('A' <= c && c <= 'Z')),
{
    c.is_uppercase()
}

/// Calls `String::push`: the string afterwards holds its old characters followed by `c`.
#[verifier::external_body]
pub fn push_char(s: &mut String, c: char)
    ensures
        final(s)@ == old(s)@.push(c),
{
    s.push(c)
}

/// The number of bytes that UTF-8 takes for `c` (what `char::len_utf8` returns).
pub open spec fn char_utf8_len(c: char) -> nat {
    if (c as u32) < 0x80 {
        1
    } else if (c as u32) < 0x800 {
        2
    } else if (c as u32) < 0x10000 {
        3
    } else {
        4
    }
}

/// The number of bytes that UTF-8 takes for the characters `s`.
pub open spec fn utf8_len(s: Seq<char>) -> nat
    decreases s.len(),
{
    if s.len() == 0 {
        0
    } else {
        utf8_len(s.drop_last()) + char_utf8_len(s.last())
    }
}

/// `char::len_utf8`, computed from the scalar value.
pub fn len_utf8(c: char) -> (r: usize)
    ensures
        r == char_utf8_len(c),
        1 <= r <= 4,
{
    let v = c as u32;
    if v < 0x80 {
        1
    } else if v < 0x800 {
        2
    } else if v < 0x10000 {
        3
    } else {
        4
    }
}

/// The UTF-8 length of a sequence is at most four bytes per character.
pub proof fn lemma_utf8_len_bound(s: Seq<char>)
    ensures
        s.len() <= utf8_len(s) <= 4 * s.len(),
    decreases s.len(),
{
    if s.len() > 0 {
        lemma_utf8_len_bound(s.drop_last());
    }
}

/// The number of bytes that UTF-8 takes for `s[from..to]`.
pub fn utf8_len_range(s: &Vec<char>, from: usize, to: usize) -> (n: usize)
    requires
        from <= to <= s.len(),
        s.len() <= usize::MAX / 4,
    ensures
        n == utf8_len(s@.subrange(from as int, to as int)),
{
    let mut length: usize = 0;
    let mut i = from;
    while i < to
        invariant
            from <= i <= to <= s.len(),
            s.len() <= usize::MAX / 4,
            length == utf8_len(s@.subrange(from as int, i as int)),
        decreases to - i,
    {
        proof {
            lemma_utf8_len_bound(s@.subrange(from as int, i as int));
            assert(s@.subrange(from as int, i + 1).drop_last() =~= s@.subrange(from as int, i as int));
        }
        length = length + len_utf8(s[i]);
        i = i + 1;
    }
    length
}

/// The characters of `s`, in order.
pub fn chars_of(s: &str) -> (v: Vec<char>)
    ensures
        v@ == s@,
{
    let mut v: Vec<char> = Vec::new();
    for c in it: s.chars()
        invariant
            v@ == it.seq().take(it.index() as int),
    {
        v.push(c);
    }
    v
}

/// A `String` holding exactly the characters `s[from..to]`.
pub fn string_of(s: &Vec<char>, from: usize, to: usize) -> (r: String)
    requires
        from <= to <= s.len(),
    ensures
        r@ == s@.subrange(from as int, to as int),
{
    let mut r = String::new();
    let mut i = from;
    while i < to
        invariant
            from <= i <= to <= s.len(),
            r@ == s@.subrange(from as int, i as int),
        decreases to - i,
    {
        push_char(&mut r, s[i]);
        assert(r@ =~= s@.subrange(from as int, i + 1));
        i = i + 1;
    }
    r
}

/// A `String` holding the characters of `s`.
pub fn string_from(s: &str) -> (r: String)
    ensures
        r@ == s@,
{
    s.to_owned()
}

/// Appends the characters of `t` to `s`.
pub fn push_str(s: &mut String, t: &str)
    ensures
        final(s)@ == old(s)@ + t@,
{
    let chars = chars_of(t);
    let mut i: usize = 0;
    proof {
        assert(s@ + chars@.subrange(0, 0) =~= old(s)@);
    }
    while i < chars.len()
        invariant
            i <= chars.len(),
            chars@ == t@,
            s@ == old(s)@ + chars@.subrange(0, i as int),
        decreases chars.len() - i,
    {
        push_char(s, chars[i]);
        proof {
            assert(old(s)@ + chars@.subrange(0, i + 1) =~= (old(s)@ + chars@.subrange(
                0,
                i as int,
            )).push(chars@[i as int]));
        }
        i = i + 1;
    }
    proof {
        assert(chars@.subrange(0, chars@.len() as int) =~= chars@);
    }
}

/// The characters of `a`, then of `b`, then of `c`.
pub fn join3(a: &str, b: &str, c: &str) -> (r: String)
    ensures
        r@ == a@ + b@ + c@,
{
    let mut r = string_from(a);
    push_str(&mut r, b);
    push_str(&mut r, c);
    r
}

/// Whether `a` and `b` hold the same characters.
pub fn str_eq(a: &str, b: &str) -> (r: bool)
    ensures
        r == (a@ == b@),
{
    let x = chars_of(a);
    let y = chars_of(b);
    if x.len() != y.len() {
        return false;
    }
    let mut i: usize = 0;
    while i < x.len()
        invariant
            x@ == a@,
            y@ == b@,
            x.len() == y.len(),
            i <= x.len(),
            forall|k: int| 0 <= k < i ==> x@[k] == y@[k],
        decreases x.len() - i,
    {
        if x[i] != y[i] {
            return false;
        }
        i = i + 1;
    }
    assert(x@ =~= y@);
    true
}

/// Whether `c` is one of the ASCII digits `0`..`9`.
pub open spec fn is_ascii_digit(c: char) -> bool {
    '0' <= c && c <= '9'
}

/// The number that the decimal digits `s` write.
pub open spec fn decimal_value(s: Seq<char>) -> int
    decreases s.len(),
{
    if s.len() == 0 {
        0
    } else {
        decimal_value(s.drop_last()) * 10 + (s.last() as int - '0' as int)
    }
}

/// Whether `s` is a non-empty run of ASCII digits.
pub open spec fn all_digits(s: Seq<char>) -> bool {
    s.len() > 0 && forall|i: int| 0 <= i < s.len() ==> is_ascii_digit(#[trigger] s[i])
}

/// The integer that `s` writes as an optional sign (`+`, or `-` where
/// `negative_ok`) followed by a non-empty run of ASCII digits; `None` for any
/// other text.
pub open spec fn signed_decimal(s: Seq<char>, negative_ok: bool) -> Option<int> {
    if s.len() > 0 && (s[0] == '+' || (negative_ok && s[0] == '-')) {
        if all_digits(s.drop_first()) {
            Option::Some(
                if s[0] == '-' {
                    -decimal_value(s.drop_first())
                } else {
                    decimal_value(s.drop_first())
                },
            )
        } else {
            Option::None
        }
    } else if all_digits(s) {
        Option::Some(decimal_value(s))
    } else {
        Option::None
    }
}

/// What `str::parse` gives for an `i64` from the characters `s`: the value of
/// an optionally signed run of digits when it fits, else nothing.
pub open spec fn parsed_i64(s: Seq<char>) -> Option<i64> {
    match signed_decimal(s, true) {
        Option::Some(v) => if i64::MIN <= v <= i64::MAX {
            Option::Some(v as i64)
        } else {
            Option::None
        },
        Option::None => Option::None,
    }
}

/// What `str::parse` gives for a `u64` from the characters `s`: the value of a
/// run of digits, optionally after `+`, when it fits, else nothing.
pub open spec fn parsed_u64(s: Seq<char>) -> Option<u64> {
    match signed_decimal(s, false) {
        Option::Some(v) => if 0 <= v <= u64::MAX {
            Option::Some(v as u64)
        } else {
            Option::None
        },
        Option::None => Option::None,
    }
}

/// Calls `str::parse` for an `i64` (`i64::from_str`): an optional `+` or `-`,
/// then one or more ASCII digits, whose value must fit; anything else fails.
#[verifier::external_body]
pub fn parse_i64(s: &str) -> (r: Option<i64>)
    ensures
        r == parsed_i64(s@),
{
    s.parse::<i64>().ok()
}

/// Calls `str::parse` for a `u64` (`u64::from_str`): an optional `+`, then one
/// or more ASCII digits, whose value must fit; anything else fails.
#[verifier::external_body]
pub fn parse_u64(s: &str) -> (r: Option<u64>)
    ensures
        r == parsed_u64(s@),
{
    s.parse::<u64>().ok()
}

/// Whether `s` holds the character `c`.
pub fn contains_char(s: &str, c: char) -> (r: bool)
    ensures
        r == s@.contains(c),
{
    let chars = chars_of(s);
    let mut i: usize = 0;
    while i < chars.len()
        invariant
            chars@ == s@,
            i <= chars.len(),
            forall|k: int| 0 <= k < i ==> chars@[k] != c,
        decreases chars.len() - i,
    {
        if chars[i] == c {
            return true;
        }
        i = i + 1;
    }
    false
}

/// Whether every character of `s` is uppercase.
pub fn all_uppercase(s: &str) -> (r: bool)
    ensures
        r == (forall|i: int| 0 <= i < s@.len() ==> char_is_uppercase(#[trigger] s@[i])),
{
    let chars = chars_of(s);
    let mut i: usize = 0;
    while i < chars.len()
        invariant
            chars@ == s@,
            i <= chars.len(),
            forall|k: int| 0 <= k < i ==> char_is_uppercase(#[trigger] chars@[k]),
        decreases chars.len() - i,
    {
        if !is_uppercase(chars[i]) {
            return false;
        }
        i = i + 1;
    }
    true
}

} // verus!
