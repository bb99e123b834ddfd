//! Character classes and letter case beyond ASCII, which std knows.

use vstd::prelude::*;

use crate::text;
use crate::text::{chars_of, code_point};

verus! {

/// `c` is an ASCII character.
pub open spec fn is_ascii_char(c: char) -> bool {
    (c as int) < 128
}

/// Every character of `s` is an ASCII character.
pub open spec fn all_ascii(s: Seq<char>) -> bool {
    forall|i: int| 0 <= i < s.len() ==> is_ascii_char(#[trigger] s[i])
}

/// `c` is one of the 52 ASCII letters.
pub open spec fn is_ascii_letter(c: char) -> bool {
    65 <= c as int <= 90 || 97 <= c as int <= 122
}

/// What `char::is_alphabetic` says of `c`.
pub uninterp spec fn std_alphabetic(c: char) -> bool;

/// What `char::is_alphanumeric` says of `c`.
pub uninterp spec fn std_alphanumeric(c: char) -> bool;

/// `char::is_alphabetic`: Unicode's Alphabetic property of one character.
#[verifier::external_body]
fn char_is_alphabetic(c: char) -> (b: bool)
    ensures
        b == std_alphabetic(c),
{
    c.is_alphabetic()
}

/// `char::is_alphanumeric`: Unicode's Alphabetic property or a numeric
/// category of one character.
#[verifier::external_body]
fn char_is_alphanumeric(c: char) -> (b: bool)
    ensures
        b == std_alphanumeric(c),
{
    c.is_alphanumeric()
}

/// `c` is a letter: in ASCII one of the 52, elsewhere what std says.
pub open spec fn is_letter(c: char) -> bool {
    if is_ascii_char(c) {
        is_ascii_letter(c)
    } else {
        std_alphabetic(c)
    }
}

/// Whether `c` is a letter.
pub fn is_alphabetic(c: char) -> (b: bool)
    ensures
        b == is_letter(c),
{
    let n: u32 = code_point(c);
    if n < 128 {
        (65 <= n && n <= 90) || (97 <= n && n <= 122)
    } else {
        char_is_alphabetic(c)
    }
}

/// `c` is a letter or a digit: in ASCII one of the 62, elsewhere what std says.
pub open spec fn is_word_char(c: char) -> bool {
    if is_ascii_char(c) {
        is_ascii_letter(c) || text::is_digit(c)
    } else {
        std_alphanumeric(c)
    }
}

/// Whether `c` is a letter or a digit.
pub fn is_alphanumeric(c: char) -> (b: bool)
    ensures
        b == is_word_char(c),
{
    let n: u32 = code_point(c);
    if n < 128 {
        (65 <= n && n <= 90) || (97 <= n && n <= 122) || (48 <= n && n <= 57)
    } else {
        char_is_alphanumeric(c)
    }
}

/// An ASCII letter in upper case; any other character unchanged.
pub open spec fn ascii_upper(c: char) -> char {
    if 97 <= c as int <= 122 {
        (c as int - 32) as char
    } else {
        c
    }
}

/// An ASCII letter in lower case; any other character unchanged.
pub open spec fn ascii_lower(c: char) -> char {
    if 65 <= c as int <= 90 {
        (c as int + 32) as char
    } else {
        c
    }
}

/// What `str::to_uppercase` makes of `s`.
pub uninterp spec fn std_uppercase(s: Seq<char>) -> Seq<char>;

/// What `str::to_lowercase` makes of `s`.
pub uninterp spec fn std_lowercase(s: Seq<char>) -> Seq<char>;

/// What `char::to_uppercase` makes of `c`.
pub uninterp spec fn std_char_uppercase(c: char) -> Seq<char>;

/// `str::to_uppercase`: the text in upper case by Unicode's mapping, which for
/// ASCII text changes the letters a to z and nothing else.
#[verifier::external_body]
fn str_to_uppercase(s: &str) -> (r: String)
    ensures
        r@ == std_uppercase(s@),
        all_ascii(s@) ==> r@ == s@.map_values(|c: char| ascii_upper(c)),
{
    s.to_uppercase()
}

/// `str::to_lowercase`: the text in lower case by Unicode's mapping, which for
/// ASCII text changes the letters A to Z and nothing else.
#[verifier::external_body]
fn str_to_lowercase(s: &str) -> (r: String)
    ensures
        r@ == std_lowercase(s@),
        all_ascii(s@) ==> r@ == s@.map_values(|c: char| ascii_lower(c)),
{
    s.to_lowercase()
}

/// `char::to_uppercase`: one character in upper case, which may be several
/// characters; for an ASCII character it is one.
#[verifier::external_body]
fn char_to_uppercase(c: char) -> (r: String)
    ensures
        r@ == std_char_uppercase(c),
        is_ascii_char(c) ==> r@ == seq![ascii_upper(c)],
{
    c.to_uppercase().to_string()
}

/// `s` in upper case: in ASCII text the letters a to z change, elsewhere std
/// says what does.
pub open spec fn uppercase(s: Seq<char>) -> Seq<char> {
    if all_ascii(s) {
        s.map_values(|c: char| ascii_upper(c))
    } else {
        std_uppercase(s)
    }
}

/// `s` in lower case: in ASCII text the letters A to Z change, elsewhere std
/// says what does.
pub open spec fn lowercase(s: Seq<char>) -> Seq<char> {
    if all_ascii(s) {
        s.map_values(|c: char| ascii_lower(c))
    } else {
        std_lowercase(s)
    }
}

/// `c` in upper case.
pub open spec fn char_uppercase(c: char) -> Seq<char> {
    if is_ascii_char(c) {
        seq![ascii_upper(c)]
    } else {
        std_char_uppercase(c)
    }
}

/// `s` in upper case.
pub fn to_uppercase(s: &str) -> (r: String)
    ensures
        r@ == uppercase(s@),
{
    str_to_uppercase(s)
}

/// `s` in lower case.
pub fn to_lowercase(s: &str) -> (r: String)
    ensures
        r@ == lowercase(s@),
{
    str_to_lowercase(s)
}

/// `c` in upper case.
pub fn uppercase_char(c: char) -> (r: String)
    ensures
        r@ == char_uppercase(c),
{
    char_to_uppercase(c)
}

/// What `{:?}` prints of the text `s`: in double quotes, with escapes.
pub uninterp spec fn quoted(s: Seq<char>) -> Seq<char>;

/// `format!` with `{:?}` on a text.
#[verifier::external_body]
pub(crate) fn quote(s: &str) -> (r: String)
    ensures
        r@ == quoted(s@),
{
    format!("{:?}", s)
}

/// `s` with the letters A to Z in lower case and all else as it is.
pub fn ascii_lowercase(s: &str) -> (r: String)
    ensures
        r@ == s@.map_values(|c: char| ascii_lower(c)),
{
    let v = chars_of(s);
    let mut out = String::new();
    let mut i: usize = 0;
    while i < v.len()
        invariant
            i <= v@.len(),
            v@ == s@,
            out@ == v@.take(i as int).map_values(|c: char| ascii_lower(c)),
        decreases v@.len() - i,
    {
        let n: u32 = code_point(v[i]);
        let c: char = if 65 <= n && n <= 90 { (n + 32) as u8 as char } else { v[i] };
        out.push(c);
        proof {
            assert(v@.take(i + 1).map_values(|c: char| ascii_lower(c)) =~= v@.take(i as int).map_values(
                |c: char| ascii_lower(c),
            ).push(ascii_lower(v@[i as int])));
        }
        i = i + 1;
    }
    proof {
        assert(v@.take(v@.len() as int) =~= v@);
    }
    out
}

/// Of ASCII, letters are the 26 capitals and the 26 small ones, and the
/// characters of words are these and the ten digits.
pub proof fn ascii_letters_are_these(c: char)
    requires
        (c as int) < 128,
    ensures
        is_letter(c) <==> ('A' as int <= c as int <= 'Z' as int) || ('a' as int <= c as int <= 'z' as int),
        is_word_char(c) <==> is_letter(c) || ('0' as int <= c as int <= '9' as int),
{
}

/// Changing case goes letter by letter in a text of ASCII and leaves everything
/// else; a text in capitals stays so, and back in small letters it is what it
/// is in small letters.
pub proof fn case_goes_letter_by_letter(s: Seq<char>, i: int)
    requires
        all_ascii(s),
        0 <= i < s.len(),
    ensures
        uppercase(s).len() == s.len(),
        lowercase(s).len() == s.len(),
        'a' as int <= s[i] as int <= 'z' as int ==> uppercase(s)[i] as int == s[i] as int - 32 && lowercase(s)[i] == s[i],
        'A' as int <= s[i] as int <= 'Z' as int ==> lowercase(s)[i] as int == s[i] as int + 32 && uppercase(s)[i] == s[i],
        !is_ascii_letter(s[i]) ==> uppercase(s)[i] == s[i] && lowercase(s)[i] == s[i],
        char_uppercase(s[i]) == seq![uppercase(s)[i]],
        uppercase(uppercase(s)) == uppercase(s),
        lowercase(uppercase(s)) == lowercase(s),
{
    assert(is_ascii_char(s[i]));
    let u = uppercase(s);
    assert forall|k: int| 0 <= k < u.len() implies is_ascii_char(#[trigger] u[k]) by {
        assert(is_ascii_char(s[k]));
    }
    assert(all_ascii(u));
    assert(uppercase(u) =~= u) by {
        assert forall|k: int| 0 <= k < u.len() implies uppercase(u)[k] == u[k] by {
            assert(is_ascii_char(s[k]));
        }
    }
    assert(lowercase(u) =~= lowercase(s)) by {
        assert forall|k: int| 0 <= k < u.len() implies lowercase(u)[k] == lowercase(s)[k] by {
            assert(is_ascii_char(s[k]));
        }
    }
}

} // verus!
