//! Percent encoding and base64.

use vstd::prelude::*;
use vstd::string::*;


verus! {

/// A byte that percent encoding leaves as it is: an ASCII letter or digit, or
/// one of `-`, `_`, `.` and `~`.
pub open spec fn is_plain(b: u8) -> bool {
    ||| 65 <= b <= 90
    ||| 97 <= b <= 122
    ||| 48 <= b <= 57
    ||| b == 45
    ||| b == 95
    ||| b == 46
    ||| b == 126
}

/// A hexadecimal digit in upper case.
pub open spec fn upper_digit(d: int) -> char {
    if d < 10 {
        (48 + d) as char
    } else {
        (55 + d) as char
    }
}

/// One byte in percent encoding.
pub open spec fn encoded_byte(b: u8) -> Seq<char> {
    if is_plain(b) {
        seq![b as char]
    } else {
        seq!['%', upper_digit(b as int / 16), upper_digit(b as int % 16)]
    }
}

/// Bytes in percent encoding.
pub open spec fn percent_encoded(bytes: Seq<u8>) -> Seq<char>
    decreases bytes.len(),
{
    if bytes.len() == 0 {
        Seq::empty()
    } else {
        percent_encoded(bytes.drop_last()) + encoded_byte(bytes.last())
    }
}

fn upper_digit_char(d: u8) -> (c: char)
    requires
        d < 16,
    ensures
        c == upper_digit(d as int),
{
    if d < 10 {
        (48 + d) as char
    } else {
        (55 + d) as char
    }
}

/// The UTF-8 bytes of `s` in percent encoding.
pub fn url_encode(s: &str) -> (r: String)
    ensures
        r@ == percent_encoded(s.spec_bytes()),
{
    let bytes = s.as_bytes();
    let mut out = String::new();
    let mut i: usize = 0;
    proof {
        assert(bytes@.take(0) =~= Seq::<u8>::empty());
    }
    while i < bytes.len()
        invariant
            i <= bytes@.len(),
            out@ == percent_encoded(bytes@.take(i as int)),
        decreases bytes@.len() - i,
    {
        let b: u8 = bytes[i];
        proof {
            assert(bytes@.take(i + 1).drop_last() =~= bytes@.take(i as int));
        }
        let ghost had = out@;
        if (65 <= b && b <= 90) || (97 <= b && b <= 122) || (48 <= b && b <= 57) || b == 45 || b == 95 || b == 46
            || b == 126 {
            out.push(b as char);
            proof {
                assert(out@ =~= had + encoded_byte(b));
            }
        } else {
            out.push('%');
            out.push(upper_digit_char(b / 16));
            out.push(upper_digit_char(b % 16));
            proof {
                assert(out@ =~= had + encoded_byte(b));
            }
        }
        i = i + 1;
    }
    proof {
        assert(bytes@.take(bytes@.len() as int) =~= bytes@);
    }
    out
}

/// Percent encoding yields only letters, digits, `-`, `_`, `.`, `~` and `%`.
pub proof fn percent_encoded_is_plain(bytes: Seq<u8>)
    ensures
        forall|i: int|
            0 <= i < percent_encoded(bytes).len() ==> (#[trigger] percent_encoded(bytes)[i]) == '%' || is_plain(
                percent_encoded(bytes)[i] as u8,
            ),
    decreases bytes.len(),
{
    if bytes.len() > 0 {
        percent_encoded_is_plain(bytes.drop_last());
        let had = percent_encoded(bytes.drop_last());
        let b = bytes.last();
        let all = percent_encoded(bytes);
        assert forall|i: int| 0 <= i < all.len() implies (#[trigger] all[i]) == '%' || is_plain(all[i] as u8) by {
            if i < had.len() {
                assert(all[i] == had[i]);
            } else {
                assert(all[i] == encoded_byte(b)[i - had.len()]);
            }
        }
    }
}

/// The base64 character for six bits.
pub open spec fn sextet_char(n: int) -> char {
    if n < 26 {
        (65 + n) as char
    } else if n < 52 {
        (71 + n) as char
    } else if n < 62 {
        (n - 4) as char
    } else if n == 62 {
        '+'
    } else {
        '/'
    }
}

/// The base64 characters for a group of one, two or three bytes; absent bytes
/// count as zero and leave a `=`.
pub open spec fn group_chars(group: Seq<u8>) -> Seq<char> {
    let b0 = group[0] as int;
    let b1 = if group.len() > 1 { group[1] as int } else { 0 };
    let b2 = if group.len() > 2 { group[2] as int } else { 0 };
    let n = b0 * 65536 + b1 * 256 + b2;
    seq![
        sextet_char(n / 262144),
        sextet_char((n / 4096) % 64),
        if group.len() > 1 { sextet_char((n / 64) % 64) } else { '=' },
        if group.len() > 2 { sextet_char(n % 64) } else { '=' },
    ]
}

/// Bytes in base64.
pub open spec fn base64_of(bytes: Seq<u8>) -> Seq<char>
    decreases bytes.len(),
{
    if bytes.len() == 0 {
        Seq::empty()
    } else if bytes.len() <= 3 {
        group_chars(bytes)
    } else {
        group_chars(bytes.take(3)) + base64_of(bytes.skip(3))
    }
}

fn sextet(n: u32) -> (c: char)
    requires
        n < 64,
    ensures
        c == sextet_char(n as int),
{
    let k: u8 = n as u8;
    if k < 26 {
        (65 + k) as char
    } else if k < 52 {
        (71 + k) as char
    } else if k < 62 {
        (k - 4) as char
    } else if k == 62 {
        '+'
    } else {
        '/'
    }
}

/// Bytes in base64, with padding.
pub fn base64_encode(input: &[u8]) -> (r: String)
    ensures
        r@ == base64_of(input@),
{
    let mut out = String::new();
    let mut i: usize = 0;
    proof {
        assert(input@.skip(0) =~= input@);
        assert(out@ + base64_of(input@) =~= base64_of(input@));
    }
    while i < input.len()
        invariant
            i <= input@.len(),
            out@ + base64_of(input@.skip(i as int)) == base64_of(input@),
        decreases input@.len() - i,
    {
        let ghost had = out@;
        let ghost rest = input@.skip(i as int);
        let left: usize = input.len() - i;
        let b0: u32 = input[i] as u32;
        let b1: u32 = if left > 1 { input[i + 1] as u32 } else { 0 };
        let b2: u32 = if left > 2 { input[i + 2] as u32 } else { 0 };
        let n: u32 = b0 * 65536 + b1 * 256 + b2;
        out.push(sextet(n / 262144));
        out.push(sextet((n / 4096) % 64));
        if left > 1 {
            out.push(sextet((n / 64) % 64));
        } else {
            out.push('=');
        }
        if left > 2 {
            out.push(sextet(n % 64));
        } else {
            out.push('=');
        }
        if left > 3 {
            proof {
                assert(rest.take(3)[0] == input@[i as int]);
                assert(rest.take(3)[1] == input@[i + 1]);
                assert(rest.take(3)[2] == input@[i + 2]);
                assert(out@ =~= had + group_chars(rest.take(3)));
                assert(rest.skip(3) =~= input@.skip(i + 3));
                assert(out@ + base64_of(rest.skip(3)) =~= had + base64_of(rest));
            }
            i = i + 3;
        } else {
            proof {
                assert(rest[0] == input@[i as int]);
                if left > 1 {
                    assert(rest[1] == input@[i + 1]);
                }
                if left > 2 {
                    assert(rest[2] == input@[i + 2]);
                }
                assert(out@ =~= had + group_chars(rest));
                assert(input@.skip(input@.len() as int) =~= Seq::<u8>::empty());
                assert(out@ + Seq::<char>::empty() =~= out@);
            }
            i = input.len();
        }
    }
    proof {
        assert(input@.skip(i as int) =~= Seq::<u8>::empty());
        assert(out@ + Seq::<char>::empty() =~= out@);
    }
    out
}

/// Base64 writes four characters for every three bytes begun.
pub proof fn base64_length(bytes: Seq<u8>)
    ensures
        base64_of(bytes).len() == 4 * ((bytes.len() + 2) / 3),
    decreases bytes.len(),
{
    if bytes.len() > 3 {
        base64_length(bytes.skip(3));
    }
}

/// The value of a digit in base sixteen.
pub open spec fn hex_value(c: char) -> int {
    if 'A' as int <= c as int <= 'F' as int {
        c as int - 'A' as int + 10
    } else {
        c as int - '0' as int
    }
}

/// Letters, digits, `-`, `_`, `.` and `~` stand for themselves; every other byte
/// is written as `%` and two digits in base sixteen that come to the byte.
pub proof fn bytes_are_written_one_by_one(b: u8)
    ensures
        ('A' as int <= b <= 'Z' as int) || ('a' as int <= b <= 'z' as int) || ('0' as int <= b <= '9' as int) || b
            == '-' as u8 || b == '_' as u8 || b == '.' as u8 || b == '~' as u8 ==> encoded_byte(b) == seq![b as char],
        !(('A' as int <= b <= 'Z' as int) || ('a' as int <= b <= 'z' as int) || ('0' as int <= b <= '9' as int) || b
            == '-' as u8 || b == '_' as u8 || b == '.' as u8 || b == '~' as u8) ==> encoded_byte(b).len() == 3
            && encoded_byte(b)[0] == '%' && 16 * hex_value(encoded_byte(b)[1]) + hex_value(encoded_byte(b)[2]) == b
            && 0 <= hex_value(encoded_byte(b)[1]) < 16 && 0 <= hex_value(encoded_byte(b)[2]) < 16,
{
}

/// The bytes are written one behind the other, in order.
pub proof fn percent_encoding_goes_in_order(a: Seq<u8>, b: Seq<u8>, c: u8)
    ensures
        percent_encoded(Seq::empty()).len() == 0,
        percent_encoded(seq![c]) == encoded_byte(c),
        percent_encoded(a + b) == percent_encoded(a) + percent_encoded(b),
    decreases b.len(),
{
    reveal_with_fuel(percent_encoded, 2);
    assert(seq![c].drop_last() =~= Seq::<u8>::empty());
    assert(Seq::<char>::empty() + encoded_byte(c) =~= encoded_byte(c));
    if b.len() == 0 {
        assert(a + b =~= a);
        assert(percent_encoded(a) + percent_encoded(b) =~= percent_encoded(a));
    } else {
        percent_encoding_goes_in_order(a, b.drop_last(), c);
        assert((a + b).drop_last() =~= a + b.drop_last());
        assert(percent_encoded(a + b) =~= percent_encoded(a) + percent_encoded(b));
    }
}

/// The place of a character in the alphabet of base64.
pub open spec fn sextet_value(c: char) -> int {
    if 'A' as int <= c as int <= 'Z' as int {
        c as int - 'A' as int
    } else if 'a' as int <= c as int <= 'z' as int {
        c as int - 'a' as int + 26
    } else if '0' as int <= c as int <= '9' as int {
        c as int - '0' as int + 52
    } else if c == '+' {
        62
    } else {
        63
    }
}

/// What four characters of base64 come to, the first counting most.
pub open spec fn group_value(s: Seq<char>) -> int {
    262144 * sextet_value(s[0]) + 4096 * sextet_value(s[1]) + 64 * sextet_value(s[2]) + sextet_value(s[3])
}

proof fn numbers_are_sextets(n: int)
    requires
        0 <= n < 16777216,
    ensures
        0 <= n / 262144 < 64,
        262144 * (n / 262144) + 4096 * ((n / 4096) % 64) + 64 * ((n / 64) % 64) + n % 64 == n,
{
}

/// Four characters stand for three bytes, read as one number in base 256 and
/// written in base 64.
pub proof fn three_bytes_are_read_back(a: u8, b: u8, c: u8)
    ensures
        base64_of(seq![a, b, c]).len() == 4,
        group_value(base64_of(seq![a, b, c])) == 65536 * a + 256 * b + c,
{
    let n = 65536 * a + 256 * b + c;
    numbers_are_sextets(n);
    let s = base64_of(seq![a, b, c]);
    assert(s == group_chars(seq![a, b, c]));
    sextets_are_told_apart(n / 262144);
    sextets_are_told_apart((n / 4096) % 64);
    sextets_are_told_apart((n / 64) % 64);
    sextets_are_told_apart(n % 64);
    assert(s[0] == sextet_char(n / 262144));
    assert(s[1] == sextet_char((n / 4096) % 64));
    assert(s[2] == sextet_char((n / 64) % 64));
    assert(s[3] == sextet_char(n % 64));
}

/// Of two bytes the fourth character is a sign of filling, and of one the third
/// too; the others are those that the bytes would have with zeros behind them.
pub proof fn short_groups_are_filled(a: u8, b: u8)
    ensures
        base64_of(seq![a, b]) == base64_of(seq![a, b, 0u8]).update(3, '='),
        base64_of(seq![a]) == base64_of(seq![a, 0u8, 0u8]).update(2, '=').update(3, '='),
        base64_of(Seq::empty()).len() == 0,
{
    assert(base64_of(seq![a, b]) =~= base64_of(seq![a, b, 0u8]).update(3, '='));
    assert(base64_of(seq![a]) =~= base64_of(seq![a, 0u8, 0u8]).update(2, '=').update(3, '='));
}

#[verifier::spinoff_prover]
proof fn sextets_are_told_apart(n: int)
    requires
        0 <= n < 64,
    ensures
        sextet_value(sextet_char(n)) == n,
        sextet_char(n) != '=',
{
}

/// Groups of three bytes are written one behind the other.
pub proof fn groups_follow_one_another(group: Seq<u8>, rest: Seq<u8>)
    requires
        group.len() == 3,
    ensures
        base64_of(group + rest) == base64_of(group) + base64_of(rest),
{
    let all = group + rest;
    if rest.len() == 0 {
        assert(all =~= group);
        assert(base64_of(group) + base64_of(rest) =~= base64_of(group));
    } else {
        assert(all.take(3) =~= group);
        assert(all.skip(3) =~= rest);
    }
}

} // verus!
