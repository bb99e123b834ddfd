//! Text as sequences of characters.
//!
//! Every function here is stated over the characters of a string (its view),
//! so that the rest of the library can speak of text without byte offsets.

use vstd::prelude::*;
use vstd::string::*;

verus! {

/// `String::push` appends one character.
pub assume_specification[ String::push ](s: &mut String, c: char)
    ensures
        final(s)@ == old(s)@.push(c),
;

/// The characters of `s`, in order.
pub fn chars_of(s: &str) -> (v: Vec<char>)
    ensures
        v@ == s@,
{
    let mut v: Vec<char> = Vec::new();
    for c in it: s.chars()
        invariant
            it.seq() == s@,
            v@ == s@.take(it.index() as int),
    {
        proof {
            assert(s@.take(it.index() + 1) =~= s@.take(it.index() as int).push(s@[it.index() as int]));
        }
        v.push(c);
    }
    proof {
        assert(s@.take(s@.len() as int) =~= s@);
    }
    v
}

/// Whether two texts are equal, character by character.
pub(crate) fn same(a: &str, b: &str) -> (r: bool)
    ensures
        r == (a@ == b@),
{
    let x = chars_of(a);
    let y = chars_of(b);
    if x.len() != y.len() {
        return false;
    }
    let mut i: usize = 0;
    while i < x.len()
        invariant
            x@ == a@,
            y@ == b@,
            x@.len() == y@.len(),
            i <= x@.len(),
            forall|j: int| 0 <= j < i ==> x@[j] == y@[j],
        decreases x@.len() - i,
    {
        if x[i] != y[i] {
            return false;
        }
        i = i + 1;
    }
    proof {
        assert(x@ =~= y@);
    }
    true
}

/// The text that consists of `v[from..to]`.
pub fn text_of(v: &Vec<char>, from: usize, to: usize) -> (s: String)
    requires
        from <= to <= v@.len(),
    ensures
        s@ == v@.subrange(from as int, to as int),
{
    let mut s = String::new();
    let mut i: usize = from;
    while i < to
        invariant
            from <= i <= to <= v@.len(),
            s@ == v@.subrange(from as int, i as int),
        decreases to - i,
    {
        proof {
            assert(v@.subrange(from as int, i + 1) =~= v@.subrange(from as int, i as int).push(v@[i as int]));
        }
        s.push(v[i]);
        i = i + 1;
    }
    s
}


/// The code point of `c`.
pub fn code_point(c: char) -> (n: u32)
    ensures
        n as int == c as int,
{
    c as u32
}

// ---------- White space ----------

/// The characters with Unicode's White_Space property.
pub open spec fn is_white(c: char) -> bool {
    ||| 0x9 <= c as int <= 0xD
    ||| c as int == 0x20
    ||| c as int == 0x85
    ||| c as int == 0xA0
    ||| c as int == 0x1680
    ||| 0x2000 <= c as int <= 0x200A
    ||| c as int == 0x2028
    ||| c as int == 0x2029
    ||| c as int == 0x202F
    ||| c as int == 0x205F
    ||| c as int == 0x3000
}

/// Whether `c` is white space.
pub fn is_whitespace(c: char) -> (b: bool)
    ensures
        b == is_white(c),
{
    let n: u32 = c as u32;
    (0x9 <= n && n <= 0xD) || n == 0x20 || n == 0x85 || n == 0xA0 || n == 0x1680
        || (0x2000 <= n && n <= 0x200A) || n == 0x2028 || n == 0x2029 || n == 0x202F || n == 0x205F
        || n == 0x3000
}

/// `s` without its leading white space.
pub open spec fn trimmed_start(s: Seq<char>) -> Seq<char>
    decreases s.len(),
{
    if s.len() > 0 && is_white(s[0]) {
        trimmed_start(s.skip(1))
    } else {
        s
    }
}

/// `s` without its trailing white space.
pub open spec fn trimmed_end(s: Seq<char>) -> Seq<char>
    decreases s.len(),
{
    if s.len() > 0 && is_white(s.last()) {
        trimmed_end(s.drop_last())
    } else {
        s
    }
}

/// `s` without white space at either end.
pub open spec fn trimmed(s: Seq<char>) -> Seq<char> {
    trimmed_end(trimmed_start(s))
}

/// `s` without white space at either end.
pub fn trim(s: &str) -> (r: String)
    ensures
        r@ == trimmed(s@),
{
    let v = chars_of(s);
    let n: usize = v.len();
    let mut a: usize = 0;
    proof {
        assert(v@.skip(0) =~= v@);
    }
    while a < n && is_whitespace(v[a])
        invariant
            a <= n == v@.len(),
            trimmed_start(v@) == trimmed_start(v@.skip(a as int)),
        decreases n - a,
    {
        proof {
            assert(v@.skip(a as int).skip(1) =~= v@.skip(a + 1));
        }
        a = a + 1;
    }
    let mut b: usize = n;
    proof {
        assert(v@.skip(a as int) =~= v@.subrange(a as int, n as int));
    }
    while a < b && is_whitespace(v[b - 1])
        invariant
            a <= b <= n == v@.len(),
            trimmed_end(v@.skip(a as int)) == trimmed_end(v@.subrange(a as int, b as int)),
        decreases b - a,
    {
        proof {
            assert(v@.subrange(a as int, b as int).drop_last() =~= v@.subrange(a as int, b - 1));
        }
        b = b - 1;
    }
    text_of(&v, a, b)
}

/// A blank text trims to nothing; any other text keeps its first and last
/// visible characters.
pub proof fn trimmed_has_no_outer_space(s: Seq<char>)
    ensures
        trimmed(s).len() > 0 ==> !is_white(trimmed(s)[0]) && !is_white(trimmed(s).last()),
        trimmed(trimmed(s)) == trimmed(s),
{
    trimmed_start_facts(s);
    trimmed_end_facts(trimmed_start(s));
    let t = trimmed(s);
    if t.len() > 0 {
        assert(t[0] == trimmed_start(s)[0]);
    }
}

proof fn trimmed_start_facts(s: Seq<char>)
    ensures
        trimmed_start(s).len() <= s.len(),
        trimmed_start(s).len() > 0 ==> !is_white(trimmed_start(s)[0]),
    decreases s.len(),
{
    if s.len() > 0 && is_white(s[0]) {
        trimmed_start_facts(s.skip(1));
    }
}

proof fn trimmed_end_facts(s: Seq<char>)
    ensures
        trimmed_end(s).len() <= s.len(),
        trimmed_end(s).len() > 0 ==> !is_white(trimmed_end(s).last()) && trimmed_end(s)[0] == s[0],
    decreases s.len(),
{
    if s.len() > 0 && is_white(s.last()) {
        trimmed_end_facts(s.drop_last());
    }
}

// ---------- Splitting and joining ----------

/// `s` cut at every `sep`; there is always one piece more than separators.
pub open spec fn pieces(s: Seq<char>, sep: char) -> Seq<Seq<char>>
    decreases s.len(),
{
    if s.len() == 0 {
        seq![Seq::empty()]
    } else {
        let before = pieces(s.drop_last(), sep);
        if s.last() == sep {
            before.push(Seq::empty())
        } else {
            before.update(before.len() - 1, before.last().push(s.last()))
        }
    }
}

pub proof fn pieces_nonempty(s: Seq<char>, sep: char)
    ensures
        pieces(s, sep).len() >= 1,
    decreases s.len(),
{
    if s.len() > 0 {
        pieces_nonempty(s.drop_last(), sep);
    }
}

/// `s` cut at every `sep`.
pub fn split_char(s: &str, sep: char) -> (r: Vec<String>)
    ensures
        r.deep_view() == pieces(s@, sep),
{
    let v = chars_of(s);
    let mut out: Vec<String> = Vec::new();
    let mut current = String::new();
    let mut i: usize = 0;
    proof {
        assert(v@.take(0) =~= Seq::<char>::empty());
        assert(out.deep_view().push(current@) =~= pieces(v@.take(0), sep));
    }
    while i < v.len()
        invariant
            i <= v@.len(),
            out.deep_view().push(current@) == pieces(v@.take(i as int), sep),
        decreases v@.len() - i,
    {
        let c = v[i];
        proof {
            assert(v@.take(i + 1).drop_last() =~= v@.take(i as int));
        }
        let ghost before = out.deep_view();
        if c == sep {
            out.push(current);
            proof {
                assert(out.deep_view() =~= before.push(current@));
            }
            current = String::new();
        } else {
            let ghost cur = current@;
            current.push(c);
            proof {
                assert(before.push(cur).update(before.len() as int, cur.push(c)) =~= before.push(current@));
            }
        }
        i = i + 1;
    }
    proof {
        assert(v@.take(v@.len() as int) =~= v@);
    }
    let ghost before = out.deep_view();
    let ghost cur = current@;
    out.push(current);
    proof {
        assert(out.deep_view() =~= before.push(cur));
    }
    out
}

/// The maximal runs of `s` without a separator: what is left of the pieces
/// once the empty ones are dropped.
pub open spec fn runs(s: Seq<char>, is_sep: spec_fn(char) -> bool) -> Seq<Seq<char>>
    decreases s.len(),
{
    if s.len() == 0 {
        Seq::empty()
    } else {
        let before = runs(s.drop_last(), is_sep);
        if is_sep(s.last()) {
            before
        } else if s.len() >= 2 && !is_sep(s[s.len() - 2]) {
            before.update(before.len() - 1, before.last().push(s.last()))
        } else {
            before.push(seq![s.last()])
        }
    }
}

pub proof fn runs_last(s: Seq<char>, is_sep: spec_fn(char) -> bool)
    ensures
        s.len() > 0 && !is_sep(s.last()) ==> runs(s, is_sep).len() >= 1,
    decreases s.len(),
{
    if s.len() >= 2 {
        runs_last(s.drop_last(), is_sep);
        assert(s.drop_last().last() == s[s.len() - 2]);
    }
}

/// The runs of `s` between separators, for a separator test `is_sep`.
fn split_runs<F: Fn(char) -> bool>(s: &str, is_sep: F, Ghost(sep): Ghost<spec_fn(char) -> bool>) -> (r: Vec<String>)
    requires
        forall|c: char| call_requires(is_sep, (c,)),
        forall|c: char, b: bool| call_ensures(is_sep, (c,), b) ==> b == sep(c),
    ensures
        r.deep_view() == runs(s@, sep),
{
    let v = chars_of(s);
    let mut out: Vec<String> = Vec::new();
    let mut current = String::new();
    let mut i: usize = 0;
    proof {
        assert(v@.take(0) =~= Seq::<char>::empty());
        assert(out.deep_view() =~= runs(v@.take(0), sep));
    }
    while i < v.len()
        invariant
            i <= v@.len(),
            forall|c: char| call_requires(is_sep, (c,)),
            forall|c: char, b: bool| call_ensures(is_sep, (c,), b) ==> b == sep(c),
            (current@.len() > 0) == (i > 0 && !sep(v@[i - 1])),
            current@.len() > 0 ==> out.deep_view().push(current@) == runs(v@.take(i as int), sep),
            current@.len() == 0 ==> out.deep_view() == runs(v@.take(i as int), sep),
        decreases v@.len() - i,
    {
        let c = v[i];
        proof {
            assert(v@.take(i + 1).drop_last() =~= v@.take(i as int));
        }
        let ghost before = out.deep_view();
        if is_sep(c) {
            if !current.as_str().is_empty() {
                out.push(current);
                proof {
                    assert(out.deep_view() =~= before.push(current@));
                }
                current = String::new();
            }
        } else {
            let ghost cur = current@;
            current.push(c);
            proof {
                if cur.len() > 0 {
                    assert(before.push(cur).update(before.len() as int, cur.push(c)) =~= before.push(current@));
                } else {
                    assert(current@ =~= seq![c]);
                }
            }
        }
        i = i + 1;
    }
    proof {
        assert(v@.take(v@.len() as int) =~= v@);
    }
    if !current.as_str().is_empty() {
        let ghost before = out.deep_view();
        let ghost cur = current@;
        out.push(current);
        proof {
            assert(out.deep_view() =~= before.push(cur));
        }
    }
    out
}

/// The fields of `s` that white space separates.
pub open spec fn fields(s: Seq<char>) -> Seq<Seq<char>> {
    runs(s, |c: char| is_white(c))
}

/// The fields of `s` that white space separates.
pub fn split_whitespace(s: &str) -> (r: Vec<String>)
    ensures
        r.deep_view() == fields(s@),
{
    let sep = |c: char| -> (b: bool)
        ensures
            b == is_white(c),
        { is_whitespace(c) };
    split_runs(s, sep, Ghost(|c: char| is_white(c)))
}

/// The entries of `s` that commas or white space separate.
pub open spec fn list_entries(s: Seq<char>) -> Seq<Seq<char>> {
    runs(s, |c: char| c == ',' || is_white(c))
}

/// The entries of a list that commas or white space separate.
pub fn split_list(s: &str) -> (r: Vec<String>)
    ensures
        r.deep_view() == list_entries(s@),
{
    let sep = |c: char| -> (b: bool)
        ensures
            b == (c == ',' || is_white(c)),
        { c == ',' || is_whitespace(c) };
    split_runs(s, sep, Ghost(|c: char| c == ',' || is_white(c)))
}

/// The place of the first `c` at or after `from`.
pub open spec fn index_from(s: Seq<char>, c: char, from: int) -> Option<int>
    decreases s.len() - from,
{
    if from < 0 || from >= s.len() {
        None
    } else if s[from] == c {
        Some(from)
    } else {
        index_from(s, c, from + 1)
    }
}

pub proof fn index_from_bounds(s: Seq<char>, c: char, from: int)
    ensures
        index_from(s, c, from) matches Some(i) ==> from <= i < s.len() && s[i] == c,
    decreases s.len() - from,
{
    if 0 <= from < s.len() && s[from] != c {
        index_from_bounds(s, c, from + 1);
    }
}

/// `s` parted at its first `sep`, which is dropped.
pub open spec fn parted(s: Seq<char>, sep: char) -> Option<(Seq<char>, Seq<char>)> {
    match index_from(s, sep, 0) {
        Some(i) => Some((s.take(i), s.skip(i + 1))),
        None => None,
    }
}

/// `s` parted at its first `sep`, which is dropped.
pub fn split_once(s: &str, sep: char) -> (r: Option<(String, String)>)
    ensures
        r.deep_view() == parted(s@, sep),
{
    let v = chars_of(s);
    let mut i: usize = 0;
    while i < v.len()
        invariant
            i <= v@.len(),
            v@ == s@,
            index_from(v@, sep, 0) == index_from(v@, sep, i as int),
        decreases v@.len() - i,
    {
        if v[i] == sep {
            let a = text_of(&v, 0, i);
            let b = text_of(&v, i + 1, v.len());
            proof {
                assert(a@ =~= s@.take(i as int));
                assert(b@ =~= s@.skip(i + 1));
            }
            return Some((a, b));
        }
        i = i + 1;
    }
    None
}

/// The parts with `sep` between each two of them.
pub open spec fn joined(parts: Seq<Seq<char>>, sep: Seq<char>) -> Seq<char>
    decreases parts.len(),
{
    if parts.len() == 0 {
        Seq::empty()
    } else if parts.len() == 1 {
        parts[0]
    } else {
        joined(parts.drop_last(), sep) + sep + parts.last()
    }
}

/// The parts with `sep` between each two of them.
pub fn join(parts: &Vec<String>, sep: &str) -> (r: String)
    ensures
        r@ == joined(parts.deep_view(), sep@),
{
    let mut out = String::new();
    let mut i: usize = 0;
    proof {
        assert(parts.deep_view().take(0) =~= Seq::<Seq<char>>::empty());
    }
    while i < parts.len()
        invariant
            i <= parts@.len(),
            out@ == joined(parts.deep_view().take(i as int), sep@),
        decreases parts@.len() - i,
    {
        let ghost all = parts.deep_view();
        proof {
            assert(all.take(i + 1).drop_last() =~= all.take(i as int));
            assert(all.take(i + 1).last() == parts@[i as int]@);
        }
        if i > 0 {
            out.append(sep);
        }
        proof {
            if i == 0 {
                assert(out@ + parts@[0]@ =~= parts@[0]@);
            }
        }
        out.append(parts[i].as_str());
        i = i + 1;
    }
    proof {
        assert(parts.deep_view().take(parts@.len() as int) =~= parts.deep_view());
    }
    out
}

// ---------- Searching ----------

/// `part` stands in `s` at place `i`.
pub open spec fn occurs_at(s: Seq<char>, part: Seq<char>, i: int) -> bool {
    0 <= i && i + part.len() <= s.len() && s.subrange(i, i + part.len()) == part
}

/// The first place at or after `from` at which `part` stands in `s`.
pub open spec fn find_from(s: Seq<char>, part: Seq<char>, from: int) -> Option<int>
    decreases s.len() + 1 - from,
{
    if from < 0 || from + part.len() > s.len() {
        None
    } else if occurs_at(s, part, from) {
        Some(from)
    } else {
        find_from(s, part, from + 1)
    }
}

/// `part` stands somewhere in `s`.
pub open spec fn holds(s: Seq<char>, part: Seq<char>) -> bool {
    find_from(s, part, 0) is Some
}

/// `find_from` finds the least place, and finds one wherever there is one.
pub proof fn find_from_is_first(s: Seq<char>, part: Seq<char>, from: int)
    requires
        0 <= from,
    ensures
        find_from(s, part, from) matches Some(i) ==> from <= i && occurs_at(s, part, i),
        forall|j: int| from <= j && #[trigger] occurs_at(s, part, j) ==> (find_from(s, part, from) matches Some(i) && i <= j),
    decreases s.len() + 1 - from,
{
    if from + part.len() <= s.len() && !occurs_at(s, part, from) {
        find_from_is_first(s, part, from + 1);
    }
}

fn matches_at(s: &Vec<char>, part: &Vec<char>, at: usize) -> (b: bool)
    ensures
        b == occurs_at(s@, part@, at as int),
{
    if part.len() > s.len() || at > s.len() - part.len() {
        return false;
    }
    let mut k: usize = 0;
    while k < part.len()
        invariant
            k <= part@.len(),
            at + part@.len() <= s.len(),
            forall|j: int| 0 <= j < k ==> s@[at + j] == part@[j],
        decreases part@.len() - k,
    {
        if s[at + k] != part[k] {
            proof {
                assert(s@.subrange(at as int, at + part@.len())[k as int] == s@[at + k]);
            }
            return false;
        }
        k = k + 1;
    }
    proof {
        assert(s@.subrange(at as int, at + part@.len()) =~= part@);
    }
    true
}

fn find_chars(s: &Vec<char>, part: &Vec<char>, from: usize) -> (r: Option<usize>)
    ensures
        match r {
            Some(i) => find_from(s@, part@, from as int) == Some(i as int),
            None => find_from(s@, part@, from as int) is None,
        },
{
    if part.len() > s.len() {
        return None;
    }
    let last: usize = s.len() - part.len();
    let mut i: usize = from;
    while i <= last
        invariant
            from <= i,
            last == s@.len() - part@.len(),
            find_from(s@, part@, from as int) == find_from(s@, part@, i as int),
        decreases last + 1 - i,
    {
        if matches_at(s, part, i) {
            return Some(i);
        }
        if i == last {
            proof {
                assert(find_from(s@, part@, i + 1) is None);
            }
            return None;
        }
        i = i + 1;
    }
    None
}

/// The first place of `part` in `s`, counted in characters.
pub fn find(s: &str, part: &str) -> (r: Option<usize>)
    ensures
        match r {
            Some(i) => find_from(s@, part@, 0) == Some(i as int),
            None => find_from(s@, part@, 0) is None,
        },
{
    find_chars(&chars_of(s), &chars_of(part), 0)
}

/// Whether `part` stands in `s`.
pub fn contains(s: &str, part: &str) -> (b: bool)
    ensures
        b == holds(s@, part@),
{
    find(s, part).is_some()
}

/// `s` begins with `prefix`.
pub open spec fn begins(s: Seq<char>, prefix: Seq<char>) -> bool {
    occurs_at(s, prefix, 0)
}

/// Whether `s` begins with `prefix`.
pub fn starts_with(s: &str, prefix: &str) -> (b: bool)
    ensures
        b == begins(s@, prefix@),
{
    matches_at(&chars_of(s), &chars_of(prefix), 0)
}

/// `s` ends with `suffix`.
pub open spec fn finishes(s: Seq<char>, suffix: Seq<char>) -> bool {
    suffix.len() <= s.len() && occurs_at(s, suffix, s.len() - suffix.len())
}

/// Whether `s` ends with `suffix`.
pub fn ends_with(s: &str, suffix: &str) -> (b: bool)
    ensures
        b == finishes(s@, suffix@),
{
    let v = chars_of(s);
    let w = chars_of(suffix);
    w.len() <= v.len() && matches_at(&v, &w, v.len() - w.len())
}

/// What follows `prefix` in `s`, if `s` begins with it.
pub open spec fn after_prefix(s: Seq<char>, prefix: Seq<char>) -> Option<Seq<char>> {
    if begins(s, prefix) {
        Some(s.skip(prefix.len() as int))
    } else {
        None
    }
}

/// What follows `prefix` in `s`, if `s` begins with it.
pub fn strip_prefix(s: &str, prefix: &str) -> (r: Option<String>)
    ensures
        r.deep_view() == after_prefix(s@, prefix@),
{
    let v = chars_of(s);
    let w = chars_of(prefix);
    if matches_at(&v, &w, 0) {
        let rest = text_of(&v, w.len(), v.len());
        proof {
            assert(rest@ =~= s@.skip(prefix@.len() as int));
        }
        Some(rest)
    } else {
        None
    }
}

/// `s` from place `i` on, with every `part` (a text that is not empty) that is
/// met from left to right replaced by `by`.
pub open spec fn replaced_from(s: Seq<char>, part: Seq<char>, by: Seq<char>, i: int) -> Seq<char>
    decreases s.len() - i,
{
    if i < 0 || i >= s.len() || part.len() == 0 {
        Seq::empty()
    } else if occurs_at(s, part, i) {
        by + replaced_from(s, part, by, i + part.len())
    } else {
        seq![s[i]] + replaced_from(s, part, by, i + 1)
    }
}

/// `by` before each character of `s` from place `i` on, and once at the end.
pub open spec fn spaced_from(s: Seq<char>, by: Seq<char>, i: int) -> Seq<char>
    decreases s.len() - i,
{
    if i < 0 || i >= s.len() {
        by
    } else {
        by + seq![s[i]] + spaced_from(s, by, i + 1)
    }
}

/// `s` with every `part` replaced by `by`. The empty text stands between all
/// characters and at both ends.
pub open spec fn replaced(s: Seq<char>, part: Seq<char>, by: Seq<char>) -> Seq<char> {
    if part.len() == 0 {
        spaced_from(s, by, 0)
    } else {
        replaced_from(s, part, by, 0)
    }
}

/// `s` with every `part` replaced by `by`.
pub fn replace(s: &str, part: &str, by: &str) -> (r: String)
    ensures
        r@ == replaced(s@, part@, by@),
{
    let v = chars_of(s);
    let w = chars_of(part);
    let mut out = String::new();
    let mut i: usize = 0;
    if w.len() == 0 {
        proof {
            assert(out@ + spaced_from(v@, by@, 0) =~= spaced_from(v@, by@, 0));
        }
        while i < v.len()
            invariant
                i <= v@.len(),
                out@ + spaced_from(v@, by@, i as int) == spaced_from(v@, by@, 0),
            decreases v@.len() - i,
        {
            let ghost before = out@;
            out.append(by);
            out.push(v[i]);
            proof {
                assert(out@ + spaced_from(v@, by@, i + 1) =~= before + spaced_from(v@, by@, i as int));
            }
            i = i + 1;
        }
        out.append(by);
        return out;
    }
    proof {
        assert(out@ + replaced_from(v@, w@, by@, 0) =~= replaced_from(v@, w@, by@, 0));
    }
    while i < v.len()
        invariant
            i <= v@.len(),
            w@.len() > 0,
            out@ + replaced_from(v@, w@, by@, i as int) == replaced_from(v@, w@, by@, 0),
        decreases v@.len() - i,
    {
        let ghost before = out@;
        if matches_at(&v, &w, i) {
            out.append(by);
            proof {
                assert(out@ + replaced_from(v@, w@, by@, i + w@.len()) =~= before + replaced_from(v@, w@, by@, i as int));
            }
            i = i + w.len();
        } else {
            out.push(v[i]);
            proof {
                assert(out@ + replaced_from(v@, w@, by@, i + 1) =~= before + replaced_from(v@, w@, by@, i as int));
            }
            i = i + 1;
        }
    }
    proof {
        assert(out@ + Seq::<char>::empty() =~= out@);
    }
    out
}

/// `s` from place `i` on, cut at every `sep` (a text that is not empty) that
/// is met from left to right.
pub open spec fn cut_from(s: Seq<char>, sep: Seq<char>, i: int) -> Seq<Seq<char>>
    decreases s.len() - i,
{
    if i < 0 || sep.len() == 0 {
        Seq::empty()
    } else {
        match find_from(s, sep, i) {
            Some(j) => if j < i || j + sep.len() > s.len() {
                Seq::empty()
            } else {
                seq![s.subrange(i, j)] + cut_from(s, sep, j + sep.len())
            },
            None => seq![s.skip(i)],
        }
    }
}

/// `s` cut at every `sep`, a text that is not empty.
pub fn split_text(s: &str, sep: &str) -> (r: Vec<String>)
    requires
        sep@.len() > 0,
    ensures
        r.deep_view() == cut_from(s@, sep@, 0),
{
    let v = chars_of(s);
    let w = chars_of(sep);
    let mut out: Vec<String> = Vec::new();
    let mut i: usize = 0;
    proof {
        assert(out.deep_view() + cut_from(v@, w@, 0) =~= cut_from(v@, w@, 0));
    }
    loop
        invariant
            i <= v@.len(),
            w@.len() > 0,
            v@ == s@,
            w@ == sep@,
            out.deep_view() + cut_from(v@, w@, i as int) == cut_from(v@, w@, 0),
        decreases v@.len() - i,
    {
        let ghost before = out.deep_view();
        match find_chars(&v, &w, i) {
            Some(j) => {
                proof {
                    find_from_is_first(v@, w@, i as int);
                    assert(j + w@.len() <= v.len());
                }
                let piece = text_of(&v, i, j);
                let ghost p = piece@;
                out.push(piece);
                proof {
                    assert(out.deep_view() =~= before.push(p));
                    assert(out.deep_view() + cut_from(v@, w@, j + w@.len()) =~= before + cut_from(v@, w@, i as int));
                }
                i = j + w.len();
            },
            None => {
                let piece = text_of(&v, i, v.len());
                let ghost p = piece@;
                out.push(piece);
                proof {
                    assert(p =~= v@.skip(i as int));
                    assert(out.deep_view() =~= before.push(p));
                    assert(out.deep_view() =~= before + cut_from(v@, w@, i as int));
                }
                return out;
            },
        }
    }
}

/// `s` written `n` times.
pub open spec fn repeated(s: Seq<char>, n: nat) -> Seq<char>
    decreases n,
{
    if n == 0 {
        Seq::empty()
    } else {
        repeated(s, (n - 1) as nat) + s
    }
}

/// `s` written `n` times.
pub fn repeat(s: &str, n: u64) -> (r: String)
    ensures
        r@ == repeated(s@, n as nat),
{
    let mut out = String::new();
    let mut i: u64 = 0;
    while i < n
        invariant
            i <= n,
            out@ == repeated(s@, i as nat),
        decreases n - i,
    {
        out.append(s);
        i = i + 1;
    }
    out
}

// ---------- Order ----------

/// `a` comes before `b`: the order of texts by their characters' code points.
pub open spec fn before(a: Seq<char>, b: Seq<char>) -> bool
    decreases a.len(),
{
    if b.len() == 0 {
        false
    } else if a.len() == 0 {
        true
    } else if a[0] == b[0] {
        before(a.skip(1), b.skip(1))
    } else {
        (a[0] as int) < (b[0] as int)
    }
}

/// Whether `a` comes before `b`.
pub fn precedes(a: &str, b: &str) -> (r: bool)
    ensures
        r == before(a@, b@),
{
    let v = chars_of(a);
    let w = chars_of(b);
    let mut i: usize = 0;
    proof {
        assert(v@.skip(0) =~= v@);
        assert(w@.skip(0) =~= w@);
    }
    while i < v.len() && i < w.len() && v[i] == w[i]
        invariant
            i <= v@.len(),
            i <= w@.len(),
            before(v@, w@) == before(v@.skip(i as int), w@.skip(i as int)),
        decreases v@.len() - i,
    {
        proof {
            assert(v@.skip(i as int).skip(1) =~= v@.skip(i + 1));
            assert(w@.skip(i as int).skip(1) =~= w@.skip(i + 1));
        }
        i = i + 1;
    }
    if i >= w.len() {
        false
    } else if i >= v.len() {
        true
    } else {
        code_point(v[i]) < code_point(w[i])
    }
}

/// The order is strict and total.
pub proof fn before_is_total(a: Seq<char>, b: Seq<char>)
    ensures
        !before(a, a),
        before(a, b) ==> !before(b, a),
        before(a, b) || before(b, a) || a == b,
    decreases a.len(),
{
    if a.len() > 0 {
        before_is_total(a.skip(1), a.skip(1));
        if b.len() > 0 {
            if a[0] == b[0] {
                before_is_total(a.skip(1), b.skip(1));
                if a.skip(1) == b.skip(1) {
                    assert(a =~= seq![a[0]] + a.skip(1));
                    assert(b =~= seq![b[0]] + b.skip(1));
                }
            } else {
                assert(a[0] as int != b[0] as int);
            }
        }
    } else if b.len() == 0 {
        assert(a =~= b);
    }
}

/// The order is transitive.
pub proof fn before_is_transitive(a: Seq<char>, b: Seq<char>, c: Seq<char>)
    requires
        before(a, b),
        before(b, c),
    ensures
        before(a, c),
    decreases a.len(),
{
    if a.len() > 0 && a[0] == b[0] && b[0] == c[0] {
        before_is_transitive(a.skip(1), b.skip(1), c.skip(1));
    }
}

// ---------- Numbers ----------

/// The digit `d` in bases up to sixteen.
pub open spec fn digit(d: nat) -> char {
    if d < 10 {
        (48 + d) as char
    } else {
        (87 + d) as char
    }
}

/// `n` written in `base` (2 to 16), without leading zeros.
pub open spec fn numeral(n: nat, base: nat) -> Seq<char>
    decreases n,
{
    if base < 2 || n < base {
        seq![digit(n)]
    } else {
        proof {
            assert(n / base < n) by (nonlinear_arith)
                requires
                    n >= base,
                    base >= 2,
            ;
        }
        numeral(n / base, base).push(digit(n % base))
    }
}

/// `n` in decimal.
pub open spec fn decimal(n: nat) -> Seq<char> {
    numeral(n, 10)
}

fn digit_char(d: u8) -> (c: char)
    requires
        d < 16,
    ensures
        c == digit(d as nat),
{
    if d < 10 {
        (48 + d) as char
    } else {
        (87 + d) as char
    }
}

fn numeral_text(n: u128, base: u128) -> (s: String)
    requires
        2 <= base <= 16,
    ensures
        s@ == numeral(n as nat, base as nat),
    decreases n,
{
    let mut s = if n < base {
        String::new()
    } else {
        proof {
            assert(n / base < n) by (nonlinear_arith)
                requires
                    n >= base,
                    base >= 2,
            ;
        }
        numeral_text(n / base, base)
    };
    let ghost before = s@;
    let d: u8 = (n % base) as u8;
    s.push(digit_char(d));
    proof {
        if n < base {
            assert(n % base == n) by (nonlinear_arith)
                requires
                    n < base,
            ;
            assert(s@ =~= seq![digit(n as nat)]);
        }
    }
    s
}

/// `n` in decimal.
pub fn decimal_text(n: u128) -> (s: String)
    ensures
        s@ == decimal(n as nat),
{
    numeral_text(n, 10)
}

/// `n` in hexadecimal, in lower case.
pub fn hex_text(n: u128) -> (s: String)
    ensures
        s@ == numeral(n as nat, 16),
{
    numeral_text(n, 16)
}

/// `c` is a decimal digit.
pub open spec fn is_digit(c: char) -> bool {
    48 <= c as int <= 57
}

/// Every character of `s` is a decimal digit.
pub open spec fn all_digits(s: Seq<char>) -> bool {
    forall|i: int| 0 <= i < s.len() ==> is_digit(#[trigger] s[i])
}

/// The number that the digits `s` write.
pub open spec fn digits_value(s: Seq<char>) -> nat
    decreases s.len(),
{
    if s.len() == 0 {
        0
    } else {
        10 * digits_value(s.drop_last()) + (s.last() as int - 48) as nat
    }
}

/// The number up to `max` that `s` writes: digits, with one plus sign allowed
/// in front.
pub open spec fn unsigned(s: Seq<char>, max: nat) -> Option<nat> {
    let digits = if s.len() > 0 && s[0] == '+' {
        s.skip(1)
    } else {
        s
    };
    if digits.len() > 0 && all_digits(digits) && digits_value(digits) <= max {
        Some(digits_value(digits))
    } else {
        None
    }
}

proof fn digits_value_grows(s: Seq<char>, n: int)
    requires
        0 <= n <= s.len(),
        all_digits(s),
    ensures
        digits_value(s.take(n)) <= digits_value(s),
    decreases s.len(),
{
    if n == s.len() {
        assert(s.take(n) =~= s);
    } else {
        assert(s.drop_last().take(n) =~= s.take(n));
        digits_value_grows(s.drop_last(), n);
    }
}

/// The number up to `max` that `s` writes.
pub fn parse_unsigned(s: &str, max: u64) -> (r: Option<u64>)
    ensures
        match r {
            Some(n) => unsigned(s@, max as nat) == Some(n as nat),
            None => unsigned(s@, max as nat) is None,
        },
{
    let v = chars_of(s);
    let start: usize = if v.len() > 0 && v[0] == '+' { 1 } else { 0 };
    if start == v.len() {
        return None;
    }
    let ghost digits = v@.skip(start as int);
    proof {
        if start == 0 {
            assert(digits =~= v@);
        }
        assert(digits.take(0) =~= Seq::<char>::empty());
    }
    let mut i: usize = start;
    let mut n: u128 = 0;
    while i < v.len()
        invariant
            start <= i <= v@.len(),
            digits == v@.skip(start as int),
            digits == (if s@.len() > 0 && s@[0] == '+' { s@.skip(1) } else { s@ }),
            n == digits_value(digits.take(i - start)),
            n <= max,
            forall|j: int| 0 <= j < i - start ==> is_digit(#[trigger] digits[j]),
        decreases v@.len() - i,
    {
        let c: u32 = code_point(v[i]);
        proof {
            assert(digits[i - start] == v@[i as int]);
            assert(digits.take(i + 1 - start).drop_last() =~= digits.take(i - start));
        }
        if c < 48 || c > 57 {
            return None;
        }
        n = 10 * n + (c - 48) as u128;
        i = i + 1;
        if n > max as u128 {
            proof {
                if all_digits(digits) {
                    digits_value_grows(digits, i - start);
                }
            }
            return None;
        }
    }
    proof {
        assert(digits.take(digits.len() as int) =~= digits);
    }
    Some(n as u64)
}

proof fn numeral_is_digits(n: nat)
    ensures
        decimal(n).len() > 0,
        all_digits(decimal(n)),
        digits_value(decimal(n)) == n,
    decreases n,
{
    if n < 10 {
        let one = seq![digit(n)];
        assert(decimal(n) =~= one);
        assert(one.drop_last() =~= Seq::<char>::empty());
        assert(digits_value(one.drop_last()) == 0);
    } else {
        numeral_is_digits(n / 10);
        let d = decimal(n);
        assert(d == decimal(n / 10).push(digit(n % 10)));
        assert(d.drop_last() =~= decimal(n / 10));
        assert forall|i: int| 0 <= i < d.len() implies is_digit(#[trigger] d[i]) by {
            if i < d.len() - 1 {
                assert(d[i] == decimal(n / 10)[i]);
            }
        }
    }
}

/// A number that is written in decimal is read back.
pub proof fn unsigned_reads_decimal(n: nat, max: nat)
    requires
        n <= max,
    ensures
        unsigned(decimal(n), max) == Some(n),
{
    numeral_is_digits(n);
    assert(is_digit(decimal(n)[0]));
}

/// A number in decimal has no white space to trim.
pub proof fn decimal_is_trimmed(n: nat)
    ensures
        trimmed(decimal(n)) == decimal(n),
{
    numeral_is_digits(n);
    let d = decimal(n);
    assert(is_digit(d[0]));
    assert(is_digit(d.last()));
}

/// A visible prefix and a blank before a text make one field more.
pub proof fn one_field_more(c: char, s: Seq<char>)
    requires
        !is_white(c),
    ensures
        fields(seq![c, ' '] + s) == seq![seq![c]] + fields(s),
    decreases s.len(),
{
    let is_sep = |c: char| is_white(c);
    let p = seq![c, ' '];
    let u = p + s;
    if s.len() == 0 {
        assert(u =~= p);
        assert(p.drop_last() =~= seq![c]);
        assert(seq![c].drop_last() =~= Seq::<char>::empty());
        reveal_with_fuel(runs, 4);
        assert(fields(u) =~= seq![seq![c]] + fields(s));
    } else {
        one_field_more(c, s.drop_last());
        runs_last(s.drop_last(), is_sep);
        assert(u.drop_last() =~= p + s.drop_last());
        assert(u.last() == s.last());
        if s.len() >= 2 {
            assert(u[u.len() - 2] == s[s.len() - 2]);
            assert(s.drop_last().last() == s[s.len() - 2]);
        } else {
            assert(u[u.len() - 2] == ' ');
        }
        assert(fields(u) =~= seq![seq![c]] + fields(s));
    }
}

/// `inner` between two other texts.
pub fn around(before: &str, inner: &str, after: &str) -> (r: String)
    ensures
        r@ == before@ + inner@ + after@,
{
    let mut r = before.to_owned();
    r.append(inner);
    r.append(after);
    r
}

// ---------- What the parts of a text are ----------

/// All of the characters are white space.
pub open spec fn all_white(s: Seq<char>) -> bool {
    forall|i: int| 0 <= i < s.len() ==> is_white(#[trigger] s[i])
}

proof fn trimming_start_takes_white_off(s: Seq<char>) -> (lead: Seq<char>)
    ensures
        all_white(lead),
        s == lead + trimmed_start(s),
    decreases s.len(),
{
    if s.len() > 0 && is_white(s[0]) {
        let rest = trimming_start_takes_white_off(s.skip(1));
        let lead = seq![s[0]] + rest;
        assert(s =~= lead + trimmed_start(s)) by {
            assert(s =~= seq![s[0]] + s.skip(1));
        }
        lead
    } else {
        assert(s =~= Seq::<char>::empty() + s);
        Seq::empty()
    }
}

proof fn trimming_end_takes_white_off(s: Seq<char>) -> (trail: Seq<char>)
    ensures
        all_white(trail),
        s == trimmed_end(s) + trail,
    decreases s.len(),
{
    if s.len() > 0 && is_white(s.last()) {
        let rest = trimming_end_takes_white_off(s.drop_last());
        let trail = rest.push(s.last());
        assert(s =~= trimmed_end(s) + trail) by {
            assert(s =~= s.drop_last().push(s.last()));
        }
        trail
    } else {
        assert(s =~= s + Seq::<char>::empty());
        Seq::empty()
    }
}

/// Trimming takes off white space and nothing else: the text is white space,
/// what is left, and white space. Spaces, tabs and line breaks are white, and
/// letters, digits and signs are not.
pub proof fn trimming_takes_white_off(s: Seq<char>)
    ensures
        exists|lead: Seq<char>, trail: Seq<char>|
            all_white(lead) && all_white(trail) && s == #[trigger] (lead + trimmed(s) + trail),
        is_white(' ') && is_white('\t') && is_white('\n') && is_white('\r') && is_white('\u{a0}') && is_white('\u{3000}'),
        forall|c: char| 33 <= c as int <= 126 ==> !is_white(c),
{
    let lead = trimming_start_takes_white_off(s);
    let trail = trimming_end_takes_white_off(trimmed_start(s));
    assert(s =~= lead + trimmed(s) + trail);
}

/// The pieces of a text, put together again with the separator between them,
/// are the text, and none of them holds the separator.
pub proof fn pieces_make_up_the_text(s: Seq<char>, sep: char)
    ensures
        joined(pieces(s, sep), seq![sep]) == s,
        forall|i: int| 0 <= i < pieces(s, sep).len() ==> !(#[trigger] pieces(s, sep)[i]).contains(sep),
    decreases s.len(),
{
    pieces_nonempty(s, sep);
    let parts = pieces(s, sep);
    if s.len() == 0 {
        assert(parts[0] =~= s);
    } else {
        let shorter = s.drop_last();
        let before = pieces(shorter, sep);
        pieces_make_up_the_text(shorter, sep);
        pieces_nonempty(shorter, sep);
        if s.last() == sep {
            assert(parts.drop_last() =~= before);
            assert(joined(parts, seq![sep]) =~= s);
        } else {
            let longer = before.last().push(s.last());
            joining_goes_on(before, seq![sep], longer);
            assert(parts == before.update(before.len() - 1, longer));
            assert(s =~= shorter.push(s.last()));
            if before.len() > 1 {
                let start = joined(before.drop_last(), seq![sep]);
                assert(shorter == start + seq![sep] + before.last());
                assert(start + seq![sep] + longer =~= shorter.push(s.last()));
            } else {
                assert(before[0] == before.last());
            }
            assert forall|i: int| 0 <= i < parts.len() implies !(#[trigger] parts[i]).contains(sep) by {
                assert(!before[i].contains(sep));
                if i == parts.len() - 1 && parts[i].contains(sep) {
                    let k = choose|k: int| 0 <= k < longer.len() && longer[k] == sep;
                    assert(before.last()[k] == sep);
                }
            }
        }
    }
}

proof fn joining_goes_on(parts: Seq<Seq<char>>, sep: Seq<char>, last: Seq<char>)
    requires
        parts.len() > 0,
    ensures
        parts.len() == 1 ==> joined(parts.update(parts.len() - 1, last), sep) == last,
        parts.len() > 1 ==> joined(parts.update(parts.len() - 1, last), sep) == joined(parts.drop_last(), sep) + sep
            + last,
{
    let changed = parts.update(parts.len() - 1, last);
    assert(changed.drop_last() =~= parts.drop_last());
}

/// A text that is parted is what stands before the first separator, the
/// separator, and what stands behind; one that is not parted does not hold it.
pub proof fn parting_is_at_the_first(s: Seq<char>, sep: char)
    ensures
        parted(s, sep) matches Some((head, tail)) ==> s == head + seq![sep] + tail && !head.contains(sep),
        parted(s, sep) is None ==> !s.contains(sep),
{
    index_is_first(s, sep, 0);
    index_from_bounds(s, sep, 0);
    if let Some((head, tail)) = parted(s, sep) {
        assert(s =~= head + seq![sep] + tail);
    }
}

proof fn index_is_first(s: Seq<char>, c: char, from: int)
    requires
        0 <= from,
    ensures
        index_from(s, c, from) matches Some(i) ==> forall|j: int| from <= j < i ==> #[trigger] s[j] != c,
        index_from(s, c, from) is None ==> forall|j: int| from <= j < s.len() ==> #[trigger] s[j] != c,
    decreases s.len() - from,
{
    if from < s.len() && s[from] != c {
        index_is_first(s, c, from + 1);
    }
}

/// The runs of a text are not empty and hold no separator, and together they
/// hold all of its other characters, in order.
pub proof fn runs_hold_what_is_between(s: Seq<char>, is_sep: spec_fn(char) -> bool)
    ensures
        forall|i: int| 0 <= i < runs(s, is_sep).len() ==> (#[trigger] runs(s, is_sep)[i]).len() > 0,
        forall|i: int, k: int|
            0 <= i < runs(s, is_sep).len() && 0 <= k < runs(s, is_sep)[i].len() ==> !is_sep(
                #[trigger] runs(s, is_sep)[i][k],
            ),
        runs(s, is_sep).flatten() == s.filter(|c: char| !is_sep(c)),
        s.len() > 0 && !is_sep(s.last()) ==> runs(s, is_sep).len() > 0,
    decreases s.len(),
{
    let keep = |c: char| !is_sep(c);
    reveal(Seq::filter);
    let found = runs(s, is_sep);
    if s.len() == 0 {
        assert(found.flatten() =~= Seq::<char>::empty());
        assert(s.filter(keep) =~= Seq::<char>::empty());
    } else {
        let shorter = s.drop_last();
        let c = s.last();
        let before = runs(shorter, is_sep);
        runs_hold_what_is_between(shorter, is_sep);
        runs_last(shorter, is_sep);
        if is_sep(c) {
        } else if s.len() >= 2 && !is_sep(s[s.len() - 2]) {
            assert(shorter.last() == s[s.len() - 2]);
            let longer = before.last().push(c);
            let start = before.drop_last();
            assert(before =~= start.push(before.last()));
            assert(found =~= start.push(longer));
            start.lemma_flatten_push(before.last());
            start.lemma_flatten_push(longer);
            assert(found.flatten() =~= before.flatten().push(c));
            assert forall|i: int, k: int| 0 <= i < found.len() && 0 <= k < found[i].len() implies !is_sep(
                #[trigger] found[i][k],
            ) by {
                if i < before.len() - 1 {
                    assert(found[i] == before[i]);
                } else if k < before.last().len() {
                    assert(found[i][k] == before[i][k]);
                }
            }
            assert forall|i: int| 0 <= i < found.len() implies (#[trigger] found[i]).len() > 0 by {
                assert(before[i].len() > 0);
            }
        } else {
            before.lemma_flatten_push(seq![c]);
            assert(found.flatten() =~= before.flatten().push(c));
        }
    }
}

/// A text begins with another where it is that one and something behind, and
/// ends with it where it is something and that one.
pub proof fn ends_are_what_stands_there(a: Seq<char>, b: Seq<char>, s: Seq<char>)
    ensures
        begins(a + b, a),
        finishes(a + b, b),
        holds(a + b + s, b),
        begins(s, a) ==> s == a + s.skip(a.len() as int),
        finishes(s, a) ==> s == s.take(s.len() - a.len()) + a,
        holds(s, a) ==> exists|i: int| 0 <= i <= s.len() - a.len() && #[trigger] s.subrange(i, i + a.len()) == a,
        after_prefix(a + b, a) == Some(b),
{
    assert((a + b).subrange(0, a.len() as int) =~= a);
    assert((a + b).subrange(a.len() as int, (a + b).len() as int) =~= b);
    assert((a + b).skip(a.len() as int) =~= b);
    let whole = a + b + s;
    assert(whole.subrange(a.len() as int, a.len() as int + b.len()) =~= b);
    assert(occurs_at(whole, b, a.len() as int));
    find_from_is_first(whole, b, 0);
    find_from_is_first(s, a, 0);
    if begins(s, a) {
        assert(s =~= s.subrange(0, a.len() as int) + s.skip(a.len() as int));
    }
    if finishes(s, a) {
        assert(s =~= s.take(s.len() - a.len()) + s.subrange(s.len() - a.len(), s.len() as int));
    }
    if let Some(i) = find_from(s, a, 0) {
        assert(s.subrange(i, i + a.len()) == a);
    }
}

/// Replacing goes from the left: what stands before the first occurrence stays,
/// the occurrence gives way, and the rest is replaced likewise. Where there is
/// no occurrence the text stays as it is.
pub proof fn replacing_goes_from_the_left(s: Seq<char>, part: Seq<char>, by: Seq<char>)
    requires
        part.len() > 0,
    ensures
        !holds(s, part) ==> replaced(s, part, by) == s,
        find_from(s, part, 0) matches Some(i) ==> replaced(s, part, by) == s.take(i) + by + replaced(
            s.skip(i + part.len()),
            part,
            by,
        ),
        replaced(s, part, part) == s,
{
    replacing_from(s, part, by, 0);
    replacing_itself(s, part, 0);
    assert(s.skip(0) =~= s);
    if let Some(i) = find_from(s, part, 0) {
        find_from_is_first(s, part, 0);
        replacing_behind(s, part, by, i + part.len(), 0);
        assert(s.subrange(0, i) =~= s.take(i));
    }
}

proof fn replacing_from(s: Seq<char>, part: Seq<char>, by: Seq<char>, i: int)
    requires
        part.len() > 0,
        0 <= i <= s.len(),
    ensures
        find_from(s, part, i) is None ==> replaced_from(s, part, by, i) == s.skip(i),
        find_from(s, part, i) matches Some(j) ==> replaced_from(s, part, by, i) == s.subrange(i, j) + by + replaced_from(
            s,
            part,
            by,
            j + part.len(),
        ),
    decreases s.len() - i,
{
    if i < s.len() && !occurs_at(s, part, i) {
        replacing_from(s, part, by, i + 1);
        assert(find_from(s, part, i) == find_from(s, part, i + 1));
        find_from_is_first(s, part, i + 1);
        if let Some(j) = find_from(s, part, i) {
            assert(seq![s[i]] + s.subrange(i + 1, j) =~= s.subrange(i, j));
            assert(seq![s[i]] + (s.subrange(i + 1, j) + by + replaced_from(s, part, by, j + part.len())) =~= s.subrange(
                i,
                j,
            ) + by + replaced_from(s, part, by, j + part.len()));
        } else {
            assert(seq![s[i]] + s.skip(i + 1) =~= s.skip(i));
        }
    } else if i < s.len() {
        assert(s.subrange(i, i) =~= Seq::<char>::empty());
        assert(Seq::<char>::empty() + by =~= by);
    } else {
        assert(s.skip(i) =~= Seq::<char>::empty());
    }
}

proof fn replacing_behind(s: Seq<char>, part: Seq<char>, by: Seq<char>, k: int, i: int)
    requires
        part.len() > 0,
        0 <= k <= s.len(),
        0 <= i <= s.len() - k,
    ensures
        replaced_from(s.skip(k), part, by, i) == replaced_from(s, part, by, k + i),
    decreases s.len() - i,
{
    let rest = s.skip(k);
    if i < rest.len() {
        if i + part.len() <= rest.len() {
            assert(rest.subrange(i, i + part.len()) =~= s.subrange(k + i, k + i + part.len()));
            assert(occurs_at(rest, part, i) == occurs_at(s, part, k + i));
        }
        if occurs_at(rest, part, i) {
            replacing_behind(s, part, by, k, i + part.len());
        } else {
            replacing_behind(s, part, by, k, i + 1);
        }
    }
}

proof fn replacing_itself(s: Seq<char>, part: Seq<char>, i: int)
    requires
        part.len() > 0,
        0 <= i <= s.len(),
    ensures
        replaced_from(s, part, part, i) == s.skip(i),
    decreases s.len() - i,
{
    if i < s.len() {
        if occurs_at(s, part, i) {
            replacing_itself(s, part, i + part.len());
            assert(s.subrange(i, i + part.len()) + s.skip(i + part.len()) =~= s.skip(i));
        } else {
            replacing_itself(s, part, i + 1);
            assert(seq![s[i]] + s.skip(i + 1) =~= s.skip(i));
        }
    } else {
        assert(s.skip(i) =~= Seq::<char>::empty());
    }
}

/// Replacing nothing puts the new text before every character and at the end.
pub proof fn replacing_nothing_spaces_out(s: Seq<char>, by: Seq<char>)
    ensures
        replaced(s, Seq::empty(), by).len() == s.len() + (s.len() + 1) * by.len(),
        replaced(Seq::empty(), Seq::empty(), by) == by,
{
    spacing_out_adds(s, by, 0);
}

proof fn spacing_out_adds(s: Seq<char>, by: Seq<char>, i: int)
    requires
        0 <= i <= s.len(),
    ensures
        spaced_from(s, by, i).len() == s.len() - i + (s.len() - i + 1) * by.len(),
    decreases s.len() - i,
{
    let m = s.len() - i;
    let n = by.len() as int;
    if i < s.len() {
        spacing_out_adds(s, by, i + 1);
        assert((m + 1) * n == m * n + n) by (nonlinear_arith);
    } else {
        assert((m + 1) * n == n) by (nonlinear_arith)
            requires
                m == 0,
        ;
    }
}

/// A text cut at a separator and joined by it again is the text, and none of
/// the parts but the joints held the separator.
pub proof fn cutting_is_undone_by_joining(s: Seq<char>, sep: Seq<char>)
    requires
        sep.len() > 0,
    ensures
        cut_from(s, sep, 0).len() > 0,
        joined(cut_from(s, sep, 0), sep) == s,
        !holds(s, sep) ==> cut_from(s, sep, 0) == seq![s],
{
    cutting_from(s, sep, 0);
    assert(s.skip(0) =~= s);
}

proof fn cutting_from(s: Seq<char>, sep: Seq<char>, i: int)
    requires
        sep.len() > 0,
        0 <= i <= s.len(),
    ensures
        cut_from(s, sep, i).len() > 0,
        joined(cut_from(s, sep, i), sep) == s.skip(i),
    decreases s.len() - i,
{
    find_from_is_first(s, sep, i);
    match find_from(s, sep, i) {
        Some(j) => {
            cutting_from(s, sep, j + sep.len());
            let rest = cut_from(s, sep, j + sep.len());
            let head = s.subrange(i, j);
            joining_from_the_front(head, rest, sep);
            assert(head + sep + s.skip(j + sep.len()) =~= s.skip(i)) by {
                assert(s.subrange(j, j + sep.len()) == sep);
                assert(s.skip(i) =~= s.subrange(i, j) + s.subrange(j, j + sep.len()) + s.skip(j + sep.len()));
            }
        },
        None => {
            assert(cut_from(s, sep, i)[0] == s.skip(i));
        },
    }
}

/// Joining puts the separator between each part and the next, and nowhere else.
pub proof fn joining_from_the_front(head: Seq<char>, rest: Seq<Seq<char>>, sep: Seq<char>)
    ensures
        joined(Seq::empty(), sep).len() == 0,
        joined(seq![head], sep) == head,
        rest.len() > 0 ==> joined(seq![head] + rest, sep) == head + sep + joined(rest, sep),
    decreases rest.len(),
{
    let all = seq![head] + rest;
    if rest.len() == 1 {
        assert(all.drop_last() =~= seq![head]);
        assert(all.last() == rest[0]);
        assert(joined(all, sep) == joined(seq![head], sep) + sep + rest[0]);
    } else if rest.len() > 1 {
        assert(all.last() == rest.last());
        joining_from_the_front(head, rest.drop_last(), sep);
        assert(all.drop_last() =~= seq![head] + rest.drop_last());
        assert(joined(all, sep) =~= head + sep + joined(rest, sep));
    }
}

/// A text repeated so often is as many times as long, and every character of it
/// is the one of the text at that place, counted round.
pub proof fn repeating_goes_round(s: Seq<char>, n: nat)
    ensures
        repeated(s, n).len() == n * s.len(),
        forall|i: int| 0 <= i < repeated(s, n).len() ==> #[trigger] repeated(s, n)[i] == s[i % s.len() as int],
    decreases n,
{
    if n == 0 {
        assert(0 * s.len() == 0) by (nonlinear_arith);
    } else {
        let m = (n - 1) as nat;
        let k = s.len() as int;
        repeating_goes_round(s, m);
        assert(n * k == m * k + k) by (nonlinear_arith)
            requires
                n == m + 1,
        ;
        assert forall|i: int| 0 <= i < repeated(s, n).len() implies #[trigger] repeated(s, n)[i] == s[i % k] by {
            if i < m * k {
                assert(repeated(s, n)[i] == repeated(s, m)[i]);
            } else {
                let j = i - m * k;
                assert(repeated(s, n)[i] == s[j]);
                assert(i % k == j) by {
                    vstd::arithmetic::div_mod::lemma_mod_multiples_vanish(m as int, j, k);
                    assert(k * m == m * k) by (nonlinear_arith);
                    vstd::arithmetic::div_mod::lemma_small_mod(j as nat, k as nat);
                }
            }
        }
    }
}

/// The order of texts is that of a dictionary: the first characters that differ
/// decide, by their code points, and a text comes before one that goes on.
pub proof fn first_difference_decides(start: Seq<char>, a: char, b: char, x: Seq<char>, y: Seq<char>)
    ensures
        (a as int) < (b as int) ==> before(start + seq![a] + x, start + seq![b] + y),
        before(start, start + seq![a] + x),
    decreases start.len(),
{
    let p = start + seq![a] + x;
    let q = start + seq![b] + y;
    if start.len() == 0 {
        assert(p[0] == a && q[0] == b);
    } else {
        let rest = start.skip(1);
        first_difference_decides(rest, a, b, x, y);
        assert(p.skip(1) =~= rest + seq![a] + x);
        assert(q.skip(1) =~= rest + seq![b] + y);
        assert(p[0] == start[0] && q[0] == start[0]);
    }
}

/// Numerals are read from the left, each digit counting for the base times less
/// than the one before it; from ten on the digits are letters.
pub proof fn numerals_count_by_their_base(n: nat, d: nat, base: nat)
    requires
        2 <= base <= 36,
        d < base,
    ensures
        numeral(d, base) == seq![digit(d)],
        n > 0 ==> numeral(n * base + d, base) == numeral(n, base).push(digit(d)),
        d < 10 ==> digit(d) as int == '0' as int + d,
        10 <= d ==> digit(d) as int == 'a' as int + d - 10,
{
    if n > 0 {
        let m = n * base + d;
        assert(m >= base) by (nonlinear_arith)
            requires
                n > 0,
                m == n * base + d,
        ;
        assert(m / base == n && m % base == d) by {
            vstd::arithmetic::div_mod::lemma_fundamental_div_mod_converse(m as int, base as int, n as int, d as int);
        }
    }
}

/// A number is read with or without a plus before it; a text with anything but
/// digits, or of a number above the limit, is no number.
pub proof fn numbers_are_digits(n: nat, max: nat, s: Seq<char>, i: int)
    ensures
        n <= max ==> unsigned(seq!['+'] + decimal(n), max) == Some(n),
        n > max ==> unsigned(decimal(n), max) is None,
        0 <= i < s.len() && !is_digit(s[i]) && !(i == 0 && s[0] == '+') ==> unsigned(s, max) is None,
        unsigned(Seq::empty(), max) is None,
        unsigned(seq!['+'], max) is None,
{
    numeral_is_digits(n);
    assert((seq!['+'] + decimal(n)).skip(1) =~= decimal(n));
    assert(is_digit(decimal(n)[0]));
    assert(seq!['+'].skip(1) =~= Seq::<char>::empty());
    if 0 <= i < s.len() && !is_digit(s[i]) && !(i == 0 && s[0] == '+') {
        if s[0] == '+' {
            assert(s.skip(1)[i - 1] == s[i]);
        }
    }
}

/// A number in decimal is made of digits and reads back as the number.
pub proof fn decimals_read_back(n: nat)
    ensures
        decimal(n).len() > 0,
        all_digits(decimal(n)),
        digits_value(decimal(n)) == n,
{
    numeral_is_digits(n);
}

/// A text that does not hold the separator is one piece, and two such texts
/// with the separator between them are two.
pub proof fn plain_texts_are_pieces(a: Seq<char>, b: Seq<char>, sep: char)
    requires
        !a.contains(sep),
        !b.contains(sep),
    ensures
        pieces(a, sep) == seq![a],
        pieces(a + seq![sep] + b, sep) == seq![a, b],
        parted(a, sep) is None,
        parted(a + seq![sep] + b, sep) == Some((a, b)),
{
    one_piece(a, sep);
    two_pieces(a, b, sep);
    let s = a + seq![sep] + b;
    parting_is_at_the_first(a, sep);
    parting_is_at_the_first(s, sep);
    index_from_bounds(a, sep, 0);
    assert(s[a.len() as int] == sep);
    assert(s.contains(sep));
    index_from_bounds(s, sep, 0);
    index_is_first(s, sep, 0);
    let i = index_from(s, sep, 0)->0;
    if i < a.len() {
        assert(a[i] == s[i]);
        assert(a.contains(sep));
    } else if i > a.len() {
        assert(s[a.len() as int] != sep);
    }
    assert(s.take(i) =~= a);
    assert(s.skip(i + 1) =~= b);
    if parted(a, sep) is Some {
        assert(a.contains(sep));
    }
}

proof fn one_piece(a: Seq<char>, sep: char)
    requires
        !a.contains(sep),
    ensures
        pieces(a, sep) == seq![a],
    decreases a.len(),
{
    if a.len() == 0 {
        assert(a =~= Seq::<char>::empty());
    } else {
        let shorter = a.drop_last();
        assert(!shorter.contains(sep)) by {
            if shorter.contains(sep) {
                let k = choose|k: int| 0 <= k < shorter.len() && shorter[k] == sep;
                assert(a[k] == sep);
            }
        }
        assert(a[a.len() - 1] != sep);
        one_piece(shorter, sep);
        assert(shorter.push(a.last()) =~= a);
        assert(pieces(a, sep) =~= seq![a]);
    }
}

proof fn two_pieces(a: Seq<char>, b: Seq<char>, sep: char)
    requires
        !a.contains(sep),
        !b.contains(sep),
    ensures
        pieces(a + seq![sep] + b, sep) == seq![a, b],
    decreases b.len(),
{
    let s = a + seq![sep] + b;
    if b.len() == 0 {
        one_piece(a, sep);
        assert(s.drop_last() =~= a);
        assert(b =~= Seq::<char>::empty());
        assert(pieces(s, sep) =~= seq![a, b]);
    } else {
        let shorter = b.drop_last();
        assert(!shorter.contains(sep)) by {
            if shorter.contains(sep) {
                let k = choose|k: int| 0 <= k < shorter.len() && shorter[k] == sep;
                assert(b[k] == sep);
            }
        }
        assert(b[b.len() - 1] != sep);
        two_pieces(a, shorter, sep);
        assert(s.drop_last() =~= a + seq![sep] + shorter);
        assert(shorter.push(b.last()) =~= b);
        assert(pieces(s, sep) =~= seq![a, b]);
    }
}

/// The decimal digits of a number hold no sign and no white space.
pub proof fn decimals_hold_digits_only(n: nat, c: char)
    requires
        !is_digit(c),
    ensures
        !decimal(n).contains(c),
{
    numeral_is_digits(n);
    if decimal(n).contains(c) {
        let k = choose|k: int| 0 <= k < decimal(n).len() && decimal(n)[k] == c;
        assert(is_digit(decimal(n)[k]));
    }
}

} // verus!
