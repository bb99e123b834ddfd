//! Functions on text: JSON, letter case, searching, cutting and encoding.

use vstd::prelude::*;
use vstd::string::*;

use crate::automations::coerce;
use crate::automations::coerce::{num, num_whole, to_number, to_text, values_equal};
use crate::automations::host;
use crate::automations::host::{
    ask_bits, ask_text, ask_value, ask_whole, Answer, AnswerModel, Ask, AskModel, Oracle,
};
use crate::dup::Dup;
use crate::encode;
use crate::encode::{base64_encode, url_encode};
use crate::table;
use crate::text;
use crate::text::{
    chars_of, contains, ends_with, find, join, repeat, replace, same, split_text, starts_with, text_of, trim,
};
use crate::unicode;
use crate::unicode::{to_lowercase, to_uppercase, uppercase_char};
use crate::value;
use crate::value::{Number, Value, ValueModel};

verus! {

/// The argument at place `i`; null where there is none.
pub open spec fn arg(args: Seq<ValueModel>, i: int) -> ValueModel {
    if 0 <= i < args.len() {
        args[i]
    } else {
        ValueModel::Null
    }
}

/// The argument at place `i`; null where there is none.
pub fn argument(args: &Vec<Value>, i: usize) -> (r: Value)
    ensures
        r.deep_view() == arg(args.deep_view(), i as int),
{
    if i < args.len() {
        args[i].dup()
    } else {
        Value::Null
    }
}

/// How long a value is: characters, items or entries.
pub open spec fn length_of(v: ValueModel, o: Oracle) -> nat {
    match v {
        ValueModel::Text(s) => s.len(),
        ValueModel::List(s) => s.len(),
        ValueModel::Dict(s) => s.len(),
        ValueModel::Null => 0,
        _ => coerce::text_for(v, o).len(),
    }
}

/// How long a value is.
pub fn value_len<H: Fn(Ask) -> Answer>(v: &Value, host: &H) -> (n: usize)
    requires
        host::faithful(*host),
    ensures
        n == length_of(v.deep_view(), host::oracle(*host)),
{
    match v {
        Value::Text(s) => chars_of(s.as_str()).len(),
        Value::List(a) => a.len(),
        Value::Dict(t) => t.entries.len(),
        Value::Null => 0,
        _ => chars_of(to_text(v, host).as_str()).len(),
    }
}

/// One of the items equals `needle`.
pub open spec fn any_equal(items: Seq<ValueModel>, needle: ValueModel, o: Oracle) -> bool {
    exists|i: int| 0 <= i < items.len() && coerce::equal(#[trigger] items[i], needle, o)
}

/// `haystack` contains `needle`: an item of a list, a key of a dictionary, or a
/// part of a text.
pub open spec fn value_holds(haystack: ValueModel, needle: ValueModel, o: Oracle) -> bool {
    match haystack {
        ValueModel::List(items) => any_equal(items, needle, o),
        ValueModel::Dict(t) => table::has_key(t, coerce::text_for(needle, o)),
        _ => text::holds(coerce::text_for(haystack, o), coerce::text_for(needle, o)),
    }
}

fn value_contains<H: Fn(Ask) -> Answer>(haystack: &Value, needle: &Value, host: &H) -> (r: bool)
    requires
        host::faithful(*host),
    ensures
        r == value_holds(haystack.deep_view(), needle.deep_view(), host::oracle(*host)),
{
    match haystack {
        Value::List(a) => {
            proof {
                value::list_model(*a);
            }
            let mut i: usize = 0;
            while i < a.len()
                invariant
                    host::faithful(*host),
                    i <= a@.len(),
                    haystack.deep_view() == ValueModel::List(a.deep_view()),
                    forall|j: int|
                        0 <= j < i ==> !coerce::equal(
                            #[trigger] a.deep_view()[j],
                            needle.deep_view(),
                            host::oracle(*host),
                        ),
                decreases a@.len() - i,
            {
                proof {
                    assert(a.deep_view()[i as int] == a@[i as int].deep_view());
                }
                if values_equal(&a[i], needle, host) {
                    return true;
                }
                i = i + 1;
            }
            false
        },
        Value::Dict(t) => {
            proof {
                value::dict_model(*t);
            }
            t.contains_key(to_text(needle, host).as_str())
        },
        _ => contains(to_text(haystack, host).as_str(), to_text(needle, host).as_str()),
    }
}

/// The texts as a list of values.
pub open spec fn text_list(parts: Seq<Seq<char>>) -> ValueModel {
    ValueModel::List(parts.map_values(|s: Seq<char>| ValueModel::Text(s)))
}

fn list_of_texts(parts: Vec<String>) -> (r: Value)
    ensures
        r.deep_view() == text_list(parts.deep_view()),
{
    let ghost all = parts.deep_view();
    let mut out: Vec<Value> = Vec::new();
    let mut i: usize = 0;
    while i < parts.len()
        invariant
            i <= parts@.len(),
            all == parts.deep_view(),
            out@.len() == i,
            forall|j: int| 0 <= j < i ==> (#[trigger] out@[j]).deep_view() == ValueModel::Text(all[j]),
        decreases parts@.len() - i,
    {
        out.push(Value::Text(parts[i].clone()));
        i = i + 1;
    }
    proof {
        value::list_model(out);
        assert(out.deep_view() =~= all.map_values(|s: Seq<char>| ValueModel::Text(s)));
    }
    Value::List(out)
}

/// The characters of a text, each as a text.
pub open spec fn char_texts(s: Seq<char>) -> Seq<Seq<char>> {
    s.map_values(|c: char| seq![c])
}

/// A text cut at a separator; with an empty one, into its characters.
pub open spec fn cut(s: Seq<char>, sep: Seq<char>) -> Seq<Seq<char>> {
    if sep.len() == 0 {
        char_texts(s)
    } else {
        text::cut_from(s, sep, 0)
    }
}

fn cut_text(s: &str, sep: &str) -> (r: Vec<String>)
    ensures
        r.deep_view() == cut(s@, sep@),
{
    if !sep.is_empty() {
        return split_text(s, sep);
    }
    let v = chars_of(s);
    let mut out: Vec<String> = Vec::new();
    let mut i: usize = 0;
    while i < v.len()
        invariant
            i <= v.len(),
            v@ == s@,
            out@.len() == i,
            forall|j: int| 0 <= j < i ==> (#[trigger] out@[j])@ == seq![s@[j]],
        decreases v@.len() - i,
    {
        let c = text_of(&v, i, i + 1);
        proof {
            assert(c@ =~= seq![s@[i as int]]);
        }
        out.push(c);
        i = i + 1;
    }
    proof {
        assert(out.deep_view() =~= char_texts(s@));
    }
    out
}

/// The items of a list as text.
pub open spec fn item_texts(items: Seq<ValueModel>, o: Oracle) -> Seq<Seq<char>> {
    items.map_values(|v: ValueModel| coerce::text_for(v, o))
}

/// The items of a list as one text; any other value as text.
pub open spec fn joined_value(v: ValueModel, sep: Seq<char>, o: Oracle) -> Seq<char> {
    match v {
        ValueModel::List(items) => text::joined(item_texts(items, o), sep),
        _ => coerce::text_for(v, o),
    }
}

fn join_value<H: Fn(Ask) -> Answer>(v: &Value, sep: &str, host: &H) -> (r: String)
    requires
        host::faithful(*host),
    ensures
        r@ == joined_value(v.deep_view(), sep@, host::oracle(*host)),
{
    match v {
        Value::List(a) => {
            proof {
                value::list_model(*a);
            }
            let mut parts: Vec<String> = Vec::new();
            let mut i: usize = 0;
            while i < a.len()
                invariant
                    host::faithful(*host),
                    i <= a@.len(),
                    parts@.len() == i,
                    forall|j: int|
                        0 <= j < i ==> (#[trigger] parts@[j])@ == coerce::text_for(
                            a@[j].deep_view(),
                            host::oracle(*host),
                        ),
                decreases a@.len() - i,
            {
                parts.push(to_text(&a[i], host));
                i = i + 1;
            }
            proof {
                assert(parts.deep_view() =~= item_texts(a.deep_view(), host::oracle(*host)));
            }
            join(&parts, sep)
        },
        _ => to_text(v, host),
    }
}

/// The place that `v` names in something of length `len`, at most its end.
pub open spec fn bounded_place(v: ValueModel, len: nat, o: Oracle) -> nat {
    let i = host::whole_in(o(AskModel::Whole(coerce::number_of(v, o))));
    if i < len {
        i as nat
    } else {
        len
    }
}

/// Where a cut by the second and third arguments starts.
pub open spec fn span_start(args: Seq<ValueModel>, len: nat, o: Oracle) -> nat {
    bounded_place(arg(args, 1), len, o)
}

/// Where a cut by the second and third arguments ends: without the third, at
/// the end.
pub open spec fn span_end(args: Seq<ValueModel>, len: nat, o: Oracle) -> nat {
    if args.len() >= 3 {
        bounded_place(arg(args, 2), len, o)
    } else {
        len
    }
}

/// The items of `s` from the start to the end of a cut.
pub open spec fn span<T>(s: Seq<T>, args: Seq<ValueModel>, o: Oracle) -> Seq<T> {
    let start = span_start(args, s.len(), o);
    let end = span_end(args, s.len(), o);
    if end <= start {
        Seq::empty()
    } else {
        s.subrange(start as int, end as int)
    }
}

fn place_within<H: Fn(Ask) -> Answer>(v: &Value, len: usize, host: &H) -> (r: usize)
    requires
        host::faithful(*host),
    ensures
        r == bounded_place(v.deep_view(), len as nat, host::oracle(*host)),
        r <= len,
{
    let i: u64 = ask_whole(host, Ask::Whole(to_number(v, host)));
    if i < len as u64 {
        i as usize
    } else {
        len
    }
}

/// The bounds of a cut by the second and third arguments.
pub fn span_bounds<H: Fn(Ask) -> Answer>(args: &Vec<Value>, len: usize, host: &H) -> (r: (usize, usize))
    requires
        host::faithful(*host),
    ensures
        r.0 == span_start(args.deep_view(), len as nat, host::oracle(*host)),
        r.1 == span_end(args.deep_view(), len as nat, host::oracle(*host)),
        r.0 <= len,
        r.1 <= len,
{
    let start: usize = place_within(&argument(args, 1), len, host);
    let end: usize = if args.len() >= 3 {
        place_within(&argument(args, 2), len, host)
    } else {
        len
    };
    (start, end)
}

fn substring<H: Fn(Ask) -> Answer>(args: &Vec<Value>, host: &H) -> (r: String)
    requires
        host::faithful(*host),
    ensures
        r@ == span(
            coerce::text_for(arg(args.deep_view(), 0), host::oracle(*host)),
            args.deep_view(),
            host::oracle(*host),
        ),
{
    let v = chars_of(to_text(&argument(args, 0), host).as_str());
    let (start, end) = span_bounds(args, v.len(), host);
    if end <= start {
        String::new()
    } else {
        text_of(&v, start, end)
    }
}

/// A text with its first character in upper case.
pub open spec fn capitalized(s: Seq<char>) -> Seq<char> {
    if s.len() == 0 {
        Seq::empty()
    } else {
        unicode::char_uppercase(s[0]) + s.skip(1)
    }
}

fn capitalize(s: &str) -> (r: String)
    ensures
        r@ == capitalized(s@),
{
    let v = chars_of(s);
    if v.len() == 0 {
        return String::new();
    }
    let mut out = uppercase_char(v[0]);
    let rest = text_of(&v, 1, v.len());
    proof {
        assert(rest@ =~= s@.skip(1));
    }
    out.append(rest.as_str());
    out
}

/// A text filled up at its start to `target` characters, with `pad` over and
/// over.
pub open spec fn padded(s: Seq<char>, target: nat, pad: Seq<char>) -> Seq<char> {
    if s.len() >= target {
        s
    } else {
        Seq::new((target - s.len()) as nat, |i: int| pad[i % pad.len() as int]) + s
    }
}

fn pad_start(s: &str, target: u64, pad: &str) -> (r: String)
    requires
        pad@.len() > 0,
    ensures
        r@ == padded(s@, target as nat, pad@),
{
    let len: u64 = chars_of(s).len() as u64;
    let fill = chars_of(pad);
    let mut out = String::new();
    let mut i: u64 = 0;
    let mut k: usize = 0;
    if len < target {
        while i < target - len
            invariant
                len < target,
                i <= target - len,
                fill.len() > 0,
                fill@ == pad@,
                k == i as int % pad@.len() as int,
                out@ =~= Seq::new(i as nat, |j: int| pad@[j % pad@.len() as int]),
            decreases target - len - i,
        {
            out.push(fill[k]);
            proof {
                let n = pad@.len() as int;
                assert((i + 1) as int % n == if k + 1 == n { 0 } else { k + 1 }) by (nonlinear_arith)
                    requires
                        k == i as int % n,
                        n > 0,
                        k < n,
                ;
            }
            i = i + 1;
            k = if k + 1 == fill.len() { 0 } else { k + 1 };
        }
    }
    proof {
        if len >= target {
            assert(out@ + s@ =~= s@);
        }
    }
    out.append(s);
    out
}

/// The text to fill up with: the third argument, or a space where it is empty.
pub open spec fn pad_text(args: Seq<ValueModel>, o: Oracle) -> Seq<char> {
    let given = coerce::text_for(arg(args, 2), o);
    if args.len() >= 3 && given.len() > 0 {
        given
    } else {
        " "@
    }
}

fn padding<H: Fn(Ask) -> Answer>(args: &Vec<Value>, host: &H) -> (r: String)
    requires
        host::faithful(*host),
    ensures
        r@ == pad_text(args.deep_view(), host::oracle(*host)),
        r@.len() > 0,
{
    proof {
        reveal_strlit(" ");
    }
    let given = to_text(&argument(args, 2), host);
    if args.len() >= 3 && !given.as_str().is_empty() {
        given
    } else {
        " ".to_owned()
    }
}

/// The place of a text in another as a value; minus one where it does not
/// occur.
pub open spec fn place_value(hay: Seq<char>, needle: Seq<char>, o: Oracle) -> ValueModel {
    match text::find_from(hay, needle, 0) {
        Some(i) => coerce::value_of_whole(i as nat, o),
        None => coerce::value_of(coerce::or_nan(host::bits_in(o(AskModel::Signed(-1i64 as i64)))), o),
    }
}

fn find_value<H: Fn(Ask) -> Answer>(hay: &str, needle: &str, host: &H) -> (r: Value)
    requires
        host::faithful(*host),
    ensures
        r.deep_view() == place_value(hay@, needle@, host::oracle(*host)),
{
    proof {
        text::find_from_is_first(hay@, needle@, 0);
    }
    match find(hay, needle) {
        Some(i) => num_whole(i, host),
        None => match ask_bits(host, Ask::Signed(-1)) {
            Some(bits) => num(bits, host),
            None => num(value::NOT_A_NUMBER, host),
        },
    }
}

/// What a JSON text decodes to; blank text is an error of its own.
pub open spec fn decoded(s: Seq<char>, o: Oracle) -> Result<ValueModel, Seq<char>> {
    if text::trimmed(s).len() == 0 {
        Err("jsonDecode: input is empty (the upstream block may not have run yet)"@)
    } else {
        match host::value_in(o(AskModel::Decode(s))) {
            Ok(v) => Ok(v),
            Err(e) => Err("jsonDecode: "@ + e),
        }
    }
}

fn decode<H: Fn(Ask) -> Answer>(s: String, host: &H) -> (r: Result<Value, String>)
    requires
        host::faithful(*host),
    ensures
        host::outcome(r) == decoded(s@, host::oracle(*host)),
{
    if trim(s.as_str()).as_str().is_empty() {
        return Err("jsonDecode: input is empty (the upstream block may not have run yet)".to_owned());
    }
    match ask_value(host, Ask::Decode(s)) {
        Ok(v) => Ok(v),
        Err(e) => {
            let mut m = "jsonDecode: ".to_owned();
            m.append(e.as_str());
            Err(m)
        },
    }
}

/// The functions on text; nothing for a name that is none of them.
pub open spec fn text_call(name: Seq<char>, args: Seq<ValueModel>, o: Oracle) -> Option<Result<ValueModel, Seq<char>>> {
    let a = coerce::text_for(arg(args, 0), o);
    let b = coerce::text_for(arg(args, 1), o);
    if name == "jsonEncode"@ {
        Some(Ok(ValueModel::Text(host::text_in(o(AskModel::Encode(arg(args, 0)))))))
    } else if name == "jsonDecode"@ {
        Some(decoded(a, o))
    } else if name == "upper"@ || name == "upperCase"@ {
        Some(Ok(ValueModel::Text(unicode::uppercase(a))))
    } else if name == "lower"@ || name == "lowerCase"@ {
        Some(Ok(ValueModel::Text(unicode::lowercase(a))))
    } else if name == "trim"@ {
        Some(Ok(ValueModel::Text(text::trimmed(a))))
    } else if name == "len"@ {
        Some(Ok(coerce::value_of_whole(length_of(arg(args, 0), o), o)))
    } else if name == "contains"@ {
        Some(Ok(ValueModel::Bool(value_holds(arg(args, 0), arg(args, 1), o))))
    } else if name == "indexOf"@ {
        Some(Ok(place_value(a, b, o)))
    } else if name == "replace"@ || name == "replaceAll"@ {
        Some(Ok(ValueModel::Text(text::replaced(a, b, coerce::text_for(arg(args, 2), o)))))
    } else if name == "split"@ {
        Some(Ok(text_list(cut(a, b))))
    } else if name == "join"@ {
        Some(Ok(ValueModel::Text(joined_value(arg(args, 0), b, o))))
    } else if name == "substr"@ {
        Some(Ok(ValueModel::Text(span(a, args, o))))
    } else if name == "urlEncode"@ {
        Some(Ok(ValueModel::Text(encode::percent_encoded(vstd::utf8::encode_utf8(a)))))
    } else if name == "base64Encode"@ {
        Some(Ok(ValueModel::Text(encode::base64_of(vstd::utf8::encode_utf8(a)))))
    } else if name == "text"@ || name == "string"@ {
        Some(Ok(ValueModel::Text(a)))
    } else if name == "startsWith"@ {
        Some(Ok(ValueModel::Bool(text::begins(a, b))))
    } else if name == "endsWith"@ {
        Some(Ok(ValueModel::Bool(text::finishes(a, b))))
    } else if name == "capitalize"@ {
        Some(Ok(ValueModel::Text(capitalized(a))))
    } else if name == "repeat"@ {
        Some(
            Ok(
                ValueModel::Text(
                    text::repeated(a, host::whole_in(o(AskModel::Whole(coerce::number_of(arg(args, 1), o)))) as nat),
                ),
            ),
        )
    } else if name == "padStart"@ {
        Some(
            Ok(
                ValueModel::Text(
                    padded(
                        a,
                        host::whole_in(o(AskModel::Whole(coerce::number_of(arg(args, 1), o)))) as nat,
                        pad_text(args, o),
                    ),
                ),
            ),
        )
    } else {
        None
    }
}

/// Calls a function on text.
pub fn call_text<H: Fn(Ask) -> Answer>(name: &str, args: &Vec<Value>, host: &H) -> (r: Option<Result<Value, String>>)
    requires
        host::faithful(*host),
    ensures
        match r {
            Some(result) => text_call(name@, args.deep_view(), host::oracle(*host)) == Some(host::outcome(result)),
            None => text_call(name@, args.deep_view(), host::oracle(*host)) is None,
        },
{
    if same(name, "jsonEncode") {
        Some(Ok(Value::Text(ask_text(host, Ask::Encode(argument(args, 0))))))
    } else if same(name, "jsonDecode") {
        Some(decode(to_text(&argument(args, 0), host), host))
    } else if same(name, "upper") || same(name, "upperCase") {
        Some(Ok(Value::Text(to_uppercase(to_text(&argument(args, 0), host).as_str()))))
    } else if same(name, "lower") || same(name, "lowerCase") {
        Some(Ok(Value::Text(to_lowercase(to_text(&argument(args, 0), host).as_str()))))
    } else if same(name, "trim") {
        Some(Ok(Value::Text(trim(to_text(&argument(args, 0), host).as_str()))))
    } else if same(name, "len") {
        Some(Ok(num_whole(value_len(&argument(args, 0), host), host)))
    } else if same(name, "contains") {
        Some(Ok(Value::Bool(value_contains(&argument(args, 0), &argument(args, 1), host))))
    } else if same(name, "indexOf") {
        Some(
            Ok(
                find_value(
                    to_text(&argument(args, 0), host).as_str(),
                    to_text(&argument(args, 1), host).as_str(),
                    host,
                ),
            ),
        )
    } else if same(name, "replace") || same(name, "replaceAll") {
        Some(
            Ok(
                Value::Text(
                    replace(
                        to_text(&argument(args, 0), host).as_str(),
                        to_text(&argument(args, 1), host).as_str(),
                        to_text(&argument(args, 2), host).as_str(),
                    ),
                ),
            ),
        )
    } else if same(name, "split") {
        Some(
            Ok(
                list_of_texts(
                    cut_text(
                        to_text(&argument(args, 0), host).as_str(),
                        to_text(&argument(args, 1), host).as_str(),
                    ),
                ),
            ),
        )
    } else if same(name, "join") {
        Some(
            Ok(
                Value::Text(
                    join_value(&argument(args, 0), to_text(&argument(args, 1), host).as_str(), host),
                ),
            ),
        )
    } else if same(name, "substr") {
        Some(Ok(Value::Text(substring(args, host))))
    } else if same(name, "urlEncode") {
        Some(Ok(Value::Text(url_encode(to_text(&argument(args, 0), host).as_str()))))
    } else if same(name, "base64Encode") {
        Some(Ok(Value::Text(base64_encode(to_text(&argument(args, 0), host).as_str().as_bytes()))))
    } else if same(name, "text") || same(name, "string") {
        Some(Ok(Value::Text(to_text(&argument(args, 0), host))))
    } else if same(name, "startsWith") {
        Some(
            Ok(
                Value::Bool(
                    starts_with(
                        to_text(&argument(args, 0), host).as_str(),
                        to_text(&argument(args, 1), host).as_str(),
                    ),
                ),
            ),
        )
    } else if same(name, "endsWith") {
        Some(
            Ok(
                Value::Bool(
                    ends_with(
                        to_text(&argument(args, 0), host).as_str(),
                        to_text(&argument(args, 1), host).as_str(),
                    ),
                ),
            ),
        )
    } else if same(name, "capitalize") {
        Some(Ok(Value::Text(capitalize(to_text(&argument(args, 0), host).as_str()))))
    } else if same(name, "repeat") {
        let n: u64 = ask_whole(host, Ask::Whole(to_number(&argument(args, 1), host)));
        Some(Ok(Value::Text(repeat(to_text(&argument(args, 0), host).as_str(), n))))
    } else if same(name, "padStart") {
        let target: u64 = ask_whole(host, Ask::Whole(to_number(&argument(args, 1), host)));
        let pad = padding(args, host);
        Some(Ok(Value::Text(pad_start(to_text(&argument(args, 0), host).as_str(), target, pad.as_str()))))
    } else {
        None
    }
}

proof fn names_differ()
    ensures
        "jsonDecode"@ != "jsonEncode"@,
        "upper"@ != "jsonEncode"@ && "upper"@ != "jsonDecode"@,
        "upperCase"@ != "jsonEncode"@ && "upperCase"@ != "jsonDecode"@ && "upperCase"@ != "upper"@,
        "lower"@ != "jsonEncode"@ && "lower"@ != "jsonDecode"@ && "lower"@ != "upper"@ && "lower"@ !=
            "upperCase"@,
        "lowerCase"@ != "jsonEncode"@ && "lowerCase"@ != "jsonDecode"@ && "lowerCase"@ != "upper"@ &&
            "lowerCase"@ != "upperCase"@ && "lowerCase"@ != "lower"@,
        "trim"@ != "jsonEncode"@ && "trim"@ != "jsonDecode"@ && "trim"@ != "upper"@ && "trim"@ != "upperCase"@
            && "trim"@ != "lower"@ && "trim"@ != "lowerCase"@,
        "len"@ != "jsonEncode"@ && "len"@ != "jsonDecode"@ && "len"@ != "upper"@ && "len"@ != "upperCase"@ &&
            "len"@ != "lower"@ && "len"@ != "lowerCase"@ && "len"@ != "trim"@,
        "contains"@ != "jsonEncode"@ && "contains"@ != "jsonDecode"@ && "contains"@ != "upper"@ && "contains"@
            != "upperCase"@ && "contains"@ != "lower"@ && "contains"@ != "lowerCase"@ && "contains"@ != "trim"@
            && "contains"@ != "len"@,
        "indexOf"@ != "jsonEncode"@ && "indexOf"@ != "jsonDecode"@ && "indexOf"@ != "upper"@ && "indexOf"@ !=
            "upperCase"@ && "indexOf"@ != "lower"@ && "indexOf"@ != "lowerCase"@ && "indexOf"@ != "trim"@ &&
            "indexOf"@ != "len"@ && "indexOf"@ != "contains"@,
        "replace"@ != "jsonEncode"@ && "replace"@ != "jsonDecode"@ && "replace"@ != "upper"@ && "replace"@ !=
            "upperCase"@ && "replace"@ != "lower"@ && "replace"@ != "lowerCase"@ && "replace"@ != "trim"@ &&
            "replace"@ != "len"@ && "replace"@ != "contains"@ && "replace"@ != "indexOf"@,
        "replaceAll"@ != "jsonEncode"@ && "replaceAll"@ != "jsonDecode"@ && "replaceAll"@ != "upper"@ &&
            "replaceAll"@ != "upperCase"@ && "replaceAll"@ != "lower"@ && "replaceAll"@ != "lowerCase"@ &&
            "replaceAll"@ != "trim"@ && "replaceAll"@ != "len"@ && "replaceAll"@ != "contains"@ && "replaceAll"@
            != "indexOf"@ && "replaceAll"@ != "replace"@,
        "split"@ != "jsonEncode"@ && "split"@ != "jsonDecode"@ && "split"@ != "upper"@ && "split"@ !=
            "upperCase"@ && "split"@ != "lower"@ && "split"@ != "lowerCase"@ && "split"@ != "trim"@ && "split"@
            != "len"@ && "split"@ != "contains"@ && "split"@ != "indexOf"@ && "split"@ != "replace"@ && "split"@
            != "replaceAll"@,
        "join"@ != "jsonEncode"@ && "join"@ != "jsonDecode"@ && "join"@ != "upper"@ && "join"@ != "upperCase"@
            && "join"@ != "lower"@ && "join"@ != "lowerCase"@ && "join"@ != "trim"@ && "join"@ != "len"@ &&
            "join"@ != "contains"@ && "join"@ != "indexOf"@ && "join"@ != "replace"@ && "join"@ != "replaceAll"@
            && "join"@ != "split"@,
        "substr"@ != "jsonEncode"@ && "substr"@ != "jsonDecode"@ && "substr"@ != "upper"@ && "substr"@ !=
            "upperCase"@ && "substr"@ != "lower"@ && "substr"@ != "lowerCase"@ && "substr"@ != "trim"@ &&
            "substr"@ != "len"@ && "substr"@ != "contains"@ && "substr"@ != "indexOf"@ && "substr"@ !=
            "replace"@ && "substr"@ != "replaceAll"@ && "substr"@ != "split"@ && "substr"@ != "join"@,
        "urlEncode"@ != "jsonEncode"@ && "urlEncode"@ != "jsonDecode"@ && "urlEncode"@ != "upper"@ &&
            "urlEncode"@ != "upperCase"@ && "urlEncode"@ != "lower"@ && "urlEncode"@ != "lowerCase"@ &&
            "urlEncode"@ != "trim"@ && "urlEncode"@ != "len"@ && "urlEncode"@ != "contains"@ && "urlEncode"@ !=
            "indexOf"@ && "urlEncode"@ != "replace"@ && "urlEncode"@ != "replaceAll"@ && "urlEncode"@ !=
            "split"@ && "urlEncode"@ != "join"@ && "urlEncode"@ != "substr"@,
        "base64Encode"@ != "jsonEncode"@ && "base64Encode"@ != "jsonDecode"@ && "base64Encode"@ != "upper"@ &&
            "base64Encode"@ != "upperCase"@ && "base64Encode"@ != "lower"@ && "base64Encode"@ != "lowerCase"@ &&
            "base64Encode"@ != "trim"@ && "base64Encode"@ != "len"@ && "base64Encode"@ != "contains"@ &&
            "base64Encode"@ != "indexOf"@ && "base64Encode"@ != "replace"@ && "base64Encode"@ != "replaceAll"@
            && "base64Encode"@ != "split"@ && "base64Encode"@ != "join"@ && "base64Encode"@ != "substr"@ &&
            "base64Encode"@ != "urlEncode"@,
        "text"@ != "jsonEncode"@ && "text"@ != "jsonDecode"@ && "text"@ != "upper"@ && "text"@ != "upperCase"@
            && "text"@ != "lower"@ && "text"@ != "lowerCase"@ && "text"@ != "trim"@ && "text"@ != "len"@ &&
            "text"@ != "contains"@ && "text"@ != "indexOf"@ && "text"@ != "replace"@ && "text"@ != "replaceAll"@
            && "text"@ != "split"@ && "text"@ != "join"@ && "text"@ != "substr"@ && "text"@ != "urlEncode"@ &&
            "text"@ != "base64Encode"@,
        "string"@ != "jsonEncode"@ && "string"@ != "jsonDecode"@ && "string"@ != "upper"@ && "string"@ !=
            "upperCase"@ && "string"@ != "lower"@ && "string"@ != "lowerCase"@ && "string"@ != "trim"@ &&
            "string"@ != "len"@ && "string"@ != "contains"@ && "string"@ != "indexOf"@ && "string"@ !=
            "replace"@ && "string"@ != "replaceAll"@ && "string"@ != "split"@ && "string"@ != "join"@ &&
            "string"@ != "substr"@ && "string"@ != "urlEncode"@ && "string"@ != "base64Encode"@ && "string"@ !=
            "text"@,
        "startsWith"@ != "jsonEncode"@ && "startsWith"@ != "jsonDecode"@ && "startsWith"@ != "upper"@ &&
            "startsWith"@ != "upperCase"@ && "startsWith"@ != "lower"@ && "startsWith"@ != "lowerCase"@ &&
            "startsWith"@ != "trim"@ && "startsWith"@ != "len"@ && "startsWith"@ != "contains"@ && "startsWith"@
            != "indexOf"@ && "startsWith"@ != "replace"@ && "startsWith"@ != "replaceAll"@ && "startsWith"@ !=
            "split"@ && "startsWith"@ != "join"@ && "startsWith"@ != "substr"@ && "startsWith"@ != "urlEncode"@
            && "startsWith"@ != "base64Encode"@ && "startsWith"@ != "text"@ && "startsWith"@ != "string"@,
        "endsWith"@ != "jsonEncode"@ && "endsWith"@ != "jsonDecode"@ && "endsWith"@ != "upper"@ && "endsWith"@
            != "upperCase"@ && "endsWith"@ != "lower"@ && "endsWith"@ != "lowerCase"@ && "endsWith"@ != "trim"@
            && "endsWith"@ != "len"@ && "endsWith"@ != "contains"@ && "endsWith"@ != "indexOf"@ && "endsWith"@
            != "replace"@ && "endsWith"@ != "replaceAll"@ && "endsWith"@ != "split"@ && "endsWith"@ != "join"@
            && "endsWith"@ != "substr"@ && "endsWith"@ != "urlEncode"@ && "endsWith"@ != "base64Encode"@ &&
            "endsWith"@ != "text"@ && "endsWith"@ != "string"@ && "endsWith"@ != "startsWith"@,
        "capitalize"@ != "jsonEncode"@ && "capitalize"@ != "jsonDecode"@ && "capitalize"@ != "upper"@ &&
            "capitalize"@ != "upperCase"@ && "capitalize"@ != "lower"@ && "capitalize"@ != "lowerCase"@ &&
            "capitalize"@ != "trim"@ && "capitalize"@ != "len"@ && "capitalize"@ != "contains"@ && "capitalize"@
            != "indexOf"@ && "capitalize"@ != "replace"@ && "capitalize"@ != "replaceAll"@ && "capitalize"@ !=
            "split"@ && "capitalize"@ != "join"@ && "capitalize"@ != "substr"@ && "capitalize"@ != "urlEncode"@
            && "capitalize"@ != "base64Encode"@ && "capitalize"@ != "text"@ && "capitalize"@ != "string"@ &&
            "capitalize"@ != "startsWith"@ && "capitalize"@ != "endsWith"@,
        "repeat"@ != "jsonEncode"@ && "repeat"@ != "jsonDecode"@ && "repeat"@ != "upper"@ && "repeat"@ !=
            "upperCase"@ && "repeat"@ != "lower"@ && "repeat"@ != "lowerCase"@ && "repeat"@ != "trim"@ &&
            "repeat"@ != "len"@ && "repeat"@ != "contains"@ && "repeat"@ != "indexOf"@ && "repeat"@ !=
            "replace"@ && "repeat"@ != "replaceAll"@ && "repeat"@ != "split"@ && "repeat"@ != "join"@ &&
            "repeat"@ != "substr"@ && "repeat"@ != "urlEncode"@ && "repeat"@ != "base64Encode"@ && "repeat"@ !=
            "text"@ && "repeat"@ != "string"@ && "repeat"@ != "startsWith"@ && "repeat"@ != "endsWith"@ &&
            "repeat"@ != "capitalize"@,
        "padStart"@ != "jsonEncode"@ && "padStart"@ != "jsonDecode"@ && "padStart"@ != "upper"@ && "padStart"@
            != "upperCase"@ && "padStart"@ != "lower"@ && "padStart"@ != "lowerCase"@ && "padStart"@ != "trim"@
            && "padStart"@ != "len"@ && "padStart"@ != "contains"@ && "padStart"@ != "indexOf"@ && "padStart"@
            != "replace"@ && "padStart"@ != "replaceAll"@ && "padStart"@ != "split"@ && "padStart"@ != "join"@
            && "padStart"@ != "substr"@ && "padStart"@ != "urlEncode"@ && "padStart"@ != "base64Encode"@ &&
            "padStart"@ != "text"@ && "padStart"@ != "string"@ && "padStart"@ != "startsWith"@ && "padStart"@ !=
            "endsWith"@ && "padStart"@ != "capitalize"@ && "padStart"@ != "repeat"@,
{
    reveal_strlit("jsonEncode");
    reveal_strlit("jsonDecode");
    reveal_strlit("upper");
    reveal_strlit("upperCase");
    reveal_strlit("lower");
    reveal_strlit("lowerCase");
    reveal_strlit("trim");
    reveal_strlit("len");
    reveal_strlit("contains");
    reveal_strlit("indexOf");
    reveal_strlit("replace");
    reveal_strlit("replaceAll");
    reveal_strlit("split");
    reveal_strlit("join");
    reveal_strlit("substr");
    reveal_strlit("urlEncode");
    reveal_strlit("base64Encode");
    reveal_strlit("text");
    reveal_strlit("string");
    reveal_strlit("startsWith");
    reveal_strlit("endsWith");
    reveal_strlit("capitalize");
    reveal_strlit("repeat");
    reveal_strlit("padStart");
    assert("jsonEncode"@.len() == 10 && "jsonEncode"@[0] == 'j' && "jsonEncode"@[1] == 's' && "jsonEncode"@[4] == 'E');
    assert("jsonDecode"@.len() == 10 && "jsonDecode"@[0] == 'j' && "jsonDecode"@[1] == 's' && "jsonDecode"@[4] == 'D');
    assert("upper"@.len() == 5 && "upper"@[0] == 'u' && "upper"@[1] == 'p' && "upper"@[4] == 'r');
    assert("upperCase"@.len() == 9 && "upperCase"@[0] == 'u' && "upperCase"@[1] == 'p' && "upperCase"@[4] == 'r');
    assert("lower"@.len() == 5 && "lower"@[0] == 'l' && "lower"@[1] == 'o' && "lower"@[4] == 'r');
    assert("lowerCase"@.len() == 9 && "lowerCase"@[0] == 'l' && "lowerCase"@[1] == 'o' && "lowerCase"@[4] == 'r');
    assert("trim"@.len() == 4 && "trim"@[0] == 't' && "trim"@[1] == 'r');
    assert("len"@.len() == 3 && "len"@[0] == 'l' && "len"@[1] == 'e');
    assert("contains"@.len() == 8 && "contains"@[0] == 'c' && "contains"@[1] == 'o' && "contains"@[4] == 'a');
    assert("indexOf"@.len() == 7 && "indexOf"@[0] == 'i' && "indexOf"@[1] == 'n' && "indexOf"@[4] == 'x');
    assert("replace"@.len() == 7 && "replace"@[0] == 'r' && "replace"@[1] == 'e' && "replace"@[4] == 'a');
    assert("replaceAll"@.len() == 10 && "replaceAll"@[0] == 'r' && "replaceAll"@[1] == 'e' && "replaceAll"@[4] == 'a');
    assert("split"@.len() == 5 && "split"@[0] == 's' && "split"@[1] == 'p' && "split"@[4] == 't');
    assert("join"@.len() == 4 && "join"@[0] == 'j' && "join"@[1] == 'o');
    assert("substr"@.len() == 6 && "substr"@[0] == 's' && "substr"@[1] == 'u' && "substr"@[4] == 't');
    assert("urlEncode"@.len() == 9 && "urlEncode"@[0] == 'u' && "urlEncode"@[1] == 'r' && "urlEncode"@[4] == 'n');
    assert("base64Encode"@.len() == 12 && "base64Encode"@[0] == 'b' && "base64Encode"@[1] == 'a' && "base64Encode"@[4] == '6');
    assert("text"@.len() == 4 && "text"@[0] == 't' && "text"@[1] == 'e');
    assert("string"@.len() == 6 && "string"@[0] == 's' && "string"@[1] == 't' && "string"@[4] == 'n');
    assert("startsWith"@.len() == 10 && "startsWith"@[0] == 's' && "startsWith"@[1] == 't' && "startsWith"@[4] == 't');
    assert("endsWith"@.len() == 8 && "endsWith"@[0] == 'e' && "endsWith"@[1] == 'n' && "endsWith"@[4] == 'W');
    assert("capitalize"@.len() == 10 && "capitalize"@[0] == 'c' && "capitalize"@[1] == 'a' && "capitalize"@[4] == 't');
    assert("repeat"@.len() == 6 && "repeat"@[0] == 'r' && "repeat"@[1] == 'e' && "repeat"@[4] == 'a');
    assert("padStart"@.len() == 8 && "padStart"@[0] == 'p' && "padStart"@[1] == 'a' && "padStart"@[4] == 't');
}

/// Of plain letters `upper` makes capitals and `lower` small ones, leaving all
/// other characters and the number of them; `capitalize` does so to the first
/// alone. Each goes by either of its names.
pub proof fn letters_change_case(a: Seq<char>, o: Oracle, i: int)
    requires
        0 <= i < a.len(),
        forall|k: int| 0 <= k < a.len() ==> (#[trigger] a[k] as int) < 128,
    ensures
        text_call("upper"@, seq![ValueModel::Text(a)], o) matches Some(Ok(ValueModel::Text(r))) && r.len() == a.len()
            && r[i] as int == (if 'a' as int <= a[i] as int <= 'z' as int {
            a[i] as int - 32
        } else {
            a[i] as int
        }),
        text_call("lower"@, seq![ValueModel::Text(a)], o) matches Some(Ok(ValueModel::Text(r))) && r.len() == a.len()
            && r[i] as int == (if 'A' as int <= a[i] as int <= 'Z' as int {
            a[i] as int + 32
        } else {
            a[i] as int
        }),
        text_call("capitalize"@, seq![ValueModel::Text(a)], o) matches Some(Ok(ValueModel::Text(r))) && r.len()
            == a.len() && r[i] as int == (if i == 0 && 'a' as int <= a[i] as int <= 'z' as int {
            a[i] as int - 32
        } else {
            a[i] as int
        }),
        text_call("upperCase"@, seq![ValueModel::Text(a)], o) == text_call("upper"@, seq![ValueModel::Text(a)], o),
        text_call("lowerCase"@, seq![ValueModel::Text(a)], o) == text_call("lower"@, seq![ValueModel::Text(a)], o),
{
    names_differ();
    assert(unicode::all_ascii(a));
}

/// `text` and `string` give a text back as it is and `trim` without the space
/// round it; `len` counts its characters, and the items of a list or a
/// dictionary.
pub proof fn texts_are_read_plainly(
    a: Seq<char>,
    items: Seq<ValueModel>,
    entries: Seq<(Seq<char>, ValueModel)>,
    o: Oracle,
    bits: u64,
    n: Number,
)
    requires
        a.len() == items.len() == entries.len() <= u128::MAX,
        o(AskModel::Unsigned(a.len() as u128)) == AnswerModel::Bits(Some(bits)),
        o(AskModel::Number(bits)) == AnswerModel::Number(Some(n)),
    ensures
        text_call("text"@, seq![ValueModel::Text(a)], o) == Some(Ok::<ValueModel, Seq<char>>(ValueModel::Text(a))),
        text_call("string"@, seq![ValueModel::Text(a)], o) == Some(Ok::<ValueModel, Seq<char>>(ValueModel::Text(a))),
        text_call("trim"@, seq![ValueModel::Text(a)], o) == Some(
            Ok::<ValueModel, Seq<char>>(ValueModel::Text(text::trimmed(a))),
        ),
        text_call("len"@, seq![ValueModel::Text(a)], o) == Some(Ok::<ValueModel, Seq<char>>(ValueModel::Number(n))),
        text_call("len"@, seq![ValueModel::List(items)], o) == Some(Ok::<ValueModel, Seq<char>>(ValueModel::Number(n))),
        text_call("len"@, seq![ValueModel::Dict(entries)], o) == Some(
            Ok::<ValueModel, Seq<char>>(ValueModel::Number(n)),
        ),
{
    names_differ();
}

/// A text made of three contains the second, starts with the first and ends
/// with the third. What a text contains stands somewhere in it, what it starts
/// with at its start and what it ends with at its end. A list contains what
/// equals one of its items, a dictionary the names of its entries.
pub proof fn searches_find_what_is_there(
    a: Seq<char>,
    b: Seq<char>,
    c: Seq<char>,
    s: Seq<char>,
    items: Seq<ValueModel>,
    entries: Seq<(Seq<char>, ValueModel)>,
    v: ValueModel,
    o: Oracle,
)
    ensures
        text_call("contains"@, seq![ValueModel::Text(a + b + c), ValueModel::Text(b)], o) == Some(
            Ok::<ValueModel, Seq<char>>(ValueModel::Bool(true)),
        ),
        text_call("startsWith"@, seq![ValueModel::Text(a + b), ValueModel::Text(a)], o) == Some(
            Ok::<ValueModel, Seq<char>>(ValueModel::Bool(true)),
        ),
        text_call("endsWith"@, seq![ValueModel::Text(a + b), ValueModel::Text(b)], o) == Some(
            Ok::<ValueModel, Seq<char>>(ValueModel::Bool(true)),
        ),
        text_call("contains"@, seq![ValueModel::Text(s), ValueModel::Text(b)], o) == Some(
            Ok::<ValueModel, Seq<char>>(ValueModel::Bool(true)),
        ) ==> exists|i: int| 0 <= i <= s.len() - b.len() && #[trigger] s.subrange(i, i + b.len()) == b,
        text_call("startsWith"@, seq![ValueModel::Text(s), ValueModel::Text(b)], o) == Some(
            Ok::<ValueModel, Seq<char>>(ValueModel::Bool(true)),
        ) ==> s == b + s.skip(b.len() as int),
        text_call("endsWith"@, seq![ValueModel::Text(s), ValueModel::Text(b)], o) == Some(
            Ok::<ValueModel, Seq<char>>(ValueModel::Bool(true)),
        ) ==> s == s.take(s.len() - b.len()) + b,
        text_call("contains"@, seq![ValueModel::List(items), v], o) == Some(
            Ok::<ValueModel, Seq<char>>(
                ValueModel::Bool(
                    exists|i: int| 0 <= i < items.len() && coerce::equal(#[trigger] items[i], v, o),
                ),
            ),
        ),
        text_call("contains"@, seq![ValueModel::Dict(entries), ValueModel::Text(b)], o) == Some(
            Ok::<ValueModel, Seq<char>>(ValueModel::Bool(table::lookup(entries, b) is Some)),
        ),
{
    names_differ();
    text::ends_are_what_stands_there(a, b, c);
    text::ends_are_what_stands_there(b, Seq::empty(), s);
}

/// `indexOf` tells the first place at which the second text stands in the first,
/// and one below zero where it stands nowhere.
pub proof fn places_are_told(s: Seq<char>, b: Seq<char>, i: int, o: Oracle, bits: u64, n: Number)
    requires
        s.len() <= u128::MAX,
        o(AskModel::Number(bits)) == AnswerModel::Number(Some(n)),
    ensures
        text::occurs_at(s, b, i) && (forall|j: int| 0 <= j < i ==> !#[trigger] text::occurs_at(s, b, j)) && o(
            AskModel::Unsigned(i as u128),
        ) == AnswerModel::Bits(Some(bits)) ==> text_call("indexOf"@, seq![ValueModel::Text(s), ValueModel::Text(b)], o)
            == Some(Ok::<ValueModel, Seq<char>>(ValueModel::Number(n))),
        (forall|j: int| !#[trigger] text::occurs_at(s, b, j)) && o(AskModel::Signed(-1i64)) == AnswerModel::Bits(Some(bits))
            ==> text_call("indexOf"@, seq![ValueModel::Text(s), ValueModel::Text(b)], o) == Some(
            Ok::<ValueModel, Seq<char>>(ValueModel::Number(n)),
        ),
{
    names_differ();
    text::find_from_is_first(s, b, 0);
    if let Some(k) = text::find_from(s, b, 0) {
        assert(text::occurs_at(s, b, k));
    }
}

/// `replace`, by either name, puts the third text in place of every occurrence
/// of the second in the first; a text in which the second does not occur stays.
pub proof fn replacements_are_made(s: Seq<char>, b: Seq<char>, by: Seq<char>, o: Oracle)
    ensures
        text_call("replace"@, seq![ValueModel::Text(s), ValueModel::Text(b), ValueModel::Text(by)], o) == Some(
            Ok::<ValueModel, Seq<char>>(ValueModel::Text(text::replaced(s, b, by))),
        ),
        text_call("replaceAll"@, seq![ValueModel::Text(s), ValueModel::Text(b), ValueModel::Text(by)], o) == text_call(
            "replace"@,
            seq![ValueModel::Text(s), ValueModel::Text(b), ValueModel::Text(by)],
            o,
        ),
        b.len() > 0 && !text::holds(s, b) ==> text_call(
            "replace"@,
            seq![ValueModel::Text(s), ValueModel::Text(b), ValueModel::Text(by)],
            o,
        ) == Some(Ok::<ValueModel, Seq<char>>(ValueModel::Text(s))),
{
    names_differ();
    if b.len() > 0 {
        text::replacing_goes_from_the_left(s, b, by);
    }
}

/// A text split at another and joined by it again is the text; split at nothing
/// it falls into its characters.
pub proof fn splitting_is_undone_by_joining(s: Seq<char>, sep: Seq<char>, o: Oracle)
    ensures
        sep.len() > 0 ==> (text_call("split"@, seq![ValueModel::Text(s), ValueModel::Text(sep)], o) matches Some(Ok(parts))
            && text_call("join"@, seq![parts, ValueModel::Text(sep)], o) == Some(
            Ok::<ValueModel, Seq<char>>(ValueModel::Text(s)),
        )),
        text_call("split"@, seq![ValueModel::Text(s), ValueModel::Text(Seq::empty())], o) matches Some(
            Ok(ValueModel::List(parts)),
        ) && parts.len() == s.len() && forall|i: int|
            0 <= i < s.len() ==> #[trigger] parts[i] == ValueModel::Text(seq![s[i]]),
{
    names_differ();
    if sep.len() > 0 {
        text::cutting_is_undone_by_joining(s, sep);
        let parts = text::cut_from(s, sep, 0);
        let items = parts.map_values(|p: Seq<char>| ValueModel::Text(p));
        assert(item_texts(items, o) =~= parts);
    }
}

/// `substr` gives the characters from the first place up to the second, the
/// second left out, or up to the end where it is not given; places beyond the
/// end count as the end, and where the first does not come before the second
/// there is nothing.
pub proof fn spans_run_between_their_places(
    s: Seq<char>,
    o: Oracle,
    x: u64,
    y: u64,
    from: u64,
    to: u64,
)
    requires
        o(AskModel::Whole(x)) == AnswerModel::Whole(from),
        o(AskModel::Whole(y)) == AnswerModel::Whole(to),
    ensures
        from <= to <= s.len() ==> text_call(
            "substr"@,
            seq![
                ValueModel::Text(s),
                ValueModel::Number(Number::Float(x)),
                ValueModel::Number(Number::Float(y)),
            ],
            o,
        ) == Some(Ok::<ValueModel, Seq<char>>(ValueModel::Text(s.subrange(from as int, to as int)))),
        from <= s.len() ==> text_call(
            "substr"@,
            seq![ValueModel::Text(s), ValueModel::Number(Number::Float(x))],
            o,
        ) == Some(Ok::<ValueModel, Seq<char>>(ValueModel::Text(s.skip(from as int)))),
        from >= to || from >= s.len() ==> text_call(
            "substr"@,
            seq![
                ValueModel::Text(s),
                ValueModel::Number(Number::Float(x)),
                ValueModel::Number(Number::Float(y)),
            ],
            o,
        ) == Some(Ok::<ValueModel, Seq<char>>(ValueModel::Text(Seq::empty()))),
{
    names_differ();
    if from <= s.len() {
        assert(s.subrange(from as int, s.len() as int) =~= s.skip(from as int));
        assert(s.skip(s.len() as int) =~= Seq::<char>::empty());
    }
    if from == to && from <= s.len() {
        assert(s.subrange(from as int, to as int) =~= Seq::<char>::empty());
    }
}

/// `repeat` makes a text that is so many times as long and goes round the
/// characters of the text; `padStart` fills a text up in front to the length
/// asked for, going round the characters of the filling, or with spaces where
/// none is given, and leaves a longer one as it is.
pub proof fn fillings_go_round(s: Seq<char>, fill: Seq<char>, o: Oracle, x: u64, n: u64, i: int)
    requires
        o(AskModel::Whole(x)) == AnswerModel::Whole(n),
        fill.len() > 0,
    ensures
        text_call("repeat"@, seq![ValueModel::Text(s), ValueModel::Number(Number::Float(x))], o) matches Some(
            Ok(ValueModel::Text(r)),
        ) && r.len() == n * s.len() && (0 <= i < r.len() ==> r[i] == s[i % s.len() as int]),
        n > s.len() ==> (text_call(
            "padStart"@,
            seq![ValueModel::Text(s), ValueModel::Number(Number::Float(x)), ValueModel::Text(fill)],
            o,
        ) matches Some(Ok(ValueModel::Text(r))) && r.len() == n && r.skip(n - s.len()) == s && (0 <= i < n - s.len()
            ==> r[i] == fill[i % fill.len() as int])),
        n > s.len() ==> (text_call("padStart"@, seq![ValueModel::Text(s), ValueModel::Number(Number::Float(x))], o)
            matches Some(Ok(ValueModel::Text(r))) && r.len() == n && r.skip(n - s.len()) == s && (0 <= i < n - s.len()
            ==> r[i] == ' ')),
        n <= s.len() ==> text_call(
            "padStart"@,
            seq![ValueModel::Text(s), ValueModel::Number(Number::Float(x)), ValueModel::Text(fill)],
            o,
        ) == Some(Ok::<ValueModel, Seq<char>>(ValueModel::Text(s))),
{
    names_differ();
    text::repeating_goes_round(s, n as nat);
    reveal_strlit(" ");
    if n > s.len() {
        assert(padded(s, n as nat, fill).skip(n - s.len()) =~= s);
        assert(padded(s, n as nat, " "@).skip(n - s.len()) =~= s);
        assert(i % 1 == 0);
    }
}

/// Encoding and decoding hand over what they are given: `jsonEncode` a value,
/// whose text it gives, `jsonDecode` a text, whose value it gives, or why there
/// is none; of a text without content there is none.
pub proof fn json_is_handed_over(
    v: ValueModel,
    s: Seq<char>,
    written: Seq<char>,
    read: ValueModel,
    fault: Seq<char>,
    o: Oracle,
)
    ensures
        o(AskModel::Encode(v)) == AnswerModel::Text(written) ==> text_call("jsonEncode"@, seq![v], o) == Some(
            Ok::<ValueModel, Seq<char>>(ValueModel::Text(written)),
        ),
        text::trimmed(s).len() > 0 && o(AskModel::Decode(s)) == AnswerModel::Value(Ok(read)) ==> text_call(
            "jsonDecode"@,
            seq![ValueModel::Text(s)],
            o,
        ) == Some(Ok::<ValueModel, Seq<char>>(read)),
        text::trimmed(s).len() > 0 && o(AskModel::Decode(s)) == AnswerModel::Value(Err(fault)) ==> (text_call(
            "jsonDecode"@,
            seq![ValueModel::Text(s)],
            o,
        ) matches Some(Err(m)) && text::finishes(m, fault)),
        text::trimmed(s).len() == 0 ==> (text_call("jsonDecode"@, seq![ValueModel::Text(s)], o) matches Some(r) && r is Err),
{
    names_differ();
    text::ends_are_what_stands_there("jsonDecode: "@, fault, fault);
}

/// `urlEncode` and `base64Encode` write the bytes of a text as they are called.
pub proof fn bytes_are_written(s: Seq<char>, o: Oracle)
    ensures
        text_call("urlEncode"@, seq![ValueModel::Text(s)], o) == Some(
            Ok::<ValueModel, Seq<char>>(ValueModel::Text(encode::percent_encoded(vstd::utf8::encode_utf8(s)))),
        ),
        text_call("base64Encode"@, seq![ValueModel::Text(s)], o) == Some(
            Ok::<ValueModel, Seq<char>>(ValueModel::Text(encode::base64_of(vstd::utf8::encode_utf8(s)))),
        ),
{
    names_differ();
}

} // verus!
