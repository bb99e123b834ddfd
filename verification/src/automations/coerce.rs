//! How expressions read one kind of value as another.

use vstd::prelude::*;
use vstd::string::*;

use crate::automations::host;
use crate::automations::host::{
    ask_bits, ask_number, ask_standing, ask_text, ask_whole, Answer, AnswerModel, Ask, AskModel, Oracle, Standing,
};
use crate::dup::Dup;
use crate::table;
use crate::text;
use crate::text::{chars_of, precedes, same, text_of, trim};
use crate::value;
use crate::value::{bits_are_nan, bits_are_negative, Number, Value, ValueModel, NOT_A_NUMBER, ONE};

verus! {

/// The double in an answer, or not-a-number.
pub open spec fn or_nan(b: Option<u64>) -> u64 {
    match b {
        Some(bits) => bits,
        None => NOT_A_NUMBER,
    }
}

/// The double nearest to a JSON number.
pub open spec fn double_of(n: Number, o: Oracle) -> u64 {
    match n {
        Number::PosInt(u) => or_nan(host::bits_in(o(AskModel::Unsigned(u as u128)))),
        Number::NegInt(i) => or_nan(host::bits_in(o(AskModel::Signed(i)))),
        Number::Float(bits) => bits,
    }
}

/// A value read as a double: null is zero, true is one, text is what it writes.
pub open spec fn number_of(v: ValueModel, o: Oracle) -> u64 {
    match v {
        ValueModel::Null => 0,
        ValueModel::Bool(b) => if b { ONE } else { 0 },
        ValueModel::Number(n) => double_of(n, o),
        ValueModel::Text(s) => or_nan(host::bits_in(o(AskModel::Parse(text::trimmed(s))))),
        _ => NOT_A_NUMBER,
    }
}

/// A truth value as text.
pub open spec fn bool_text(b: bool) -> Seq<char> {
    if b {
        "true"@
    } else {
        "false"@
    }
}

/// A value as text concatenation writes it: text as it is, null as nothing,
/// lists and dictionaries as compact JSON.
pub open spec fn text_for(v: ValueModel, o: Oracle) -> Seq<char> {
    match v {
        ValueModel::Null => Seq::empty(),
        ValueModel::Bool(b) => bool_text(b),
        ValueModel::Number(n) => host::text_in(o(AskModel::Show(double_of(n, o)))),
        ValueModel::Text(s) => s,
        _ => host::text_in(o(AskModel::Encode(v))),
    }
}

/// The value for a double: a JSON number, or null where JSON has none.
pub open spec fn value_of(bits: u64, o: Oracle) -> ValueModel {
    match host::number_in(o(AskModel::Number(bits))) {
        Some(n) => ValueModel::Number(n),
        None => ValueModel::Null,
    }
}

/// The value for a whole number.
pub open spec fn value_of_whole(n: nat, o: Oracle) -> ValueModel {
    value_of(or_nan(host::bits_in(o(AskModel::Unsigned(n as u128)))), o)
}

/// How the double `a` stands to the double `b`.
pub open spec fn standing(a: u64, b: u64, o: Oracle) -> Option<Standing> {
    host::standing_in(o(AskModel::Compare(a, b)))
}

/// Two numbers are the same: whole numbers by value, doubles as doubles, and a
/// whole number is no double.
pub open spec fn same_number(a: Number, b: Number, o: Oracle) -> bool {
    match (a, b) {
        (Number::Float(x), Number::Float(y)) => standing(x, y, o) == Some(Standing::Equal),
        _ => a == b,
    }
}

/// Two values are the same.
pub open spec fn identical(a: ValueModel, b: ValueModel, o: Oracle) -> bool
    decreases a,
{
    match (a, b) {
        (ValueModel::Null, ValueModel::Null) => true,
        (ValueModel::Bool(x), ValueModel::Bool(y)) => x == y,
        (ValueModel::Number(x), ValueModel::Number(y)) => same_number(x, y, o),
        (ValueModel::Text(x), ValueModel::Text(y)) => x == y,
        (ValueModel::List(x), ValueModel::List(y)) => x.len() == y.len() && forall|i: int|
            0 <= i < x.len() ==> identical(#[trigger] x[i], y[i], o),
        (ValueModel::Dict(x), ValueModel::Dict(y)) => x.len() == y.len() && forall|i: int|
            0 <= i < x.len() ==> (#[trigger] x[i]).0 == y[i].0 && identical(x[i].1, y[i].1, o),
        _ => false,
    }
}

/// The double that a number, or a text that writes one, stands for.
pub open spec fn numeric(v: ValueModel, o: Oracle) -> Option<u64> {
    match v {
        ValueModel::Number(n) => Some(double_of(n, o)),
        ValueModel::Text(s) => if text::trimmed(s).len() == 0 {
            None
        } else {
            host::bits_in(o(AskModel::Parse(text::trimmed(s))))
        },
        _ => None,
    }
}

/// Two values are equal: the same, or the same number however written.
pub open spec fn equal(a: ValueModel, b: ValueModel, o: Oracle) -> bool {
    ||| identical(a, b, o)
    ||| match (numeric(a, o), numeric(b, o)) {
        (Some(x), Some(y)) => standing(x, y, o) == Some(Standing::Equal),
        _ => false,
    }
}

/// How two texts stand to each other.
pub open spec fn text_standing(a: Seq<char>, b: Seq<char>) -> Standing {
    if text::before(a, b) {
        Standing::Less
    } else if a == b {
        Standing::Equal
    } else {
        Standing::Greater
    }
}

/// How two values stand to each other: two texts by their order, all else as
/// numbers.
pub open spec fn value_standing(a: ValueModel, b: ValueModel, o: Oracle) -> Option<Standing> {
    match (a, b) {
        (ValueModel::Text(x), ValueModel::Text(y)) => Some(text_standing(x, y)),
        _ => standing(number_of(a, o), number_of(b, o), o),
    }
}

/// The place that an index names; none for one below zero or no number.
pub open spec fn place_of(idx: ValueModel, o: Oracle) -> Option<u64> {
    let i = number_of(idx, o);
    if value::is_nan(i) || value::is_negative(i) {
        None
    } else {
        Some(host::whole_in(o(AskModel::Whole(i))))
    }
}

/// The part of `base` that `idx` names; null where there is none.
pub open spec fn part(base: ValueModel, idx: ValueModel, o: Oracle) -> ValueModel {
    match base {
        ValueModel::Dict(t) => match table::lookup(t, text_for(idx, o)) {
            Some(v) => v,
            None => ValueModel::Null,
        },
        ValueModel::List(s) => match place_of(idx, o) {
            Some(i) => if i < s.len() { s[i as int] } else { ValueModel::Null },
            None => ValueModel::Null,
        },
        ValueModel::Text(s) => match place_of(idx, o) {
            Some(i) => if i < s.len() { ValueModel::Text(seq![s[i as int]]) } else { ValueModel::Null },
            None => ValueModel::Null,
        },
        _ => ValueModel::Null,
    }
}

fn nan_if_none(b: Option<u64>) -> (r: u64)
    ensures
        r == or_nan(b),
{
    match b {
        Some(bits) => bits,
        None => NOT_A_NUMBER,
    }
}

fn double<H: Fn(Ask) -> Answer>(n: Number, host: &H) -> (r: u64)
    requires
        host::faithful(*host),
    ensures
        r == double_of(n, host::oracle(*host)),
{
    match n {
        Number::PosInt(u) => nan_if_none(ask_bits(host, Ask::Unsigned(u as u128))),
        Number::NegInt(i) => nan_if_none(ask_bits(host, Ask::Signed(i))),
        Number::Float(bits) => bits,
    }
}

/// A value read as a double.
pub fn to_number<H: Fn(Ask) -> Answer>(v: &Value, host: &H) -> (r: u64)
    requires
        host::faithful(*host),
    ensures
        r == number_of(v.deep_view(), host::oracle(*host)),
{
    match v {
        Value::Null => 0,
        Value::Bool(b) => if *b { ONE } else { 0 },
        Value::Number(n) => double(*n, host),
        Value::Text(s) => nan_if_none(ask_bits(host, Ask::Parse(trim(s.as_str())))),
        _ => NOT_A_NUMBER,
    }
}

/// A truth value as text.
pub fn show_bool(b: bool) -> (r: String)
    ensures
        r@ == bool_text(b),
{
    if b {
        "true".to_owned()
    } else {
        "false".to_owned()
    }
}

/// A value as text concatenation writes it.
pub fn to_text<H: Fn(Ask) -> Answer>(v: &Value, host: &H) -> (r: String)
    requires
        host::faithful(*host),
    ensures
        r@ == text_for(v.deep_view(), host::oracle(*host)),
{
    match v {
        Value::Null => String::new(),
        Value::Bool(b) => show_bool(*b),
        Value::Number(n) => ask_text(host, Ask::Show(double(*n, host))),
        Value::Text(s) => s.clone(),
        _ => ask_text(host, Ask::Encode(v.dup())),
    }
}

/// The value for a double.
pub fn num<H: Fn(Ask) -> Answer>(bits: u64, host: &H) -> (r: Value)
    requires
        host::faithful(*host),
    ensures
        r.deep_view() == value_of(bits, host::oracle(*host)),
{
    match ask_number(host, Ask::Number(bits)) {
        Some(n) => Value::Number(n),
        None => Value::Null,
    }
}

/// The value for a whole number.
pub fn num_whole<H: Fn(Ask) -> Answer>(n: usize, host: &H) -> (r: Value)
    requires
        host::faithful(*host),
    ensures
        r.deep_view() == value_of_whole(n as nat, host::oracle(*host)),
{
    num(nan_if_none(ask_bits(host, Ask::Unsigned(n as u128))), host)
}

fn numbers_same<H: Fn(Ask) -> Answer>(a: Number, b: Number, host: &H) -> (r: bool)
    requires
        host::faithful(*host),
    ensures
        r == same_number(a, b, host::oracle(*host)),
{
    match (a, b) {
        (Number::Float(x), Number::Float(y)) => match ask_standing(host, Ask::Compare(x, y)) {
            Some(Standing::Equal) => true,
            _ => false,
        },
        _ => a == b,
    }
}

/// Whether two values are the same.
pub fn values_same<H: Fn(Ask) -> Answer>(a: &Value, b: &Value, host: &H) -> (r: bool)
    requires
        host::faithful(*host),
    ensures
        r == identical(a.deep_view(), b.deep_view(), host::oracle(*host)),
    decreases a,
{
    match (a, b) {
        (Value::Null, Value::Null) => true,
        (Value::Bool(x), Value::Bool(y)) => *x == *y,
        (Value::Number(x), Value::Number(y)) => numbers_same(*x, *y, host),
        (Value::Text(x), Value::Text(y)) => same(x.as_str(), y.as_str()),
        (Value::List(x), Value::List(y)) => {
            proof {
                value::list_model(*x);
                value::list_model(*y);
            }
            if x.len() != y.len() {
                return false;
            }
            let mut i: usize = 0;
            while i < x.len()
                invariant
                    host::faithful(*host),
                    i <= x@.len() == y@.len(),
                    *a == Value::List(*x),
                    forall|j: int|
                        0 <= j < i ==> identical(#[trigger] x.deep_view()[j], y.deep_view()[j], host::oracle(*host)),
                    a.deep_view() == ValueModel::List(x.deep_view()),
                    b.deep_view() == ValueModel::List(y.deep_view()),
                decreases x@.len() - i,
            {
                proof {
                    assert(decreases_to!(*a => a->List_0));
                    assert(decreases_to!(*x => x@));
                    assert(decreases_to!(x@ => x@[i as int]));
                    assert(x.deep_view()[i as int] == x@[i as int].deep_view());
                    assert(y.deep_view()[i as int] == y@[i as int].deep_view());
                }
                if !values_same(&x[i], &y[i], host) {
                    return false;
                }
                i = i + 1;
            }
            true
        },
        (Value::Dict(x), Value::Dict(y)) => {
            proof {
                value::dict_model(*x);
                value::dict_model(*y);
            }
            if x.entries.len() != y.entries.len() {
                return false;
            }
            let mut i: usize = 0;
            while i < x.entries.len()
                invariant
                    host::faithful(*host),
                    i <= x.entries@.len() == y.entries@.len(),
                    *a == Value::Dict(*x),
                    forall|j: int|
                        0 <= j < i ==> (#[trigger] x.deep_view()[j]).0 == y.deep_view()[j].0 && identical(
                            x.deep_view()[j].1,
                            y.deep_view()[j].1,
                            host::oracle(*host),
                        ),
                    a.deep_view() == ValueModel::Dict(x.deep_view()),
                    b.deep_view() == ValueModel::Dict(y.deep_view()),
                decreases x.entries@.len() - i,
            {
                proof {
                    assert(decreases_to!(*a => a->Dict_0));
                    assert(decreases_to!(*x => x.entries));
                    assert(decreases_to!(x.entries => x.entries@));
                    assert(decreases_to!(x.entries@ => x.entries@[i as int]));
                    assert(decreases_to!(x.entries@[i as int] => x.entries@[i as int].1));
                    assert(x.deep_view()[i as int] == x.entries@[i as int].deep_view());
                    assert(y.deep_view()[i as int] == y.entries@[i as int].deep_view());
                }
                if !same(x.entries[i].0.as_str(), y.entries[i].0.as_str()) {
                    return false;
                }
                if !values_same(&x.entries[i].1, &y.entries[i].1, host) {
                    return false;
                }
                i = i + 1;
            }
            true
        },
        _ => false,
    }
}

/// The double that a number, or a text that writes one, stands for.
pub fn numeric_coercion<H: Fn(Ask) -> Answer>(v: &Value, host: &H) -> (r: Option<u64>)
    requires
        host::faithful(*host),
    ensures
        r == numeric(v.deep_view(), host::oracle(*host)),
{
    match v {
        Value::Number(n) => Some(double(*n, host)),
        Value::Text(s) => {
            let t = trim(s.as_str());
            if t.as_str().is_empty() {
                None
            } else {
                ask_bits(host, Ask::Parse(t))
            }
        },
        _ => None,
    }
}

/// Whether two values are equal.
pub fn values_equal<H: Fn(Ask) -> Answer>(a: &Value, b: &Value, host: &H) -> (r: bool)
    requires
        host::faithful(*host),
    ensures
        r == equal(a.deep_view(), b.deep_view(), host::oracle(*host)),
{
    if values_same(a, b, host) {
        return true;
    }
    match (numeric_coercion(a, host), numeric_coercion(b, host)) {
        (Some(x), Some(y)) => match ask_standing(host, Ask::Compare(x, y)) {
            Some(Standing::Equal) => true,
            _ => false,
        },
        _ => false,
    }
}

fn compare_texts(a: &str, b: &str) -> (r: Standing)
    ensures
        r == text_standing(a@, b@),
{
    if precedes(a, b) {
        Standing::Less
    } else if same(a, b) {
        Standing::Equal
    } else {
        Standing::Greater
    }
}

/// How two values stand to each other.
pub fn compare<H: Fn(Ask) -> Answer>(a: &Value, b: &Value, host: &H) -> (r: Option<Standing>)
    requires
        host::faithful(*host),
    ensures
        r == value_standing(a.deep_view(), b.deep_view(), host::oracle(*host)),
{
    match (a, b) {
        (Value::Text(x), Value::Text(y)) => Some(compare_texts(x.as_str(), y.as_str())),
        _ => ask_standing(host, Ask::Compare(to_number(a, host), to_number(b, host))),
    }
}

fn index_place<H: Fn(Ask) -> Answer>(idx: &Value, host: &H) -> (r: Option<u64>)
    requires
        host::faithful(*host),
    ensures
        r == place_of(idx.deep_view(), host::oracle(*host)),
{
    let i: u64 = to_number(idx, host);
    if bits_are_nan(i) || bits_are_negative(i) {
        None
    } else {
        Some(ask_whole(host, Ask::Whole(i)))
    }
}

/// The part of `base` that `idx` names; null where there is none.
pub fn index_value<H: Fn(Ask) -> Answer>(base: &Value, idx: &Value, host: &H) -> (r: Value)
    requires
        host::faithful(*host),
    ensures
        r.deep_view() == part(base.deep_view(), idx.deep_view(), host::oracle(*host)),
{
    match base {
        Value::Dict(t) => {
            proof {
                value::dict_model(*t);
            }
            let key = to_text(idx, host);
            match t.get(key.as_str()) {
                Some(v) => v.dup(),
                None => Value::Null,
            }
        },
        Value::List(a) => {
            proof {
                value::list_model(*a);
            }
            match index_place(idx, host) {
                Some(i) => if i < a.len() as u64 {
                    a[i as usize].dup()
                } else {
                    Value::Null
                },
                None => Value::Null,
            }
        },
        Value::Text(s) => {
            let v = chars_of(s.as_str());
            match index_place(idx, host) {
                Some(i) => if i < v.len() as u64 {
                    let c = text_of(&v, i as usize, i as usize + 1);
                    proof {
                        assert(c@ =~= seq![s@[i as int]]);
                    }
                    Value::Text(c)
                } else {
                    Value::Null
                },
                None => Value::Null,
            }
        },
        _ => Value::Null,
    }
}

/// As a number nothing is zero, true is one and false zero, a double is itself,
/// and a text is what it is read as without the space round it; what is no
/// number, and lists and dictionaries, are not a number.
pub proof fn values_count_as_numbers(o: Oracle, bits: u64, s: Seq<char>, items: Seq<ValueModel>, u: u64, i: i64)
    ensures
        number_of(ValueModel::Null, o) == 0,
        number_of(ValueModel::Bool(false), o) == 0,
        number_of(ValueModel::Bool(true), o) == 0x3FF0_0000_0000_0000,
        number_of(ValueModel::Number(Number::Float(bits)), o) == bits,
        o(AskModel::Unsigned(u as u128)) == AnswerModel::Bits(Some(bits)) ==> number_of(
            ValueModel::Number(Number::PosInt(u)),
            o,
        ) == bits,
        o(AskModel::Signed(i)) == AnswerModel::Bits(Some(bits)) ==> number_of(ValueModel::Number(Number::NegInt(i)), o)
            == bits,
        o(AskModel::Parse(text::trimmed(s))) == AnswerModel::Bits(Some(bits)) ==> number_of(ValueModel::Text(s), o)
            == bits,
        o(AskModel::Parse(text::trimmed(s))) == AnswerModel::Bits(None) ==> value::is_nan(
            number_of(ValueModel::Text(s), o),
        ),
        value::is_nan(number_of(ValueModel::List(items), o)),
{
}

/// As a text nothing is empty, truth values are their words, a text is itself
/// and a number is shown; lists and dictionaries are encoded.
pub proof fn values_show_as_texts(o: Oracle, bits: u64, s: Seq<char>, shown: Seq<char>, items: Seq<ValueModel>)
    ensures
        text_for(ValueModel::Null, o).len() == 0,
        text_for(ValueModel::Bool(true), o) == seq!['t', 'r', 'u', 'e'],
        text_for(ValueModel::Bool(false), o) == seq!['f', 'a', 'l', 's', 'e'],
        text_for(ValueModel::Text(s), o) == s,
        o(AskModel::Show(bits)) == AnswerModel::Text(shown) ==> text_for(ValueModel::Number(Number::Float(bits)), o)
            == shown,
        o(AskModel::Encode(ValueModel::List(items))) == AnswerModel::Text(shown) ==> text_for(
            ValueModel::List(items),
            o,
        ) == shown,
{
    reveal_strlit("true");
    reveal_strlit("false");
}

/// Values of different kinds are never identical, a value is identical to
/// itself but for doubles that are not, and lists are identical item by item.
pub proof fn identity_goes_by_kind(a: ValueModel, b: ValueModel, o: Oracle)
    ensures
        identical(a, b, o) ==> {
            &&& a is Null <==> b is Null
            &&& a is Bool <==> b is Bool
            &&& a is Number <==> b is Number
            &&& a is Text <==> b is Text
            &&& a is List <==> b is List
            &&& a is Dict <==> b is Dict
        },
        a is Null || a is Bool || a is Text ==> (identical(a, b, o) <==> a == b),
        a matches ValueModel::List(x) ==> b matches ValueModel::List(y) ==> (identical(a, b, o) <==> x.len() == y.len()
            && forall|i: int| 0 <= i < x.len() ==> identical(#[trigger] x[i], y[i], o)),
        a matches ValueModel::Number(Number::PosInt(x)) ==> b matches ValueModel::Number(Number::PosInt(y)) ==> (
        identical(a, b, o) <==> x == y),
{
}

/// What is identical is equal. A number and a text that is read as it are equal
/// too; a truth value and a number never are.
pub proof fn equality_reads_numbers(o: Oracle, a: ValueModel, b: ValueModel, bits: u64, s: Seq<char>, p: bool)
    requires
        o(AskModel::Parse(text::trimmed(s))) == AnswerModel::Bits(Some(bits)),
        text::trimmed(s).len() > 0,
    ensures
        identical(a, b, o) ==> equal(a, b, o),
        equal(ValueModel::Number(Number::Float(bits)), ValueModel::Text(s), o) <==> o(AskModel::Compare(bits, bits))
            == AnswerModel::Standing(Some(Standing::Equal)),
        !equal(ValueModel::Bool(p), ValueModel::Number(Number::Float(bits)), o),
        !equal(ValueModel::Null, ValueModel::Text(s), o),
{
}

/// The part of a list at a place is the item there, counted from nothing; the
/// part of a text is the character there; the part of a dictionary is what it
/// holds under the name. What is not there, and the part of anything else, is
/// nothing.
pub proof fn parts_are_found_at_their_place(
    items: Seq<ValueModel>,
    s: Seq<char>,
    entries: Seq<(Seq<char>, ValueModel)>,
    key: Seq<char>,
    idx: ValueModel,
    o: Oracle,
    bits: u64,
    i: u64,
)
    requires
        idx == ValueModel::Number(Number::Float(bits)),
        !value::is_nan(bits),
        !value::is_negative(bits),
        o(AskModel::Whole(bits)) == AnswerModel::Whole(i),
    ensures
        i < items.len() ==> part(ValueModel::List(items), idx, o) == items[i as int],
        i >= items.len() ==> part(ValueModel::List(items), idx, o) is Null,
        i < s.len() ==> part(ValueModel::Text(s), idx, o) == ValueModel::Text(seq![s[i as int]]),
        i >= s.len() ==> part(ValueModel::Text(s), idx, o) is Null,
        table::lookup(entries, key) matches Some(v) ==> part(ValueModel::Dict(entries), ValueModel::Text(key), o) == v,
        table::lookup(entries, key) is None ==> part(ValueModel::Dict(entries), ValueModel::Text(key), o) is Null,
        part(ValueModel::Bool(true), idx, o) is Null,
        part(idx, idx, o) is Null,
{
}

/// No place before the first is in a list, and none that is not a number.
pub proof fn places_are_not_negative(items: Seq<ValueModel>, s: Seq<char>, bits: u64, o: Oracle)
    requires
        value::is_negative(bits) || value::is_nan(bits),
    ensures
        part(ValueModel::List(items), ValueModel::Number(Number::Float(bits)), o) is Null,
        part(ValueModel::Text(s), ValueModel::Number(Number::Float(bits)), o) is Null,
{
}

/// How a text stands to another: less where it comes before it in the order of
/// their characters, equal where it is the same, greater where the other comes
/// before it.
pub proof fn texts_stand_in_order(x: Seq<char>, y: Seq<char>, o: Oracle)
    ensures
        value_standing(ValueModel::Text(x), ValueModel::Text(y), o) == Some(Standing::Less) <==> text::before(x, y),
        value_standing(ValueModel::Text(x), ValueModel::Text(y), o) == Some(Standing::Greater) <==> text::before(y, x),
        value_standing(ValueModel::Text(x), ValueModel::Text(y), o) == Some(Standing::Equal) <==> x == y,
{
    text::before_is_total(x, y);
    text::before_is_total(y, x);
}

} // verus!
