//! The values that expressions compute with: JSON's, with numbers kept as
//! whole numbers or as the bit pattern of a double.

use vstd::prelude::*;

use crate::dup::Dup;
use crate::table::Table;

verus! {

/// A JSON number.
#[derive(Debug, Clone, Copy, PartialEq, Eq, Structural)]
pub enum Number {
    /// A whole number from zero up.
    PosInt(u64),
    /// A whole number below zero.
    NegInt(i64),
    /// A double, by its IEEE 754 bit pattern.
    Float(u64),
}

/// A JSON value.
pub enum Value {
    Null,
    Bool(bool),
    Number(Number),
    Text(String),
    List(Vec<Value>),
    Dict(Table<Value>),
}

/// What a value holds.
pub enum ValueModel {
    Null,
    Bool(bool),
    Number(Number),
    Text(Seq<char>),
    List(Seq<ValueModel>),
    Dict(Seq<(Seq<char>, ValueModel)>),
}

impl Value {
    /// What the value holds.
    pub open spec fn model(self) -> ValueModel
        decreases self,
    {
        match self {
            Value::Null => ValueModel::Null,
            Value::Bool(b) => ValueModel::Bool(b),
            Value::Number(n) => ValueModel::Number(n),
            Value::Text(s) => ValueModel::Text(s@),
            Value::List(v) => ValueModel::List(
                Seq::new(
                    v@.len(),
                    |i: int|
                        if 0 <= i < v@.len() {
                            v@[i].model()
                        } else {
                            ValueModel::Null
                        },
                ),
            ),
            Value::Dict(t) => ValueModel::Dict(
                Seq::new(
                    t.entries@.len(),
                    |i: int|
                        if 0 <= i < t.entries@.len() {
                            (t.entries@[i].0@, t.entries@[i].1.model())
                        } else {
                            (Seq::empty(), ValueModel::Null)
                        },
                ),
            ),
        }
    }
}

impl DeepView for Value {
    type V = ValueModel;

    open spec fn deep_view(&self) -> ValueModel {
        self.model()
    }
}

pub broadcast proof fn list_model(v: Vec<Value>)
    ensures
        #[trigger] Value::List(v).model() == ValueModel::List(v.deep_view()),
{
    assert(Value::List(v).model()->List_0 =~= v.deep_view());
}

pub broadcast proof fn dict_model(t: Table<Value>)
    ensures
        #[trigger] Value::Dict(t).model() == ValueModel::Dict(t.deep_view()),
{
    assert(Value::Dict(t).model()->Dict_0 =~= t.deep_view());
}

impl Dup for Value {
    fn dup(&self) -> (r: Self)
        decreases self,
    {
        match self {
            Value::Null => Value::Null,
            Value::Bool(b) => Value::Bool(*b),
            Value::Number(n) => Value::Number(*n),
            Value::Text(s) => Value::Text(s.clone()),
            Value::List(v) => {
                let mut out: Vec<Value> = Vec::new();
                let mut i: usize = 0;
                while i < v.len()
                    invariant
                        i <= v@.len(),
                        *self == Value::List(*v),
                        out@.len() == i,
                        forall|j: int| 0 <= j < i ==> (#[trigger] out@[j]).model() == v@[j].model(),
                    decreases v@.len() - i,
                {
                    proof {
                        assert(decreases_to!(*self => self->List_0));
                        assert(decreases_to!(*v => v@));
                        assert(decreases_to!(v@ => v@[i as int]));
                    }
                    out.push(v[i].dup());
                    i = i + 1;
                }
                proof {
                    list_model(out);
                    list_model(*v);
                    assert(out.deep_view() =~= v.deep_view());
                }
                Value::List(out)
            },
            Value::Dict(t) => {
                let mut out: Vec<(String, Value)> = Vec::new();
                let mut i: usize = 0;
                while i < t.entries.len()
                    invariant
                        i <= t.entries@.len(),
                        *self == Value::Dict(*t),
                        out@.len() == i,
                        forall|j: int|
                            0 <= j < i ==> (#[trigger] out@[j]).0@ == t.entries@[j].0@ && out@[j].1.model()
                                == t.entries@[j].1.model(),
                    decreases t.entries@.len() - i,
                {
                    proof {
                        assert(decreases_to!(*self => self->Dict_0));
                        assert(decreases_to!(*t => t.entries));
                        assert(decreases_to!(t.entries => t.entries@));
                        assert(decreases_to!(t.entries@ => t.entries@[i as int]));
                        assert(decreases_to!(t.entries@[i as int] => t.entries@[i as int].1));
                    }
                    out.push((t.entries[i].0.clone(), t.entries[i].1.dup()));
                    i = i + 1;
                }
                let r = Table { entries: out };
                proof {
                    dict_model(r);
                    dict_model(*t);
                    assert(r.deep_view() =~= t.deep_view());
                }
                Value::Dict(r)
            },
        }
    }
}

/// The bit pattern of the double one.
pub const ONE: u64 = 0x3FF0_0000_0000_0000;

/// The bit pattern of the double that is not a number.
pub const NOT_A_NUMBER: u64 = 0x7FF8_0000_0000_0000;

/// The bit pattern of a double less its sign.
pub open spec fn magnitude(bits: u64) -> int {
    if bits < 0x8000_0000_0000_0000 {
        bits as int
    } else {
        bits - 0x8000_0000_0000_0000
    }
}

/// The double is not a number.
pub open spec fn is_nan(bits: u64) -> bool {
    magnitude(bits) > 0x7FF0_0000_0000_0000
}

/// The double is zero, of either sign.
pub open spec fn is_zero(bits: u64) -> bool {
    magnitude(bits) == 0
}

/// The double is below zero.
pub open spec fn is_negative(bits: u64) -> bool {
    bits > 0x8000_0000_0000_0000 && !is_nan(bits)
}

/// Whether the double is not a number.
pub fn bits_are_nan(bits: u64) -> (b: bool)
    ensures
        b == is_nan(bits),
{
    (if bits < 0x8000_0000_0000_0000 { bits } else { bits - 0x8000_0000_0000_0000 }) > 0x7FF0_0000_0000_0000
}

/// Whether the double is zero.
pub fn bits_are_zero(bits: u64) -> (b: bool)
    ensures
        b == is_zero(bits),
{
    bits == 0 || bits == 0x8000_0000_0000_0000
}

/// Whether the double is below zero.
pub fn bits_are_negative(bits: u64) -> (b: bool)
    ensures
        b == is_negative(bits),
{
    bits > 0x8000_0000_0000_0000 && !bits_are_nan(bits)
}

/// A value counts as true unless it is null, false, zero, or empty.
pub open spec fn is_truthy(v: ValueModel) -> bool {
    match v {
        ValueModel::Null => false,
        ValueModel::Bool(b) => b,
        ValueModel::Number(Number::PosInt(n)) => n != 0,
        ValueModel::Number(Number::NegInt(n)) => n != 0,
        ValueModel::Number(Number::Float(bits)) => !is_zero(bits) && !is_nan(bits),
        ValueModel::Text(s) => s.len() > 0,
        ValueModel::List(s) => s.len() > 0,
        ValueModel::Dict(s) => s.len() > 0,
    }
}

/// Whether a value counts as true.
pub fn truthy(v: &Value) -> (b: bool)
    ensures
        b == is_truthy(v.deep_view()),
{
    match v {
        Value::Null => false,
        Value::Bool(b) => *b,
        Value::Number(Number::PosInt(n)) => *n != 0,
        Value::Number(Number::NegInt(n)) => *n != 0,
        Value::Number(Number::Float(bits)) => !bits_are_zero(*bits) && !bits_are_nan(*bits),
        Value::Text(s) => !s.as_str().is_empty(),
        Value::List(a) => a.len() > 0,
        Value::Dict(t) => t.entries.len() > 0,
    }
}

/// Nothing, false, zero, what is not a number, and empty texts, lists and
/// dictionaries count as false; everything else counts as true.
pub proof fn empty_values_count_as_false(v: ValueModel)
    ensures
        is_truthy(v) <==> !{
            ||| v == ValueModel::Null
            ||| v == ValueModel::Bool(false)
            ||| v == ValueModel::Number(Number::PosInt(0))
            ||| v == ValueModel::Number(Number::NegInt(0))
            ||| v == ValueModel::Number(Number::Float(0))
            ||| v == ValueModel::Number(Number::Float(0x8000_0000_0000_0000))
            ||| v matches ValueModel::Number(Number::Float(bits)) && is_nan(bits)
            ||| v == ValueModel::Text(Seq::empty())
            ||| v == ValueModel::List(Seq::empty())
            ||| v == ValueModel::Dict(Seq::empty())
        },
{
    if let ValueModel::Text(s) = v {
        assert(s.len() == 0 ==> s =~= Seq::empty());
    }
    if let ValueModel::List(s) = v {
        assert(s.len() == 0 ==> s =~= Seq::empty());
    }
    if let ValueModel::Dict(s) = v {
        assert(s.len() == 0 ==> s =~= Seq::empty());
    }
}

/// A double is not a number where its exponent is all ones and its fraction is
/// not nothing; the sign has no part in it. Below the infinities the sign alone
/// tells negative doubles, and zero of either sign is not negative.
pub proof fn doubles_have_a_sign(bits: u64)
    requires
        bits < 0x8000_0000_0000_0000,
    ensures
        is_nan(bits) <==> bits > 0x7FF0_0000_0000_0000,
        is_nan((bits + 0x8000_0000_0000_0000) as u64) <==> is_nan(bits),
        !is_negative(bits),
        is_negative((bits + 0x8000_0000_0000_0000) as u64) <==> bits != 0 && !is_nan(bits),
{
}

} // verus!
