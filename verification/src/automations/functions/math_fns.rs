//! Functions on numbers.

use vstd::prelude::*;

use crate::automations::coerce;
use crate::automations::coerce::{num, to_number};
use crate::automations::functions::text_fns;
use crate::automations::functions::text_fns::argument;
use crate::automations::host;
use crate::automations::host::{ask_bits, Answer, AnswerModel, Ask, AskModel, BinaryMath, Oracle, UnaryMath};
use crate::text::same;
use crate::value;
use crate::value::{bits_are_nan, Number, Value, ValueModel, NOT_A_NUMBER};

verus! {

/// The bit pattern of infinity.
pub const INFINITY: u64 = 0x7FF0_0000_0000_0000;

/// The bit pattern of minus infinity.
pub const MINUS_INFINITY: u64 = 0xFFF0_0000_0000_0000;

/// The result of an operation on one double.
pub open spec fn unary_of(op: UnaryMath, a: u64, o: Oracle) -> u64 {
    coerce::or_nan(host::bits_in(o(AskModel::Unary(op, a))))
}

/// The result of an operation on two doubles.
pub open spec fn binary_of(op: BinaryMath, a: u64, b: u64, o: Oracle) -> u64 {
    coerce::or_nan(host::bits_in(o(AskModel::Binary(op, a, b))))
}

/// Applies an operation to one double.
pub fn unary_math<H: Fn(Ask) -> Answer>(op: UnaryMath, a: u64, host: &H) -> (r: u64)
    requires
        host::faithful(*host),
    ensures
        r == unary_of(op, a, host::oracle(*host)),
{
    match ask_bits(host, Ask::Unary(op, a)) {
        Some(bits) => bits,
        None => NOT_A_NUMBER,
    }
}

/// Applies an operation to two doubles.
pub fn binary_math<H: Fn(Ask) -> Answer>(op: BinaryMath, a: u64, b: u64, host: &H) -> (r: u64)
    requires
        host::faithful(*host),
    ensures
        r == binary_of(op, a, b, host::oracle(*host)),
{
    match ask_bits(host, Ask::Binary(op, a, b)) {
        Some(bits) => bits,
        None => NOT_A_NUMBER,
    }
}

/// The values read as doubles.
pub open spec fn numbers(values: Seq<ValueModel>, o: Oracle) -> Seq<u64> {
    values.map_values(|v: ValueModel| coerce::number_of(v, o))
}

/// The numbers that `min` and `max` range over: the items of a single list
/// argument, or the arguments themselves.
pub open spec fn ranged_numbers(args: Seq<ValueModel>, o: Oracle) -> Seq<u64> {
    if args.len() == 1 && args[0] is List {
        numbers(args[0]->List_0, o)
    } else {
        numbers(args, o)
    }
}

/// An operation applied to one double after another, from `start`.
pub open spec fn folded(op: BinaryMath, start: u64, xs: Seq<u64>, o: Oracle) -> u64
    decreases xs.len(),
{
    if xs.len() == 0 {
        start
    } else {
        binary_of(op, folded(op, start, xs.drop_last(), o), xs.last(), o)
    }
}

/// The items of a list; none for any other value.
pub open spec fn items_of(v: ValueModel) -> Seq<ValueModel> {
    match v {
        ValueModel::List(s) => s,
        _ => Seq::empty(),
    }
}

/// The doubles that are numbers.
pub open spec fn only_numbers(xs: Seq<u64>) -> Seq<u64> {
    xs.filter(|x: u64| !value::is_nan(x))
}

/// The sum of the doubles that are numbers.
pub open spec fn sum_of(xs: Seq<u64>, o: Oracle) -> u64 {
    folded(BinaryMath::Add, 0, only_numbers(xs), o)
}

/// The mean of the items that are numbers; null for none.
pub open spec fn mean_of(xs: Seq<u64>, o: Oracle) -> ValueModel {
    let n = only_numbers(xs).len();
    if n == 0 {
        ValueModel::Null
    } else {
        coerce::value_of(
            binary_of(
                BinaryMath::Div,
                sum_of(xs, o),
                coerce::or_nan(host::bits_in(o(AskModel::Unsigned(n as u128)))),
                o,
            ),
            o,
        )
    }
}

/// Where and when a call stands, which tells random draws apart.
pub struct CallSite {
    pub now_ms: u128,
    pub scope: String,
    pub site: usize,
}

/// What a call site holds.
pub struct CallSiteModel {
    pub now_ms: u128,
    pub scope: Seq<char>,
    pub site: int,
}

impl DeepView for CallSite {
    type V = CallSiteModel;

    open spec fn deep_view(&self) -> CallSiteModel {
        CallSiteModel { now_ms: self.now_ms, scope: self.scope@, site: self.site as int }
    }
}

/// The functions on numbers; nothing for a name that is none of them.
pub open spec fn math_call(name: Seq<char>, args: Seq<ValueModel>, at: CallSiteModel, o: Oracle) -> Option<ValueModel> {
    let a = coerce::number_of(text_fns::arg(args, 0), o);
    let b = coerce::number_of(text_fns::arg(args, 1), o);
    let c = coerce::number_of(text_fns::arg(args, 2), o);
    if name == "abs"@ {
        Some(coerce::value_of(unary_of(UnaryMath::Abs, a, o), o))
    } else if name == "round"@ {
        Some(
            coerce::value_of(
                if args.len() >= 2 {
                    binary_of(BinaryMath::RoundTo, a, b, o)
                } else {
                    unary_of(UnaryMath::Round, a, o)
                },
                o,
            ),
        )
    } else if name == "floor"@ {
        Some(coerce::value_of(unary_of(UnaryMath::Floor, a, o), o))
    } else if name == "ceil"@ {
        Some(coerce::value_of(unary_of(UnaryMath::Ceil, a, o), o))
    } else if name == "trunc"@ {
        Some(coerce::value_of(unary_of(UnaryMath::Trunc, a, o), o))
    } else if name == "sqrt"@ {
        Some(coerce::value_of(unary_of(UnaryMath::Sqrt, a, o), o))
    } else if name == "pow"@ {
        Some(coerce::value_of(binary_of(BinaryMath::Pow, a, b, o), o))
    } else if name == "min"@ {
        Some(coerce::value_of(folded(BinaryMath::Min, INFINITY, ranged_numbers(args, o), o), o))
    } else if name == "max"@ {
        Some(coerce::value_of(folded(BinaryMath::Max, MINUS_INFINITY, ranged_numbers(args, o), o), o))
    } else if name == "random"@ {
        Some(
            coerce::value_of(
                coerce::or_nan(
                    host::bits_in(
                        o(AskModel::Random { now_ms: at.now_ms, scope: at.scope, site: at.site }),
                    ),
                ),
                o,
            ),
        )
    } else if name == "number"@ {
        Some(
            if value::is_nan(a) {
                ValueModel::Null
            } else {
                coerce::value_of(a, o)
            },
        )
    } else if name == "clamp"@ {
        Some(coerce::value_of(binary_of(BinaryMath::Min, binary_of(BinaryMath::Max, a, b, o), c, o), o))
    } else if name == "sum"@ {
        Some(coerce::value_of(sum_of(numbers(items_of(text_fns::arg(args, 0)), o), o), o))
    } else if name == "avg"@ || name == "mean"@ {
        Some(mean_of(numbers(items_of(text_fns::arg(args, 0)), o), o))
    } else {
        None
    }
}

fn read_numbers<H: Fn(Ask) -> Answer>(values: &Vec<Value>, host: &H) -> (r: Vec<u64>)
    requires
        host::faithful(*host),
    ensures
        r@ == numbers(values.deep_view(), host::oracle(*host)),
{
    let mut out: Vec<u64> = Vec::new();
    let mut i: usize = 0;
    while i < values.len()
        invariant
            host::faithful(*host),
            i <= values@.len(),
            out@.len() == i,
            forall|j: int|
                0 <= j < i ==> #[trigger] out@[j] == coerce::number_of(
                    values@[j].deep_view(),
                    host::oracle(*host),
                ),
        decreases values@.len() - i,
    {
        out.push(to_number(&values[i], host));
        i = i + 1;
    }
    proof {
        assert(out@ =~= numbers(values.deep_view(), host::oracle(*host)));
    }
    out
}

/// The numbers that `min` and `max` range over.
pub fn number_args<H: Fn(Ask) -> Answer>(args: &Vec<Value>, host: &H) -> (r: Vec<u64>)
    requires
        host::faithful(*host),
    ensures
        r@ == ranged_numbers(args.deep_view(), host::oracle(*host)),
{
    if args.len() == 1 {
        if let Value::List(a) = &args[0] {
            proof {
                value::list_model(*a);
                assert(args.deep_view()[0] == args@[0].deep_view());
            }
            return read_numbers(a, host);
        }
        proof {
            assert(args.deep_view()[0] == args@[0].deep_view());
        }
    }
    read_numbers(args, host)
}

fn fold<H: Fn(Ask) -> Answer>(op: BinaryMath, start: u64, xs: &Vec<u64>, host: &H) -> (r: u64)
    requires
        host::faithful(*host),
    ensures
        r == folded(op, start, xs@, host::oracle(*host)),
{
    let mut acc: u64 = start;
    let mut i: usize = 0;
    proof {
        assert(xs@.take(0) =~= Seq::<u64>::empty());
    }
    while i < xs.len()
        invariant
            host::faithful(*host),
            i <= xs@.len(),
            acc == folded(op, start, xs@.take(i as int), host::oracle(*host)),
        decreases xs@.len() - i,
    {
        proof {
            assert(xs@.take(i + 1).drop_last() =~= xs@.take(i as int));
        }
        acc = binary_math(op, acc, xs[i], host);
        i = i + 1;
    }
    proof {
        assert(xs@.take(xs@.len() as int) =~= xs@);
    }
    acc
}

fn drop_nan(xs: &Vec<u64>) -> (r: Vec<u64>)
    ensures
        r@ == only_numbers(xs@),
{
    let ghost keep = |x: u64| !value::is_nan(x);
    let mut out: Vec<u64> = Vec::new();
    let mut i: usize = 0;
    proof {
        reveal(Seq::filter);
        assert(xs@.take(0) =~= Seq::<u64>::empty());
        assert(out@ =~= xs@.take(0).filter(keep));
    }
    while i < xs.len()
        invariant
            i <= xs@.len(),
            keep == (|x: u64| !value::is_nan(x)),
            out@ == xs@.take(i as int).filter(keep),
        decreases xs@.len() - i,
    {
        proof {
            reveal(Seq::filter);
            assert(xs@.take(i + 1).drop_last() =~= xs@.take(i as int));
        }
        if !bits_are_nan(xs[i]) {
            out.push(xs[i]);
        }
        i = i + 1;
    }
    proof {
        assert(xs@.take(xs@.len() as int) =~= xs@);
    }
    out
}

fn items_as_numbers<H: Fn(Ask) -> Answer>(v: &Value, host: &H) -> (r: Vec<u64>)
    requires
        host::faithful(*host),
    ensures
        r@ == numbers(items_of(v.deep_view()), host::oracle(*host)),
{
    match v {
        Value::List(a) => {
            proof {
                value::list_model(*a);
            }
            read_numbers(a, host)
        },
        _ => {
            let none: Vec<u64> = Vec::new();
            proof {
                assert(none@ =~= numbers(items_of(v.deep_view()), host::oracle(*host)));
            }
            none
        },
    }
}

fn mean<H: Fn(Ask) -> Answer>(xs: &Vec<u64>, host: &H) -> (r: Value)
    requires
        host::faithful(*host),
    ensures
        r.deep_view() == mean_of(xs@, host::oracle(*host)),
{
    let kept = drop_nan(xs);
    if kept.len() == 0 {
        return Value::Null;
    }
    let sum: u64 = fold(BinaryMath::Add, 0, &kept, host);
    let n: u64 = match ask_bits(host, Ask::Unsigned(kept.len() as u128)) {
        Some(bits) => bits,
        None => NOT_A_NUMBER,
    };
    num(binary_math(BinaryMath::Div, sum, n, host), host)
}

/// Calls a function on numbers.
pub fn call_math<H: Fn(Ask) -> Answer>(name: &str, args: &Vec<Value>, at: &CallSite, host: &H) -> (r: Option<Value>)
    requires
        host::faithful(*host),
    ensures
        r.deep_view() == math_call(name@, args.deep_view(), at.deep_view(), host::oracle(*host)),
{
    if same(name, "abs") {
        Some(num(unary_math(UnaryMath::Abs, to_number(&argument(args, 0), host), host), host))
    } else if same(name, "round") {
        let n: u64 = to_number(&argument(args, 0), host);
        if args.len() >= 2 {
            Some(num(binary_math(BinaryMath::RoundTo, n, to_number(&argument(args, 1), host), host), host))
        } else {
            Some(num(unary_math(UnaryMath::Round, n, host), host))
        }
    } else if same(name, "floor") {
        Some(num(unary_math(UnaryMath::Floor, to_number(&argument(args, 0), host), host), host))
    } else if same(name, "ceil") {
        Some(num(unary_math(UnaryMath::Ceil, to_number(&argument(args, 0), host), host), host))
    } else if same(name, "trunc") {
        Some(num(unary_math(UnaryMath::Trunc, to_number(&argument(args, 0), host), host), host))
    } else if same(name, "sqrt") {
        Some(num(unary_math(UnaryMath::Sqrt, to_number(&argument(args, 0), host), host), host))
    } else if same(name, "pow") {
        let a: u64 = to_number(&argument(args, 0), host);
        let b: u64 = to_number(&argument(args, 1), host);
        Some(num(binary_math(BinaryMath::Pow, a, b, host), host))
    } else if same(name, "min") {
        Some(num(fold(BinaryMath::Min, INFINITY, &number_args(args, host), host), host))
    } else if same(name, "max") {
        Some(num(fold(BinaryMath::Max, MINUS_INFINITY, &number_args(args, host), host), host))
    } else if same(name, "random") {
        let drawn = ask_bits(host, Ask::Random { now_ms: at.now_ms, scope: at.scope.clone(), site: at.site });
        match drawn {
            Some(bits) => Some(num(bits, host)),
            None => Some(num(NOT_A_NUMBER, host)),
        }
    } else if same(name, "number") {
        let n: u64 = to_number(&argument(args, 0), host);
        if bits_are_nan(n) {
            Some(Value::Null)
        } else {
            Some(num(n, host))
        }
    } else if same(name, "clamp") {
        let n: u64 = to_number(&argument(args, 0), host);
        let lo: u64 = to_number(&argument(args, 1), host);
        let hi: u64 = to_number(&argument(args, 2), host);
        let at_least: u64 = binary_math(BinaryMath::Max, n, lo, host);
        Some(num(binary_math(BinaryMath::Min, at_least, hi, host), host))
    } else if same(name, "sum") {
        let kept = drop_nan(&items_as_numbers(&argument(args, 0), host));
        Some(num(fold(BinaryMath::Add, 0, &kept, host), host))
    } else if same(name, "avg") || same(name, "mean") {
        Some(mean(&items_as_numbers(&argument(args, 0), host), host))
    } else {
        None
    }
}

/// The host answers the question with a double, which is that number.
pub open spec fn gives(o: Oracle, question: AskModel, n: Number) -> bool {
    exists|bits: u64|
        o(question) == AnswerModel::Bits(Some(bits)) && #[trigger] o(AskModel::Number(bits)) == AnswerModel::Number(
            Some(n),
        )
}

proof fn names_differ()
    ensures
        "round"@ != "abs"@,
        "floor"@ != "abs"@ && "floor"@ != "round"@,
        "ceil"@ != "abs"@ && "ceil"@ != "round"@ && "ceil"@ != "floor"@,
        "trunc"@ != "abs"@ && "trunc"@ != "round"@ && "trunc"@ != "floor"@ && "trunc"@ != "ceil"@,
        "sqrt"@ != "abs"@ && "sqrt"@ != "round"@ && "sqrt"@ != "floor"@ && "sqrt"@ != "ceil"@ && "sqrt"@ !=
            "trunc"@,
        "pow"@ != "abs"@ && "pow"@ != "round"@ && "pow"@ != "floor"@ && "pow"@ != "ceil"@ && "pow"@ != "trunc"@
            && "pow"@ != "sqrt"@,
        "min"@ != "abs"@ && "min"@ != "round"@ && "min"@ != "floor"@ && "min"@ != "ceil"@ && "min"@ != "trunc"@
            && "min"@ != "sqrt"@ && "min"@ != "pow"@,
        "max"@ != "abs"@ && "max"@ != "round"@ && "max"@ != "floor"@ && "max"@ != "ceil"@ && "max"@ != "trunc"@
            && "max"@ != "sqrt"@ && "max"@ != "pow"@ && "max"@ != "min"@,
        "random"@ != "abs"@ && "random"@ != "round"@ && "random"@ != "floor"@ && "random"@ != "ceil"@ &&
            "random"@ != "trunc"@ && "random"@ != "sqrt"@ && "random"@ != "pow"@ && "random"@ != "min"@ &&
            "random"@ != "max"@,
        "number"@ != "abs"@ && "number"@ != "round"@ && "number"@ != "floor"@ && "number"@ != "ceil"@ &&
            "number"@ != "trunc"@ && "number"@ != "sqrt"@ && "number"@ != "pow"@ && "number"@ != "min"@ &&
            "number"@ != "max"@ && "number"@ != "random"@,
        "clamp"@ != "abs"@ && "clamp"@ != "round"@ && "clamp"@ != "floor"@ && "clamp"@ != "ceil"@ && "clamp"@ !=
            "trunc"@ && "clamp"@ != "sqrt"@ && "clamp"@ != "pow"@ && "clamp"@ != "min"@ && "clamp"@ != "max"@ &&
            "clamp"@ != "random"@ && "clamp"@ != "number"@,
        "sum"@ != "abs"@ && "sum"@ != "round"@ && "sum"@ != "floor"@ && "sum"@ != "ceil"@ && "sum"@ != "trunc"@
            && "sum"@ != "sqrt"@ && "sum"@ != "pow"@ && "sum"@ != "min"@ && "sum"@ != "max"@ && "sum"@ !=
            "random"@ && "sum"@ != "number"@ && "sum"@ != "clamp"@,
        "avg"@ != "abs"@ && "avg"@ != "round"@ && "avg"@ != "floor"@ && "avg"@ != "ceil"@ && "avg"@ != "trunc"@
            && "avg"@ != "sqrt"@ && "avg"@ != "pow"@ && "avg"@ != "min"@ && "avg"@ != "max"@ && "avg"@ !=
            "random"@ && "avg"@ != "number"@ && "avg"@ != "clamp"@ && "avg"@ != "sum"@,
        "mean"@ != "abs"@ && "mean"@ != "round"@ && "mean"@ != "floor"@ && "mean"@ != "ceil"@ && "mean"@ !=
            "trunc"@ && "mean"@ != "sqrt"@ && "mean"@ != "pow"@ && "mean"@ != "min"@ && "mean"@ != "max"@ &&
            "mean"@ != "random"@ && "mean"@ != "number"@ && "mean"@ != "clamp"@ && "mean"@ != "sum"@ && "mean"@
            != "avg"@,
{
    reveal_strlit("abs");
    reveal_strlit("round");
    reveal_strlit("floor");
    reveal_strlit("ceil");
    reveal_strlit("trunc");
    reveal_strlit("sqrt");
    reveal_strlit("pow");
    reveal_strlit("min");
    reveal_strlit("max");
    reveal_strlit("random");
    reveal_strlit("number");
    reveal_strlit("clamp");
    reveal_strlit("sum");
    reveal_strlit("avg");
    reveal_strlit("mean");
    assert("abs"@.len() == 3 && "abs"@[0] == 'a' && "abs"@[1] == 'b');
    assert("round"@.len() == 5 && "round"@[0] == 'r' && "round"@[1] == 'o');
    assert("floor"@.len() == 5 && "floor"@[0] == 'f' && "floor"@[1] == 'l');
    assert("ceil"@.len() == 4 && "ceil"@[0] == 'c' && "ceil"@[1] == 'e');
    assert("trunc"@.len() == 5 && "trunc"@[0] == 't' && "trunc"@[1] == 'r');
    assert("sqrt"@.len() == 4 && "sqrt"@[0] == 's' && "sqrt"@[1] == 'q');
    assert("pow"@.len() == 3 && "pow"@[0] == 'p' && "pow"@[1] == 'o');
    assert("min"@.len() == 3 && "min"@[0] == 'm' && "min"@[1] == 'i');
    assert("max"@.len() == 3 && "max"@[0] == 'm' && "max"@[1] == 'a');
    assert("random"@.len() == 6 && "random"@[0] == 'r' && "random"@[1] == 'a');
    assert("number"@.len() == 6 && "number"@[0] == 'n' && "number"@[1] == 'u');
    assert("clamp"@.len() == 5 && "clamp"@[0] == 'c' && "clamp"@[1] == 'l');
    assert("sum"@.len() == 3 && "sum"@[0] == 's' && "sum"@[1] == 'u');
    assert("avg"@.len() == 3 && "avg"@[0] == 'a' && "avg"@[1] == 'v');
    assert("mean"@.len() == 4 && "mean"@[0] == 'm' && "mean"@[1] == 'e');
}

/// A double as an operand.
pub open spec fn double(bits: u64) -> ValueModel {
    ValueModel::Number(Number::Float(bits))
}

/// The functions of one number ask for what they are called: the magnitude,
/// the nearest whole number, the next below, the next above, the whole part,
/// the root; `number` gives the number itself, or nothing where there is none.
pub proof fn functions_of_one_number_ask_by_name(x: u64, at: CallSiteModel, o: Oracle, n: Number)
    ensures
        gives(o, AskModel::Unary(UnaryMath::Abs, x), n) ==> math_call("abs"@, seq![double(x)], at, o) == Some(
            ValueModel::Number(n),
        ),
        gives(o, AskModel::Unary(UnaryMath::Round, x), n) ==> math_call("round"@, seq![double(x)], at, o) == Some(
            ValueModel::Number(n),
        ),
        gives(o, AskModel::Unary(UnaryMath::Floor, x), n) ==> math_call("floor"@, seq![double(x)], at, o) == Some(
            ValueModel::Number(n),
        ),
        gives(o, AskModel::Unary(UnaryMath::Ceil, x), n) ==> math_call("ceil"@, seq![double(x)], at, o) == Some(
            ValueModel::Number(n),
        ),
        gives(o, AskModel::Unary(UnaryMath::Trunc, x), n) ==> math_call("trunc"@, seq![double(x)], at, o) == Some(
            ValueModel::Number(n),
        ),
        gives(o, AskModel::Unary(UnaryMath::Sqrt, x), n) ==> math_call("sqrt"@, seq![double(x)], at, o) == Some(
            ValueModel::Number(n),
        ),
        !value::is_nan(x) && o(AskModel::Number(x)) == AnswerModel::Number(Some(n)) ==> math_call(
            "number"@,
            seq![double(x)],
            at,
            o,
        ) == Some(ValueModel::Number(n)),
        value::is_nan(x) ==> math_call("number"@, seq![double(x)], at, o) == Some(ValueModel::Null),
{
    names_differ();
}

/// The functions of several numbers ask for what they are called: the power of
/// the first by the second, the first rounded to as many places as the second
/// says, and the first held between the second below and the third above. A
/// random number is drawn for the moment, the scope and the place of the call.
pub proof fn functions_of_several_numbers_ask_by_name(
    x: u64,
    y: u64,
    z: u64,
    low: u64,
    at: CallSiteModel,
    o: Oracle,
    n: Number,
)
    ensures
        gives(o, AskModel::Binary(BinaryMath::Pow, x, y), n) ==> math_call("pow"@, seq![double(x), double(y)], at, o)
            == Some(ValueModel::Number(n)),
        gives(o, AskModel::Binary(BinaryMath::RoundTo, x, y), n) ==> math_call(
            "round"@,
            seq![double(x), double(y)],
            at,
            o,
        ) == Some(ValueModel::Number(n)),
        o(AskModel::Binary(BinaryMath::Max, x, y)) == AnswerModel::Bits(Some(low)) && gives(
            o,
            AskModel::Binary(BinaryMath::Min, low, z),
            n,
        ) ==> math_call("clamp"@, seq![double(x), double(y), double(z)], at, o) == Some(ValueModel::Number(n)),
        gives(o, AskModel::Random { now_ms: at.now_ms, scope: at.scope, site: at.site }, n) ==> math_call(
            "random"@,
            Seq::empty(),
            at,
            o,
        ) == Some(ValueModel::Number(n)),
{
    names_differ();
}

/// The least and the greatest of two numbers, given one by one or as a list,
/// are found by asking for the lesser and the greater of them in turn, from the
/// infinities on.
pub proof fn extremes_are_found_in_turn(x: u64, y: u64, a: u64, b: u64, at: CallSiteModel, o: Oracle, n: Number)
    requires
        o(AskModel::Binary(BinaryMath::Min, 0x7FF0_0000_0000_0000, x)) == AnswerModel::Bits(Some(a)),
        o(AskModel::Binary(BinaryMath::Max, 0xFFF0_0000_0000_0000, x)) == AnswerModel::Bits(Some(b)),
    ensures
        gives(o, AskModel::Binary(BinaryMath::Min, a, y), n) ==> math_call("min"@, seq![double(x), double(y)], at, o)
            == Some(ValueModel::Number(n)) && math_call(
            "min"@,
            seq![ValueModel::List(seq![double(x), double(y)])],
            at,
            o,
        ) == Some(ValueModel::Number(n)),
        gives(o, AskModel::Binary(BinaryMath::Max, b, y), n) ==> math_call("max"@, seq![double(x), double(y)], at, o)
            == Some(ValueModel::Number(n)) && math_call(
            "max"@,
            seq![ValueModel::List(seq![double(x), double(y)])],
            at,
            o,
        ) == Some(ValueModel::Number(n)),
{
    names_differ();
    let both = seq![double(x), double(y)];
    assert(numbers(both, o) =~= seq![x, y]);
    pairs_are_folded(BinaryMath::Min, INFINITY, x, y, o);
    pairs_are_folded(BinaryMath::Max, MINUS_INFINITY, x, y, o);
}

proof fn pairs_are_folded(op: BinaryMath, start: u64, x: u64, y: u64, o: Oracle)
    ensures
        folded(op, start, seq![x, y], o) == binary_of(op, binary_of(op, start, x, o), y, o),
{
    reveal_with_fuel(folded, 3);
    assert(seq![x, y].drop_last() =~= seq![x]);
    assert(seq![x].drop_last() =~= Seq::<u64>::empty());
}

/// The sum of a list of two numbers is zero and the first and the second added
/// up in turn; the mean, by either name, is the sum divided by how many there
/// are. Of a list with no numbers the mean is nothing.
pub proof fn sums_add_up_in_turn(
    x: u64,
    y: u64,
    a: u64,
    b: u64,
    two: u64,
    at: CallSiteModel,
    o: Oracle,
    n: Number,
    mean: Number,
)
    requires
        !value::is_nan(x),
        !value::is_nan(y),
        o(AskModel::Binary(BinaryMath::Add, 0, x)) == AnswerModel::Bits(Some(a)),
        o(AskModel::Binary(BinaryMath::Add, a, y)) == AnswerModel::Bits(Some(b)),
        o(AskModel::Number(b)) == AnswerModel::Number(Some(n)),
        o(AskModel::Unsigned(2)) == AnswerModel::Bits(Some(two)),
        gives(o, AskModel::Binary(BinaryMath::Div, b, two), mean),
    ensures
        math_call("sum"@, seq![ValueModel::List(seq![double(x), double(y)])], at, o) == Some(ValueModel::Number(n)),
        math_call("avg"@, seq![ValueModel::List(seq![double(x), double(y)])], at, o) == Some(ValueModel::Number(mean)),
        math_call("mean"@, seq![ValueModel::List(seq![double(x), double(y)])], at, o) == Some(ValueModel::Number(mean)),
        math_call("avg"@, seq![ValueModel::List(Seq::empty())], at, o) == Some(ValueModel::Null),
{
    names_differ();
    let both = seq![double(x), double(y)];
    let keep = |v: u64| !value::is_nan(v);
    assert(numbers(both, o) =~= seq![x, y]);
    assert(only_numbers(seq![x, y]) =~= seq![x, y]) by {
        reveal(Seq::filter);
        assert(seq![x, y].drop_last() =~= seq![x]);
        assert(seq![x].drop_last() =~= Seq::<u64>::empty());
        assert(Seq::<u64>::empty().filter(keep) =~= Seq::empty());
        assert(seq![x].filter(keep) =~= seq![x]);
        assert(seq![x, y].filter(keep) =~= seq![x, y]);
    }
    pairs_are_folded(BinaryMath::Add, 0, x, y, o);
    assert(numbers(Seq::empty(), o) =~= Seq::empty());
    assert(only_numbers(Seq::empty()) =~= Seq::empty()) by {
        reveal(Seq::filter);
    }
}

} // verus!
