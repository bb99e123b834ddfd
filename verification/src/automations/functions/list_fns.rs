//! Functions on lists and dictionaries, and on values of any kind.

use vstd::prelude::*;
use vstd::string::*;

use crate::automations::coerce;
use crate::automations::coerce::{index_value, to_number, to_text};
use crate::automations::functions::math_fns;
use crate::automations::functions::text_fns;
use crate::automations::functions::text_fns::{argument, span_bounds};
use crate::automations::host;
use crate::automations::host::{ask_standing, Answer, AnswerModel, Ask, AskModel, Oracle, Standing};
use crate::dup::Dup;
use crate::table;
use crate::table::Table;
use crate::text;
use crate::text::{precedes, same};
use crate::value;
use crate::value::{bits_are_nan, truthy, Number, Value, ValueModel};

verus! {

/// The name of a value's kind.
pub open spec fn kind_name(v: ValueModel) -> Seq<char> {
    match v {
        ValueModel::Null => "null"@,
        ValueModel::Bool(_) => "boolean"@,
        ValueModel::Number(_) => "number"@,
        ValueModel::Text(_) => "text"@,
        ValueModel::List(_) => "array"@,
        ValueModel::Dict(_) => "dictionary"@,
    }
}

fn name_kind(v: &Value) -> (r: String)
    ensures
        r@ == kind_name(v.deep_view()),
{
    match v {
        Value::Null => "null".to_owned(),
        Value::Bool(_) => "boolean".to_owned(),
        Value::Number(_) => "number".to_owned(),
        Value::Text(_) => "text".to_owned(),
        Value::List(_) => "array".to_owned(),
        Value::Dict(_) => "dictionary".to_owned(),
    }
}

/// The first of the values from place `i` on that is not null.
pub open spec fn first_given(args: Seq<ValueModel>, i: int) -> ValueModel
    decreases args.len() - i,
{
    if i < 0 || i >= args.len() {
        ValueModel::Null
    } else if args[i] is Null {
        first_given(args, i + 1)
    } else {
        args[i]
    }
}

fn coalesce(args: &Vec<Value>) -> (r: Value)
    ensures
        r.deep_view() == first_given(args.deep_view(), 0),
{
    let mut i: usize = 0;
    while i < args.len()
        invariant
            i <= args@.len(),
            first_given(args.deep_view(), 0) == first_given(args.deep_view(), i as int),
        decreases args@.len() - i,
    {
        proof {
            assert(args.deep_view()[i as int] == args@[i as int].deep_view());
        }
        match &args[i] {
            Value::Null => {},
            v => {
                return v.dup();
            },
        }
        i = i + 1;
    }
    Value::Null
}

/// The items of a list; none for any other value.
pub fn as_array(v: &Value) -> (r: Vec<Value>)
    ensures
        r.deep_view() == math_fns::items_of(v.deep_view()),
{
    match v {
        Value::List(a) => {
            proof {
                value::list_model(*a);
            }
            a.dup()
        },
        _ => {
            let none: Vec<Value> = Vec::new();
            proof {
                assert(none.deep_view() =~= Seq::<ValueModel>::empty());
            }
            none
        },
    }
}

fn list_value(items: Vec<Value>) -> (r: Value)
    ensures
        r.deep_view() == ValueModel::List(items.deep_view()),
{
    proof {
        value::list_model(items);
    }
    Value::List(items)
}

fn reversed(items: &Vec<Value>) -> (r: Vec<Value>)
    ensures
        r.deep_view() == items.deep_view().reverse(),
{
    let mut out: Vec<Value> = Vec::new();
    let n: usize = items.len();
    let mut i: usize = 0;
    while i < n
        invariant
            i <= n == items@.len(),
            out@.len() == i,
            forall|j: int| 0 <= j < i ==> (#[trigger] out@[j]).deep_view() == items@[n - 1 - j].deep_view(),
        decreases n - i,
    {
        out.push(items[n - 1 - i].dup());
        i = i + 1;
    }
    proof {
        assert(out.deep_view() =~= items.deep_view().reverse());
    }
    out
}

/// Every item can be read as a number.
pub open spec fn all_numeric(items: Seq<ValueModel>, o: Oracle) -> bool {
    forall|i: int|
        0 <= i < items.len() ==> (#[trigger] items[i]) is Number || !value::is_nan(coerce::number_of(items[i], o))
}

fn are_numeric<H: Fn(Ask) -> Answer>(items: &Vec<Value>, host: &H) -> (r: bool)
    requires
        host::faithful(*host),
    ensures
        r == all_numeric(items.deep_view(), host::oracle(*host)),
{
    let mut i: usize = 0;
    while i < items.len()
        invariant
            host::faithful(*host),
            i <= items@.len(),
            forall|j: int|
                0 <= j < i ==> (#[trigger] items.deep_view()[j]) is Number || !value::is_nan(
                    coerce::number_of(items.deep_view()[j], host::oracle(*host)),
                ),
        decreases items@.len() - i,
    {
        proof {
            assert(items.deep_view()[i as int] == items@[i as int].deep_view());
        }
        let is_number = match &items[i] {
            Value::Number(_) => true,
            _ => false,
        };
        if !is_number && bits_are_nan(to_number(&items[i], host)) {
            return false;
        }
        i = i + 1;
    }
    true
}

/// `a` sorts before `b`: as numbers, or as texts.
pub open spec fn sorts_before(a: ValueModel, b: ValueModel, as_numbers: bool, o: Oracle) -> bool {
    if as_numbers {
        coerce::standing(coerce::number_of(a, o), coerce::number_of(b, o), o) == Some(Standing::Less)
    } else {
        text::before(coerce::text_for(a, o), coerce::text_for(b, o))
    }
}

fn goes_before<H: Fn(Ask) -> Answer>(a: &Value, b: &Value, as_numbers: bool, host: &H) -> (r: bool)
    requires
        host::faithful(*host),
    ensures
        r == sorts_before(a.deep_view(), b.deep_view(), as_numbers, host::oracle(*host)),
{
    if as_numbers {
        match ask_standing(host, Ask::Compare(to_number(a, host), to_number(b, host))) {
            Some(Standing::Less) => true,
            _ => false,
        }
    } else {
        precedes(to_text(a, host).as_str(), to_text(b, host).as_str())
    }
}

/// Where `x` goes among the first `i` items: behind all that it does not sort
/// before.
pub open spec fn sorted_place(s: Seq<ValueModel>, x: ValueModel, i: int, as_numbers: bool, o: Oracle) -> int
    decreases i,
{
    if 0 < i <= s.len() && sorts_before(x, s[i - 1], as_numbers, o) {
        sorted_place(s, x, i - 1, as_numbers, o)
    } else {
        i
    }
}

/// The items in order; equal ones stay in the order that they had.
pub open spec fn in_order(items: Seq<ValueModel>, as_numbers: bool, o: Oracle) -> Seq<ValueModel>
    decreases items.len(),
{
    if items.len() == 0 {
        Seq::empty()
    } else {
        let s = in_order(items.drop_last(), as_numbers, o);
        s.insert(sorted_place(s, items.last(), s.len() as int, as_numbers, o), items.last())
    }
}

/// Sorting keeps every item as often as it occurs.
pub proof fn in_order_is_permutation(items: Seq<ValueModel>, as_numbers: bool, o: Oracle)
    ensures
        in_order(items, as_numbers, o).to_multiset() == items.to_multiset(),
        in_order(items, as_numbers, o).len() == items.len(),
    decreases items.len(),
{
    broadcast use vstd::seq_lib::group_to_multiset_ensures;

    if items.len() == 0 {
        assert(items =~= Seq::empty());
    } else {
        let s = in_order(items.drop_last(), as_numbers, o);
        in_order_is_permutation(items.drop_last(), as_numbers, o);
        sorted_place_facts(s, items.last(), s.len() as int, as_numbers, o);
        let k = sorted_place(s, items.last(), s.len() as int, as_numbers, o);
        vstd::seq_lib::to_multiset_insert(s, k, items.last());
        assert(items =~= items.drop_last().push(items.last()));
    }
}

/// The host compares doubles that are numbers as an order does: of two, not both
/// are less than the other, and what is not less than one that is not less than
/// a third is not less than the third.
pub open spec fn compares_in_order(o: Oracle) -> bool {
    forall|a: u64, b: u64, c: u64|
        #![trigger coerce::standing(a, b, o), coerce::standing(b, c, o)]
        !value::is_nan(a) && !value::is_nan(b) && !value::is_nan(c) ==> {
            &&& coerce::standing(a, b, o) == Some(Standing::Less) ==> coerce::standing(b, a, o) != Some(Standing::Less)
            &&& coerce::standing(a, b, o) != Some(Standing::Less) && coerce::standing(b, c, o) != Some(Standing::Less)
                ==> coerce::standing(a, c, o) != Some(Standing::Less)
        }
}

/// The value can be sorted: as a text always, as a number where it is one.
pub open spec fn sortable(v: ValueModel, as_numbers: bool, o: Oracle) -> bool {
    as_numbers ==> !value::is_nan(coerce::number_of(v, o))
}

/// Neither of two values sorts before the other.
pub open spec fn sort_alike(a: ValueModel, b: ValueModel, as_numbers: bool, o: Oracle) -> bool {
    !sorts_before(a, b, as_numbers, o) && !sorts_before(b, a, as_numbers, o)
}

proof fn sorts_before_facts(a: ValueModel, b: ValueModel, c: ValueModel, as_numbers: bool, o: Oracle)
    requires
        as_numbers ==> compares_in_order(o),
        sortable(a, as_numbers, o),
        sortable(b, as_numbers, o),
        sortable(c, as_numbers, o),
    ensures
        sorts_before(a, b, as_numbers, o) ==> !sorts_before(b, a, as_numbers, o),
        !sorts_before(a, b, as_numbers, o) && !sorts_before(b, c, as_numbers, o) ==> !sorts_before(
            a,
            c,
            as_numbers,
            o,
        ),
{
    if as_numbers {
        let (x, y, z) = (coerce::number_of(a, o), coerce::number_of(b, o), coerce::number_of(c, o));
        let by = coerce::standing(x, y, o);
        let on = coerce::standing(y, z, o);
        assert(by == Some(Standing::Less) ==> coerce::standing(y, x, o) != Some(Standing::Less));
    } else {
        let (x, y, z) = (coerce::text_for(a, o), coerce::text_for(b, o), coerce::text_for(c, o));
        text::before_is_total(x, y);
        text::before_is_total(y, z);
        text::before_is_total(x, z);
        if text::before(z, y) && text::before(y, x) {
            text::before_is_transitive(z, y, x);
        }
    }
}

proof fn sorted_place_facts(s: Seq<ValueModel>, x: ValueModel, i: int, as_numbers: bool, o: Oracle)
    requires
        0 <= i <= s.len(),
    ensures
        0 <= sorted_place(s, x, i, as_numbers, o) <= i,
        forall|j: int| sorted_place(s, x, i, as_numbers, o) <= j < i ==> sorts_before(x, #[trigger] s[j], as_numbers, o),
        0 < sorted_place(s, x, i, as_numbers, o) ==> !sorts_before(
            x,
            s[sorted_place(s, x, i, as_numbers, o) - 1],
            as_numbers,
            o,
        ),
    decreases i,
{
    if 0 < i && sorts_before(x, s[i - 1], as_numbers, o) {
        sorted_place_facts(s, x, i - 1, as_numbers, o);
    }
}

proof fn none_pass(s: Seq<ValueModel>, keep: spec_fn(ValueModel) -> bool)
    requires
        forall|i: int| 0 <= i < s.len() ==> !keep(#[trigger] s[i]),
    ensures
        s.filter(keep) == Seq::<ValueModel>::empty(),
    decreases s.len(),
{
    reveal(Seq::filter);
    if s.len() > 0 {
        assert forall|i: int| 0 <= i < s.drop_last().len() implies !keep(#[trigger] s.drop_last()[i]) by {
            assert(s.drop_last()[i] == s[i]);
        }
        none_pass(s.drop_last(), keep);
    } else {
        assert(s =~= Seq::<ValueModel>::empty());
    }
}

proof fn insertion_keeps_the_others(s: Seq<ValueModel>, k: int, x: ValueModel, keep: spec_fn(ValueModel) -> bool)
    requires
        0 <= k <= s.len(),
        keep(x) ==> forall|i: int| k <= i < s.len() ==> !keep(#[trigger] s[i]),
    ensures
        s.insert(k, x).filter(keep) == s.push(x).filter(keep),
{
    let front = s.take(k);
    let back = s.skip(k);
    let one = seq![x];
    assert(s.insert(k, x) =~= (front + one) + back);
    assert(s.push(x) =~= (front + back) + one);
    Seq::filter_distributes_over_add(front + one, back, keep);
    Seq::filter_distributes_over_add(front, one, keep);
    Seq::filter_distributes_over_add(front + back, one, keep);
    Seq::filter_distributes_over_add(front, back, keep);
    if keep(x) {
        assert forall|i: int| 0 <= i < back.len() implies !keep(#[trigger] back[i]) by {
            assert(back[i] == s[k + i]);
        }
        none_pass(back, keep);
        assert(back.filter(keep) =~= Seq::<ValueModel>::empty());
    } else {
        none_pass(one, keep);
    }
    assert(s.insert(k, x).filter(keep) =~= s.push(x).filter(keep));
}

proof fn sorting_keeps_sortable(items: Seq<ValueModel>, as_numbers: bool, o: Oracle)
    requires
        forall|i: int| 0 <= i < items.len() ==> sortable(#[trigger] items[i], as_numbers, o),
    ensures
        in_order(items, as_numbers, o).len() == items.len(),
        forall|i: int| 0 <= i < items.len() ==> sortable(#[trigger] in_order(items, as_numbers, o)[i], as_numbers, o),
    decreases items.len(),
{
    if items.len() > 0 {
        let fewer = items.drop_last();
        assert forall|i: int| 0 <= i < fewer.len() implies sortable(#[trigger] fewer[i], as_numbers, o) by {
            assert(fewer[i] == items[i]);
        }
        sorting_keeps_sortable(fewer, as_numbers, o);
        let s = in_order(fewer, as_numbers, o);
        let x = items.last();
        sorted_place_facts(s, x, s.len() as int, as_numbers, o);
        let k = sorted_place(s, x, s.len() as int, as_numbers, o);
        assert forall|i: int| 0 <= i < items.len() implies sortable(#[trigger] s.insert(k, x)[i], as_numbers, o) by {
            if i < k {
                assert(s.insert(k, x)[i] == s[i]);
            } else if i > k {
                assert(s.insert(k, x)[i] == s[i - 1]);
            } else {
                assert(x == items[items.len() - 1]);
            }
        }
    }
}

/// Sorted items stand in order, none sorting before an earlier one; and those
/// that sort alike stand in the order in which they came. Texts always do so,
/// numbers where the host compares them in order.
pub proof fn sorting_is_stable(items: Seq<ValueModel>, as_numbers: bool, o: Oracle, like: ValueModel)
    requires
        as_numbers ==> compares_in_order(o),
        sortable(like, as_numbers, o),
        forall|i: int| 0 <= i < items.len() ==> sortable(#[trigger] items[i], as_numbers, o),
    ensures
        forall|i: int, j: int|
            0 <= i < j < items.len() ==> !sorts_before(
                #[trigger] in_order(items, as_numbers, o)[j],
                #[trigger] in_order(items, as_numbers, o)[i],
                as_numbers,
                o,
            ),
        in_order(items, as_numbers, o).filter(|v: ValueModel| sort_alike(v, like, as_numbers, o)) == items.filter(
            |v: ValueModel| sort_alike(v, like, as_numbers, o),
        ),
    decreases items.len(),
{
    let keep = |v: ValueModel| sort_alike(v, like, as_numbers, o);
    if items.len() == 0 {
        assert(in_order(items, as_numbers, o) =~= items);
    } else {
        let fewer = items.drop_last();
        let x = items.last();
        assert(x == items[items.len() - 1]);
        assert forall|i: int| 0 <= i < fewer.len() implies sortable(#[trigger] fewer[i], as_numbers, o) by {
            assert(fewer[i] == items[i]);
        }
        sorting_is_stable(fewer, as_numbers, o, like);
        sorting_keeps_sortable(fewer, as_numbers, o);
        let s = in_order(fewer, as_numbers, o);
        sorted_place_facts(s, x, s.len() as int, as_numbers, o);
        let k = sorted_place(s, x, s.len() as int, as_numbers, o);
        let u = in_order(items, as_numbers, o);
        assert(u == s.insert(k, x));
        assert forall|i: int, j: int| 0 <= i < j < items.len() implies !sorts_before(
            #[trigger] u[j],
            #[trigger] u[i],
            as_numbers,
            o,
        ) by {
            if i < k && j == k {
                assert(u[i] == s[i] && u[j] == x);
                if i < k - 1 {
                    sorts_before_facts(x, s[k - 1], s[i], as_numbers, o);
                }
            } else if i == k {
                assert(u[i] == x && u[j] == s[j - 1]);
                sorts_before_facts(x, s[j - 1], x, as_numbers, o);
            } else {
                let a = if i < k { i } else { i - 1 };
                let b = if j < k { j } else { j - 1 };
                assert(u[i] == s[a] && u[j] == s[b]);
            }
        }
        if keep(x) {
            assert forall|i: int| k <= i < s.len() implies !keep(#[trigger] s[i]) by {
                sorts_before_facts(x, like, s[i], as_numbers, o);
            }
        }
        insertion_keeps_the_others(s, k, x, keep);
        reveal(Seq::filter);
        assert(s.push(x).drop_last() =~= s);
        assert(u.filter(keep) == items.filter(keep));
    }
}

fn sort_items<H: Fn(Ask) -> Answer>(items: &Vec<Value>, host: &H) -> (r: Vec<Value>)
    requires
        host::faithful(*host),
    ensures
        r.deep_view() == in_order(
            items.deep_view(),
            all_numeric(items.deep_view(), host::oracle(*host)),
            host::oracle(*host),
        ),
{
    let as_numbers = are_numeric(items, host);
    let ghost o = host::oracle(*host);
    let mut out: Vec<Value> = Vec::new();
    let mut i: usize = 0;
    proof {
        assert(items.deep_view().take(0) =~= Seq::<ValueModel>::empty());
        assert(out.deep_view() =~= Seq::<ValueModel>::empty());
    }
    while i < items.len()
        invariant
            host::faithful(*host),
            o == host::oracle(*host),
            i <= items@.len(),
            out.deep_view() == in_order(items.deep_view().take(i as int), as_numbers, o),
        decreases items@.len() - i,
    {
        let ghost had = out.deep_view();
        let ghost x = items@[i as int].deep_view();
        proof {
            assert(items.deep_view().take(i + 1).drop_last() =~= items.deep_view().take(i as int));
            assert(items.deep_view().take(i + 1).last() == x);
        }
        let mut k: usize = out.len();
        while k > 0 && goes_before(&items[i], &out[k - 1], as_numbers, host)
            invariant
                host::faithful(*host),
                o == host::oracle(*host),
                i < items@.len(),
                k <= out@.len(),
                had == out.deep_view(),
                x == items@[i as int].deep_view(),
                sorted_place(had, x, had.len() as int, as_numbers, o) == sorted_place(
                    had,
                    x,
                    k as int,
                    as_numbers,
                    o,
                ),
            decreases k,
        {
            proof {
                assert(had[k - 1] == out@[k - 1].deep_view());
            }
            k = k - 1;
        }
        proof {
            if k > 0 {
                assert(had[k - 1] == out@[k - 1].deep_view());
            }
        }
        let ghost before = out@;
        out.insert(k, items[i].dup());
        proof {
            assert forall|j: int| 0 <= j < out@.len() implies out.deep_view()[j] == had.insert(k as int, x)[j] by {
                if j < k {
                    assert(out@[j] == before[j]);
                } else if j > k {
                    assert(out@[j] == before[j - 1]);
                }
            }
            assert(out.deep_view() =~= had.insert(k as int, x));
        }
        i = i + 1;
    }
    proof {
        assert(items.deep_view().take(items@.len() as int) =~= items.deep_view());
    }
    out
}

fn slice_items<H: Fn(Ask) -> Answer>(args: &Vec<Value>, host: &H) -> (r: Vec<Value>)
    requires
        host::faithful(*host),
    ensures
        r.deep_view() == text_fns::span(
            math_fns::items_of(text_fns::arg(args.deep_view(), 0)),
            args.deep_view(),
            host::oracle(*host),
        ),
{
    let items = as_array(&argument(args, 0));
    let (start, end) = span_bounds(args, items.len(), host);
    let mut out: Vec<Value> = Vec::new();
    let mut i: usize = start;
    while i < end
        invariant
            start <= i,
            end <= items@.len(),
            start < end ==> i <= end,
            end <= start ==> i == start,
            out@.len() == i - start,
            forall|j: int| 0 <= j < i - start ==> (#[trigger] out@[j]).deep_view() == items@[start + j].deep_view(),
        decreases end - i,
    {
        out.push(items[i].dup());
        i = i + 1;
    }
    proof {
        if end <= start {
            assert(out.deep_view() =~= Seq::<ValueModel>::empty());
        } else {
            assert(out.deep_view() =~= items.deep_view().subrange(start as int, end as int));
        }
    }
    out
}

/// The keys of a dictionary as a list; none for any other value.
pub open spec fn keys_value(v: ValueModel) -> ValueModel {
    match v {
        ValueModel::Dict(t) => ValueModel::List(t.map_values(|e: (Seq<char>, ValueModel)| ValueModel::Text(e.0))),
        _ => ValueModel::List(Seq::empty()),
    }
}

/// The values of a dictionary as a list, a list as it is; none for any other
/// value.
pub open spec fn values_value(v: ValueModel) -> ValueModel {
    match v {
        ValueModel::Dict(t) => ValueModel::List(t.map_values(|e: (Seq<char>, ValueModel)| e.1)),
        ValueModel::List(s) => ValueModel::List(s),
        _ => ValueModel::List(Seq::empty()),
    }
}

/// The entries of a dictionary as a list of pairs; none for any other value.
pub open spec fn entries_value(v: ValueModel) -> ValueModel {
    match v {
        ValueModel::Dict(t) => ValueModel::List(
            t.map_values(|e: (Seq<char>, ValueModel)| ValueModel::List(seq![ValueModel::Text(e.0), e.1])),
        ),
        _ => ValueModel::List(Seq::empty()),
    }
}

fn keys(v: &Value) -> (r: Value)
    ensures
        r.deep_view() == keys_value(v.deep_view()),
{
    let mut out: Vec<Value> = Vec::new();
    if let Value::Dict(t) = v {
        proof {
            value::dict_model(*t);
        }
        let mut i: usize = 0;
        while i < t.entries.len()
            invariant
                i <= t.entries@.len(),
                out@.len() == i,
                forall|j: int|
                    0 <= j < i ==> (#[trigger] out@[j]).deep_view() == ValueModel::Text(t.deep_view()[j].0),
            decreases t.entries@.len() - i,
        {
            out.push(Value::Text(t.entries[i].0.clone()));
            i = i + 1;
        }
        proof {
            assert(out.deep_view() =~= keys_value(v.deep_view())->List_0);
        }
        return list_value(out);
    }
    proof {
        assert(out.deep_view() =~= Seq::<ValueModel>::empty());
    }
    list_value(out)
}

fn values(v: &Value) -> (r: Value)
    ensures
        r.deep_view() == values_value(v.deep_view()),
{
    let mut out: Vec<Value> = Vec::new();
    match v {
        Value::Dict(t) => {
            proof {
                value::dict_model(*t);
            }
            let mut i: usize = 0;
            while i < t.entries.len()
                invariant
                    i <= t.entries@.len(),
                    out@.len() == i,
                    forall|j: int| 0 <= j < i ==> (#[trigger] out@[j]).deep_view() == t.deep_view()[j].1,
                decreases t.entries@.len() - i,
            {
                out.push(t.entries[i].1.dup());
                i = i + 1;
            }
            proof {
                assert(out.deep_view() =~= values_value(v.deep_view())->List_0);
            }
            list_value(out)
        },
        Value::List(a) => {
            proof {
                value::list_model(*a);
            }
            list_value(a.dup())
        },
        _ => {
            proof {
                assert(out.deep_view() =~= Seq::<ValueModel>::empty());
            }
            list_value(out)
        },
    }
}

fn entries(v: &Value) -> (r: Value)
    ensures
        r.deep_view() == entries_value(v.deep_view()),
{
    let mut out: Vec<Value> = Vec::new();
    if let Value::Dict(t) = v {
        proof {
            value::dict_model(*t);
        }
        let mut i: usize = 0;
        while i < t.entries.len()
            invariant
                i <= t.entries@.len(),
                out@.len() == i,
                forall|j: int|
                    0 <= j < i ==> (#[trigger] out@[j]).deep_view() == ValueModel::List(
                        seq![ValueModel::Text(t.deep_view()[j].0), t.deep_view()[j].1],
                    ),
            decreases t.entries@.len() - i,
        {
            let mut pair: Vec<Value> = Vec::new();
            pair.push(Value::Text(t.entries[i].0.clone()));
            pair.push(t.entries[i].1.dup());
            proof {
                assert(pair.deep_view() =~= seq![
                    ValueModel::Text(t.deep_view()[i as int].0),
                    t.deep_view()[i as int].1,
                ]);
            }
            out.push(list_value(pair));
            i = i + 1;
        }
        proof {
            assert(out.deep_view() =~= entries_value(v.deep_view())->List_0);
        }
        return list_value(out);
    }
    proof {
        assert(out.deep_view() =~= Seq::<ValueModel>::empty());
    }
    list_value(out)
}

/// The first dictionary with the entries of the second stored in it.
pub open spec fn merged(t: Seq<(Seq<char>, ValueModel)>, u: Seq<(Seq<char>, ValueModel)>) -> Seq<(Seq<char>, ValueModel)>
    decreases u.len(),
{
    if u.len() == 0 {
        t
    } else {
        table::put(merged(t, u.drop_last()), u.last().0, u.last().1)
    }
}

/// The entries of a dictionary; none for any other value.
pub open spec fn entries_of(v: ValueModel) -> Seq<(Seq<char>, ValueModel)> {
    match v {
        ValueModel::Dict(t) => t,
        _ => Seq::empty(),
    }
}

fn table_of(v: &Value) -> (r: Table<Value>)
    ensures
        r.deep_view() == entries_of(v.deep_view()),
{
    match v {
        Value::Dict(t) => {
            proof {
                value::dict_model(*t);
            }
            t.dup()
        },
        _ => Table::new(),
    }
}

fn merge(a: &Value, b: &Value) -> (r: Value)
    ensures
        r.deep_view() == ValueModel::Dict(merged(entries_of(a.deep_view()), entries_of(b.deep_view()))),
{
    let mut out = table_of(a);
    let added = table_of(b);
    let ghost t = out.deep_view();
    let ghost u = added.deep_view();
    let mut i: usize = 0;
    proof {
        assert(u.take(0) =~= Seq::<(Seq<char>, ValueModel)>::empty());
    }
    while i < added.entries.len()
        invariant
            i <= added.entries@.len(),
            u == added.deep_view(),
            out.deep_view() == merged(t, u.take(i as int)),
        decreases added.entries@.len() - i,
    {
        proof {
            assert(u.take(i + 1).drop_last() =~= u.take(i as int));
            assert(u.take(i + 1).last() == added.entries@[i as int].deep_view());
        }
        out.insert(added.entries[i].0.clone(), added.entries[i].1.dup());
        i = i + 1;
    }
    proof {
        assert(u.take(u.len() as int) =~= u);
        value::dict_model(out);
    }
    Value::Dict(out)
}

/// The functions on lists, dictionaries and any value; nothing for a name that
/// is none of them.
pub open spec fn list_call(name: Seq<char>, args: Seq<ValueModel>, o: Oracle) -> Option<ValueModel> {
    let a = text_fns::arg(args, 0);
    let items = math_fns::items_of(a);
    if name == "bool"@ {
        Some(ValueModel::Bool(value::is_truthy(a)))
    } else if name == "type"@ {
        Some(ValueModel::Text(kind_name(a)))
    } else if name == "coalesce"@ {
        Some(first_given(args, 0))
    } else if name == "first"@ {
        Some(text_fns::arg(items, 0))
    } else if name == "last"@ {
        Some(text_fns::arg(items, items.len() - 1))
    } else if name == "reverse"@ {
        Some(ValueModel::List(items.reverse()))
    } else if name == "sort"@ {
        Some(ValueModel::List(in_order(items, all_numeric(items, o), o)))
    } else if name == "slice"@ {
        Some(ValueModel::List(text_fns::span(items, args, o)))
    } else if name == "keys"@ {
        Some(keys_value(a))
    } else if name == "values"@ {
        Some(values_value(a))
    } else if name == "entries"@ {
        Some(entries_value(a))
    } else if name == "merge"@ {
        Some(ValueModel::Dict(merged(entries_of(a), entries_of(text_fns::arg(args, 1)))))
    } else if name == "get"@ {
        let found = coerce::part(a, text_fns::arg(args, 1), o);
        Some(
            if found is Null && args.len() >= 3 {
                text_fns::arg(args, 2)
            } else {
                found
            },
        )
    } else {
        None
    }
}

/// Calls a function on lists, dictionaries or any value.
pub fn call_list<H: Fn(Ask) -> Answer>(name: &str, args: &Vec<Value>, host: &H) -> (r: Option<Value>)
    requires
        host::faithful(*host),
    ensures
        r.deep_view() == list_call(name@, args.deep_view(), host::oracle(*host)),
{
    if same(name, "bool") {
        Some(Value::Bool(truthy(&argument(args, 0))))
    } else if same(name, "type") {
        Some(Value::Text(name_kind(&argument(args, 0))))
    } else if same(name, "coalesce") {
        Some(coalesce(args))
    } else if same(name, "first") {
        Some(argument(&as_array(&argument(args, 0)), 0))
    } else if same(name, "last") {
        let items = as_array(&argument(args, 0));
        if items.len() == 0 {
            Some(Value::Null)
        } else {
            Some(items[items.len() - 1].dup())
        }
    } else if same(name, "reverse") {
        Some(list_value(reversed(&as_array(&argument(args, 0)))))
    } else if same(name, "sort") {
        Some(list_value(sort_items(&as_array(&argument(args, 0)), host)))
    } else if same(name, "slice") {
        Some(list_value(slice_items(args, host)))
    } else if same(name, "keys") {
        Some(keys(&argument(args, 0)))
    } else if same(name, "values") {
        Some(values(&argument(args, 0)))
    } else if same(name, "entries") {
        Some(entries(&argument(args, 0)))
    } else if same(name, "merge") {
        Some(merge(&argument(args, 0), &argument(args, 1)))
    } else if same(name, "get") {
        let found = index_value(&argument(args, 0), &argument(args, 1), host);
        let missing = match &found {
            Value::Null => true,
            _ => false,
        };
        if missing && args.len() >= 3 {
            Some(argument(args, 2))
        } else {
            Some(found)
        }
    } else {
        None
    }
}

proof fn names_differ()
    ensures
        "type"@ != "bool"@,
        "coalesce"@ != "bool"@ && "coalesce"@ != "type"@,
        "first"@ != "bool"@ && "first"@ != "type"@ && "first"@ != "coalesce"@,
        "last"@ != "bool"@ && "last"@ != "type"@ && "last"@ != "coalesce"@ && "last"@ != "first"@,
        "reverse"@ != "bool"@ && "reverse"@ != "type"@ && "reverse"@ != "coalesce"@ && "reverse"@ != "first"@ &&
            "reverse"@ != "last"@,
        "sort"@ != "bool"@ && "sort"@ != "type"@ && "sort"@ != "coalesce"@ && "sort"@ != "first"@ && "sort"@ !=
            "last"@ && "sort"@ != "reverse"@,
        "slice"@ != "bool"@ && "slice"@ != "type"@ && "slice"@ != "coalesce"@ && "slice"@ != "first"@ &&
            "slice"@ != "last"@ && "slice"@ != "reverse"@ && "slice"@ != "sort"@,
        "keys"@ != "bool"@ && "keys"@ != "type"@ && "keys"@ != "coalesce"@ && "keys"@ != "first"@ && "keys"@ !=
            "last"@ && "keys"@ != "reverse"@ && "keys"@ != "sort"@ && "keys"@ != "slice"@,
        "values"@ != "bool"@ && "values"@ != "type"@ && "values"@ != "coalesce"@ && "values"@ != "first"@ &&
            "values"@ != "last"@ && "values"@ != "reverse"@ && "values"@ != "sort"@ && "values"@ != "slice"@ &&
            "values"@ != "keys"@,
        "entries"@ != "bool"@ && "entries"@ != "type"@ && "entries"@ != "coalesce"@ && "entries"@ != "first"@ &&
            "entries"@ != "last"@ && "entries"@ != "reverse"@ && "entries"@ != "sort"@ && "entries"@ != "slice"@
            && "entries"@ != "keys"@ && "entries"@ != "values"@,
        "merge"@ != "bool"@ && "merge"@ != "type"@ && "merge"@ != "coalesce"@ && "merge"@ != "first"@ &&
            "merge"@ != "last"@ && "merge"@ != "reverse"@ && "merge"@ != "sort"@ && "merge"@ != "slice"@ &&
            "merge"@ != "keys"@ && "merge"@ != "values"@ && "merge"@ != "entries"@,
        "get"@ != "bool"@ && "get"@ != "type"@ && "get"@ != "coalesce"@ && "get"@ != "first"@ && "get"@ !=
            "last"@ && "get"@ != "reverse"@ && "get"@ != "sort"@ && "get"@ != "slice"@ && "get"@ != "keys"@ &&
            "get"@ != "values"@ && "get"@ != "entries"@ && "get"@ != "merge"@,
{
    reveal_strlit("bool");
    reveal_strlit("type");
    reveal_strlit("coalesce");
    reveal_strlit("first");
    reveal_strlit("last");
    reveal_strlit("reverse");
    reveal_strlit("sort");
    reveal_strlit("slice");
    reveal_strlit("keys");
    reveal_strlit("values");
    reveal_strlit("entries");
    reveal_strlit("merge");
    reveal_strlit("get");
    assert("bool"@.len() == 4 && "bool"@[0] == 'b' && "bool"@[1] == 'o');
    assert("type"@.len() == 4 && "type"@[0] == 't' && "type"@[1] == 'y');
    assert("coalesce"@.len() == 8 && "coalesce"@[0] == 'c' && "coalesce"@[1] == 'o' && "coalesce"@[4] == 'e');
    assert("first"@.len() == 5 && "first"@[0] == 'f' && "first"@[1] == 'i' && "first"@[4] == 't');
    assert("last"@.len() == 4 && "last"@[0] == 'l' && "last"@[1] == 'a');
    assert("reverse"@.len() == 7 && "reverse"@[0] == 'r' && "reverse"@[1] == 'e' && "reverse"@[4] == 'r');
    assert("sort"@.len() == 4 && "sort"@[0] == 's' && "sort"@[1] == 'o');
    assert("slice"@.len() == 5 && "slice"@[0] == 's' && "slice"@[1] == 'l' && "slice"@[4] == 'e');
    assert("keys"@.len() == 4 && "keys"@[0] == 'k' && "keys"@[1] == 'e');
    assert("values"@.len() == 6 && "values"@[0] == 'v' && "values"@[1] == 'a' && "values"@[4] == 'e');
    assert("entries"@.len() == 7 && "entries"@[0] == 'e' && "entries"@[1] == 'n' && "entries"@[4] == 'i');
    assert("merge"@.len() == 5 && "merge"@[0] == 'm' && "merge"@[1] == 'e' && "merge"@[4] == 'e');
    assert("get"@.len() == 3 && "get"@[0] == 'g' && "get"@[1] == 'e');
}

/// `first` and `last` give the ends of a list, and nothing of an empty one;
/// `reverse` turns a list round, and twice gives it back.
pub proof fn lists_have_two_ends(items: Seq<ValueModel>, o: Oracle, i: int)
    ensures
        items.len() > 0 ==> list_call("first"@, seq![ValueModel::List(items)], o) == Some(items[0]),
        items.len() > 0 ==> list_call("last"@, seq![ValueModel::List(items)], o) == Some(items[items.len() - 1]),
        list_call("first"@, seq![ValueModel::List(Seq::empty())], o) == Some(ValueModel::Null),
        list_call("last"@, seq![ValueModel::List(Seq::empty())], o) == Some(ValueModel::Null),
        list_call("reverse"@, seq![ValueModel::List(items)], o) matches Some(ValueModel::List(turned)) && turned.len()
            == items.len() && (0 <= i < items.len() ==> turned[i] == items[items.len() - 1 - i]) && list_call(
            "reverse"@,
            seq![ValueModel::List(turned)],
            o,
        ) == Some(ValueModel::List(items)),
{
    names_differ();
    assert(items.reverse().reverse() =~= items);
}

/// `bool` tells whether a value counts as true, `type` the kind of it in a word
/// of its own, and `coalesce` gives the first operand that is not nothing.
pub proof fn values_tell_their_kind(v: ValueModel, w: ValueModel, o: Oracle)
    ensures
        list_call("bool"@, seq![v], o) == Some(ValueModel::Bool(value::is_truthy(v))),
        list_call("type"@, seq![v], o) matches Some(ValueModel::Text(kind)) && {
            &&& v is Null ==> kind == "null"@
            &&& v is Bool ==> kind == "boolean"@
            &&& v is Number ==> kind == "number"@
            &&& v is Text ==> kind == "text"@
            &&& v is List ==> kind == "array"@
            &&& v is Dict ==> kind == "dictionary"@
        },
        !(v is Null) ==> list_call("coalesce"@, seq![v, w], o) == Some(v),
        v is Null ==> list_call("coalesce"@, seq![v, w], o) == Some(w),
{
    names_differ();
    reveal_with_fuel(first_given, 3);
}

/// `slice` gives the items from the first place up to the second, the second
/// left out.
pub proof fn slices_run_between_their_places(items: Seq<ValueModel>, o: Oracle, x: u64, y: u64, from: u64, to: u64)
    requires
        o(AskModel::Whole(x)) == AnswerModel::Whole(from),
        o(AskModel::Whole(y)) == AnswerModel::Whole(to),
        from <= to <= items.len(),
    ensures
        list_call(
            "slice"@,
            seq![
                ValueModel::List(items),
                ValueModel::Number(Number::Float(x)),
                ValueModel::Number(Number::Float(y)),
            ],
            o,
        ) == Some(ValueModel::List(items.subrange(from as int, to as int))),
        list_call("slice"@, seq![ValueModel::List(items), ValueModel::Number(Number::Float(x))], o) == Some(
            ValueModel::List(items.skip(from as int)),
        ),
{
    names_differ();
    assert(items.subrange(from as int, items.len() as int) =~= items.skip(from as int));
    assert(items.skip(items.len() as int) =~= Seq::<ValueModel>::empty());
    if from == to {
        assert(items.subrange(from as int, to as int) =~= Seq::<ValueModel>::empty());
    }
}

/// `keys` lists the names of a dictionary, `values` what stands under them and
/// `entries` the pairs of both, each in the same order.
pub proof fn dictionaries_are_listed(t: Seq<(Seq<char>, ValueModel)>, items: Seq<ValueModel>, o: Oracle, i: int)
    requires
        0 <= i < t.len(),
    ensures
        list_call("keys"@, seq![ValueModel::Dict(t)], o) matches Some(ValueModel::List(keys)) && keys.len() == t.len()
            && keys[i] == ValueModel::Text(t[i].0),
        list_call("values"@, seq![ValueModel::Dict(t)], o) matches Some(ValueModel::List(values)) && values.len()
            == t.len() && values[i] == t[i].1,
        list_call("entries"@, seq![ValueModel::Dict(t)], o) matches Some(ValueModel::List(pairs)) && pairs.len()
            == t.len() && pairs[i] == ValueModel::List(seq![ValueModel::Text(t[i].0), t[i].1]),
        list_call("values"@, seq![ValueModel::List(items)], o) == Some(ValueModel::List(items)),
        list_call("keys"@, seq![ValueModel::List(items)], o) == Some(ValueModel::List(Seq::empty())),
{
    names_differ();
}

/// Two dictionaries merged hold under every name what the second holds there,
/// and else what the first does.
pub proof fn the_second_dictionary_prevails(
    t: Seq<(Seq<char>, ValueModel)>,
    u: Seq<(Seq<char>, ValueModel)>,
    o: Oracle,
    key: Seq<char>,
)
    requires
        table::sorted(u),
    ensures
        list_call("merge"@, seq![ValueModel::Dict(t), ValueModel::Dict(u)], o) matches Some(ValueModel::Dict(both))
            && table::lookup(both, key) == match table::lookup(u, key) {
            Some(v) => Some(v),
            None => table::lookup(t, key),
        },
{
    names_differ();
    merging_prefers_the_second(t, u, key);
}

proof fn merging_prefers_the_second(
    t: Seq<(Seq<char>, ValueModel)>,
    u: Seq<(Seq<char>, ValueModel)>,
    key: Seq<char>,
)
    requires
        table::sorted(u),
    ensures
        table::lookup(merged(t, u), key) == match table::lookup(u, key) {
            Some(v) => Some(v),
            None => table::lookup(t, key),
        },
    decreases u.len(),
{
    table::place_from_facts(u, key, 0);
    if u.len() > 0 {
        let rest = u.drop_last();
        let last = u.last();
        merging_prefers_the_second(t, rest, key);
        table::place_from_facts(rest, key, 0);
        table::put_then_lookup(merged(t, rest), last.0, last.1, key);
        if key == last.0 {
            assert forall|j: int| 0 <= j < u.len() - 1 implies (#[trigger] u[j]).0 != key by {
                text::before_is_total(key, key);
                assert(text::before(u[j].0, u[u.len() - 1].0));
            }
            table::place_from_is(u, key, 0, u.len() - 1);
        } else if let Some(i) = table::place_from(rest, key, 0) {
            assert forall|j: int| 0 <= j < i implies (#[trigger] u[j]).0 != key by {
                assert(rest[j].0 != key);
            }
            assert(u[i] == rest[i]);
            table::place_from_is(u, key, 0, i);
        } else {
            assert forall|j: int| 0 <= j < u.len() implies (#[trigger] u[j]).0 != key by {
                if j < rest.len() {
                    assert(rest[j].0 != key);
                }
            }
            table::place_from_none(u, key, 0);
        }
    }
}

/// `get` gives the part of a value, or what is given for the case that there is
/// none.
pub proof fn missing_parts_have_a_stand_in(
    t: Seq<(Seq<char>, ValueModel)>,
    key: Seq<char>,
    v: ValueModel,
    w: ValueModel,
    o: Oracle,
)
    ensures
        table::lookup(t, key) == Some(v) && !(v is Null) ==> list_call(
            "get"@,
            seq![ValueModel::Dict(t), ValueModel::Text(key), w],
            o,
        ) == Some(v),
        table::lookup(t, key) is None ==> list_call("get"@, seq![ValueModel::Dict(t), ValueModel::Text(key), w], o)
            == Some(w),
        table::lookup(t, key) is None ==> list_call("get"@, seq![ValueModel::Dict(t), ValueModel::Text(key)], o) == Some(
            ValueModel::Null,
        ),
{
    names_differ();
}

/// `sort` keeps the items and puts them in order: as texts where one of them
/// is a text that is no number, so that of any two the later never comes before
/// the earlier; else as numbers, so that the later is never less.
pub proof fn sorted_lists_ascend(items: Seq<ValueModel>, o: Oracle, k: int, x: Seq<char>, i: int, j: int)
    requires
        0 <= k < items.len(),
        0 <= i < j < items.len(),
    ensures
        list_call("sort"@, seq![ValueModel::List(items)], o) matches Some(ValueModel::List(s)) && s.to_multiset()
            == items.to_multiset(),
        items[k] == ValueModel::Text(x) && o(AskModel::Parse(text::trimmed(x))) == AnswerModel::Bits(None) ==> (
        list_call("sort"@, seq![ValueModel::List(items)], o) matches Some(ValueModel::List(s)) && !text::before(
            coerce::text_for(s[j], o),
            coerce::text_for(s[i], o),
        )),
        compares_in_order(o) && (forall|m: int|
            0 <= m < items.len() ==> (#[trigger] items[m]) is Number && !value::is_nan(coerce::number_of(items[m], o)))
            ==> (list_call("sort"@, seq![ValueModel::List(items)], o) matches Some(ValueModel::List(s)) && o(
            AskModel::Compare(coerce::number_of(s[j], o), coerce::number_of(s[i], o)),
        ) != AnswerModel::Standing(Some(Standing::Less))),
{
    names_differ();
    let as_numbers = all_numeric(items, o);
    in_order_is_permutation(items, as_numbers, o);
    if items[k] == ValueModel::Text(x) && o(AskModel::Parse(text::trimmed(x))) == AnswerModel::Bits(None) {
        assert(!as_numbers) by {
            if as_numbers {
                assert(items[k] is Number || !value::is_nan(coerce::number_of(items[k], o)));
            }
        }
        sorting_is_stable(items, false, o, items[k]);
        assert(!sorts_before(in_order(items, false, o)[j], in_order(items, false, o)[i], false, o));
    }
    if compares_in_order(o) && (forall|m: int|
        0 <= m < items.len() ==> (#[trigger] items[m]) is Number && !value::is_nan(coerce::number_of(items[m], o))) {
        assert(as_numbers);
        sorting_is_stable(items, true, o, items[k]);
        assert(!sorts_before(in_order(items, true, o)[j], in_order(items, true, o)[i], true, o));
    }
}

} // verus!
