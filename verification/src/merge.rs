//! Requests that change some fields and leave others.

use vstd::prelude::*;

use crate::text;
use crate::text::trim;
use crate::time;
use crate::time::optional_label;
use crate::unicode;
use crate::unicode::to_uppercase;

verus! {

/// What is given, or else what there was.
pub open spec fn either<A>(given: Option<A>, was: A) -> A {
    match given {
        Some(x) => x,
        None => was,
    }
}

/// What is given, or else what there was.
pub fn given_or<T: DeepView>(given: Option<T>, was: T) -> (r: T)
    ensures
        r.deep_view() == either(given.deep_view(), was.deep_view()),
{
    match given {
        Some(x) => x,
        None => was,
    }
}

/// What there was, unless it is to be cleared.
pub open spec fn cleared_if<A>(clear: bool, was: Option<A>) -> Option<A> {
    if clear {
        None
    } else {
        was
    }
}

/// What there was, unless it is to be cleared.
pub fn clear_if<T: DeepView>(clear: bool, was: Option<T>) -> (r: Option<T>)
    ensures
        r.deep_view() == cleared_if(clear, was.deep_view()),
{
    if clear {
        None
    } else {
        was
    }
}

/// The given text without outer white space, or else what there was.
pub open spec fn trimmed_or(given: Option<Seq<char>>, was: Seq<char>) -> Seq<char> {
    match given {
        Some(x) => text::trimmed(x),
        None => was,
    }
}

/// The given text without outer white space, or else what there was.
pub fn trim_or(given: Option<String>, was: String) -> (r: String)
    ensures
        r@ == trimmed_or(given.deep_view(), was@),
{
    match given {
        Some(x) => trim(x.as_str()),
        None => was,
    }
}

/// The given text in upper case, or else what there was.
pub open spec fn uppercase_or(given: Option<Seq<char>>, was: Seq<char>) -> Seq<char> {
    match given {
        Some(x) => unicode::uppercase(x),
        None => was,
    }
}

/// The given text in upper case, or else what there was.
pub fn upper_or(given: Option<String>, was: String) -> (r: String)
    ensures
        r@ == uppercase_or(given.deep_view(), was@),
{
    match given {
        Some(x) => to_uppercase(x.as_str()),
        None => was,
    }
}

/// The given label, or else what there was; an empty one clears it.
pub open spec fn label_or(given: Option<Option<Seq<char>>>, was: Option<Seq<char>>) -> Option<Seq<char>> {
    match given {
        Some(x) => time::label_in(x),
        None => was,
    }
}

/// The given label, or else what there was; an empty one clears it.
pub fn relabel(given: Option<Option<String>>, was: Option<String>) -> (r: Option<String>)
    ensures
        r.deep_view() == label_or(given.deep_view(), was.deep_view()),
{
    match given {
        Some(x) => optional_label(x),
        None => was,
    }
}

/// What is given prevails, and where nothing is given what was stays: as it is,
/// without the space round it, in capitals, or as a label that is none where it
/// is empty. What is to be cleared is, and else stays.
pub proof fn what_is_given_prevails<A>(
    given: A,
    was: A,
    s: Seq<char>,
    t: Seq<char>,
    label: Option<Seq<char>>,
    error: Option<A>,
)
    ensures
        either(Some(given), was) == given,
        either(None, was) == was,
        cleared_if(true, error) is None,
        cleared_if(false, error) == error,
        trimmed_or(Some(s), t) == text::trimmed(s),
        trimmed_or(None, t) == t,
        uppercase_or(Some(s), t) == unicode::uppercase(s),
        uppercase_or(None, t) == t,
        label_or(None, label) == label,
        label_or(Some(None), label) is None,
        text::trimmed(s).len() > 0 ==> label_or(Some(Some(s)), label) == Some(text::trimmed(s)),
        text::trimmed(s).len() == 0 ==> label_or(Some(Some(s)), label) is None,
{
}

} // verus!
