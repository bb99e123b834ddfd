//! Lists: what stands in them, what occurs once, and the order of named things.

use vstd::prelude::*;

use crate::text;
use crate::text::{precedes, same};

verus! {

/// `s` with only the first of equal items kept.
pub open spec fn distinct<A>(s: Seq<A>) -> Seq<A>
    decreases s.len(),
{
    if s.len() == 0 {
        Seq::empty()
    } else {
        let d = distinct(s.drop_last());
        if d.contains(s.last()) {
            d
        } else {
            d.push(s.last())
        }
    }
}

/// What is kept holds every item of the list, nothing else, and none twice.
pub proof fn distinct_holds_each_once<A>(s: Seq<A>)
    ensures
        distinct(s).no_duplicates(),
        forall|x: A| #[trigger] distinct(s).contains(x) <==> s.contains(x),
    decreases s.len(),
{
    if s.len() > 0 {
        let d = distinct(s.drop_last());
        distinct_holds_each_once(s.drop_last());
        assert(s =~= s.drop_last().push(s.last()));
        assert forall|x: A| #[trigger] distinct(s).contains(x) <==> s.contains(x) by {
            push_contains(s.drop_last(), s.last(), x);
            push_contains(d, s.last(), x);
            assert(d.contains(x) <==> s.drop_last().contains(x));
        }
    }
}

/// What a list with one more item holds.
pub proof fn push_contains<A>(s: Seq<A>, y: A, x: A)
    ensures
        s.push(y).contains(x) <==> s.contains(x) || x == y,
{
    let u = s.push(y);
    if s.contains(x) {
        let i = choose|i: int| 0 <= i < s.len() && s[i] == x;
        assert(u[i] == x);
    }
    if x == y {
        assert(u[s.len() as int] == x);
    }
    if u.contains(x) {
        let i = choose|i: int| 0 <= i < u.len() && u[i] == x;
        if i < s.len() {
            assert(s[i] == x);
        }
    }
}

/// What is filtered out of one item more.
pub proof fn filter_step<A>(s: Seq<A>, keep: spec_fn(A) -> bool, i: int)
    requires
        0 <= i < s.len(),
    ensures
        s.take(i + 1).filter(keep) == (if keep(s[i]) {
            s.take(i).filter(keep).push(s[i])
        } else {
            s.take(i).filter(keep)
        }),
{
    reveal(Seq::filter);
    assert(s.take(i + 1).drop_last() =~= s.take(i));
}

/// What is filtered out of a list is what it holds of that kind.
pub proof fn filter_holds<A>(s: Seq<A>, keep: spec_fn(A) -> bool, x: A)
    ensures
        s.filter(keep).contains(x) <==> s.contains(x) && keep(x),
    decreases s.len(),
{
    reveal(Seq::filter);
    if s.len() > 0 {
        filter_holds(s.drop_last(), keep, x);
        assert(s =~= s.drop_last().push(s.last()));
        push_contains(s.drop_last(), s.last(), x);
        push_contains(s.drop_last().filter(keep), s.last(), x);
    }
}

/// Whether `items` holds the text `x`.
pub fn has_text(items: &Vec<String>, x: &str) -> (b: bool)
    ensures
        b == items.deep_view().contains(x@),
{
    let mut i: usize = 0;
    while i < items.len()
        invariant
            i <= items@.len(),
            forall|j: int| 0 <= j < i ==> #[trigger] items.deep_view()[j] != x@,
        decreases items@.len() - i,
    {
        proof {
            assert(items.deep_view()[i as int] == items@[i as int]@);
        }
        if same(items[i].as_str(), x) {
            return true;
        }
        i = i + 1;
    }
    false
}

/// A thing that lists show by its name, and among equal names by when it was
/// made.
pub trait Listed: DeepView + Sized {
    spec fn listed_name(m: Self::V) -> Seq<char>;

    spec fn listed_stamp(m: Self::V) -> u128;

    /// The name that it is listed by.
    fn name_of(&self) -> (s: &str)
        ensures
            s@ == Self::listed_name(self.deep_view()),
    ;

    /// When it was made.
    fn stamp_of(&self) -> (n: u128)
        ensures
            n == Self::listed_stamp(self.deep_view()),
    ;
}

/// `a` is listed before `b`, whatever order they came in.
pub open spec fn listed_before<T: Listed>(a: T::V, b: T::V) -> bool {
    text::before(T::listed_name(a), T::listed_name(b)) || (T::listed_name(a) == T::listed_name(b)
        && T::listed_stamp(a) < T::listed_stamp(b))
}

/// The place among the first `n` of `s` at which `x` goes: behind everything
/// that it is not listed before.
pub open spec fn listed_place<T: Listed>(s: Seq<T::V>, x: T::V, n: int) -> int
    decreases n,
{
    if 0 < n && listed_before::<T>(x, s[n - 1]) {
        listed_place::<T>(s, x, n - 1)
    } else {
        n
    }
}

/// `items` as they are listed; equal ones stay in the order in which they came.
pub open spec fn listing<T: Listed>(items: Seq<T::V>) -> Seq<T::V>
    decreases items.len(),
{
    if items.len() == 0 {
        Seq::empty()
    } else {
        let s = listing::<T>(items.drop_last());
        s.insert(listed_place::<T>(s, items.last(), s.len() as int), items.last())
    }
}

proof fn listed_place_facts<T: Listed>(s: Seq<T::V>, x: T::V, n: int)
    requires
        0 <= n <= s.len(),
    ensures
        0 <= listed_place::<T>(s, x, n) <= n,
        forall|i: int| listed_place::<T>(s, x, n) <= i < n ==> listed_before::<T>(x, #[trigger] s[i]),
        0 < listed_place::<T>(s, x, n) ==> !listed_before::<T>(x, s[listed_place::<T>(s, x, n) - 1]),
    decreases n,
{
    if 0 < n && listed_before::<T>(x, s[n - 1]) {
        listed_place_facts::<T>(s, x, n - 1);
    }
}

proof fn listed_before_facts<T: Listed>(a: T::V, b: T::V, c: T::V)
    ensures
        listed_before::<T>(a, b) ==> !listed_before::<T>(b, a),
        listed_before::<T>(a, b) && !listed_before::<T>(c, b) ==> !listed_before::<T>(c, a),
        !listed_before::<T>(b, a) && !listed_before::<T>(c, b) ==> !listed_before::<T>(c, a),
{
    let x = T::listed_name(a);
    let y = T::listed_name(b);
    let z = T::listed_name(c);
    text::before_is_total(x, y);
    text::before_is_total(y, z);
    text::before_is_total(x, z);
    if text::before(x, y) && text::before(y, z) {
        text::before_is_transitive(x, y, z);
    }
    if text::before(z, x) && text::before(x, y) {
        text::before_is_transitive(z, x, y);
    }
    if text::before(y, z) && text::before(z, x) {
        text::before_is_transitive(y, z, x);
    }
}

/// A listing holds every item as often as it occurs, and none is listed before
/// one that stands earlier.
pub proof fn listing_is_ordered<T: Listed>(items: Seq<T::V>)
    ensures
        listing::<T>(items).to_multiset() == items.to_multiset(),
        listing::<T>(items).len() == items.len(),
        forall|i: int, j: int|
            0 <= i < j < items.len() ==> !listed_before::<T>(
                #[trigger] listing::<T>(items)[j],
                #[trigger] listing::<T>(items)[i],
            ),
    decreases items.len(),
{
    broadcast use vstd::seq_lib::group_to_multiset_ensures;

    if items.len() == 0 {
        assert(items =~= Seq::empty());
    } else {
        let s = listing::<T>(items.drop_last());
        let x = items.last();
        listing_is_ordered::<T>(items.drop_last());
        listed_place_facts::<T>(s, x, s.len() as int);
        let k = listed_place::<T>(s, x, s.len() as int);
        vstd::seq_lib::to_multiset_insert(s, k, x);
        assert(items =~= items.drop_last().push(x));
        let u = listing::<T>(items);
        assert(u == s.insert(k, x));
        assert forall|i: int, j: int| 0 <= i < j < items.len() implies !listed_before::<T>(
            #[trigger] u[j],
            #[trigger] u[i],
        ) by {
            if i < k && j == k {
                if i < k - 1 {
                    assert(!listed_before::<T>(s[k - 1], s[i]));
                    listed_before_facts::<T>(s[i], s[k - 1], x);
                }
            } else if i == k {
                assert(u[j] == s[j - 1]);
                listed_before_facts::<T>(x, s[j - 1], x);
            } else {
                let a = if i < k { i } else { i - 1 };
                let b = if j < k { j } else { j - 1 };
                assert(u[i] == s[a]);
                assert(u[j] == s[b]);
            }
        }
    }
}

/// Puts `items` in the order in which they are listed.
pub fn list_out<T: Listed>(items: Vec<T>) -> (r: Vec<T>)
    ensures
        r.deep_view() == listing::<T>(items.deep_view()),
{
    let ghost all = items.deep_view();
    let mut rest = items;
    let mut taken: Vec<T> = Vec::new();
    // the items stand in reverse in `taken`, so that each can be moved out
    proof {
        assert(all.take(all.len() as int) =~= all);
    }
    while rest.len() > 0
        invariant
            rest.deep_view() == all.take(rest@.len() as int),
            rest@.len() + taken@.len() == all.len(),
            forall|i: int| 0 <= i < taken@.len() ==> (#[trigger] taken@[i]).deep_view() == all[all.len() - 1 - i],
        decreases rest@.len(),
    {
        let ghost n = rest@.len();
        let ghost before = rest@;
        let ghost had = taken@;
        match rest.pop() {
            Some(x) => {
                proof {
                    assert(before[n - 1].deep_view() == all.take(n as int)[n - 1]) by {
                        assert(all.take(n as int) == Seq::new(n, |i: int| before[i].deep_view()));
                    }
                    assert forall|i: int| 0 <= i < n - 1 implies rest.deep_view()[i] == all.take(n - 1)[i] by {
                        assert(all.take(n as int)[i] == before[i].deep_view());
                    }
                    assert(rest.deep_view() =~= all.take(n - 1));
                }
                taken.push(x);
                proof {
                    assert forall|i: int| 0 <= i < taken@.len() implies (#[trigger] taken@[i]).deep_view() == all[all.len()
                        - 1 - i] by {
                        if i < had.len() {
                            assert(taken@[i] == had[i]);
                        }
                    }
                }
            },
            None => {},
        }
    }
    let mut out: Vec<T> = Vec::new();
    proof {
        assert(all.take(0) =~= Seq::<T::V>::empty());
        assert(out.deep_view() =~= Seq::<T::V>::empty());
    }
    let ghost mut done: int = 0;
    while taken.len() > 0
        invariant
            done + taken@.len() == all.len(),
            0 <= done,
            out.deep_view() == listing::<T>(all.take(done)),
            forall|i: int| 0 <= i < taken@.len() ==> (#[trigger] taken@[i]).deep_view() == all[all.len() - 1 - i],
        decreases taken@.len(),
    {
        let ghost left = taken@;
        match taken.pop() {
            Some(x) => {
                let ghost had = out.deep_view();
                let ghost m = x.deep_view();
                proof {
                    assert(left.last().deep_view() == all[done]);
                    assert(all.take(done + 1).drop_last() =~= all.take(done));
                    assert(all.take(done + 1).last() == m);
                    assert forall|i: int| 0 <= i < taken@.len() implies (#[trigger] taken@[i]).deep_view()
                        == all[all.len() - 1 - i] by {
                        assert(taken@[i] == left[i]);
                    }
                }
                let mut k: usize = out.len();
                while k > 0 && goes_before(&x, &out[k - 1])
                    invariant
                        k <= out@.len(),
                        had == out.deep_view(),
                        m == x.deep_view(),
                        listed_place::<T>(had, m, had.len() as int) == listed_place::<T>(had, m, k as int),
                    decreases k,
                {
                    proof {
                        assert(had[k - 1] == out@[k - 1].deep_view());
                    }
                    k = k - 1;
                }
                let ghost before = out@;
                proof {
                    if k > 0 {
                        assert(had[k - 1] == out@[k - 1].deep_view());
                    }
                }
                out.insert(k, x);
                proof {
                    assert forall|j: int| 0 <= j < out@.len() implies out.deep_view()[j] == had.insert(k as int, m)[j] by {
                        if j < k {
                            assert(out@[j] == before[j]);
                        } else if j > k {
                            assert(out@[j] == before[j - 1]);
                        }
                    }
                    assert(out.deep_view() =~= had.insert(k as int, m));
                    done = done + 1;
                }
            },
            None => {},
        }
    }
    proof {
        assert(all.take(done) =~= all);
    }
    out
}

fn goes_before<T: Listed>(a: &T, b: &T) -> (r: bool)
    ensures
        r == listed_before::<T>(a.deep_view(), b.deep_view()),
{
    precedes(a.name_of(), b.name_of()) || (same(a.name_of(), b.name_of()) && a.stamp_of() < b.stamp_of())
}

/// Of equal items the first is kept, and what is kept stays in order: a list
/// that goes on keeps what its beginning kept.
pub proof fn distinct_keeps_the_first<A>(s: Seq<A>, x: A)
    ensures
        s.contains(x) ==> distinct(s.push(x)) == distinct(s),
        !s.contains(x) ==> distinct(s.push(x)) == distinct(s).push(x),
        s.no_duplicates() ==> distinct(s) == s,
    decreases s.len(),
{
    assert(s.push(x).drop_last() =~= s);
    distinct_holds_each_once(s);
    if s.len() > 0 && s.no_duplicates() {
        let shorter = s.drop_last();
        distinct_keeps_the_first(shorter, s.last());
        assert(s =~= shorter.push(s.last()));
        assert(!shorter.contains(s.last())) by {
            if shorter.contains(s.last()) {
                let k = choose|k: int| 0 <= k < shorter.len() && shorter[k] == s.last();
                assert(s[k] == s[s.len() - 1]);
            }
        }
    } else if s.len() == 0 {
        assert(distinct(s) =~= s);
    }
}

/// Things are listed by their names, and those of the same name by when they
/// were made.
pub proof fn names_come_before_moments<T: Listed>(a: T::V, b: T::V)
    ensures
        text::before(T::listed_name(a), T::listed_name(b)) ==> listed_before::<T>(a, b),
        T::listed_name(a) == T::listed_name(b) ==> (listed_before::<T>(a, b) <==> T::listed_stamp(a) < T::listed_stamp(b)),
        listed_before::<T>(a, b) ==> !listed_before::<T>(b, a),
{
    text::before_is_total(T::listed_name(a), T::listed_name(b));
}

} // verus!
