//! Ordering: the order of texts, and stable sorting by any total preorder.
use vstd::prelude::*;
use crate::text::chars_of;

verus! {

// ---------------------------------------------------------------------------
// The order of texts
// ---------------------------------------------------------------------------

/// Whether one text comes before another or equals it: lexicographically, by
/// code point.
pub open spec fn text_le(a: Seq<char>, b: Seq<char>) -> bool
    decreases a.len(),
{
    if a.len() == 0 {
        true
    } else if b.len() == 0 {
        false
    } else if a[0] == b[0] {
        text_le(a.drop_first(), b.drop_first())
    } else {
        a[0] < b[0]
    }
}

/// Of two texts, one comes before the other or equals it.
pub proof fn lemma_text_le_total(a: Seq<char>, b: Seq<char>)
    ensures
        text_le(a, b) || text_le(b, a),
    decreases a.len(),
{
    if a.len() > 0 && b.len() > 0 && a[0] == b[0] {
        lemma_text_le_total(a.drop_first(), b.drop_first());
    }
}

/// Texts are ordered by the first character in which they differ, and a text comes
/// before those that it is the start of.
pub proof fn lemma_text_le_by_first_difference(a: Seq<char>, b: Seq<char>, i: int)
    requires
        0 <= i <= a.len(),
        i <= b.len(),
        a.take(i) == b.take(i),
        i < a.len() && i < b.len() ==> a[i] != b[i],
    ensures
        i == a.len() ==> text_le(a, b),
        i < a.len() && i == b.len() ==> !text_le(a, b),
        i < a.len() && i < b.len() ==> text_le(a, b) == (a[i] < b[i]),
    decreases i,
{
    if i > 0 {
        let (x, y) = (a.drop_first(), b.drop_first());
        assert(a[0] == a.take(i)[0] && b[0] == b.take(i)[0]);
        assert(x.take(i - 1) =~= a.take(i).skip(1));
        assert(y.take(i - 1) =~= b.take(i).skip(1));
        lemma_text_le_by_first_difference(x, y, i - 1);
    }
}

/// The order of texts is transitive.
pub proof fn lemma_text_le_transitive(a: Seq<char>, b: Seq<char>, c: Seq<char>)
    requires
        text_le(a, b),
        text_le(b, c),
    ensures
        text_le(a, c),
    decreases a.len(),
{
    if a.len() > 0 && a[0] == b[0] && b[0] == c[0] {
        lemma_text_le_transitive(a.drop_first(), b.drop_first(), c.drop_first());
    }
}

/// Two texts that come before each other are equal.
pub proof fn lemma_text_le_antisymmetric(a: Seq<char>, b: Seq<char>)
    requires
        text_le(a, b),
        text_le(b, a),
    ensures
        a == b,
    decreases a.len(),
{
    if a.len() > 0 && b.len() > 0 {
        let (x, y) = (a.drop_first(), b.drop_first());
        assert(a[0] == b[0]);
        lemma_text_le_antisymmetric(x, y);
        assert forall|i: int| 0 <= i < a.len() implies a[i] == b[i] by {
            if i > 0 {
                assert(a[i] == x[i - 1] && b[i] == y[i - 1]);
            }
        }
    }
    assert(a =~= b);
}

/// Compares two strings.
pub fn le_text(a: &str, b: &str) -> (le: bool)
    ensures
        le == text_le(a@, b@),
{
    let left = chars_of(a);
    let right = chars_of(b);
    let mut i: usize = 0;
    assert(left@.skip(0) =~= left@);
    assert(right@.skip(0) =~= right@);
    while i < left.len() && i < right.len() && left[i] == right[i]
        invariant
            i <= left@.len(),
            i <= right@.len(),
            text_le(left@, right@) == text_le(left@.skip(i as int), right@.skip(i as int)),
        decreases left@.len() - i,
    {
        assert(left@.skip(i as int).drop_first() =~= left@.skip(i + 1));
        assert(right@.skip(i as int).drop_first() =~= right@.skip(i + 1));
        i = i + 1;
    }
    if i >= left.len() {
        true
    } else if i >= right.len() {
        false
    } else {
        left[i] < right[i]
    }
}

// ---------------------------------------------------------------------------
// Stable sorting
// ---------------------------------------------------------------------------

/// A relation that compares any two items, and compares them transitively.
pub open spec fn is_preorder<T>(le: spec_fn(T, T) -> bool) -> bool {
    &&& forall|a: T, b: T| #[trigger] le(a, b) || le(b, a)
    &&& forall|a: T, b: T, c: T| #[trigger] le(a, b) && #[trigger] le(b, c) ==> le(a, c)
}

/// Whether no item comes strictly after one that follows it.
pub open spec fn is_sorted<T>(items: Seq<T>, le: spec_fn(T, T) -> bool) -> bool {
    forall|i: int, j: int| 0 <= i < j < items.len() ==> le(#[trigger] items[i], #[trigger] items[j])
}

/// Inserts an item behind the last one that does not come strictly after it.
pub open spec fn inserted<T>(items: Seq<T>, item: T, le: spec_fn(T, T) -> bool) -> Seq<T>
    decreases items.len(),
{
    if items.len() > 0 && !le(items.last(), item) {
        inserted(items.drop_last(), item, le).push(items.last())
    } else {
        items.push(item)
    }
}

/// The stable sort of a sequence: its items in order, equivalent items in the
/// order in which they came.
pub open spec fn stable_sort<T>(items: Seq<T>, le: spec_fn(T, T) -> bool) -> Seq<T>
    decreases items.len(),
{
    if items.len() == 0 {
        items
    } else {
        inserted(stable_sort(items.drop_last(), le), items.last(), le)
    }
}

proof fn lemma_inserted_len<T>(items: Seq<T>, item: T, le: spec_fn(T, T) -> bool)
    ensures
        inserted(items, item, le).len() == items.len() + 1,
        inserted(items, item, le).to_multiset() =~= items.to_multiset().insert(item),
    decreases items.len(),
{
    broadcast use vstd::seq_lib::group_to_multiset_ensures;

    if items.len() > 0 && !le(items.last(), item) {
        lemma_inserted_len(items.drop_last(), item, le);
        assert(items =~= items.drop_last().push(items.last()));
    }
}

/// Sorting keeps the length and the items.
pub proof fn lemma_stable_sort_permutes<T>(items: Seq<T>, le: spec_fn(T, T) -> bool)
    ensures
        stable_sort(items, le).len() == items.len(),
        stable_sort(items, le).to_multiset() == items.to_multiset(),
    decreases items.len(),
{
    broadcast use vstd::seq_lib::group_to_multiset_ensures;

    if items.len() > 0 {
        lemma_stable_sort_permutes(items.drop_last(), le);
        lemma_inserted_len(stable_sort(items.drop_last(), le), items.last(), le);
        assert(items =~= items.drop_last().push(items.last()));
    }
}

proof fn lemma_inserted_sorted<T>(items: Seq<T>, item: T, le: spec_fn(T, T) -> bool)
    requires
        is_preorder(le),
        is_sorted(items, le),
    ensures
        is_sorted(inserted(items, item, le), le),
        forall|i: int|
            0 <= i < inserted(items, item, le).len() ==> (#[trigger] inserted(items, item, le)[i]
                == item || items.contains(inserted(items, item, le)[i])),
    decreases items.len(),
{
    let all = inserted(items, item, le);
    if items.len() > 0 && !le(items.last(), item) {
        let rest = items.drop_last();
        assert(is_sorted(rest, le)) by {
            assert forall|i: int, j: int| 0 <= i < j < rest.len() implies le(
                #[trigger] rest[i],
                #[trigger] rest[j],
            ) by {
                assert(rest[i] == items[i] && rest[j] == items[j]);
            }
        }
        lemma_inserted_sorted(rest, item, le);
        let front = inserted(rest, item, le);
        assert(all == front.push(items.last()));
        assert forall|i: int| 0 <= i < all.len() implies (#[trigger] all[i] == item
            || items.contains(all[i])) by {
            if i < front.len() {
                assert(all[i] == front[i]);
                if front[i] != item {
                    let k = choose|k: int| 0 <= k < rest.len() && rest[k] == front[i];
                    assert(items[k] == all[i]);
                }
            } else {
                assert(items[items.len() - 1] == all[i]);
            }
        }
        assert forall|i: int, j: int| 0 <= i < j < all.len() implies le(
            #[trigger] all[i],
            #[trigger] all[j],
        ) by {
            if j < front.len() {
                assert(all[i] == front[i] && all[j] == front[j]);
            } else {
                assert(all[i] == front[i]);
                if front[i] == item {
                    assert(le(item, items.last()));
                } else {
                    let k = choose|k: int| 0 <= k < rest.len() && rest[k] == front[i];
                    assert(items[k] == front[i]);
                    assert(le(items[k], items[items.len() - 1]));
                }
            }
        }
    } else {
        assert forall|i: int| 0 <= i < all.len() implies (#[trigger] all[i] == item
            || items.contains(all[i])) by {
            if i < items.len() {
                assert(items[i] == all[i]);
            }
        }
        assert forall|i: int, j: int| 0 <= i < j < all.len() implies le(
            #[trigger] all[i],
            #[trigger] all[j],
        ) by {
            if j == items.len() && i < items.len() - 1 {
                assert(le(items[i], items[items.len() - 1]));
            }
        }
    }
}

/// Sorting by a preorder sorts.
pub proof fn lemma_stable_sort_sorts<T>(items: Seq<T>, le: spec_fn(T, T) -> bool)
    requires
        is_preorder(le),
    ensures
        is_sorted(stable_sort(items, le), le),
    decreases items.len(),
{
    if items.len() > 0 {
        lemma_stable_sort_sorts(items.drop_last(), le);
        lemma_inserted_sorted(stable_sort(items.drop_last(), le), items.last(), le);
    }
}

/// The items of a sequence that are equivalent to a given one, in their order.
pub open spec fn class_of<T>(items: Seq<T>, item: T, le: spec_fn(T, T) -> bool) -> Seq<T> {
    items.filter(|x: T| le(x, item) && le(item, x))
}

proof fn lemma_class_push<T>(items: Seq<T>, last: T, item: T, le: spec_fn(T, T) -> bool)
    ensures
        class_of(items.push(last), item, le) == (if le(last, item) && le(item, last) {
            class_of(items, item, le).push(last)
        } else {
            class_of(items, item, le)
        }),
{
    reveal(Seq::filter);
    assert(items.push(last).drop_last() =~= items);
}

proof fn lemma_inserted_class<T>(items: Seq<T>, last: T, item: T, le: spec_fn(T, T) -> bool)
    requires
        is_preorder(le),
    ensures
        class_of(inserted(items, last, le), item, le) == class_of(items.push(last), item, le),
    decreases items.len(),
{
    if items.len() > 0 && !le(items.last(), last) {
        let rest = items.drop_last();
        let top = items.last();
        lemma_inserted_class(rest, last, item, le);
        lemma_class_push(inserted(rest, last, le), top, item, le);
        lemma_class_push(rest, last, item, le);
        lemma_class_push(rest, top, item, le);
        lemma_class_push(items, last, item, le);
        assert(items =~= rest.push(top));
        // `top` comes strictly after `last`, so at most one of them is in the class
        if le(top, item) && le(item, top) && le(last, item) && le(item, last) {
            assert(le(top, last));
        }
    }
}

/// Sorting is stable: equivalent items keep the order in which they came.
pub proof fn lemma_stable_sort_keeps_ties<T>(items: Seq<T>, item: T, le: spec_fn(T, T) -> bool)
    requires
        is_preorder(le),
    ensures
        class_of(stable_sort(items, le), item, le) == class_of(items, item, le),
    decreases items.len(),
{
    if items.len() > 0 {
        let rest = items.drop_last();
        lemma_stable_sort_keeps_ties(rest, item, le);
        lemma_inserted_class(stable_sort(rest, le), items.last(), item, le);
        lemma_class_push(stable_sort(rest, le), items.last(), item, le);
        lemma_class_push(rest, items.last(), item, le);
        assert(items =~= rest.push(items.last()));
    }
}

/// Sorting what is sorted already changes nothing.
pub proof fn lemma_stable_sort_idempotent<T>(items: Seq<T>, le: spec_fn(T, T) -> bool)
    requires
        is_sorted(items, le),
    ensures
        stable_sort(items, le) == items,
    decreases items.len(),
{
    if items.len() > 0 {
        let rest = items.drop_last();
        assert(is_sorted(rest, le)) by {
            assert forall|i: int, j: int| 0 <= i < j < rest.len() implies le(
                #[trigger] rest[i],
                #[trigger] rest[j],
            ) by {
                assert(rest[i] == items[i] && rest[j] == items[j]);
            }
        }
        lemma_stable_sort_idempotent(rest, le);
        if rest.len() > 0 {
            assert(rest.last() == items[items.len() - 2]);
            assert(le(items[items.len() - 2], items[items.len() - 1]));
        }
        assert(items =~= rest.push(items.last()));
    }
}

proof fn lemma_inserted_map<T, U>(
    items: Seq<T>,
    item: T,
    le: spec_fn(T, T) -> bool,
    key: spec_fn(T) -> U,
    key_le: spec_fn(U, U) -> bool,
)
    requires
        forall|a: T, b: T| #[trigger] le(a, b) == key_le(key(a), key(b)),
    ensures
        inserted(items, item, le).map_values(key) == inserted(
            items.map_values(key),
            key(item),
            key_le,
        ),
    decreases items.len(),
{
    let keys = items.map_values(key);
    if items.len() > 0 {
        assert(keys.drop_last() =~= items.drop_last().map_values(key));
        assert(keys.last() == key(items.last()));
        if !le(items.last(), item) {
            lemma_inserted_map(items.drop_last(), item, le, key, key_le);
            assert(inserted(items.drop_last(), item, le).push(items.last()).map_values(key)
                =~= inserted(items.drop_last(), item, le).map_values(key).push(key(items.last())));
        } else {
            assert(items.push(item).map_values(key) =~= keys.push(key(item)));
        }
    } else {
        assert(items.push(item).map_values(key) =~= keys.push(key(item)));
    }
}

/// Sorting items by a key, then taking the keys, is sorting the keys.
pub proof fn lemma_stable_sort_map<T, U>(
    items: Seq<T>,
    le: spec_fn(T, T) -> bool,
    key: spec_fn(T) -> U,
    key_le: spec_fn(U, U) -> bool,
)
    requires
        forall|a: T, b: T| #[trigger] le(a, b) == key_le(key(a), key(b)),
    ensures
        stable_sort(items, le).map_values(key) == stable_sort(items.map_values(key), key_le),
    decreases items.len(),
{
    if items.len() > 0 {
        let rest = items.drop_last();
        lemma_stable_sort_map(rest, le, key, key_le);
        assert(items.map_values(key).drop_last() =~= rest.map_values(key));
        lemma_inserted_map(stable_sort(rest, le), items.last(), le, key, key_le);
    } else {
        assert(items.map_values(key) =~= Seq::<U>::empty());
        assert(stable_sort(items, le).map_values(key) =~= Seq::<U>::empty());
    }
}

proof fn lemma_inserted_at<T>(items: Seq<T>, item: T, at: int, le: spec_fn(T, T) -> bool)
    requires
        0 <= at <= items.len(),
        at > 0 ==> le(items[at - 1], item),
        forall|i: int| at <= i < items.len() ==> !le(#[trigger] items[i], item),
    ensures
        inserted(items, item, le) == items.insert(at, item),
    decreases items.len(),
{
    if at < items.len() {
        assert(!le(items[items.len() - 1], item));
        let rest = items.drop_last();
        assert forall|i: int| at <= i < rest.len() implies !le(#[trigger] rest[i], item) by {
            assert(rest[i] == items[i]);
        }
        lemma_inserted_at(rest, item, at, le);
        assert(items.insert(at, item) =~= rest.insert(at, item).push(items.last()));
    } else {
        if items.len() > 0 {
            assert(le(items.last(), item));
        }
        assert(items.insert(at, item) =~= items.push(item));
    }
}

/// Sorts a vector in place and stably, by the preorder that `le` computes.
pub(crate) fn sort_by<T, F: Fn(&T, &T) -> bool>(
    items: &mut Vec<T>,
    le: F,
    Ghost(order): Ghost<spec_fn(T, T) -> bool>,
)
    requires
        is_preorder(order),
        forall|a: &T, b: &T| #[trigger] call_requires(le, (a, b)),
        forall|a: &T, b: &T, r: bool| #[trigger]
            call_ensures(le, (a, b), r) ==> r == order(*a, *b),
    ensures
        final(items)@ == stable_sort(old(items)@, order),
{
    let ghost given = items@;
    let mut n: usize = 0;
    assert(given.take(0) =~= Seq::<T>::empty());
    while n < items.len()
        invariant
            n <= items@.len(),
            items@.len() == given.len(),
            items@ == stable_sort(given.take(n as int), order) + given.skip(n as int),
            stable_sort(given.take(n as int), order).len() == n,
            is_preorder(order),
            forall|a: &T, b: &T| #[trigger] call_requires(le, (a, b)),
            forall|a: &T, b: &T, r: bool| #[trigger]
                call_ensures(le, (a, b), r) ==> r == order(*a, *b),
        decreases given.len() - n,
    {
        let ghost done = stable_sort(given.take(n as int), order);
        proof {
            lemma_stable_sort_sorts(given.take(n as int), order);
        }
        // the first position whose item comes strictly after the new one
        let mut low: usize = 0;
        let mut high: usize = n;
        assert(items@[n as int] == given[n as int]);
        while low < high
            invariant
                low <= high <= n,
                n < items@.len(),
                items@.len() == given.len(),
                items@[n as int] == given[n as int],
                forall|i: int| 0 <= i < n ==> #[trigger] items@[i] == done[i],
                done.len() == n,
                is_sorted(done, order),
                is_preorder(order),
                forall|i: int| 0 <= i < low ==> order(#[trigger] done[i], given[n as int]),
                forall|i: int| high <= i < n ==> !order(#[trigger] done[i], given[n as int]),
                forall|a: &T, b: &T| #[trigger] call_requires(le, (a, b)),
                forall|a: &T, b: &T, r: bool| #[trigger]
                    call_ensures(le, (a, b), r) ==> r == order(*a, *b),
            decreases high - low,
        {
            let mid: usize = low + (high - low) / 2;
            assert(items@[mid as int] == done[mid as int]);
            if le(&items[mid], &items[n]) {
                assert forall|i: int| 0 <= i < mid + 1 implies order(
                    #[trigger] done[i],
                    given[n as int],
                ) by {
                    if i < mid {
                        assert(order(done[i], done[mid as int]));
                    }
                }
                low = mid + 1;
            } else {
                assert forall|i: int| mid <= i < n implies !order(
                    #[trigger] done[i],
                    given[n as int],
                ) by {
                    if mid < i {
                        assert(order(done[mid as int], done[i]));
                    }
                }
                high = mid;
            }
        }
        let ghost before = items@;
        let item = items.remove(n);
        items.insert(low, item);
        proof {
            lemma_inserted_at(done, given[n as int], low as int, order);
            let next = given.take(n + 1);
            assert(next.drop_last() =~= given.take(n as int));
            assert(next.last() == given[n as int]);
            assert(stable_sort(next, order) == done.insert(low as int, given[n as int]));
            assert(items@ =~= stable_sort(next, order) + given.skip(n + 1));
        }
        n = n + 1;
    }
    assert(given.take(n as int) =~= given);
    assert(items@ =~= stable_sort(given, order));
}

/// Sorts strings by the order of their texts.
pub fn sort_texts(items: &mut Vec<String>)
    ensures
        final(items)@.map_values(|s: String| s@) == stable_sort(
            old(items)@.map_values(|s: String| s@),
            |a: Seq<char>, b: Seq<char>| text_le(a, b),
        ),
{
    let ghost given = items@;
    let ghost order = |a: String, b: String| text_le(a@, b@);
    let le = |a: &String, b: &String| -> (r: bool)
        ensures
            r == text_le(a@, b@),
        { le_text(a.as_str(), b.as_str()) };
    proof {
        assert forall|a: String, b: String| #[trigger] order(a, b) || order(b, a) by {
            lemma_text_le_total(a@, b@);
        }
        assert forall|a: String, b: String, c: String| #[trigger]
            order(a, b) && #[trigger] order(b, c) implies order(a, c) by {
            lemma_text_le_transitive(a@, b@, c@);
        }
    }
    sort_by(items, le, Ghost(order));
    proof {
        lemma_stable_sort_map(
            given,
            order,
            |s: String| s@,
            |a: Seq<char>, b: Seq<char>| text_le(a, b),
        );
    }
}

/// The order of texts is a preorder.
pub proof fn lemma_text_order_is_preorder()
    ensures
        is_preorder(|a: Seq<char>, b: Seq<char>| text_le(a, b)),
{
    let le = |a: Seq<char>, b: Seq<char>| text_le(a, b);
    assert forall|a: Seq<char>, b: Seq<char>| #[trigger] le(a, b) || le(b, a) by {
        lemma_text_le_total(a, b);
    }
    assert forall|a: Seq<char>, b: Seq<char>, c: Seq<char>| #[trigger]
        le(a, b) && #[trigger] le(b, c) implies le(a, c) by {
        lemma_text_le_transitive(a, b, c);
    }
}

} // verus!
