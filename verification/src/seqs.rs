//! Facts about sequences that the other modules share.
use vstd::prelude::*;

verus! {

/// The position of the first item that satisfies a predicate, if one does.
pub open spec fn position<T>(items: Seq<T>, wanted: spec_fn(T) -> bool) -> Option<int>
    decreases items.len(),
{
    if items.len() == 0 {
        None
    } else if position(items.drop_last(), wanted) is Some {
        position(items.drop_last(), wanted)
    } else if wanted(items.last()) {
        Some(items.len() - 1)
    } else {
        None
    }
}

/// What `position` finds satisfies the predicate, and nothing before it does.
pub proof fn lemma_position<T>(items: Seq<T>, wanted: spec_fn(T) -> bool)
    ensures
        match position(items, wanted) {
            Some(p) => 0 <= p < items.len() && wanted(items[p]) && forall|i: int|
                0 <= i < p ==> !wanted(#[trigger] items[i]),
            None => forall|i: int| 0 <= i < items.len() ==> !wanted(#[trigger] items[i]),
        },
    decreases items.len(),
{
    if items.len() > 0 {
        let rest = items.drop_last();
        lemma_position(rest, wanted);
        assert forall|i: int| 0 <= i < rest.len() implies rest[i] == #[trigger] items[i] by {}
    }
}

/// The first item that satisfies the predicate is the one that `position` finds.
pub proof fn lemma_position_is<T>(items: Seq<T>, wanted: spec_fn(T) -> bool, p: int)
    requires
        0 <= p < items.len(),
        wanted(items[p]),
        forall|i: int| 0 <= i < p ==> !wanted(#[trigger] items[i]),
    ensures
        position(items, wanted) == Some(p),
{
    lemma_position(items, wanted);
}

/// Where nothing satisfies the predicate, `position` finds nothing.
pub proof fn lemma_position_none<T>(items: Seq<T>, wanted: spec_fn(T) -> bool)
    requires
        forall|i: int| 0 <= i < items.len() ==> !wanted(#[trigger] items[i]),
    ensures
        position(items, wanted) is None,
{
    lemma_position(items, wanted);
}

/// Filtering one more item.
pub proof fn lemma_filter_push<T>(items: Seq<T>, item: T, keep: spec_fn(T) -> bool)
    ensures
        items.push(item).filter(keep) == (if keep(item) {
            items.filter(keep).push(item)
        } else {
            items.filter(keep)
        }),
{
    reveal(Seq::filter);
    assert(items.push(item).drop_last() =~= items);
}

/// Filtering a prefix that is one longer.
pub proof fn lemma_filter_take<T>(items: Seq<T>, n: int, keep: spec_fn(T) -> bool)
    requires
        0 <= n < items.len(),
    ensures
        items.take(n + 1).filter(keep) == (if keep(items[n]) {
            items.take(n).filter(keep).push(items[n])
        } else {
            items.take(n).filter(keep)
        }),
{
    assert(items.take(n + 1) =~= items.take(n).push(items[n]));
    lemma_filter_push(items.take(n), items[n], keep);
}

/// Every item that a filter lets through was there before and satisfies the predicate.
pub proof fn lemma_filter_sound<T>(items: Seq<T>, keep: spec_fn(T) -> bool)
    ensures
        items.filter(keep).len() <= items.len(),
        forall|i: int|
            0 <= i < items.filter(keep).len() ==> keep(#[trigger] items.filter(keep)[i])
                && items.contains(items.filter(keep)[i]),
    decreases items.len(),
{
    reveal(Seq::filter);
    if items.len() > 0 {
        let rest = items.drop_last();
        lemma_filter_sound(rest, keep);
        let all = items.filter(keep);
        assert forall|i: int| 0 <= i < all.len() implies keep(#[trigger] all[i]) && items.contains(
            all[i],
        ) by {
            if i < rest.filter(keep).len() {
                assert(all[i] == rest.filter(keep)[i]);
                let k = choose|k: int| 0 <= k < rest.len() && rest[k] == all[i];
                assert(items[k] == all[i]);
            } else {
                assert(items[items.len() - 1] == all[i]);
            }
        }
    }
}

/// Every item that satisfies the predicate passes the filter.
pub proof fn lemma_filter_complete<T>(items: Seq<T>, keep: spec_fn(T) -> bool, item: T)
    requires
        items.contains(item),
        keep(item),
    ensures
        items.filter(keep).contains(item),
    decreases items.len(),
{
    reveal(Seq::filter);
    let rest = items.drop_last();
    let k = choose|k: int| 0 <= k < items.len() && items[k] == item;
    if k == items.len() - 1 {
        let all = items.filter(keep);
        assert(all[all.len() - 1] == item);
    } else {
        assert(rest[k] == item);
        lemma_filter_complete(rest, keep, item);
        let j = choose|j: int| 0 <= j < rest.filter(keep).len() && rest.filter(keep)[j] == item;
        assert(items.filter(keep)[j] == item);
    }
}

/// A filter that lets everything through changes nothing.
pub proof fn lemma_filter_all<T>(items: Seq<T>, keep: spec_fn(T) -> bool)
    requires
        forall|i: int| 0 <= i < items.len() ==> keep(#[trigger] items[i]),
    ensures
        items.filter(keep) == items,
    decreases items.len(),
{
    reveal(Seq::filter);
    if items.len() > 0 {
        let rest = items.drop_last();
        assert forall|i: int| 0 <= i < rest.len() implies keep(#[trigger] rest[i]) by {
            assert(rest[i] == items[i]);
        }
        lemma_filter_all(rest, keep);
        assert(items =~= rest.push(items.last()));
    }
}

/// Filtering by a predicate on images commutes with taking the images.
pub proof fn lemma_filter_map<T, U>(
    items: Seq<T>,
    image: spec_fn(T) -> U,
    keep: spec_fn(T) -> bool,
    keep_image: spec_fn(U) -> bool,
)
    requires
        forall|x: T| #[trigger] keep(x) == keep_image(image(x)),
    ensures
        items.filter(keep).map_values(image) == items.map_values(image).filter(keep_image),
    decreases items.len(),
{
    reveal(Seq::filter);
    if items.len() > 0 {
        let rest = items.drop_last();
        lemma_filter_map(rest, image, keep, keep_image);
        assert(items.map_values(image).drop_last() =~= rest.map_values(image));
        assert(keep(items.last()) == keep_image(image(items.last())));
        assert(rest.filter(keep).push(items.last()).map_values(image) =~= rest.filter(
            keep,
        ).map_values(image).push(image(items.last())));
    } else {
        assert(items.filter(keep).map_values(image) =~= items.map_values(image).filter(
            keep_image,
        ));
    }
}

} // verus!
