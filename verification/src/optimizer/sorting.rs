//! Stable sorting of items and container templates before placement.

use vstd::prelude::*;
use vstd::seq_lib::to_multiset_build;
use crate::model::{Box3D, ContainerBlueprint};

verus! {

/// The sequence with `v` put in behind the last element that `v` does not come before.
pub open spec fn stable_insert<T>(s: Seq<T>, v: T, before: spec_fn(T, T) -> bool) -> Seq<T>
    decreases s.len(),
{
    if s.len() == 0 {
        seq![v]
    } else if !before(v, s.last()) {
        s.push(v)
    } else {
        stable_insert(s.drop_last(), v, before).push(s.last())
    }
}

/// The sequence sorted by `before`; elements of which neither comes before the other
/// keep their order.
pub open spec fn stable_sort<T>(s: Seq<T>, before: spec_fn(T, T) -> bool) -> Seq<T>
    decreases s.len(),
{
    if s.len() == 0 {
        s
    } else {
        stable_insert(stable_sort(s.drop_last(), before), s.last(), before)
    }
}

/// No element comes before an earlier one.
pub open spec fn ordered<T>(s: Seq<T>, before: spec_fn(T, T) -> bool) -> bool {
    forall|i: int, j: int| 0 <= i < j < s.len() ==> !before(s[j], s[i])
}

/// `before` is a strict weak order: no two elements come before each other, and
/// not coming before is transitive.
pub open spec fn strict_weak_order<T>(before: spec_fn(T, T) -> bool) -> bool {
    &&& forall|a: T, b: T| #[trigger] before(a, b) ==> !before(b, a)
    &&& forall|a: T, b: T, c: T|
        !#[trigger] before(a, b) && !#[trigger] before(b, c) ==> !before(a, c)
}

/// Putting `v` in at the place where it comes before everything from there on and not
/// before the element just ahead.
pub proof fn lemma_stable_insert_at<T>(s: Seq<T>, v: T, before: spec_fn(T, T) -> bool, at: int)
    requires
        0 <= at <= s.len(),
        at > 0 ==> !before(v, s[at - 1]),
        forall|k: int| at <= k < s.len() ==> before(v, s[k]),
    ensures
        stable_insert(s, v, before) == s.insert(at, v),
    decreases s.len() - at,
{
    if at == s.len() {
        assert(s.insert(at, v) =~= s.push(v));
    } else {
        let rest = s.drop_last();
        assert(before(v, s[s.len() - 1]));
        assert(at > 0 ==> rest[at - 1] == s[at - 1]);
        assert forall|k: int| at <= k < rest.len() implies before(v, rest[k]) by {
            assert(rest[k] == s[k]);
        }
        lemma_stable_insert_at(rest, v, before, at);
        assert(rest.insert(at, v).push(s.last()) =~= s.insert(at, v));
    }
}

/// Putting an element in adds it to the elements and changes nothing else.
pub proof fn lemma_stable_insert_elements<T>(s: Seq<T>, v: T, before: spec_fn(T, T) -> bool)
    ensures
        stable_insert(s, v, before).to_multiset() == s.to_multiset().insert(v),
        stable_insert(s, v, before).len() == s.len() + 1,
        forall|i: int|
            0 <= i < stable_insert(s, v, before).len() ==> (#[trigger] stable_insert(
                s,
                v,
                before,
            )[i] == v || s.contains(stable_insert(s, v, before)[i])),
    decreases s.len(),
{
    let r = stable_insert(s, v, before);
    if s.len() == 0 {
        to_multiset_build(s, v);
        assert(seq![v] =~= s.push(v));
    } else if !before(v, s.last()) {
        to_multiset_build(s, v);
        assert forall|i: int| 0 <= i < r.len() implies (#[trigger] r[i] == v || s.contains(
            r[i],
        )) by {
            if i < s.len() {
                assert(s[i] == r[i]);
            }
        }
    } else {
        let rest = s.drop_last();
        lemma_stable_insert_elements(rest, v, before);
        let inner = stable_insert(rest, v, before);
        to_multiset_build(inner, s.last());
        to_multiset_build(rest, s.last());
        assert(rest.push(s.last()) =~= s);
        assert(r.to_multiset() =~= s.to_multiset().insert(v));
        assert forall|i: int| 0 <= i < r.len() implies (#[trigger] r[i] == v || s.contains(
            r[i],
        )) by {
            if i < inner.len() {
                assert(r[i] == inner[i]);
                if inner[i] != v {
                    let k = choose|k: int| 0 <= k < rest.len() && rest[k] == inner[i];
                    assert(s[k] == r[i]);
                }
            } else {
                assert(s[s.len() - 1] == r[i]);
            }
        }
    }
}

/// Putting an element into an ordered sequence keeps it ordered.
pub proof fn lemma_stable_insert_ordered<T>(s: Seq<T>, v: T, before: spec_fn(T, T) -> bool)
    requires
        strict_weak_order(before),
        ordered(s, before),
    ensures
        ordered(stable_insert(s, v, before), before),
    decreases s.len(),
{
    let r = stable_insert(s, v, before);
    if s.len() == 0 {
    } else if !before(v, s.last()) {
        assert forall|i: int, j: int| 0 <= i < j < r.len() implies !before(r[j], r[i]) by {
            if j == r.len() - 1 {
                if i < s.len() - 1 {
                    assert(!before(s[s.len() - 1], s[i]));
                }
                assert(!before(v, s[s.len() - 1]));
            }
        }
    } else {
        let rest = s.drop_last();
        assert(ordered(rest, before)) by {
            assert forall|i: int, j: int| 0 <= i < j < rest.len() implies !before(
                rest[j],
                rest[i],
            ) by {
                assert(rest[i] == s[i] && rest[j] == s[j]);
            }
        }
        lemma_stable_insert_ordered(rest, v, before);
        lemma_stable_insert_elements(rest, v, before);
        let inner = stable_insert(rest, v, before);
        assert forall|i: int, j: int| 0 <= i < j < r.len() implies !before(r[j], r[i]) by {
            if j == r.len() - 1 {
                assert(r[i] == inner[i]);
                if inner[i] != v {
                    let k = choose|k: int| 0 <= k < rest.len() && rest[k] == inner[i];
                    assert(!before(s[s.len() - 1], s[k]));
                }
            } else {
                assert(r[i] == inner[i] && r[j] == inner[j]);
            }
        }
    }
}

/// Sorting keeps the elements and their number, and no element afterwards comes before
/// an earlier one.
pub proof fn lemma_stable_sort<T>(s: Seq<T>, before: spec_fn(T, T) -> bool)
    ensures
        stable_sort(s, before).to_multiset() == s.to_multiset(),
        stable_sort(s, before).len() == s.len(),
        strict_weak_order(before) ==> ordered(stable_sort(s, before), before),
    decreases s.len(),
{
    if s.len() > 0 {
        let rest = s.drop_last();
        lemma_stable_sort(rest, before);
        lemma_stable_insert_elements(stable_sort(rest, before), s.last(), before);
        to_multiset_build(rest, s.last());
        assert(rest.push(s.last()) =~= s);
        if strict_weak_order(before) {
            lemma_stable_insert_ordered(stable_sort(rest, before), s.last(), before);
        }
    }
}

/// An item comes before another when it is heavier; among equal weights when it is
/// larger; among equal weights and volumes when its identifier is lower.
pub open spec fn item_before(a: Box3D, b: Box3D) -> bool {
    a.weight > b.weight || (a.weight == b.weight && (a.spec_volume() > b.spec_volume() || (
    a.spec_volume() == b.spec_volume() && a.id < b.id)))
}

/// The order in which items are placed.
pub open spec fn item_order() -> spec_fn(Box3D, Box3D) -> bool {
    |a: Box3D, b: Box3D| item_before(a, b)
}

/// A template comes before another when it is smaller; among equal volumes when its
/// weight limit is lower.
pub open spec fn blueprint_before(a: ContainerBlueprint, b: ContainerBlueprint) -> bool {
    a.spec_volume() < b.spec_volume() || (a.spec_volume() == b.spec_volume() && a.max_weight
        < b.max_weight)
}

/// The order in which templates are tried.
pub open spec fn blueprint_order() -> spec_fn(ContainerBlueprint, ContainerBlueprint) -> bool {
    |a: ContainerBlueprint, b: ContainerBlueprint| blueprint_before(a, b)
}

/// The items in placement order: heaviest first, then largest, then lowest identifier.
pub open spec fn sorted_items(items: Seq<Box3D>) -> Seq<Box3D> {
    stable_sort(items, item_order())
}

/// The templates in trial order: smallest first, then lowest weight limit.
pub open spec fn sorted_blueprints(templates: Seq<ContainerBlueprint>) -> Seq<ContainerBlueprint> {
    stable_sort(templates, blueprint_order())
}

/// Both orders are strict weak orders.
pub proof fn lemma_orders()
    ensures
        strict_weak_order(item_order()),
        strict_weak_order(blueprint_order()),
{
    assert forall|a: Box3D, b: Box3D| #[trigger] item_order()(a, b) implies !item_order()(b, a) by {}
    assert forall|a: Box3D, b: Box3D, c: Box3D|
        !#[trigger] item_order()(a, b) && !#[trigger] item_order()(b, c) implies !item_order()(
        a,
        c,
    ) by {}
    assert forall|a: ContainerBlueprint, b: ContainerBlueprint| #[trigger]
        blueprint_order()(a, b) implies !blueprint_order()(b, a) by {}
    assert forall|a: ContainerBlueprint, b: ContainerBlueprint, c: ContainerBlueprint|
        !#[trigger] blueprint_order()(a, b) && !#[trigger] blueprint_order()(b, c)
        implies !blueprint_order()(a, c) by {}
}

/// Every item of the sequence is valid.
pub open spec fn all_items_valid(items: Seq<Box3D>) -> bool {
    forall|i: int| 0 <= i < items.len() ==> (#[trigger] items[i]).valid()
}

/// Every template of the sequence is valid.
pub open spec fn all_blueprints_valid(templates: Seq<ContainerBlueprint>) -> bool {
    forall|i: int| 0 <= i < templates.len() ==> (#[trigger] templates[i]).valid()
}

/// Whether item `a` comes before item `b`.
pub fn item_comes_before(a: &Box3D, b: &Box3D) -> (r: bool)
    requires
        a.valid(),
        b.valid(),
    ensures
        r == item_before(*a, *b),
{
    if a.weight != b.weight {
        return a.weight > b.weight;
    }
    let va: i128 = a.volume();
    let vb: i128 = b.volume();
    if va != vb {
        return va > vb;
    }
    a.id < b.id
}

/// Whether template `a` comes before template `b`.
pub fn blueprint_comes_before(a: &ContainerBlueprint, b: &ContainerBlueprint) -> (r: bool)
    requires
        a.valid(),
        b.valid(),
    ensures
        r == blueprint_before(*a, *b),
{
    let va: i128 = a.volume();
    let vb: i128 = b.volume();
    if va != vb {
        return va < vb;
    }
    a.max_weight < b.max_weight
}

/// Sorts the items into placement order. The sort is stable.
pub fn sort_items(items: Vec<Box3D>) -> (r: Vec<Box3D>)
    requires
        all_items_valid(items@),
    ensures
        r@ == sorted_items(items@),
        r@.to_multiset() == items@.to_multiset(),
        r@.len() == items@.len(),
        ordered(r@, item_order()),
        all_items_valid(r@),
{
    let mut out: Vec<Box3D> = Vec::new();
    let mut i: usize = 0;
    proof {
        lemma_orders();
        lemma_stable_sort(items@, item_order());
    }
    while i < items.len()
        invariant
            i <= items@.len(),
            all_items_valid(items@),
            all_items_valid(out@),
            out@ == stable_sort(items@.take(i as int), item_order()),
        decreases items@.len() - i,
    {
        let v: Box3D = items[i];
        let mut at: usize = out.len();
        while at > 0 && item_comes_before(&v, &out[at - 1])
            invariant
                at <= out@.len(),
                v.valid(),
                all_items_valid(out@),
                forall|k: int| at <= k < out@.len() ==> item_before(v, out@[k]),
            decreases at,
        {
            at = at - 1;
        }
        proof {
            assert(items@.take(i as int + 1).drop_last() =~= items@.take(i as int));
            lemma_stable_insert_at(out@, v, item_order(), at as int);
            lemma_stable_insert_elements(out@, v, item_order());
            let next = out@.insert(at as int, v);
            assert forall|k: int| 0 <= k < next.len() implies (#[trigger] next[k]).valid() by {
                if next[k] != v {
                    let m = choose|m: int| 0 <= m < out@.len() && out@[m] == next[k];
                    assert(out@[m].valid());
                }
            }
        }
        out.insert(at, v);
        i = i + 1;
    }
    assert(items@.take(i as int) =~= items@);
    out
}

/// Sorts the templates into trial order. The sort is stable.
pub fn sort_blueprints(templates: Vec<ContainerBlueprint>) -> (r: Vec<ContainerBlueprint>)
    requires
        all_blueprints_valid(templates@),
    ensures
        r@ == sorted_blueprints(templates@),
        r@.to_multiset() == templates@.to_multiset(),
        r@.len() == templates@.len(),
        ordered(r@, blueprint_order()),
        all_blueprints_valid(r@),
{
    let mut out: Vec<ContainerBlueprint> = Vec::new();
    let mut i: usize = 0;
    proof {
        lemma_orders();
        lemma_stable_sort(templates@, blueprint_order());
    }
    while i < templates.len()
        invariant
            i <= templates@.len(),
            all_blueprints_valid(templates@),
            all_blueprints_valid(out@),
            out@ == stable_sort(templates@.take(i as int), blueprint_order()),
        decreases templates@.len() - i,
    {
        let v: ContainerBlueprint = templates[i].clone();
        let mut at: usize = out.len();
        while at > 0 && blueprint_comes_before(&v, &out[at - 1])
            invariant
                at <= out@.len(),
                v.valid(),
                all_blueprints_valid(out@),
                forall|k: int| at <= k < out@.len() ==> blueprint_before(v, out@[k]),
            decreases at,
        {
            at = at - 1;
        }
        proof {
            assert(templates@.take(i as int + 1).drop_last() =~= templates@.take(i as int));
            lemma_stable_insert_at(out@, v, blueprint_order(), at as int);
            lemma_stable_insert_elements(out@, v, blueprint_order());
            let next = out@.insert(at as int, v);
            assert forall|k: int| 0 <= k < next.len() implies (#[trigger] next[k]).valid() by {
                if next[k] != v {
                    let m = choose|m: int| 0 <= m < out@.len() && out@[m] == next[k];
                    assert(out@[m].valid());
                }
            }
        }
        out.insert(at, v);
        i = i + 1;
    }
    assert(templates@.take(i as int) =~= templates@);
    out
}

} // verus!
