//! Orientations of an item: its axis-aligned rotations, each listed once.

use vstd::prelude::*;
use crate::model::Box3D;

verus! {

/// The six orders of the three side lengths, in the order in which they are tried.
pub open spec fn permutations(dims: (i64, i64, i64)) -> Seq<(i64, i64, i64)> {
    let (w, d, h) = dims;
    seq![(w, d, h), (w, h, d), (d, w, h), (d, h, w), (h, w, d), (h, d, w)]
}

/// The triples of a sequence without repeats: each triple stays where it first occurs.
pub open spec fn first_occurrences(s: Seq<(i64, i64, i64)>) -> Seq<(i64, i64, i64)>
    decreases s.len(),
{
    if s.len() == 0 {
        s
    } else if s.drop_last().contains(s.last()) {
        first_occurrences(s.drop_last())
    } else {
        first_occurrences(s.drop_last()).push(s.last())
    }
}

/// The dimension triples of the orientations of an item: the original alone when
/// rotation is not allowed, else the distinct orders of its side lengths.
pub open spec fn orientation_dims(dims: (i64, i64, i64), allow_rotation: bool) -> Seq<
    (i64, i64, i64),
> {
    if allow_rotation {
        first_occurrences(permutations(dims))
    } else {
        seq![dims]
    }
}

/// The orientations of an item: the item itself with each of its orientation triples.
pub open spec fn orientations(object: Box3D, allow_rotation: bool) -> Seq<Box3D> {
    Seq::new(
        orientation_dims(object.dims, allow_rotation).len(),
        |i: int|
            Box3D {
                id: object.id,
                dims: orientation_dims(object.dims, allow_rotation)[i],
                weight: object.weight,
            },
    )
}

/// One more triple: it is kept exactly when it did not occur before.
pub proof fn lemma_first_occurrences_push(s: Seq<(i64, i64, i64)>, t: (i64, i64, i64))
    ensures
        first_occurrences(s.push(t)) == (if s.contains(t) {
            first_occurrences(s)
        } else {
            first_occurrences(s).push(t)
        }),
{
    assert(s.push(t).drop_last() =~= s);
}

/// The triples that are kept are those that occur.
pub proof fn lemma_first_occurrences_contains(s: Seq<(i64, i64, i64)>, t: (i64, i64, i64))
    ensures
        first_occurrences(s).contains(t) <==> s.contains(t),
    decreases s.len(),
{
    if s.len() > 0 {
        let rest = s.drop_last();
        lemma_first_occurrences_contains(rest, t);
        lemma_first_occurrences_contains(rest, s.last());
        let f = first_occurrences(s);
        if s.contains(t) {
            let i = choose|i: int| 0 <= i < s.len() && s[i] == t;
            if i < rest.len() {
                assert(rest[i] == t);
                let k = choose|k: int|
                    0 <= k < first_occurrences(rest).len() && first_occurrences(rest)[k] == t;
                assert(f[k] == t);
            } else {
                if rest.contains(t) {
                    let k = choose|k: int|
                        0 <= k < first_occurrences(rest).len() && first_occurrences(rest)[k] == t;
                    assert(f[k] == t);
                } else {
                    assert(f[f.len() - 1] == t);
                }
            }
        }
        if f.contains(t) {
            let k = choose|k: int| 0 <= k < f.len() && f[k] == t;
            if k < first_occurrences(rest).len() {
                assert(first_occurrences(rest)[k] == t);
                assert(first_occurrences(rest).contains(t));
                let i = choose|i: int| 0 <= i < rest.len() && rest[i] == t;
                assert(s[i] == t);
            } else {
                assert(s[s.len() - 1] == t);
            }
        }
    }
}

/// The number of orientations: one for a cube, three for an item with exactly two
/// equal sides, six for an item whose sides all differ, and one whenever rotation is
/// not allowed.
pub proof fn lemma_orientation_count(dims: (i64, i64, i64), allow_rotation: bool)
    ensures
        !allow_rotation ==> orientation_dims(dims, allow_rotation) == seq![dims],
        allow_rotation && dims.0 == dims.1 && dims.1 == dims.2 ==> orientation_dims(
            dims,
            allow_rotation,
        ) == seq![dims],
        allow_rotation && (dims.0 == dims.1 || dims.1 == dims.2 || dims.0 == dims.2) && !(dims.0
            == dims.1 && dims.1 == dims.2) ==> orientation_dims(dims, allow_rotation).len() == 3,
        allow_rotation && dims.0 != dims.1 && dims.1 != dims.2 && dims.0 != dims.2
            ==> orientation_dims(dims, allow_rotation) == permutations(dims),
        1 <= orientation_dims(dims, allow_rotation).len() <= 6,
        orientation_dims(dims, allow_rotation)[0] == dims,
{
    if allow_rotation {
        let (w, d, h) = dims;
        let p = permutations(dims);
        let s0 = Seq::<(i64, i64, i64)>::empty();
        let s1 = s0.push(p[0]);
        let s2 = s1.push(p[1]);
        let s3 = s2.push(p[2]);
        let s4 = s3.push(p[3]);
        let s5 = s4.push(p[4]);
        let s6 = s5.push(p[5]);
        assert(s6 =~= p);
        lemma_first_occurrences_push(s0, p[0]);
        lemma_first_occurrences_push(s1, p[1]);
        lemma_first_occurrences_push(s2, p[2]);
        lemma_first_occurrences_push(s3, p[3]);
        lemma_first_occurrences_push(s4, p[4]);
        lemma_first_occurrences_push(s5, p[5]);
        assert(first_occurrences(s0) =~= s0);
        assert(!s0.contains(p[0]));
        assert(s1.contains(p[1]) <==> p[1] == p[0]) by {
            if p[1] == p[0] {
                assert(s1[0] == p[1]);
            }
        }
        assert(s2.contains(p[2]) <==> (p[2] == p[0] || p[2] == p[1])) by {
            if p[2] == p[0] {
                assert(s2[0] == p[2]);
            }
            if p[2] == p[1] {
                assert(s2[1] == p[2]);
            }
        }
        assert(s3.contains(p[3]) <==> (p[3] == p[0] || p[3] == p[1] || p[3] == p[2])) by {
            if p[3] == p[0] {
                assert(s3[0] == p[3]);
            }
            if p[3] == p[1] {
                assert(s3[1] == p[3]);
            }
            if p[3] == p[2] {
                assert(s3[2] == p[3]);
            }
        }
        assert(s4.contains(p[4]) <==> (p[4] == p[0] || p[4] == p[1] || p[4] == p[2] || p[4]
            == p[3])) by {
            if p[4] == p[0] {
                assert(s4[0] == p[4]);
            }
            if p[4] == p[1] {
                assert(s4[1] == p[4]);
            }
            if p[4] == p[2] {
                assert(s4[2] == p[4]);
            }
            if p[4] == p[3] {
                assert(s4[3] == p[4]);
            }
        }
        assert(s5.contains(p[5]) <==> (p[5] == p[0] || p[5] == p[1] || p[5] == p[2] || p[5]
            == p[3] || p[5] == p[4])) by {
            if p[5] == p[0] {
                assert(s5[0] == p[5]);
            }
            if p[5] == p[1] {
                assert(s5[1] == p[5]);
            }
            if p[5] == p[2] {
                assert(s5[2] == p[5]);
            }
            if p[5] == p[3] {
                assert(s5[3] == p[5]);
            }
            if p[5] == p[4] {
                assert(s5[4] == p[5]);
            }
        }
        assert(first_occurrences(s1) =~= seq![dims]);
        if w == d && d == h {
            assert(first_occurrences(s6) =~= seq![dims]);
        } else if w != d && d != h && w != h {
            assert(first_occurrences(s6) =~= p);
        }
    }
}

/// Whether the list holds the triple.
fn holds(list: &Vec<Box3D>, dims: (i64, i64, i64), Ghost(seen): Ghost<Seq<(i64, i64, i64)>>) -> (r:
    bool)
    requires
        list@.len() == first_occurrences(seen).len(),
        forall|i: int| 0 <= i < list@.len() ==> (#[trigger] list@[i]).dims == first_occurrences(seen)[i],
    ensures
        r == seen.contains(dims),
{
    proof {
        lemma_first_occurrences_contains(seen, dims);
    }
    let mut i: usize = 0;
    while i < list.len()
        invariant
            i <= list@.len(),
            list@.len() == first_occurrences(seen).len(),
            forall|k: int|
                0 <= k < list@.len() ==> (#[trigger] list@[k]).dims == first_occurrences(seen)[k],
            forall|k: int| 0 <= k < i ==> first_occurrences(seen)[k] != dims,
            first_occurrences(seen).contains(dims) <==> seen.contains(dims),
        decreases list@.len() - i,
    {
        let d = list[i].dims;
        if d.0 == dims.0 && d.1 == dims.1 && d.2 == dims.2 {
            assert(first_occurrences(seen)[i as int] == dims);
            assert(first_occurrences(seen).contains(dims));
            return true;
        }
        i = i + 1;
    }
    false
}

/// The orientations of an item, in the order in which they are tried: the item as it is
/// when rotation is not allowed, else every distinct order of its side lengths.
pub fn orientations_for(object: &Box3D, allow_rotation: bool) -> (r: Vec<Box3D>)
    ensures
        r@ == orientations(*object, allow_rotation),
        1 <= r@.len() <= 6,
        r@[0] == *object,
        !allow_rotation ==> r@.len() == 1,
        allow_rotation && object.dims.0 == object.dims.1 && object.dims.1 == object.dims.2
            ==> r@.len() == 1,
        allow_rotation && (object.dims.0 == object.dims.1 || object.dims.1 == object.dims.2
            || object.dims.0 == object.dims.2) && !(object.dims.0 == object.dims.1
            && object.dims.1 == object.dims.2) ==> r@.len() == 3,
        allow_rotation && object.dims.0 != object.dims.1 && object.dims.1 != object.dims.2
            && object.dims.0 != object.dims.2 ==> r@.len() == 6,
{
    proof {
        lemma_orientation_count(object.dims, allow_rotation);
    }
    let mut unique: Vec<Box3D> = Vec::new();
    if !allow_rotation {
        unique.push(*object);
        assert(unique@ =~= orientations(*object, allow_rotation));
        return unique;
    }
    let (w, d, h) = object.dims;
    let all: [(i64, i64, i64); 6] = [(w, d, h), (w, h, d), (d, w, h), (d, h, w), (h, w, d), (h, d, w)];
    assert(all@ =~= permutations(object.dims));
    let mut i: usize = 0;
    while i < 6
        invariant
            i <= 6,
            all@ == permutations(object.dims),
            unique@.len() == first_occurrences(all@.take(i as int)).len(),
            forall|k: int|
                0 <= k < unique@.len() ==> #[trigger] unique@[k] == (Box3D {
                    id: object.id,
                    dims: first_occurrences(all@.take(i as int))[k],
                    weight: object.weight,
                }),
        decreases 6 - i,
    {
        let dims = all[i];
        proof {
            assert(all@.take(i as int + 1) =~= all@.take(i as int).push(dims));
            lemma_first_occurrences_push(all@.take(i as int), dims);
        }
        if !holds(&unique, dims, Ghost(all@.take(i as int))) {
            unique.push(Box3D { id: object.id, dims, weight: object.weight });
        }
        i = i + 1;
    }
    proof {
        assert(all@.take(6) =~= all@);
        assert(unique@ =~= orientations(*object, allow_rotation));
    }
    unique
}

/// Every orientation of a valid item is a valid item with the item's identifier,
/// weight and volume.
pub proof fn lemma_orientations_valid(object: Box3D, allow_rotation: bool)
    requires
        object.valid(),
    ensures
        forall|i: int|
            0 <= i < orientations(object, allow_rotation).len() ==> {
                let o = #[trigger] orientations(object, allow_rotation)[i];
                o.valid() && o.id == object.id && o.weight == object.weight && o.spec_volume()
                    == object.spec_volume() && permutations(object.dims).contains(o.dims)
            },
{
    let dims = object.dims;
    let p = permutations(dims);
    assert forall|i: int| 0 <= i < orientations(object, allow_rotation).len() implies {
        let o = #[trigger] orientations(object, allow_rotation)[i];
        o.valid() && o.id == object.id && o.weight == object.weight && o.spec_volume()
            == object.spec_volume() && permutations(object.dims).contains(o.dims)
    } by {
        let o = orientations(object, allow_rotation)[i];
        let od = orientation_dims(dims, allow_rotation);
        if allow_rotation {
            assert(od.contains(od[i]));
            lemma_first_occurrences_contains(p, od[i]);
        } else {
            assert(p[0] == dims);
        }
        assert(p.contains(o.dims));
        let k = choose|k: int| 0 <= k < p.len() && p[k] == o.dims;
        let (w, d, h) = (dims.0 as int, dims.1 as int, dims.2 as int);
        assert(w * d * h == w * h * d && w * d * h == d * w * h && w * d * h == d * h * w && w
            * d * h == h * w * d && w * d * h == h * d * w) by (nonlinear_arith);
    }
}

} // verus!
