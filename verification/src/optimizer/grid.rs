//! Candidate coordinates: the position grid along one axis and the height layers of a
//! container.

use vstd::prelude::*;
use crate::fixed::{abs, abs_diff, max, min, MAX_EXTENT, MAX_LENGTH};
use crate::model::{all_valid, Container, PlacedBox};

verus! {

/// The regular sweep along one axis: `count` positions, the `k`-th being `k * step`,
/// capped at `max_pos`.
pub open spec fn sweep(max_pos: int, step: int, count: nat) -> Seq<i64> {
    Seq::new(count, |k: int| min(k * step, max_pos) as i64)
}

/// Number of sweep positions: those multiples of `step`, from zero on, that are at most
/// `max_pos + epsilon`.
pub open spec fn sweep_count(max_pos: int, step: int, epsilon: int) -> nat {
    ((max_pos + epsilon) / step + 1) as nat
}

/// The positions with the far edge `max_pos` added, unless the last one is already
/// within the tolerance of it.
pub open spec fn with_edge(positions: Seq<i64>, max_pos: int, epsilon: int) -> Seq<i64> {
    if positions.len() == 0 || abs(positions.last() - max_pos) > epsilon {
        positions.push(max_pos as i64)
    } else {
        positions
    }
}

/// The values without near repeats: a value is dropped when it is closer than `epsilon`
/// to the value kept before it.
pub open spec fn dedup_within(values: Seq<i64>, epsilon: int) -> Seq<i64>
    decreases values.len(),
{
    if values.len() == 0 {
        values
    } else {
        let kept = dedup_within(values.drop_last(), epsilon);
        if kept.len() > 0 && abs(values.last() - kept.last()) < epsilon {
            kept
        } else {
            kept.push(values.last())
        }
    }
}

/// Candidate positions of an object of length `object_len` along an axis of length
/// `container_len`: zero alone when there is no room to move, else the regular sweep
/// from zero with the far edge added, without near repeats.
pub open spec fn axis_grid(container_len: int, object_len: int, step: int, epsilon: int) -> Seq<
    i64,
> {
    let max_pos = max(container_len - object_len, 0);
    if max_pos <= epsilon {
        seq![0i64]
    } else {
        dedup_within(
            with_edge(sweep(max_pos, step, sweep_count(max_pos, step, epsilon)), max_pos, epsilon),
            epsilon,
        )
    }
}

/// Every value lies between `lo` and `hi`.
pub open spec fn all_within(values: Seq<i64>, lo: int, hi: int) -> bool {
    forall|i: int| 0 <= i < values.len() ==> lo <= #[trigger] values[i] <= hi
}

/// Dropping near repeats keeps the values within their bounds, keeps at least one value
/// of a sequence that has one, and keeps the first value first.
pub proof fn lemma_dedup_within(values: Seq<i64>, epsilon: int, lo: int, hi: int)
    requires
        all_within(values, lo, hi),
    ensures
        all_within(dedup_within(values, epsilon), lo, hi),
        dedup_within(values, epsilon).len() <= values.len(),
        values.len() > 0 ==> dedup_within(values, epsilon).len() > 0 && dedup_within(
            values,
            epsilon,
        )[0] == values[0],
    decreases values.len(),
{
    if values.len() > 0 {
        let rest = values.drop_last();
        assert(all_within(rest, lo, hi)) by {
            assert forall|i: int| 0 <= i < rest.len() implies lo <= #[trigger] rest[i] <= hi by {
                assert(rest[i] == values[i]);
            }
        }
        lemma_dedup_within(rest, epsilon, lo, hi);
        if rest.len() > 0 {
            assert(rest[0] == values[0]);
        }
    }
}

/// Dropping near repeats one value further.
pub proof fn lemma_dedup_step(values: Seq<i64>, v: i64, epsilon: int)
    ensures
        dedup_within(values.push(v), epsilon) == (if dedup_within(values, epsilon).len() > 0
            && abs(v - dedup_within(values, epsilon).last()) < epsilon {
            dedup_within(values, epsilon)
        } else {
            dedup_within(values, epsilon).push(v)
        }),
{
    assert(values.push(v).drop_last() =~= values);
}

/// The values in the given order without near repeats.
pub fn dedup_values(values: &Vec<i64>, epsilon: i64) -> (r: Vec<i64>)
    ensures
        r@ == dedup_within(values@, epsilon as int),
{
    let mut out: Vec<i64> = Vec::new();
    let mut i: usize = 0;
    while i < values.len()
        invariant
            i <= values@.len(),
            out@ == dedup_within(values@.take(i as int), epsilon as int),
        decreases values@.len() - i,
    {
        let v: i64 = values[i];
        proof {
            assert(values@.take(i as int + 1) =~= values@.take(i as int).push(v));
            lemma_dedup_step(values@.take(i as int), v, epsilon as int);
        }
        let n: usize = out.len();
        if n > 0 && (abs_diff(v, out[n - 1]) as i128) < epsilon as i128 {
        } else {
            out.push(v);
        }
        i = i + 1;
    }
    assert(values@.take(i as int) =~= values@);
    out
}

/// The count of sweep positions is the number of loop rounds: the first multiple of
/// the step beyond the limit.
proof fn lemma_sweep_count(limit: int, step: int, k: int)
    requires
        step > 0,
        limit >= 0,
        k >= 1,
        (k - 1) * step <= limit,
        k * step > limit,
    ensures
        limit / step + 1 == k,
{
    assert(limit / step == k - 1) by (nonlinear_arith)
        requires
            step > 0,
            (k - 1) * step <= limit,
            k * step > limit,
    ;
}

/// Candidate positions of an object along one axis of a container.
pub fn axis_positions(container_len: i64, object_len: i64, step: i64, epsilon: i64) -> (r: Vec<i64>)
    requires
        1 <= container_len <= MAX_LENGTH,
        1 <= object_len <= MAX_LENGTH,
        1 <= step <= MAX_LENGTH,
        1 <= epsilon <= MAX_LENGTH,
    ensures
        r@ == axis_grid(container_len as int, object_len as int, step as int, epsilon as int),
        r@.len() > 0,
        r@[0] == 0,
        all_within(r@, 0, max(container_len - object_len, 0)),
{
    let max_pos: i64 = if container_len > object_len { container_len - object_len } else { 0 };
    let mut positions: Vec<i64> = Vec::new();
    if max_pos <= epsilon {
        positions.push(0);
        assert(positions@ =~= seq![0i64]);
        return positions;
    }
    let mut pos: i64 = 0;
    let ghost mut k: int = 0;
    while pos <= max_pos + epsilon
        invariant
            0 < max_pos <= MAX_LENGTH,
            1 <= step <= MAX_LENGTH,
            1 <= epsilon <= MAX_LENGTH,
            k >= 0,
            pos == k * step,
            k > 0 ==> (k - 1) * step <= max_pos + epsilon,
            0 <= pos <= max_pos + epsilon + step,
            positions@ == sweep(max_pos as int, step as int, k as nat),
        decreases max_pos + epsilon + step - pos,
    {
        let capped: i64 = if pos <= max_pos { pos } else { max_pos };
        positions.push(capped);
        proof {
            assert(positions@ =~= sweep(max_pos as int, step as int, (k + 1) as nat));
            assert((k + 1) * step == k * step + step) by (nonlinear_arith);
            k = k + 1;
        }
        pos = pos + step;
    }
    proof {
        assert(k >= 1);
        lemma_sweep_count(max_pos + epsilon, step as int, k);
        assert(k as nat == sweep_count(max_pos as int, step as int, epsilon as int));
    }
    let n: usize = positions.len();
    let ghost swept = positions@;
    let last: i64 = positions[n - 1];
    if abs_diff(last, max_pos) as i128 > epsilon as i128 {
        positions.push(max_pos);
    }
    proof {
        assert(positions@ == with_edge(swept, max_pos as int, epsilon as int));
        assert(all_within(positions@, 0, max_pos as int)) by {
            assert forall|i: int| 0 <= i < positions@.len() implies 0 <= #[trigger] positions@[i]
                <= max_pos by {
                if i < swept.len() {
                    assert(0 <= i * step) by (nonlinear_arith)
                        requires
                            0 <= i,
                            step > 0,
                    ;
                }
            }
        }
        lemma_dedup_within(positions@, epsilon as int, 0, max_pos as int);
        assert(positions@[0] == swept[0]);
        assert(0 * step == 0) by (nonlinear_arith);
    }
    dedup_values(&positions, epsilon)
}

/// The values with `v` put in after the last value that is not larger.
pub open spec fn insert_sorted(values: Seq<i64>, v: i64) -> Seq<i64>
    decreases values.len(),
{
    if values.len() == 0 {
        seq![v]
    } else if values.last() <= v {
        values.push(v)
    } else {
        insert_sorted(values.drop_last(), v).push(values.last())
    }
}

/// The values in ascending order.
pub open spec fn sorted_values(values: Seq<i64>) -> Seq<i64>
    decreases values.len(),
{
    if values.len() == 0 {
        values
    } else {
        insert_sorted(sorted_values(values.drop_last()), values.last())
    }
}

/// No value is larger than a later one.
pub open spec fn ascending(values: Seq<i64>) -> bool {
    forall|i: int, j: int| 0 <= i < j < values.len() ==> values[i] <= values[j]
}

/// Putting a value in at the place where everything before is not larger and
/// everything from there on is larger.
pub proof fn lemma_insert_sorted_at(values: Seq<i64>, v: i64, at: int)
    requires
        0 <= at <= values.len(),
        at > 0 ==> values[at - 1] <= v,
        forall|k: int| at <= k < values.len() ==> values[k] > v,
    ensures
        insert_sorted(values, v) == values.insert(at, v),
    decreases values.len() - at,
{
    if at == values.len() {
        assert(values.insert(at, v) =~= values.push(v));
    } else {
        let rest = values.drop_last();
        assert(values.last() > v);
        assert(at > 0 ==> rest[at - 1] == values[at - 1]);
        assert forall|k: int| at <= k < rest.len() implies rest[k] > v by {
            assert(rest[k] == values[k]);
        }
        lemma_insert_sorted_at(rest, v, at);
        assert(rest.insert(at, v).push(values.last()) =~= values.insert(at, v));
    }
}

/// Putting a value into ascending values keeps them ascending and within bounds.
pub proof fn lemma_insert_sorted(values: Seq<i64>, v: i64, lo: int, hi: int)
    requires
        ascending(values),
        all_within(values, lo, hi),
        lo <= v <= hi,
    ensures
        ascending(insert_sorted(values, v)),
        all_within(insert_sorted(values, v), lo, hi),
        insert_sorted(values, v).len() == values.len() + 1,
    decreases values.len(),
{
    if values.len() > 0 && values.last() > v {
        let rest = values.drop_last();
        assert(ascending(rest)) by {
            assert forall|i: int, j: int| 0 <= i < j < rest.len() implies rest[i] <= rest[j] by {
                assert(rest[i] == values[i] && rest[j] == values[j]);
            }
        }
        assert(all_within(rest, lo, hi)) by {
            assert forall|i: int| 0 <= i < rest.len() implies lo <= #[trigger] rest[i] <= hi by {
                assert(rest[i] == values[i]);
            }
        }
        lemma_insert_sorted(rest, v, lo, hi);
        let r = insert_sorted(rest, v);
        let out = r.push(values.last());
        lemma_insert_sorted_values(rest, v);
        assert forall|i: int, j: int| 0 <= i < j < out.len() implies out[i] <= out[j] by {
            if j == out.len() - 1 {
                assert(r[i] == v || exists|k: int| 0 <= k < rest.len() && rest[k] == r[i]);
                if r[i] != v {
                    let k = choose|k: int| 0 <= k < rest.len() && rest[k] == r[i];
                    assert(values[k] <= values[values.len() - 1]);
                }
            }
        }
    }
}

/// Every value after putting `v` in is `v` or one of the values before.
pub proof fn lemma_insert_sorted_values(values: Seq<i64>, v: i64)
    ensures
        forall|i: int|
            0 <= i < insert_sorted(values, v).len() ==> (#[trigger] insert_sorted(values, v)[i]
                == v || exists|k: int| 0 <= k < values.len() && values[k] == insert_sorted(
                values,
                v,
            )[i]),
    decreases values.len(),
{
    let r = insert_sorted(values, v);
    if values.len() == 0 {
    } else if values.last() <= v {
        assert forall|i: int| 0 <= i < r.len() implies (#[trigger] r[i] == v || exists|k: int|
            0 <= k < values.len() && values[k] == r[i]) by {
            if i < values.len() {
                assert(values[i] == r[i]);
            }
        }
    } else {
        let rest = values.drop_last();
        lemma_insert_sorted_values(rest, v);
        let inner = insert_sorted(rest, v);
        assert forall|i: int| 0 <= i < r.len() implies (#[trigger] r[i] == v || exists|k: int|
            0 <= k < values.len() && values[k] == r[i]) by {
            if i < inner.len() {
                assert(r[i] == inner[i]);
                if inner[i] != v {
                    let k = choose|k: int| 0 <= k < rest.len() && rest[k] == inner[i];
                    assert(values[k] == r[i]);
                }
            } else {
                assert(values[values.len() - 1] == r[i]);
            }
        }
    }
}

/// Sorting gives ascending values within the bounds of the input, and as many.
pub proof fn lemma_sorted_values(values: Seq<i64>, lo: int, hi: int)
    requires
        all_within(values, lo, hi),
    ensures
        ascending(sorted_values(values)),
        all_within(sorted_values(values), lo, hi),
        sorted_values(values).len() == values.len(),
    decreases values.len(),
{
    if values.len() > 0 {
        let rest = values.drop_last();
        assert(all_within(rest, lo, hi)) by {
            assert forall|i: int| 0 <= i < rest.len() implies lo <= #[trigger] rest[i] <= hi by {
                assert(rest[i] == values[i]);
            }
        }
        lemma_sorted_values(rest, lo, hi);
        lemma_insert_sorted(sorted_values(rest), values.last(), lo, hi);
    }
}

/// The values in ascending order.
pub fn sort_values(values: &Vec<i64>) -> (r: Vec<i64>)
    ensures
        r@ == sorted_values(values@),
        ascending(r@),
        r@.len() == values@.len(),
{
    let mut out: Vec<i64> = Vec::new();
    let mut i: usize = 0;
    proof {
        lemma_sorted_values(values@, i64::MIN as int, i64::MAX as int);
    }
    while i < values.len()
        invariant
            i <= values@.len(),
            out@ == sorted_values(values@.take(i as int)),
            out@.len() == i,
        decreases values@.len() - i,
    {
        let v: i64 = values[i];
        let mut at: usize = out.len();
        while at > 0 && out[at - 1] > v
            invariant
                at <= out@.len(),
                forall|k: int| at <= k < out@.len() ==> out@[k] > v,
            decreases at,
        {
            at = at - 1;
        }
        proof {
            assert(values@.take(i as int + 1).drop_last() =~= values@.take(i as int));
            lemma_insert_sorted_at(out@, v, at as int);
        }
        out.insert(at, v);
        i = i + 1;
    }
    assert(values@.take(i as int) =~= values@);
    out
}

/// Heights of the top faces of the placed boxes.
pub open spec fn top_heights(placed: Seq<PlacedBox>) -> Seq<i64> {
    Seq::new(placed.len(), |i: int| placed[i].spec_top_z() as i64)
}

/// Candidate heights in a container: the floor and the top of every placed box, in
/// ascending order, without near repeats.
pub open spec fn layer_heights(placed: Seq<PlacedBox>, height_epsilon: int) -> Seq<i64> {
    dedup_within(sorted_values(top_heights(placed).push(0i64)), height_epsilon)
}

/// Candidate heights in a container.
pub fn z_layers(cont: &Container, height_epsilon: i64) -> (r: Vec<i64>)
    requires
        cont.valid(),
    ensures
        r@ == layer_heights(cont.placed@, height_epsilon as int),
        all_within(r@, 0, MAX_EXTENT as int),
        r@.len() > 0,
{
    let mut tops: Vec<i64> = Vec::new();
    let mut i: usize = 0;
    while i < cont.placed.len()
        invariant
            i <= cont.placed@.len(),
            all_valid(cont.placed@),
            tops@ == top_heights(cont.placed@).take(i as int),
        decreases cont.placed@.len() - i,
    {
        let p = &cont.placed[i];
        assert(p.valid());
        tops.push(p.position.2 + p.object.dims.2);
        assert(tops@ =~= top_heights(cont.placed@).take(i as int + 1));
        i = i + 1;
    }
    assert(top_heights(cont.placed@).take(i as int) =~= top_heights(cont.placed@));
    tops.push(0);
    proof {
        assert(all_within(tops@, 0, MAX_EXTENT as int)) by {
            assert forall|k: int| 0 <= k < tops@.len() implies 0 <= #[trigger] tops@[k]
                <= MAX_EXTENT by {
                if k < cont.placed@.len() {
                    assert(cont.placed@[k].valid());
                }
            }
        }
        lemma_sorted_values(tops@, 0, MAX_EXTENT as int);
        lemma_dedup_within(sorted_values(tops@), height_epsilon as int, 0, MAX_EXTENT as int);
    }
    let sorted = sort_values(&tops);
    dedup_values(&sorted, height_epsilon)
}

} // verus!
