//! Balance of a container: the offset of the weighted centre of mass from the centre
//! of the footprint, and the limit that the configuration sets for it.

use vstd::prelude::*;
use crate::fixed::{int_sqrt, isqrt, MAX_COORD, MAX_EXTENT, MAX_ITEMS, MAX_WEIGHT, SCALE};
use crate::geometry::{
    distance_2d, lemma_point_sums, lemma_point_sums_push, lemma_quotient_within, mass_center,
    moment_x, moment_y, plane_distance, point_weight_sum, valid_point, valid_points,
};
use crate::model::{all_valid, valid_dims, Container, PlacedBox};
use crate::optimizer::config::PackingConfig;

verus! {

/// The centre of the footprint of a placed box, with the weight of the box.
pub open spec fn center_point(p: PlacedBox) -> (i64, i64, i64) {
    (
        (p.position.0 + p.object.dims.0 / 2) as i64,
        (p.position.1 + p.object.dims.1 / 2) as i64,
        p.object.weight,
    )
}

/// The weighted centre points of a sequence of placed boxes.
pub open spec fn center_points(placed: Seq<PlacedBox>) -> Seq<(i64, i64, i64)> {
    Seq::new(placed.len(), |i: int| center_point(placed[i]))
}

/// Centre of the footprint of a container with the given dimensions.
pub open spec fn footprint_center(dims: (i64, i64, i64)) -> (int, int) {
    (dims.0 as int / 2, dims.1 as int / 2)
}

/// Distance of the weighted centre of mass of the placed boxes from the centre of the
/// footprint; zero for no boxes.
pub open spec fn balance_offset(dims: (i64, i64, i64), placed: Seq<PlacedBox>) -> int {
    match mass_center(center_points(placed)) {
        Some(cm) => plane_distance(cm, footprint_center(dims)),
        None => 0,
    }
}

/// The balance offset that the container would have with one more box.
pub open spec fn balance_after(dims: (i64, i64, i64), placed: Seq<PlacedBox>, extra: PlacedBox) -> int {
    balance_offset(dims, placed.push(extra))
}

/// Half diagonal of the footprint, rounded down.
pub open spec fn half_diagonal(dims: (i64, i64, i64)) -> int {
    int_sqrt((dims.0 as int / 2) * (dims.0 as int / 2) + (dims.1 as int / 2) * (dims.1 as int / 2))
}

/// Largest balance offset that the configuration allows: the half diagonal of the
/// footprint times the balance limit ratio, rounded down.
pub open spec fn balance_limit(dims: (i64, i64, i64), config: PackingConfig) -> int {
    half_diagonal(dims) * config.balance_limit_ratio / (SCALE as int)
}

/// The centre points of valid boxes are valid points.
pub proof fn lemma_center_points_valid(placed: Seq<PlacedBox>)
    requires
        all_valid(placed),
    ensures
        valid_points(center_points(placed)),
{
    assert forall|i: int| 0 <= i < placed.len() implies valid_point(
        #[trigger] center_points(placed)[i],
    ) by {
        assert(placed[i].valid());
    }
}

/// The centre points of a sequence with one more box.
pub proof fn lemma_center_points_push(placed: Seq<PlacedBox>, extra: PlacedBox)
    ensures
        center_points(placed.push(extra)) == center_points(placed).push(center_point(extra)),
{
    assert(center_points(placed.push(extra)) =~= center_points(placed).push(center_point(extra)));
}

/// Total weight and moments of the centre points of the placed boxes.
fn mass_sums(placed: &Vec<PlacedBox>) -> (r: (i128, i128, i128))
    requires
        all_valid(placed@),
        placed@.len() <= MAX_ITEMS,
    ensures
        r.0 == point_weight_sum(center_points(placed@)),
        r.1 == moment_x(center_points(placed@)),
        r.2 == moment_y(center_points(placed@)),
        placed@.len() <= r.0 <= placed@.len() * MAX_WEIGHT,
        0 <= r.1 <= MAX_EXTENT * r.0,
        0 <= r.2 <= MAX_EXTENT * r.0,
{
    let mut total: i128 = 0;
    let mut mx: i128 = 0;
    let mut my: i128 = 0;
    let mut i: usize = 0;
    while i < placed.len()
        invariant
            i <= placed@.len() <= MAX_ITEMS,
            all_valid(placed@),
            total == point_weight_sum(center_points(placed@.take(i as int))),
            mx == moment_x(center_points(placed@.take(i as int))),
            my == moment_y(center_points(placed@.take(i as int))),
            i <= total <= i * MAX_WEIGHT,
            0 <= mx <= MAX_EXTENT * total,
            0 <= my <= MAX_EXTENT * total,
        decreases placed@.len() - i,
    {
        let p = &placed[i];
        let cx: i64 = p.position.0 + p.object.dims.0 / 2;
        let cy: i64 = p.position.1 + p.object.dims.1 / 2;
        proof {
            let prev = placed@.take(i as int);
            let next = placed@.take(i as int + 1);
            assert(next =~= prev.push(*p));
            lemma_center_points_push(prev, *p);
            lemma_point_sums_push(center_points(prev), center_point(*p));
            assert(all_valid(next)) by {
                assert forall|k: int| 0 <= k < next.len() implies (#[trigger] next[k]).valid() by {
                    assert(next[k] == placed@[k]);
                }
            }
            lemma_center_points_valid(next);
            lemma_point_sums(center_points(next));
            assert(p.valid());
            let w = p.object.weight as int;
            assert((i + 1) * MAX_WEIGHT == i * MAX_WEIGHT + MAX_WEIGHT) by (nonlinear_arith);
            assert((i + 1) * MAX_WEIGHT <= MAX_ITEMS * MAX_WEIGHT) by (nonlinear_arith)
                requires
                    i + 1 <= MAX_ITEMS,
            ;
            assert(MAX_EXTENT * (total + w) <= MAX_EXTENT * (MAX_ITEMS * MAX_WEIGHT))
                by (nonlinear_arith)
                requires
                    0 <= total + w <= MAX_ITEMS * MAX_WEIGHT,
            ;
            assert(0 <= cx * w <= MAX_EXTENT * MAX_WEIGHT) by (nonlinear_arith)
                requires
                    0 <= cx <= MAX_EXTENT,
                    0 <= w <= MAX_WEIGHT,
            ;
            assert(0 <= cy * w <= MAX_EXTENT * MAX_WEIGHT) by (nonlinear_arith)
                requires
                    0 <= cy <= MAX_EXTENT,
                    0 <= w <= MAX_WEIGHT,
            ;
        }
        total = total + p.object.weight as i128;
        mx = mx + cx as i128 * p.object.weight as i128;
        my = my + cy as i128 * p.object.weight as i128;
        i = i + 1;
    }
    proof {
        assert(placed@.take(i as int) =~= placed@);
    }
    (total, mx, my)
}

/// Distance from the container's footprint centre of the centre of mass given by a
/// total weight and two moments.
fn offset_from_sums(cont: &Container, total: i128, mx: i128, my: i128) -> (r: i64)
    requires
        valid_dims(cont.dims),
        0 < total <= (MAX_ITEMS + 1) * MAX_WEIGHT,
        0 <= mx <= MAX_EXTENT * total,
        0 <= my <= MAX_EXTENT * total,
    ensures
        r == plane_distance((mx / total, my / total), footprint_center(cont.dims)),
        0 <= r <= 4 * MAX_EXTENT,
{
    proof {
        lemma_quotient_within(mx as int, total as int, MAX_EXTENT as int);
        lemma_quotient_within(my as int, total as int, MAX_EXTENT as int);
    }
    let cm: (i64, i64) = ((mx / total) as i64, (my / total) as i64);
    distance_2d(cm, (cont.dims.0 / 2, cont.dims.1 / 2))
}

/// Balance offset that the container would have with `new_box` added: the distance of
/// the weighted centre of mass of all boxes from the centre of the footprint.
pub fn calculate_balance_after(cont: &Container, new_box: &PlacedBox) -> (r: i64)
    requires
        cont.valid(),
        new_box.valid(),
    ensures
        r == balance_after(cont.dims, cont.placed@, *new_box),
        0 <= r <= 4 * MAX_EXTENT,
{
    let sums = mass_sums(&cont.placed);
    let cx: i64 = new_box.position.0 + new_box.object.dims.0 / 2;
    let cy: i64 = new_box.position.1 + new_box.object.dims.1 / 2;
    let w: i128 = new_box.object.weight as i128;
    proof {
        let n = cont.placed@.len() as int;
        lemma_center_points_push(cont.placed@, *new_box);
        lemma_point_sums_push(center_points(cont.placed@), center_point(*new_box));
        assert(n * MAX_WEIGHT + MAX_WEIGHT <= (MAX_ITEMS + 1) * MAX_WEIGHT) by (nonlinear_arith)
            requires
                0 <= n <= MAX_ITEMS,
        ;
        assert(0 <= cx * w <= MAX_EXTENT * w) by (nonlinear_arith)
            requires
                0 <= cx <= MAX_EXTENT,
                0 <= w,
        ;
        assert(0 <= cy * w <= MAX_EXTENT * w) by (nonlinear_arith)
            requires
                0 <= cy <= MAX_EXTENT,
                0 <= w,
        ;
        assert(MAX_EXTENT * (sums.0 + w) == MAX_EXTENT * sums.0 + MAX_EXTENT * w)
            by (nonlinear_arith);
        assert(MAX_EXTENT * (sums.0 + w) <= MAX_EXTENT * ((MAX_ITEMS + 1) * MAX_WEIGHT))
            by (nonlinear_arith)
            requires
                0 <= sums.0 + w <= (MAX_ITEMS + 1) * MAX_WEIGHT,
        ;
    }
    offset_from_sums(cont, sums.0 + w, sums.1 + cx as i128 * w, sums.2 + cy as i128 * w)
}

/// Largest balance offset that the configuration allows for the container.
pub fn calculate_balance_limit(cont: &Container, config: &PackingConfig) -> (r: i64)
    requires
        valid_dims(cont.dims),
        config.valid(),
    ensures
        r == balance_limit(cont.dims, *config),
        0 <= r <= MAX_COORD,
{
    let half_x: i128 = (cont.dims.0 / 2) as i128;
    let half_y: i128 = (cont.dims.1 / 2) as i128;
    assert(0 <= half_x * half_x <= 50_000_000_000 * 50_000_000_000 && 0 <= half_y * half_y
        <= 50_000_000_000 * 50_000_000_000) by (nonlinear_arith)
        requires
            0 <= half_x <= 50_000_000_000,
            0 <= half_y <= 50_000_000_000,
    ;
    let sum: u128 = (half_x * half_x + half_y * half_y) as u128;
    let root: u64 = isqrt(sum);
    proof {
        if root > 100_000_000_000 {
            assert(root * root > sum) by (nonlinear_arith)
                requires
                    root > 100_000_000_000,
                    sum <= 5_000_000_000_000_000_000_000,
            ;
        }
        assert(0 <= root * config.balance_limit_ratio <= 100_000_000_000 * 1_000_000)
            by (nonlinear_arith)
            requires
                0 <= root <= 100_000_000_000,
                0 <= config.balance_limit_ratio <= 1_000_000,
        ;
    }
    let scaled: i128 = root as i128 * config.balance_limit_ratio as i128;
    (scaled / 1_000_000) as i64
}

/// Balance offset of the container as it is: zero when it is empty.
pub fn calculate_current_balance_offset(cont: &Container) -> (r: i64)
    requires
        cont.valid(),
    ensures
        r == balance_offset(cont.dims, cont.placed@),
        0 <= r <= 4 * MAX_EXTENT,
{
    if cont.placed.len() == 0 {
        assert(center_points(cont.placed@) =~= Seq::<(i64, i64, i64)>::empty());
        return 0;
    }
    let sums = mass_sums(&cont.placed);
    proof {
        let n = cont.placed@.len() as int;
        assert(n * MAX_WEIGHT <= (MAX_ITEMS + 1) * MAX_WEIGHT) by (nonlinear_arith)
            requires
                0 <= n <= MAX_ITEMS,
        ;
    }
    offset_from_sums(cont, sums.0, sums.1, sums.2)
}

} // verus!
