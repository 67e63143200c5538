//! Stability rules for a candidate placement: supported area, weight hierarchy and
//! support under the centre.

use vstd::prelude::*;
use crate::fixed::{max, min, MAX_ITEMS, SCALE};
use crate::geometry::{
    contact_area, lemma_overlap_within, meets_top, overlap_1d, overlap_x, overlap_y, point_in_box,
    point_inside, touches_top,
};
use crate::model::{all_valid, Container, PlacedBox};
use crate::optimizer::config::PackingConfig;

verus! {

/// The candidate rests on the floor: its bottom is within the height tolerance of zero.
pub open spec fn on_floor(b: PlacedBox, config: PackingConfig) -> bool {
    b.position.2 <= config.height_epsilon
}

/// `p` supports `b`: the bottom of `b` meets the top of `p` within the height tolerance
/// and their footprints overlap on both axes.
pub open spec fn is_support(b: PlacedBox, p: PlacedBox, config: PackingConfig) -> bool {
    &&& touches_top(b, p, config.height_epsilon as int)
    &&& overlap_x(b, p) > 0
    &&& overlap_y(b, p) > 0
}

/// Total area on which `b` rests on the boxes of `placed`.
pub open spec fn supported_area(b: PlacedBox, placed: Seq<PlacedBox>, config: PackingConfig) -> int
    decreases placed.len(),
{
    if placed.len() == 0 {
        0
    } else {
        supported_area(b, placed.drop_last(), config) + contact_area(
            b,
            placed.last(),
            config.height_epsilon as int,
        )
    }
}

/// Fraction of the base area of `b` that rests on boxes of `placed`, as a fixed-point
/// ratio between zero and one: one for a box on the floor, zero for a base area no
/// larger than the square of the general tolerance, else the supported area over the
/// base area, rounded down and capped at one.
pub open spec fn support_ratio(b: PlacedBox, placed: Seq<PlacedBox>, config: PackingConfig) -> int {
    if on_floor(b, config) {
        SCALE as int
    } else if b.object.spec_base_area() <= config.general_epsilon * config.general_epsilon {
        0
    } else {
        min(
            SCALE as int,
            max(0, supported_area(b, placed, config) * SCALE / b.object.spec_base_area()),
        )
    }
}

/// The supported fraction that the configuration asks for: the support ratio less the
/// general tolerance, at least zero.
pub open spec fn required_support(config: PackingConfig) -> int {
    max(0, config.support_ratio - config.general_epsilon)
}

/// Sufficient support: a box on the floor, or a supported fraction of at least what
/// the configuration asks for.
pub open spec fn sufficiently_supported(
    b: PlacedBox,
    placed: Seq<PlacedBox>,
    config: PackingConfig,
) -> bool {
    on_floor(b, config) || support_ratio(b, placed, config) >= required_support(config)
}

/// Weight hierarchy: a box on the floor, or a box with at least one supporting box
/// and no supporting box lighter than itself by more than the general tolerance.
pub open spec fn weight_supported(b: PlacedBox, placed: Seq<PlacedBox>, config: PackingConfig) -> bool {
    on_floor(b, config) || ((exists|i: int|
        0 <= i < placed.len() && is_support(b, #[trigger] placed[i], config)) && (forall|i: int|
        0 <= i < placed.len() && is_support(b, #[trigger] placed[i], config) ==> placed[i].object.weight
            + config.general_epsilon >= b.object.weight))
}

/// The point under the centre of the base of `b`.
pub open spec fn base_center(b: PlacedBox) -> (i64, i64, i64) {
    (
        (b.position.0 + b.object.dims.0 / 2) as i64,
        (b.position.1 + b.object.dims.1 / 2) as i64,
        b.position.2,
    )
}

/// `p` carries the centre of `b`: the bottom of `b` meets the top of `p` within the
/// height tolerance and the point under the centre of `b` lies inside `p`.
pub open spec fn carries_center(b: PlacedBox, p: PlacedBox, config: PackingConfig) -> bool {
    touches_top(b, p, config.height_epsilon as int) && point_in_box(base_center(b), p)
}

/// Centre support: a box on the floor, or a box whose centre some box carries.
pub open spec fn center_supported(b: PlacedBox, placed: Seq<PlacedBox>, config: PackingConfig) -> bool {
    on_floor(b, config) || exists|i: int|
        0 <= i < placed.len() && carries_center(b, #[trigger] placed[i], config)
}

/// All three stability rules hold for `b` on top of `placed`.
pub open spec fn stable_on(b: PlacedBox, placed: Seq<PlacedBox>, config: PackingConfig) -> bool {
    &&& sufficiently_supported(b, placed, config)
    &&& weight_supported(b, placed, config)
    &&& center_supported(b, placed, config)
}

/// The supported area is at least zero and at most the base area for each box.
pub proof fn lemma_supported_area_bounds(b: PlacedBox, placed: Seq<PlacedBox>, config: PackingConfig)
    requires
        b.valid(),
        all_valid(placed),
    ensures
        0 <= supported_area(b, placed, config) <= placed.len() * b.object.spec_base_area(),
    decreases placed.len(),
{
    if placed.len() > 0 {
        let rest = placed.drop_last();
        assert(all_valid(rest)) by {
            assert forall|i: int| 0 <= i < rest.len() implies (#[trigger] rest[i]).valid() by {
                assert(rest[i] == placed[i]);
            }
        }
        lemma_supported_area_bounds(b, rest, config);
        assert(placed.last().valid());
        lemma_overlap_within(b, placed.last());
        let n = rest.len() as int;
        let a = b.object.spec_base_area();
        assert((n + 1) * a == n * a + a) by (nonlinear_arith);
    }
}

/// Adding a box never takes support away.
pub proof fn lemma_supported_area_push(
    b: PlacedBox,
    placed: Seq<PlacedBox>,
    extra: PlacedBox,
    config: PackingConfig,
)
    requires
        b.valid(),
        extra.valid(),
    ensures
        supported_area(b, placed.push(extra), config) == supported_area(b, placed, config)
            + contact_area(b, extra, config.height_epsilon as int),
        supported_area(b, placed.push(extra), config) >= supported_area(b, placed, config),
{
    assert(placed.push(extra).drop_last() =~= placed);
    lemma_overlap_within(b, extra);
}

/// Whether `p` supports `b`.
fn supports(b: &PlacedBox, p: &PlacedBox, config: &PackingConfig) -> (r: (bool, i64, i64))
    requires
        b.valid(),
        p.valid(),
    ensures
        r.0 == is_support(*b, *p, *config),
        r.0 ==> r.1 == overlap_x(*b, *p) && r.2 == overlap_y(*b, *p),
{
    if !meets_top(b, p, config.height_epsilon) {
        return (false, 0, 0);
    }
    let over_x: i64 = overlap_1d(
        b.position.0,
        b.position.0 + b.object.dims.0,
        p.position.0,
        p.position.0 + p.object.dims.0,
    );
    let over_y: i64 = overlap_1d(
        b.position.1,
        b.position.1 + b.object.dims.1,
        p.position.1,
        p.position.1 + p.object.dims.1,
    );
    (over_x > 0 && over_y > 0, over_x, over_y)
}

/// Fraction of the base area of `b` that rests on boxes of the container.
pub fn support_ratio_of(b: &PlacedBox, cont: &Container, config: &PackingConfig) -> (r: i64)
    requires
        b.valid(),
        cont.valid(),
        config.valid(),
    ensures
        r == support_ratio(*b, cont.placed@, *config),
        0 <= r <= SCALE,
{
    if b.position.2 <= config.height_epsilon {
        return SCALE;
    }
    let base_area: i128 = b.object.base_area();
    assert(0 <= config.general_epsilon * config.general_epsilon <= 100_000_000_000
        * 100_000_000_000) by (nonlinear_arith)
        requires
            1 <= config.general_epsilon <= 100_000_000_000,
    ;
    let min_support_area: i128 = config.general_epsilon as i128 * config.general_epsilon as i128;
    if base_area <= min_support_area {
        return 0;
    }
    let mut area: i128 = 0;
    let mut i: usize = 0;
    while i < cont.placed.len()
        invariant
            i <= cont.placed@.len() <= MAX_ITEMS,
            b.valid(),
            all_valid(cont.placed@),
            config.valid(),
            base_area == b.object.spec_base_area(),
            0 < base_area <= 10_000_000_000_000_000_000_000,
            area == supported_area(*b, cont.placed@.take(i as int), *config),
            0 <= area <= i * base_area,
        decreases cont.placed@.len() - i,
    {
        let p = &cont.placed[i];
        proof {
            let prev = cont.placed@.take(i as int);
            assert(cont.placed@.take(i as int + 1) =~= prev.push(*p));
            assert(p.valid());
            lemma_supported_area_push(*b, prev, *p, *config);
            lemma_overlap_within(*b, *p);
            assert((i + 1) * base_area == i * base_area + base_area) by (nonlinear_arith);
            assert(i * base_area <= 100_000 * base_area) by (nonlinear_arith)
                requires
                    i <= 100_000,
                    base_area > 0,
            ;
        }
        let s = supports(b, p, config);
        if s.0 {
            area = area + s.1 as i128 * s.2 as i128;
        } else {
            assert(contact_area(*b, *p, config.height_epsilon as int) == 0) by (nonlinear_arith)
                requires
                    contact_area(*b, *p, config.height_epsilon as int) == (if touches_top(
                        *b,
                        *p,
                        config.height_epsilon as int,
                    ) {
                        overlap_x(*b, *p) * overlap_y(*b, *p)
                    } else {
                        0
                    }),
                    !touches_top(*b, *p, config.height_epsilon as int) || overlap_x(*b, *p) <= 0
                        || overlap_y(*b, *p) <= 0,
                    overlap_x(*b, *p) >= 0,
                    overlap_y(*b, *p) >= 0,
            ;
        }
        i = i + 1;
    }
    proof {
        assert(cont.placed@.take(i as int) =~= cont.placed@);
        assert(i * base_area <= 100_000 * base_area) by (nonlinear_arith)
            requires
                i <= 100_000,
                base_area > 0,
        ;
        assert(0 <= (area * 1_000_000) / (base_area as int)) by (nonlinear_arith)
            requires
                area >= 0,
                base_area > 0,
        ;
    }
    let ratio: i128 = area * 1_000_000 / base_area;
    if ratio >= SCALE as i128 {
        SCALE
    } else {
        ratio as i64
    }
}

/// Whether `b` has sufficient support in the container.
pub fn has_sufficient_support(b: &PlacedBox, cont: &Container, config: &PackingConfig) -> (r: bool)
    requires
        b.valid(),
        cont.valid(),
        config.valid(),
    ensures
        r == sufficiently_supported(*b, cont.placed@, *config),
{
    if b.position.2 <= config.height_epsilon {
        return true;
    }
    let lowered: i64 = config.support_ratio - config.general_epsilon;
    let required: i64 = if lowered > 0 { lowered } else { 0 };
    support_ratio_of(b, cont, config) >= required
}

/// Whether the weight hierarchy holds for `b` in the container: something supports it
/// and no supporting box is lighter than `b` by more than the general tolerance.
pub fn supports_weight_correctly(b: &PlacedBox, cont: &Container, config: &PackingConfig) -> (r:
    bool)
    requires
        b.valid(),
        cont.valid(),
        config.valid(),
    ensures
        r == weight_supported(*b, cont.placed@, *config),
{
    if b.position.2 <= config.height_epsilon {
        return true;
    }
    let mut has_support: bool = false;
    let mut i: usize = 0;
    while i < cont.placed.len()
        invariant
            i <= cont.placed@.len(),
            b.valid(),
            all_valid(cont.placed@),
            config.valid(),
            !on_floor(*b, *config),
            has_support == (exists|k: int|
                0 <= k < i && is_support(*b, #[trigger] cont.placed@[k], *config)),
            forall|k: int|
                0 <= k < i && is_support(*b, #[trigger] cont.placed@[k], *config)
                    ==> cont.placed@[k].object.weight + config.general_epsilon >= b.object.weight,
        decreases cont.placed@.len() - i,
    {
        let p = &cont.placed[i];
        assert(p.valid());
        let s = supports(b, p, config);
        if s.0 {
            has_support = true;
            if p.object.weight + config.general_epsilon < b.object.weight {
                assert(is_support(*b, cont.placed@[i as int], *config));
                return false;
            }
        }
        i = i + 1;
    }
    has_support
}

/// Whether some box of the container carries the centre of `b`.
pub fn is_center_supported(b: &PlacedBox, cont: &Container, config: &PackingConfig) -> (r: bool)
    requires
        b.valid(),
        cont.valid(),
        config.valid(),
    ensures
        r == center_supported(*b, cont.placed@, *config),
{
    if b.position.2 <= config.height_epsilon {
        return true;
    }
    let center: (i64, i64, i64) = (
        b.position.0 + b.object.dims.0 / 2,
        b.position.1 + b.object.dims.1 / 2,
        b.position.2,
    );
    let mut i: usize = 0;
    while i < cont.placed.len()
        invariant
            i <= cont.placed@.len(),
            b.valid(),
            all_valid(cont.placed@),
            config.valid(),
            center == base_center(*b),
            forall|k: int| 0 <= k < i ==> !carries_center(*b, #[trigger] cont.placed@[k], *config),
        decreases cont.placed@.len() - i,
    {
        let p = &cont.placed[i];
        assert(p.valid());
        if meets_top(b, p, config.height_epsilon) && point_inside(center, p) {
            assert(carries_center(*b, cont.placed@[i as int], *config));
            return true;
        }
        i = i + 1;
    }
    false
}

} // verus!
