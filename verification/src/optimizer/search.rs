//! Position search: the best legal, collision-free and stable position of one item in
//! one container.

use vstd::prelude::*;
use crate::fixed::{abs, abs_diff, MAX_EXTENT, MAX_LENGTH};
use crate::geometry::{boxes_intersect, intersects};
use crate::model::{Box3D, Container, ContainerModel, PlacedBox};
use crate::optimizer::balance::{
    balance_after, balance_limit, calculate_balance_after, calculate_balance_limit,
};
use crate::optimizer::config::PackingConfig;
use crate::optimizer::grid::{all_within, axis_grid, axis_positions, layer_heights, z_layers};
use crate::optimizer::stability::{
    has_sufficient_support, is_center_supported, stable_on, supports_weight_correctly,
};

verus! {

/// How two numbers compare when differences within a tolerance count as none.
#[derive(Clone, Copy, Debug, PartialEq, Eq, Structural)]
pub enum Comparison {
    Less,
    Equal,
    Greater,
}

/// Score of a candidate position; lower is better, first by height, then by depth
/// position, then by width position, then by balance offset.
#[derive(Clone, Copy, Debug)]
pub struct PlacementScore {
    pub z: i64,
    pub y: i64,
    pub x: i64,
    pub balance: i64,
}

/// A candidate position with its score.
#[derive(Clone, Copy, Debug)]
pub struct Candidate {
    pub position: (i64, i64, i64),
    pub score: PlacementScore,
}

/// The two running bests of a search: the best candidate within the balance limit and
/// the best candidate of all.
#[derive(Clone, Copy, Debug)]
pub struct SearchState {
    pub best_in_limit: Option<Candidate>,
    pub best_any: Option<Candidate>,
}

/// Comparison of two numbers with a tolerance: equal when they differ by at most
/// `eps`, else by their order.
pub open spec fn tolerant_comparison(a: int, b: int, eps: int) -> Comparison {
    if abs(a - b) <= eps {
        Comparison::Equal
    } else if a < b {
        Comparison::Less
    } else {
        Comparison::Greater
    }
}

/// Whether the score `new` beats `current`: lower height first (within the height
/// tolerance), then lower y, then lower x (within the general tolerance), then a
/// balance offset lower by more than the general tolerance.
pub open spec fn better_score(new: PlacementScore, current: PlacementScore, config: PackingConfig) -> bool {
    let by_z = tolerant_comparison(new.z as int, current.z as int, config.height_epsilon as int);
    let by_y = tolerant_comparison(new.y as int, current.y as int, config.general_epsilon as int);
    let by_x = tolerant_comparison(new.x as int, current.x as int, config.general_epsilon as int);
    if by_z != Comparison::Equal {
        by_z == Comparison::Less
    } else if by_y != Comparison::Equal {
        by_y == Comparison::Less
    } else if by_x != Comparison::Equal {
        by_x == Comparison::Less
    } else {
        new.balance + config.general_epsilon < current.balance
    }
}

/// The running best after one more candidate: the candidate if there was none or if it
/// beats the best so far.
pub open spec fn keep_best(best: Option<Candidate>, candidate: Candidate, config: PackingConfig) -> Option<
    Candidate,
> {
    match best {
        None => Some(candidate),
        Some(current) => if better_score(candidate.score, current.score, config) {
            Some(candidate)
        } else {
            best
        },
    }
}

/// The item at a position.
pub open spec fn placed_at(b: Box3D, position: (i64, i64, i64)) -> PlacedBox {
    PlacedBox { object: b, position }
}

/// The box stays inside a container of the given dimensions, with the general tolerance.
pub open spec fn within_container(cand: PlacedBox, dims: (i64, i64, i64), config: PackingConfig) -> bool {
    &&& cand.position.0 + cand.object.dims.0 <= dims.0 + config.general_epsilon
    &&& cand.position.1 + cand.object.dims.1 <= dims.1 + config.general_epsilon
    &&& cand.position.2 + cand.object.dims.2 <= dims.2 + config.general_epsilon
}

/// The box intersects none of the placed boxes.
pub open spec fn collision_free(cand: PlacedBox, placed: Seq<PlacedBox>) -> bool {
    forall|i: int| 0 <= i < placed.len() ==> !boxes_intersect(#[trigger] placed[i], cand)
}

/// A legal placement: inside the container, free of collisions, and, unless on the
/// floor, stable on the boxes placed so far.
pub open spec fn legal_placement(
    cand: PlacedBox,
    dims: (i64, i64, i64),
    placed: Seq<PlacedBox>,
    config: PackingConfig,
) -> bool {
    &&& within_container(cand, dims, config)
    &&& collision_free(cand, placed)
    &&& stable_on(cand, placed, config)
}

/// The search state after looking at the position `(x, y, z)`: unchanged when the
/// placement is not legal, else both running bests updated, the one within the limit
/// only when the balance offset is within the limit plus the general tolerance.
pub open spec fn consider(
    state: SearchState,
    b: Box3D,
    dims: (i64, i64, i64),
    placed: Seq<PlacedBox>,
    config: PackingConfig,
    position: (i64, i64, i64),
) -> SearchState {
    let cand = placed_at(b, position);
    if legal_placement(cand, dims, placed, config) {
        let balance = balance_after(dims, placed, cand);
        let scored = Candidate {
            position,
            score: PlacementScore {
                z: position.2,
                y: position.1,
                x: position.0,
                balance: balance as i64,
            },
        };
        SearchState {
            best_any: keep_best(state.best_any, scored, config),
            best_in_limit: if balance <= balance_limit(dims, config) + config.general_epsilon {
                keep_best(state.best_in_limit, scored, config)
            } else {
                state.best_in_limit
            },
        }
    } else {
        state
    }
}

/// The search state after looking at every x of `xs`, in order, at fixed `y` and `z`.
pub open spec fn scan_x(
    state: SearchState,
    b: Box3D,
    dims: (i64, i64, i64),
    placed: Seq<PlacedBox>,
    config: PackingConfig,
    xs: Seq<i64>,
    y: i64,
    z: i64,
) -> SearchState
    decreases xs.len(),
{
    if xs.len() == 0 {
        state
    } else {
        consider(
            scan_x(state, b, dims, placed, config, xs.drop_last(), y, z),
            b,
            dims,
            placed,
            config,
            (xs.last(), y, z),
        )
    }
}

/// The search state after looking at every y of `ys`, in order, and for each at every
/// x of `xs`, at fixed `z`.
pub open spec fn scan_y(
    state: SearchState,
    b: Box3D,
    dims: (i64, i64, i64),
    placed: Seq<PlacedBox>,
    config: PackingConfig,
    xs: Seq<i64>,
    ys: Seq<i64>,
    z: i64,
) -> SearchState
    decreases ys.len(),
{
    if ys.len() == 0 {
        state
    } else {
        scan_x(
            scan_y(state, b, dims, placed, config, xs, ys.drop_last(), z),
            b,
            dims,
            placed,
            config,
            xs,
            ys.last(),
            z,
        )
    }
}

/// The search state after looking at every height of `zs`, in order, and for each at
/// every y and x.
pub open spec fn scan_z(
    state: SearchState,
    b: Box3D,
    dims: (i64, i64, i64),
    placed: Seq<PlacedBox>,
    config: PackingConfig,
    xs: Seq<i64>,
    ys: Seq<i64>,
    zs: Seq<i64>,
) -> SearchState
    decreases zs.len(),
{
    if zs.len() == 0 {
        state
    } else {
        scan_y(
            scan_z(state, b, dims, placed, config, xs, ys, zs.drop_last()),
            b,
            dims,
            placed,
            config,
            xs,
            ys,
            zs.last(),
        )
    }
}

/// The state of a search that has seen nothing.
pub open spec fn empty_search() -> SearchState {
    SearchState { best_in_limit: None, best_any: None }
}

/// The position that a search state settles on: the best within the balance limit,
/// else the best of all.
pub open spec fn chosen_position(state: SearchState) -> Option<(i64, i64, i64)> {
    match state.best_in_limit {
        Some(c) => Some(c.position),
        None => match state.best_any {
            Some(c) => Some(c.position),
            None => None,
        },
    }
}

/// The candidate positions of an item in a container, per axis.
pub open spec fn candidate_xs(b: Box3D, dims: (i64, i64, i64), config: PackingConfig) -> Seq<i64> {
    axis_grid(
        dims.0 as int,
        b.dims.0 as int,
        config.grid_step as int,
        config.general_epsilon as int,
    )
}

pub open spec fn candidate_ys(b: Box3D, dims: (i64, i64, i64), config: PackingConfig) -> Seq<i64> {
    axis_grid(
        dims.1 as int,
        b.dims.1 as int,
        config.grid_step as int,
        config.general_epsilon as int,
    )
}

/// The position that the search finds for the item `b` in a container with the given
/// dimensions and boxes: none when the item cannot fit at all; else the choice after
/// scanning every height layer, every y and every x, in that nesting and each in
/// ascending order.
pub open spec fn best_position(b: Box3D, cont: ContainerModel, config: PackingConfig) -> Option<
    (i64, i64, i64),
> {
    if !cont.can_fit(b) {
        None
    } else {
        chosen_position(
            scan_z(
                empty_search(),
                b,
                cont.dims,
                cont.placed,
                config,
                candidate_xs(b, cont.dims, config),
                candidate_ys(b, cont.dims, config),
                layer_heights(cont.placed, config.height_epsilon as int),
            ),
        )
    }
}

/// Every candidate that the state holds is a legal placement of `b` at a valid position.
pub open spec fn sound_state(
    state: SearchState,
    b: Box3D,
    dims: (i64, i64, i64),
    placed: Seq<PlacedBox>,
    config: PackingConfig,
) -> bool {
    &&& state.best_any matches Some(c) ==> legal_placement(
        placed_at(b, c.position),
        dims,
        placed,
        config,
    ) && placed_at(b, c.position).valid()
    &&& state.best_in_limit matches Some(c) ==> legal_placement(
        placed_at(b, c.position),
        dims,
        placed,
        config,
    ) && placed_at(b, c.position).valid()
    &&& state.best_in_limit is Some ==> state.best_any is Some
}

/// A position out of the container's bounds changes nothing.
pub proof fn lemma_scan_x_outside(
    state: SearchState,
    b: Box3D,
    dims: (i64, i64, i64),
    placed: Seq<PlacedBox>,
    config: PackingConfig,
    xs: Seq<i64>,
    y: i64,
    z: i64,
)
    requires
        y + b.dims.1 > dims.1 + config.general_epsilon || z + b.dims.2 > dims.2
            + config.general_epsilon,
    ensures
        scan_x(state, b, dims, placed, config, xs, y, z) == state,
    decreases xs.len(),
{
    if xs.len() > 0 {
        lemma_scan_x_outside(state, b, dims, placed, config, xs.drop_last(), y, z);
    }
}

/// A height out of the container's bounds changes nothing.
pub proof fn lemma_scan_y_outside(
    state: SearchState,
    b: Box3D,
    dims: (i64, i64, i64),
    placed: Seq<PlacedBox>,
    config: PackingConfig,
    xs: Seq<i64>,
    ys: Seq<i64>,
    z: i64,
)
    requires
        z + b.dims.2 > dims.2 + config.general_epsilon,
    ensures
        scan_y(state, b, dims, placed, config, xs, ys, z) == state,
    decreases ys.len(),
{
    if ys.len() > 0 {
        lemma_scan_y_outside(state, b, dims, placed, config, xs, ys.drop_last(), z);
        lemma_scan_x_outside(state, b, dims, placed, config, xs, ys.last(), z);
    }
}

/// Compares two numbers with a tolerance.
pub fn compare_with_epsilon(a: i64, b: i64, eps: i64) -> (r: Comparison)
    ensures
        r == tolerant_comparison(a as int, b as int, eps as int),
{
    if abs_diff(a, b) as i128 <= eps as i128 {
        Comparison::Equal
    } else if a < b {
        Comparison::Less
    } else {
        Comparison::Greater
    }
}

/// Whether the score `new` beats `current`.
pub fn is_better_score(new: PlacementScore, current: PlacementScore, config: &PackingConfig) -> (r:
    bool)
    ensures
        r == better_score(new, current, *config),
{
    match compare_with_epsilon(new.z, current.z, config.height_epsilon) {
        Comparison::Less => { return true; },
        Comparison::Greater => { return false; },
        Comparison::Equal => {},
    }
    match compare_with_epsilon(new.y, current.y, config.general_epsilon) {
        Comparison::Less => { return true; },
        Comparison::Greater => { return false; },
        Comparison::Equal => {},
    }
    match compare_with_epsilon(new.x, current.x, config.general_epsilon) {
        Comparison::Less => { return true; },
        Comparison::Greater => { return false; },
        Comparison::Equal => {},
    }
    (new.balance as i128 + config.general_epsilon as i128) < current.balance as i128
}

/// Replaces the running best by the candidate if there was none or if the candidate
/// beats it.
pub fn update_best(
    best: &mut Option<Candidate>,
    position: (i64, i64, i64),
    score: PlacementScore,
    config: &PackingConfig,
)
    ensures
        *final(best) == keep_best(*old(best), Candidate { position, score }, *config),
{
    let replace: bool = match best {
        None => true,
        Some(current) => is_better_score(score, current.score, config),
    };
    if replace {
        *best = Some(Candidate { position, score });
    }
}

/// Whether the candidate intersects any box of the container.
fn collides(cand: &PlacedBox, cont: &Container) -> (r: bool)
    ensures
        r == !collision_free(*cand, cont.placed@),
{
    let mut i: usize = 0;
    while i < cont.placed.len()
        invariant
            i <= cont.placed@.len(),
            forall|k: int| 0 <= k < i ==> !boxes_intersect(#[trigger] cont.placed@[k], *cand),
        decreases cont.placed@.len() - i,
    {
        if intersects(&cont.placed[i], cand) {
            return true;
        }
        i = i + 1;
    }
    false
}

/// Looks at one position and updates the search state.
fn consider_position(
    state: &mut SearchState,
    b: &Box3D,
    cont: &Container,
    config: &PackingConfig,
    balance_limit_value: i64,
    position: (i64, i64, i64),
)
    requires
        b.valid(),
        cont.valid(),
        config.valid(),
        balance_limit_value == balance_limit(cont.dims, *config),
        0 <= position.0 <= MAX_LENGTH,
        0 <= position.1 <= MAX_LENGTH,
        0 <= position.2 <= MAX_EXTENT,
        sound_state(*old(state), *b, cont.dims, cont.placed@, *config),
    ensures
        *final(state) == consider(*old(state), *b, cont.dims, cont.placed@, *config, position),
        sound_state(*final(state), *b, cont.dims, cont.placed@, *config),
{
    let (x, y, z) = position;
    if z as i128 + b.dims.2 as i128 > cont.dims.2 as i128 + config.general_epsilon as i128 {
        return ;
    }
    if y + b.dims.1 > cont.dims.1 + config.general_epsilon {
        return ;
    }
    if x + b.dims.0 > cont.dims.0 + config.general_epsilon {
        return ;
    }
    let candidate = PlacedBox { object: *b, position: (x, y, z) };
    assert(candidate == placed_at(*b, position));
    assert(candidate.valid());
    if collides(&candidate, cont) {
        return ;
    }
    if z > 0 {
        if !has_sufficient_support(&candidate, cont, config) {
            return ;
        }
        if !supports_weight_correctly(&candidate, cont, config) {
            return ;
        }
        if !is_center_supported(&candidate, cont, config) {
            return ;
        }
    }
    assert(stable_on(candidate, cont.placed@, *config));
    let balance: i64 = calculate_balance_after(cont, &candidate);
    let score = PlacementScore { z, y, x, balance };
    let mut best_any = state.best_any;
    update_best(&mut best_any, (x, y, z), score, config);
    state.best_any = best_any;
    if balance as i128 <= balance_limit_value as i128 + config.general_epsilon as i128 {
        let mut best_in_limit = state.best_in_limit;
        update_best(&mut best_in_limit, (x, y, z), score, config);
        state.best_in_limit = best_in_limit;
    }
}

/// Finds the best position for the item `b` in the container: the lowest, then the
/// nearest to the back, then to the left, then the best balanced, among the grid
/// positions where it stays inside, collides with nothing and is stable; a position
/// within the balance limit is preferred to any outside it.
pub fn find_stable_position(b: &Box3D, cont: &Container, config: &PackingConfig) -> (r: Option<
    (i64, i64, i64),
>)
    requires
        b.valid(),
        cont.valid(),
        config.valid(),
    ensures
        r == best_position(*b, cont@, *config),
        r is Some <==> cont.spec_can_fit(*b) && crate::optimizer::search_laws::has_legal_candidate(
            *b,
            cont@,
            *config,
        ),
        r matches Some(position) ==> placed_at(*b, position).valid() && legal_placement(
            placed_at(*b, position),
            cont.dims,
            cont.placed@,
            *config,
        ),
{
    proof {
        crate::optimizer::search_laws::lemma_best_position(*b, cont@, *config);
    }
    if !cont.can_fit(b) {
        return None;
    }
    let xs = axis_positions(cont.dims.0, b.dims.0, config.grid_step, config.general_epsilon);
    let ys = axis_positions(cont.dims.1, b.dims.1, config.grid_step, config.general_epsilon);
    let zs = z_layers(cont, config.height_epsilon);
    let limit: i64 = calculate_balance_limit(cont, config);
    let mut state = SearchState { best_in_limit: None, best_any: None };
    let mut k: usize = 0;
    while k < zs.len()
        invariant
            k <= zs@.len(),
            b.valid(),
            cont.valid(),
            config.valid(),
            limit == balance_limit(cont.dims, *config),
            all_within(xs@, 0, MAX_LENGTH as int),
            all_within(ys@, 0, MAX_LENGTH as int),
            all_within(zs@, 0, MAX_EXTENT as int),
            sound_state(state, *b, cont.dims, cont.placed@, *config),
            state == scan_z(
                empty_search(),
                *b,
                cont.dims,
                cont.placed@,
                *config,
                xs@,
                ys@,
                zs@.take(k as int),
            ),
        decreases zs@.len() - k,
    {
        let z: i64 = zs[k];
        assert(zs@.take(k as int + 1).drop_last() =~= zs@.take(k as int));
        if z as i128 + b.dims.2 as i128 > cont.dims.2 as i128 + config.general_epsilon as i128 {
            proof {
                lemma_scan_y_outside(state, *b, cont.dims, cont.placed@, *config, xs@, ys@, z);
            }
            k = k + 1;
            continue ;
        }
        let mut j: usize = 0;
        let ghost before_z = state;
        while j < ys.len()
            invariant
                j <= ys@.len(),
                k < zs@.len(),
                z == zs@[k as int],
                b.valid(),
                cont.valid(),
                config.valid(),
                limit == balance_limit(cont.dims, *config),
                all_within(xs@, 0, MAX_LENGTH as int),
                all_within(ys@, 0, MAX_LENGTH as int),
                all_within(zs@, 0, MAX_EXTENT as int),
                sound_state(state, *b, cont.dims, cont.placed@, *config),
                state == scan_y(
                    before_z,
                    *b,
                    cont.dims,
                    cont.placed@,
                    *config,
                    xs@,
                    ys@.take(j as int),
                    z,
                ),
            decreases ys@.len() - j,
        {
            let y: i64 = ys[j];
            assert(ys@.take(j as int + 1).drop_last() =~= ys@.take(j as int));
            if y + b.dims.1 > cont.dims.1 + config.general_epsilon {
                proof {
                    lemma_scan_x_outside(state, *b, cont.dims, cont.placed@, *config, xs@, y, z);
                }
                j = j + 1;
                continue ;
            }
            let mut i: usize = 0;
            let ghost before_y = state;
            while i < xs.len()
                invariant
                    i <= xs@.len(),
                    j < ys@.len(),
                    k < zs@.len(),
                    y == ys@[j as int],
                    z == zs@[k as int],
                    b.valid(),
                    cont.valid(),
                    config.valid(),
                    limit == balance_limit(cont.dims, *config),
                    all_within(xs@, 0, MAX_LENGTH as int),
                    all_within(ys@, 0, MAX_LENGTH as int),
                    all_within(zs@, 0, MAX_EXTENT as int),
                    sound_state(state, *b, cont.dims, cont.placed@, *config),
                    state == scan_x(
                        before_y,
                        *b,
                        cont.dims,
                        cont.placed@,
                        *config,
                        xs@.take(i as int),
                        y,
                        z,
                    ),
                decreases xs@.len() - i,
            {
                let x: i64 = xs[i];
                assert(xs@.take(i as int + 1).drop_last() =~= xs@.take(i as int));
                consider_position(&mut state, b, cont, config, limit, (x, y, z));
                i = i + 1;
            }
            assert(xs@.take(i as int) =~= xs@);
            j = j + 1;
        }
        assert(ys@.take(j as int) =~= ys@);
        k = k + 1;
    }
    assert(zs@.take(k as int) =~= zs@);
    match state.best_in_limit {
        Some(c) => Some(c.position),
        None => match state.best_any {
            Some(c) => Some(c.position),
            None => None,
        },
    }
}

} // verus!
