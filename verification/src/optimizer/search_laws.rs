//! What the position search guarantees, proved of its definition: every position it
//! returns is a legal placement, and it returns one whenever the grid holds one.

use vstd::prelude::*;
use crate::fixed::{max, MAX_EXTENT, MAX_LENGTH};
use crate::model::{all_valid, valid_dims, Box3D, ContainerModel, PlacedBox};
use crate::optimizer::config::PackingConfig;
use crate::optimizer::grid::{
    all_within, axis_grid, layer_heights, lemma_dedup_within, lemma_sorted_values, sorted_values,
    sweep, sweep_count, top_heights, with_edge,
};
use crate::optimizer::search::{
    best_position, candidate_xs, candidate_ys, consider, empty_search, legal_placement, placed_at,
    scan_x, scan_y, scan_z, sound_state, SearchState,
};

verus! {

/// The grid along an axis is not empty, starts at zero and stays between zero and the
/// room that the object has to move.
pub proof fn lemma_axis_grid(container_len: int, object_len: int, step: int, epsilon: int)
    requires
        1 <= container_len <= MAX_LENGTH,
        1 <= object_len <= MAX_LENGTH,
        1 <= step,
        1 <= epsilon,
    ensures
        axis_grid(container_len, object_len, step, epsilon).len() > 0,
        axis_grid(container_len, object_len, step, epsilon)[0] == 0,
        all_within(
            axis_grid(container_len, object_len, step, epsilon),
            0,
            max(container_len - object_len, 0),
        ),
{
    let max_pos = max(container_len - object_len, 0);
    if max_pos > epsilon {
        let count = sweep_count(max_pos, step, epsilon);
        assert((max_pos + epsilon) / step >= 0) by (nonlinear_arith)
            requires
                max_pos + epsilon >= 0,
                step > 0,
        ;
        let swept = sweep(max_pos, step, count);
        let edged = with_edge(swept, max_pos, epsilon);
        assert(all_within(edged, 0, max_pos)) by {
            assert forall|i: int| 0 <= i < edged.len() implies 0 <= #[trigger] edged[i]
                <= max_pos by {
                if i < swept.len() {
                    assert(0 <= i * step) by (nonlinear_arith)
                        requires
                            0 <= i,
                            step > 0,
                    ;
                }
            }
        }
        assert(0 * step == 0) by (nonlinear_arith);
        assert(edged[0] == swept[0]);
        lemma_dedup_within(edged, epsilon, 0, max_pos);
    }
}

/// The height layers of valid boxes are not empty and stay between zero and the
/// largest extent.
pub proof fn lemma_layer_heights(placed: Seq<PlacedBox>, height_epsilon: int)
    requires
        all_valid(placed),
    ensures
        layer_heights(placed, height_epsilon).len() > 0,
        all_within(layer_heights(placed, height_epsilon), 0, MAX_EXTENT as int),
{
    let tops = top_heights(placed).push(0i64);
    assert(all_within(tops, 0, MAX_EXTENT as int)) by {
        assert forall|k: int| 0 <= k < tops.len() implies 0 <= #[trigger] tops[k] <= MAX_EXTENT by {
            if k < placed.len() {
                assert(placed[k].valid());
            }
        }
    }
    lemma_sorted_values(tops, 0, MAX_EXTENT as int);
    lemma_dedup_within(sorted_values(tops), height_epsilon, 0, MAX_EXTENT as int);
}

/// Looking at one position keeps the state sound.
pub proof fn lemma_consider_sound(
    state: SearchState,
    b: Box3D,
    dims: (i64, i64, i64),
    placed: Seq<PlacedBox>,
    config: PackingConfig,
    position: (i64, i64, i64),
)
    requires
        sound_state(state, b, dims, placed, config),
        b.valid(),
        valid_dims(dims),
        config.valid(),
        0 <= position.0 <= MAX_LENGTH,
        0 <= position.1 <= MAX_LENGTH,
        0 <= position.2 <= MAX_EXTENT,
    ensures
        sound_state(consider(state, b, dims, placed, config, position), b, dims, placed, config),
        consider(state, b, dims, placed, config, position).best_any is Some <==> (
        state.best_any is Some || legal_placement(placed_at(b, position), dims, placed, config)),
{
}

/// Scanning a row keeps the state sound, and finds something exactly when there was
/// something before or the row holds a legal placement.
pub proof fn lemma_scan_x(
    state: SearchState,
    b: Box3D,
    dims: (i64, i64, i64),
    placed: Seq<PlacedBox>,
    config: PackingConfig,
    xs: Seq<i64>,
    y: i64,
    z: i64,
)
    requires
        sound_state(state, b, dims, placed, config),
        b.valid(),
        valid_dims(dims),
        config.valid(),
        all_within(xs, 0, MAX_LENGTH as int),
        0 <= y <= MAX_LENGTH,
        0 <= z <= MAX_EXTENT,
    ensures
        sound_state(scan_x(state, b, dims, placed, config, xs, y, z), b, dims, placed, config),
        scan_x(state, b, dims, placed, config, xs, y, z).best_any is Some <==> (state.best_any
            is Some || exists|i: int|
            0 <= i < xs.len() && legal_placement(
                placed_at(b, (#[trigger] xs[i], y, z)),
                dims,
                placed,
                config,
            )),
    decreases xs.len(),
{
    if xs.len() > 0 {
        let rest = xs.drop_last();
        assert(all_within(rest, 0, MAX_LENGTH as int)) by {
            assert forall|i: int| 0 <= i < rest.len() implies 0 <= #[trigger] rest[i]
                <= MAX_LENGTH by {
                assert(rest[i] == xs[i]);
            }
        }
        lemma_scan_x(state, b, dims, placed, config, rest, y, z);
        let before = scan_x(state, b, dims, placed, config, rest, y, z);
        assert(0 <= xs[xs.len() - 1] <= MAX_LENGTH);
        lemma_consider_sound(before, b, dims, placed, config, (xs.last(), y, z));
        let after = scan_x(state, b, dims, placed, config, xs, y, z);
        if after.best_any is Some && !(state.best_any is Some) {
            if before.best_any is Some {
                let i = choose|i: int|
                    0 <= i < rest.len() && legal_placement(
                        placed_at(b, (#[trigger] rest[i], y, z)),
                        dims,
                        placed,
                        config,
                    );
                assert(rest[i] == xs[i]);
            } else {
                assert(legal_placement(
                    placed_at(b, (xs[xs.len() - 1], y, z)),
                    dims,
                    placed,
                    config,
                ));
            }
        }
        if exists|i: int|
            0 <= i < xs.len() && legal_placement(
                placed_at(b, (#[trigger] xs[i], y, z)),
                dims,
                placed,
                config,
            ) {
            let i = choose|i: int|
                0 <= i < xs.len() && legal_placement(
                    placed_at(b, (#[trigger] xs[i], y, z)),
                    dims,
                    placed,
                    config,
                );
            if i < rest.len() {
                assert(rest[i] == xs[i]);
            }
        }
    }
}

/// Scanning a layer keeps the state sound, and finds something exactly when there was
/// something before or the layer holds a legal placement.
pub proof fn lemma_scan_y(
    state: SearchState,
    b: Box3D,
    dims: (i64, i64, i64),
    placed: Seq<PlacedBox>,
    config: PackingConfig,
    xs: Seq<i64>,
    ys: Seq<i64>,
    z: i64,
)
    requires
        sound_state(state, b, dims, placed, config),
        b.valid(),
        valid_dims(dims),
        config.valid(),
        all_within(xs, 0, MAX_LENGTH as int),
        all_within(ys, 0, MAX_LENGTH as int),
        0 <= z <= MAX_EXTENT,
    ensures
        sound_state(scan_y(state, b, dims, placed, config, xs, ys, z), b, dims, placed, config),
        scan_y(state, b, dims, placed, config, xs, ys, z).best_any is Some <==> (state.best_any
            is Some || exists|i: int, j: int|
            0 <= i < xs.len() && 0 <= j < ys.len() && legal_placement(
                placed_at(b, (#[trigger] xs[i], #[trigger] ys[j], z)),
                dims,
                placed,
                config,
            )),
    decreases ys.len(),
{
    if ys.len() > 0 {
        let rest = ys.drop_last();
        assert(all_within(rest, 0, MAX_LENGTH as int)) by {
            assert forall|i: int| 0 <= i < rest.len() implies 0 <= #[trigger] rest[i]
                <= MAX_LENGTH by {
                assert(rest[i] == ys[i]);
            }
        }
        lemma_scan_y(state, b, dims, placed, config, xs, rest, z);
        let before = scan_y(state, b, dims, placed, config, xs, rest, z);
        assert(0 <= ys[ys.len() - 1] <= MAX_LENGTH);
        lemma_scan_x(before, b, dims, placed, config, xs, ys.last(), z);
        let after = scan_y(state, b, dims, placed, config, xs, ys, z);
        if after.best_any is Some && !(state.best_any is Some) {
            if before.best_any is Some {
                let (i, j) = choose|i: int, j: int|
                    0 <= i < xs.len() && 0 <= j < rest.len() && legal_placement(
                        placed_at(b, (#[trigger] xs[i], #[trigger] rest[j], z)),
                        dims,
                        placed,
                        config,
                    );
                assert(rest[j] == ys[j]);
            } else {
                let i = choose|i: int|
                    0 <= i < xs.len() && legal_placement(
                        placed_at(b, (#[trigger] xs[i], ys.last(), z)),
                        dims,
                        placed,
                        config,
                    );
                assert(legal_placement(
                    placed_at(b, (xs[i], ys[ys.len() - 1], z)),
                    dims,
                    placed,
                    config,
                ));
            }
        }
        if exists|i: int, j: int|
            0 <= i < xs.len() && 0 <= j < ys.len() && legal_placement(
                placed_at(b, (#[trigger] xs[i], #[trigger] ys[j], z)),
                dims,
                placed,
                config,
            ) {
            let (i, j) = choose|i: int, j: int|
                0 <= i < xs.len() && 0 <= j < ys.len() && legal_placement(
                    placed_at(b, (#[trigger] xs[i], #[trigger] ys[j], z)),
                    dims,
                    placed,
                    config,
                );
            if j < rest.len() {
                assert(rest[j] == ys[j]);
            } else {
                assert(ys[j] == ys.last());
            }
        }
    }
}

/// The grid holds a legal placement of `b`.
pub open spec fn grid_has_legal(
    b: Box3D,
    dims: (i64, i64, i64),
    placed: Seq<PlacedBox>,
    config: PackingConfig,
    xs: Seq<i64>,
    ys: Seq<i64>,
    zs: Seq<i64>,
) -> bool {
    exists|i: int, j: int, k: int|
        0 <= i < xs.len() && 0 <= j < ys.len() && 0 <= k < zs.len() && legal_placement(
            placed_at(b, (#[trigger] xs[i], #[trigger] ys[j], #[trigger] zs[k])),
            dims,
            placed,
            config,
        )
}

/// Scanning all layers keeps the state sound, and finds something exactly when there
/// was something before or the grid holds a legal placement.
pub proof fn lemma_scan_z(
    state: SearchState,
    b: Box3D,
    dims: (i64, i64, i64),
    placed: Seq<PlacedBox>,
    config: PackingConfig,
    xs: Seq<i64>,
    ys: Seq<i64>,
    zs: Seq<i64>,
)
    requires
        sound_state(state, b, dims, placed, config),
        b.valid(),
        valid_dims(dims),
        config.valid(),
        all_within(xs, 0, MAX_LENGTH as int),
        all_within(ys, 0, MAX_LENGTH as int),
        all_within(zs, 0, MAX_EXTENT as int),
    ensures
        sound_state(scan_z(state, b, dims, placed, config, xs, ys, zs), b, dims, placed, config),
        scan_z(state, b, dims, placed, config, xs, ys, zs).best_any is Some <==> (state.best_any
            is Some || grid_has_legal(b, dims, placed, config, xs, ys, zs)),
    decreases zs.len(),
{
    if zs.len() > 0 {
        let rest = zs.drop_last();
        assert(all_within(rest, 0, MAX_EXTENT as int)) by {
            assert forall|i: int| 0 <= i < rest.len() implies 0 <= #[trigger] rest[i]
                <= MAX_EXTENT by {
                assert(rest[i] == zs[i]);
            }
        }
        lemma_scan_z(state, b, dims, placed, config, xs, ys, rest);
        let before = scan_z(state, b, dims, placed, config, xs, ys, rest);
        assert(0 <= zs[zs.len() - 1] <= MAX_EXTENT);
        lemma_scan_y(before, b, dims, placed, config, xs, ys, zs.last());
        let after = scan_z(state, b, dims, placed, config, xs, ys, zs);
        if after.best_any is Some && !(state.best_any is Some) {
            if before.best_any is Some {
                let (i, j, k) = choose|i: int, j: int, k: int|
                    0 <= i < xs.len() && 0 <= j < ys.len() && 0 <= k < rest.len()
                        && legal_placement(
                        placed_at(b, (#[trigger] xs[i], #[trigger] ys[j], #[trigger] rest[k])),
                        dims,
                        placed,
                        config,
                    );
                assert(rest[k] == zs[k]);
            } else {
                let (i, j) = choose|i: int, j: int|
                    0 <= i < xs.len() && 0 <= j < ys.len() && legal_placement(
                        placed_at(b, (#[trigger] xs[i], #[trigger] ys[j], zs.last())),
                        dims,
                        placed,
                        config,
                    );
                assert(legal_placement(
                    placed_at(b, (xs[i], ys[j], zs[zs.len() - 1])),
                    dims,
                    placed,
                    config,
                ));
            }
        }
        if grid_has_legal(b, dims, placed, config, xs, ys, zs) {
            let (i, j, k) = choose|i: int, j: int, k: int|
                0 <= i < xs.len() && 0 <= j < ys.len() && 0 <= k < zs.len() && legal_placement(
                    placed_at(b, (#[trigger] xs[i], #[trigger] ys[j], #[trigger] zs[k])),
                    dims,
                    placed,
                    config,
                );
            if k < rest.len() {
                assert(rest[k] == zs[k]);
            } else {
                assert(zs[k] == zs.last());
            }
        }
    } else {
        if grid_has_legal(b, dims, placed, config, xs, ys, zs) {
            assert(false);
        }
    }
}

/// The container holds a legal placement of `b` at one of the candidate positions.
pub open spec fn has_legal_candidate(b: Box3D, cont: ContainerModel, config: PackingConfig) -> bool {
    grid_has_legal(
        b,
        cont.dims,
        cont.placed,
        config,
        candidate_xs(b, cont.dims, config),
        candidate_ys(b, cont.dims, config),
        layer_heights(cont.placed, config.height_epsilon as int),
    )
}

/// The position search finds a position exactly when the item can fit at all and some
/// candidate position is a legal placement; the position that it finds is one.
pub proof fn lemma_best_position(b: Box3D, cont: ContainerModel, config: PackingConfig)
    requires
        b.valid(),
        cont.valid(),
        config.valid(),
    ensures
        best_position(b, cont, config) is Some <==> cont.can_fit(b) && has_legal_candidate(
            b,
            cont,
            config,
        ),
        best_position(b, cont, config) matches Some(position) ==> placed_at(b, position).valid()
            && legal_placement(placed_at(b, position), cont.dims, cont.placed, config),
{
    lemma_axis_grid(
        cont.dims.0 as int,
        b.dims.0 as int,
        config.grid_step as int,
        config.general_epsilon as int,
    );
    lemma_axis_grid(
        cont.dims.1 as int,
        b.dims.1 as int,
        config.grid_step as int,
        config.general_epsilon as int,
    );
    lemma_layer_heights(cont.placed, config.height_epsilon as int);
    let xs = candidate_xs(b, cont.dims, config);
    let ys = candidate_ys(b, cont.dims, config);
    let zs = layer_heights(cont.placed, config.height_epsilon as int);
    assert(all_within(xs, 0, MAX_LENGTH as int)) by {
        assert forall|i: int| 0 <= i < xs.len() implies 0 <= #[trigger] xs[i] <= MAX_LENGTH by {}
    }
    assert(all_within(ys, 0, MAX_LENGTH as int)) by {
        assert forall|i: int| 0 <= i < ys.len() implies 0 <= #[trigger] ys[i] <= MAX_LENGTH by {}
    }
    lemma_scan_z(empty_search(), b, cont.dims, cont.placed, config, xs, ys, zs);
}

} // verus!
