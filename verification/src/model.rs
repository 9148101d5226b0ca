//! The mathematical model of the simulation.
//!
//! Everything an executable tick does is stated here first, over `Seq` and
//! `int`: which neighbors an ant may step to, how the weighted draw picks
//! one, what one ant's step produces, and how a tick's deposits and the
//! evaporation transform the pheromone field.

use vstd::prelude::*;

use crate::ant::Ant;
use crate::cell::Cell;
use crate::rng::ant_rand;
use crate::DEPOSIT_Q;
use crate::MAX_ANT_STEPS;
use crate::WEIGHT_BIAS;

verus! {

/// Row-major flattened index of a cell.
pub open spec fn flat(r: int, c: int, width: u32) -> int {
    r * width + c
}

/// The pheromone field as unbounded integers.
pub open spec fn ph_int(v: Seq<u64>) -> Seq<int> {
    v.map_values(|x: u64| x as int)
}

/// Whether an ant standing somewhere may step onto `(r, c)`: in bounds, not
/// a wall, and not already visited during the current attempt.
pub open spec fn pos_eligible(
    cells: Seq<Cell>,
    width: u32,
    height: u32,
    route: Seq<(u32, u32)>,
    r: int,
    c: int,
) -> bool {
    &&& 0 <= r < height
    &&& 0 <= c < width
    &&& cells[flat(r, c, width)] != Cell::Wall
    &&& !route.contains((r as u32, c as u32))
}

/// `(r, c)` as a singleton candidate when eligible, else nothing.
pub open spec fn opt_pos(
    cells: Seq<Cell>,
    width: u32,
    height: u32,
    route: Seq<(u32, u32)>,
    r: int,
    c: int,
) -> Seq<(u32, u32)> {
    if pos_eligible(cells, width, height, route, r, c) {
        seq![(r as u32, c as u32)]
    } else {
        Seq::<(u32, u32)>::empty()
    }
}

/// The eligible von Neumann neighbors of `(r, c)`, in the fixed order
/// up, down, left, right.
pub open spec fn eligible_list(
    cells: Seq<Cell>,
    width: u32,
    height: u32,
    route: Seq<(u32, u32)>,
    r: u32,
    c: u32,
) -> Seq<(u32, u32)> {
    opt_pos(cells, width, height, route, r - 1, c as int) + opt_pos(
        cells,
        width,
        height,
        route,
        r + 1,
        c as int,
    ) + opt_pos(cells, width, height, route, r as int, c - 1) + opt_pos(
        cells,
        width,
        height,
        route,
        r as int,
        c + 1,
    )
}

/// Selection weight of a candidate cell: its pheromone intensity plus the
/// positive bias.
pub open spec fn weight_of(ph: Seq<int>, width: u32, p: (u32, u32)) -> int {
    ph[flat(p.0 as int, p.1 as int, width)] + WEIGHT_BIAS as int
}

/// Sum of the selection weights of a candidate list.
pub open spec fn total_weight(ph: Seq<int>, width: u32, list: Seq<(u32, u32)>) -> int
    decreases list.len(),
{
    if list.len() == 0 {
        0
    } else {
        weight_of(ph, width, list[0]) + total_weight(ph, width, list.skip(1))
    }
}

/// Index of the candidate a draw `d` in `[0, total_weight)` selects: the
/// first index whose cumulative weight exceeds `d`.
pub open spec fn pick_index(ph: Seq<int>, width: u32, list: Seq<(u32, u32)>, d: int) -> int
    decreases list.len(),
{
    if list.len() <= 1 {
        0
    } else if d < weight_of(ph, width, list[0]) {
        0
    } else {
        1 + pick_index(ph, width, list.skip(1), d - weight_of(ph, width, list[0]))
    }
}

/// The view of an ant after one step, paired with the route it completed
/// this step, if any. The step reads only the grid, the pheromone snapshot,
/// the ant's own state and its own draw, never another ant.
pub open spec fn step_outcome(
    cells: Seq<Cell>,
    snap: Seq<int>,
    width: u32,
    height: u32,
    sr: u32,
    sc: u32,
    er: u32,
    ec: u32,
    alive: bool,
    r: u32,
    c: u32,
    route: Seq<(u32, u32)>,
    draw: u64,
) -> ((bool, (u32, u32), Seq<(u32, u32)>), Option<Seq<(u32, u32)>>) {
    if !alive {
        // A dead ant respawns at Start with a fresh attempt.
        ((true, (sr, sc), Seq::<(u32, u32)>::empty()), None)
    } else if r == er && c == ec {
        // Already standing on End: the attempt succeeds as it is.
        (
            (true, (sr, sc), Seq::<(u32, u32)>::empty()),
            if route.len() > 0 {
                Some(route)
            } else {
                None
            },
        )
    } else {
        let elig = eligible_list(cells, width, height, route, r, c);
        if elig.len() == 0 {
            // Dead end: the attempt fails, no deposition.
            ((false, (sr, sc), Seq::<(u32, u32)>::empty()), None)
        } else {
            let t = total_weight(snap, width, elig);
            let j = pick_index(snap, width, elig, (draw as int) % t);
            let np = elig[j];
            let nroute = route.push(np);
            if np.0 == er && np.1 == ec {
                // Reached End: record the route, reset for the next attempt.
                ((true, (sr, sc), Seq::<(u32, u32)>::empty()), Some(nroute))
            } else if nroute.len() > MAX_ANT_STEPS as int {
                // Step budget exhausted: the attempt fails, no deposition.
                ((false, (sr, sc), Seq::<(u32, u32)>::empty()), None)
            } else {
                ((true, np, nroute), None)
            }
        }
    }
}

/// Per-cell deposit earned by a successful route of length `len`.
pub open spec fn route_amount(len: int) -> int {
    DEPOSIT_Q as int / len
}

/// Adds `amount` to every cell of `route`, front to back.
pub open spec fn deposit_route(
    ph: Seq<int>,
    width: u32,
    route: Seq<(u32, u32)>,
    amount: int,
) -> Seq<int>
    decreases route.len(),
{
    if route.len() == 0 {
        ph
    } else {
        let i = flat(route[0].0 as int, route[0].1 as int, width);
        deposit_route(ph.update(i, ph[i] + amount), width, route.skip(1), amount)
    }
}

/// Applies the deposition a completed route earns, if one was completed.
pub open spec fn apply_event(
    ph: Seq<int>,
    width: u32,
    ev: Option<Seq<(u32, u32)>>,
) -> Seq<int> {
    match ev {
        Option::Some(route) => deposit_route(ph, width, route, route_amount(route.len() as int)),
        Option::None => ph,
    }
}

/// The pheromone field after the deposits of ants `0 .. k`, every ant
/// stepping against the same snapshot `snap`.
pub open spec fn deposits_upto(
    cells: Seq<Cell>,
    snap: Seq<int>,
    width: u32,
    height: u32,
    sr: u32,
    sc: u32,
    er: u32,
    ec: u32,
    ants: Seq<Ant>,
    seed: u64,
    t: u64,
    k: int,
) -> Seq<int>
    decreases k,
{
    if k <= 0 {
        snap
    } else {
        let prev = deposits_upto(cells, snap, width, height, sr, sc, er, ec, ants, seed, t, k - 1);
        let a = ants[k - 1];
        let ev = step_outcome(
            cells,
            snap,
            width,
            height,
            sr,
            sc,
            er,
            ec,
            a.alive,
            a.row,
            a.column,
            a.route@,
            ant_rand(seed, t, (k - 1) as u64),
        ).1;
        apply_event(prev, width, ev)
    }
}

/// How many of ants `0 .. k` complete a route this tick.
pub open spec fn successes_upto(
    cells: Seq<Cell>,
    snap: Seq<int>,
    width: u32,
    height: u32,
    sr: u32,
    sc: u32,
    er: u32,
    ec: u32,
    ants: Seq<Ant>,
    seed: u64,
    t: u64,
    k: int,
) -> int
    decreases k,
{
    if k <= 0 {
        0
    } else {
        let a = ants[k - 1];
        let ev = step_outcome(
            cells,
            snap,
            width,
            height,
            sr,
            sc,
            er,
            ec,
            a.alive,
            a.row,
            a.column,
            a.route@,
            ant_rand(seed, t, (k - 1) as u64),
        ).1;
        successes_upto(cells, snap, width, height, sr, sc, er, ec, ants, seed, t, k - 1) + (
        if ev is Some {
            1int
        } else {
            0int
        })
    }
}

/// Every cell multiplied by the evaporation factor `num / den`, rounded down.
pub open spec fn evaporate_all(ph: Seq<int>, num: int, den: int) -> Seq<int> {
    ph.map_values(|v: int| v * num / den)
}

/// A flattened index determines its row and column: two distinct in-bounds
/// positions never share one.
pub proof fn lemma_flat_injective(r1: int, c1: int, r2: int, c2: int, width: u32)
    requires
        0 <= c1 < width,
        0 <= c2 < width,
        0 <= r1,
        0 <= r2,
        flat(r1, c1, width) == flat(r2, c2, width),
    ensures
        r1 == r2 && c1 == c2,
{
    assert(r1 == r2 && c1 == c2) by (nonlinear_arith)
        requires
            0 <= c1 < width,
            0 <= c2 < width,
            0 <= r1,
            0 <= r2,
            r1 * width + c1 == r2 * width + c2,
    ;
}

/// The cell array of an accepted grid is small: both extents stay within
/// `MAX_DIM`, so the flattened size stays well within `u32`.
pub proof fn lemma_dims_bound(width: u32, height: u32)
    requires
        width <= crate::MAX_DIM,
        height <= crate::MAX_DIM,
    ensures
        width * height <= 0x100_0000,
{
    assert(width * height <= 0x100_0000) by (nonlinear_arith)
        requires
            width <= 4096,
            height <= 4096,
    ;
}

/// An in-bounds position flattens to an index inside the cell array.
pub proof fn lemma_flat_bounds(r: int, c: int, width: u32, height: u32)
    requires
        0 <= r < height,
        0 <= c < width,
    ensures
        0 <= flat(r, c, width) < width * height,
{
    assert(0 <= r * width + c < width * height) by (nonlinear_arith)
        requires
            0 <= r < height,
            0 <= c < width,
    ;
}

/// Every entry of an eligible-neighbor list is itself eligible: in bounds,
/// not a wall, and not yet visited.
pub proof fn lemma_eligible_elems(
    cells: Seq<Cell>,
    width: u32,
    height: u32,
    route: Seq<(u32, u32)>,
    r: u32,
    c: u32,
)
    ensures
        forall|m: int|
            0 <= m < eligible_list(cells, width, height, route, r, c).len()
                ==> pos_eligible(
                cells,
                width,
                height,
                route,
                #[trigger] eligible_list(cells, width, height, route, r, c)[m].0 as int,
                eligible_list(cells, width, height, route, r, c)[m].1 as int,
            ),
        eligible_list(cells, width, height, route, r, c).len() <= 4,
{
    let up = opt_pos(cells, width, height, route, r - 1, c as int);
    let down = opt_pos(cells, width, height, route, r + 1, c as int);
    let left = opt_pos(cells, width, height, route, r as int, c - 1);
    let right = opt_pos(cells, width, height, route, r as int, c + 1);
    let e = eligible_list(cells, width, height, route, r, c);
    assert(e == up + down + left + right);
    assert forall|m: int| 0 <= m < e.len() implies pos_eligible(
        cells,
        width,
        height,
        route,
        #[trigger] e[m].0 as int,
        e[m].1 as int,
    ) by {
        if m < up.len() {
            assert(e[m] == up[m]);
        } else if m < up.len() + down.len() {
            assert(e[m] == down[m - up.len()]);
        } else if m < up.len() + down.len() + left.len() {
            assert(e[m] == left[m - up.len() - down.len()]);
        } else {
            assert(e[m] == right[m - up.len() - down.len() - left.len()]);
        }
    }
}

/// Unfolds the weight sum of a suffix by one element.
pub proof fn lemma_total_weight_suffix(ph: Seq<int>, width: u32, list: Seq<(u32, u32)>, k: int)
    requires
        0 <= k < list.len(),
    ensures
        total_weight(ph, width, list.skip(k)) == weight_of(ph, width, list[k]) + total_weight(
            ph,
            width,
            list.skip(k + 1),
        ),
{
    let s = list.skip(k);
    assert(s[0] == list[k]);
    assert(s.skip(1) =~= list.skip(k + 1));
}

/// The weight sum of a list of in-bounds positions lies between one per
/// element and `cap + 1` per element, when every intensity is at most `cap`.
pub proof fn lemma_total_weight_bounds(
    ph: Seq<int>,
    width: u32,
    height: u32,
    list: Seq<(u32, u32)>,
    cap: int,
)
    requires
        ph.len() == width * height,
        forall|i: int| 0 <= i < ph.len() ==> 0 <= #[trigger] ph[i] <= cap,
        forall|k: int|
            0 <= k < list.len() ==> #[trigger] list[k].0 < height && list[k].1 < width,
        cap >= 0,
    ensures
        list.len() <= total_weight(ph, width, list) <= list.len() * (cap + 1),
    decreases list.len(),
{
    if list.len() == 0 {
    } else {
        lemma_flat_bounds(list[0].0 as int, list[0].1 as int, width, height);
        assert(forall|k: int|
            0 <= k < list.skip(1).len() ==> #[trigger] list.skip(1)[k].0 < height && list.skip(
                1,
            )[k].1 < width);
        lemma_total_weight_bounds(ph, width, height, list.skip(1), cap);
        assert(1 <= weight_of(ph, width, list[0]) <= cap + 1);
        assert((list.len() - 1) * (cap + 1) + (cap + 1) == list.len() * (cap + 1))
            by (nonlinear_arith);
    }
}

/// A draw inside the weight sum selects an index inside the list.
pub proof fn lemma_pick_index_in_range(ph: Seq<int>, width: u32, list: Seq<(u32, u32)>, d: int)
    requires
        list.len() >= 1,
        0 <= d,
    ensures
        0 <= pick_index(ph, width, list, d) < list.len(),
    decreases list.len(),
{
    if list.len() > 1 && d >= weight_of(ph, width, list[0]) {
        lemma_pick_index_in_range(ph, width, list.skip(1), d - weight_of(ph, width, list[0]));
    }
}

/// What one route's deposition does, cell by cell: every cell of the route
/// gains exactly `amount`, every other cell keeps its value.
pub proof fn lemma_deposit_route_props(
    ph: Seq<int>,
    width: u32,
    height: u32,
    route: Seq<(u32, u32)>,
    amount: int,
)
    requires
        ph.len() == width * height,
        amount >= 0,
        forall|k: int|
            0 <= k < route.len() ==> #[trigger] route[k].0 < height && route[k].1 < width,
        forall|k: int, l: int| 0 <= k < l < route.len() ==> route[k] != route[l],
    ensures
        deposit_route(ph, width, route, amount).len() == ph.len(),
        forall|k: int|
            0 <= k < route.len() ==> #[trigger] deposit_route(ph, width, route, amount)[flat(
                route[k].0 as int,
                route[k].1 as int,
                width,
            )] == ph[flat(route[k].0 as int, route[k].1 as int, width)] + amount,
        forall|m: int|
            0 <= m < ph.len() && (forall|k: int|
                0 <= k < route.len() ==> flat(
                    #[trigger] route[k].0 as int,
                    route[k].1 as int,
                    width,
                ) != m) ==> #[trigger] deposit_route(ph, width, route, amount)[m] == ph[m],
        forall|m: int|
            0 <= m < ph.len() ==> ph[m] <= #[trigger] deposit_route(ph, width, route, amount)[m]
                <= ph[m] + amount,
    decreases route.len(),
{
    let res = deposit_route(ph, width, route, amount);
    if route.len() == 0 {
    } else {
        let i0 = flat(route[0].0 as int, route[0].1 as int, width);
        lemma_flat_bounds(route[0].0 as int, route[0].1 as int, width, height);
        let ph1 = ph.update(i0, ph[i0] + amount);
        let rest = route.skip(1);
        assert(forall|k: int|
            0 <= k < rest.len() ==> #[trigger] rest[k].0 < height && rest[k].1 < width);
        lemma_deposit_route_props(ph1, width, height, rest, amount);
        // The head cell is not revisited by the rest of the route.
        assert forall|k: int| 0 <= k < rest.len() implies flat(
            #[trigger] rest[k].0 as int,
            rest[k].1 as int,
            width,
        ) != i0 by {
            assert(rest[k] == route[k + 1]);
            if flat(rest[k].0 as int, rest[k].1 as int, width) == i0 {
                lemma_flat_injective(
                    rest[k].0 as int,
                    rest[k].1 as int,
                    route[0].0 as int,
                    route[0].1 as int,
                    width,
                );
            }
        }
        assert(res[i0] == ph1[i0]);
        // Cells of the tail gain amount over ph1, whose tail cells match ph.
        assert forall|k: int| 0 <= k < route.len() implies #[trigger] res[flat(
            route[k].0 as int,
            route[k].1 as int,
            width,
        )] == ph[flat(route[k].0 as int, route[k].1 as int, width)] + amount by {
            if k == 0 {
            } else {
                let ik = flat(route[k].0 as int, route[k].1 as int, width);
                lemma_flat_bounds(route[k].0 as int, route[k].1 as int, width, height);
                assert(rest[k - 1] == route[k]);
                assert(ik != i0);
                assert(ph1[ik] == ph[ik]);
                assert(res[flat(rest[k - 1].0 as int, rest[k - 1].1 as int, width)] == ph1[flat(
                    rest[k - 1].0 as int,
                    rest[k - 1].1 as int,
                    width,
                )] + amount);
            }
        }
    }
}

} // verus!
