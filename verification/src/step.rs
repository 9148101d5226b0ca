//! Executable ant movement: neighbor enumeration, the weighted draw, and one
//! ant's whole step, each proved equal to its model in `model`.

use vstd::prelude::*;

use crate::ant::{ant_view, Ant};
use crate::cell::Cell;
use crate::model::{eligible_list, flat, lemma_dims_bound, lemma_eligible_elems, lemma_flat_bounds,
    lemma_total_weight_bounds, lemma_total_weight_suffix, opt_pos, ph_int, pick_index,
    pos_eligible, step_outcome, total_weight};
use crate::MAX_ANT_STEPS;
use crate::MAX_DIM;
use crate::PHEROMONE_CAP;
use crate::WEIGHT_BIAS;

verus! {

/// The mathematical content of a possibly-completed route.
pub open spec fn opt_route_view(o: Option<Vec<(u32, u32)>>) -> Option<Seq<(u32, u32)>> {
    match o {
        Option::Some(v) => Option::Some(v@),
        Option::None => Option::None,
    }
}

/// Whether the current attempt has already visited `(r, c)`.
fn route_contains(route: &Vec<(u32, u32)>, r: u32, c: u32) -> (found: bool)
    ensures
        found == route@.contains((r, c)),
{
    let mut k: usize = 0;
    while k < route.len()
        invariant
            0 <= k <= route@.len(),
            forall|j: int| 0 <= j < k ==> route@[j] != (r, c),
        decreases route@.len() - k,
    {
        let p = route[k];
        if p.0 == r && p.1 == c {
            proof {
                assert(route@[k as int] == (r, c));
            }
            return true;
        }
        k = k + 1;
    }
    proof {
        assert(!route@.contains((r, c))) by {
            if route@.contains((r, c)) {
                let j = choose|j: int| 0 <= j < route@.len() && route@[j] == (r, c);
            }
        }
    }
    false
}

/// A fresh copy of a route buffer.
fn copy_route(route: &Vec<(u32, u32)>) -> (out: Vec<(u32, u32)>)
    ensures
        out@ == route@,
{
    let mut out: Vec<(u32, u32)> = Vec::new();
    let mut k: usize = 0;
    while k < route.len()
        invariant
            0 <= k <= route@.len(),
            out@.len() == k,
            forall|j: int| 0 <= j < k ==> out@[j] == route@[j],
        decreases route@.len() - k,
    {
        out.push(route[k]);
        k = k + 1;
    }
    proof {
        assert(out@ =~= route@);
    }
    out
}

/// The eligible neighbors of `(r, c)`, equal to the model's `eligible_list`.
fn eligible_neighbors(cells: &Vec<Cell>, width: u32, height: u32, route: &Vec<(u32, u32)>,
    r: u32, c: u32) -> (out: Vec<(u32, u32)>)
    requires
        0 < width <= MAX_DIM,
        0 < height <= MAX_DIM,
        cells@.len() == width * height,
        r < height,
        c < width,
    ensures
        out@ == eligible_list(cells@, width, height, route@, r, c),
{
    proof {
        lemma_dims_bound(width, height);
    }
    let ghost up = opt_pos(cells@, width, height, route@, r - 1, c as int);
    let ghost down = opt_pos(cells@, width, height, route@, r + 1, c as int);
    let ghost left = opt_pos(cells@, width, height, route@, r as int, c - 1);
    let ghost right = opt_pos(cells@, width, height, route@, r as int, c + 1);
    let mut out: Vec<(u32, u32)> = Vec::new();
    if r > 0 {
        proof {
            lemma_flat_bounds(r - 1, c as int, width, height);
        }
        let open = match cells[((r - 1) * width + c) as usize] {
            Cell::Wall => false,
            _ => true,
        };
        if open && !route_contains(route, r - 1, c) {
            out.push((r - 1, c));
        }
    }
    proof {
        assert(out@ =~= up);
    }
    if r + 1 < height {
        proof {
            lemma_flat_bounds(r + 1, c as int, width, height);
        }
        let open = match cells[((r + 1) * width + c) as usize] {
            Cell::Wall => false,
            _ => true,
        };
        if open && !route_contains(route, r + 1, c) {
            out.push((r + 1, c));
        }
    }
    proof {
        assert(out@ =~= up + down);
    }
    if c > 0 {
        proof {
            lemma_flat_bounds(r as int, c - 1, width, height);
        }
        let open = match cells[(r * width + (c - 1)) as usize] {
            Cell::Wall => false,
            _ => true,
        };
        if open && !route_contains(route, r, c - 1) {
            out.push((r, c - 1));
        }
    }
    proof {
        assert(out@ =~= up + down + left);
    }
    if c + 1 < width {
        proof {
            lemma_flat_bounds(r as int, c + 1, width, height);
        }
        let open = match cells[(r * width + (c + 1)) as usize] {
            Cell::Wall => false,
            _ => true,
        };
        if open && !route_contains(route, r, c + 1) {
            out.push((r, c + 1));
        }
    }
    proof {
        assert(out@ =~= up + down + left + right);
    }
    out
}

/// The index the weighted draw selects, equal to the model's `pick_index`
/// applied to the draw reduced modulo the total weight.
#[verifier::loop_isolation(false)]
fn choose_weighted(snap: &Vec<u64>, width: u32, height: u32, list: &Vec<(u32, u32)>, draw: u64)
    -> (res: usize)
    requires
        0 < width <= MAX_DIM,
        0 < height <= MAX_DIM,
        snap@.len() == width * height,
        forall|i: int| 0 <= i < snap@.len() ==> #[trigger] snap@[i] <= PHEROMONE_CAP,
        1 <= list@.len() <= 4,
        forall|k: int|
            0 <= k < list@.len() ==> #[trigger] list@[k].0 < height && list@[k].1 < width,
    ensures
        res < list@.len(),
        res as int == pick_index(
            ph_int(snap@),
            width,
            list@,
            (draw as int) % total_weight(ph_int(snap@), width, list@),
        ),
{
    let ghost phm = ph_int(snap@);
    proof {
        lemma_dims_bound(width, height);
        assert(forall|i: int| 0 <= i < phm.len() ==> 0 <= #[trigger] phm[i] <= PHEROMONE_CAP as int);
        lemma_total_weight_bounds(phm, width, height, list@, PHEROMONE_CAP as int);
        assert(list@.skip(0) =~= list@);
    }
    let ghost total = total_weight(phm, width, list@);
    let mut t: u64 = 0;
    let mut k: usize = 0;
    while k < list.len()
        invariant
            0 <= k <= list@.len(),
            t as int == total - total_weight(phm, width, list@.skip(k as int)),
            t as int <= total,
        decreases list@.len() - k,
    {
        let p = list[k];
        proof {
            lemma_flat_bounds(p.0 as int, p.1 as int, width, height);
            lemma_total_weight_suffix(phm, width, list@, k as int);
            assert(forall|m: int|
                0 <= m < list@.skip(k as int + 1).len() ==> #[trigger] list@.skip(
                    k as int + 1,
                )[m].0 < height && list@.skip(k as int + 1)[m].1 < width);
            lemma_total_weight_bounds(phm, width, height, list@.skip(k as int + 1),
                PHEROMONE_CAP as int);
        }
        let w = snap[(p.0 * width + p.1) as usize] + WEIGHT_BIAS;
        t = t + w;
        k = k + 1;
    }
    proof {
        assert(list@.skip(list@.len() as int) =~= Seq::<(u32, u32)>::empty());
        assert(t as int == total);
    }
    let d0 = draw % t;
    let mut j: usize = 0;
    let mut d = d0;
    while j + 1 < list.len()
        invariant
            0 <= j < list@.len(),
            pick_index(phm, width, list@, d0 as int) == j + pick_index(
                phm,
                width,
                list@.skip(j as int),
                d as int,
            ),
            0 <= d as int,
            (d as int) < total_weight(phm, width, list@.skip(j as int)),
        decreases list@.len() - j,
    {
        let p = list[j];
        proof {
            lemma_flat_bounds(p.0 as int, p.1 as int, width, height);
            lemma_total_weight_suffix(phm, width, list@, j as int);
            assert(list@.skip(j as int)[0] == list@[j as int]);
            assert(list@.skip(j as int).skip(1) =~= list@.skip(j as int + 1));
        }
        let w = snap[(p.0 * width + p.1) as usize] + WEIGHT_BIAS;
        if d < w {
            return j;
        }
        d = d - w;
        j = j + 1;
    }
    proof {
        assert(list@.skip(j as int)[0] == list@[j as int]);
    }
    j
}

/// One ant's step against the tick's snapshot: produces the ant's next state
/// and the route it completed, exactly as the model's `step_outcome` says.
///
/// The resulting ant fits the grid again, and stands either at Start or on a
/// cell that is not a wall.
pub(crate) fn step_ant(cells: &Vec<Cell>, snap: &Vec<u64>, width: u32, height: u32, sr: u32,
    sc: u32, er: u32, ec: u32, ant: &Ant, draw: u64) -> (res: (Ant, Option<Vec<(u32, u32)>>))
    requires
        0 < width <= MAX_DIM,
        0 < height <= MAX_DIM,
        cells@.len() == width * height,
        snap@.len() == width * height,
        forall|i: int| 0 <= i < snap@.len() ==> #[trigger] snap@[i] <= PHEROMONE_CAP,
        sr < height,
        sc < width,
        ant.wf(width, height),
    ensures
        ant_view(res.0) == step_outcome(
            cells@,
            ph_int(snap@),
            width,
            height,
            sr,
            sc,
            er,
            ec,
            ant.alive,
            ant.row,
            ant.column,
            ant.route@,
            draw,
        ).0,
        opt_route_view(res.1) == step_outcome(
            cells@,
            ph_int(snap@),
            width,
            height,
            sr,
            sc,
            er,
            ec,
            ant.alive,
            ant.row,
            ant.column,
            ant.route@,
            draw,
        ).1,
        res.0.wf(width, height),
        (res.0.row == sr && res.0.column == sc) || cells@[flat(
            res.0.row as int,
            res.0.column as int,
            width,
        )] != Cell::Wall,
        res.1 matches Some(rt) ==> {
            &&& 1 <= rt@.len() <= MAX_ANT_STEPS + 1
            &&& forall|k: int| 0 <= k < rt@.len() ==> #[trigger] rt@[k].0 < height && rt@[k].1
                < width
            &&& forall|k: int, l: int| 0 <= k < l < rt@.len() ==> rt@[k] != rt@[l]
        },
{
    if !ant.alive {
        let na = Ant { alive: true, row: sr, column: sc, route: Vec::new() };
        return (na, None);
    }
    if ant.row == er && ant.column == ec {
        let route = copy_route(&ant.route);
        let na = Ant { alive: true, row: sr, column: sc, route: Vec::new() };
        if route.len() > 0 {
            return (na, Some(route));
        } else {
            return (na, None);
        }
    }
    let elig = eligible_neighbors(cells, width, height, &ant.route, ant.row, ant.column);
    if elig.len() == 0 {
        let na = Ant { alive: false, row: sr, column: sc, route: Vec::new() };
        return (na, None);
    }
    proof {
        lemma_eligible_elems(cells@, width, height, ant.route@, ant.row, ant.column);
    }
    let j = choose_weighted(snap, width, height, &elig, draw);
    let np = elig[j];
    proof {
        assert(pos_eligible(cells@, width, height, ant.route@, np.0 as int, np.1 as int));
    }
    let mut nroute = copy_route(&ant.route);
    nroute.push(np);
    if np.0 == er && np.1 == ec {
        let na = Ant { alive: true, row: sr, column: sc, route: Vec::new() };
        return (na, Some(nroute));
    }
    let mut na = Ant { alive: true, row: np.0, column: np.1, route: nroute };
    if na.check_dead() {
        let dead = Ant { alive: false, row: sr, column: sc, route: Vec::new() };
        return (dead, None);
    }
    (na, None)
}

} // verus!
