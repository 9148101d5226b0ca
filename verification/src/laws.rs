//! The library's global guarantees, stated and proved once over the
//! invariant and the tick relation.

use vstd::prelude::*;

use crate::ant::ant_view;
use crate::cell::Cell;
use crate::model::route_amount;
use crate::universe::Universe;
use crate::MAX_ANT_STEPS;

verus! {

/// Bounds law: in a well-formed universe every ant stands inside
/// `[0, width) x [0, height)`. Construction establishes well-formedness and
/// every operation preserves it, so this holds at every tick; `tick`
/// additionally guarantees that no ant stands on a Wall cell.
pub proof fn lemma_ants_in_bounds(u: Universe, i: int)
    requires
        u.wf(),
        0 <= i < u.ants@.len(),
    ensures
        u.ants@[i].row < u.height,
        u.ants@[i].column < u.width,
{
}

/// Special-cell uniqueness law: in a well-formed universe exactly one cell
/// is Start and exactly one is End. Every sequence of `set_start`, `set_end`
/// and `toggle_wall` calls preserves well-formedness, so this holds after
/// any such sequence.
pub proof fn lemma_special_cells_unique(u: Universe)
    requires
        u.wf(),
    ensures
        u.cells@[u.start_idx()] == Cell::Start,
        u.cells@[u.end_idx()] == Cell::End,
        forall|i: int, j: int|
            0 <= i < u.cells@.len() && 0 <= j < u.cells@.len() && u.cells@[i] == Cell::Start
                && u.cells@[j] == Cell::Start ==> i == j,
        forall|i: int, j: int|
            0 <= i < u.cells@.len() && 0 <= j < u.cells@.len() && u.cells@[i] == Cell::End
                && u.cells@[j] == Cell::End ==> i == j,
{
    assert forall|i: int, j: int|
        0 <= i < u.cells@.len() && 0 <= j < u.cells@.len() && u.cells@[i] == Cell::Start
            && u.cells@[j] == Cell::Start implies i == j by {
        assert(i == u.start_idx() && j == u.start_idx());
    }
    assert forall|i: int, j: int|
        0 <= i < u.cells@.len() && 0 <= j < u.cells@.len() && u.cells@[i] == Cell::End
            && u.cells@[j] == Cell::End implies i == j by {
        assert(i == u.end_idx() && j == u.end_idx());
    }
}

/// Step-bound law: an ant's route never grows beyond `MAX_ANT_STEPS` without
/// being reset — in every well-formed universe, which every operation
/// preserves, every route length is at most the budget.
pub proof fn lemma_step_bound(u: Universe, i: int)
    requires
        u.wf(),
        0 <= i < u.ants@.len(),
    ensures
        u.ants@[i].route@.len() <= MAX_ANT_STEPS,
{
}

/// Non-negativity law: every pheromone intensity is at least zero (and at
/// most the cap), at every tick.
pub proof fn lemma_pheromone_nonnegative(u: Universe, i: int)
    requires
        u.wf(),
        0 <= i < u.pheromones@.len(),
    ensures
        u.pheromones@[i] >= 0,
        u.pheromones@[i] <= crate::PHEROMONE_CAP,
{
}

/// Deposit monotonicity law: a shorter successful route earns a strictly
/// larger per-cell deposit than a longer one, for every pair of route
/// lengths an ant can produce (routes never exceed `MAX_ANT_STEPS + 1`
/// cells).
pub proof fn lemma_deposit_monotonic(shorter: int, longer: int)
    requires
        1 <= shorter < longer,
        longer <= MAX_ANT_STEPS + 1,
    ensures
        route_amount(shorter) > route_amount(longer),
{
    let q = crate::DEPOSIT_Q as int;
    let qs = q / shorter;
    let ql = q / longer;
    vstd::arithmetic::div_mod::lemma_fundamental_div_mod(q, shorter);
    vstd::arithmetic::div_mod::lemma_fundamental_div_mod(q, longer);
    vstd::arithmetic::div_mod::lemma_mod_bound(q, shorter);
    vstd::arithmetic::div_mod::lemma_mod_bound(q, longer);
    assert(qs > ql) by (nonlinear_arith)
        requires
            q == shorter * qs + q % shorter,
            0 <= q % shorter < shorter,
            q == longer * ql + q % longer,
            0 <= q % longer < longer,
            1 <= shorter < longer,
            longer <= 201,
            q == 100_000,
    ;
}

/// Snapshot-isolation law: within one tick, an ant's outcome depends only on
/// the grid, the shared pheromone snapshot, the tick's randomness and the
/// ant's own prior state — never on the other ants. Two ticks whose
/// universes agree on all of those leave that ant in the same state, however
/// the rest of either colony looks.
pub proof fn lemma_snapshot_isolation(
    pre1: Universe,
    post1: Universe,
    pre2: Universe,
    post2: Universe,
    i: int,
)
    requires
        Universe::tick_rel(pre1, post1),
        Universe::tick_rel(pre2, post2),
        pre1.cells@ == pre2.cells@,
        pre1.pheromones@ == pre2.pheromones@,
        pre1.width == pre2.width,
        pre1.height == pre2.height,
        pre1.start_row == pre2.start_row,
        pre1.start_column == pre2.start_column,
        pre1.end_row == pre2.end_row,
        pre1.end_column == pre2.end_column,
        pre1.seed == pre2.seed,
        pre1.tick_count == pre2.tick_count,
        0 <= i < pre1.ants@.len(),
        0 <= i < pre2.ants@.len(),
        ant_view(pre1.ants@[i]) == ant_view(pre2.ants@[i]),
    ensures
        ant_view(post1.ants@[i]) == ant_view(post2.ants@[i]),
{
    assert(pre1.ants@[i].alive == pre2.ants@[i].alive);
    assert(pre1.ants@[i].row == pre2.ants@[i].row);
    assert(pre1.ants@[i].column == pre2.ants@[i].column);
    assert(pre1.ants@[i].route@ == pre2.ants@[i].route@);
}

/// Determinism law: one tick is a function of the pre-tick state — two ticks
/// from equal states leave every ant equal. With a fixed seed a run replays
/// exactly.
pub proof fn lemma_tick_deterministic(pre: Universe, post1: Universe, post2: Universe, i: int)
    requires
        Universe::tick_rel(pre, post1),
        Universe::tick_rel(pre, post2),
        0 <= i < pre.ants@.len(),
    ensures
        ant_view(post1.ants@[i]) == ant_view(post2.ants@[i]),
        ph_int_eq(post1, post2),
{
}

/// Whether two universes carry the same pheromone field.
pub open spec fn ph_int_eq(a: Universe, b: Universe) -> bool {
    crate::model::ph_int(a.pheromones@) == crate::model::ph_int(b.pheromones@)
}

} // verus!
