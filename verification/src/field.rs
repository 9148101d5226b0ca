//! Executable operations on the flattened pheromone buffer.

use vstd::prelude::*;

use crate::model::{deposit_route, evaporate_all, flat, lemma_flat_bounds, lemma_flat_injective,
    ph_int};
use crate::MAX_DIM;

verus! {

/// A fresh copy of a pheromone buffer: the write side of the tick's double
/// buffering.
pub(crate) fn copy_buf(v: &Vec<u64>) -> (out: Vec<u64>)
    ensures
        out@ == v@,
{
    let mut out: Vec<u64> = Vec::new();
    let mut k: usize = 0;
    while k < v.len()
        invariant
            0 <= k <= v@.len(),
            out@.len() == k,
            forall|j: int| 0 <= j < k ==> out@[j] == v@[j],
        decreases v@.len() - k,
    {
        out.push(v[k]);
        k = k + 1;
    }
    proof {
        assert(out@ =~= v@);
    }
    out
}

/// Lifting to `int` commutes with a point update of the buffer.
proof fn lemma_ph_int_update(v: Seq<u64>, i: int, x: u64)
    requires
        0 <= i < v.len(),
    ensures
        ph_int(v.update(i, x)) == ph_int(v).update(i, x as int),
{
    assert(ph_int(v.update(i, x)) =~= ph_int(v).update(i, x as int));
}

/// Adds `amount` to every cell of `path`, matching `deposit_route`.
///
/// The path must be duplicate-free and in bounds, and the touched cells must
/// have room for the addition.
#[verifier::loop_isolation(false)]
pub(crate) fn deposit_into(ph: &mut Vec<u64>, width: u32, height: u32, path: &Vec<(u32, u32)>,
    amount: u64)
    requires
        0 < width <= MAX_DIM,
        0 < height <= MAX_DIM,
        old(ph)@.len() == width * height,
        forall|k: int|
            0 <= k < path@.len() ==> #[trigger] path@[k].0 < height && path@[k].1 < width,
        forall|k: int, l: int| 0 <= k < l < path@.len() ==> path@[k] != path@[l],
        forall|k: int|
            0 <= k < path@.len() ==> #[trigger] ph_int(old(ph)@)[flat(
                path@[k].0 as int,
                path@[k].1 as int,
                width,
            )] + amount <= u64::MAX,
    ensures
        final(ph)@.len() == old(ph)@.len(),
        ph_int(final(ph)@) == deposit_route(ph_int(old(ph)@), width, path@, amount as int),
{
    let ghost full = deposit_route(ph_int(old(ph)@), width, path@, amount as int);
    proof {
        assert(path@.skip(0) =~= path@);
    }
    let mut k: usize = 0;
    while k < path.len()
        invariant
            0 <= k <= path@.len(),
            ph@.len() == old(ph)@.len(),
            full == deposit_route(ph_int(ph@), width, path@.skip(k as int), amount as int),
            forall|j: int|
                k <= j < path@.len() ==> #[trigger] ph_int(ph@)[flat(
                    path@[j].0 as int,
                    path@[j].1 as int,
                    width,
                )] == ph_int(old(ph)@)[flat(path@[j].0 as int, path@[j].1 as int, width)],
        decreases path@.len() - k,
    {
        let p = path[k];
        proof {
            crate::model::lemma_dims_bound(width, height);
            lemma_flat_bounds(p.0 as int, p.1 as int, width, height);
        }
        let idx: usize = (p.0 * width + p.1) as usize;
        let ghost prev = ph@;
        let ghost before = ph_int(prev);
        let v = ph[idx];
        ph.set(idx, v + amount);
        proof {
            lemma_ph_int_update(prev, idx as int, (v + amount) as u64);
            assert(path@.skip(k as int)[0] == path@[k as int]);
            assert(path@.skip(k as int).skip(1) =~= path@.skip(k as int + 1));
            assert(ph_int(ph@) == before.update(idx as int, before[idx as int] + amount));
            // Later path cells flatten to other indices, so they keep their values.
            assert forall|j: int| k + 1 <= j < path@.len() implies #[trigger] ph_int(ph@)[flat(
                path@[j].0 as int,
                path@[j].1 as int,
                width,
            )] == ph_int(old(ph)@)[flat(path@[j].0 as int, path@[j].1 as int, width)] by {
                lemma_flat_bounds(path@[j].0 as int, path@[j].1 as int, width, height);
                if flat(path@[j].0 as int, path@[j].1 as int, width) == idx as int {
                    lemma_flat_injective(
                        path@[j].0 as int,
                        path@[j].1 as int,
                        p.0 as int,
                        p.1 as int,
                        width,
                    );
                }
            }
        }
        k = k + 1;
    }
    proof {
        assert(path@.skip(path@.len() as int) =~= Seq::<(u32, u32)>::empty());
    }
}

/// Multiplies every cell by `num / den`, rounding down, matching
/// `evaporate_all`.
#[verifier::loop_isolation(false)]
pub(crate) fn evaporate_vec(ph: &mut Vec<u64>, num: u64, den: u64)
    requires
        0 < num < den,
    ensures
        final(ph)@.len() == old(ph)@.len(),
        ph_int(final(ph)@) == evaporate_all(ph_int(old(ph)@), num as int, den as int),
{
    let mut k: usize = 0;
    while k < ph.len()
        invariant
            0 <= k <= ph@.len(),
            ph@.len() == old(ph)@.len(),
            0 < num < den,
            forall|j: int| 0 <= j < k ==> ph@[j] as int == #[trigger] (old(ph)@[j] as int) * (
            num as int) / (den as int),
            forall|j: int| k <= j < ph@.len() ==> ph@[j] == #[trigger] old(ph)@[j],
        decreases ph@.len() - k,
    {
        let v = ph[k];
        proof {
            assert((v as int) * (num as int) < 0x1_0000_0000_0000_0000_0000_0000_0000_0000int)
                by (nonlinear_arith)
                requires
                    v <= 0xFFFF_FFFF_FFFF_FFFFu64,
                    num <= 0xFFFF_FFFF_FFFF_FFFFu64,
            ;
            assert((v as int) * (num as int) <= (v as int) * (den as int)) by (nonlinear_arith)
                requires
                    num <= den,
                    v >= 0,
            ;
            vstd::arithmetic::div_mod::lemma_div_is_ordered(
                (v as int) * (num as int),
                (v as int) * (den as int),
                den as int,
            );
            vstd::arithmetic::div_mod::lemma_div_multiples_vanish(v as int, den as int);
            assert((v as int) * (den as int) == (den as int) * (v as int)) by (nonlinear_arith);
            assert((v as int) * (num as int) / (den as int) <= v as int);
        }
        let nv: u64 = ((v as u128 * num as u128) / den as u128) as u64;
        proof {
            assert(nv as int == (v as int) * (num as int) / (den as int));
        }
        ph.set(k, nv);
        k = k + 1;
    }
    proof {
        assert(ph_int(ph@) =~= evaporate_all(ph_int(old(ph)@), num as int, den as int));
    }
}

} // verus!
