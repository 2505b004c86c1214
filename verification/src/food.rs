//! Food placement: a food cell is drawn uniformly over the board and rejected
//! while it lands on the snake, with a deterministic sweep as the fallback so
//! that a crowded board cannot make placement spin forever. A full board is
//! reported as `None`: the caller treats it as a terminal condition.

use vstd::prelude::*;
use std::collections::VecDeque;
use crate::geometry::Coordinate;
use rand::Rng;

verus! {

/// How many uniform draws over the whole board are tried before the sweep.
pub const PLACEMENT_DRAWS: u32 = 64;

/// Whether some cell of `cells` at an index at or past `from` equals `cell`.
pub open spec fn occupies_from(cells: Seq<Coordinate>, from: int, cell: Coordinate) -> bool {
    exists|i: int| from <= i < cells.len() && cells[i] == cell
}

/// Whether `cell` is one of `cells`.
pub open spec fn occupies(cells: Seq<Coordinate>, cell: Coordinate) -> bool {
    occupies_from(cells, 0, cell)
}

/// Relies on rand: `thread_rng().gen_range(0..bound)` returns a uniformly
/// distributed value in `[0, bound)` and panics only on an empty range.
#[verifier::external_body]
fn sample_below(bound: u16) -> (sample: u16)
    requires
        bound > 0,
    ensures
        sample < bound,
{
    rand::thread_rng().gen_range(0..bound)
}

/// Whether `target` equals a segment at an index at or past `start`.
pub fn contains_from(cells: &VecDeque<Coordinate>, start: usize, target: Coordinate) -> (found:
    bool)
    ensures
        found == occupies_from(cells@, start as int, target),
{
    let n = cells.len();
    let mut i = start;
    if i > n {
        return false;
    }
    while i < n
        invariant
            start <= i <= n,
            n == cells@.len(),
            forall|j: int| start <= j < i ==> cells@[j] != target,
        decreases n - i,
    {
        if cells[i] == target {
            return true;
        }
        i = i + 1;
    }
    false
}

/// The first cell of the board, in row-major order, that no segment occupies;
/// `None` exactly when every cell of the board is occupied.
fn first_free_cell(bounds: Coordinate, occupied: &VecDeque<Coordinate>) -> (found: Option<
    Coordinate,
>)
    ensures
        match found {
            Some(c) => c.in_bounds(bounds) && !occupies(occupied@, c),
            None => forall|c: Coordinate| c.in_bounds(bounds) ==> occupies(occupied@, c),
        },
{
    let mut y: u16 = 0;
    while y < bounds.y
        invariant
            y <= bounds.y,
            forall|c: Coordinate| c.in_bounds(bounds) && c.y < y ==> occupies(occupied@, c),
        decreases bounds.y - y,
    {
        let mut x: u16 = 0;
        while x < bounds.x
            invariant
                x <= bounds.x,
                y < bounds.y,
                forall|c: Coordinate| c.in_bounds(bounds) && c.y < y ==> occupies(occupied@, c),
                forall|c: Coordinate| c.in_bounds(bounds) && c.y == y && c.x < x ==> occupies(
                    occupied@,
                    c,
                ),
            decreases bounds.x - x,
        {
            let candidate = Coordinate { x, y };
            if !contains_from(occupied, 0, candidate) {
                return Some(candidate);
            }
            x = x + 1;
        }
        y = y + 1;
    }
    None
}

/// Chooses a cell for a food item: inside the board and never on a cell the
/// snake occupies. Up to `PLACEMENT_DRAWS` uniform draws over the board are
/// rejected while they land on the snake; after that the board is swept for a
/// free cell, so `None` comes back exactly when the snake covers the whole
/// board.
pub fn place_food(bounds: Coordinate, occupied: &VecDeque<Coordinate>) -> (placed: Option<
    Coordinate,
>)
    requires
        bounds.x > 0,
        bounds.y > 0,
    ensures
        match placed {
            Some(c) => c.in_bounds(bounds) && !occupies(occupied@, c),
            None => forall|c: Coordinate| c.in_bounds(bounds) ==> occupies(occupied@, c),
        },
{
    let mut draws: u32 = 0;
    while draws < PLACEMENT_DRAWS
        invariant
            bounds.x > 0,
            bounds.y > 0,
        decreases PLACEMENT_DRAWS - draws,
    {
        let candidate = Coordinate { x: sample_below(bounds.x), y: sample_below(bounds.y) };
        if !contains_from(occupied, 0, candidate) {
            return Some(candidate);
        }
        draws = draws + 1;
    }
    first_free_cell(bounds, occupied)
}

} // verus!
