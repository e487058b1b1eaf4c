//! Food placement: uniform selection of an empty board cell.
//!
//! The board is scanned in row-major order. An occupancy grid marks every
//! cell the snake or the existing food covers; a draw `k` below the number
//! of free cells selects the `(k+1)`-th unoccupied cell of the scan.

use crate::game::{cell_occupied, in_bounds, Coords, Food};
use vstd::prelude::*;

verus! {

/// The row-major index of cell `c` on a board `w` cells wide.
pub open spec fn index_of_cell(c: Coords, w: usize) -> int {
    c.y * w + c.x
}

/// The cell with row-major index `idx` on a board `w` cells wide.
pub open spec fn cell_of_index(idx: int, w: usize) -> Coords
    recommends
        w > 0,
        idx >= 0,
{
    Coords { x: ((idx % (w as int)) as usize), y: ((idx / (w as int)) as usize) }
}

/// Distinct in-bounds cells have distinct row-major indices.
proof fn lemma_cell_index_injective(a: Coords, b: Coords, w: usize, h: usize)
    requires
        w > 0,
        h > 0,
        in_bounds(a, w, h),
        in_bounds(b, w, h),
        a != b,
    ensures
        index_of_cell(a, w) != index_of_cell(b, w),
{
    assert(a.x < w && b.x < w && (a.x != b.x || a.y != b.y) ==> a.y * w + a.x != b.y * w + b.x)
        by (nonlinear_arith);
}

/// The row-major index of an in-bounds cell lies below the cell count, and
/// the index maps back to the cell.
pub(crate) proof fn lemma_cell_index_in_range(c: Coords, w: usize, h: usize)
    requires
        w > 0,
        h > 0,
        in_bounds(c, w, h),
    ensures
        0 <= index_of_cell(c, w) < w * h,
        cell_of_index(index_of_cell(c, w), w) == c,
{
    assert(c.x < w && c.y < h ==> 0 <= c.y * w + c.x < w * h) by (nonlinear_arith);
    vstd::arithmetic::div_mod::lemma_fundamental_div_mod_converse(
        index_of_cell(c, w),
        w as int,
        c.y as int,
        c.x as int,
    );
}

/// An index below the cell count maps to an in-bounds cell, and the cell
/// maps back to the index.
pub(crate) proof fn lemma_index_cell_in_bounds(idx: int, w: usize, h: usize)
    requires
        w > 0,
        h > 0,
        0 <= idx < w * h,
    ensures
        in_bounds(cell_of_index(idx, w), w, h),
        index_of_cell(cell_of_index(idx, w), w) == idx,
{
    vstd::arithmetic::div_mod::lemma_mod_pos_bound(idx, w as int);
    vstd::arithmetic::div_mod::lemma_fundamental_div_mod(idx, w as int);
    assert(idx < w * h && idx == (w as int) * (idx / (w as int)) + idx % (w as int) && 0 <= idx
        % (w as int) < w ==> idx / (w as int) < h) by (nonlinear_arith);
    vstd::arithmetic::div_mod::lemma_div_pos_is_pos(idx, w as int);
    assert((idx / (w as int)) * (w as int) == (w as int) * (idx / (w as int))) by (nonlinear_arith);
}

/// Pigeonhole on the board: a sequence of pairwise distinct in-bounds cells
/// cannot be longer than the number of cells.
pub proof fn lemma_distinct_cells_bounded(s: Seq<Coords>, w: usize, h: usize)
    requires
        w > 0,
        h > 0,
        forall|i: int| 0 <= i < s.len() ==> in_bounds(#[trigger] s[i], w, h),
        forall|i: int, j: int| 0 <= i < j < s.len() ==> s[i] != s[j],
    ensures
        s.len() <= w * h,
{
    let idxs = Seq::new(s.len(), |i: int| index_of_cell(s[i], w));
    assert forall|i: int, j: int|
        0 <= i < idxs.len() && 0 <= j < idxs.len() && i != j implies idxs[i] != idxs[j] by {
        if i < j {
            lemma_cell_index_injective(s[i], s[j], w, h);
        } else {
            lemma_cell_index_injective(s[j], s[i], w, h);
        }
    }
    assert(idxs.no_duplicates());
    idxs.unique_seq_to_set();
    let range = vstd::set_lib::set_int_range(0, (w * h) as int);
    assert forall|e: int| idxs.to_set().contains(e) implies range.contains(e) by {
        let i = choose|i: int| 0 <= i < idxs.len() && idxs[i] == e;
        lemma_cell_index_in_range(s[i], w, h);
    }
    vstd::set_lib::lemma_int_range(0, (w * h) as int);
    vstd::set_lib::lemma_len_subset(idxs.to_set(), range);
}

/// How many of the first `n` entries of `g` are `false` (free).
pub open spec fn count_free(g: Seq<bool>, n: int) -> int
    decreases n,
{
    if n <= 0 {
        0
    } else {
        count_free(g, n - 1) + if g[n - 1] {
            0int
        } else {
            1int
        }
    }
}

/// The free count of a prefix never exceeds the free count of a longer
/// prefix, and grows by at most the added length.
pub(crate) proof fn lemma_count_free_monotone(g: Seq<bool>, i: int, j: int)
    requires
        0 <= i <= j,
    ensures
        count_free(g, i) <= count_free(g, j) <= count_free(g, i) + (j - i),
    decreases j - i,
{
    if i < j {
        lemma_count_free_monotone(g, i, j - 1);
    }
}

/// When no prefix entry is free, every prefix entry is occupied.
pub(crate) proof fn lemma_count_free_zero(g: Seq<bool>, n: int)
    requires
        count_free(g, n) == 0,
    ensures
        forall|i: int| 0 <= i < n ==> g[i],
    decreases n,
{
    if n > 0 {
        lemma_count_free_monotone(g, 0, n - 1);
        lemma_count_free_monotone(g, n - 1, n);
        lemma_count_free_zero(g, n - 1);
    }
}

/// Builds the occupancy grid: one entry per board cell in row-major order,
/// `true` exactly where the snake's body or a food item sits.
#[verifier::loop_isolation(false)]
pub fn occupancy_grid(snake: &Vec<Coords>, food: &Vec<Food>, w: usize, h: usize) -> (g: Vec<bool>)
    requires
        w > 0,
        h > 0,
        w * h <= usize::MAX,
        forall|i: int| 0 <= i < snake@.len() ==> in_bounds(#[trigger] snake@[i], w, h),
        forall|i: int| 0 <= i < food@.len() ==> in_bounds((#[trigger] food@[i]).pos, w, h),
    ensures
        g@.len() == w * h,
        forall|idx: int|
            0 <= idx < w * h ==> g@[idx] == cell_occupied(snake@, food@, cell_of_index(idx, w)),
{
    let n = w * h;
    let mut g: Vec<bool> = Vec::new();
    let mut i: usize = 0;
    while i < n
        invariant
            i <= n,
            g@.len() == i,
            forall|idx: int| 0 <= idx < i ==> !g@[idx],
        decreases n - i,
    {
        g.push(false);
        i += 1;
    }
    let mut s: usize = 0;
    while s < snake.len()
        invariant
            s <= snake@.len(),
            g@.len() == w * h,
            w > 0,
            h > 0,
            forall|i2: int| 0 <= i2 < snake@.len() ==> in_bounds(#[trigger] snake@[i2], w, h),
            forall|idx: int|
                0 <= idx < w * h ==> g@[idx] == snake@.take(s as int).contains(
                    cell_of_index(idx, w),
                ),
        decreases snake@.len() - s,
    {
        let c = snake[s];
        proof {
            lemma_cell_index_in_range(c, w, h);
        }
        let idx = c.y * w + c.x;
        g[idx] = true;
        proof {
            let taken = snake@.take(s + 1);
            assert(taken.drop_last() == snake@.take(s as int));
            assert forall|j: int| 0 <= j < w * h implies g@[j] == taken.contains(
                cell_of_index(j, w),
            ) by {
                if j == index_of_cell(c, w) {
                    assert(taken[s as int] == c);
                    assert(taken.contains(c));
                } else {
                    assert forall|k: int| 0 <= k < taken.len() && taken[k] == cell_of_index(j, w)
                        implies k < s by {
                        if k == s {
                            lemma_index_cell_in_bounds(j, w, h);
                        }
                    }
                    assert(taken.contains(cell_of_index(j, w)) <==> snake@.take(
                        s as int,
                    ).contains(cell_of_index(j, w))) by {
                        assert(forall|k: int|
                            0 <= k < s ==> taken[k] == #[trigger] snake@.take(s as int)[k]);
                    }
                }
            }
        }
        s += 1;
    }
    proof {
        assert(snake@.take(snake@.len() as int) == snake@);
    }
    let mut f: usize = 0;
    while f < food.len()
        invariant
            f <= food@.len(),
            g@.len() == w * h,
            w > 0,
            h > 0,
            forall|i2: int| 0 <= i2 < food@.len() ==> in_bounds((#[trigger] food@[i2]).pos, w, h),
            forall|idx: int|
                0 <= idx < w * h ==> g@[idx] == (snake@.contains(cell_of_index(idx, w))
                    || food_prefix_at(food@, f as int, cell_of_index(idx, w))),
        decreases food@.len() - f,
    {
        let c = food[f].pos;
        proof {
            lemma_cell_index_in_range(c, w, h);
        }
        let idx = c.y * w + c.x;
        g[idx] = true;
        proof {
            assert forall|j: int|
                0 <= j < w * h implies g@[j] == (snake@.contains(cell_of_index(j, w))
                || food_prefix_at(food@, f + 1, cell_of_index(j, w))) by {
                if j == index_of_cell(c, w) {
                    assert(food_prefix_at(food@, f + 1, c)) by {
                        assert(food@[f as int].pos == c);
                    }
                    assert(cell_of_index(j, w) == c) by {
                        lemma_cell_index_in_range(c, w, h);
                    }
                } else {
                    assert(cell_of_index(j, w) != c) by {
                        if 0 <= j < w * h {
                            lemma_index_cell_in_bounds(j, w, h);
                        }
                    }
                    assert(food_prefix_at(food@, f + 1, cell_of_index(j, w))
                        == food_prefix_at(food@, f as int, cell_of_index(j, w))) by {
                        assert(forall|k: int|
                            0 <= k < f + 1 && (#[trigger] food@[k]).pos == cell_of_index(j, w)
                                ==> k < f);
                    }
                }
            }
        }
        f += 1;
    }
    proof {
        assert forall|idx: int| 0 <= idx < w * h implies g@[idx] == cell_occupied(
            snake@,
            food@,
            cell_of_index(idx, w),
        ) by {
            assert(food_prefix_at(food@, food@.len() as int, cell_of_index(idx, w))
                == crate::game::food_at(food@, cell_of_index(idx, w)));
        }
    }
    g
}

/// Whether one of the first `n` food items occupies cell `c`.
pub open spec fn food_prefix_at(food: Seq<Food>, n: int, c: Coords) -> bool {
    exists|i: int| 0 <= i < n && i < food.len() && (#[trigger] food[i]).pos == c
}

/// Counts the free cells of the occupancy grid.
#[verifier::loop_isolation(false)]
pub fn count_free_cells(g: &Vec<bool>) -> (r: usize)
    ensures
        r == count_free(g@, g@.len() as int),
        r <= g@.len(),
    {
    let mut cnt: usize = 0;
    let mut i: usize = 0;
    while i < g.len()
        invariant
            i <= g@.len(),
            cnt == count_free(g@, i as int),
            cnt <= i,
        decreases g@.len() - i,
    {
        if !g[i] {
            cnt += 1;
        }
        i += 1;
    }
    cnt
}

/// Returns the `(k+1)`-th free cell of the board in row-major scan order:
/// the unique unoccupied cell preceded by exactly `k` unoccupied cells.
#[verifier::loop_isolation(false)]
pub fn nth_free_cell(g: &Vec<bool>, w: usize, h: usize, k: usize) -> (r: Coords)
    requires
        w > 0,
        h > 0,
        w * h <= usize::MAX,
        g@.len() == w * h,
        k < count_free(g@, g@.len() as int),
    ensures
        in_bounds(r, w, h),
        !g@[index_of_cell(r, w)],
        count_free(g@, index_of_cell(r, w)) == k,
{
    let mut idx: usize = 0;
    let mut seen: usize = 0;
    loop
        invariant
            idx <= g@.len(),
            seen == count_free(g@, idx as int),
            seen <= k,
            k < count_free(g@, g@.len() as int),
            g@.len() == w * h,
            w > 0,
            h > 0,
        decreases g@.len() - idx,
    {
        proof {
            lemma_count_free_monotone(g@, idx as int, g@.len() as int);
            assert(idx < g@.len());
        }
        if !g[idx] {
            if seen == k {
                proof {
                    lemma_index_cell_in_bounds(idx as int, w, h);
                }
                return Coords { x: idx % w, y: idx / w };
            }
            seen += 1;
        }
        idx += 1;
    }
}

} // verus!
