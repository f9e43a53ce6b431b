//! Core playfield operations shared by the Tetris variants: a grid is a
//! vector of rows, each row a vector of optional colour indices. A cell is
//! occupied exactly when its entry is `Some`. This module provides the
//! bounds/occupancy check for a candidate piece, writing a piece's cells
//! into the grid (locking), finding and clearing full rows, and rendering
//! the grid with the active piece overlaid.

use vstd::prelude::*;
use vstd::seq_lib::*;

verus! {

/// The mathematical value of a grid: a sequence of rows of cells.
pub open spec fn rows_view(g: Vec<Vec<Option<usize>>>) -> Seq<Seq<Option<usize>>> {
    Seq::new(g@.len(), |i: int| g@[i]@)
}

/// A row is full when every cell of it is occupied.
pub open spec fn row_full(row: Seq<Option<usize>>) -> bool {
    forall|j: int| 0 <= j < row.len() ==> row[j] is Some
}

/// A blank row of the given width.
pub open spec fn blank_row_s(w: int) -> Seq<Option<usize>> {
    Seq::new(w as nat, |j: int| None::<usize>)
}

/// `n` blank rows of the given width.
pub open spec fn blanks(n: int, w: int) -> Seq<Seq<Option<usize>>> {
    Seq::new(n as nat, |i: int| blank_row_s(w))
}

/// A coordinate list (column, row) as integer pairs.
pub open spec fn coor_model(coor: Seq<(i32, usize)>) -> Seq<(int, int)> {
    Seq::new(coor.len(), |k: int| (coor[k].0 as int, coor[k].1 as int))
}

/// The coordinate pair lies inside the grid.
pub open spec fn cell_in(g: Seq<Seq<Option<usize>>>, cell: (int, int)) -> bool {
    &&& 0 <= cell.1 < g.len()
    &&& 0 <= cell.0 < g[cell.1].len()
}

/// The coordinate pair lies inside the grid and on an unoccupied cell.
pub open spec fn cell_free(g: Seq<Seq<Option<usize>>>, cell: (int, int)) -> bool {
    &&& cell_in(g, cell)
    &&& g[cell.1][cell.0] is None
}

/// Every listed cell is inside the grid and unoccupied: the candidate fits.
pub open spec fn fits(g: Seq<Seq<Option<usize>>>, coor: Seq<(int, int)>) -> bool {
    forall|k: int| 0 <= k < coor.len() ==> cell_free(g, #[trigger] coor[k])
}

/// Every listed cell is inside the grid.
pub open spec fn cells_in(g: Seq<Seq<Option<usize>>>, coor: Seq<(int, int)>) -> bool {
    forall|k: int| 0 <= k < coor.len() ==> cell_in(g, #[trigger] coor[k])
}

/// The grid with one cell overwritten by the given colour.
pub open spec fn write_cell(
    g: Seq<Seq<Option<usize>>>,
    cell: (int, int),
    color: usize,
) -> Seq<Seq<Option<usize>>> {
    g.update(cell.1, g[cell.1].update(cell.0, Some(color)))
}

/// The grid with the first `n` listed cells overwritten, in order.
pub open spec fn write_prefix(
    g: Seq<Seq<Option<usize>>>,
    coor: Seq<(int, int)>,
    color: usize,
    n: int,
) -> Seq<Seq<Option<usize>>>
    decreases n,
{
    if n <= 0 {
        g
    } else {
        write_cell(write_prefix(g, coor, color, n - 1), coor[n - 1], color)
    }
}

/// The first position at or after `i` whose cell sits on row 0, or the
/// length of the list when there is none.
pub open spec fn first_blocked(coor: Seq<(int, int)>, i: int) -> int
    decreases coor.len() - i,
{
    if i < 0 || i >= coor.len() {
        coor.len() as int
    } else if coor[i].1 == 0 {
        i
    } else {
        first_blocked(coor, i + 1)
    }
}

/// How many of the first `n` rows are full.
pub open spec fn count_full(g: Seq<Seq<Option<usize>>>, n: int) -> int
    decreases n,
{
    if n <= 0 {
        0
    } else {
        count_full(g, n - 1) + (if row_full(g[n - 1]) {
            1int
        } else {
            0int
        })
    }
}

/// The indices of the full rows among the first `n`, in ascending order.
pub open spec fn full_lines(g: Seq<Seq<Option<usize>>>, n: int) -> Seq<int>
    decreases n,
{
    if n <= 0 {
        Seq::empty()
    } else {
        full_lines(g, n - 1) + (if row_full(g[n - 1]) {
            seq![n - 1]
        } else {
            Seq::empty()
        })
    }
}

/// The predicate a row must satisfy to survive a line clear.
pub open spec fn not_full(row: Seq<Option<usize>>) -> bool {
    !row_full(row)
}

/// The survival predicate as a single function value, so that every use
/// of `filter` below speaks of the same predicate.
pub open spec fn nf_pred() -> spec_fn(Seq<Option<usize>>) -> bool {
    |row: Seq<Option<usize>>| not_full(row)
}

/// The rows that survive a line clear, in their original order.
pub open spec fn surviving(g: Seq<Seq<Option<usize>>>) -> Seq<Seq<Option<usize>>> {
    g.filter(nf_pred())
}

/// A vector of `usize` indices read as a sequence of integers.
pub open spec fn idxs_view(v: Seq<usize>) -> Seq<int> {
    Seq::new(v.len(), |i: int| v[i] as int)
}

/// A freshly allocated blank row.
#[verifier::loop_isolation(false)]
pub fn blank_row(width: usize) -> (r: Vec<Option<usize>>)
    ensures
        r@ == blank_row_s(width as int),
{
    let mut r: Vec<Option<usize>> = Vec::new();
    for j in 0..width
        invariant
            r@.len() == j,
            forall|t: int| 0 <= t < j ==> r@[t] is None,
    {
        r.push(None);
    }
    assert(r@ =~= blank_row_s(width as int));
    r
}

/// A blank grid of the given dimensions.
#[verifier::loop_isolation(false)]
pub fn blank_grid(width: usize, height: usize) -> (g: Vec<Vec<Option<usize>>>)
    ensures
        rows_view(g) == blanks(height as int, width as int),
{
    let mut g: Vec<Vec<Option<usize>>> = Vec::new();
    for i in 0..height
        invariant
            g@.len() == i,
            forall|t: int| 0 <= t < i ==> #[trigger] g@[t]@ == blank_row_s(width as int),
    {
        g.push(blank_row(width));
    }
    assert(rows_view(g) =~= blanks(height as int, width as int));
    g
}

/// Whether every cell of the row is occupied.
#[verifier::loop_isolation(false)]
pub fn is_full_row(row: &Vec<Option<usize>>) -> (r: bool)
    ensures
        r <==> row_full(row@),
{
    for j in 0..row.len()
        invariant
            forall|t: int| 0 <= t < j ==> row@[t] is Some,
    {
        if row[j].is_none() {
            return false;
        }
    }
    true
}

/// Whether the candidate cells all lie inside the grid on unoccupied cells.
#[verifier::loop_isolation(false)]
pub fn check_cells(grid: &Vec<Vec<Option<usize>>>, coor: &[(i32, usize); 4]) -> (r: bool)
    ensures
        r <==> fits(rows_view(*grid), coor_model(coor@)),
{
    let ghost gv = rows_view(*grid);
    let ghost cm = coor_model(coor@);
    for k in 0..4usize
        invariant
            forall|m: int| 0 <= m < k ==> cell_free(gv, #[trigger] cm[m]),
    {
        let (x, y) = coor[k];
        if y >= grid.len() || x < 0 || x as usize >= grid[y].len() || grid[y][x as usize].is_some()
        {
            assert(!cell_free(gv, cm[k as int]));
            return false;
        }
        assert(cell_free(gv, cm[k as int]));
    }
    true
}

/// Write the piece's cells into the grid, stopping at the first cell that
/// sits on row 0; reports `false` exactly when such a cell exists (the
/// loss condition of locking a piece at the top of the field).
#[verifier::loop_isolation(false)]
pub fn lock_cells(
    grid: &mut Vec<Vec<Option<usize>>>,
    coor: &[(i32, usize); 4],
    color: usize,
) -> (ok: bool)
    requires
        cells_in(rows_view(*old(grid)), coor_model(coor@)),
    ensures
        ok <==> (forall|k: int| 0 <= k < 4 ==> (#[trigger] coor_model(coor@)[k]).1 != 0),
        rows_view(*final(grid)) == write_prefix(
            rows_view(*old(grid)),
            coor_model(coor@),
            color,
            first_blocked(coor_model(coor@), 0),
        ),
{
    let ghost g0 = rows_view(*old(grid));
    let ghost cm = coor_model(coor@);
    for k in 0..4usize
        invariant
            cells_in(g0, cm),
            rows_view(*grid) == write_prefix(g0, cm, color, k as int),
            forall|m: int| 0 <= m < k ==> (#[trigger] cm[m]).1 != 0,
    {
        let (x, y) = coor[k];
        if y == 0 {
            proof {
                assert(cm[k as int].1 == 0);
                lemma_first_blocked_at(cm, k as int);
            }
            return false;
        }
        let xu = x as usize;
        let ghost before = rows_view(*grid);
        proof {
            lemma_write_prefix_shape(g0, cm, color, k as int);
            assert(cell_in(g0, cm[k as int]));
            assert(grid@[y as int]@ == before[y as int]);
            assert(before[y as int].len() == g0[y as int].len());
        }
        grid[y][xu] = Some(color);
        assert(rows_view(*grid) =~~= write_cell(before, cm[k as int], color));
    }
    proof {
        lemma_first_blocked_at(cm, 4);
    }
    true
}

/// The indices of the full rows, in ascending order.
#[verifier::loop_isolation(false)]
pub fn find_full_lines(grid: &Vec<Vec<Option<usize>>>) -> (r: Vec<usize>)
    ensures
        idxs_view(r@) == full_lines(rows_view(*grid), rows_view(*grid).len() as int),
{
    let ghost gv = rows_view(*grid);
    let mut r: Vec<usize> = Vec::new();
    let n = grid.len();
    for line in 0..n
        invariant
            n == gv.len(),
            gv == rows_view(*grid),
            idxs_view(r@) == full_lines(gv, line as int),
    {
        let ghost before = r@;
        if is_full_row(&grid[line]) {
            r.push(line);
        }
        assert(idxs_view(r@) =~= full_lines(gv, line + 1));
    }
    r
}

/// Remove every full row and insert a matching number of blank rows at the
/// top; returns how many rows were cleared. The surviving rows keep their
/// order and each full row is removed exactly once.
#[verifier::loop_isolation(false)]
pub fn clear_lines(grid: &mut Vec<Vec<Option<usize>>>, width: usize) -> (n: usize)
    ensures
        n as int == count_full(rows_view(*old(grid)), rows_view(*old(grid)).len() as int),
        rows_view(*final(grid)) == blanks(n as int, width as int) + surviving(
            rows_view(*old(grid)),
        ),
        final(grid)@.len() == old(grid)@.len(),
{
    let ghost g0 = rows_view(*old(grid));
    let ghost nn = g0.len() as int;
    let ghost ls = full_lines(g0, nn);
    proof {
        lemma_full_lines_props(g0, nn);
    }
    let lines = find_full_lines(grid);
    let mut k: usize = 0;
    while k < lines.len()
        invariant
            idxs_view(lines@) == ls,
            k <= ls.len(),
            ls == full_lines(g0, nn),
            nn == g0.len(),
            rows_view(*grid) == stage(g0, ls, k as int, width as int),
            grid@.len() == nn,
        decreases lines.len() - k,
    {
        let line = lines[k];
        let ghost bound = stage_bound(ls, k as int);
        let ghost i = ls[k as int];
        proof {
            lemma_full_lines_props(g0, nn);
            lemma_stage_step_pre(g0, ls, k as int, width as int);
        }
        let ghost before = rows_view(*grid);
        grid.remove(line);
        assert(rows_view(*grid) =~= before.remove(i));
        let ghost removed = rows_view(*grid);
        grid.insert(0, blank_row(width));
        assert(rows_view(*grid) =~= seq![blank_row_s(width as int)] + removed);
        proof {
            lemma_stage_step(g0, ls, k as int, width as int);
        }
        k += 1;
    }
    proof {
        lemma_stage_end(g0, ls, width as int);
    }
    lines.len()
}

/// A copy of the grid with the piece's four cells overwritten by its
/// colour: the rendered playfield.
#[verifier::loop_isolation(false)]
pub fn draw_cells(grid: &Vec<Vec<Option<usize>>>, coor: &[(i32, usize); 4], color: usize) -> (r:
    Vec<Vec<Option<usize>>>)
    requires
        cells_in(rows_view(*grid), coor_model(coor@)),
    ensures
        rows_view(r) == write_prefix(rows_view(*grid), coor_model(coor@), color, 4),
{
    let ghost gv = rows_view(*grid);
    let ghost cm = coor_model(coor@);
    let mut r: Vec<Vec<Option<usize>>> = Vec::new();
    let n = grid.len();
    for i in 0..n
        invariant
            n == gv.len(),
            gv == rows_view(*grid),
            r@.len() == i,
            forall|t: int| 0 <= t < i ==> #[trigger] r@[t]@ == gv[t],
    {
        let row = &grid[i];
        let mut copy: Vec<Option<usize>> = Vec::new();
        let m = row.len();
        for j in 0..m
            invariant
                m == row@.len(),
                copy@.len() == j,
                forall|t: int| 0 <= t < j ==> copy@[t] == row@[t],
        {
            copy.push(row[j]);
        }
        assert(copy@ =~= gv[i as int]);
        r.push(copy);
    }
    assert(rows_view(r) =~= gv);
    for k in 0..4usize
        invariant
            cells_in(gv, cm),
            rows_view(r) == write_prefix(gv, cm, color, k as int),
    {
        let (x, y) = coor[k];
        let xu = x as usize;
        let ghost before = rows_view(r);
        proof {
            lemma_write_prefix_shape(gv, cm, color, k as int);
            assert(cell_in(gv, cm[k as int]));
            assert(r@[y as int]@ == before[y as int]);
            assert(before[y as int].len() == gv[y as int].len());
        }
        r[y][xu] = Some(color);
        assert(rows_view(r) =~~= write_cell(before, cm[k as int], color));
    }
    r
}

/// Writing a prefix of cells never changes the grid's dimensions, and a
/// cell outside the prefix keeps its value.
pub proof fn lemma_write_prefix_shape(
    g: Seq<Seq<Option<usize>>>,
    coor: Seq<(int, int)>,
    color: usize,
    n: int,
)
    requires
        cells_in(g, coor),
        n <= coor.len(),
    ensures
        write_prefix(g, coor, color, n).len() == g.len(),
        forall|y: int|
            0 <= y < g.len() ==> #[trigger] write_prefix(g, coor, color, n)[y].len()
                == g[y].len(),
        forall|y: int, x: int|
            0 <= y < g.len() && 0 <= x < g[y].len() && (forall|k: int|
                0 <= k < n ==> !(coor[k].0 == x && coor[k].1 == y)) ==> write_prefix(
                g,
                coor,
                color,
                n,
            )[y][x] == g[y][x],
        forall|y: int, x: int, k: int|
            0 <= y < g.len() && 0 <= x < g[y].len() && 0 <= k < n && coor[k].0 == x && coor[k].1
                == y && (forall|k2: int|
                k < k2 < n ==> !(coor[k2].0 == x && coor[k2].1 == y)) ==> write_prefix(
                g,
                coor,
                color,
                n,
            )[y][x] == Some(color),
    decreases n,
{
    if n > 0 {
        lemma_write_prefix_shape(g, coor, color, n - 1);
    }
}

/// When the first `k` cells avoid row 0, the first blocked position is the
/// first blocked position at or after `k`.
proof fn lemma_first_blocked_at(coor: Seq<(int, int)>, k: int)
    requires
        0 <= k <= coor.len(),
        forall|m: int| 0 <= m < k ==> (#[trigger] coor[m]).1 != 0,
    ensures
        first_blocked(coor, 0) == first_blocked(coor, k),
    decreases k,
{
    if k > 0 {
        lemma_first_blocked_shift(coor, 0, k);
    }
}

proof fn lemma_first_blocked_shift(coor: Seq<(int, int)>, i: int, k: int)
    requires
        0 <= i <= k <= coor.len(),
        forall|m: int| 0 <= m < k ==> (#[trigger] coor[m]).1 != 0,
    ensures
        first_blocked(coor, i) == first_blocked(coor, k),
    decreases k - i,
{
    if i < k {
        lemma_first_blocked_shift(coor, i + 1, k);
    }
}

/// At most `n` of the first `n` rows are full.
pub proof fn lemma_count_full_bound(g: Seq<Seq<Option<usize>>>, n: int)
    requires
        0 <= n,
    ensures
        0 <= count_full(g, n) <= n,
    decreases n,
{
    if n > 0 {
        lemma_count_full_bound(g, n - 1);
    }
}

/// The first blocked position lies between `i` and the end of the list.
pub proof fn lemma_first_blocked_range(coor: Seq<(int, int)>, i: int)
    requires
        0 <= i <= coor.len(),
    ensures
        i <= first_blocked(coor, i) <= coor.len(),
    decreases coor.len() - i,
{
    if i < coor.len() && coor[i].1 != 0 {
        lemma_first_blocked_range(coor, i + 1);
    }
}

/// Surviving rows are rows of the original grid: they keep its width.
pub proof fn lemma_surviving_widths(g: Seq<Seq<Option<usize>>>, w: int)
    requires
        forall|i: int| 0 <= i < g.len() ==> (#[trigger] g[i]).len() == w,
    ensures
        surviving(g).len() <= g.len(),
        forall|i: int| 0 <= i < surviving(g).len() ==> (#[trigger] surviving(g)[i]).len() == w,
{
    g.lemma_filter_len(nf_pred());
    assert forall|i: int| 0 <= i < surviving(g).len() implies (#[trigger] surviving(g)[i]).len()
        == w by {
        let e = surviving(g)[i];
        assert(surviving(g).contains(e));
        g.lemma_filter_contains_rev(nf_pred(), e);
        let j = choose|j: int| 0 <= j < g.len() && g[j] == e;
    }
}

/// The position of the bound after `k` cleared lines: everything before it
/// has been filtered, everything at or after it is still the original.
pub open spec fn stage_bound(ls: Seq<int>, k: int) -> int {
    if k <= 0 {
        0
    } else {
        ls[k - 1] + 1
    }
}

/// The grid after `k` of the full lines have been cleared.
pub open spec fn stage(g0: Seq<Seq<Option<usize>>>, ls: Seq<int>, k: int, w: int) -> Seq<
    Seq<Option<usize>>,
> {
    blanks(k, w) + surviving(g0.take(stage_bound(ls, k))) + g0.skip(stage_bound(ls, k))
}

/// The combined properties of `full_lines`: its entries are exactly the
/// indices of the full rows, ascending, and counting matches `count_full`.
pub proof fn lemma_full_lines_props(g: Seq<Seq<Option<usize>>>, n: int)
    requires
        n <= g.len(),
    ensures
        full_lines(g, n).len() == count_full(g, n),
        forall|k: int|
            0 <= k < full_lines(g, n).len() ==> 0 <= #[trigger] full_lines(g, n)[k] < n,
        forall|k: int|
            0 <= k < full_lines(g, n).len() ==> row_full(g[#[trigger] full_lines(g, n)[k]]),
        forall|k1: int, k2: int|
            0 <= k1 < k2 < full_lines(g, n).len() ==> #[trigger] full_lines(g, n)[k1]
                < #[trigger] full_lines(g, n)[k2],
        forall|t: int| 0 <= t < n && row_full(g[t]) ==> full_lines(g, n).contains(t),
        forall|k: int|
            0 <= k < full_lines(g, n).len() ==> count_full(g, #[trigger] full_lines(g, n)[k] + 1)
                == k + 1,
    decreases n,
{
    if n > 0 {
        lemma_full_lines_props(g, n - 1);
        let prev = full_lines(g, n - 1);
        let cur = full_lines(g, n);
        if row_full(g[n - 1]) {
            assert forall|t: int| 0 <= t < n && row_full(g[t]) implies cur.contains(t) by {
                if t < n - 1 {
                    assert(prev.contains(t));
                    let j = choose|j: int| 0 <= j < prev.len() && prev[j] == t;
                    assert(cur[j] == t);
                } else {
                    assert(cur[cur.len() - 1] == t);
                }
            }
        } else {
            assert(cur =~= prev);
            assert forall|t: int| 0 <= t < n && row_full(g[t]) implies cur.contains(t) by {
                assert(t != n - 1);
                assert(prev.contains(t));
                let j = choose|j: int| 0 <= j < prev.len() && prev[j] == t;
                assert(cur[j] == t);
            }
        }
    }
}

/// Filtering keeps a sequence with no full row unchanged.
proof fn lemma_surviving_all(s: Seq<Seq<Option<usize>>>)
    requires
        forall|t: int| 0 <= t < s.len() ==> !row_full(#[trigger] s[t]),
    ensures
        surviving(s) == s,
    decreases s.len(),
{
    reveal(Seq::filter);
    if s.len() > 0 {
        lemma_surviving_all(s.drop_last());
        assert(surviving(s) =~= s);
    }
}

/// The number of surviving rows among the first `m` is `m` minus the full
/// ones.
proof fn lemma_surviving_len(g: Seq<Seq<Option<usize>>>, m: int)
    requires
        0 <= m <= g.len(),
    ensures
        surviving(g.take(m)).len() == m - count_full(g, m),
    decreases m,
{
    if m == 0 {
        reveal(Seq::filter);
        assert(g.take(0) =~= Seq::<Seq<Option<usize>>>::empty());
    } else {
        lemma_surviving_len(g, m - 1);
        assert(g.take(m) =~= g.take(m - 1).push(g[m - 1]));
        Seq::lemma_filter_len_push(g.take(m - 1), nf_pred(), g[m - 1]);
    }
}

/// Before clearing the `k`-th full line: the grid still holds the original
/// row at that index, and the index is in range.
proof fn lemma_stage_step_pre(g0: Seq<Seq<Option<usize>>>, ls: Seq<int>, k: int, w: int)
    requires
        ls == full_lines(g0, g0.len() as int),
        0 <= k < ls.len(),
    ensures
        stage_bound(ls, k) <= ls[k] < g0.len(),
        count_full(g0, stage_bound(ls, k)) == k,
        stage(g0, ls, k, w).len() == g0.len(),
        stage(g0, ls, k, w)[ls[k]] == g0[ls[k]],
{
    let nn = g0.len() as int;
    lemma_full_lines_props(g0, nn);
    let bound = stage_bound(ls, k);
    if k == 0 {
        assert(count_full(g0, 0) == 0);
    } else {
        assert(count_full(g0, ls[k - 1] + 1) == k);
    }
    lemma_surviving_len(g0, bound);
    let st = stage(g0, ls, k, w);
    let i = ls[k];
    assert(st.len() == k + (bound - count_full(g0, bound)) + (nn - bound));
    assert(st[i] == g0.skip(bound)[i - bound]);
}

/// Clearing the `k`-th full line advances the staged decomposition by one.
#[verifier::rlimit(60)]
proof fn lemma_stage_step(g0: Seq<Seq<Option<usize>>>, ls: Seq<int>, k: int, w: int)
    requires
        ls == full_lines(g0, g0.len() as int),
        0 <= k < ls.len(),
    ensures
        seq![blank_row_s(w)] + stage(g0, ls, k, w).remove(ls[k]) == stage(g0, ls, k + 1, w),
{
    let nn = g0.len() as int;
    lemma_full_lines_props(g0, nn);
    lemma_stage_step_pre(g0, ls, k, w);
    let bound = stage_bound(ls, k);
    let i = ls[k];
    lemma_surviving_len(g0, bound);
    let st = stage(g0, ls, k, w);
    let prefix = blanks(k, w) + surviving(g0.take(bound));
    assert(prefix.len() == bound);
    // removing at position i removes the element at offset i - bound of the
    // untouched tail
    assert(st.remove(i) =~= prefix + g0.skip(bound).remove(i - bound));
    assert(g0.skip(bound).remove(i - bound) =~= g0.subrange(bound, i) + g0.skip(i + 1));
    // rows strictly between two consecutive full lines are not full
    assert forall|t: int| 0 <= t < g0.subrange(bound, i).len() implies !row_full(
        #[trigger] g0.subrange(bound, i)[t],
    ) by {
        let u = bound + t;
        if row_full(g0[u]) {
            assert(ls.contains(u));
            let j = choose|j: int| 0 <= j < ls.len() && ls[j] == u;
            if j < k {
                assert(ls[j] < ls[k]);
                if k > 0 && j < k - 1 {
                    assert(ls[j] < ls[k - 1]);
                }
            } else {
                assert(ls[k] <= ls[j]);
            }
        }
    }
    lemma_surviving_all(g0.subrange(bound, i));
    assert(g0.take(i + 1) =~= g0.take(bound) + g0.subrange(bound, i) + seq![g0[i]]);
    Seq::filter_distributes_over_add(g0.take(bound) + g0.subrange(bound, i), seq![g0[i]], nf_pred());
    Seq::filter_distributes_over_add(g0.take(bound), g0.subrange(bound, i), nf_pred());
    assert(row_full(g0[i]));
    assert(seq![g0[i]].filter(nf_pred()) =~= Seq::<Seq<Option<usize>>>::empty()) by {
        seq![g0[i]].lemma_all_neg_filter_empty(nf_pred());
    }
    assert(surviving(g0.take(i + 1)) =~= surviving(g0.take(bound)) + g0.subrange(bound, i));
    assert(stage_bound(ls, k + 1) == i + 1);
    assert(seq![blank_row_s(w)] + blanks(k, w) =~= blanks(k + 1, w));
    assert(seq![blank_row_s(w)] + st.remove(i) =~= stage(g0, ls, k + 1, w));
}

/// After the last full line is cleared the staged decomposition is exactly
/// the blank rows followed by the surviving rows.
proof fn lemma_stage_end(g0: Seq<Seq<Option<usize>>>, ls: Seq<int>, w: int)
    requires
        ls == full_lines(g0, g0.len() as int),
    ensures
        stage(g0, ls, ls.len() as int, w) == blanks(ls.len() as int, w) + surviving(g0),
{
    let nn = g0.len() as int;
    lemma_full_lines_props(g0, nn);
    let k = ls.len() as int;
    let bound = stage_bound(ls, k);
    assert(0 <= bound <= nn) by {
        if k > 0 {
            assert(0 <= ls[k - 1] < nn);
        }
    }
    assert forall|t: int| 0 <= t < g0.skip(bound).len() implies !row_full(
        #[trigger] g0.skip(bound)[t],
    ) by {
        let u = bound + t;
        if row_full(g0[u]) {
            assert(ls.contains(u));
            let j = choose|j: int| 0 <= j < ls.len() && ls[j] == u;
            if k > 0 && j < k - 1 {
                assert(ls[j] < ls[k - 1]);
            }
        }
    }
    lemma_surviving_all(g0.skip(bound));
    assert(g0 =~= g0.take(bound) + g0.skip(bound));
    Seq::filter_distributes_over_add(g0.take(bound), g0.skip(bound), nf_pred());
    assert(stage(g0, ls, k, w) =~= blanks(k, w) + surviving(g0));
}

} // verus!
