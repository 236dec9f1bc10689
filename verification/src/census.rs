//! Counts the modules of a symbol that are free for data: as many as the bit
//! stream of the symbol has bits.
use crate::frame::{
    covered, kept, lemma_paint_rect, lemma_place_frame, lemma_walk_wf, outside, painted,
};
use crate::ec::protected_len;
use crate::ec_level::ECLevel;
use crate::table_laws::lemma_stream_len;
use crate::frame::{finder_module, lemma_finders_at};
use crate::layout::{
    placed, timing, walk_bound, with_alignment, with_alignments, with_alignments_upto,
    with_dark_module, with_finder, with_finders, with_fun_patterns, with_reserved,
    with_separator, with_timing, with_timing_upto,
};
use crate::tables::{block_field, remainder_bits};
use crate::tables::{
    alignment_center, alignment_count, lemma_alignment_centers, lemma_alignment_none,
    lemma_alignment_spacing,
};
use crate::layout::{next_bit, place_upto};
use crate::matrix::{
    lemma_index_bound, lemma_set_at, lemma_set_col_at, lemma_set_col_wf, lemma_set_rect_at,
    lemma_set_rect_wf, Grid, Module,
};
use crate::zigzag::ZigZagIt;
use vstd::prelude::*;

verus! {

/// 1 for an unknown module, 0 for another.
pub open spec fn unknown_one(m: Module) -> int {
    if m == Module::Unknown {
        1
    } else {
        0
    }
}

/// How many of the first `upto` modules are unknown.
pub open spec fn unknown_cells(cells: Seq<Module>, upto: int) -> int
    decreases upto,
{
    if upto <= 0 {
        0
    } else {
        unknown_cells(cells, upto - 1) + unknown_one(cells[upto - 1])
    }
}

/// How many modules of a grid are unknown.
pub open spec fn unknowns(g: Grid) -> int {
    unknown_cells(g.cells, g.cells.len() as int)
}

/// How many modules of column `x` from row `y0` to row `y1` are unknown.
pub open spec fn unknown_in_col(g: Grid, x: int, y0: int, y1: int) -> int
    decreases y1 - y0 + 1,
{
    if y1 < y0 {
        0
    } else {
        unknown_in_col(g, x, y0, y1 - 1) + unknown_one(g.at(x, y1))
    }
}

/// How many modules of a rectangle are unknown.
pub open spec fn unknown_in_rect(g: Grid, x0: int, y0: int, x1: int, y1: int) -> int
    decreases x1 - x0 + 1,
{
    if x1 < x0 {
        0
    } else {
        unknown_in_rect(g, x0, y0, x1 - 1, y1) + unknown_in_col(g, x1, y0, y1)
    }
}

/// Replacing one of the counted modules changes the count by what the module
/// was and what it becomes.
pub proof fn lemma_count_update(cells: Seq<Module>, k: int, v: Module, upto: int)
    requires
        0 <= k < cells.len(),
        0 <= upto <= cells.len(),
    ensures
        unknown_cells(cells.update(k, v), upto) == unknown_cells(cells, upto) + if k < upto {
            unknown_one(v) - unknown_one(cells[k])
        } else {
            0
        },
    decreases upto,
{
    if upto > 0 {
        lemma_count_update(cells, k, v, upto - 1);
    }
}

/// A module that is set is one unknown module less, where it was unknown.
pub proof fn lemma_unknowns_set(g: Grid, x: int, y: int, v: Module)
    requires
        g.wf(),
        g.on(x, y),
        v != Module::Unknown,
    ensures
        unknowns(g.set(x, y, v)) == unknowns(g) - unknown_one(g.at(x, y)),
{
    lemma_index_bound(g.size, x, y);
    lemma_count_update(g.cells, y * g.size + x, v, g.cells.len() as int);
}

/// The count of unknown modules of a part of a column depends on those
/// modules only.
pub proof fn lemma_unknown_in_col_same(g: Grid, h: Grid, x: int, y0: int, y1: int)
    requires
        forall|b: int| y0 <= b <= y1 ==> #[trigger] h.at(x, b) == g.at(x, b),
    ensures
        unknown_in_col(h, x, y0, y1) == unknown_in_col(g, x, y0, y1),
    decreases y1 - y0 + 1,
{
    if y1 >= y0 {
        lemma_unknown_in_col_same(g, h, x, y0, y1 - 1);
    }
}

/// A part of a column that is set is as many unknown modules less as it
/// held.
pub proof fn lemma_unknowns_set_col(g: Grid, x: int, y0: int, y1: int, v: Module)
    requires
        g.wf(),
        0 <= x < g.size,
        0 <= y0,
        y1 < g.size,
        v != Module::Unknown,
    ensures
        unknowns(g.set_col(x, y0, y1, v)) == unknowns(g) - unknown_in_col(g, x, y0, y1),
    decreases y1 - y0 + 1,
{
    if y1 >= y0 {
        lemma_unknowns_set_col(g, x, y0, y1 - 1, v);
        let h = g.set_col(x, y0, y1 - 1, v);
        lemma_set_col_wf(g, x, y0, y1 - 1, v);
        lemma_set_col_at(g, x, y0, y1 - 1, v, x, y1);
        lemma_unknowns_set(h, x, y1, v);
    }
}

/// A rectangle that is set is as many unknown modules less as it held.
pub proof fn lemma_unknowns_set_rect(g: Grid, x0: int, y0: int, x1: int, y1: int, v: Module)
    requires
        g.wf(),
        0 <= x0,
        0 <= y0,
        x1 < g.size,
        y1 < g.size,
        v != Module::Unknown,
    ensures
        unknowns(g.set_rect(x0, y0, x1, y1, v)) == unknowns(g) - unknown_in_rect(
            g,
            x0,
            y0,
            x1,
            y1,
        ),
    decreases x1 - x0 + 1,
{
    if x1 >= x0 {
        lemma_unknowns_set_rect(g, x0, y0, x1 - 1, y1, v);
        let h = g.set_rect(x0, y0, x1 - 1, y1, v);
        lemma_set_rect_wf(g, x0, y0, x1 - 1, y1, v);
        lemma_unknowns_set_col(h, x1, y0, y1, v);
        assert forall|b: int| y0 <= b <= y1 implies #[trigger] h.at(x1, b) == g.at(x1, b) by {
            lemma_set_rect_at(g, x0, y0, x1 - 1, y1, v, x1, b);
        }
        lemma_unknown_in_col_same(g, h, x1, y0, y1);
    }
}

/// A part of a column of unknown modules holds as many unknown modules as it
/// is long.
pub proof fn lemma_col_fresh(g: Grid, x: int, y0: int, y1: int)
    requires
        y0 <= y1 + 1,
        forall|b: int| y0 <= b <= y1 ==> #[trigger] g.at(x, b) == Module::Unknown,
    ensures
        unknown_in_col(g, x, y0, y1) == y1 - y0 + 1,
    decreases y1 - y0 + 1,
{
    if y1 >= y0 {
        lemma_col_fresh(g, x, y0, y1 - 1);
    }
}

/// A part of a column without unknown modules holds none.
pub proof fn lemma_col_stale(g: Grid, x: int, y0: int, y1: int)
    requires
        forall|b: int| y0 <= b <= y1 ==> #[trigger] g.at(x, b) != Module::Unknown,
    ensures
        unknown_in_col(g, x, y0, y1) == 0,
    decreases y1 - y0 + 1,
{
    if y1 >= y0 {
        lemma_col_stale(g, x, y0, y1 - 1);
    }
}

/// The unknown modules of a part of a column are those of its two halves.
pub proof fn lemma_col_split(g: Grid, x: int, y0: int, m: int, y1: int)
    requires
        y0 - 1 <= m <= y1,
    ensures
        unknown_in_col(g, x, y0, y1) == unknown_in_col(g, x, y0, m) + unknown_in_col(
            g,
            x,
            m + 1,
            y1,
        ),
    decreases y1 - m,
{
    if m < y1 {
        lemma_col_split(g, x, y0, m, y1 - 1);
    }
}

/// A rectangle of unknown modules holds as many unknown modules as it has
/// modules.
pub proof fn lemma_rect_fresh(g: Grid, x0: int, y0: int, x1: int, y1: int)
    requires
        x0 <= x1 + 1,
        y0 <= y1 + 1,
        forall|a: int, b: int|
            x0 <= a <= x1 && y0 <= b <= y1 ==> #[trigger] g.at(a, b) == Module::Unknown,
    ensures
        unknown_in_rect(g, x0, y0, x1, y1) == (x1 - x0 + 1) * (y1 - y0 + 1),
    decreases x1 - x0 + 1,
{
    if x1 >= x0 {
        lemma_rect_fresh(g, x0, y0, x1 - 1, y1);
        lemma_col_fresh(g, x1, y0, y1);
        assert((x1 - x0 + 1) * (y1 - y0 + 1) == (x1 - 1 - x0 + 1) * (y1 - y0 + 1) + (y1 - y0 + 1))
            by (nonlinear_arith);
    } else {
        assert((x1 - x0 + 1) * (y1 - y0 + 1) == 0) by (nonlinear_arith)
            requires
                x1 - x0 + 1 == 0,
        ;
    }
}

/// A rectangle without unknown modules holds none.
pub proof fn lemma_rect_stale(g: Grid, x0: int, y0: int, x1: int, y1: int)
    requires
        forall|a: int, b: int|
            x0 <= a <= x1 && y0 <= b <= y1 ==> #[trigger] g.at(a, b) != Module::Unknown,
    ensures
        unknown_in_rect(g, x0, y0, x1, y1) == 0,
    decreases x1 - x0 + 1,
{
    if x1 >= x0 {
        lemma_rect_stale(g, x0, y0, x1 - 1, y1);
        lemma_col_stale(g, x1, y0, y1);
    }
}

/// A grid of unknown modules holds as many unknown modules as it has
/// modules.
pub proof fn lemma_unknowns_blank(n: int)
    requires
        0 <= n,
    ensures
        unknowns(Grid::blank(n)) == n * n,
        Grid::blank(n).wf(),
{
    assert(n * n >= 0) by (nonlinear_arith)
        requires
            n >= 0,
    ;
    lemma_all_unknown(Grid::blank(n).cells, n * n);
}

/// Of modules that are all unknown, as many are unknown as there are.
pub proof fn lemma_all_unknown(cells: Seq<Module>, upto: int)
    requires
        0 <= upto <= cells.len(),
        forall|k: int| 0 <= k < upto ==> cells[k] == Module::Unknown,
    ensures
        unknown_cells(cells, upto) == upto,
    decreases upto,
{
    if upto > 0 {
        lemma_all_unknown(cells, upto - 1);
    }
}

/// Of modules that are all set, none is unknown.
pub proof fn lemma_none_unknown(cells: Seq<Module>, upto: int)
    requires
        0 <= upto <= cells.len(),
        forall|k: int| 0 <= k < upto ==> cells[k] != Module::Unknown,
    ensures
        unknown_cells(cells, upto) == 0,
    decreases upto,
{
    if upto > 0 {
        lemma_none_unknown(cells, upto - 1);
    }
}

/// Placing data writes one module for each unknown module that it does away
/// with.
pub proof fn lemma_place_count(g: Grid, bits: Seq<bool>, k: int)
    requires
        g.wf(),
        1 <= g.size <= 177,
    ensures
        unknowns(place_upto(g, bits, k).grid) == unknowns(g) - place_upto(g, bits, k).used,
        0 <= place_upto(g, bits, k).used,
    decreases k,
{
    if k > 0 {
        lemma_place_count(g, bits, k - 1);
        lemma_place_frame(g, bits, k - 1);
        lemma_walk_wf(g.size as usize, k - 1);
        let p = place_upto(g, bits, k - 1);
        let at = ZigZagIt::walk(g.size as usize, k - 1);
        if at.valid && p.grid.at(at.x as int, at.y as int) == Module::Unknown {
            lemma_unknowns_set(
                p.grid,
                at.x as int,
                at.y as int,
                Module::Data(next_bit(bits, p.used)),
            );
        }
    }
}

/// A rectangle of function modules on unknown modules takes as many
/// modules as it has.
pub proof fn lemma_fresh_paint(g: Grid, x0: int, y0: int, x1: int, y1: int, c: bool)
    requires
        g.wf(),
        0 <= x0 <= x1 < g.size,
        0 <= y0 <= y1 < g.size,
        forall|a: int, b: int|
            x0 <= a <= x1 && y0 <= b <= y1 ==> #[trigger] g.at(a, b) == Module::Unknown,
    ensures
        unknowns(g.set_rect(x0, y0, x1, y1, Module::Function(c))) == unknowns(g) - (x1 - x0 + 1)
            * (y1 - y0 + 1),
        painted(g, g.set_rect(x0, y0, x1, y1, Module::Function(c))),
        outside(g, g.set_rect(x0, y0, x1, y1, Module::Function(c)), x0, y0, x1, y1),
        covered(g.set_rect(x0, y0, x1, y1, Module::Function(c)), x0, y0, x1, y1),
{
    lemma_paint_rect(g, x0, y0, x1, y1, c);
    lemma_unknowns_set_rect(g, x0, y0, x1, y1, Module::Function(c));
    lemma_rect_fresh(g, x0, y0, x1, y1);
}

/// A rectangle of function modules on function modules takes no module.
pub proof fn lemma_stale_paint(g: Grid, x0: int, y0: int, x1: int, y1: int, c: bool)
    requires
        g.wf(),
        0 <= x0,
        0 <= y0,
        x1 < g.size,
        y1 < g.size,
        covered(g, x0, y0, x1, y1),
    ensures
        unknowns(g.set_rect(x0, y0, x1, y1, Module::Function(c))) == unknowns(g),
        painted(g, g.set_rect(x0, y0, x1, y1, Module::Function(c))),
        outside(g, g.set_rect(x0, y0, x1, y1, Module::Function(c)), x0, y0, x1, y1),
        covered(g.set_rect(x0, y0, x1, y1, Module::Function(c)), x0, y0, x1, y1),
{
    lemma_paint_rect(g, x0, y0, x1, y1, c);
    lemma_unknowns_set_rect(g, x0, y0, x1, y1, Module::Function(c));
    assert forall|a: int, b: int| x0 <= a <= x1 && y0 <= b <= y1 implies #[trigger] g.at(a, b)
        != Module::Unknown by {
        assert(g.at(a, b) is Function);
    }
    lemma_rect_stale(g, x0, y0, x1, y1);
}

/// A column of function modules of which one end is a function module
/// already and the rest is unknown takes one module less than it has.
pub proof fn lemma_column_paint(g: Grid, x: int, y0: int, y1: int, c: bool, top: bool)
    requires
        g.wf(),
        0 <= x < g.size,
        0 <= y0 < y1 < g.size,
        forall|b: int|
            y0 <= b <= y1 ==> #[trigger] g.at(x, b) == if (top && b == y1) || (!top && b == y0) {
                g.at(x, b)
            } else {
                Module::Unknown
            },
        g.at(x, if top {
            y1
        } else {
            y0
        }) is Function,
    ensures
        unknowns(g.set_rect(x, y0, x, y1, Module::Function(c))) == unknowns(g) - (y1 - y0),
        painted(g, g.set_rect(x, y0, x, y1, Module::Function(c))),
        outside(g, g.set_rect(x, y0, x, y1, Module::Function(c)), x, y0, x, y1),
        covered(g.set_rect(x, y0, x, y1, Module::Function(c)), x, y0, x, y1),
{
    lemma_paint_rect(g, x, y0, x, y1, c);
    lemma_unknowns_set_rect(g, x, y0, x, y1, Module::Function(c));
    assert(unknown_in_rect(g, x, y0, x, y1) == unknown_in_col(g, x, y0, y1)) by {
        assert(unknown_in_rect(g, x, y0, x - 1, y1) == 0);
    }
    if top {
        assert forall|b: int| y0 <= b <= y1 - 1 implies #[trigger] g.at(x, b)
            == Module::Unknown by {}
        lemma_col_fresh(g, x, y0, y1 - 1);
    } else {
        lemma_col_split(g, x, y0, y0, y1);
        assert(unknown_in_col(g, x, y0, y0) == 0) by {
            assert(unknown_in_col(g, x, y0, y0 - 1) == 0);
        }
        assert forall|b: int| y0 + 1 <= b <= y1 implies #[trigger] g.at(x, b)
            == Module::Unknown by {}
        lemma_col_fresh(g, x, y0 + 1, y1);
    }
}

/// A finder pattern on unknown modules takes 49 modules.
pub proof fn lemma_finder_count(g: Grid, x: int, y: int)
    requires
        g.wf(),
        0 <= x,
        0 <= y,
        x + 7 <= g.size,
        y + 7 <= g.size,
        forall|a: int, b: int|
            x <= a <= x + 6 && y <= b <= y + 6 ==> #[trigger] g.at(a, b) == Module::Unknown,
    ensures
        unknowns(with_finder(g, x, y)) == unknowns(g) - 49,
        painted(g, with_finder(g, x, y)),
        outside(g, with_finder(g, x, y), x, y, x + 6, y + 6),
        covered(with_finder(g, x, y), x, y, x + 6, y + 6),
{
    let g1 = g.set_rect(x, y, x + 6, y + 6, Module::Function(true));
    lemma_fresh_paint(g, x, y, x + 6, y + 6, true);
    assert((x + 6 - x + 1) * (y + 6 - y + 1) == 49) by (nonlinear_arith);
    assert(g1 == g.set_square(x, y, 7, Module::Function(true)));
    let g2 = g1.set_rect(x + 1, y + 1, x + 5, y + 1, Module::Function(false));
    lemma_stale_paint(g1, x + 1, y + 1, x + 5, y + 1, false);
    let g3 = g2.set_rect(x + 1, y + 5, x + 5, y + 5, Module::Function(false));
    assert(covered(g2, x, y, x + 6, y + 6));
    lemma_stale_paint(g2, x + 1, y + 5, x + 5, y + 5, false);
    let g4 = g3.set_rect(x + 1, y + 2, x + 1, y + 4, Module::Function(false));
    assert(covered(g3, x, y, x + 6, y + 6));
    lemma_stale_paint(g3, x + 1, y + 2, x + 1, y + 4, false);
    let g5 = g4.set_rect(x + 5, y + 2, x + 5, y + 4, Module::Function(false));
    assert(covered(g4, x, y, x + 6, y + 6));
    lemma_stale_paint(g4, x + 5, y + 2, x + 5, y + 4, false);
    assert(g5 == with_finder(g, x, y));
    assert(covered(g5, x, y, x + 6, y + 6));
}

/// The finder patterns and their separators take 192 modules of an empty
/// grid.
pub proof fn lemma_finders_count(g: Grid)
    requires
        g.wf(),
        21 <= g.size,
        forall|a: int, b: int| g.on(a, b) ==> #[trigger] g.at(a, b) == Module::Unknown,
    ensures
        unknowns(with_finders(g)) == unknowns(g) - 192,
{
    let n = g.size;
    let a1 = with_finder(g, 0, 0);
    lemma_finder_count(g, 0, 0);
    let a2 = with_separator(a1, 0, 7, 7, 7);
    assert forall|a: int, b: int| 0 <= a <= 7 && 7 <= b <= 7 implies #[trigger] a1.at(a, b)
        == Module::Unknown by {
        assert(g.at(a, b) == Module::Unknown);
    }
    lemma_fresh_paint(a1, 0, 7, 7, 7, false);
    let a3 = with_separator(a2, 7, 0, 7, 7);
    assert forall|b: int| 0 <= b <= 7 implies #[trigger] a2.at(7, b) == if b == 7 {
        a2.at(7, b)
    } else {
        Module::Unknown
    } by {
        assert(g.at(7, b) == Module::Unknown);
    }
    lemma_column_paint(a2, 7, 0, 7, false, true);
    assert(unknowns(a3) == unknowns(g) - 64);

    let b1 = with_finder(a3, n - 7, 0);
    assert forall|a: int, b: int| n - 7 <= a <= n - 1 && 0 <= b <= 6 implies #[trigger] a3.at(
        a,
        b,
    ) == Module::Unknown by {
        assert(g.at(a, b) == Module::Unknown);
    }
    lemma_finder_count(a3, n - 7, 0);
    let b2 = with_separator(b1, n - 8, 7, n - 1, 7);
    assert forall|a: int, b: int| n - 8 <= a <= n - 1 && 7 <= b <= 7 implies #[trigger] b1.at(
        a,
        b,
    ) == Module::Unknown by {
        assert(g.at(a, b) == Module::Unknown);
    }
    lemma_fresh_paint(b1, n - 8, 7, n - 1, 7, false);
    let b3 = with_separator(b2, n - 8, 0, n - 8, 7);
    assert forall|b: int| 0 <= b <= 7 implies #[trigger] b2.at(n - 8, b) == if b == 7 {
        b2.at(n - 8, b)
    } else {
        Module::Unknown
    } by {
        assert(g.at(n - 8, b) == Module::Unknown);
    }
    lemma_column_paint(b2, n - 8, 0, 7, false, true);
    assert(unknowns(b3) == unknowns(g) - 128);

    let c1 = with_finder(b3, 0, n - 7);
    assert forall|a: int, b: int| 0 <= a <= 6 && n - 7 <= b <= n - 1 implies #[trigger] b3.at(
        a,
        b,
    ) == Module::Unknown by {
        assert(g.at(a, b) == Module::Unknown);
    }
    lemma_finder_count(b3, 0, n - 7);
    let c2 = with_separator(c1, 0, n - 8, 7, n - 8);
    assert forall|a: int, b: int| 0 <= a <= 7 && n - 8 <= b <= n - 8 implies #[trigger] c1.at(
        a,
        b,
    ) == Module::Unknown by {
        assert(g.at(a, b) == Module::Unknown);
    }
    lemma_fresh_paint(c1, 0, n - 8, 7, n - 8, false);
    let c3 = with_separator(c2, 7, n - 8, 7, n - 1);
    assert forall|b: int| n - 8 <= b <= n - 1 implies #[trigger] c2.at(7, b) == if b == n - 8 {
        c2.at(7, b)
    } else {
        Module::Unknown
    } by {
        assert(g.at(7, b) == Module::Unknown);
    }
    lemma_column_paint(c2, 7, n - 8, n - 1, false, false);
    assert(c3 == with_finders(g));
}

/// Whether a module lies in one of the three corners of eight by eight
/// modules that the finder patterns and their separators take.
pub open spec fn in_corner(n: int, a: int, b: int) -> bool {
    (a <= 7 && b <= 7) || (a >= n - 8 && b <= 7) || (a <= 7 && b >= n - 8)
}

/// Whether the alignment pattern of the pair `(i, j)` of centre coordinates
/// is left out because it would cover a finder pattern.
pub open spec fn blocked(c: int, i: int, j: int) -> bool {
    (i == 0 && j == 0) || (i == 0 && j == c - 1) || (i == c - 1 && j == 0)
}

/// Whether a module lies in the square of the alignment pattern of the pair
/// `(i, j)` of centre coordinates.
pub open spec fn in_box(v: int, i: int, j: int, a: int, b: int) -> bool {
    alignment_center(v, i) - 2 <= a <= alignment_center(v, i) + 2 && alignment_center(v, j) - 2
        <= b <= alignment_center(v, j) + 2
}

/// Whether a module lies in the square of an alignment pattern that is
/// placed before the pair `(i, j)`.
pub open spec fn in_placed_box(v: int, i: int, j: int, a: int, b: int) -> bool
    decreases i, j,
{
    if i < 0 || j < 0 {
        false
    } else if j > 0 {
        in_placed_box(v, i, j - 1, a, b) || (!blocked(alignment_count(v), i, j - 1) && in_box(
            v,
            i,
            j - 1,
            a,
            b,
        ))
    } else if i > 0 && alignment_count(v) >= 0 {
        in_placed_box(v, i - 1, alignment_count(v), a, b)
    } else {
        false
    }
}

/// How many alignment patterns are placed before the pair `(i, j)`.
pub open spec fn placed_before(c: int, i: int, j: int) -> int
    decreases i, j,
{
    if i < 0 || j < 0 {
        0
    } else if j > 0 {
        placed_before(c, i, j - 1) + if blocked(c, i, j - 1) {
            0int
        } else {
            1int
        }
    } else if i > 0 && c >= 0 {
        placed_before(c, i - 1, c)
    } else {
        0
    }
}

/// Two different alignment pattern centres are at least twelve modules
/// apart.
pub proof fn lemma_centers_apart(v: int, p: int, q: int)
    requires
        1 <= v <= 40,
        0 <= p < q < alignment_count(v),
    ensures
        alignment_center(v, q) - alignment_center(v, p) >= 12,
    decreases q - p,
{
    lemma_alignment_spacing(v, q);
    if p < q - 1 {
        lemma_centers_apart(v, p, q - 1);
    }
}

/// A module of the square of a pair of centre coordinates lies in no square
/// that is placed before that pair or an earlier one.
pub proof fn lemma_boxes_apart(v: int, i: int, j: int, p: int, q: int, a: int, b: int)
    requires
        1 <= v <= 40,
        0 <= i <= alignment_count(v),
        0 <= j <= alignment_count(v),
        i < alignment_count(v) || j == 0,
        0 <= p < alignment_count(v),
        0 <= q < alignment_count(v),
        p > i || (p == i && q >= j),
        in_box(v, p, q, a, b),
    ensures
        !in_placed_box(v, i, j, a, b),
    decreases i, j,
{
    if j > 0 {
        lemma_boxes_apart(v, i, j - 1, p, q, a, b);
        if in_box(v, i, j - 1, a, b) {
            if p != i {
                lemma_centers_apart(v, i, p);
            }
            if q < j - 1 {
                lemma_centers_apart(v, q, j - 1);
            }
            if q > j - 1 {
                lemma_centers_apart(v, j - 1, q);
            }
        }
    } else if i > 0 {
        lemma_boxes_apart(v, i - 1, alignment_count(v), p, q, a, b);
    }
}

/// An alignment pattern on unknown modules takes 25 modules.
pub proof fn lemma_alignment_count(g: Grid, cx: int, cy: int)
    requires
        g.wf(),
        2 <= cx,
        cx + 2 < g.size,
        2 <= cy,
        cy + 2 < g.size,
        !g.any_in_rect(cx - 2, cy - 2, cx + 2, cy + 2),
    ensures
        unknowns(with_alignment(g, cx, cy)) == unknowns(g) - 25,
        painted(g, with_alignment(g, cx, cy)),
        outside(g, with_alignment(g, cx, cy), cx - 2, cy - 2, cx + 2, cy + 2),
        covered(with_alignment(g, cx, cy), cx - 2, cy - 2, cx + 2, cy + 2),
{
    let d = Module::Function(true);
    let l = Module::Function(false);
    assert forall|a: int, b: int|
        cx - 2 <= a <= cx + 2 && cy - 2 <= b <= cy + 2 implies #[trigger] g.at(a, b)
        == Module::Unknown by {}
    let g1 = g.set_rect(cx - 2, cy - 2, cx + 2, cy + 2, d);
    lemma_fresh_paint(g, cx - 2, cy - 2, cx + 2, cy + 2, true);
    assert((cx + 2 - (cx - 2) + 1) * (cy + 2 - (cy - 2) + 1) == 25) by (nonlinear_arith);
    assert(g1 == g.set_square(cx - 2, cy - 2, 5, d));
    let g2 = g1.set_rect(cx - 1, cy - 1, cx + 1, cy - 1, l);
    lemma_stale_paint(g1, cx - 1, cy - 1, cx + 1, cy - 1, false);
    assert(covered(g2, cx - 2, cy - 2, cx + 2, cy + 2));
    let g3 = g2.set_rect(cx - 1, cy + 1, cx + 1, cy + 1, l);
    lemma_stale_paint(g2, cx - 1, cy + 1, cx + 1, cy + 1, false);
    assert(covered(g3, cx - 2, cy - 2, cx + 2, cy + 2));
    let g4 = g3.set_rect(cx - 1, cy, cx - 1, cy, l);
    lemma_stale_paint(g3, cx - 1, cy, cx - 1, cy, false);
    assert(covered(g4, cx - 2, cy - 2, cx + 2, cy + 2));
    let g5 = g4.set_rect(cx + 1, cy, cx + 1, cy, l);
    lemma_stale_paint(g4, cx + 1, cy, cx + 1, cy, false);
    assert(g5 == with_alignment(g, cx, cy));
    assert(covered(g5, cx - 2, cy - 2, cx + 2, cy + 2));
}

/// Whether the set modules of a grid are those of the finder corners and of
/// the alignment patterns placed before the pair `(i, j)`.
pub open spec fn set_are_patterns(g: Grid, v: int, i: int, j: int) -> bool {
    forall|a: int, b: int|
        g.on(a, b) ==> (#[trigger] g.at(a, b) != Module::Unknown) == (in_corner(g.size, a, b)
            || in_placed_box(v, i, j, a, b))
}

/// The alignment patterns take 25 modules each, and the modules that are set
/// after them are those of the finder corners and of the patterns placed.
pub proof fn lemma_alignments_census(f: Grid, v: int, i: int, j: int)
    requires
        f.wf(),
        2 <= v <= 40,
        f.size == 21 + 4 * (v - 1),
        set_are_patterns(f, v, 0, 0),
        0 <= i,
        0 <= j <= alignment_count(v),
        i < alignment_count(v) || j == 0,
        i <= alignment_count(v),
    ensures
        with_alignments_upto(f, v, i, j).wf(),
        with_alignments_upto(f, v, i, j).size == f.size,
        set_are_patterns(with_alignments_upto(f, v, i, j), v, i, j),
        unknowns(with_alignments_upto(f, v, i, j)) == unknowns(f) - 25 * placed_before(
            alignment_count(v),
            i,
            j,
        ),
    decreases i, j,
{
    let n = f.size;
    let c = alignment_count(v);
    lemma_alignment_none(v);
    lemma_alignment_spacing(v, 0);
    if j > 0 {
        lemma_alignments_census(f, v, i, j - 1);
        let h = with_alignments_upto(f, v, i, j - 1);
        let cx = alignment_center(v, i);
        let cy = alignment_center(v, j - 1);
        lemma_alignment_spacing(v, i);
        lemma_alignment_spacing(v, j - 1);
        lemma_alignment_centers(v, i);
        lemma_alignment_centers(v, j - 1);
        let g = with_alignments_upto(f, v, i, j);
        if blocked(c, i, j - 1) {
            assert(h.at(cx, cy) != Module::Unknown) by {
                assert(in_corner(n, cx, cy));
            }
            assert(h.any_in_rect(cx - 2, cy - 2, cx + 2, cy + 2));
            assert(g == h);
        } else {
            assert forall|a: int, b: int|
                cx - 2 <= a <= cx + 2 && cy - 2 <= b <= cy + 2 implies #[trigger] h.at(a, b)
                == Module::Unknown by {
                lemma_boxes_apart(v, i, j - 1, i, j - 1, a, b);
                assert(!in_corner(n, a, b));
            }
            assert(!h.any_in_rect(cx - 2, cy - 2, cx + 2, cy + 2));
            lemma_alignment_count(h, cx, cy);
            assert forall|a: int, b: int| g.on(a, b) implies (#[trigger] g.at(a, b)
                != Module::Unknown) == (in_corner(n, a, b) || in_placed_box(v, i, j, a, b)) by {
                if in_box(v, i, j - 1, a, b) {
                    assert(g.at(a, b) is Function);
                } else {
                    assert(g.at(a, b) == h.at(a, b));
                }
            }
        }
    } else if i > 0 {
        lemma_alignments_census(f, v, i - 1, c);
    }
}

/// How many of the three left out pairs come before the pair `(i, j)`.
pub open spec fn blocked_before(c: int, i: int, j: int) -> int {
    (if i > 0 || j > 0 {
        1int
    } else {
        0int
    }) + (if i > 0 || j > c - 1 {
        1int
    } else {
        0int
    }) + (if i > c - 1 || (i == c - 1 && j > 0) {
        1int
    } else {
        0int
    })
}

/// Before the pair `(i, j)` as many patterns are placed as there are pairs,
/// less those left out.
pub proof fn lemma_placed_before(c: int, i: int, j: int)
    requires
        2 <= c,
        0 <= i <= c,
        0 <= j <= c,
        i < c || j == 0,
    ensures
        placed_before(c, i, j) == i * c + j - blocked_before(c, i, j),
    decreases i, j,
{
    if j > 0 {
        lemma_placed_before(c, i, j - 1);
    } else if i > 0 {
        lemma_placed_before(c, i - 1, c);
        assert((i - 1) * c + c == i * c) by (nonlinear_arith);
    } else {
        assert(0 * c == 0) by (nonlinear_arith);
    }
}

/// Whether position `k` of a timing pattern lies in the square of an
/// alignment pattern whose centre has one of the coordinates from the second
/// to the one before `t`.
pub open spec fn near_upto(v: int, k: int, t: int) -> bool
    decreases t,
{
    if t <= 1 {
        false
    } else {
        near_upto(v, k, t - 1) || alignment_center(v, t - 1) - 2 <= k <= alignment_center(
            v,
            t - 1,
        ) + 2
    }
}

/// Whether position `k` of a timing pattern lies in the square of an
/// alignment pattern.
pub open spec fn near(v: int, k: int) -> bool {
    near_upto(v, k, alignment_count(v) - 1)
}

/// A position near one of the centres up to `t` is not beyond the last of
/// them.
pub proof fn lemma_near_bound(v: int, k: int, t: int)
    requires
        1 <= v <= 40,
        2 <= t <= alignment_count(v),
        near_upto(v, k, t),
    ensures
        k <= alignment_center(v, t - 1) + 2,
        k >= 16,
    decreases t,
{
    lemma_alignment_spacing(v, t - 1);
    if near_upto(v, k, t - 1) {
        lemma_near_bound(v, k, t - 1);
    }
}

/// On row 6 a module is in the square of a placed alignment pattern where
/// its position is near a centre, and on column 6 likewise.
pub proof fn lemma_boxes_on_timing(v: int, i: int, j: int, k: int)
    requires
        2 <= v <= 40,
        0 <= i <= alignment_count(v),
        0 <= j <= alignment_count(v),
        i < alignment_count(v) || j == 0,
    ensures
        in_placed_box(v, i, j, k, 6) == near_upto(
            v,
            k,
            vstd::math::min(
                alignment_count(v) - 1,
                if j > 0 {
                    i + 1
                } else {
                    i
                },
            ),
        ),
        in_placed_box(v, i, j, 6, k) == if i > 0 {
            near(v, k)
        } else {
            near_upto(v, k, vstd::math::min(alignment_count(v) - 1, j))
        },
    decreases i, j,
{
    let c = alignment_count(v);
    lemma_alignment_none(v);
    lemma_alignment_spacing(v, 0);
    if j > 0 {
        lemma_boxes_on_timing(v, i, j - 1, k);
        lemma_alignment_spacing(v, i);
        lemma_alignment_spacing(v, j - 1);
        if j - 1 > 0 {
            lemma_centers_apart(v, 0, j - 1);
        }
        if i > 0 {
            lemma_centers_apart(v, 0, i);
        }
    } else if i > 0 {
        lemma_boxes_on_timing(v, i - 1, c, k);
    }
}

/// How many positions from 8 to before `k` of a timing pattern are near a
/// centre.
pub open spec fn near_count(v: int, k: int) -> int
    decreases k,
{
    if k <= 8 {
        0
    } else {
        near_count(v, k - 1) + if near(v, k - 1) {
            1int
        } else {
            0int
        }
    }
}

/// How many of the five positions round a centre lie before `k`.
pub open spec fn span(v: int, p: int, k: int) -> int {
    let d = k - (alignment_center(v, p) - 2);
    if d < 0 {
        0
    } else if d > 5 {
        5
    } else {
        d
    }
}

/// How many positions before `k` lie round the centres from the second to
/// the one before `t`.
pub open spec fn span_sum(v: int, k: int, t: int) -> int
    decreases t,
{
    if t <= 1 {
        0
    } else {
        span_sum(v, k, t - 1) + span(v, t - 1, k)
    }
}

/// One position more adds one to the sum where the position is near a
/// centre.
pub proof fn lemma_span_step(v: int, k: int, t: int)
    requires
        1 <= v <= 40,
        1 <= t <= alignment_count(v),
    ensures
        span_sum(v, k + 1, t) == span_sum(v, k, t) + if near_upto(v, k, t) {
            1int
        } else {
            0int
        },
    decreases t,
{
    if t > 1 {
        lemma_span_step(v, k, t - 1);
        lemma_alignment_spacing(v, t - 1);
        if t > 2 && near_upto(v, k, t - 1) {
            lemma_near_bound(v, k, t - 1);
        }
    }
}

/// The positions near a centre are counted by the sum of the spans.
pub proof fn lemma_near_count(v: int, k: int)
    requires
        2 <= v <= 40,
        8 <= k,
    ensures
        near_count(v, k) == span_sum(v, k, alignment_count(v) - 1),
    decreases k,
{
    lemma_alignment_none(v);
    lemma_alignment_spacing(v, 0);
    if k > 8 {
        lemma_near_count(v, k - 1);
        lemma_span_step(v, k - 1, alignment_count(v) - 1);
    } else {
        lemma_span_sum_start(v, alignment_count(v) - 1);
    }
}

/// Before position 8 no position lies round a centre beyond the first.
pub proof fn lemma_span_sum_start(v: int, t: int)
    requires
        1 <= v <= 40,
        1 <= t <= alignment_count(v),
    ensures
        span_sum(v, 8, t) == 0,
    decreases t,
{
    if t > 1 {
        lemma_span_sum_start(v, t - 1);
        lemma_alignment_spacing(v, t - 1);
    }
}

/// Before the far finder all five positions round each centre between the
/// first and the last have passed.
pub proof fn lemma_span_sum_end(v: int, t: int)
    requires
        1 <= v <= 40,
        1 <= t <= alignment_count(v) - 1,
    ensures
        span_sum(v, 21 + 4 * (v - 1) - 8, t) == 5 * (t - 1),
    decreases t,
{
    if t > 1 {
        lemma_span_sum_end(v, t - 1);
        lemma_alignment_spacing(v, t - 1);
    }
}

/// The timing patterns, module by module.
pub proof fn lemma_timing_at(g: Grid, k: int)
    requires
        g.wf(),
        6 <= k <= g.size,
    ensures
        with_timing_upto(g, k).wf(),
        with_timing_upto(g, k).size == g.size,
        forall|a: int, b: int|
            g.on(a, b) ==> #[trigger] with_timing_upto(g, k).at(a, b) == if b == 6 && 6 <= a < k {
                timing(a)
            } else if a == 6 && 6 <= b < k {
                timing(b)
            } else {
                g.at(a, b)
            },
    decreases k,
{
    if k > 6 {
        lemma_timing_at(g, k - 1);
        let h = with_timing_upto(g, k - 1);
        let h1 = h.set(k - 1, 6, timing(k - 1));
        let h2 = h1.set(6, k - 1, timing(k - 1));
        lemma_set_at(h, k - 1, 6, timing(k - 1), 0, 0);
        lemma_set_at(h1, 6, k - 1, timing(k - 1), 0, 0);
        assert forall|a: int, b: int| g.on(a, b) implies #[trigger] h2.at(a, b) == if b == 6 && 6
            <= a < k {
            timing(a)
        } else if a == 6 && 6 <= b < k {
            timing(b)
        } else {
            g.at(a, b)
        } by {
            lemma_set_at(h, k - 1, 6, timing(k - 1), a, b);
            lemma_set_at(h1, 6, k - 1, timing(k - 1), a, b);
        }
    }
}

/// How many positions from 6 to before `k` of a timing pattern lie on
/// unknown modules: those between the finder corners that are not near a
/// centre.
pub open spec fn free_upto(v: int, n: int, k: int) -> int
    decreases k,
{
    if k <= 6 {
        0
    } else {
        free_upto(v, n, k - 1) + if 8 <= k - 1 <= n - 9 && !near(v, k - 1) {
            1int
        } else {
            0int
        }
    }
}

/// Whether a position of a timing pattern lies on a module that the finder
/// corners and the alignment patterns have left unknown.
pub proof fn lemma_timing_free(al: Grid, v: int, k: int)
    requires
        al.wf(),
        1 <= v <= 40,
        al.size == 21 + 4 * (v - 1),
        set_are_patterns(al, v, alignment_count(v), 0),
        6 <= k <= al.size - 7,
    ensures
        (al.at(k, 6) == Module::Unknown) == (8 <= k <= al.size - 9 && !near(v, k)),
        (al.at(6, k) == Module::Unknown) == (8 <= k <= al.size - 9 && !near(v, k)),
{
    let n = al.size;
    let c = alignment_count(v);
    lemma_alignment_none(v);
    assert(al.on(k, 6) && al.on(6, k));
    if v >= 2 {
        lemma_alignment_spacing(v, 0);
        lemma_boxes_on_timing(v, c, 0, k);
        if near(v, k) {
            lemma_near_bound(v, k, c - 1);
            lemma_alignment_spacing(v, c - 2);
        }
    }
    assert((al.at(k, 6) != Module::Unknown) == (in_corner(n, k, 6) || in_placed_box(
        v,
        c,
        0,
        k,
        6,
    )));
    assert((al.at(6, k) != Module::Unknown) == (in_corner(n, 6, k) || in_placed_box(
        v,
        c,
        0,
        6,
        k,
    )));
}

/// The timing patterns take two modules for each position that is free.
pub proof fn lemma_timing_census(al: Grid, v: int, k: int)
    requires
        al.wf(),
        1 <= v <= 40,
        al.size == 21 + 4 * (v - 1),
        set_are_patterns(al, v, alignment_count(v), 0),
        6 <= k <= al.size - 6,
    ensures
        unknowns(with_timing_upto(al, k)) == unknowns(al) - 2 * free_upto(v, al.size, k),
    decreases k,
{
    if k > 6 {
        lemma_timing_census(al, v, k - 1);
        lemma_timing_at(al, k - 1);
        lemma_timing_free(al, v, k - 1);
        let h = with_timing_upto(al, k - 1);
        let h1 = h.set(k - 1, 6, timing(k - 1));
        lemma_unknowns_set(h, k - 1, 6, timing(k - 1));
        lemma_set_at(h, k - 1, 6, timing(k - 1), 6, k - 1);
        lemma_unknowns_set(h1, 6, k - 1, timing(k - 1));
        assert(h.at(k - 1, 6) == al.at(k - 1, 6));
        assert(h.on(6, k - 1));
        if k - 1 != 6 {
            assert(h.at(6, k - 1) == al.at(6, k - 1));
        }
    }
}

/// Between the finder corners the free positions of a timing pattern are
/// those that are not near a centre.
pub proof fn lemma_free_upto(v: int, n: int, k: int)
    requires
        2 <= v <= 40,
        n == 21 + 4 * (v - 1),
        8 <= k <= n - 8,
    ensures
        free_upto(v, n, k) == k - 8 - near_count(v, k),
    decreases k,
{
    if k > 8 {
        lemma_free_upto(v, n, k - 1);
    } else {
        assert(free_upto(v, n, 8) == 0) by {
            assert(free_upto(v, n, 7) == 0) by {
                assert(free_upto(v, n, 6) == 0);
            }
        }
    }
}

/// How many modules each timing pattern takes: those between the finder
/// corners, less five for each alignment pattern on its course.
pub proof fn lemma_free_line(v: int)
    requires
        1 <= v <= 40,
    ensures
        free_upto(v, 21 + 4 * (v - 1), 21 + 4 * (v - 1) - 6) == 21 + 4 * (v - 1) - 16 - if v
            >= 2 {
            5 * (alignment_count(v) - 2)
        } else {
            0
        },
{
    let n = 21 + 4 * (v - 1);
    lemma_alignment_none(v);
    assert(free_upto(v, n, n - 6) == free_upto(v, n, n - 8)) by {
        assert(free_upto(v, n, n - 6) == free_upto(v, n, n - 7));
    }
    if v >= 2 {
        lemma_alignment_spacing(v, 0);
        lemma_free_upto(v, n, n - 8);
        lemma_near_count(v, n - 8);
        lemma_span_sum_end(v, alignment_count(v) - 1);
    } else {
        lemma_free_line_first(13);
    }
}

/// Version 1 has no alignment pattern on the course of its timing patterns.
proof fn lemma_free_line_first(k: int)
    requires
        6 <= k <= 13,
    ensures
        free_upto(1, 21, k) == if k <= 8 {
            0
        } else {
            k - 8
        },
    decreases k,
{
    lemma_alignment_none(1);
    if k > 6 {
        lemma_free_line_first(k - 1);
        assert(!near(1, k - 1));
    }
}

/// A module is in no square of a placed alignment pattern where it is in
/// the square of no pair that is not left out.
pub proof fn lemma_not_boxed(v: int, i: int, j: int, a: int, b: int)
    requires
        0 <= i,
        0 <= j <= alignment_count(v),
        i < alignment_count(v) || j == 0,
        i <= alignment_count(v),
        forall|p: int, q: int|
            0 <= p < alignment_count(v) && 0 <= q < alignment_count(v) && !blocked(
                alignment_count(v),
                p,
                q,
            ) ==> !#[trigger] in_box(v, p, q, a, b),
    ensures
        !in_placed_box(v, i, j, a, b),
    decreases i, j,
{
    if j > 0 {
        lemma_not_boxed(v, i, j - 1, a, b);
    } else if i > 0 {
        lemma_not_boxed(v, i - 1, alignment_count(v), a, b);
    }
}

/// Whether a module lies within nine modules of two edges of which one is
/// the top or the left one.
pub open spec fn on_rim(n: int, a: int, b: int) -> bool {
    (a <= 8 || a >= n - 13) && (b <= 8 || b >= n - 13) && !(a >= n - 13 && b >= n - 13)
}

/// A module on the rim lies in the square of no placed alignment pattern.
pub proof fn lemma_rim_free(v: int, a: int, b: int)
    requires
        1 <= v <= 40,
        v >= 2 ==> on_rim(21 + 4 * (v - 1), a, b),
    ensures
        !in_placed_box(v, alignment_count(v), 0, a, b),
{
    let c = alignment_count(v);
    lemma_alignment_none(v);
    if v >= 2 {
        assert forall|p: int, q: int| 0 <= p < c && 0 <= q < c && !blocked(c, p, q) implies !#[trigger] in_box(
            v,
            p,
            q,
            a,
            b,
        ) by {
            lemma_alignment_spacing(v, p);
            lemma_alignment_spacing(v, q);
        }
        lemma_not_boxed(v, c, 0, a, b);
    }
}

/// How many modules of a symbol are free for data: all but the finder
/// patterns with their separators, the alignment patterns, what the timing
/// patterns take beside those, the dark module, and the modules of the
/// format and version information.
pub open spec fn free_modules(v: int) -> int {
    let n = 21 + 4 * (v - 1);
    let c = alignment_count(v);
    n * n - 192 - (if v >= 2 {
        25 * (c * c - 3)
    } else {
        0
    }) - 2 * (n - 16 - if v >= 2 {
        5 * (c - 2)
    } else {
        0
    }) - 1 - 30 - if v >= 7 {
        36int
    } else {
        0int
    }
}

/// The function patterns leave as many modules unknown as a symbol has free
/// for data.
pub proof fn lemma_fun_patterns_free(v: int)
    requires
        1 <= v <= 40,
    ensures
        unknowns(with_fun_patterns(Grid::blank(21 + 4 * (v - 1)), v)) == free_modules(v),
{
    let n = 21 + 4 * (v - 1);
    let c = alignment_count(v);
    let g = Grid::blank(n);
    lemma_unknowns_blank(n);
    lemma_alignment_none(v);
    assert forall|a: int, b: int| g.on(a, b) implies #[trigger] g.at(a, b) == Module::Unknown by {
        lemma_index_bound(n, a, b);
    }
    let f = with_finders(g);
    lemma_finders_count(g);
    lemma_finders_at(g);
    assert(set_are_patterns(f, v, 0, 0)) by {
        assert forall|a: int, b: int| f.on(a, b) implies (#[trigger] f.at(a, b)
            != Module::Unknown) == (in_corner(n, a, b) || in_placed_box(v, 0, 0, a, b)) by {
            assert(f.at(a, b) == finder_module(g, a, b));
        }
    }
    let al = with_alignments(f, v);
    if v >= 2 {
        lemma_alignment_spacing(v, 0);
        lemma_alignments_census(f, v, c, 0);
        lemma_placed_before(c, c, 0);
    }
    assert(set_are_patterns(al, v, c, 0));
    let t = with_timing(al);
    lemma_timing_census(al, v, n - 6);
    lemma_timing_at(al, n - 6);
    lemma_free_line(v);
    let d = with_dark_module(t, v);
    lemma_unknowns_set(t, 8, n - 8, Module::Function(true));
    assert(t.at(8, n - 8) == Module::Unknown) by {
        lemma_rim_free(v, 8, n - 8);
        assert(al.on(8, n - 8));
        assert(al.at(8, n - 8) == Module::Unknown);
    }
    lemma_set_at(t, 8, n - 8, Module::Function(true), 0, 0);
    assert forall|a: int, b: int| (v >= 2 ==> on_rim(n, a, b)) && g.on(a, b) && a != 6 && b != 6
        && !in_corner(n, a, b) && !(a == 8 && b == n - 8) implies #[trigger] d.at(a, b)
        == Module::Unknown by {
        lemma_rim_free(v, a, b);
        lemma_set_at(t, 8, n - 8, Module::Function(true), a, b);
        assert(t.at(a, b) == al.at(a, b));
        assert(al.at(a, b) == Module::Unknown);
    }
    lemma_reserved_census(d, v);
    assert(with_reserved(d, v) == with_fun_patterns(g, v));
    assert(c * c >= 0) by (nonlinear_arith);
}

/// The reserved areas take 30 unknown modules, and from version 7 on 36
/// more.
pub proof fn lemma_reserved_census(d: Grid, v: int)
    requires
        d.wf(),
        1 <= v <= 40,
        d.size == 21 + 4 * (v - 1),
        forall|a: int, b: int|
            (v >= 2 ==> on_rim(d.size, a, b)) && d.on(a, b) && a != 6 && b != 6 && !in_corner(
                d.size,
                a,
                b,
            ) && !(a == 8 && b == d.size - 8) ==> #[trigger] d.at(a, b) == Module::Unknown,
    ensures
        unknowns(with_reserved(d, v)) == unknowns(d) - 30 - if v >= 7 {
            36int
        } else {
            0int
        },
{
    let n = d.size;
    let r1 = d.set_rect(0, 8, 5, 8, Module::Reserved);
    lemma_set_rect_wf(d, 0, 8, 5, 8, Module::Reserved);
    lemma_unknowns_set_rect(d, 0, 8, 5, 8, Module::Reserved);
    assert forall|a: int, b: int| 0 <= a <= 5 && 8 <= b <= 8 implies #[trigger] d.at(a, b) == Module::Unknown by {
        assert(d.at(a, b) == Module::Unknown);
    }
    lemma_rect_fresh(d, 0, 8, 5, 8);
    assert((5 - (0) + 1) * (8 - (8) + 1) == 6) by (nonlinear_arith);
    assert(unknowns(r1) == unknowns(d) - 6);
    let r2 = r1.set_rect(7, 8, 8, 8, Module::Reserved);
    lemma_set_rect_wf(r1, 7, 8, 8, 8, Module::Reserved);
    lemma_unknowns_set_rect(r1, 7, 8, 8, 8, Module::Reserved);
    assert forall|a: int, b: int| 7 <= a <= 8 && 8 <= b <= 8 implies #[trigger] r1.at(a, b) == Module::Unknown by {
        assert(d.at(a, b) == Module::Unknown);
        lemma_set_rect_at(d, 0, 8, 5, 8, Module::Reserved, a, b);
    }
    lemma_rect_fresh(r1, 7, 8, 8, 8);
    assert((8 - (7) + 1) * (8 - (8) + 1) == 2) by (nonlinear_arith);
    assert(unknowns(r2) == unknowns(d) - 8);
    let r3 = r2.set_rect(8, 0, 8, 5, Module::Reserved);
    lemma_set_rect_wf(r2, 8, 0, 8, 5, Module::Reserved);
    lemma_unknowns_set_rect(r2, 8, 0, 8, 5, Module::Reserved);
    assert forall|a: int, b: int| 8 <= a <= 8 && 0 <= b <= 5 implies #[trigger] r2.at(a, b) == Module::Unknown by {
        assert(d.at(a, b) == Module::Unknown);
        lemma_set_rect_at(d, 0, 8, 5, 8, Module::Reserved, a, b);
        lemma_set_rect_at(r1, 7, 8, 8, 8, Module::Reserved, a, b);
    }
    lemma_rect_fresh(r2, 8, 0, 8, 5);
    assert((8 - (8) + 1) * (5 - (0) + 1) == 6) by (nonlinear_arith);
    assert(unknowns(r3) == unknowns(d) - 14);
    let r4 = r3.set_rect(8, 7, 8, 7, Module::Reserved);
    lemma_set_rect_wf(r3, 8, 7, 8, 7, Module::Reserved);
    lemma_unknowns_set_rect(r3, 8, 7, 8, 7, Module::Reserved);
    assert forall|a: int, b: int| 8 <= a <= 8 && 7 <= b <= 7 implies #[trigger] r3.at(a, b) == Module::Unknown by {
        assert(d.at(a, b) == Module::Unknown);
        lemma_set_rect_at(d, 0, 8, 5, 8, Module::Reserved, a, b);
        lemma_set_rect_at(r1, 7, 8, 8, 8, Module::Reserved, a, b);
        lemma_set_rect_at(r2, 8, 0, 8, 5, Module::Reserved, a, b);
    }
    lemma_rect_fresh(r3, 8, 7, 8, 7);
    assert((8 - (8) + 1) * (7 - (7) + 1) == 1) by (nonlinear_arith);
    assert(unknowns(r4) == unknowns(d) - 15);
    let r5 = r4.set_rect(n - 8, 8, n - 1, 8, Module::Reserved);
    lemma_set_rect_wf(r4, n - 8, 8, n - 1, 8, Module::Reserved);
    lemma_unknowns_set_rect(r4, n - 8, 8, n - 1, 8, Module::Reserved);
    assert forall|a: int, b: int| n - 8 <= a <= n - 1 && 8 <= b <= 8 implies #[trigger] r4.at(a, b) == Module::Unknown by {
        assert(d.at(a, b) == Module::Unknown);
        lemma_set_rect_at(d, 0, 8, 5, 8, Module::Reserved, a, b);
        lemma_set_rect_at(r1, 7, 8, 8, 8, Module::Reserved, a, b);
        lemma_set_rect_at(r2, 8, 0, 8, 5, Module::Reserved, a, b);
        lemma_set_rect_at(r3, 8, 7, 8, 7, Module::Reserved, a, b);
    }
    lemma_rect_fresh(r4, n - 8, 8, n - 1, 8);
    assert((n - 1 - (n - 8) + 1) * (8 - (8) + 1) == 8) by (nonlinear_arith);
    assert(unknowns(r5) == unknowns(d) - 23);
    let r6 = r5.set_rect(8, n - 7, 8, n - 1, Module::Reserved);
    lemma_set_rect_wf(r5, 8, n - 7, 8, n - 1, Module::Reserved);
    lemma_unknowns_set_rect(r5, 8, n - 7, 8, n - 1, Module::Reserved);
    assert forall|a: int, b: int| 8 <= a <= 8 && n - 7 <= b <= n - 1 implies #[trigger] r5.at(a, b) == Module::Unknown by {
        assert(d.at(a, b) == Module::Unknown);
        lemma_set_rect_at(d, 0, 8, 5, 8, Module::Reserved, a, b);
        lemma_set_rect_at(r1, 7, 8, 8, 8, Module::Reserved, a, b);
        lemma_set_rect_at(r2, 8, 0, 8, 5, Module::Reserved, a, b);
        lemma_set_rect_at(r3, 8, 7, 8, 7, Module::Reserved, a, b);
        lemma_set_rect_at(r4, n - 8, 8, n - 1, 8, Module::Reserved, a, b);
    }
    lemma_rect_fresh(r5, 8, n - 7, 8, n - 1);
    assert((8 - (8) + 1) * (n - 1 - (n - 7) + 1) == 7) by (nonlinear_arith);
    assert(unknowns(r6) == unknowns(d) - 30);
    if v >= 7 {
        let r7 = r6.set_rect(0, n - 11, 5, n - 9, Module::Reserved);
        lemma_set_rect_wf(r6, 0, n - 11, 5, n - 9, Module::Reserved);
        lemma_unknowns_set_rect(r6, 0, n - 11, 5, n - 9, Module::Reserved);
        assert forall|a: int, b: int| 0 <= a <= 5 && n - 11 <= b <= n - 9 implies #[trigger] r6.at(a, b) == Module::Unknown by {
            assert(d.at(a, b) == Module::Unknown);
            lemma_set_rect_at(d, 0, 8, 5, 8, Module::Reserved, a, b);
            lemma_set_rect_at(r1, 7, 8, 8, 8, Module::Reserved, a, b);
            lemma_set_rect_at(r2, 8, 0, 8, 5, Module::Reserved, a, b);
            lemma_set_rect_at(r3, 8, 7, 8, 7, Module::Reserved, a, b);
            lemma_set_rect_at(r4, n - 8, 8, n - 1, 8, Module::Reserved, a, b);
            lemma_set_rect_at(r5, 8, n - 7, 8, n - 1, Module::Reserved, a, b);
        }
        lemma_rect_fresh(r6, 0, n - 11, 5, n - 9);
        assert((5 - (0) + 1) * (n - 9 - (n - 11) + 1) == 18) by (nonlinear_arith);
        assert(unknowns(r7) == unknowns(d) - 48);
        let r8 = r7.set_rect(n - 11, 0, n - 9, 5, Module::Reserved);
        lemma_set_rect_wf(r7, n - 11, 0, n - 9, 5, Module::Reserved);
        lemma_unknowns_set_rect(r7, n - 11, 0, n - 9, 5, Module::Reserved);
        assert forall|a: int, b: int| n - 11 <= a <= n - 9 && 0 <= b <= 5 implies #[trigger] r7.at(a, b) == Module::Unknown by {
            assert(d.at(a, b) == Module::Unknown);
            lemma_set_rect_at(d, 0, 8, 5, 8, Module::Reserved, a, b);
            lemma_set_rect_at(r1, 7, 8, 8, 8, Module::Reserved, a, b);
            lemma_set_rect_at(r2, 8, 0, 8, 5, Module::Reserved, a, b);
            lemma_set_rect_at(r3, 8, 7, 8, 7, Module::Reserved, a, b);
            lemma_set_rect_at(r4, n - 8, 8, n - 1, 8, Module::Reserved, a, b);
            lemma_set_rect_at(r5, 8, n - 7, 8, n - 1, Module::Reserved, a, b);
            lemma_set_rect_at(r6, 0, n - 11, 5, n - 9, Module::Reserved, a, b);
        }
        lemma_rect_fresh(r7, n - 11, 0, n - 9, 5);
        assert((n - 9 - (n - 11) + 1) * (5 - (0) + 1) == 18) by (nonlinear_arith);
        assert(unknowns(r8) == unknowns(d) - 66);
        assert(r8 == with_reserved(d, v));
    } else {
        assert(r6 == with_reserved(d, v));
    }
}

/// Every module that is free for data gets a bit of the stream, and every
/// bit of the stream gets a module: on the function patterns of a symbol,
/// placing a stream of the symbol's length writes as many data modules as
/// the stream has bits.
pub proof fn lemma_stream_fills_symbol(v: int, e: ECLevel, bits: Seq<bool>)
    requires
        1 <= v <= 40,
        bits.len() == protected_len(v, e),
    ensures
        placed(with_fun_patterns(Grid::blank(21 + 4 * (v - 1)), v), bits).used == bits.len(),
{
    let n = 21 + 4 * (v - 1);
    let f = with_fun_patterns(Grid::blank(n), v);
    crate::frame::lemma_fun_patterns_at(v);
    lemma_fun_patterns_free(v);
    lemma_stream_len(v, e);
    let p = placed(f, bits);
    lemma_place_count(f, bits, walk_bound(n));
    lemma_place_frame(f, bits, walk_bound(n));
    crate::coverage::lemma_reached_are_set(f, bits);
    assert forall|k: int| 0 <= k < p.grid.cells.len() implies p.grid.cells[k]
        != Module::Unknown by {
        let a = k % n;
        let b = k / n;
        vstd::arithmetic::div_mod::lemma_fundamental_div_mod(k, n);
        vstd::arithmetic::div_mod::lemma_mod_bound(k, n);
        assert(0 <= b < n) by (nonlinear_arith)
            requires
                0 <= k < n * n,
                k == n * b + a,
                0 <= a < n,
                n > 0,
        ;
        assert(n * b + a == b * n + a) by (nonlinear_arith);
        assert(p.grid.at(a, b) == p.grid.cells[k]);
        if !crate::coverage::reached(n, a, b) {
            assert(f.at(a, b) is Function);
            assert(p.grid.at(a, b) == f.at(a, b));
        }
    }
    lemma_none_unknown(p.grid.cells, p.grid.cells.len() as int);
}

} // verus!
