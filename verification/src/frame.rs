//! What each step of the layout changes and what it leaves alone, module by
//! module.
use crate::layout::{
    place_upto, timing, with_alignment, with_alignments, with_alignments_upto, with_dark_module,
    with_finder, with_finders, with_fun_patterns, with_reserved, with_reserved_rect,
    with_separator, with_spots_upto, with_timing, with_timing_upto,
};
use crate::matrix::{lemma_set_at, lemma_set_rect_at, lemma_set_rect_wf, Grid, Module};
use crate::tables::{alignment_center, alignment_count, lemma_alignment_centers};
use crate::zigzag::ZigZagIt;
use vstd::prelude::*;

verus! {

/// Whether `h` is `g` with some modules turned into function modules.
pub open spec fn painted(g: Grid, h: Grid) -> bool {
    &&& h.wf()
    &&& h.size == g.size
    &&& forall|a: int, b: int|
        g.on(a, b) ==> #[trigger] h.at(a, b) == g.at(a, b) || h.at(a, b) is Function
}

/// Whether every module of `g` that was set is the same in `h`.
pub open spec fn kept(g: Grid, h: Grid) -> bool {
    &&& h.wf()
    &&& h.size == g.size
    &&& forall|a: int, b: int|
        g.on(a, b) && g.at(a, b) != Module::Unknown ==> #[trigger] h.at(a, b) == g.at(a, b)
}

/// Whether `h` is the same as `g` outside a rectangle.
pub open spec fn outside(g: Grid, h: Grid, x0: int, y0: int, x1: int, y1: int) -> bool {
    &&& h.wf()
    &&& h.size == g.size
    &&& forall|a: int, b: int|
        g.on(a, b) && !(x0 <= a <= x1 && y0 <= b <= y1) ==> #[trigger] h.at(a, b) == g.at(a, b)
}

/// Whether every module of a rectangle is a function module.
pub open spec fn covered(h: Grid, x0: int, y0: int, x1: int, y1: int) -> bool {
    forall|a: int, b: int| x0 <= a <= x1 && y0 <= b <= y1 ==> (#[trigger] h.at(a, b)) is Function
}

/// A rectangle of function modules covers the rectangle and changes nothing
/// else.
pub proof fn lemma_paint_rect(g: Grid, x0: int, y0: int, x1: int, y1: int, c: bool)
    requires
        g.wf(),
        0 <= x0,
        0 <= y0,
        x1 < g.size,
        y1 < g.size,
    ensures
        painted(g, g.set_rect(x0, y0, x1, y1, Module::Function(c))),
        outside(g, g.set_rect(x0, y0, x1, y1, Module::Function(c)), x0, y0, x1, y1),
        covered(g.set_rect(x0, y0, x1, y1, Module::Function(c)), x0, y0, x1, y1),
{
    let r = g.set_rect(x0, y0, x1, y1, Module::Function(c));
    lemma_set_rect_wf(g, x0, y0, x1, y1, Module::Function(c));
    assert forall|a: int, b: int| g.on(a, b) implies #[trigger] r.at(a, b) == (if x0 <= a <= x1
        && y0 <= b <= y1 {
        Module::Function(c)
    } else {
        g.at(a, b)
    }) by {
        lemma_set_rect_at(g, x0, y0, x1, y1, Module::Function(c), a, b);
    }
}

/// The outline of a square of function modules changes nothing outside the
/// square.
pub proof fn lemma_paint_outline(g: Grid, x: int, y: int, w: int, c: bool)
    requires
        g.wf(),
        0 <= x,
        0 <= y,
        1 <= w,
        x + w <= g.size,
        y + w <= g.size,
    ensures
        painted(g, g.set_square_outline(x, y, w, Module::Function(c))),
        outside(g, g.set_square_outline(x, y, w, Module::Function(c)), x, y, x + w - 1, y + w - 1),
{
    let v = Module::Function(c);
    let a = g.set_rect(x, y, x + w - 1, y, v);
    lemma_paint_rect(g, x, y, x + w - 1, y, c);
    let b = a.set_rect(x, y + w - 1, x + w - 1, y + w - 1, v);
    lemma_paint_rect(a, x, y + w - 1, x + w - 1, y + w - 1, c);
    if w >= 3 {
        let d = b.set_rect(x, y + 1, x, y + w - 2, v);
        lemma_paint_rect(b, x, y + 1, x, y + w - 2, c);
        let e = d.set_rect(x + w - 1, y + 1, x + w - 1, y + w - 2, v);
        lemma_paint_rect(d, x + w - 1, y + 1, x + w - 1, y + w - 2, c);
        assert(e == g.set_square_outline(x, y, w, v));
    }
}

/// A finder pattern covers its square of seven modules and changes nothing
/// else.
pub proof fn lemma_paint_finder(g: Grid, x: int, y: int)
    requires
        g.wf(),
        0 <= x,
        0 <= y,
        x + 7 <= g.size,
        y + 7 <= g.size,
    ensures
        painted(g, with_finder(g, x, y)),
        outside(g, with_finder(g, x, y), x, y, x + 6, y + 6),
        covered(with_finder(g, x, y), x, y, x + 6, y + 6),
{
    let a = g.set_square(x, y, 7, Module::Function(true));
    lemma_paint_rect(g, x, y, x + 6, y + 6, true);
    lemma_paint_outline(a, x + 1, y + 1, 5, false);
}

/// The finder patterns and their separators cover the three corners of
/// eight by eight modules and turn no module into anything but a function
/// module.
pub proof fn lemma_paint_finders(g: Grid)
    requires
        g.wf(),
        21 <= g.size,
    ensures
        painted(g, with_finders(g)),
        covered(with_finders(g), 0, 0, 7, 7),
        covered(with_finders(g), g.size - 8, 0, g.size - 1, 7),
        covered(with_finders(g), 0, g.size - 8, 7, g.size - 1),
{
    let n = g.size;
    let a1 = with_finder(g, 0, 0);
    lemma_paint_finder(g, 0, 0);
    let a2 = with_separator(a1, 0, 7, 7, 7);
    lemma_paint_rect(a1, 0, 7, 7, 7, false);
    let a3 = with_separator(a2, 7, 0, 7, 7);
    lemma_paint_rect(a2, 7, 0, 7, 7, false);
    assert(covered(a3, 0, 0, 7, 7));
    assert(painted(g, a3));
    let b1 = with_finder(a3, n - 7, 0);
    lemma_paint_finder(a3, n - 7, 0);
    let b2 = with_separator(b1, n - 8, 7, n - 1, 7);
    lemma_paint_rect(b1, n - 8, 7, n - 1, 7, false);
    let b3 = with_separator(b2, n - 8, 0, n - 8, 7);
    lemma_paint_rect(b2, n - 8, 0, n - 8, 7, false);
    assert(covered(b3, 0, 0, 7, 7));
    assert(covered(b3, n - 8, 0, n - 1, 7));
    assert(painted(g, b3));
    let c1 = with_finder(b3, 0, n - 7);
    lemma_paint_finder(b3, 0, n - 7);
    let c2 = with_separator(c1, 0, n - 8, 7, n - 8);
    lemma_paint_rect(c1, 0, n - 8, 7, n - 8, false);
    let c3 = with_separator(c2, 7, n - 8, 7, n - 1);
    lemma_paint_rect(c2, 7, n - 8, 7, n - 1, false);
    assert(c3 == with_finders(g));
    assert(covered(c3, 0, 0, 7, 7));
    assert(covered(c3, n - 8, 0, n - 1, 7));
    assert(covered(c3, 0, n - 8, 7, n - 1));
    assert(painted(g, c3));
}

/// An alignment pattern changes no module that was set before, and turns no
/// module into anything but a function module.
pub proof fn lemma_paint_alignment(g: Grid, cx: int, cy: int)
    requires
        g.wf(),
        2 <= cx,
        cx + 2 < g.size,
        2 <= cy,
        cy + 2 < g.size,
    ensures
        painted(g, with_alignment(g, cx, cy)),
        kept(g, with_alignment(g, cx, cy)),
{
    if !g.any_in_rect(cx - 2, cy - 2, cx + 2, cy + 2) {
        let a = g.set_square(cx - 2, cy - 2, 5, Module::Function(true));
        lemma_paint_rect(g, cx - 2, cy - 2, cx + 2, cy + 2, true);
        lemma_paint_outline(a, cx - 1, cy - 1, 3, false);
        let h = with_alignment(g, cx, cy);
        assert forall|x: int, y: int| g.on(x, y) && g.at(x, y) != Module::Unknown implies #[trigger] h.at(
            x,
            y,
        ) == g.at(x, y) by {
            assert(!(cx - 2 <= x <= cx + 2 && cy - 2 <= y <= cy + 2));
            assert(h.at(x, y) == a.at(x, y));
        }
    }
}

/// The alignment patterns change no module that was set before, and turn no
/// module into anything but a function module.
pub proof fn lemma_paint_alignments_upto(g: Grid, v: int, i: int, j: int)
    requires
        g.wf(),
        1 <= v <= 40,
        g.size == 21 + 4 * (v - 1),
        0 <= i,
        0 <= j <= alignment_count(v),
        i < alignment_count(v) || j == 0,
        i <= alignment_count(v),
    ensures
        painted(g, with_alignments_upto(g, v, i, j)),
        kept(g, with_alignments_upto(g, v, i, j)),
    decreases i, j,
{
    if j > 0 {
        lemma_paint_alignments_upto(g, v, i, j - 1);
        lemma_alignment_centers(v, i);
        lemma_alignment_centers(v, j - 1);
        let h = with_alignments_upto(g, v, i, j - 1);
        lemma_paint_alignment(h, alignment_center(v, i), alignment_center(v, j - 1));
        let r = with_alignments_upto(g, v, i, j);
        assert forall|a: int, b: int| g.on(a, b) && g.at(a, b) != Module::Unknown implies #[trigger] r.at(
            a,
            b,
        ) == g.at(a, b) by {
            assert(h.at(a, b) == g.at(a, b));
        }
    } else if i > 0 {
        lemma_paint_alignments_upto(g, v, i - 1, alignment_count(v));
    }
}

/// The alignment patterns of a version change no module that was set before:
/// none of them overlaps a finder pattern, or anything else that was there.
pub proof fn lemma_paint_alignments(g: Grid, v: int)
    requires
        g.wf(),
        1 <= v <= 40,
        g.size == 21 + 4 * (v - 1),
    ensures
        painted(g, with_alignments(g, v)),
        kept(g, with_alignments(g, v)),
{
    if alignment_count(v) > 0 {
        lemma_alignment_centers(v, 0);
    } else {
        reveal(alignment_count);
    }
    lemma_paint_alignments_upto(g, v, alignment_count(v), 0);
}

/// The timing patterns cover row 6 and column 6 between the finders and turn
/// no module into anything but a function module.
pub proof fn lemma_paint_timing_upto(g: Grid, k: int)
    requires
        g.wf(),
        6 <= k <= g.size,
    ensures
        painted(g, with_timing_upto(g, k)),
        covered(with_timing_upto(g, k), 6, 6, 6, k - 1),
        covered(with_timing_upto(g, k), 6, 6, k - 1, 6),
    decreases k,
{
    if k > 6 {
        lemma_paint_timing_upto(g, k - 1);
        let h = with_timing_upto(g, k - 1);
        let h1 = h.set(k - 1, 6, timing(k - 1));
        let h2 = h1.set(6, k - 1, timing(k - 1));
        lemma_set_at(h, k - 1, 6, timing(k - 1), 0, 0);
        lemma_set_at(h1, 6, k - 1, timing(k - 1), 0, 0);
        assert forall|a: int, b: int| g.on(a, b) implies #[trigger] h2.at(a, b) == (if (a == k - 1
            && b == 6) || (a == 6 && b == k - 1) {
            timing(k - 1)
        } else {
            h.at(a, b)
        }) by {
            lemma_set_at(h, k - 1, 6, timing(k - 1), a, b);
            lemma_set_at(h1, 6, k - 1, timing(k - 1), a, b);
        }
    }
}

/// The colour of a module of a finder pattern, `ring` modules away from the
/// centre of the pattern: the core and the outer ring are dark, the ring
/// between them is light.
pub open spec fn finder_ring(dx: int, dy: int) -> Module {
    let ring = vstd::math::max(vstd::math::abs(dx) as int, vstd::math::abs(dy) as int);
    Module::Function(ring != 2)
}

/// What the finder patterns and their separators make of a module: in the
/// three corners of eight by eight modules a module of a finder pattern or a
/// light separator module, elsewhere what was there.
pub open spec fn finder_module(g: Grid, a: int, b: int) -> Module {
    let n = g.size;
    if a <= 7 && b <= 7 {
        if a == 7 || b == 7 {
            Module::Function(false)
        } else {
            finder_ring(a - 3, b - 3)
        }
    } else if a >= n - 8 && b <= 7 {
        if a == n - 8 || b == 7 {
            Module::Function(false)
        } else {
            finder_ring(a - (n - 4), b - 3)
        }
    } else if a <= 7 && b >= n - 8 {
        if a == 7 || b == n - 8 {
            Module::Function(false)
        } else {
            finder_ring(a - 3, b - (n - 4))
        }
    } else {
        g.at(a, b)
    }
}

/// The finder patterns and their separators, module by module.
pub proof fn lemma_finders_at(g: Grid)
    requires
        g.wf(),
        21 <= g.size,
    ensures
        with_finders(g).wf(),
        with_finders(g).size == g.size,
        forall|a: int, b: int|
            g.on(a, b) ==> #[trigger] with_finders(g).at(a, b) == finder_module(g, a, b),
{
    let n = g.size;
    let g0 = g;
    let g1 = g0.set_rect(0, 0, 6, 6, Module::Function(true));
    lemma_set_rect_wf(g0, 0, 0, 6, 6, Module::Function(true));
    let g2 = g1.set_rect(1, 1, 5, 1, Module::Function(false));
    lemma_set_rect_wf(g1, 1, 1, 5, 1, Module::Function(false));
    let g3 = g2.set_rect(1, 5, 5, 5, Module::Function(false));
    lemma_set_rect_wf(g2, 1, 5, 5, 5, Module::Function(false));
    let g4 = g3.set_rect(1, 2, 1, 4, Module::Function(false));
    lemma_set_rect_wf(g3, 1, 2, 1, 4, Module::Function(false));
    let g5 = g4.set_rect(5, 2, 5, 4, Module::Function(false));
    lemma_set_rect_wf(g4, 5, 2, 5, 4, Module::Function(false));
    let g6 = g5.set_rect(0, 7, 7, 7, Module::Function(false));
    lemma_set_rect_wf(g5, 0, 7, 7, 7, Module::Function(false));
    let g7 = g6.set_rect(7, 0, 7, 7, Module::Function(false));
    lemma_set_rect_wf(g6, 7, 0, 7, 7, Module::Function(false));
    let g8 = g7.set_rect(n - 7, 0, n - 1, 6, Module::Function(true));
    lemma_set_rect_wf(g7, n - 7, 0, n - 1, 6, Module::Function(true));
    let g9 = g8.set_rect(n - 6, 1, n - 2, 1, Module::Function(false));
    lemma_set_rect_wf(g8, n - 6, 1, n - 2, 1, Module::Function(false));
    let g10 = g9.set_rect(n - 6, 5, n - 2, 5, Module::Function(false));
    lemma_set_rect_wf(g9, n - 6, 5, n - 2, 5, Module::Function(false));
    let g11 = g10.set_rect(n - 6, 2, n - 6, 4, Module::Function(false));
    lemma_set_rect_wf(g10, n - 6, 2, n - 6, 4, Module::Function(false));
    let g12 = g11.set_rect(n - 2, 2, n - 2, 4, Module::Function(false));
    lemma_set_rect_wf(g11, n - 2, 2, n - 2, 4, Module::Function(false));
    let g13 = g12.set_rect(n - 8, 7, n - 1, 7, Module::Function(false));
    lemma_set_rect_wf(g12, n - 8, 7, n - 1, 7, Module::Function(false));
    let g14 = g13.set_rect(n - 8, 0, n - 8, 7, Module::Function(false));
    lemma_set_rect_wf(g13, n - 8, 0, n - 8, 7, Module::Function(false));
    let g15 = g14.set_rect(0, n - 7, 6, n - 1, Module::Function(true));
    lemma_set_rect_wf(g14, 0, n - 7, 6, n - 1, Module::Function(true));
    let g16 = g15.set_rect(1, n - 6, 5, n - 6, Module::Function(false));
    lemma_set_rect_wf(g15, 1, n - 6, 5, n - 6, Module::Function(false));
    let g17 = g16.set_rect(1, n - 2, 5, n - 2, Module::Function(false));
    lemma_set_rect_wf(g16, 1, n - 2, 5, n - 2, Module::Function(false));
    let g18 = g17.set_rect(1, n - 5, 1, n - 3, Module::Function(false));
    lemma_set_rect_wf(g17, 1, n - 5, 1, n - 3, Module::Function(false));
    let g19 = g18.set_rect(5, n - 5, 5, n - 3, Module::Function(false));
    lemma_set_rect_wf(g18, 5, n - 5, 5, n - 3, Module::Function(false));
    let g20 = g19.set_rect(0, n - 8, 7, n - 8, Module::Function(false));
    lemma_set_rect_wf(g19, 0, n - 8, 7, n - 8, Module::Function(false));
    let g21 = g20.set_rect(7, n - 8, 7, n - 1, Module::Function(false));
    lemma_set_rect_wf(g20, 7, n - 8, 7, n - 1, Module::Function(false));
    assert(g21 == with_finders(g));
    assert forall|a: int, b: int| g.on(a, b) implies #[trigger] with_finders(g).at(a, b) == finder_module(g, a, b) by {
        lemma_set_rect_at(g0, 0, 0, 6, 6, Module::Function(true), a, b);
        lemma_set_rect_at(g1, 1, 1, 5, 1, Module::Function(false), a, b);
        lemma_set_rect_at(g2, 1, 5, 5, 5, Module::Function(false), a, b);
        lemma_set_rect_at(g3, 1, 2, 1, 4, Module::Function(false), a, b);
        lemma_set_rect_at(g4, 5, 2, 5, 4, Module::Function(false), a, b);
        lemma_set_rect_at(g5, 0, 7, 7, 7, Module::Function(false), a, b);
        lemma_set_rect_at(g6, 7, 0, 7, 7, Module::Function(false), a, b);
        lemma_set_rect_at(g7, n - 7, 0, n - 1, 6, Module::Function(true), a, b);
        lemma_set_rect_at(g8, n - 6, 1, n - 2, 1, Module::Function(false), a, b);
        lemma_set_rect_at(g9, n - 6, 5, n - 2, 5, Module::Function(false), a, b);
        lemma_set_rect_at(g10, n - 6, 2, n - 6, 4, Module::Function(false), a, b);
        lemma_set_rect_at(g11, n - 2, 2, n - 2, 4, Module::Function(false), a, b);
        lemma_set_rect_at(g12, n - 8, 7, n - 1, 7, Module::Function(false), a, b);
        lemma_set_rect_at(g13, n - 8, 0, n - 8, 7, Module::Function(false), a, b);
        lemma_set_rect_at(g14, 0, n - 7, 6, n - 1, Module::Function(true), a, b);
        lemma_set_rect_at(g15, 1, n - 6, 5, n - 6, Module::Function(false), a, b);
        lemma_set_rect_at(g16, 1, n - 2, 5, n - 2, Module::Function(false), a, b);
        lemma_set_rect_at(g17, 1, n - 5, 1, n - 3, Module::Function(false), a, b);
        lemma_set_rect_at(g18, 5, n - 5, 5, n - 3, Module::Function(false), a, b);
        lemma_set_rect_at(g19, 0, n - 8, 7, n - 8, Module::Function(false), a, b);
        lemma_set_rect_at(g20, 7, n - 8, 7, n - 1, Module::Function(false), a, b);
    }
}

/// What an alignment pattern centred at `(cx, cy)` makes of a module, where
/// the pattern is placed: in its square of five modules a dark module, or a
/// light one in the ring round the centre, elsewhere what was there.
pub open spec fn alignment_module(g: Grid, cx: int, cy: int, a: int, b: int) -> Module {
    if cx - 2 <= a <= cx + 2 && cy - 2 <= b <= cy + 2 {
        let ring = vstd::math::max(vstd::math::abs(a - cx) as int, vstd::math::abs(b - cy) as int);
        Module::Function(ring != 1)
    } else {
        g.at(a, b)
    }
}

/// An alignment pattern, module by module.
pub proof fn lemma_alignment_at(g: Grid, cx: int, cy: int)
    requires
        g.wf(),
        2 <= cx,
        cx + 2 < g.size,
        2 <= cy,
        cy + 2 < g.size,
    ensures
        forall|a: int, b: int|
            g.on(a, b) ==> #[trigger] with_alignment(g, cx, cy).at(a, b) == if g.any_in_rect(
                cx - 2,
                cy - 2,
                cx + 2,
                cy + 2,
            ) {
                g.at(a, b)
            } else {
                alignment_module(g, cx, cy, a, b)
            },
{
    if !g.any_in_rect(cx - 2, cy - 2, cx + 2, cy + 2) {
        let d = Module::Function(true);
        let l = Module::Function(false);
        let g1 = g.set_rect(cx - 2, cy - 2, cx + 2, cy + 2, d);
        lemma_set_rect_wf(g, cx - 2, cy - 2, cx + 2, cy + 2, d);
        let g2 = g1.set_rect(cx - 1, cy - 1, cx + 1, cy - 1, l);
        lemma_set_rect_wf(g1, cx - 1, cy - 1, cx + 1, cy - 1, l);
        let g3 = g2.set_rect(cx - 1, cy + 1, cx + 1, cy + 1, l);
        lemma_set_rect_wf(g2, cx - 1, cy + 1, cx + 1, cy + 1, l);
        let g4 = g3.set_rect(cx - 1, cy, cx - 1, cy, l);
        lemma_set_rect_wf(g3, cx - 1, cy, cx - 1, cy, l);
        let g5 = g4.set_rect(cx + 1, cy, cx + 1, cy, l);
        assert(g5 == with_alignment(g, cx, cy));
        assert forall|a: int, b: int| g.on(a, b) implies #[trigger] with_alignment(g, cx, cy).at(
            a,
            b,
        ) == alignment_module(g, cx, cy, a, b) by {
            lemma_set_rect_at(g, cx - 2, cy - 2, cx + 2, cy + 2, d, a, b);
            lemma_set_rect_at(g1, cx - 1, cy - 1, cx + 1, cy - 1, l, a, b);
            lemma_set_rect_at(g2, cx - 1, cy + 1, cx + 1, cy + 1, l, a, b);
            lemma_set_rect_at(g3, cx - 1, cy, cx - 1, cy, l, a, b);
            lemma_set_rect_at(g4, cx + 1, cy, cx + 1, cy, l, a, b);
        }
    }
}

/// Whether every module on the course of the timing patterns is unknown or
/// has the colour that the timing pattern gives it.
pub open spec fn timing_clear(g: Grid) -> bool {
    forall|a: int, b: int|
        g.on(a, b) && ((b == 6 && 6 <= a <= g.size - 7) || (a == 6 && 6 <= b <= g.size - 7)) ==> {
            let m = #[trigger] g.at(a, b);
            m == Module::Unknown || m == timing(if b == 6 {
                a
            } else {
                b
            })
        }
}

/// An alignment pattern of a symbol leaves the course of the timing patterns
/// clear.
pub proof fn lemma_alignment_keeps_timing(g: Grid, cx: int, cy: int)
    requires
        g.wf(),
        timing_clear(g),
        cx % 2 == 0,
        cy % 2 == 0,
        cx == 6 || cx >= 18,
        cy == 6 || cy >= 18,
        cx + 2 < g.size,
        cy + 2 < g.size,
    ensures
        timing_clear(with_alignment(g, cx, cy)),
{
    lemma_alignment_at(g, cx, cy);
    lemma_paint_alignment(g, cx, cy);
    let h = with_alignment(g, cx, cy);
    assert forall|a: int, b: int|
        h.on(a, b) && ((b == 6 && 6 <= a <= h.size - 7) || (a == 6 && 6 <= b <= h.size - 7)) implies {
        let m = #[trigger] h.at(a, b);
        m == Module::Unknown || m == timing(if b == 6 {
            a
        } else {
            b
        })
    } by {
        let m0 = g.at(a, b);
        assert(m0 == Module::Unknown || m0 == timing(if b == 6 {
            a
        } else {
            b
        }));
    }
}

/// The alignment patterns of a symbol leave the course of the timing patterns
/// clear.
pub proof fn lemma_alignments_keep_timing(g: Grid, v: int, i: int, j: int)
    requires
        g.wf(),
        timing_clear(g),
        1 <= v <= 40,
        g.size == 21 + 4 * (v - 1),
        0 <= i,
        0 <= j <= alignment_count(v),
        i < alignment_count(v) || j == 0,
        i <= alignment_count(v),
    ensures
        timing_clear(with_alignments_upto(g, v, i, j)),
    decreases i, j,
{
    if j > 0 {
        lemma_alignments_keep_timing(g, v, i, j - 1);
        lemma_paint_alignments_upto(g, v, i, j - 1);
        lemma_alignment_centers(v, i);
        lemma_alignment_centers(v, j - 1);
        lemma_alignment_keeps_timing(
            with_alignments_upto(g, v, i, j - 1),
            alignment_center(v, i),
            alignment_center(v, j - 1),
        );
    } else if i > 0 {
        lemma_alignments_keep_timing(g, v, i - 1, alignment_count(v));
    }
}

/// Where the timing patterns of a symbol run over a finder pattern, a
/// separator or an alignment pattern, they give a module the colour that it
/// has already.
pub proof fn lemma_timing_agrees(v: int)
    requires
        1 <= v <= 40,
    ensures
        timing_clear(with_alignments(with_finders(Grid::blank(21 + 4 * (v - 1))), v)),
{
    let n = 21 + 4 * (v - 1);
    let g = Grid::blank(n);
    assert(g.wf()) by {
        assert(n * n >= 0) by (nonlinear_arith)
            requires
                n >= 0,
        ;
    }
    assert forall|a: int, b: int| g.on(a, b) implies #[trigger] g.at(a, b) == Module::Unknown by {
        crate::matrix::lemma_index_bound(n, a, b);
    }
    let f = with_finders(g);
    lemma_finders_at(g);
    assert(timing_clear(f)) by {
        assert forall|a: int, b: int|
            f.on(a, b) && ((b == 6 && 6 <= a <= f.size - 7) || (a == 6 && 6 <= b <= f.size - 7)) implies {
            let m = #[trigger] f.at(a, b);
            m == Module::Unknown || m == timing(if b == 6 {
                a
            } else {
                b
            })
        } by {
            assert(f.at(a, b) == finder_module(g, a, b));
        }
    }
    if alignment_count(v) > 0 {
        lemma_alignment_centers(v, 0);
    } else {
        reveal(alignment_count);
    }
    lemma_alignments_keep_timing(f, v, alignment_count(v), 0);
}

/// Whether a module is reserved for format or version information in a
/// symbol of `n` modules and version `v`.
pub open spec fn in_reserved_zone(n: int, v: int, a: int, b: int) -> bool {
    ||| (b == 8 && (0 <= a <= 5 || a == 7 || a == 8 || n - 8 <= a <= n - 1))
    ||| (a == 8 && (0 <= b <= 5 || b == 7 || n - 7 <= b <= n - 1))
    ||| (v >= 7 && 0 <= a <= 5 && n - 11 <= b <= n - 9)
    ||| (v >= 7 && 0 <= b <= 5 && n - 11 <= a <= n - 9)
}

/// Reserving the areas turns exactly the modules of the reserved zone into
/// reserved modules.
pub proof fn lemma_reserved_at(g: Grid, v: int)
    requires
        g.wf(),
        21 <= g.size,
    ensures
        with_reserved(g, v).wf(),
        with_reserved(g, v).size == g.size,
        forall|a: int, b: int|
            g.on(a, b) ==> #[trigger] with_reserved(g, v).at(a, b) == if in_reserved_zone(
                g.size,
                v,
                a,
                b,
            ) {
                Module::Reserved
            } else {
                g.at(a, b)
            },
{
    let n = g.size;
    let r = Module::Reserved;
    let g1 = with_reserved_rect(g, 0, 8, 5, 8);
    let g2 = with_reserved_rect(g1, 7, 8, 8, 8);
    let g3 = with_reserved_rect(g2, 8, 0, 8, 5);
    let g4 = with_reserved_rect(g3, 8, 7, 8, 7);
    let g5 = with_reserved_rect(g4, n - 8, 8, n - 1, 8);
    let g6 = with_reserved_rect(g5, 8, n - 7, 8, n - 1);
    let g7 = with_reserved_rect(g6, 0, n - 11, 5, n - 9);
    let g8 = with_reserved_rect(g7, n - 11, 0, n - 9, 5);
    lemma_set_rect_at(g, 0, 8, 5, 8, r, 0, 0);
    lemma_set_rect_at(g1, 7, 8, 8, 8, r, 0, 0);
    lemma_set_rect_at(g2, 8, 0, 8, 5, r, 0, 0);
    lemma_set_rect_at(g3, 8, 7, 8, 7, r, 0, 0);
    lemma_set_rect_at(g4, n - 8, 8, n - 1, 8, r, 0, 0);
    lemma_set_rect_at(g5, 8, n - 7, 8, n - 1, r, 0, 0);
    lemma_set_rect_at(g6, 0, n - 11, 5, n - 9, r, 0, 0);
    lemma_set_rect_at(g7, n - 11, 0, n - 9, 5, r, 0, 0);
    assert forall|a: int, b: int| g.on(a, b) implies #[trigger] with_reserved(g, v).at(a, b)
        == if in_reserved_zone(g.size, v, a, b) {
        Module::Reserved
    } else {
        g.at(a, b)
    } by {
        lemma_set_rect_at(g, 0, 8, 5, 8, r, a, b);
        lemma_set_rect_at(g1, 7, 8, 8, 8, r, a, b);
        lemma_set_rect_at(g2, 8, 0, 8, 5, r, a, b);
        lemma_set_rect_at(g3, 8, 7, 8, 7, r, a, b);
        lemma_set_rect_at(g4, n - 8, 8, n - 1, 8, r, a, b);
        lemma_set_rect_at(g5, 8, n - 7, 8, n - 1, r, a, b);
        lemma_set_rect_at(g6, 0, n - 11, 5, n - 9, r, a, b);
        lemma_set_rect_at(g7, n - 11, 0, n - 9, 5, r, a, b);
    }
}

/// The function patterns on an empty grid: the modules of the reserved zone
/// are reserved, every other module is unknown or a function module, and the
/// modules of column 6 and the module in column 5 of row 0 are function
/// modules.
pub proof fn lemma_fun_patterns_at(v: int)
    requires
        1 <= v <= 40,
    ensures
        with_fun_patterns(Grid::blank(21 + 4 * (v - 1)), v).wf(),
        with_fun_patterns(Grid::blank(21 + 4 * (v - 1)), v).size == 21 + 4 * (v - 1),
        forall|a: int, b: int|
            0 <= a < 21 + 4 * (v - 1) && 0 <= b < 21 + 4 * (v - 1) ==> {
                let m = #[trigger] with_fun_patterns(Grid::blank(21 + 4 * (v - 1)), v).at(a, b);
                &&& in_reserved_zone(21 + 4 * (v - 1), v, a, b) ==> m == Module::Reserved
                &&& !in_reserved_zone(21 + 4 * (v - 1), v, a, b) ==> m == Module::Unknown
                    || m is Function
                &&& (a == 6 || (a == 5 && b == 0)) ==> m is Function
            },
{
    let n = 21 + 4 * (v - 1);
    let g = Grid::blank(n);
    assert(g.wf()) by {
        assert(n * n >= 0) by (nonlinear_arith)
            requires
                n >= 0,
        ;
    }
    assert forall|a: int, b: int| g.on(a, b) implies #[trigger] g.at(a, b) == Module::Unknown by {
        crate::matrix::lemma_index_bound(n, a, b);
    }
    let f = with_finders(g);
    lemma_paint_finders(g);
    let al = with_alignments(f, v);
    lemma_paint_alignments(f, v);
    let t = with_timing(al);
    lemma_paint_timing_upto(al, n - 6);
    let d = with_dark_module(t, v);
    lemma_set_at(t, 8, 4 * v + 9, Module::Function(true), 0, 0);
    assert forall|a: int, b: int| g.on(a, b) implies #[trigger] d.at(a, b) == (if a == 8 && b
        == 4 * v + 9 {
        Module::Function(true)
    } else {
        t.at(a, b)
    }) by {
        lemma_set_at(t, 8, 4 * v + 9, Module::Function(true), a, b);
    }
    let r = with_reserved(d, v);
    lemma_reserved_at(d, v);
    assert(r == with_fun_patterns(g, v));
    assert forall|a: int, b: int| 0 <= a < n && 0 <= b < n implies {
        let m = #[trigger] r.at(a, b);
        &&& in_reserved_zone(n, v, a, b) ==> m == Module::Reserved
        &&& !in_reserved_zone(n, v, a, b) ==> m == Module::Unknown || m is Function
        &&& (a == 6 || (a == 5 && b == 0)) ==> m is Function
    } by {
        let m0 = g.at(a, b);
        let m1 = f.at(a, b);
        let m2 = al.at(a, b);
        let m3 = t.at(a, b);
        let m4 = d.at(a, b);
        assert(m1 == m0 || m1 is Function);
        assert(m2 == m1 || m2 is Function);
        assert(m3 == m2 || m3 is Function);
        assert(m4 == m3 || m4 is Function);
        if a == 6 || (a == 5 && b == 0) {
            if b <= 7 {
                assert(m1 is Function);
            } else if b >= n - 8 {
                assert(m1 is Function);
            } else {
                assert(m3 is Function);
            }
        }
    }
}

/// The zig-zag walk stays on the symbol.
pub proof fn lemma_walk_wf(size: usize, k: int)
    requires
        size >= 1,
    ensures
        ZigZagIt::walk(size, k).wf(),
        ZigZagIt::walk(size, k).size == size,
    decreases k,
{
    if k > 0 {
        lemma_walk_wf(size, k - 1);
    }
}

/// Placing data changes no module that was set before, and turns unknown
/// modules into nothing but data modules.
pub proof fn lemma_place_frame(g: Grid, bits: Seq<bool>, k: int)
    requires
        g.wf(),
        1 <= g.size <= 177,
    ensures
        place_upto(g, bits, k).grid.wf(),
        place_upto(g, bits, k).grid.size == g.size,
        kept(g, place_upto(g, bits, k).grid),
        forall|a: int, b: int|
            g.on(a, b) && g.at(a, b) == Module::Unknown ==> {
                let m = #[trigger] place_upto(g, bits, k).grid.at(a, b);
                m == Module::Unknown || m is Data
            },
    decreases k,
{
    if k > 0 {
        lemma_place_frame(g, bits, k - 1);
        lemma_walk_wf(g.size as usize, k - 1);
        let p = place_upto(g, bits, k - 1);
        let at = ZigZagIt::walk(g.size as usize, k - 1);
        let r = place_upto(g, bits, k).grid;
        if at.valid && p.grid.at(at.x as int, at.y as int) == Module::Unknown {
            let v = Module::Data(crate::layout::next_bit(bits, p.used));
            lemma_set_at(p.grid, at.x as int, at.y as int, v, 0, 0);
            assert forall|a: int, b: int| g.on(a, b) implies #[trigger] r.at(a, b) == (if a
                == at.x && b == at.y {
                v
            } else {
                p.grid.at(a, b)
            }) by {
                lemma_set_at(p.grid, at.x as int, at.y as int, v, a, b);
            }
            assert forall|a: int, b: int|
                g.on(a, b) && g.at(a, b) != Module::Unknown implies #[trigger] r.at(a, b) == g.at(
                a,
                b,
            ) by {
                assert(p.grid.at(a, b) == g.at(a, b));
            }
            assert forall|a: int, b: int| g.on(a, b) && g.at(a, b) == Module::Unknown implies {
                let m = #[trigger] r.at(a, b);
                m == Module::Unknown || m is Data
            } by {
                let m0 = p.grid.at(a, b);
                assert(m0 == Module::Unknown || m0 is Data);
            }
        }
    }
}

/// Writing function modules at some places turns those places into function
/// modules and changes nothing else.
pub proof fn lemma_spots_at(g: Grid, bits: Seq<bool>, spots: Seq<(usize, usize)>, k: int)
    requires
        g.wf(),
        0 <= k <= spots.len(),
        forall|i: int| 0 <= i < spots.len() ==> g.on((#[trigger] spots[i]).0 as int, spots[i].1 as int),
    ensures
        painted(g, with_spots_upto(g, bits, spots, k)),
        forall|i: int|
            0 <= i < k ==> with_spots_upto(g, bits, spots, k).at(
                (#[trigger] spots[i]).0 as int,
                spots[i].1 as int,
            ) is Function,
    decreases k,
{
    if k > 0 {
        lemma_spots_at(g, bits, spots, k - 1);
        let h = with_spots_upto(g, bits, spots, k - 1);
        let spot = spots[k - 1];
        let v = Module::Function(bits[k - 1]);
        let r = with_spots_upto(g, bits, spots, k);
        assert(g.on(spot.0 as int, spot.1 as int));
        lemma_set_at(h, spot.0 as int, spot.1 as int, v, spot.0 as int, spot.1 as int);
        assert forall|a: int, b: int| g.on(a, b) implies #[trigger] r.at(a, b) == (if a == spot.0
            && b == spot.1 {
            v
        } else {
            h.at(a, b)
        }) by {
            lemma_set_at(h, spot.0 as int, spot.1 as int, v, a, b);
        }
        assert forall|a: int, b: int| g.on(a, b) implies #[trigger] r.at(a, b) == g.at(a, b)
            || r.at(a, b) is Function by {
            let m = h.at(a, b);
            assert(m == g.at(a, b) || m is Function);
        }
        assert forall|i: int| 0 <= i < k implies r.at(
            (#[trigger] spots[i]).0 as int,
            spots[i].1 as int,
        ) is Function by {
            assert(g.on(spots[i].0 as int, spots[i].1 as int));
            if i < k - 1 {
                assert(h.at(spots[i].0 as int, spots[i].1 as int) is Function);
            }
        }
    }
}

} // verus!
