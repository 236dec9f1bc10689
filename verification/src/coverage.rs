//! The zig-zag walk reaches every module of a symbol but those of the
//! vertical timing column and one module of the top left finder, so that a
//! finished symbol holds function and data modules only.
use crate::frame::{
    in_reserved_zone, lemma_fun_patterns_at, lemma_place_frame, lemma_spots_at, lemma_walk_wf, painted,
};
use crate::layout::{
    format_spots_a, format_spots_b, next_bit, place_upto, placed, version_spots_a, version_spots_b, walk_bound, with_format, with_fun_patterns, with_spots_upto,
};
use crate::mask::{lemma_masked_at, masked};
use crate::matrix::{lemma_set_at, Grid, Module};
use crate::bits::int_bits;
use crate::builder::with_info;
use crate::ec_level::ECLevel;
use crate::info::{format_value, version_value};
use crate::version::size_of;
use crate::zigzag::ZigZagIt;
use vstd::prelude::*;

verus! {

/// The right column of the strip that the walk is in.
pub open spec fn right_column(st: ZigZagIt) -> int {
    if st.horizontal_next {
        st.x as int
    } else {
        st.x + 1
    }
}

/// What holds of the walk over a symbol at every step: right of the timing
/// column the right module of a strip lies in an even column, left of it in
/// an odd one; the walk is in the timing column only at the top, as it turns
/// down; and the strips are walked up and down in turn, the first one up.
pub open spec fn on_course(st: ZigZagIt) -> bool {
    let n = st.size as int;
    let x = st.x as int;
    let r = right_column(st);
    &&& n >= 9
    &&& n % 4 == 1
    &&& st.valid ==> {
        &&& x < n
        &&& st.y < n
        &&& (x >= 7 ==> (st.horizontal_next <==> x % 2 == 0))
        &&& (x <= 5 ==> (st.horizontal_next <==> x % 2 == 1))
        &&& (x == 6 ==> st.horizontal_next && !st.upwards && st.y == 0)
        &&& (r >= 7 ==> (st.upwards <==> (n - 1 - r) % 4 == 0))
        &&& (r <= 5 ==> (st.upwards <==> r == 3))
    }
}

/// Whether the walk has been on a module before the step it is at.
pub open spec fn passed(st: ZigZagIt, a: int, b: int) -> bool {
    !st.valid || {
        let r = right_column(st);
        ||| a > r
        ||| ((a == r || a == r - 1) && (if st.upwards {
            b > st.y
        } else {
            b < st.y
        }))
        ||| (!st.horizontal_next && a == r && b == st.y)
    }
}

/// The modules that the walk reaches: all but the timing column and the
/// module in column 5 of row 0.
pub open spec fn reached(n: int, a: int, b: int) -> bool {
    0 <= a < n && 0 <= b < n && a != 6 && !(a == 5 && b == 0)
}

/// A step keeps the walk on course.
pub proof fn lemma_course_step(st: ZigZagIt)
    requires
        on_course(st),
        st.valid,
    ensures
        on_course(st.stepped()),
        st.wf(),
{
}

/// A module that the walk has passed after a step had been passed before
/// the step, or is the module that the walk stepped from.
pub proof fn lemma_passed_step(st: ZigZagIt, a: int, b: int)
    requires
        on_course(st),
        st.valid,
        reached(st.size as int, a, b),
        passed(st.stepped(), a, b),
    ensures
        passed(st, a, b) || (a == st.x && b == st.y),
{
}

/// The walk over a symbol is on course at every step.
pub proof fn lemma_on_course(size: usize, k: int)
    requires
        size >= 9,
        size % 4 == 1,
    ensures
        on_course(ZigZagIt::walk(size, k)),
        ZigZagIt::walk(size, k).size == size,
    decreases k,
{
    if k > 0 {
        lemma_on_course(size, k - 1);
        if ZigZagIt::walk(size, k - 1).valid {
            lemma_course_step(ZigZagIt::walk(size, k - 1));
        }
    }
}

/// Every step brings the walk nearer to its end.
pub proof fn lemma_steps_fall(st: ZigZagIt)
    requires
        st.wf(),
        st.valid,
    ensures
        0 <= st.stepped().steps_left() < st.steps_left(),
{
    let n = st.size as int;
    let w = 2 * n + 2;
    let a = right_column(st);
    let t = st.stepped();
    let b = right_column(t);
    assert(0 <= a * w) by (nonlinear_arith)
        requires
            0 <= a,
            0 <= w,
    ;
    if t.valid {
        assert(0 <= b * w) by (nonlinear_arith)
            requires
                0 <= b,
                0 <= w,
        ;
        if st.horizontal_next || !st.at_edge() {
            assert(b <= a);
            assert(b * w <= a * w) by (nonlinear_arith)
                requires
                    b <= a,
                    0 <= w,
            ;
        } else {
            assert(b + 1 <= a);
            assert(b * w + w <= a * w) by (nonlinear_arith)
                requires
                    b + 1 <= a,
                    0 <= w,
            ;
        }
    }
}

/// The walk has ended after as many steps as were left at its start.
pub proof fn lemma_walk_ends(size: usize, k: int)
    requires
        size >= 1,
        0 <= k,
    ensures
        ZigZagIt::walk(size, k).valid ==> k + ZigZagIt::walk(size, k).steps_left() <= walk_bound(
            size as int,
        ),
        k >= walk_bound(size as int) ==> !ZigZagIt::walk(size, k).valid,
    decreases k,
{
    lemma_walk_wf(size, k);
    if k > 0 {
        lemma_walk_ends(size, k - 1);
        lemma_walk_wf(size, k - 1);
        let st = ZigZagIt::walk(size, k - 1);
        if st.valid {
            lemma_steps_fall(st);
        }
    }
    let now = ZigZagIt::walk(size, k);
    if now.valid {
        let r = right_column(now);
        assert(0 <= r * (2 * size + 2)) by (nonlinear_arith)
            requires
                0 <= r,
                0 <= size,
        ;
    }
}

/// Every module that the walk has passed is set.
pub proof fn lemma_passed_are_set(g: Grid, bits: Seq<bool>, k: int)
    requires
        g.wf(),
        9 <= g.size <= 177,
        g.size % 4 == 1,
        0 <= k,
    ensures
        forall|a: int, b: int|
            reached(g.size, a, b) && passed(ZigZagIt::walk(g.size as usize, k), a, b)
                ==> #[trigger] place_upto(g, bits, k).grid.at(a, b) != Module::Unknown,
    decreases k,
{
    let n = g.size;
    if k > 0 {
        lemma_passed_are_set(g, bits, k - 1);
        lemma_on_course(n as usize, k - 1);
        lemma_place_frame(g, bits, k - 1);
        let st = ZigZagIt::walk(n as usize, k - 1);
        let p = place_upto(g, bits, k - 1);
        let q = place_upto(g, bits, k).grid;
        if st.valid {
            lemma_course_step(st);
            let v = Module::Data(next_bit(bits, p.used));
            assert forall|a: int, b: int|
                reached(n, a, b) && passed(ZigZagIt::walk(n as usize, k), a, b) implies #[trigger] q.at(
                a,
                b,
            ) != Module::Unknown by {
                lemma_passed_step(st, a, b);
                lemma_set_at(p.grid, st.x as int, st.y as int, v, a, b);
                if passed(st, a, b) {
                    assert(p.grid.at(a, b) != Module::Unknown);
                }
            }
        } else {
            assert forall|a: int, b: int|
                reached(n, a, b) && passed(ZigZagIt::walk(n as usize, k), a, b) implies #[trigger] q.at(
                a,
                b,
            ) != Module::Unknown by {
                assert(p.grid.at(a, b) != Module::Unknown);
            }
        }
    } else {
        let st = ZigZagIt::walk(n as usize, 0);
        assert forall|a: int, b: int| reached(n, a, b) && passed(st, a, b) implies #[trigger] place_upto(
            g,
            bits,
            k,
        ).grid.at(a, b) != Module::Unknown by {
            assert(!passed(st, a, b));
        }
    }
}

/// After the walk every module that it reaches is set.
pub proof fn lemma_reached_are_set(g: Grid, bits: Seq<bool>)
    requires
        g.wf(),
        9 <= g.size <= 177,
        g.size % 4 == 1,
    ensures
        forall|a: int, b: int|
            reached(g.size, a, b) ==> #[trigger] placed(g, bits).grid.at(a, b) != Module::Unknown,
{
    let n = g.size;
    let k = walk_bound(n);
    assert(0 <= (n - 1) * (2 * n + 2)) by (nonlinear_arith)
        requires
            n >= 1,
    ;
    lemma_walk_ends(n as usize, k);
    lemma_passed_are_set(g, bits, k);
}

/// A symbol with function patterns and data holds no unknown module, and
/// reserved modules in the reserved zone only.
pub proof fn lemma_data_grid_at(v: int, bits: Seq<bool>, m: int)
    requires
        1 <= v <= 40,
    ensures
        ({
            let n = size_of(v);
            let q = masked(placed(with_fun_patterns(Grid::blank(n), v), bits).grid, m);
            &&& q.wf()
            &&& q.size == n
            &&& forall|a: int, b: int|
                0 <= a < n && 0 <= b < n ==> if in_reserved_zone(n, v, a, b) {
                    #[trigger] q.at(a, b) == Module::Reserved
                } else {
                    q.at(a, b).settled()
                }
        }),
{
    let n = size_of(v);
    let f = with_fun_patterns(Grid::blank(n), v);
    lemma_fun_patterns_at(v);
    let p = placed(f, bits).grid;
    lemma_place_frame(f, bits, walk_bound(n));
    lemma_reached_are_set(f, bits);
    let q = masked(p, m);
    lemma_masked_at(p, m);
    assert forall|a: int, b: int| 0 <= a < n && 0 <= b < n implies if in_reserved_zone(
        n,
        v,
        a,
        b,
    ) {
        #[trigger] q.at(a, b) == Module::Reserved
    } else {
        q.at(a, b).settled()
    } by {
        let m0 = f.at(a, b);
        let m1 = p.at(a, b);
        if m0 != Module::Unknown {
            assert(m1 == m0);
        } else {
            assert(reached(n, a, b));
            assert(m1 != Module::Unknown);
            assert(m1 == Module::Unknown || m1 is Data);
        }
    }
}

/// Writing the format and version information turns every module of the
/// reserved zone into a function module and no module into anything else.
pub proof fn lemma_info_at(q: Grid, v: int, e: ECLevel, m: int)
    requires
        q.wf(),
        1 <= v <= 40,
        q.size == size_of(v),
    ensures
        painted(q, with_info(q, v, e, m)),
        forall|a: int, b: int|
            q.on(a, b) && in_reserved_zone(q.size, v, a, b) ==> (#[trigger] with_info(
                q,
                v,
                e,
                m,
            ).at(a, b)) is Function,
{
    let n = q.size;
    let fbits = int_bits(format_value(e, m), 15);
    let sa = format_spots_a();
    let sb = format_spots_b(n);
    let fa = with_spots_upto(q, fbits, sa, 15);
    lemma_spots_at(q, fbits, sa, 15);
    let fb = with_spots_upto(fa, fbits, sb, 15);
    lemma_spots_at(fa, fbits, sb, 15);
    assert(fb == with_format(q, fbits));
    assert(painted(q, fb));
    assert forall|a: int, b: int|
        q.on(a, b) && in_reserved_zone(n, 0, a, b) implies (#[trigger] fb.at(a, b)) is Function by {
        if b == 8 && 0 <= a <= 5 {
            assert(sa[a] == (a as usize, b as usize));
            assert(fa.at(a, b) is Function);
        } else if b == 8 && a == 7 {
            assert(sa[6] == (a as usize, b as usize));
            assert(fa.at(a, b) is Function);
        } else if b == 8 && a == 8 {
            assert(sa[7] == (a as usize, b as usize));
            assert(fa.at(a, b) is Function);
        } else if a == 8 && b == 7 {
            assert(sa[8] == (a as usize, b as usize));
            assert(fa.at(a, b) is Function);
        } else if a == 8 && 0 <= b <= 5 {
            assert(sa[14 - b] == (a as usize, b as usize));
            assert(fa.at(a, b) is Function);
        } else if a == 8 {
            assert(sb[n - 1 - b] == (a as usize, b as usize));
        } else {
            assert(sb[a - n + 15] == (a as usize, b as usize));
        }
    }
    if v >= 7 {
        let vbits = int_bits(version_value(v), 18).reverse();
        let ta = version_spots_a(n);
        let tb = version_spots_b(n);
        let va = with_spots_upto(fb, vbits, ta, 18);
        lemma_spots_at(fb, vbits, ta, 18);
        let vb = with_spots_upto(va, vbits, tb, 18);
        lemma_spots_at(va, vbits, tb, 18);
        assert(vb == with_info(q, v, e, m));
        assert(painted(q, vb));
        assert forall|a: int, b: int| q.on(a, b) && in_reserved_zone(n, v, a, b) implies (#[trigger] vb.at(
            a,
            b,
        )) is Function by {
            if in_reserved_zone(n, 0, a, b) {
                assert(fb.at(a, b) is Function);
                assert(va.at(a, b) is Function);
            } else if 0 <= a <= 5 {
                let i = 3 * a + (b - (n - 11));
                assert(ta[i] == (a as usize, b as usize));
                assert(va.at(a, b) is Function);
            } else {
                let i = 3 * b + (a - (n - 11));
                assert(tb[i] == (a as usize, b as usize));
            }
        }
    } else {
        assert forall|a: int, b: int| q.on(a, b) && in_reserved_zone(n, v, a, b) implies (#[trigger] fb.at(
            a,
            b,
        )) is Function by {
            assert(in_reserved_zone(n, 0, a, b));
        }
    }
}

/// A finished symbol holds function and data modules only: no module is left
/// unknown, and none reserved.
pub proof fn lemma_finished_is_complete(v: int, e: ECLevel, bits: Seq<bool>, m: int)
    requires
        1 <= v <= 40,
    ensures
        with_info(
            masked(placed(with_fun_patterns(Grid::blank(size_of(v)), v), bits).grid, m),
            v,
            e,
            m,
        ).complete(),
        with_info(
            masked(placed(with_fun_patterns(Grid::blank(size_of(v)), v), bits).grid, m),
            v,
            e,
            m,
        ).wf(),
{
    let n = size_of(v);
    let q = masked(placed(with_fun_patterns(Grid::blank(n), v), bits).grid, m);
    lemma_data_grid_at(v, bits, m);
    let r = with_info(q, v, e, m);
    lemma_info_at(q, v, e, m);
    assert forall|k: int| 0 <= k < r.cells.len() implies (#[trigger] r.cells[k]).settled() by {
        let a = k % n;
        let b = k / n;
        vstd::arithmetic::div_mod::lemma_fundamental_div_mod(k, n);
        vstd::arithmetic::div_mod::lemma_mod_bound(k, n);
        assert(0 <= b < n) by (nonlinear_arith)
            requires
                0 <= k < n * n,
                k == n * b + a,
                0 <= a < n,
                n > 0,
        ;
        assert(n * b + a == b * n + a) by (nonlinear_arith);
        assert(r.at(a, b) == r.cells[k]);
        let c = q.at(a, b);
        assert(r.at(a, b) == c || r.at(a, b) is Function);
    }
}

} // verus!
