//! The layout of a symbol: the function patterns, the placement of the data
//! bits along the zig-zag walk, and the format and version information.
use crate::bits::BitVec;
use crate::matrix::{Grid, Matrix, Module};
use crate::tables::{
    alignment_center, alignment_center_lookup, alignment_count, alignment_count_lookup,
    lemma_alignment_centers,
};
use crate::version::{size_of, Version};
use crate::zigzag::ZigZagIt;
use vstd::prelude::*;

verus! {

/// A grid with a finder pattern whose top left corner is `(x, y)`: a dark
/// square of seven modules with a light outline of five modules in it, which
/// leaves a dark core of three modules.
pub open spec fn with_finder(g: Grid, x: int, y: int) -> Grid {
    g.set_square(x, y, 7, Module::Function(true)).set_square_outline(
        x + 1,
        y + 1,
        5,
        Module::Function(false),
    )
}

/// A grid with a light rectangle that separates a finder from its
/// surroundings.
pub open spec fn with_separator(g: Grid, x0: int, y0: int, x1: int, y1: int) -> Grid {
    g.set_rect(x0, y0, x1, y1, Module::Function(false))
}

/// A grid with the three finder patterns and their separators: top left, top
/// right, bottom left.
pub open spec fn with_finders(g: Grid) -> Grid {
    let n = g.size;
    let a = with_separator(with_separator(with_finder(g, 0, 0), 0, 7, 7, 7), 7, 0, 7, 7);
    let b = with_separator(
        with_separator(with_finder(a, n - 7, 0), n - 8, 7, n - 1, 7),
        n - 8,
        0,
        n - 8,
        7,
    );
    with_separator(with_separator(with_finder(b, 0, n - 7), 0, n - 8, 7, n - 8), 7, n - 8, 7, n - 1)
}

/// A grid with an alignment pattern centred at `(cx, cy)`: a dark square of
/// five modules with a light outline of three modules in it, which leaves
/// the centre dark. Where the square would cover a module that is already
/// set, the grid stays as it is.
pub open spec fn with_alignment(g: Grid, cx: int, cy: int) -> Grid {
    if g.any_in_rect(cx - 2, cy - 2, cx + 2, cy + 2) {
        g
    } else {
        g.set_square(cx - 2, cy - 2, 5, Module::Function(true)).set_square_outline(
            cx - 1,
            cy - 1,
            3,
            Module::Function(false),
        )
    }
}

/// A grid after the alignment patterns that come before the pair `(i, j)` of
/// centre coordinates have been tried: the pairs are taken column by column,
/// and within a column row by row.
pub open spec fn with_alignments_upto(g: Grid, v: int, i: int, j: int) -> Grid
    decreases i, j,
{
    if i < 0 || j < 0 {
        g
    } else if j > 0 {
        with_alignment(
            with_alignments_upto(g, v, i, j - 1),
            alignment_center(v, i),
            alignment_center(v, j - 1),
        )
    } else if i > 0 && alignment_count(v) >= 0 {
        with_alignments_upto(g, v, i - 1, alignment_count(v))
    } else {
        g
    }
}

/// A grid with the alignment patterns of version `v`.
pub open spec fn with_alignments(g: Grid, v: int) -> Grid {
    with_alignments_upto(g, v, alignment_count(v), 0)
}

/// The colour of the timing pattern at position `i`: dark at even positions.
pub open spec fn timing(i: int) -> Module {
    Module::Function(i % 2 == 0)
}

/// A grid with the timing patterns up to position `k`: row 6 and column 6,
/// from position 6 on.
pub open spec fn with_timing_upto(g: Grid, k: int) -> Grid
    decreases k,
{
    if k <= 6 {
        g
    } else {
        with_timing_upto(g, k - 1).set(k - 1, 6, timing(k - 1)).set(6, k - 1, timing(k - 1))
    }
}

/// A grid with the two timing patterns, which end six modules before the far
/// edge.
pub open spec fn with_timing(g: Grid) -> Grid {
    with_timing_upto(g, g.size - 6)
}

/// A grid with the dark module of version `v`.
pub open spec fn with_dark_module(g: Grid, v: int) -> Grid {
    g.set(8, 4 * v + 9, Module::Function(true))
}

/// A grid with a rectangle reserved.
pub open spec fn with_reserved_rect(g: Grid, x0: int, y0: int, x1: int, y1: int) -> Grid {
    g.set_rect(x0, y0, x1, y1, Module::Reserved)
}

/// A grid with the modules reserved that will hold the format information
/// and, from version 7 on, the version information.
pub open spec fn with_reserved(g: Grid, v: int) -> Grid {
    let n = g.size;
    let a = with_reserved_rect(
        with_reserved_rect(
            with_reserved_rect(with_reserved_rect(g, 0, 8, 5, 8), 7, 8, 8, 8),
            8,
            0,
            8,
            5,
        ),
        8,
        7,
        8,
        7,
    );
    let b = with_reserved_rect(
        with_reserved_rect(a, n - 8, 8, n - 1, 8),
        8,
        n - 7,
        8,
        n - 1,
    );
    if v >= 7 {
        with_reserved_rect(
            with_reserved_rect(b, 0, n - 11, 5, n - 9),
            n - 11,
            0,
            n - 9,
            5,
        )
    } else {
        b
    }
}

/// A grid with all function patterns of version `v`: finders, alignment
/// patterns, timing patterns, dark module and reserved areas, in this order.
pub open spec fn with_fun_patterns(g: Grid, v: int) -> Grid {
    with_reserved(with_dark_module(with_timing(with_alignments(with_finders(g), v)), v), v)
}

/// Whether a matrix has the size of a symbol: 21 to 177 modules, which all
/// versions have.
pub open spec fn symbol_sized(m: &Matrix) -> bool {
    m.wf() && 21 <= m.size <= 177
}

/// Adds a finder pattern; x and y specify the top left corner.
pub fn add_finder(m: &mut Matrix, x: usize, y: usize)
    requires
        old(m).wf(),
        x + 7 <= old(m).size,
        y + 7 <= old(m).size,
    ensures
        final(m).wf(),
        final(m).size == old(m).size,
        final(m)@ == with_finder(old(m)@, x as int, y as int),
{
    m.set_square(x, y, 7, Module::Function(true));
    m.set_square_outline(x + 1, y + 1, 5, Module::Function(false));
}

/// Adds a light rectangle that separates a finder from its surroundings.
pub fn add_separator(m: &mut Matrix, x0: usize, y0: usize, x1: usize, y1: usize)
    requires
        old(m).wf(),
        x1 < old(m).size,
        y1 < old(m).size,
    ensures
        final(m).wf(),
        final(m).size == old(m).size,
        final(m)@ == with_separator(old(m)@, x0 as int, y0 as int, x1 as int, y1 as int),
{
    m.set_rect(x0, y0, x1, y1, Module::Function(false));
}

/// Adds the three finder patterns and their separators.
pub fn add_finders(m: &mut Matrix)
    requires
        symbol_sized(old(m)),
    ensures
        symbol_sized(final(m)),
        final(m).size == old(m).size,
        final(m)@ == with_finders(old(m)@),
{
    let size: usize = m.size;

    add_finder(m, 0, 0);
    add_separator(m, 0, 7, 7, 7);
    add_separator(m, 7, 0, 7, 7);

    add_finder(m, size - 7, 0);
    add_separator(m, size - 8, 7, size - 1, 7);
    add_separator(m, size - 8, 0, size - 8, 7);

    add_finder(m, 0, size - 7);
    add_separator(m, 0, size - 8, 7, size - 8);
    add_separator(m, 7, size - 8, 7, size - 1);
}

/// Adds an alignment pattern unless it would cover a module that is already
/// set; x and y specify the center point. No module that was set before is
/// changed.
pub fn try_add_alignment(m: &mut Matrix, cx: usize, cy: usize)
    requires
        old(m).wf(),
        2 <= cx,
        cx + 2 < old(m).size,
        2 <= cy,
        cy + 2 < old(m).size,
    ensures
        final(m).wf(),
        final(m).size == old(m).size,
        final(m)@ == with_alignment(old(m)@, cx as int, cy as int),
        crate::frame::kept(old(m)@, final(m)@),
{
    proof {
        crate::frame::lemma_paint_alignment(old(m)@, cx as int, cy as int);
    }
    let x: usize = cx - 2;
    let y: usize = cy - 2;
    if !m.any_in_square(x, y, 5) {
        m.set_square(x, y, 5, Module::Function(true));
        m.set_square_outline(x + 1, y + 1, 3, Module::Function(false));
    }
}

/// Tries an alignment pattern at every pair of the version's centre
/// coordinates. No module that was set before is changed, so that no
/// alignment pattern intersects a finder pattern.
pub fn add_alignments(m: &mut Matrix, v: Version)
    requires
        old(m).wf(),
        v.wf(),
        old(m).size == size_of(v.0 as int),
    ensures
        final(m).wf(),
        final(m).size == old(m).size,
        final(m)@ == with_alignments(old(m)@, v.0 as int),
        crate::frame::kept(old(m)@, final(m)@),
{
    proof {
        crate::frame::lemma_paint_alignments(old(m)@, v.0 as int);
    }
    let count: usize = alignment_count_lookup(v.0);
    let mut i: usize = 0;
    proof {
        if count > 0 {
            lemma_alignment_centers(v.0 as int, 0);
        }
    }
    while i < count
        invariant
            m.wf(),
            v.wf(),
            m.size == old(m).size == size_of(v.0 as int),
            count == alignment_count(v.0 as int),
            i <= count <= 7,
            m@ == with_alignments_upto(old(m)@, v.0 as int, i as int, 0),
        decreases count - i,
    {
        let cx: usize = alignment_center_lookup(v.0, i);
        proof {
            lemma_alignment_centers(v.0 as int, i as int);
        }
        let mut j: usize = 0;
        while j < count
            invariant
                m.wf(),
                v.wf(),
                m.size == old(m).size == size_of(v.0 as int),
                count == alignment_count(v.0 as int),
                i < count <= 7,
                j <= count,
                cx == alignment_center(v.0 as int, i as int),
                6 <= cx <= m.size - 7,
                m@ == with_alignments_upto(old(m)@, v.0 as int, i as int, j as int),
            decreases count - j,
        {
            let cy: usize = alignment_center_lookup(v.0, j);
            proof {
                lemma_alignment_centers(v.0 as int, j as int);
            }
            try_add_alignment(m, cx, cy);
            j = j + 1;
        }
        i = i + 1;
    }
}

/// Sets one module of a timing pattern.
pub fn set_timing(m: &mut Matrix, x: usize, y: usize, v: bool)
    requires
        old(m).wf(),
        x < old(m).size,
        y < old(m).size,
    ensures
        final(m).wf(),
        final(m).size == old(m).size,
        final(m)@ == old(m)@.set(x as int, y as int, Module::Function(v)),
{
    m.set(x, y, Module::Function(v));
}

/// Adds the timing patterns: row 6 and column 6, dark and light in turn.
pub fn add_timing_patterns(m: &mut Matrix)
    requires
        symbol_sized(old(m)),
    ensures
        symbol_sized(final(m)),
        final(m).size == old(m).size,
        final(m)@ == with_timing(old(m)@),
{
    let offset: usize = 6;
    let end: usize = m.size - offset;
    let mut i: usize = offset;
    while i < end
        invariant
            symbol_sized(m),
            m.size == old(m).size,
            offset == 6,
            end == m.size - 6,
            6 <= i <= end,
            m@ == with_timing_upto(old(m)@, i as int),
        decreases end - i,
    {
        let v: bool = i % 2 == 0;
        set_timing(m, i, offset, v);
        set_timing(m, offset, i, v);
        i = i + 1;
    }
}

/// Adds the dark module.
pub fn add_dark_module(m: &mut Matrix, v: Version)
    requires
        old(m).wf(),
        v.wf(),
        old(m).size == size_of(v.0 as int),
    ensures
        final(m).wf(),
        final(m).size == old(m).size,
        final(m)@ == with_dark_module(old(m)@, v.0 as int),
{
    let pos = v.dark_module_pos();
    m.set(pos.0, pos.1, Module::Function(true));
}

/// Reserves a rectangle.
pub fn reserve_rect(m: &mut Matrix, x0: usize, y0: usize, x1: usize, y1: usize)
    requires
        old(m).wf(),
        x1 < old(m).size,
        y1 < old(m).size,
    ensures
        final(m).wf(),
        final(m).size == old(m).size,
        final(m)@ == with_reserved_rect(old(m)@, x0 as int, y0 as int, x1 as int, y1 as int),
{
    m.set_rect(x0, y0, x1, y1, Module::Reserved);
}

/// Reserves the modules of the format information and, from version 7 on,
/// of the version information.
pub fn add_reserved_areas(m: &mut Matrix, v: Version)
    requires
        old(m).wf(),
        v.wf(),
        old(m).size == size_of(v.0 as int),
    ensures
        final(m).wf(),
        final(m).size == old(m).size,
        final(m)@ == with_reserved(old(m)@, v.0 as int),
{
    let size: usize = m.size;

    // Around top left finder.
    // Avoid timing pattern.
    reserve_rect(m, 0, 8, 5, 8);
    reserve_rect(m, 7, 8, 8, 8);
    reserve_rect(m, 8, 0, 8, 5);
    reserve_rect(m, 8, 7, 8, 7);

    // Top right.
    reserve_rect(m, size - 8, 8, size - 1, 8);

    // Bottom left.
    reserve_rect(m, 8, size - 7, 8, size - 1);

    // Larger versions needs two areas for version information.
    if v.extra_version_areas() {
        reserve_rect(m, 0, size - 11, 5, size - 9);
        reserve_rect(m, size - 11, 0, size - 9, 5);
    }
}

/// Adds all function patterns.
pub fn add_fun_patterns(m: &mut Matrix, v: Version)
    requires
        old(m).wf(),
        v.wf(),
        old(m).size == size_of(v.0 as int),
    ensures
        final(m).wf(),
        final(m).size == old(m).size,
        final(m)@ == with_fun_patterns(old(m)@, v.0 as int),
{
    add_finders(m);
    add_alignments(m, v);
    add_timing_patterns(m);
    add_dark_module(m, v);
    add_reserved_areas(m, v);
}

/// A grid on which data bits are being placed, and how many bits have been
/// placed.
pub struct Placement {
    /// The grid.
    pub grid: Grid,
    /// How many data modules have been written.
    pub used: int,
}

/// The bit that the data module number `used` gets: that bit of the stream,
/// or a light module once the stream is used up.
pub open spec fn next_bit(bits: Seq<bool>, used: int) -> bool {
    if 0 <= used < bits.len() {
        bits[used]
    } else {
        false
    }
}

/// The placement after the first `k` modules of the zig-zag walk have been
/// visited: each of them that was unknown has become a data module with the
/// next bit of the stream, and every other module is as it was.
pub open spec fn place_upto(g: Grid, bits: Seq<bool>, k: int) -> Placement
    decreases k,
{
    if k <= 0 {
        Placement { grid: g, used: 0 }
    } else {
        let p = place_upto(g, bits, k - 1);
        let at = ZigZagIt::walk(g.size as usize, k - 1);
        if at.valid && p.grid.at(at.x as int, at.y as int) == Module::Unknown {
            Placement {
                grid: p.grid.set(
                    at.x as int,
                    at.y as int,
                    Module::Data(next_bit(bits, p.used)),
                ),
                used: p.used + 1,
            }
        } else {
            p
        }
    }
}

/// A number of steps after which the zig-zag walk has ended.
pub open spec fn walk_bound(size: int) -> int {
    ZigZagIt::start(size as usize).steps_left()
}

/// The placement at the end of the zig-zag walk.
pub open spec fn placed(g: Grid, bits: Seq<bool>) -> Placement {
    place_upto(g, bits, walk_bound(g.size))
}

/// The grid with the first `k` bits written as function modules at the
/// first `k` of the given coordinates.
pub open spec fn with_spots_upto(g: Grid, bits: Seq<bool>, spots: Seq<(usize, usize)>, k: int) -> Grid
    decreases k,
{
    if k <= 0 {
        g
    } else {
        with_spots_upto(g, bits, spots, k - 1).set(
            spots[k - 1].0 as int,
            spots[k - 1].1 as int,
            Module::Function(bits[k - 1]),
        )
    }
}

/// Where bit `i` of the format information goes beside the top left finder:
/// along row 8 from column 0 to column 8 without column 6, then up column 8
/// from row 7 to row 0 without row 6.
pub open spec fn format_spot_a(i: int) -> (usize, usize) {
    if i < 6 {
        (i as usize, 8usize)
    } else if i == 6 {
        (7usize, 8usize)
    } else if i == 7 {
        (8usize, 8usize)
    } else if i == 8 {
        (8usize, 7usize)
    } else {
        (8usize, (14 - i) as usize)
    }
}

/// Where bit `i` of the format information goes a second time: up column 8
/// from the bottom row for seven modules, then along row 8 over the last
/// eight columns.
pub open spec fn format_spot_b(n: int, i: int) -> (usize, usize) {
    if i < 7 {
        (8usize, (n - 1 - i) as usize)
    } else {
        ((n - 15 + i) as usize, 8usize)
    }
}

/// Where bit `i` of the version information goes above the bottom left
/// finder: a block six modules wide and three high, filled column by column.
pub open spec fn version_spot_a(n: int, i: int) -> (usize, usize) {
    ((i / 3) as usize, (n - 11 + i % 3) as usize)
}

/// Where bit `i` of the version information goes left of the top right
/// finder: a block three modules wide and six high, filled row by row.
pub open spec fn version_spot_b(n: int, i: int) -> (usize, usize) {
    ((n - 11 + i % 3) as usize, (i / 3) as usize)
}

/// The fifteen places of the format information beside the top left finder.
pub open spec fn format_spots_a() -> Seq<(usize, usize)> {
    Seq::new(15, |i: int| format_spot_a(i))
}

/// The fifteen places of the second copy of the format information.
pub open spec fn format_spots_b(n: int) -> Seq<(usize, usize)> {
    Seq::new(15, |i: int| format_spot_b(n, i))
}

/// The eighteen places of the version information at the bottom left.
pub open spec fn version_spots_a(n: int) -> Seq<(usize, usize)> {
    Seq::new(18, |i: int| version_spot_a(n, i))
}

/// The eighteen places of the version information at the top right.
pub open spec fn version_spots_b(n: int) -> Seq<(usize, usize)> {
    Seq::new(18, |i: int| version_spot_b(n, i))
}

/// A grid with format information written at both of its places.
pub open spec fn with_format(g: Grid, bits: Seq<bool>) -> Grid {
    with_spots_upto(
        with_spots_upto(g, bits, format_spots_a(), 15),
        bits,
        format_spots_b(g.size),
        15,
    )
}

/// A grid with version information written at both of its places.
pub open spec fn with_version(g: Grid, bits: Seq<bool>) -> Grid {
    with_spots_upto(
        with_spots_upto(g, bits, version_spots_a(g.size), 18),
        bits,
        version_spots_b(g.size),
        18,
    )
}

/// Whether none of the given places holds a data module, and all lie on the
/// grid.
pub open spec fn spots_free(g: Grid, spots: Seq<(usize, usize)>) -> bool {
    forall|i: int|
        0 <= i < spots.len() ==> g.on((#[trigger] spots[i]).0 as int, spots[i].1 as int) && !g.at(
            spots[i].0 as int,
            spots[i].1 as int,
        ).data()
}

/// Add raw data: walks the symbol in zig-zag and writes the next bit of the
/// stream to each module that is still unknown. Where the stream ends before
/// the walk does, the modules that are left become light data modules; bits
/// that are left over when the walk ends are not placed. Returns how many
/// data modules were written.
pub fn add_raw_data(m: &mut Matrix, v: &BitVec) -> (r: usize)
    requires
        old(m).wf(),
        1 <= old(m).size <= 177,
    ensures
        final(m).wf(),
        final(m).size == old(m).size,
        final(m)@ == placed(old(m)@, v@).grid,
        r == placed(old(m)@, v@).used,
        crate::frame::kept(old(m)@, final(m)@),
{
    proof {
        crate::frame::lemma_place_frame(old(m)@, v@, walk_bound(old(m)@.size));
    }
    let len: usize = v.len();
    let mut vi: usize = 0;
    let mut it = ZigZagIt::new(m.size);
    let ghost mut k: int = 0;
    proof {
        assert(0 <= (m.size - 1) * (2 * m.size + 2) <= 176 * 356) by (nonlinear_arith)
            requires
                1 <= m.size <= 177,
        ;
    }
    while it.valid
        invariant
            m.wf(),
            m.size == old(m).size,
            1 <= m.size <= 177,
            len == v@.len(),
            it.wf(),
            it.size == m.size,
            0 <= k,
            it == ZigZagIt::walk(m.size, k),
            k + it.steps_left() <= walk_bound(m.size as int) <= 63010,
            m@ == place_upto(old(m)@, v@, k).grid,
            vi == place_upto(old(m)@, v@, k).used,
            vi <= k,
        decreases it.steps_left(),
    {
        let x: usize = it.x;
        let y: usize = it.y;
        match *m.get(x, y) {
            Module::Unknown => {
                let bit: bool = if vi < len {
                    v.bit(vi)
                } else {
                    false
                };
                m.set_data(x, y, bit);
                vi = vi + 1;
            },
            _ => {},
        }
        it.advance();
        proof {
            k = k + 1;
        }
    }
    proof {
        lemma_place_stable(old(m)@, v@, k, walk_bound(m.size as int));
    }
    vi
}

/// Writes bits as function modules at the given places, which must not
/// hold data modules.
pub fn write_fun_bits(m: &mut Matrix, bv: &BitVec, spots: &Vec<(usize, usize)>)
    requires
        old(m).wf(),
        bv@.len() == spots@.len(),
        spots_free(old(m)@, spots@),
    ensures
        final(m).wf(),
        final(m).size == old(m).size,
        final(m)@ == with_spots_upto(old(m)@, bv@, spots@, spots@.len() as int),
{
    let n: usize = spots.len();
    let mut i: usize = 0;
    while i < n
        invariant
            m.wf(),
            m.size == old(m).size,
            i <= n == spots@.len() == bv@.len(),
            spots_free(m@, spots@),
            m@ == with_spots_upto(old(m)@, bv@, spots@, i as int),
        decreases n - i,
    {
        let spot = spots[i];
        let ghost before = m@;
        assert(before.on(spot.0 as int, spot.1 as int) && !before.at(
            spot.0 as int,
            spot.1 as int,
        ).data());
        m.set_fun(spot.0, spot.1, bv.bit(i));
        proof {
            assert forall|j: int| 0 <= j < spots@.len() implies m@.on(
                (#[trigger] spots@[j]).0 as int,
                spots@[j].1 as int,
            ) && !m@.at(spots@[j].0 as int, spots@[j].1 as int).data() by {
                crate::matrix::lemma_set_at(
                    before,
                    spot.0 as int,
                    spot.1 as int,
                    Module::Function(bv@[i as int]),
                    spots@[j].0 as int,
                    spots@[j].1 as int,
                );
            }
        }
        i = i + 1;
    }
}

/// The places of the format information beside the top left finder.
pub fn format_places_a() -> (r: Vec<(usize, usize)>)
    ensures
        r@ == format_spots_a(),
{
    let mut r: Vec<(usize, usize)> = Vec::new();
    let mut i: usize = 0;
    while i < 15
        invariant
            i <= 15,
            r@.len() == i,
            forall|k: int| 0 <= k < i ==> r@[k] == format_spot_a(k),
        decreases 15 - i,
    {
        let spot: (usize, usize) = if i < 6 {
            (i, 8)
        } else if i == 6 {
            (7, 8)
        } else if i == 7 {
            (8, 8)
        } else if i == 8 {
            (8, 7)
        } else {
            (8, 14 - i)
        };
        r.push(spot);
        i = i + 1;
    }
    assert(r@ =~= format_spots_a());
    r
}

/// The places of the second copy of the format information.
pub fn format_places_b(n: usize) -> (r: Vec<(usize, usize)>)
    requires
        21 <= n,
    ensures
        r@ == format_spots_b(n as int),
{
    let mut r: Vec<(usize, usize)> = Vec::new();
    let mut i: usize = 0;
    while i < 15
        invariant
            21 <= n,
            i <= 15,
            r@.len() == i,
            forall|k: int| 0 <= k < i ==> r@[k] == format_spot_b(n as int, k),
        decreases 15 - i,
    {
        let spot: (usize, usize) = if i < 7 {
            (8, n - 1 - i)
        } else {
            (n - 15 + i, 8)
        };
        r.push(spot);
        i = i + 1;
    }
    assert(r@ =~= format_spots_b(n as int));
    r
}

/// The places of the version information: at the bottom left, or at the top
/// right where `transposed`.
pub fn version_places(n: usize, transposed: bool) -> (r: Vec<(usize, usize)>)
    requires
        21 <= n,
    ensures
        r@ == if transposed {
            version_spots_b(n as int)
        } else {
            version_spots_a(n as int)
        },
{
    let mut r: Vec<(usize, usize)> = Vec::new();
    let mut i: usize = 0;
    while i < 18
        invariant
            21 <= n,
            i <= 18,
            r@.len() == i,
            forall|k: int|
                0 <= k < i ==> r@[k] == if transposed {
                    version_spot_b(n as int, k)
                } else {
                    version_spot_a(n as int, k)
                },
        decreases 18 - i,
    {
        let spot: (usize, usize) = if transposed {
            (n - 11 + i % 3, i / 3)
        } else {
            (i / 3, n - 11 + i % 3)
        };
        r.push(spot);
        i = i + 1;
    }
    if transposed {
        assert(r@ =~= version_spots_b(n as int));
    } else {
        assert(r@ =~= version_spots_a(n as int));
    }
    r
}

/// Whether neither place of the format information holds a data module.
pub open spec fn format_free(g: Grid) -> bool {
    spots_free(g, format_spots_a()) && spots_free(g, format_spots_b(g.size))
}

/// Whether neither place of the version information holds a data module.
pub open spec fn version_free(g: Grid) -> bool {
    spots_free(g, version_spots_a(g.size)) && spots_free(g, version_spots_b(g.size))
}

/// Writes the fifteen bits of format information at both of their places.
pub fn add_format(m: &mut Matrix, bv: &BitVec)
    requires
        symbol_sized(old(m)),
        bv@.len() == 15,
        format_free(old(m)@),
    ensures
        symbol_sized(final(m)),
        final(m).size == old(m).size,
        final(m)@ == with_format(old(m)@, bv@),
{
    let size: usize = m.size;
    // Info surrounding the top left finder.
    let first = format_places_a();
    let second = format_places_b(size);
    let ghost g = m@;
    write_fun_bits(m, bv, &first);
    proof {
        lemma_spots_stay_free(g, bv@, first@, second@, 15);
    }
    // Half to the right of the bottom left finder, rest below the top right one.
    write_fun_bits(m, bv, &second);
}

/// Writes the eighteen bits of version information at both of their places.
pub fn add_version(m: &mut Matrix, bv: &BitVec)
    requires
        symbol_sized(old(m)),
        bv@.len() == 18,
        version_free(old(m)@),
    ensures
        symbol_sized(final(m)),
        final(m).size == old(m).size,
        final(m)@ == with_version(old(m)@, bv@),
{
    let size: usize = m.size;
    // Bottom left version block.
    let first = version_places(size, false);
    // Top right version block.
    let second = version_places(size, true);
    let ghost g = m@;
    write_fun_bits(m, bv, &first);
    proof {
        lemma_spots_stay_free(g, bv@, first@, second@, 18);
    }
    write_fun_bits(m, bv, &second);
}

/// Once the zig-zag walk has ended it stays ended.
pub proof fn lemma_walk_ended(size: usize, k: int, j: int)
    requires
        0 <= k <= j,
        !ZigZagIt::walk(size, k).valid,
    ensures
        !ZigZagIt::walk(size, j).valid,
    decreases j - k,
{
    if k < j {
        lemma_walk_ended(size, k, j - 1);
    }
}

/// Once the zig-zag walk has ended, nothing more is placed.
pub proof fn lemma_place_stable(g: Grid, bits: Seq<bool>, k: int, j: int)
    requires
        0 <= k <= j,
        !ZigZagIt::walk(g.size as usize, k).valid,
    ensures
        place_upto(g, bits, j) == place_upto(g, bits, k),
    decreases j - k,
{
    if k < j {
        lemma_place_stable(g, bits, k, j - 1);
        lemma_walk_ended(g.size as usize, k, j - 1);
    }
}

/// Writing function modules keeps the size of a grid and leaves no data
/// module where there was none.
pub proof fn lemma_spots_stay_free(
    g: Grid,
    bits: Seq<bool>,
    spots: Seq<(usize, usize)>,
    others: Seq<(usize, usize)>,
    k: int,
)
    requires
        g.wf(),
        0 <= k <= spots.len(),
        spots_free(g, spots),
        spots_free(g, others),
    ensures
        with_spots_upto(g, bits, spots, k).wf(),
        with_spots_upto(g, bits, spots, k).size == g.size,
        spots_free(with_spots_upto(g, bits, spots, k), others),
    decreases k,
{
    if k > 0 {
        lemma_spots_stay_free(g, bits, spots, others, k - 1);
        let h = with_spots_upto(g, bits, spots, k - 1);
        let spot = spots[k - 1];
        let r = with_spots_upto(g, bits, spots, k);
        assert(g.on(spot.0 as int, spot.1 as int));
        assert forall|i: int| 0 <= i < others.len() implies r.on(
            (#[trigger] others[i]).0 as int,
            others[i].1 as int,
        ) && !r.at(others[i].0 as int, others[i].1 as int).data() by {
            crate::matrix::lemma_set_at(
                h,
                spot.0 as int,
                spot.1 as int,
                Module::Function(bits[k - 1]),
                others[i].0 as int,
                others[i].1 as int,
            );
        }
        crate::matrix::lemma_set_at(
            h,
            spot.0 as int,
            spot.1 as int,
            Module::Function(bits[k - 1]),
            0,
            0,
        );
    }
}

} // verus!
