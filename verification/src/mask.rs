//! Masks: the eight patterns that flip data modules, their penalty and the
//! choice of the best of them.
use crate::bits::{bit_of, BitVec};
use crate::matrix::{lemma_index_bound, Grid, Matrix, Module};
use vstd::prelude::*;

verus! {

/// One of the eight masks, 0 to 7.
#[derive(Debug, Clone, Copy, PartialEq, Eq, Structural)]
pub struct Mask(pub usize);

impl Mask {
    /// A mask is one of 0 to 7.
    pub open spec fn wf(&self) -> bool {
        self.0 <= 7
    }

    /// Create a new mask, must be in the [0..7] range.
    pub fn new(m: usize) -> (r: Mask)
        requires
            m <= 7,
        ensures
            r.0 == m,
            r.wf(),
    {
        Mask(m)
    }
}

/// Whether mask `m` flips the data module in column `x` of row `y`.
pub open spec fn mask_bit(m: int, x: int, y: int) -> bool {
    if m == 0 {
        (x + y) % 2 == 0
    } else if m == 1 {
        y % 2 == 0
    } else if m == 2 {
        x % 3 == 0
    } else if m == 3 {
        (x + y) % 3 == 0
    } else if m == 4 {
        (y / 2 + x / 3) % 2 == 0
    } else if m == 5 {
        (x * y) % 2 + (x * y) % 3 == 0
    } else if m == 6 {
        ((x * y) % 2 + (x * y) % 3) % 2 == 0
    } else {
        ((x + y) % 2 + (x * y) % 3) % 2 == 0
    }
}

/// The grid with mask `m` applied: each data module that the mask selects
/// has its colour changed, and every other module stays as it is.
pub open spec fn masked(g: Grid, m: int) -> Grid {
    Grid {
        size: g.size,
        cells: Seq::new(
            g.cells.len(),
            |k: int|
                if g.cells[k].data() && mask_bit(m, k % g.size, k / g.size) {
                    g.cells[k].inverse()
                } else {
                    g.cells[k]
                },
        ),
    }
}

/// Whether the module at position `t` of a line is dark: of row `i` where
/// `horizontal`, else of column `i`.
pub open spec fn line_dark(g: Grid, i: int, t: int, horizontal: bool) -> bool {
    if horizontal {
        g.at(t, i).dark()
    } else {
        g.at(i, t).dark()
    }
}

/// The length of the run of modules of one colour that ends at position `t`
/// of a line.
pub open spec fn run_len(g: Grid, i: int, t: int, horizontal: bool) -> int
    decreases t,
{
    if t <= 0 || line_dark(g, i, t, horizontal) != line_dark(g, i, t - 1, horizontal) {
        1
    } else {
        run_len(g, i, t - 1, horizontal) + 1
    }
}

/// What a module adds to the penalty as it extends a run to length `len`: 3
/// as the run reaches five modules and 1 for each module beyond. A run of
/// `n >= 5` modules so adds up to `3 + (n - 5)`.
pub open spec fn run_score(len: int) -> int {
    if len == 5 {
        3
    } else if len > 5 {
        1
    } else {
        0
    }
}

/// The run penalty of the first `upto` modules of a line.
pub open spec fn line_runs(g: Grid, i: int, horizontal: bool, upto: int) -> int
    decreases upto,
{
    if upto <= 0 {
        0
    } else {
        line_runs(g, i, horizontal, upto - 1) + run_score(run_len(g, i, upto - 1, horizontal))
    }
}

/// The run penalty of the first `upto` columns and rows.
pub open spec fn runs_upto(g: Grid, upto: int) -> int
    decreases upto,
{
    if upto <= 0 {
        0
    } else {
        runs_upto(g, upto - 1) + line_runs(g, upto - 1, false, g.size) + line_runs(
            g,
            upto - 1,
            true,
            g.size,
        )
    }
}

/// Whether the 2x2 block with its top left corner at `(x, y)` has one colour.
pub open spec fn box_uniform(g: Grid, x: int, y: int) -> bool {
    g.at(x, y).dark() == g.at(x + 1, y).dark() && g.at(x, y).dark() == g.at(x, y + 1).dark()
        && g.at(x, y).dark() == g.at(x + 1, y + 1).dark()
}

/// How many of the 2x2 blocks with their top left corner in column `x` and
/// above row `upto` have one colour.
pub open spec fn boxes_in_column(g: Grid, x: int, upto: int) -> int
    decreases upto,
{
    if upto <= 0 {
        0
    } else {
        boxes_in_column(g, x, upto - 1) + if box_uniform(g, x, upto - 1) {
            1int
        } else {
            0int
        }
    }
}

/// How many of the 2x2 blocks with their top left corner left of column
/// `upto` have one colour.
pub open spec fn boxes_upto(g: Grid, upto: int) -> int
    decreases upto,
{
    if upto <= 0 {
        0
    } else {
        boxes_upto(g, upto - 1) + boxes_in_column(g, upto - 1, g.size - 1)
    }
}

/// The dark modules of a line as bits: of row `i` where `horizontal`, else of
/// column `i`.
pub open spec fn dark_line(g: Grid, i: int, horizontal: bool) -> Seq<bool> {
    Seq::new(g.size as nat, |t: int| line_dark(g, i, t, horizontal))
}

/// The finder-like pattern dark-light-dark-dark-dark-light-dark followed by
/// four light modules, as an 11 bit number.
pub open spec fn pattern_ahead() -> u32 {
    0x5D0
}

/// The same pattern reversed: four light modules first.
pub open spec fn pattern_behind() -> u32 {
    0x05D
}

/// Whether the eleven bits from position `start` are those of `pattern`, its
/// most significant bit first.
pub open spec fn window_is(s: Seq<bool>, start: int, pattern: u32) -> bool {
    forall|j: int| 0 <= j < 11 ==> #[trigger] s[start + j] == bit_of(pattern, 10 - j)
}

/// How many windows that start before `upto` hold the pattern or its reverse.
pub open spec fn pattern_count(s: Seq<bool>, upto: int) -> int
    decreases upto,
{
    if upto <= 0 {
        0
    } else {
        pattern_count(s, upto - 1) + (if window_is(s, upto - 1, pattern_ahead()) {
            1int
        } else {
            0int
        }) + (if window_is(s, upto - 1, pattern_behind()) {
            1int
        } else {
            0int
        })
    }
}

/// How many times a line holds the pattern or its reverse.
pub open spec fn line_patterns(s: Seq<bool>) -> int {
    pattern_count(s, s.len() - 10)
}

/// How many times the first `upto` rows and columns hold the pattern or its
/// reverse.
pub open spec fn patterns_upto(g: Grid, upto: int) -> int
    decreases upto,
{
    if upto <= 0 {
        0
    } else {
        patterns_upto(g, upto - 1) + line_patterns(dark_line(g, upto - 1, true)) + line_patterns(
            dark_line(g, upto - 1, false),
        )
    }
}

/// How many of the first `upto` modules are dark.
pub open spec fn dark_count(cells: Seq<Module>, upto: int) -> int
    decreases upto,
{
    if upto <= 0 {
        0
    } else {
        dark_count(cells, upto - 1) + if cells[upto - 1].dark() {
            1int
        } else {
            0int
        }
    }
}

/// The distance of a percentage from 50.
pub open spec fn off_balance(p: int) -> int {
    if p <= 50 {
        50 - p
    } else {
        p - 50
    }
}

/// The penalty for the share of dark modules: the percentage is rounded down
/// to a multiple of five, and the nearer of that and the next multiple of
/// five counts ten for each five points it is away from 50.
pub open spec fn balance_score(dark: int, total: int) -> int {
    let pct = if total == 0 {
        0
    } else {
        100 * dark / total
    };
    let low = pct - pct % 5;
    let high = low + 5;
    let a = 10 * off_balance(low) / 5;
    let b = 10 * off_balance(high) / 5;
    if a <= b {
        a
    } else {
        b
    }
}

/// The penalty for runs of five or more modules of one colour in a row or a
/// column.
pub open spec fn penalty_runs(g: Grid) -> int {
    runs_upto(g, g.size)
}

/// The penalty for 2x2 blocks of one colour: 3 each.
pub open spec fn penalty_boxes(g: Grid) -> int {
    3 * boxes_upto(g, g.size - 1)
}

/// The penalty for finder-like patterns in rows and columns: 40 each.
pub open spec fn penalty_patterns(g: Grid) -> int {
    40 * patterns_upto(g, g.size)
}

/// The penalty for an uneven share of dark modules.
pub open spec fn penalty_balance(g: Grid) -> int {
    balance_score(dark_count(g.cells, g.cells.len() as int), g.size * g.size)
}

/// The penalty of a grid: the sum of its four parts.
pub open spec fn penalty(g: Grid) -> int {
    penalty_runs(g) + penalty_boxes(g) + penalty_patterns(g) + penalty_balance(g)
}

/// The best of the masks 0 to `k`: the one of least penalty, and of those
/// the lowest.
pub open spec fn best_mask_upto(g: Grid, k: int) -> int
    decreases k,
{
    if k <= 0 {
        0
    } else {
        let b = best_mask_upto(g, k - 1);
        if penalty(masked(g, k)) < penalty(masked(g, b)) {
            k
        } else {
            b
        }
    }
}

/// The best of the eight masks.
pub open spec fn best_mask(g: Grid) -> int {
    best_mask_upto(g, 7)
}

/// Whether a mask flips the data module at a coordinate.
pub fn mask_at(mask: usize, x: usize, y: usize) -> (r: bool)
    requires
        mask <= 7,
        x + y <= usize::MAX,
        x * y <= usize::MAX,
    ensures
        r == mask_bit(mask as int, x as int, y as int),
{
    if mask == 0 {
        (x + y) % 2 == 0
    } else if mask == 1 {
        y % 2 == 0
    } else if mask == 2 {
        x % 3 == 0
    } else if mask == 3 {
        (x + y) % 3 == 0
    } else if mask == 4 {
        (y / 2 + x / 3) % 2 == 0
    } else if mask == 5 {
        (x * y) % 2 + (x * y) % 3 == 0
    } else if mask == 6 {
        ((x * y) % 2 + (x * y) % 3) % 2 == 0
    } else {
        ((x + y) % 2 + (x * y) % 3) % 2 == 0
    }
}

/// Apply a mask of a specific type to a matrix: the data modules that the
/// mask selects change colour, every other module is left as it is.
pub fn apply_mask(mask: usize, matrix: &Matrix) -> (r: Matrix)
    requires
        mask <= 7,
        matrix.wf(),
    ensures
        r.wf(),
        r@ == masked(matrix@, mask as int),
        forall|x: int, y: int|
            matrix@.on(x, y) ==> #[trigger] r@.at(x, y) == if matrix@.at(x, y).data() && mask_bit(
                mask as int,
                x,
                y,
            ) {
                matrix@.at(x, y).inverse()
            } else {
                matrix@.at(x, y)
            },
{
    let size: usize = matrix.size;
    let n: usize = matrix.modules.len();
    let mut modules: Vec<Module> = Vec::new();
    let mut k: usize = 0;
    while k < n
        invariant
            k <= n == matrix.modules@.len(),
            mask <= 7,
            matrix.wf(),
            size == matrix.size,
            modules@.len() == k,
            forall|t: int| 0 <= t < k ==> modules@[t] == masked(matrix@, mask as int).cells[t],
        decreases n - k,
    {
        let m: Module = matrix.modules[k];
        assert(size > 0) by (nonlinear_arith)
            requires
                k < size * size,
        ;
        let x: usize = k % size;
        let y: usize = k / size;
        proof {
            vstd::arithmetic::div_mod::lemma_fundamental_div_mod(k as int, size as int);
            assert(x * y <= k && x + y <= k) by (nonlinear_arith)
                requires
                    k == size * y + x,
                    0 <= x < size,
                    0 <= y,
            ;
        }
        if m.is_data() && mask_at(mask, x, y) {
            modules.push(m.flipped());
        } else {
            modules.push(m);
        }
        k = k + 1;
    }
    let r = Matrix { size, modules };
    proof {
        assert(r@.cells =~= masked(matrix@, mask as int).cells);
        lemma_masked_at(matrix@, mask as int);
    }
    r
}

/// Masking seen by coordinate: the module in column `x` of row `y` changes
/// colour where it is a data module and the mask selects the coordinate, and
/// every other module stays as it is.
pub proof fn lemma_masked_at(g: Grid, m: int)
    requires
        g.wf(),
    ensures
        masked(g, m).wf(),
        masked(g, m).size == g.size,
        forall|x: int, y: int|
            g.on(x, y) ==> #[trigger] masked(g, m).at(x, y) == if g.at(x, y).data() && mask_bit(
                m,
                x,
                y,
            ) {
                g.at(x, y).inverse()
            } else {
                g.at(x, y)
            },
{
    assert forall|x: int, y: int| g.on(x, y) implies #[trigger] masked(g, m).at(x, y) == if g.at(
        x,
        y,
    ).data() && mask_bit(m, x, y) {
        g.at(x, y).inverse()
    } else {
        g.at(x, y)
    } by {
        lemma_index_bound(g.size, x, y);
        vstd::arithmetic::div_mod::lemma_fundamental_div_mod_converse(
            y * g.size + x,
            g.size,
            y,
            x,
        );
    }
}

/// What a module adds to the penalty as it extends the run that began at
/// `from` to position `to`: 3 where that makes five in line, 1 beyond.
pub fn diff_5(from: usize, to: usize) -> (r: u32)
    requires
        from <= to,
    ensures
        r == run_score(to - from + 1),
        r <= 3,
{
    let diff: usize = to - from;
    if diff == 4 {
        3
    } else if diff > 4 {
        1
    } else {
        0
    }
}

/// Whether the module at position `t` of a line is dark.
pub fn dark_on_line(matrix: &Matrix, i: usize, t: usize, horizontal: bool) -> (r: bool)
    requires
        matrix.wf(),
        i < matrix.size,
        t < matrix.size,
    ensures
        r == line_dark(matrix@, i as int, t as int, horizontal),
{
    if horizontal {
        matrix.is_dark(t, i)
    } else {
        matrix.is_dark(i, t)
    }
}

/// The run penalty of one line: row `i` where `horizontal`, else column `i`.
pub fn eval_5_line(matrix: &Matrix, i: usize, horizontal: bool) -> (r: u32)
    requires
        matrix.wf(),
        1 <= matrix.size <= 177,
        i < matrix.size,
    ensures
        r == line_runs(matrix@, i as int, horizontal, matrix.size as int),
        r <= 3 * matrix.size,
{
    let n: usize = matrix.size;
    let mut res: u32 = 0;
    let mut from: usize = 0;
    let mut curr: bool = dark_on_line(matrix, i, 0, horizontal);
    let mut t: usize = 1;
    assert(line_runs(matrix@, i as int, horizontal, 1) == 0) by {
        assert(line_runs(matrix@, i as int, horizontal, 0) == 0);
        assert(run_len(matrix@, i as int, 0, horizontal) == 1);
    }
    while t < n
        invariant
            matrix.wf(),
            n == matrix.size,
            1 <= n <= 177,
            i < n,
            1 <= t <= n,
            from <= t - 1,
            t - from == run_len(matrix@, i as int, t - 1, horizontal),
            curr == line_dark(matrix@, i as int, t - 1, horizontal),
            res == line_runs(matrix@, i as int, horizontal, t as int),
            res <= 3 * t,
        decreases n - t,
    {
        if dark_on_line(matrix, i, t, horizontal) == curr {
            res = res + diff_5(from, t);
        } else {
            from = t;
            curr = !curr;
        }
        t = t + 1;
    }
    res
}

/// The run penalty of row `y`.
pub fn eval_5_row(matrix: &Matrix, y: usize) -> (r: u32)
    requires
        matrix.wf(),
        1 <= matrix.size <= 177,
        y < matrix.size,
    ensures
        r == line_runs(matrix@, y as int, true, matrix.size as int),
        r <= 3 * matrix.size,
{
    eval_5_line(matrix, y, true)
}

/// The run penalty of column `x`.
pub fn eval_5_col(matrix: &Matrix, x: usize) -> (r: u32)
    requires
        matrix.wf(),
        1 <= matrix.size <= 177,
        x < matrix.size,
    ensures
        r == line_runs(matrix@, x as int, false, matrix.size as int),
        r <= 3 * matrix.size,
{
    eval_5_line(matrix, x, false)
}

/// 5 in a row/col gives a score of 3, each extra gives a score of 1.
pub fn evaluate_5_in_line(matrix: &Matrix) -> (r: u32)
    requires
        matrix.wf(),
        1 <= matrix.size <= 177,
    ensures
        r == penalty_runs(matrix@),
        r <= 187974,
{
    let mut res: u32 = 0;
    let mut i: usize = 0;
    while i < matrix.size
        invariant
            matrix.wf(),
            1 <= matrix.size <= 177,
            i <= matrix.size,
            res == runs_upto(matrix@, i as int),
            res <= 1062 * i,
        decreases matrix.size - i,
    {
        res = res + eval_5_col(matrix, i);
        res = res + eval_5_row(matrix, i);
        i = i + 1;
    }
    res
}

/// Each 2x2 square of the same color gives a score of 3.
pub fn evaluate_2x2(matrix: &Matrix) -> (r: u32)
    requires
        matrix.wf(),
        1 <= matrix.size <= 177,
    ensures
        r == penalty_boxes(matrix@),
        r <= 93987,
{
    let n: usize = matrix.size;
    let mut squares: u32 = 0;
    let mut x: usize = 0;
    while x < n - 1
        invariant
            matrix.wf(),
            n == matrix.size,
            1 <= n <= 177,
            x <= n - 1,
            squares == boxes_upto(matrix@, x as int),
            squares <= 177 * x,
        decreases n - 1 - x,
    {
        let mut y: usize = 0;
        let ghost before = squares;
        while y < n - 1
            invariant
                matrix.wf(),
                n == matrix.size,
                1 <= n <= 177,
                x < n - 1,
                y <= n - 1,
                squares == before + boxes_in_column(matrix@, x as int, y as int),
                squares <= before + y,
                before <= 177 * x,
            decreases n - 1 - y,
        {
            let a: bool = matrix.is_dark(x, y);
            let b: bool = matrix.is_dark(x + 1, y);
            let c: bool = matrix.is_dark(x, y + 1);
            let d: bool = matrix.is_dark(x + 1, y + 1);
            if a == b && a == c && a == d {
                squares = squares + 1;
            }
            y = y + 1;
        }
        x = x + 1;
    }
    squares * 3
}

/// Whether the eleven bits from position `start` are those of `pattern`.
pub fn window_matches(bv: &BitVec, start: usize, pattern: u32) -> (r: bool)
    requires
        start + 11 <= bv@.len(),
    ensures
        r == window_is(bv@, start as int, pattern),
{
    let len: usize = bv.len();
    let mut j: usize = 0;
    while j < 11
        invariant
            j <= 11,
            start + 11 <= bv@.len() == len,
            forall|t: int| 0 <= t < j ==> #[trigger] bv@[start + t] == bit_of(pattern, 10 - t),
        decreases 11 - j,
    {
        let want: bool = (pattern >> ((10 - j) as u32)) & 1 == 1;
        if bv.bit(start + j) != want {
            assert(bv@[start + j] != bit_of(pattern, 10 - j));
            return false;
        }
        j = j + 1;
    }
    true
}

/// How many times a line holds the finder-like pattern or its reverse.
pub fn count_dl_patterns(bv: &BitVec) -> (r: u32)
    requires
        2 * bv@.len() <= u32::MAX,
    ensures
        r == line_patterns(bv@),
        r <= 2 * bv@.len(),
{
    let len: usize = bv.len();
    if len < 11 {
        return 0;
    }
    let mut res: u32 = 0;
    let mut start: usize = 0;
    while start + 11 <= len
        invariant
            11 <= len == bv@.len(),
            2 * len <= u32::MAX,
            start <= len - 10,
            res == pattern_count(bv@, start as int),
            res <= 2 * start,
        decreases len - start,
    {
        if window_matches(bv, start, 0x5D0) {
            res = res + 1;
        }
        if window_matches(bv, start, 0x05D) {
            res = res + 1;
        }
        start = start + 1;
    }
    res
}

/// The dark modules of a line as a bit stream.
pub fn line_bits(matrix: &Matrix, i: usize, horizontal: bool) -> (r: BitVec)
    requires
        matrix.wf(),
        matrix.size <= 177,
        i < matrix.size,
    ensures
        r@ == dark_line(matrix@, i as int, horizontal),
{
    let mut line = BitVec::new();
    let mut t: usize = 0;
    while t < matrix.size
        invariant
            matrix.wf(),
            matrix.size <= 177,
            i < matrix.size,
            t <= matrix.size,
            line@.len() == t,
            forall|k: int| 0 <= k < t ==> line@[k] == line_dark(matrix@, i as int, k, horizontal),
        decreases matrix.size - t,
    {
        line.push(dark_on_line(matrix, i, t, horizontal));
        t = t + 1;
    }
    assert(line@ =~= dark_line(matrix@, i as int, horizontal));
    line
}

/// How many times row `y` holds the finder-like pattern or its reverse.
pub fn count_dl_row(matrix: &Matrix, y: usize) -> (r: u32)
    requires
        matrix.wf(),
        matrix.size <= 177,
        y < matrix.size,
    ensures
        r == line_patterns(dark_line(matrix@, y as int, true)),
        r <= 354,
{
    let row = line_bits(matrix, y, true);
    count_dl_patterns(&row)
}

/// How many times column `x` holds the finder-like pattern or its reverse.
pub fn count_dl_col(matrix: &Matrix, x: usize) -> (r: u32)
    requires
        matrix.wf(),
        matrix.size <= 177,
        x < matrix.size,
    ensures
        r == line_patterns(dark_line(matrix@, x as int, false)),
        r <= 354,
{
    let col = line_bits(matrix, x, false);
    count_dl_patterns(&col)
}

/// Each dark/light pattern found gives a score of 40.
pub fn evaluate_dl_pattern(matrix: &Matrix) -> (r: u32)
    requires
        matrix.wf(),
        1 <= matrix.size <= 177,
    ensures
        r == penalty_patterns(matrix@),
        r <= 5012640,
{
    let mut count: u32 = 0;
    let mut i: usize = 0;
    while i < matrix.size
        invariant
            matrix.wf(),
            1 <= matrix.size <= 177,
            i <= matrix.size,
            count == patterns_upto(matrix@, i as int),
            count <= 708 * i,
        decreases matrix.size - i,
    {
        count = count + count_dl_row(matrix, i);
        count = count + count_dl_col(matrix, i);
        i = i + 1;
    }
    count * 40
}

/// Calculates a score depending on the light/dark ratio.
pub fn evaluate_bw(matrix: &Matrix) -> (r: u32)
    requires
        matrix.wf(),
        1 <= matrix.size <= 177,
    ensures
        r == penalty_balance(matrix@),
        r <= 100,
{
    let total: usize = matrix.modules.len();
    assert(total == matrix.size * matrix.size);
    assert(1 <= total <= 31329) by (nonlinear_arith)
        requires
            total == matrix.size * matrix.size,
            1 <= matrix.size <= 177,
    ;
    let mut dark: usize = 0;
    let mut k: usize = 0;
    while k < total
        invariant
            k <= total == matrix.modules@.len(),
            dark == dark_count(matrix.modules@, k as int),
            dark <= k,
        decreases total - k,
    {
        if matrix.modules[k].is_dark() {
            dark = dark + 1;
        }
        k = k + 1;
    }
    let pct: usize = 100 * dark / total;
    assert(pct <= 100) by (nonlinear_arith)
        requires
            pct == (100 * dark as int) / (total as int),
            dark <= total,
            total >= 1,
    ;
    let low: usize = pct - pct % 5;
    let high: usize = low + 5;
    let off_low: usize = if low <= 50 {
        50 - low
    } else {
        low - 50
    };
    let off_high: usize = if high <= 50 {
        50 - high
    } else {
        high - 50
    };
    let a: usize = 10 * off_low / 5;
    let b: usize = 10 * off_high / 5;
    if a <= b {
        a as u32
    } else {
        b as u32
    }
}

/// Evaluate the mask score of a matrix.
pub fn evaluate(matrix: &Matrix) -> (r: u32)
    requires
        matrix.wf(),
        1 <= matrix.size <= 177,
    ensures
        r == penalty(matrix@),
{
    let e1: u32 = evaluate_5_in_line(matrix);
    let e2: u32 = evaluate_2x2(matrix);
    let e3: u32 = evaluate_dl_pattern(matrix);
    let e4: u32 = evaluate_bw(matrix);
    e1 + e2 + e3 + e4
}

/// Evaluates masks.
/// Returns the mask with the lowest score, of several such the lowest, and a
/// matrix with that mask applied.
pub fn mask(matrix: &Matrix) -> (r: (Mask, Matrix))
    requires
        matrix.wf(),
        1 <= matrix.size <= 177,
    ensures
        ({
            let chosen = r.0;
            let m = chosen.0 as int;
            &&& chosen.wf()
            &&& m == best_mask(matrix@)
            &&& r.1.wf()
            &&& r.1@ == masked(matrix@, m)
            &&& forall|k: int|
                0 <= k <= 7 ==> penalty(masked(matrix@, m)) <= penalty(
                    #[trigger] masked(matrix@, k),
                )
            &&& forall|k: int|
                0 <= k < m ==> penalty(masked(matrix@, m)) < penalty(#[trigger] masked(matrix@, k))
        }),
{
    let mut best: Matrix = apply_mask(0, matrix);
    let mut best_score: u32 = evaluate(&best);
    let mut best_index: usize = 0;
    let mut m: usize = 1;
    while m < 8
        invariant
            matrix.wf(),
            1 <= matrix.size <= 177,
            1 <= m <= 8,
            best_index < m,
            best_index == best_mask_upto(matrix@, m - 1),
            best.wf(),
            best@ == masked(matrix@, best_index as int),
            best_score == penalty(best@),
            forall|k: int|
                0 <= k < m ==> best_score <= penalty(#[trigger] masked(matrix@, k)),
            forall|k: int|
                0 <= k < best_index ==> best_score < penalty(#[trigger] masked(matrix@, k)),
        decreases 8 - m,
    {
        let candidate: Matrix = apply_mask(m, matrix);
        let score: u32 = evaluate(&candidate);
        if score < best_score {
            best_score = score;
            best = candidate;
            best_index = m;
        }
        m = m + 1;
    }
    (Mask(best_index), best)
}

/// Within a run of modules of one colour that begins at `start`, the run
/// that ends at a position is as long as the position is away from `start`.
pub proof fn lemma_run_len(g: Grid, i: int, horizontal: bool, start: int, d: int)
    requires
        0 <= start,
        0 <= d,
        start == 0 || line_dark(g, i, start, horizontal) != line_dark(
            g,
            i,
            start - 1,
            horizontal,
        ),
        forall|t: int|
            start < t <= start + d ==> #[trigger] line_dark(g, i, t, horizontal) == line_dark(
                g,
                i,
                t - 1,
                horizontal,
            ),
    ensures
        run_len(g, i, start + d, horizontal) == d + 1,
    decreases d,
{
    if d > 0 {
        lemma_run_len(g, i, horizontal, start, d - 1);
        assert(line_dark(g, i, start + d, horizontal) == line_dark(
            g,
            i,
            start + d - 1,
            horizontal,
        ));
    }
}

/// A run of `len` modules of one colour adds `3 + (len - 5)` to the penalty
/// of its line where it has five modules or more, and nothing where it is
/// shorter.
pub proof fn lemma_run_penalty(g: Grid, i: int, horizontal: bool, start: int, len: int)
    requires
        0 <= start,
        1 <= len,
        start == 0 || line_dark(g, i, start, horizontal) != line_dark(
            g,
            i,
            start - 1,
            horizontal,
        ),
        forall|t: int|
            start < t < start + len ==> #[trigger] line_dark(g, i, t, horizontal) == line_dark(
                g,
                i,
                t - 1,
                horizontal,
            ),
    ensures
        line_runs(g, i, horizontal, start + len) - line_runs(g, i, horizontal, start) == if len
            >= 5 {
            3 + (len - 5)
        } else {
            0
        },
    decreases len,
{
    lemma_run_len(g, i, horizontal, start, len - 1);
    if len > 1 {
        lemma_run_penalty(g, i, horizontal, start, len - 1);
    }
}

} // verus!
