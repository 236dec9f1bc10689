//! The matrix holds all modules in a QR code.
//!
//! They are organized in a 2-dimensional grid but held in a vector
//! internally, row after row.
use vstd::prelude::*;

verus! {

/// The type of a module.
/// Differentiates the different types during construction,
/// a valid QR code should only hold function and data modules.
#[derive(Clone, Copy, PartialEq, Eq, Debug, Structural)]
pub enum Module {
    /// An unknown module, it hasn't been assigned yet.
    Unknown,
    /// Reserved module.
    /// Version and format info uses this to reserve modules before masking.
    Reserved,
    /// Function module, contains QR code artifacts like finders and timing patterns.
    Function(bool),
    /// Data module. Contains both data and error codes.
    Data(bool),
}

impl Module {
    /// Whether the module is dark. Unknown and reserved modules are not.
    pub open spec fn dark(self) -> bool {
        match self {
            Module::Unknown => false,
            Module::Reserved => false,
            Module::Function(v) => v,
            Module::Data(v) => v,
        }
    }

    /// Whether the module is a function module, reserved modules included.
    pub open spec fn fun(self) -> bool {
        match self {
            Module::Unknown => false,
            Module::Data(_) => false,
            _ => true,
        }
    }

    /// Whether the module is a data module.
    pub open spec fn data(self) -> bool {
        self is Data
    }

    /// Whether the module belongs to a completed symbol: a function or data
    /// module.
    pub open spec fn settled(self) -> bool {
        self is Function || self is Data
    }

    /// The module with its colour changed; unknown and reserved modules have
    /// none and stay as they are.
    pub open spec fn inverse(self) -> Module {
        match self {
            Module::Unknown => Module::Unknown,
            Module::Reserved => Module::Reserved,
            Module::Function(v) => Module::Function(!v),
            Module::Data(v) => Module::Data(!v),
        }
    }

    /// Is the module dark?
    /// Only makes sense for data or function modules.
    pub fn is_dark(&self) -> (r: bool)
        ensures
            r == self.dark(),
    {
        match self {
            Module::Unknown => false,
            Module::Reserved => false,
            Module::Function(v) => *v,
            Module::Data(v) => *v,
        }
    }

    /// Is the module a function module?
    /// This includes reserved modules as well.
    pub fn is_fun(&self) -> (r: bool)
        ensures
            r == self.fun(),
    {
        match self {
            Module::Unknown => false,
            Module::Data(_) => false,
            _ => true,
        }
    }

    /// Is the module a Data module?
    pub fn is_data(&self) -> (r: bool)
        ensures
            r == self.data(),
    {
        match self {
            Module::Data(_) => true,
            _ => false,
        }
    }

    /// The module with its colour changed.
    pub fn flipped(self) -> (r: Module)
        ensures
            r == self.inverse(),
    {
        match self {
            Module::Unknown => Module::Unknown,
            Module::Reserved => Module::Reserved,
            Module::Function(v) => Module::Function(!v),
            Module::Data(v) => Module::Data(!v),
        }
    }
}

impl core::ops::Not for Module {
    type Output = Module;

    fn not(self) -> (r: Module) {
        self.flipped()
    }
}

impl vstd::std_specs::ops::NotSpecImpl for Module {
    open spec fn obeys_not_spec() -> bool {
        true
    }

    open spec fn not_req(self) -> bool {
        true
    }

    open spec fn not_spec(self) -> Module {
        self.inverse()
    }
}

/// A square grid of modules: what a matrix holds.
pub struct Grid {
    /// Width and height.
    pub size: int,
    /// The modules, row after row.
    pub cells: Seq<Module>,
}

impl Grid {
    /// The grid holds `size * size` modules.
    pub open spec fn wf(self) -> bool {
        0 <= self.size && self.cells.len() == self.size * self.size
    }

    /// Whether a coordinate lies on the grid.
    pub open spec fn on(self, x: int, y: int) -> bool {
        0 <= x < self.size && 0 <= y < self.size
    }

    /// The module in column `x` of row `y`.
    pub open spec fn at(self, x: int, y: int) -> Module {
        self.cells[y * self.size + x]
    }

    /// A grid of unknown modules.
    pub open spec fn blank(size: int) -> Grid {
        Grid { size, cells: Seq::new((size * size) as nat, |k: int| Module::Unknown) }
    }

    /// The grid with one module replaced.
    pub open spec fn set(self, x: int, y: int, v: Module) -> Grid {
        Grid { size: self.size, cells: self.cells.update(y * self.size + x, v) }
    }

    /// The grid with the modules of column `x` from row `y0` to row `y1`
    /// replaced.
    pub open spec fn set_col(self, x: int, y0: int, y1: int, v: Module) -> Grid
        decreases y1 - y0 + 1,
    {
        if y1 < y0 {
            self
        } else {
            self.set_col(x, y0, y1 - 1, v).set(x, y1, v)
        }
    }

    /// The grid with the modules of a rectangle replaced, corners included.
    pub open spec fn set_rect(self, x0: int, y0: int, x1: int, y1: int, v: Module) -> Grid
        decreases x1 - x0 + 1,
    {
        if x1 < x0 {
            self
        } else {
            self.set_rect(x0, y0, x1 - 1, y1, v).set_col(x1, y0, y1, v)
        }
    }

    /// The grid with the modules of a square of width `w` replaced.
    pub open spec fn set_square(self, x: int, y: int, w: int, v: Module) -> Grid {
        self.set_rect(x, y, x + w - 1, y + w - 1, v)
    }

    /// The grid with the outline of a square of width `w` replaced: its top
    /// and bottom row, then what is left of its left and right column.
    pub open spec fn set_square_outline(self, x: int, y: int, w: int, v: Module) -> Grid {
        let rows = self.set_rect(x, y, x + w - 1, y, v).set_rect(
            x,
            y + w - 1,
            x + w - 1,
            y + w - 1,
            v,
        );
        if w >= 3 {
            rows.set_rect(x, y + 1, x, y + w - 2, v).set_rect(
                x + w - 1,
                y + 1,
                x + w - 1,
                y + w - 2,
                v,
            )
        } else {
            rows
        }
    }

    /// Whether a rectangle holds any module other than Unknown.
    pub open spec fn any_in_rect(self, x0: int, y0: int, x1: int, y1: int) -> bool {
        exists|x: int, y: int|
            x0 <= x <= x1 && y0 <= y <= y1 && #[trigger] self.at(x, y) != Module::Unknown
    }

    /// Whether the grid holds function and data modules only.
    pub open spec fn complete(self) -> bool {
        forall|k: int| 0 <= k < self.cells.len() ==> (#[trigger] self.cells[k]).settled()
    }
}

/// A matrix is a 2-dimensional grid holding the QR modules.
#[derive(Debug, PartialEq, Eq)]
pub struct Matrix {
    /// Size defines the width and height of the matrix.
    pub size: usize,
    /// The modules.
    pub modules: Vec<Module>,
}

impl View for Matrix {
    type V = Grid;

    open spec fn view(&self) -> Grid {
        Grid { size: self.size as int, cells: self.modules@ }
    }
}

impl Clone for Matrix {
    fn clone(&self) -> (r: Matrix)
        ensures
            r@ == self@,
    {
        let mut modules: Vec<Module> = Vec::new();
        let mut i: usize = 0;
        while i < self.modules.len()
            invariant
                i <= self.modules@.len(),
                modules@ == self.modules@.subrange(0, i as int),
            decreases self.modules@.len() - i,
        {
            modules.push(self.modules[i]);
            i = i + 1;
            assert(modules@ =~= self.modules@.subrange(0, i as int));
        }
        assert(self.modules@.subrange(0, i as int) =~= self.modules@);
        Matrix { size: self.size, modules }
    }
}

impl Matrix {
    /// The matrix holds `size * size` modules.
    pub open spec fn wf(&self) -> bool {
        self@.wf()
    }

    /// Create a new matrix, modules initialized to Unknown.
    pub fn new(size: usize) -> (r: Matrix)
        requires
            size * size <= usize::MAX,
        ensures
            r.wf(),
            r@ == Grid::blank(size as int),
    {
        let n: usize = size * size;
        let mut modules: Vec<Module> = Vec::new();
        let mut i: usize = 0;
        while i < n
            invariant
                i <= n,
                modules@.len() == i,
                forall|k: int| 0 <= k < i ==> modules@[k] == Module::Unknown,
            decreases n - i,
        {
            modules.push(Module::Unknown);
            i = i + 1;
        }
        let r = Matrix { size, modules };
        assert(r@.cells =~= Grid::blank(size as int).cells);
        r
    }

    /// Map (x,y) coords to linear index.
    pub fn index(&self, x: usize, y: usize) -> (r: usize)
        requires
            self.wf(),
            x < self.size,
            y < self.size,
        ensures
            r == y * self.size + x,
            r < self.modules@.len(),
    {
        let len: usize = self.modules.len();
        proof {
            lemma_index_bound(self.size as int, x as int, y as int);
            assert(0 <= y * self.size) by (nonlinear_arith)
                requires
                    0 <= y,
                    0 <= self.size,
            ;
        }
        y * self.size + x
    }

    /// Get module.
    pub fn get(&self, x: usize, y: usize) -> (r: &Module)
        requires
            self.wf(),
            x < self.size,
            y < self.size,
        ensures
            *r == self@.at(x as int, y as int),
    {
        &self.modules[self.index(x, y)]
    }

    /// Get mutable module.
    pub fn get_mut(&mut self, x: usize, y: usize) -> (r: &mut Module)
        requires
            old(self).wf(),
            x < old(self).size,
            y < old(self).size,
        ensures
            *r == old(self)@.at(x as int, y as int),
            final(self).size == old(self).size,
            final(self)@ == old(self)@.set(x as int, y as int, *final(r)),
    {
        let i: usize = self.index(x, y);
        &mut self.modules[i]
    }

    /// Returns true if the module at x,y is dark.
    pub fn is_dark(&self, x: usize, y: usize) -> (r: bool)
        requires
            self.wf(),
            x < self.size,
            y < self.size,
        ensures
            r == self@.at(x as int, y as int).dark(),
    {
        self.get(x, y).is_dark()
    }

    /// Return true if the module at x,y is a function module.
    pub fn is_fun(&self, x: usize, y: usize) -> (r: bool)
        requires
            self.wf(),
            x < self.size,
            y < self.size,
        ensures
            r == self@.at(x as int, y as int).fun(),
    {
        self.get(x, y).is_fun()
    }

    /// Return true if the module at x,y contains data.
    pub fn is_data(&self, x: usize, y: usize) -> (r: bool)
        requires
            self.wf(),
            x < self.size,
            y < self.size,
        ensures
            r == self@.at(x as int, y as int).data(),
    {
        self.get(x, y).is_data()
    }

    /// Assign a module.
    pub fn set(&mut self, x: usize, y: usize, v: Module)
        requires
            old(self).wf(),
            x < old(self).size,
            y < old(self).size,
        ensures
            final(self).wf(),
            final(self)@ == old(self)@.set(x as int, y as int, v),
    {
        let i: usize = self.index(x, y);
        self.modules.set(i, v);
    }

    /// Assign a function module.
    /// The existing module must not be a Data module.
    pub fn set_fun(&mut self, x: usize, y: usize, v: bool)
        requires
            old(self).wf(),
            x < old(self).size,
            y < old(self).size,
            !old(self)@.at(x as int, y as int).data(),
        ensures
            final(self).wf(),
            final(self)@ == old(self)@.set(x as int, y as int, Module::Function(v)),
    {
        self.set(x, y, Module::Function(v));
    }

    /// Assign a data module.
    /// The existing module must be Unknown.
    pub fn set_data(&mut self, x: usize, y: usize, v: bool)
        requires
            old(self).wf(),
            x < old(self).size,
            y < old(self).size,
            old(self)@.at(x as int, y as int) == Module::Unknown,
        ensures
            final(self).wf(),
            final(self)@ == old(self)@.set(x as int, y as int, Module::Data(v)),
    {
        self.set(x, y, Module::Data(v));
    }

    /// Flip a module, which must be a data module.
    pub fn flip(&mut self, x: usize, y: usize)
        requires
            old(self).wf(),
            x < old(self).size,
            y < old(self).size,
            old(self)@.at(x as int, y as int).data(),
        ensures
            final(self).wf(),
            final(self)@ == old(self)@.set(
                x as int,
                y as int,
                old(self)@.at(x as int, y as int).inverse(),
            ),
    {
        let m: Module = *self.get(x, y);
        self.set(x, y, m.flipped());
    }

    /// Set square outline.
    pub fn set_square_outline(&mut self, x: usize, y: usize, w: usize, v: Module)
        requires
            old(self).wf(),
            w >= 1,
            x + w <= old(self).size,
            y + w <= old(self).size,
        ensures
            final(self).wf(),
            final(self).size == old(self).size,
            final(self)@ == old(self)@.set_square_outline(x as int, y as int, w as int, v),
    {
        // Above and below
        self.set_rect(x, y, x + w - 1, y, v);
        self.set_rect(x, y + w - 1, x + w - 1, y + w - 1, v);
        // Left and right
        if w >= 3 {
            self.set_rect(x, y + 1, x, y + w - 2, v);
            self.set_rect(x + w - 1, y + 1, x + w - 1, y + w - 2, v);
        }
    }

    /// Set square.
    pub fn set_square(&mut self, x: usize, y: usize, w: usize, v: Module)
        requires
            old(self).wf(),
            w >= 1,
            x + w <= old(self).size,
            y + w <= old(self).size,
        ensures
            final(self).wf(),
            final(self).size == old(self).size,
            final(self)@ == old(self)@.set_square(x as int, y as int, w as int, v),
    {
        self.set_rect(x, y, x + w - 1, y + w - 1, v);
    }

    /// Set rect, corners included.
    pub fn set_rect(&mut self, x0: usize, y0: usize, x1: usize, y1: usize, v: Module)
        requires
            old(self).wf(),
            x1 < old(self).size,
            y1 < old(self).size,
        ensures
            final(self).wf(),
            final(self).size == old(self).size,
            final(self)@ == old(self)@.set_rect(x0 as int, y0 as int, x1 as int, y1 as int, v),
    {
        let mut a: usize = x0;
        while a <= x1
            invariant
                self.wf(),
                self.size == old(self).size,
                x1 < self.size,
                y1 < self.size,
                x0 <= a,
                a == x0 || a <= x1 + 1,
                self@ == old(self)@.set_rect(x0 as int, y0 as int, a - 1, y1 as int, v),
            decreases x1 + 1 - a,
        {
            let ghost column = self@;
            let mut b: usize = y0;
            while b <= y1
                invariant
                    self.wf(),
                    self.size == old(self).size,
                    a <= x1 < self.size,
                    y1 < self.size,
                    y0 <= b,
                    b == y0 || b <= y1 + 1,
                    self@ == column.set_col(a as int, y0 as int, b - 1, v),
                decreases y1 + 1 - b,
            {
                self.set(a, b, v);
                b = b + 1;
            }
            assert(self@ == column.set_col(a as int, y0 as int, y1 as int, v));
            a = a + 1;
        }
        assert(self@ == old(self)@.set_rect(x0 as int, y0 as int, x1 as int, y1 as int, v));
    }

    /// Return true if there's any module other than Unknown in square.
    pub fn any_in_square(&self, x: usize, y: usize, w: usize) -> (r: bool)
        requires
            self.wf(),
            w >= 1,
            x + w <= self.size,
            y + w <= self.size,
        ensures
            r == self@.any_in_rect(x as int, y as int, x + w - 1, y + w - 1),
    {
        self.any_in_rect(x, y, x + w - 1, y + w - 1)
    }

    /// Return true if there's any module other than Unknown in rect.
    pub fn any_in_rect(&self, x0: usize, y0: usize, x1: usize, y1: usize) -> (r: bool)
        requires
            self.wf(),
            x1 < self.size,
            y1 < self.size,
        ensures
            r == self@.any_in_rect(x0 as int, y0 as int, x1 as int, y1 as int),
    {
        let mut a: usize = x0;
        while a <= x1
            invariant
                self.wf(),
                x1 < self.size,
                y1 < self.size,
                x0 <= a,
                forall|x: int, y: int|
                    x0 <= x < a && y0 <= y <= y1 ==> #[trigger] self@.at(x, y) == Module::Unknown,
            decreases x1 + 1 - a,
        {
            let mut b: usize = y0;
            while b <= y1
                invariant
                    self.wf(),
                    x0 <= a <= x1 < self.size,
                    y1 < self.size,
                    y0 <= b,
                    forall|x: int, y: int|
                        x0 <= x < a && y0 <= y <= y1 ==> #[trigger] self@.at(x, y)
                            == Module::Unknown,
                    forall|y: int| y0 <= y < b ==> #[trigger] self@.at(a as int, y) == Module::Unknown,
                decreases y1 + 1 - b,
            {
                match *self.get(a, b) {
                    Module::Unknown => {},
                    _ => {
                        assert(self@.at(a as int, b as int) != Module::Unknown);
                        return true;
                    },
                }
                b = b + 1;
            }
            a = a + 1;
        }
        false
    }

    /// Return true if the matrix is complete, that's if it only contains
    /// Data or Function modules.
    pub fn complete(&self) -> (r: bool)
        ensures
            r == self@.complete(),
    {
        let mut i: usize = 0;
        while i < self.modules.len()
            invariant
                i <= self.modules@.len(),
                forall|k: int| 0 <= k < i ==> (#[trigger] self.modules@[k]).settled(),
            decreases self.modules@.len() - i,
        {
            match self.modules[i] {
                Module::Unknown => {
                    assert(!self@.cells[i as int].settled());
                    return false;
                },
                Module::Reserved => {
                    assert(!self@.cells[i as int].settled());
                    return false;
                },
                _ => {},
            }
            i = i + 1;
        }
        true
    }
}

/// A coordinate on a grid of width `n` has a place in the row-major sequence.
pub proof fn lemma_index_bound(n: int, x: int, y: int)
    requires
        0 <= x < n,
        0 <= y < n,
    ensures
        0 <= y * n + x < n * n,
{
    assert(y * n + x < n * n) by (nonlinear_arith)
        requires
            0 <= x < n,
            0 <= y < n,
    ;
    assert(0 <= y * n) by (nonlinear_arith)
        requires
            0 <= y,
            0 <= n,
    ;
}

/// Two coordinates with the same place in the row-major sequence are the same.
pub proof fn lemma_index_injective(n: int, x: int, y: int, x2: int, y2: int)
    requires
        0 <= x < n,
        0 <= x2 < n,
        0 <= y,
        0 <= y2,
        y * n + x == y2 * n + x2,
    ensures
        x == x2,
        y == y2,
{
    if y < y2 {
        assert(y2 * n >= (y + 1) * n) by (nonlinear_arith)
            requires
                y2 >= y + 1,
                n > 0,
        ;
        assert((y + 1) * n == y * n + n) by (nonlinear_arith);
    } else if y2 < y {
        assert(y * n >= (y2 + 1) * n) by (nonlinear_arith)
            requires
                y >= y2 + 1,
                n > 0,
        ;
        assert((y2 + 1) * n == y2 * n + n) by (nonlinear_arith);
    }
}

/// Replacing one module leaves the others as they are.
pub proof fn lemma_set_at(g: Grid, x: int, y: int, v: Module, a: int, b: int)
    requires
        g.wf(),
        g.on(x, y),
        g.on(a, b),
    ensures
        g.set(x, y, v).wf(),
        g.set(x, y, v).size == g.size,
        g.set(x, y, v).at(a, b) == if a == x && b == y {
            v
        } else {
            g.at(a, b)
        },
{
    lemma_index_bound(g.size, x, y);
    lemma_index_bound(g.size, a, b);
    if y * g.size + x == b * g.size + a {
        lemma_index_injective(g.size, x, y, a, b);
    }
}

/// Replacing part of a column changes the modules of that part and no
/// others.
pub proof fn lemma_set_col_at(g: Grid, x: int, y0: int, y1: int, v: Module, a: int, b: int)
    requires
        g.wf(),
        0 <= x < g.size,
        0 <= y0,
        y1 < g.size,
        g.on(a, b),
    ensures
        g.set_col(x, y0, y1, v).wf(),
        g.set_col(x, y0, y1, v).size == g.size,
        g.set_col(x, y0, y1, v).at(a, b) == if a == x && y0 <= b <= y1 {
            v
        } else {
            g.at(a, b)
        },
    decreases y1 - y0 + 1,
{
    if y1 >= y0 {
        lemma_set_col_at(g, x, y0, y1 - 1, v, a, b);
        lemma_set_at(g.set_col(x, y0, y1 - 1, v), x, y1, v, a, b);
    }
}

/// Replacing a rectangle changes the modules of the rectangle and no others.
pub proof fn lemma_set_rect_at(
    g: Grid,
    x0: int,
    y0: int,
    x1: int,
    y1: int,
    v: Module,
    a: int,
    b: int,
)
    requires
        g.wf(),
        0 <= x0,
        0 <= y0,
        x1 < g.size,
        y1 < g.size,
        g.on(a, b),
    ensures
        g.set_rect(x0, y0, x1, y1, v).wf(),
        g.set_rect(x0, y0, x1, y1, v).size == g.size,
        g.set_rect(x0, y0, x1, y1, v).at(a, b) == if x0 <= a <= x1 && y0 <= b <= y1 {
            v
        } else {
            g.at(a, b)
        },
    decreases x1 - x0 + 1,
{
    if x1 >= x0 {
        lemma_set_rect_at(g, x0, y0, x1 - 1, y1, v, a, b);
        lemma_set_col_at(g.set_rect(x0, y0, x1 - 1, y1, v), x1, y0, y1, v, a, b);
    }
}

/// Replacing part of a column keeps the size of a grid.
pub proof fn lemma_set_col_wf(g: Grid, x: int, y0: int, y1: int, v: Module)
    requires
        g.wf(),
        0 <= x < g.size,
        0 <= y0,
        y1 < g.size,
    ensures
        g.set_col(x, y0, y1, v).wf(),
        g.set_col(x, y0, y1, v).size == g.size,
    decreases y1 - y0 + 1,
{
    if y1 >= y0 {
        lemma_set_col_wf(g, x, y0, y1 - 1, v);
        lemma_index_bound(g.size, x, y1);
    }
}

/// Replacing a rectangle keeps the size of a grid.
pub proof fn lemma_set_rect_wf(g: Grid, x0: int, y0: int, x1: int, y1: int, v: Module)
    requires
        g.wf(),
        0 <= x0,
        0 <= y0,
        x1 < g.size,
        y1 < g.size,
    ensures
        g.set_rect(x0, y0, x1, y1, v).wf(),
        g.set_rect(x0, y0, x1, y1, v).size == g.size,
    decreases x1 - x0 + 1,
{
    if x1 >= x0 {
        lemma_set_rect_wf(g, x0, y0, x1 - 1, y1, v);
        lemma_set_col_wf(g.set_rect(x0, y0, x1 - 1, y1, v), x1, y0, y1, v);
    }
}

} // verus!
