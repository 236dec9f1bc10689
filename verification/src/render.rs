//! Renders the QR code to text.
use crate::matrix::{Grid, Matrix, Module};
use crate::qr::Qr;
use vstd::prelude::*;
use vstd::string::StrSliceExecFns;

verus! {

/// `String::from_iter` of the standard library, for a vector of characters:
/// the string made of those characters in order.
#[verifier::external_body]
pub(crate) fn chars_to_string(v: Vec<char>) -> (r: String)
    ensures
        r@ == v@,
{
    String::from_iter(v)
}

/// `n` times the character `c`.
pub open spec fn repeated(c: char, n: int) -> Seq<char> {
    Seq::new(n as nat, |i: int| c)
}

/// Adds `n` times the character `c`.
pub fn push_repeated(out: &mut Vec<char>, c: char, n: usize)
    ensures
        final(out)@ == old(out)@ + repeated(c, n as int),
{
    let mut i: usize = 0;
    assert(out@ =~= old(out)@ + repeated(c, 0));
    while i < n
        invariant
            i <= n,
            out@ == old(out)@ + repeated(c, i as int),
        decreases n - i,
    {
        out.push(c);
        i = i + 1;
        assert(out@ =~= old(out)@ + repeated(c, i as int));
    }
}

/// A string renderer for converting a QR code into a representation
/// suitable for text output.
#[derive(Debug, Clone, Copy)]
pub struct StringRenderer {
    /// The character of a light module.
    pub light: char,
    /// The character of a dark module.
    pub dark: char,
    /// How many characters wide a module is.
    pub module_w: usize,
    /// How many lines high a module is.
    pub module_h: usize,
    /// Whether a quiet zone is put round the symbol.
    pub qz: bool,
}

impl StringRenderer {
    /// The characters of a line's quiet zone: four modules of spaces, or
    /// nothing without a quiet zone.
    pub open spec fn margin(self) -> Seq<char> {
        if self.qz {
            repeated(' ', 4 * self.module_w)
        } else {
            Seq::empty()
        }
    }

    /// The empty lines of the quiet zone above and below the symbol: four
    /// modules of them, or nothing without a quiet zone.
    pub open spec fn margin_lines(self) -> Seq<char> {
        if self.qz {
            repeated('\n', 4 * self.module_h)
        } else {
            Seq::empty()
        }
    }

    /// The character of a module.
    pub open spec fn symbol_of(self, m: Module) -> char {
        if m.dark() {
            self.dark
        } else {
            self.light
        }
    }

    /// The characters of the first `upto` modules of row `y`.
    pub open spec fn row_modules(self, g: Grid, y: int, upto: int) -> Seq<char>
        decreases upto,
    {
        if upto <= 0 {
            Seq::empty()
        } else {
            self.row_modules(g, y, upto - 1) + repeated(
                self.symbol_of(g.at(upto - 1, y)),
                self.module_w as int,
            )
        }
    }

    /// One line of text for row `y`: quiet zone, the modules, quiet zone,
    /// line feed.
    pub open spec fn line(self, g: Grid, y: int) -> Seq<char> {
        self.margin() + self.row_modules(g, y, g.size) + self.margin() + seq!['\n']
    }

    /// The line of row `y`, `times` times.
    pub open spec fn lines(self, g: Grid, y: int, times: int) -> Seq<char>
        decreases times,
    {
        if times <= 0 {
            Seq::empty()
        } else {
            self.lines(g, y, times - 1) + self.line(g, y)
        }
    }

    /// The text of the first `upto` rows.
    pub open spec fn rows(self, g: Grid, upto: int) -> Seq<char>
        decreases upto,
    {
        if upto <= 0 {
            Seq::empty()
        } else {
            self.rows(g, upto - 1) + self.lines(g, upto - 1, self.module_h as int)
        }
    }

    /// The text of a grid: the rows between the lines of the quiet zone.
    pub open spec fn text(self, g: Grid) -> Seq<char> {
        self.margin_lines() + self.rows(g, g.size) + self.margin_lines()
    }

    /// The renderer with `#` for dark and `.` for light modules, one
    /// character per module, no quiet zone.
    pub open spec fn plain() -> StringRenderer {
        StringRenderer { light: '.', dark: '#', module_w: 1, module_h: 1, qz: false }
    }

    /// Create a new renderer: `#` for dark and `.` for light modules, one
    /// character per module, no quiet zone.
    pub fn new() -> (r: Self)
        ensures
            r == StringRenderer::plain(),
    {
        Self { light: '.', dark: '#', module_w: 1, module_h: 1, qz: false }
    }

    /// Set the light module character.
    pub fn light_module(self, v: char) -> (r: Self)
        ensures
            r == (Self { light: v, ..self }),
    {
        let mut r = self;
        r.light = v;
        r
    }

    /// Set the dark module character.
    pub fn dark_module(self, v: char) -> (r: Self)
        ensures
            r == (Self { dark: v, ..self }),
    {
        let mut r = self;
        r.dark = v;
        r
    }

    /// Set if quiet zone should be produced.
    pub fn quiet_zone(self, v: bool) -> (r: Self)
        ensures
            r == (Self { qz: v, ..self }),
    {
        let mut r = self;
        r.qz = v;
        r
    }

    /// Set the module dimensions, in character count per module.
    pub fn module_dimensions(self, w: usize, h: usize) -> (r: Self)
        requires
            w > 0,
            h > 0,
        ensures
            r == (Self { module_w: w, module_h: h, ..self }),
    {
        let mut r = self;
        r.module_w = w;
        r.module_h = h;
        r
    }

    /// Render QR to string.
    pub fn render(&self, qr: &Qr) -> (r: String)
        requires
            qr.matrix.wf(),
            4 * self.module_w <= usize::MAX,
            4 * self.module_h <= usize::MAX,
        ensures
            r@ == self.text(qr.matrix@),
    {
        self.render_matrix(&qr.matrix)
    }

    /// Render matrix to string.
    pub fn render_matrix(&self, matrix: &Matrix) -> (r: String)
        requires
            matrix.wf(),
            4 * self.module_w <= usize::MAX,
            4 * self.module_h <= usize::MAX,
        ensures
            r@ == self.text(matrix@),
    {
        let mut res: Vec<char> = Vec::new();
        self.qz_lines(&mut res);
        let ghost top = res@;
        let mut y: usize = 0;
        assert(res@ =~= top + self.rows(matrix@, 0));
        while y < matrix.size
            invariant
                matrix.wf(),
                4 * self.module_w <= usize::MAX,
                y <= matrix.size,
                res@ == top + self.rows(matrix@, y as int),
            decreases matrix.size - y,
        {
            // Duplicate rows for larger module dimensions.
            let ghost before = res@;
            let mut k: usize = 0;
            assert(res@ =~= before + self.lines(matrix@, y as int, 0));
            while k < self.module_h
                invariant
                    matrix.wf(),
                    4 * self.module_w <= usize::MAX,
                    y < matrix.size,
                    k <= self.module_h,
                    res@ == before + self.lines(matrix@, y as int, k as int),
                decreases self.module_h - k,
            {
                let ghost start = res@;
                self.qz_chars(&mut res);
                let ghost lead = res@;
                let mut x: usize = 0;
                assert(res@ =~= lead + self.row_modules(matrix@, y as int, 0));
                while x < matrix.size
                    invariant
                        matrix.wf(),
                        y < matrix.size,
                        x <= matrix.size,
                        res@ == lead + self.row_modules(matrix@, y as int, x as int),
                    decreases matrix.size - x,
                {
                    let c: char = if matrix.is_dark(x, y) {
                        self.dark
                    } else {
                        self.light
                    };
                    // Duplicate chars for larger module dimensions.
                    push_repeated(&mut res, c, self.module_w);
                    x = x + 1;
                    assert(res@ =~= lead + self.row_modules(matrix@, y as int, x as int));
                }
                self.qz_chars(&mut res);
                res.push('\n');
                k = k + 1;
                assert(res@ =~= start + self.line(matrix@, y as int));
                assert(res@ =~= before + self.lines(matrix@, y as int, k as int));
            }
            y = y + 1;
            assert(res@ =~= top + self.rows(matrix@, y as int));
        }
        self.qz_lines(&mut res);
        assert(res@ =~= self.text(matrix@));
        chars_to_string(res)
    }

    /// Append empty lines for quiet zone padding.
    pub fn qz_lines(&self, s: &mut Vec<char>)
        requires
            4 * self.module_h <= usize::MAX,
        ensures
            final(s)@ == old(s)@ + self.margin_lines(),
    {
        if self.qz {
            push_repeated(s, '\n', 4 * self.module_h);
        } else {
            assert(s@ =~= old(s)@ + self.margin_lines());
        }
    }

    /// Append whitespace chars for quiet zone padding.
    pub fn qz_chars(&self, s: &mut Vec<char>)
        requires
            4 * self.module_w <= usize::MAX,
        ensures
            final(s)@ == old(s)@ + self.margin(),
    {
        if self.qz {
            push_repeated(s, ' ', 4 * self.module_w);
        } else {
            assert(s@ =~= old(s)@ + self.margin());
        }
    }
}

/// The character that shows what kind of module a module is: `?` unknown,
/// `*` reserved, `#` and `.` dark and light function modules, `X` and `-`
/// dark and light data modules.
pub open spec fn dbg_char(m: Module) -> char {
    match m {
        Module::Unknown => '?',
        Module::Reserved => '*',
        Module::Function(true) => '#',
        Module::Function(false) => '.',
        Module::Data(true) => 'X',
        Module::Data(false) => '-',
    }
}

/// The first `upto` characters of row `y`.
pub open spec fn dbg_row(g: Grid, y: int, upto: int) -> Seq<char> {
    Seq::new(upto as nat, |x: int| dbg_char(g.at(x, y)))
}

/// The text of the first `upto` rows, each ended by a line feed.
pub open spec fn dbg_rows(g: Grid, upto: int) -> Seq<char>
    decreases upto,
{
    if upto <= 0 {
        Seq::empty()
    } else {
        dbg_rows(g, upto - 1) + dbg_row(g, upto - 1, g.size) + seq!['\n']
    }
}

/// The text that shows the kinds of the modules of a grid: a line feed, then
/// the rows.
pub open spec fn dbg_text(g: Grid) -> Seq<char> {
    seq!['\n'] + dbg_rows(g, g.size)
}

/// Convert to string, with chars for the different underlying representations.
pub fn to_dbg_string(matrix: &Matrix) -> (r: String)
    requires
        matrix.wf(),
    ensures
        r@ == dbg_text(matrix@),
{
    let mut res: Vec<char> = Vec::new();
    res.push('\n');
    let mut y: usize = 0;
    assert(res@ =~= seq!['\n'] + dbg_rows(matrix@, 0));
    while y < matrix.size
        invariant
            matrix.wf(),
            y <= matrix.size,
            res@ == seq!['\n'] + dbg_rows(matrix@, y as int),
        decreases matrix.size - y,
    {
        let ghost before = res@;
        let mut x: usize = 0;
        assert(res@ =~= before + dbg_row(matrix@, y as int, 0));
        while x < matrix.size
            invariant
                matrix.wf(),
                y < matrix.size,
                x <= matrix.size,
                res@ == before + dbg_row(matrix@, y as int, x as int),
            decreases matrix.size - x,
        {
            let c: char = match *matrix.get(x, y) {
                Module::Unknown => '?',
                Module::Reserved => '*',
                Module::Function(true) => '#',
                Module::Function(false) => '.',
                Module::Data(true) => 'X',
                Module::Data(false) => '-',
            };
            res.push(c);
            x = x + 1;
            assert(res@ =~= before + dbg_row(matrix@, y as int, x as int));
        }
        res.push('\n');
        y = y + 1;
        assert(res@ =~= seq!['\n'] + dbg_rows(matrix@, y as int));
    }
    chars_to_string(res)
}

/// Convert to string with `#` for dark and `.` for light modules.
pub fn to_string(matrix: &Matrix) -> (r: String)
    requires
        matrix.wf(),
    ensures
        r@ == StringRenderer::plain().text(matrix@),
{
    StringRenderer::new().render_matrix(matrix)
}

/// An RGB color.
#[derive(Clone, Copy, PartialEq, Eq, Debug, Structural)]
pub struct Color {
    /// Red.
    pub r: u8,
    /// Green.
    pub g: u8,
    /// Blue.
    pub b: u8,
}

/// An error from trying to parse a Color instance from string.
#[derive(Debug, Copy, Clone)]
pub struct ParseColorError;

/// The value of a hexadecimal digit, by its code point, or -1 for another
/// character.
pub open spec fn hex_value(c: int) -> int {
    if 48 <= c <= 57 {
        c - 48
    } else if 97 <= c <= 102 {
        c - 87
    } else if 65 <= c <= 70 {
        c - 55
    } else {
        -1
    }
}

/// The lower case hexadecimal digit of a value below 16.
pub open spec fn hex_char(v: int) -> char {
    if v < 10 {
        (48 + v) as char
    } else {
        (87 + v) as char
    }
}

/// Whether a text of at least four characters is `#` and three hexadecimal
/// digits.
pub open spec fn is_short_hex(s: Seq<char>) -> bool {
    s[0] == '#' && hex_value(s[1] as int) >= 0 && hex_value(s[2] as int) >= 0 && hex_value(
        s[3] as int,
    ) >= 0
}

/// The colour that `#` and three hexadecimal digits stand for: each digit is
/// doubled.
pub open spec fn short_hex_color(s: Seq<char>) -> Color {
    Color {
        r: (17 * hex_value(s[1] as int)) as u8,
        g: (17 * hex_value(s[2] as int)) as u8,
        b: (17 * hex_value(s[3] as int)) as u8,
    }
}

/// Whether a text of at least seven characters is `#` and six hexadecimal
/// digits.
pub open spec fn is_long_hex(s: Seq<char>) -> bool {
    s[0] == '#' && forall|i: int| 1 <= i <= 6 ==> hex_value(#[trigger] s[i] as int) >= 0
}

/// The colour that `#` and six hexadecimal digits stand for.
pub open spec fn long_hex_color(s: Seq<char>) -> Color {
    Color {
        r: (16 * hex_value(s[1] as int) + hex_value(s[2] as int)) as u8,
        g: (16 * hex_value(s[3] as int) + hex_value(s[4] as int)) as u8,
        b: (16 * hex_value(s[5] as int) + hex_value(s[6] as int)) as u8,
    }
}

/// The text of a colour: `#` and six lower case hexadecimal digits.
pub open spec fn hex_text(c: Color) -> Seq<char> {
    seq![
        '#',
        hex_char(c.r as int / 16),
        hex_char(c.r as int % 16),
        hex_char(c.g as int / 16),
        hex_char(c.g as int % 16),
        hex_char(c.b as int / 16),
        hex_char(c.b as int % 16),
    ]
}

/// The value of a hexadecimal digit, or `None` for another character.
pub fn hex_digit(c: char) -> (r: Option<u8>)
    ensures
        match r {
            Some(v) => v == hex_value(c as int) && v < 16,
            None => hex_value(c as int) == -1,
        },
{
    let code: u32 = c as u32;
    if 48 <= code && code <= 57 {
        Some((code - 48) as u8)
    } else if 97 <= code && code <= 102 {
        Some((code - 87) as u8)
    } else if 65 <= code && code <= 70 {
        Some((code - 55) as u8)
    } else {
        None
    }
}

/// The lower case hexadecimal digit of a value below 16.
pub fn hex_digit_char(v: u8) -> (r: char)
    requires
        v < 16,
    ensures
        r == hex_char(v as int),
{
    if v < 10 {
        (48 + v) as char
    } else {
        (87 + v) as char
    }
}

impl Color {
    /// Create a new from rgb parts.
    pub fn new(r: u8, g: u8, b: u8) -> (c: Self)
        ensures
            c == (Color { r, g, b }),
    {
        Self { r, g, b }
    }

    /// Create a new color from a hex input: the lowest three bytes of `v` are
    /// red, green and blue.
    pub fn hex(v: u32) -> (c: Self)
        ensures
            c.r == (v >> 16) & 0xff,
            c.g == (v >> 8) & 0xff,
            c.b == v & 0xff,
    {
        let r: u32 = (v >> 16) & 0xff;
        let g: u32 = (v >> 8) & 0xff;
        let b: u32 = v & 0xff;
        assert(r < 256 && g < 256 && b < 256) by (bit_vector)
            requires
                r == (v >> 16) & 0xff,
                g == (v >> 8) & 0xff,
                b == v & 0xff,
        ;
        Self { r: r as u8, g: g as u8, b: b as u8 }
    }

    /// Create a new color from a length 4 input hex, `#700` being short for
    /// `#770000`.
    pub fn from_4_hex(s: &str) -> (r: Result<Self, ParseColorError>)
        requires
            s@.len() >= 4,
        ensures
            r is Ok <==> is_short_hex(s@),
            r is Ok ==> r->Ok_0 == short_hex_color(s@),
    {
        if s.get_char(0) != '#' {
            return Err(ParseColorError);
        }
        let r = match hex_digit(s.get_char(1)) {
            Some(v) => v,
            None => {
                return Err(ParseColorError);
            },
        };
        let g = match hex_digit(s.get_char(2)) {
            Some(v) => v,
            None => {
                return Err(ParseColorError);
            },
        };
        let b = match hex_digit(s.get_char(3)) {
            Some(v) => v,
            None => {
                return Err(ParseColorError);
            },
        };
        Ok(Color { r: 17 * r, g: 17 * g, b: 17 * b })
    }

    /// Create a new color from a length 7 input hex.
    pub fn from_7_hex(s: &str) -> (r: Result<Self, ParseColorError>)
        requires
            s@.len() >= 7,
        ensures
            r is Ok <==> is_long_hex(s@),
            r is Ok ==> r->Ok_0 == long_hex_color(s@),
    {
        if s.get_char(0) != '#' {
            return Err(ParseColorError);
        }
        let mut digits: Vec<u8> = Vec::new();
        let mut i: usize = 1;
        while i <= 6
            invariant
                1 <= i <= 7,
                s@.len() >= 7,
                digits@.len() == i - 1,
                forall|k: int|
                    1 <= k < i ==> hex_value(#[trigger] s@[k] as int) == digits@[k - 1]
                        && digits@[k - 1] < 16,
            decreases 7 - i,
        {
            match hex_digit(s.get_char(i)) {
                Some(v) => {
                    digits.push(v);
                },
                None => {
                    assert(hex_value(s@[i as int] as int) == -1);
                    return Err(ParseColorError);
                },
            }
            i = i + 1;
        }
        assert(hex_value(s@[1] as int) == digits@[0]);
        assert(hex_value(s@[2] as int) == digits@[1]);
        assert(hex_value(s@[3] as int) == digits@[2]);
        assert(hex_value(s@[4] as int) == digits@[3]);
        assert(hex_value(s@[5] as int) == digits@[4]);
        assert(hex_value(s@[6] as int) == digits@[5]);
        Ok(
            Color {
                r: 16 * digits[0] + digits[1],
                g: 16 * digits[2] + digits[3],
                b: 16 * digits[4] + digits[5],
            },
        )
    }

    /// Parses `#RGB` or `#RRGGBB`.
    pub fn parse(s: &str) -> (r: Result<Self, ParseColorError>)
        ensures
            r is Ok <==> (s@.len() == 4 && is_short_hex(s@)) || (s@.len() == 7 && is_long_hex(s@)),
            r is Ok && s@.len() == 4 ==> r->Ok_0 == short_hex_color(s@),
            r is Ok && s@.len() == 7 ==> r->Ok_0 == long_hex_color(s@),
    {
        let n: usize = s.unicode_len();
        if n == 4 {
            Color::from_4_hex(s)
        } else if n == 7 {
            Color::from_7_hex(s)
        } else {
            Err(ParseColorError)
        }
    }

    /// Convert to a hex string: `#` and six lower case hexadecimal digits.
    pub fn to_hex_str(&self) -> (r: String)
        ensures
            r@ == hex_text(*self),
    {
        let mut out: Vec<char> = Vec::new();
        out.push('#');
        out.push(hex_digit_char(self.r / 16));
        out.push(hex_digit_char(self.r % 16));
        out.push(hex_digit_char(self.g / 16));
        out.push(hex_digit_char(self.g % 16));
        out.push(hex_digit_char(self.b / 16));
        out.push(hex_digit_char(self.b % 16));
        assert(out@ =~= hex_text(*self));
        chars_to_string(out)
    }
}

impl core::str::FromStr for Color {
    type Err = ParseColorError;

    /// Parses `#RGB` or `#RRGGBB`: succeeds on `#` followed by three or by
    /// six hexadecimal digits and on nothing else, and gives the colour that
    /// the digits stand for.
    fn from_str(s: &str) -> (r: Result<Self, Self::Err>)
        ensures
            r is Ok <==> (s@.len() == 4 && is_short_hex(s@)) || (s@.len() == 7 && is_long_hex(s@)),
            r is Ok && s@.len() == 4 ==> r->Ok_0 == short_hex_color(s@),
            r is Ok && s@.len() == 7 ==> r->Ok_0 == long_hex_color(s@),
    {
        Color::parse(s)
    }
}

/// The decimal digits of a number.
pub open spec fn decimal(n: int) -> Seq<char>
    decreases n,
{
    if n < 10 {
        seq![hex_char(n)]
    } else {
        decimal(n / 10).push(hex_char(n % 10))
    }
}

/// Adds the decimal digits of a number.
pub fn push_decimal(out: &mut Vec<char>, n: usize)
    ensures
        final(out)@ == old(out)@ + decimal(n as int),
    decreases n,
{
    if n >= 10 {
        push_decimal(out, n / 10);
    }
    out.push(hex_digit_char((n % 10) as u8));
    assert(out@ =~= old(out)@ + decimal(n as int));
}

/// Adds the characters of a text.
pub fn push_str(out: &mut Vec<char>, s: &str)
    ensures
        final(out)@ == old(out)@ + s@,
{
    let n: usize = s.unicode_len();
    let mut i: usize = 0;
    assert(out@ =~= old(out)@ + s@.subrange(0, 0));
    while i < n
        invariant
            i <= n == s@.len(),
            out@ == old(out)@ + s@.subrange(0, i as int),
        decreases n - i,
    {
        out.push(s.get_char(i));
        i = i + 1;
        assert(out@ =~= old(out)@ + s@.subrange(0, i as int));
    }
    assert(s@.subrange(0, n as int) =~= s@);
}

/// A renderer for converting a QR code into svg.
#[derive(Debug, Clone, Copy)]
pub struct SvgRenderer {
    /// The colour of light modules and of the quiet zone.
    pub light: Color,
    /// The colour of dark modules.
    pub dark: Color,
    /// The least width of the image in pixels.
    pub w: usize,
    /// The least height of the image in pixels.
    pub h: usize,
    /// Whether a quiet zone is put round the symbol.
    pub qz: bool,
}

/// The least count of cells of the given size that is no smaller than a
/// length: the length divided by the count and rounded up.
pub open spec fn cell_size(length: int, count: int) -> int {
    (length + count - 1) / count
}

impl SvgRenderer {
    /// The renderer with black modules on white, at least 200 pixels wide
    /// and high, with a quiet zone.
    pub open spec fn plain() -> SvgRenderer {
        SvgRenderer {
            light: Color { r: 255, g: 255, b: 255 },
            dark: Color { r: 0, g: 0, b: 0 },
            w: 200,
            h: 200,
            qz: true,
        }
    }

    /// How many cells the image has in each direction: the modules of the
    /// symbol, and four more on each side for a quiet zone.
    pub open spec fn cells(self, g: Grid) -> int {
        if self.qz {
            g.size + 8
        } else {
            g.size
        }
    }

    /// Where the cell with index `i` starts, for cells of the given size.
    pub open spec fn offset(self, i: int, size: int) -> int {
        if self.qz {
            (i + 4) * size
        } else {
            i * size
        }
    }

    /// The path of the module in column `x` of row `y`: a rectangle of one
    /// cell.
    pub open spec fn cell_path(self, g: Grid, x: int, y: int) -> Seq<char> {
        let cw = cell_size(self.w as int, self.cells(g));
        let ch = cell_size(self.h as int, self.cells(g));
        "M"@ + decimal(self.offset(x, cw)) + " "@ + decimal(self.offset(y, ch)) + "h"@ + decimal(
            cw,
        ) + "v"@ + decimal(ch) + "H"@ + decimal(self.offset(x, cw)) + "V"@ + decimal(
            self.offset(y, ch),
        )
    }

    /// The paths of the dark modules among the first `upto` of row `y`.
    pub open spec fn row_paths(self, g: Grid, y: int, upto: int) -> Seq<char>
        decreases upto,
    {
        if upto <= 0 {
            Seq::empty()
        } else if g.at(upto - 1, y).dark() {
            self.row_paths(g, y, upto - 1) + self.cell_path(g, upto - 1, y)
        } else {
            self.row_paths(g, y, upto - 1)
        }
    }

    /// The paths of the dark modules of the first `upto` rows.
    pub open spec fn paths(self, g: Grid, upto: int) -> Seq<char>
        decreases upto,
    {
        if upto <= 0 {
            Seq::empty()
        } else {
            self.paths(g, upto - 1) + self.row_paths(g, upto - 1, g.size)
        }
    }

    /// The svg text of a grid: a rectangle in the light colour over the whole
    /// image, and one path in the dark colour that holds a rectangle for
    /// each dark module. Width and height are whole multiples of the count of
    /// cells and no smaller than was asked for.
    pub open spec fn text(self, g: Grid) -> Seq<char> {
        let cw = cell_size(self.w as int, self.cells(g));
        let ch = cell_size(self.h as int, self.cells(g));
        let w = cw * self.cells(g);
        let h = ch * self.cells(g);
        "<?xml version=\"1.0\" standalone=\"yes\"?>\n<svg xmlns=\"http://www.w3.org/2000/svg\" version=\"1.1\"\n    viewBox=\"0 0 "@
            + decimal(w) + " "@ + decimal(h)
            + "\" shape-rendering=\"crispEdges\">\n<rect x=\"0\" y=\"0\" width=\""@
            + decimal(w) + "\" height=\""@ + decimal(h) + "\" fill=\""@ + hex_text(self.light)
            + "\"/>\n<path fill=\""@ + hex_text(self.dark) + "\" d=\""@ + self.paths(g, g.size)
            + "\"/></svg>\n"@
    }

    /// Create a new renderer: black on white, 200 pixels wide and high, with
    /// a quiet zone.
    pub fn new() -> (r: Self)
        ensures
            r == SvgRenderer::plain(),
    {
        Self {
            light: Color::new(255, 255, 255),
            dark: Color::new(0, 0, 0),
            w: 200,
            h: 200,
            qz: true,
        }
    }

    /// Set the light module color.
    /// Will also be the color of the quiet zone, if relevant.
    pub fn light_module(self, v: Color) -> (r: Self)
        ensures
            r == (Self { light: v, ..self }),
    {
        let mut r = self;
        r.light = v;
        r
    }

    /// Set the dark module color.
    pub fn dark_module(self, v: Color) -> (r: Self)
        ensures
            r == (Self { dark: v, ..self }),
    {
        let mut r = self;
        r.dark = v;
        r
    }

    /// Set if quiet zone should be produced.
    pub fn quiet_zone(self, v: bool) -> (r: Self)
        ensures
            r == (Self { qz: v, ..self }),
    {
        let mut r = self;
        r.qz = v;
        r
    }

    /// Set the dimensions of the output, in pixels.
    /// Includes the quiet zone, if relevant.
    pub fn dimensions(self, w: usize, h: usize) -> (r: Self)
        ensures
            r == (Self { w, h, ..self }),
    {
        let mut r = self;
        r.w = w;
        r.h = h;
        r
    }

    /// Render QR.
    pub fn render(&self, qr: &Qr) -> (r: String)
        requires
            qr.matrix.wf(),
            1 <= qr.matrix.size <= 177,
            self.w <= 0xff_ffff,
            self.h <= 0xff_ffff,
        ensures
            r@ == self.text(qr.matrix@),
    {
        self.render_matrix(&qr.matrix)
    }

    /// Render matrix.
    pub fn render_matrix(&self, matrix: &Matrix) -> (r: String)
        requires
            matrix.wf(),
            1 <= matrix.size <= 177,
            self.w <= 0xff_ffff,
            self.h <= 0xff_ffff,
        ensures
            r@ == self.text(matrix@),
    {
        let cell_count: usize = if self.qz {
            matrix.size + 8
        } else {
            matrix.size
        };
        // If not divided evenly adjust upwards and treat specified
        // width and height as minimums.
        let cell_w: usize = (self.w + cell_count - 1) / cell_count;
        let cell_h: usize = (self.h + cell_count - 1) / cell_count;
        assert(cell_w <= 0xff_ffff && cell_h <= 0xff_ffff) by (nonlinear_arith)
            requires
                cell_w == (self.w + cell_count - 1) / (cell_count as int),
                cell_h == (self.h + cell_count - 1) / (cell_count as int),
                1 <= cell_count,
                self.w <= 0xff_ffff,
                self.h <= 0xff_ffff,
        ;
        assert(cell_w * cell_count <= 0xff_ffff * 185 && cell_h * cell_count <= 0xff_ffff * 185)
            by (nonlinear_arith)
            requires
                cell_w <= 0xff_ffff,
                cell_h <= 0xff_ffff,
                cell_count <= 185,
        ;
        // We might grow larger so readjust dimensions.
        let w: usize = cell_w * cell_count;
        let h: usize = cell_h * cell_count;

        let mut res: Vec<char> = Vec::new();
        push_str(
            &mut res,
            "<?xml version=\"1.0\" standalone=\"yes\"?>\n<svg xmlns=\"http://www.w3.org/2000/svg\" version=\"1.1\"\n    viewBox=\"0 0 ",
        );
        push_decimal(&mut res, w);
        push_str(&mut res, " ");
        push_decimal(&mut res, h);
        push_str(
            &mut res,
            "\" shape-rendering=\"crispEdges\">\n<rect x=\"0\" y=\"0\" width=\"",
        );
        push_decimal(&mut res, w);
        push_str(&mut res, "\" height=\"");
        push_decimal(&mut res, h);
        push_str(&mut res, "\" fill=\"");
        let light = self.light.to_hex_str();
        push_str(&mut res, light.as_str());
        push_str(&mut res, "\"/>\n<path fill=\"");
        let dark = self.dark.to_hex_str();
        push_str(&mut res, dark.as_str());
        push_str(&mut res, "\" d=\"");
        let ghost head = res@;

        let mut y: usize = 0;
        assert(res@ =~= head + self.paths(matrix@, 0));
        while y < matrix.size
            invariant
                matrix.wf(),
                1 <= matrix.size <= 177,
                y <= matrix.size,
                cell_w <= 0xff_ffff,
                cell_h <= 0xff_ffff,
                cell_w == cell_size(self.w as int, self.cells(matrix@)),
                cell_h == cell_size(self.h as int, self.cells(matrix@)),
                res@ == head + self.paths(matrix@, y as int),
            decreases matrix.size - y,
        {
            assert((y + 4) * cell_h <= 185 * 0xff_ffff) by (nonlinear_arith)
                requires
                    y <= 177,
                    cell_h <= 0xff_ffff,
            ;
            assert(y * cell_h <= 185 * 0xff_ffff) by (nonlinear_arith)
                requires
                    y <= 177,
                    cell_h <= 0xff_ffff,
            ;
            let yp: usize = if self.qz {
                (y + 4) * cell_h
            } else {
                y * cell_h
            };
            let ghost before = res@;
            let mut x: usize = 0;
            assert(res@ =~= before + self.row_paths(matrix@, y as int, 0));
            while x < matrix.size
                invariant
                    matrix.wf(),
                    1 <= matrix.size <= 177,
                    y < matrix.size,
                    x <= matrix.size,
                    cell_w <= 0xff_ffff,
                    cell_h <= 0xff_ffff,
                    cell_w == cell_size(self.w as int, self.cells(matrix@)),
                    cell_h == cell_size(self.h as int, self.cells(matrix@)),
                    yp == self.offset(y as int, cell_h as int),
                    res@ == before + self.row_paths(matrix@, y as int, x as int),
                decreases matrix.size - x,
            {
                assert((x + 4) * cell_w <= 185 * 0xff_ffff) by (nonlinear_arith)
                    requires
                        x <= 177,
                        cell_w <= 0xff_ffff,
                ;
                assert(x * cell_w <= 185 * 0xff_ffff) by (nonlinear_arith)
                    requires
                        x <= 177,
                        cell_w <= 0xff_ffff,
                ;
                let xp: usize = if self.qz {
                    (x + 4) * cell_w
                } else {
                    x * cell_w
                };
                if matrix.is_dark(x, y) {
                    let ghost start = res@;
                    push_str(&mut res, "M");
                    push_decimal(&mut res, xp);
                    push_str(&mut res, " ");
                    push_decimal(&mut res, yp);
                    push_str(&mut res, "h");
                    push_decimal(&mut res, cell_w);
                    push_str(&mut res, "v");
                    push_decimal(&mut res, cell_h);
                    push_str(&mut res, "H");
                    push_decimal(&mut res, xp);
                    push_str(&mut res, "V");
                    push_decimal(&mut res, yp);
                    assert(res@ =~= start + self.cell_path(matrix@, x as int, y as int));
                }
                x = x + 1;
                assert(res@ =~= before + self.row_paths(matrix@, y as int, x as int));
            }
            y = y + 1;
            assert(res@ =~= head + self.paths(matrix@, y as int));
        }
        push_str(&mut res, "\"/></svg>\n");
        assert(res@ =~= self.text(matrix@));
        chars_to_string(res)
    }
}

} // verus!
