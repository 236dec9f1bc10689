//! Encoding modes for a QR code.
use crate::bits::{append, int_bits, BitVec};
use vstd::prelude::*;

verus! {

/// Encoding modes.
#[derive(Debug, PartialEq, Eq, Clone, Copy, Structural)]
pub enum Mode {
    /// Numeric mode can encode the digits 0 to 9.
    Numeric,
    /// Alphanumeric mode can encode digits, A-Z (only uppercase),
    /// the characters $%*+-./: and space.
    Alphanumeric,
    /// Byte mode encodes the bytes of the input as they are.
    Byte,
}

/// Whether a code point is one of the digits 0 to 9.
pub open spec fn is_numeric_code(c: int) -> bool {
    48 <= c <= 57
}

/// Whether a code point is one of the 45 alphanumeric characters: a digit, an
/// upper case letter, the space, or one of `$%*+-./:`.
pub open spec fn is_alphanumeric_code(c: int) -> bool {
    ||| 48 <= c <= 57
    ||| 65 <= c <= 90
    ||| c == 32
    ||| c == 36
    ||| c == 37
    ||| c == 42
    ||| c == 43
    ||| c == 45
    ||| c == 46
    ||| c == 47
    ||| c == 58
}

/// Whether a text is not empty and made of digits only.
pub open spec fn is_numeric_text(s: Seq<char>) -> bool {
    s.len() > 0 && forall|i: int| 0 <= i < s.len() ==> is_numeric_code(#[trigger] s[i] as int)
}

/// Whether a text is not empty and made of alphanumeric characters only.
pub open spec fn is_alphanumeric_text(s: Seq<char>) -> bool {
    s.len() > 0 && forall|i: int|
        0 <= i < s.len() ==> is_alphanumeric_code(#[trigger] s[i] as int)
}

/// The most compact mode that can represent a text.
pub open spec fn mode_for(s: Seq<char>) -> Mode {
    if is_numeric_text(s) {
        Mode::Numeric
    } else if is_alphanumeric_text(s) {
        Mode::Alphanumeric
    } else {
        Mode::Byte
    }
}

/// `Regex::new` and `Regex::is_match` of the `regex` crate, for the two
/// patterns of this library: whether the whole text matches the pattern.
/// Both patterns are anchored at the start and the end of the text and ask
/// for one or more characters of a class, so the text matches where it is
/// not empty and each of its characters is in the class: the digits for the
/// first, the 45 alphanumeric characters for the second. Compiling another
/// pattern may fail, which the precondition rules out.
#[verifier::external_body]
fn regex_is_match(pattern: &str, text: &str) -> (r: bool)
    requires
        pattern@ == "^[0-9]+$"@ || pattern@ == "^[0-9A-Z$%*+\\-./: ]+$"@,
    ensures
        pattern@ == "^[0-9]+$"@ ==> r == is_numeric_text(text@),
        pattern@ == "^[0-9A-Z$%*+\\-./: ]+$"@ ==> r == is_alphanumeric_text(text@),
{
    regex::Regex::new(pattern).unwrap().is_match(text)
}

/// The two patterns differ.
proof fn lemma_patterns_differ()
    ensures
        "^[0-9]+$"@ != "^[0-9A-Z$%*+\\-./: ]+$"@,
{
    reveal_strlit("^[0-9]+$");
    reveal_strlit("^[0-9A-Z$%*+\\-./: ]+$");
    assert("^[0-9]+$"@.len() == 8);
    assert("^[0-9A-Z$%*+\\-./: ]+$"@.len() == 21);
}

impl Mode {
    /// Position of the mode in the tables: numeric, alphanumeric, byte are 0, 1, 2.
    pub open spec fn idx(self) -> int {
        match self {
            Mode::Numeric => 0,
            Mode::Alphanumeric => 1,
            Mode::Byte => 2,
        }
    }

    /// The four bit mode indicator as a number: 0001, 0010 or 0100.
    pub open spec fn indicator(self) -> u32 {
        match self {
            Mode::Numeric => 1,
            Mode::Alphanumeric => 2,
            Mode::Byte => 4,
        }
    }

    /// Whether the mode can represent a text.
    pub open spec fn represents(self, s: Seq<char>) -> bool {
        match self {
            Mode::Numeric => is_numeric_text(s),
            Mode::Alphanumeric => is_alphanumeric_text(s),
            Mode::Byte => true,
        }
    }

    /// Position of the mode in the tables.
    pub fn index(&self) -> (r: usize)
        ensures
            r == self.idx(),
            r < 3,
    {
        match self {
            Mode::Numeric => 0,
            Mode::Alphanumeric => 1,
            Mode::Byte => 2,
        }
    }

    /// Create Mode from string, decide from content.
    pub fn from_str(s: &str) -> (r: Mode)
        ensures
            r == mode_for(s@),
            r.represents(s@),
    {
        if Mode::in_numeric(s) {
            Mode::Numeric
        } else if Mode::in_alphanumeric(s) {
            Mode::Alphanumeric
        } else {
            Mode::Byte
        }
    }

    /// Is this a valid mode for a string?
    pub fn matches(&self, s: &str) -> (r: bool)
        ensures
            r == self.represents(s@),
    {
        match self {
            Mode::Numeric => Mode::in_numeric(s),
            Mode::Alphanumeric => Mode::in_alphanumeric(s),
            Mode::Byte => Mode::in_byte(s),
        }
    }

    /// The four bits of the mode indicator.
    pub fn to_bitvec(&self) -> (r: BitVec)
        ensures
            r@ == int_bits(self.indicator(), 4),
    {
        let v: u32 = match self {
            Mode::Numeric => 1,
            Mode::Alphanumeric => 2,
            Mode::Byte => 4,
        };
        let mut bv = BitVec::new();
        append(&mut bv, v, 4);
        assert(bv@ =~= int_bits(v, 4));
        bv
    }

    /// Returns true if contents can be represented by the numeric mode.
    pub fn in_numeric(s: &str) -> (r: bool)
        ensures
            r == is_numeric_text(s@),
    {
        regex_is_match("^[0-9]+$", s)
    }

    /// Returns true if contents can be represented by the alphanumeric mode.
    pub fn in_alphanumeric(s: &str) -> (r: bool)
        ensures
            r == is_alphanumeric_text(s@),
    {
        proof {
            lemma_patterns_differ();
        }
        regex_is_match("^[0-9A-Z$%*+\\-./: ]+$", s)
    }

    /// Returns true if contents can be represented by the byte mode.
    pub fn in_byte(_s: &str) -> (r: bool)
        ensures
            r,
    {
        true
    }
}

} // verus!
