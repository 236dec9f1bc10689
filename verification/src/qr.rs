//! Provides a simple and safe API.
use crate::builder::{build_error, symbol, QrBuilder, Symbol};
use crate::ec_level::ECLevel;
use crate::error::Error;
use crate::mask::Mask;
use crate::matrix::Matrix;
use crate::mode::Mode;
use crate::version::Version;
use vstd::prelude::*;

verus! {

/// The QR code.
///
/// Encapsulates a matrix, the 2D-grid containing the QR modules
/// and some information about the QR code.
#[derive(Debug, PartialEq, Eq)]
pub struct Qr {
    /// Version of the QR code.
    pub version: Version,
    /// Error correction level.
    pub ecl: ECLevel,
    /// Encoding mode.
    pub mode: Mode,
    /// The modules.
    pub matrix: Matrix,
    /// The applied mask, 0 to 7.
    pub mask: Mask,
}

impl View for Qr {
    type V = Symbol;

    open spec fn view(&self) -> Symbol {
        Symbol {
            version: self.version.0 as int,
            ecl: self.ecl,
            mode: self.mode,
            mask: self.mask.0 as int,
            grid: self.matrix@,
        }
    }
}

impl Qr {
    /// A QR code has a version of 1 to 40, a mask of 0 to 7 and a matrix of
    /// the size of its version.
    pub open spec fn wf(&self) -> bool {
        &&& self.version.wf()
        &&& self.mask.wf()
        &&& self.matrix.wf()
        &&& self.matrix.size == crate::version::size_of(self.version.0 as int)
    }

    /// Create a new QR from a string, at error correction level Q.
    pub fn new(s: &str) -> (r: Result<Qr, Error>)
        ensures
            match r {
                Ok(qr) => build_error(None, None, ECLevel::Q, None, s) is None && qr.wf() && qr@
                    == symbol(None, None, ECLevel::Q, None, s) && qr.matrix@.complete(),
                Err(e) => build_error(None, None, ECLevel::Q, None, s) == Some(e),
            },
    {
        QrBuilder::new().build(s)
    }

    /// Create a new QR with specified error correction.
    pub fn with_ecl(s: &str, ecl: ECLevel) -> (r: Result<Qr, Error>)
        ensures
            match r {
                Ok(qr) => build_error(None, None, ecl, None, s) is None && qr.wf() && qr@
                    == symbol(None, None, ecl, None, s) && qr.matrix@.complete(),
                Err(e) => build_error(None, None, ecl, None, s) == Some(e),
            },
    {
        QrBuilder::new().ecl(ecl).build(s)
    }

    /// Create a new QR with a specified version, at error correction level Q.
    pub fn with_version(s: &str, v: Version) -> (r: Result<Qr, Error>)
        ensures
            match r {
                Ok(qr) => build_error(Some(v), None, ECLevel::Q, None, s) is None && qr.wf() && qr@
                    == symbol(Some(v), None, ECLevel::Q, None, s) && qr.matrix@.complete(),
                Err(e) => build_error(Some(v), None, ECLevel::Q, None, s) == Some(e),
            },
    {
        QrBuilder::new().version(v).build(s)
    }

    /// Returns the size of the QR code.
    pub fn size(&self) -> (r: usize)
        requires
            self.wf(),
        ensures
            r == self.matrix.size,
            r == crate::version::size_of(self.version.0 as int),
    {
        self.version.size()
    }

    /// Returns true if the module in column `x` of row `y` is dark.
    pub fn is_dark(&self, x: usize, y: usize) -> (r: bool)
        requires
            self.wf(),
            x < self.matrix.size,
            y < self.matrix.size,
        ensures
            r == self.matrix@.at(x as int, y as int).dark(),
    {
        self.matrix.is_dark(x, y)
    }
}

} // verus!
