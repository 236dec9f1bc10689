//! Specifies the version of a QR code.
use crate::ec_level::ECLevel;
use crate::mode::Mode;
use crate::tables::{capacity_lookup, capacity_of};
use vstd::prelude::*;
use vstd::string::StringSliceAdditionalSpecFns;

verus! {

/// QR code version, defines the size.
#[derive(Debug, Clone, Copy, PartialEq, Eq, Structural)]
pub struct Version(pub usize);

/// Width in bits of the character count field.
pub open spec fn char_count_bits(v: int, mode: Mode) -> int {
    if v <= 9 {
        match mode {
            Mode::Numeric => 10,
            Mode::Alphanumeric => 9,
            Mode::Byte => 8,
        }
    } else if v <= 26 {
        match mode {
            Mode::Numeric => 12,
            Mode::Alphanumeric => 11,
            Mode::Byte => 16,
        }
    } else {
        match mode {
            Mode::Numeric => 14,
            Mode::Alphanumeric => 13,
            Mode::Byte => 16,
        }
    }
}

/// Side of the symbol in modules.
pub open spec fn size_of(v: int) -> int {
    21 + 4 * (v - 1)
}

/// Whether `len` characters fit no version below `v`.
pub open spec fn fits_none_below(len: int, v: int, e: ECLevel, mode: Mode) -> bool {
    forall|w: int| 1 <= w < v ==> len > #[trigger] capacity_of(w, e, mode)
}

/// The smallest version from `v` upwards that holds `len` characters, if
/// there is one.
pub open spec fn minimal_from(len: int, e: ECLevel, mode: Mode, v: int) -> Option<int>
    decreases 41 - v,
{
    if v < 1 || v > 40 {
        None
    } else if len <= capacity_of(v, e, mode) {
        Some(v)
    } else {
        minimal_from(len, e, mode, v + 1)
    }
}

/// The smallest version that holds `len` characters, if there is one.
pub open spec fn minimal_version(len: int, e: ECLevel, mode: Mode) -> Option<int> {
    minimal_from(len, e, mode, 1)
}

impl Version {
    /// A version is one of 1 to 40.
    pub open spec fn wf(&self) -> bool {
        1 <= self.0 <= 40
    }

    /// Create a new version, must be in the [1..40] range.
    pub fn new(v: usize) -> (r: Version)
        requires
            1 <= v <= 40,
        ensures
            r.0 == v,
            r.wf(),
    {
        Version(v)
    }

    /// Calculate the minimal required version to hold the string
    /// in the given mode with the required error correction level.
    /// The length counted is that of the string in bytes.
    pub fn minimal(s: &str, mode: Mode, e: ECLevel) -> (r: Option<Version>)
        ensures
            match r {
                Some(v) => v.wf() && minimal_version(s.spec_bytes().len() as int, e, mode) == Some(
                    v.0 as int,
                ) && s.spec_bytes().len() <= capacity_of(v.0 as int, e, mode) && fits_none_below(
                    s.spec_bytes().len() as int,
                    v.0 as int,
                    e,
                    mode,
                ),
                None => minimal_version(s.spec_bytes().len() as int, e, mode) is None
                    && fits_none_below(s.spec_bytes().len() as int, 41, e, mode),
            },
    {
        Version::minimal_for_len(s.as_bytes().len(), mode, e)
    }

    /// The smallest version that holds `len` characters in the given mode at
    /// the given level, or `None` where version 40 is too small.
    pub fn minimal_for_len(len: usize, mode: Mode, e: ECLevel) -> (r: Option<Version>)
        ensures
            match r {
                Some(v) => v.wf() && minimal_version(len as int, e, mode) == Some(v.0 as int)
                    && len <= capacity_of(v.0 as int, e, mode) && fits_none_below(
                    len as int,
                    v.0 as int,
                    e,
                    mode,
                ),
                None => minimal_version(len as int, e, mode) is None && fits_none_below(
                    len as int,
                    41,
                    e,
                    mode,
                ),
            },
    {
        let mut v: usize = 0;
        while v < 40
            invariant
                v <= 40,
                fits_none_below(len as int, v + 1, e, mode),
                minimal_version(len as int, e, mode) == minimal_from(len as int, e, mode, v + 1),
            decreases 40 - v,
        {
            let capacity: usize = capacity_lookup(v + 1, e, mode);
            if len <= capacity {
                return Some(Version(v + 1));
            }
            v = v + 1;
        }
        None
    }

    /// Return the data capacity.
    pub fn capacity(&self, mode: Mode, e: ECLevel) -> (r: usize)
        requires
            self.wf(),
        ensures
            r == capacity_of(self.0 as int, e, mode),
    {
        capacity_lookup(self.0, e, mode)
    }

    /// Return the size of the QR code.
    pub fn size(&self) -> (r: usize)
        requires
            self.wf(),
        ensures
            r == size_of(self.0 as int),
            21 <= r <= 177,
    {
        self.index() * 4 + 21
    }

    /// Returns the required len of the char count bit representation.
    pub fn char_count_len(&self, mode: Mode) -> (r: usize)
        requires
            self.wf(),
        ensures
            r == char_count_bits(self.0 as int, mode),
            8 <= r <= 16,
    {
        if self.0 <= 9 {
            match mode {
                Mode::Numeric => 10,
                Mode::Alphanumeric => 9,
                Mode::Byte => 8,
            }
        } else if self.0 <= 26 {
            match mode {
                Mode::Numeric => 12,
                Mode::Alphanumeric => 11,
                Mode::Byte => 16,
            }
        } else {
            match mode {
                Mode::Numeric => 14,
                Mode::Alphanumeric => 13,
                Mode::Byte => 16,
            }
        }
    }

    /// Returns true if this version requires extra version areas.
    pub fn extra_version_areas(&self) -> (r: bool)
        ensures
            r == (self.0 >= 7),
    {
        self.0 >= 7
    }

    /// Returns the position of the dark module.
    pub fn dark_module_pos(&self) -> (r: (usize, usize))
        requires
            self.wf(),
        ensures
            r.0 == 8,
            r.1 == 4 * self.0 + 9,
            r.1 == size_of(self.0 as int) - 8,
    {
        (8, 4 * self.0 + 9)
    }

    /// Return the version value - 1, suitable for indexing.
    pub fn index(&self) -> (r: usize)
        requires
            self.0 >= 1,
        ensures
            r == self.0 - 1,
    {
        self.0 - 1
    }
}

} // verus!
