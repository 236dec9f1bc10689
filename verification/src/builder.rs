//! The builder of a QR code: it takes the settings that a caller wants to
//! fix, chooses the others, and runs the stages of the encoding.
use crate::bits::{int_bits, BitVec};
use crate::data::{encode_with_mode, encoded, payload_len, symbols};
use crate::ec::protected;
use crate::ec_level::ECLevel;
use crate::error::Error;
use crate::frame::{in_reserved_zone, lemma_fun_patterns_at, lemma_place_frame};
use crate::info::{format_info, format_value, total_bits_of, version_info, version_value};
use crate::layout::{
    add_format, add_fun_patterns, add_raw_data, add_version, format_free, format_spots_a, format_spots_b, lemma_spots_stay_free, placed, version_free, version_spots_a, version_spots_b, walk_bound, with_format, with_fun_patterns, with_spots_upto, with_version,
};
use crate::mask::{apply_mask, best_mask, lemma_masked_at, mask, masked, Mask};
use crate::matrix::{Grid, Matrix, Module};
use crate::mode::{mode_for, Mode};
use crate::qr::Qr;
use crate::version::{minimal_version, size_of, Version};
use vstd::prelude::*;
use vstd::string::StringSliceAdditionalSpecFns;

verus! {

/// Builder for a QR code.
#[derive(Debug)]
pub struct QrBuilder {
    /// The version to use, or `None` for the smallest that fits.
    pub version: Option<Version>,
    /// The mask to use, or `None` for the one of least penalty.
    pub mask: Option<Mask>,
    /// The error correction level.
    pub ecl: ECLevel,
    /// The mode to use, or `None` for the most compact that fits.
    pub mode: Option<Mode>,
    /// Resulting matrix.
    pub matrix: Matrix,
}

/// What a QR code is: its settings and its modules.
pub struct Symbol {
    /// The version, 1 to 40.
    pub version: int,
    /// The error correction level.
    pub ecl: ECLevel,
    /// The encoding mode.
    pub mode: Mode,
    /// The mask, 0 to 7.
    pub mask: int,
    /// The modules.
    pub grid: Grid,
}

/// The number of a version that may be missing; 0 where it is.
pub open spec fn version_number(v: Option<Version>) -> int {
    match v {
        Some(x) => x.0 as int,
        None => 0,
    }
}

/// The number of a mask that may be missing; 0 where it is.
pub open spec fn mask_number(m: Option<Mask>) -> int {
    match m {
        Some(x) => x.0 as int,
        None => 0,
    }
}

/// The mode a string is encoded in: the one asked for, else the most compact
/// that can represent the string.
pub open spec fn chosen_mode(mode: Option<Mode>, s: &str) -> Mode {
    match mode {
        Some(m) => m,
        None => mode_for(s@),
    }
}

/// The version a string is encoded in: the one asked for, else the smallest
/// that holds the string, if there is one.
pub open spec fn chosen_version(version: Option<Version>, e: ECLevel, mode: Mode, s: &str) -> Option<
    int,
> {
    match version {
        Some(v) => Some(v.0 as int),
        None => minimal_version(symbols(s, mode).len() as int, e, mode),
    }
}

/// The symbol with function patterns and data, before masking.
pub open spec fn data_grid(s: &str, v: int, e: ECLevel, mode: Mode) -> Grid {
    placed(
        with_fun_patterns(Grid::blank(size_of(v)), v),
        protected(encoded(s, mode, v, e), v, e),
    ).grid
}

/// The mask applied to a symbol: the one asked for, else the one of least
/// penalty.
pub open spec fn chosen_mask(mask: Option<Mask>, g: Grid) -> int {
    match mask {
        Some(m) => m.0 as int,
        None => best_mask(g),
    }
}

/// A grid with format information for a level and a mask and, from version 7
/// on, with version information.
pub open spec fn with_info(g: Grid, v: int, e: ECLevel, m: int) -> Grid {
    let f = with_format(g, int_bits(format_value(e, m), 15));
    if v >= 7 {
        with_version(f, int_bits(version_value(v), 18).reverse())
    } else {
        f
    }
}

/// Why a string cannot be encoded with the given settings, if it cannot: the
/// version is checked first, then the mask, then the mode, then the capacity.
pub open spec fn build_error(
    version: Option<Version>,
    mask: Option<Mask>,
    e: ECLevel,
    mode: Option<Mode>,
    s: &str,
) -> Option<Error> {
    let md = chosen_mode(mode, s);
    if version is Some && !version->0.wf() {
        Some(Error::InvalidVersion)
    } else if mask is Some && !mask->0.wf() {
        Some(Error::InvalidMask)
    } else if !md.represents(s@) {
        Some(Error::InvalidMode)
    } else {
        match chosen_version(version, e, md, s) {
            None => Some(Error::CapacityExceeded),
            Some(v) => if payload_len(symbols(s, md).len() as int, md, v) > total_bits_of(v, e) {
                Some(Error::CapacityExceeded)
            } else {
                None
            },
        }
    }
}

/// The QR code of a string for the given settings, where there is one.
pub open spec fn symbol(
    version: Option<Version>,
    mask: Option<Mask>,
    e: ECLevel,
    mode: Option<Mode>,
    s: &str,
) -> Symbol {
    let md = chosen_mode(mode, s);
    let v = chosen_version(version, e, md, s)->0;
    let g = data_grid(s, v, e, md);
    let m = chosen_mask(mask, g);
    Symbol { version: v, ecl: e, mode: md, mask: m, grid: with_info(masked(g, m), v, e, m) }
}

impl QrBuilder {
    /// Whether the builder has a version and a matrix of that version's size.
    pub open spec fn sized(&self) -> bool {
        match self.version {
            Some(v) => v.wf() && self.matrix.wf() && self.matrix.size == size_of(v.0 as int),
            None => false,
        }
    }

    /// Whether two builders have the same settings.
    pub open spec fn same_settings(&self, other: &QrBuilder) -> bool {
        &&& self.version == other.version
        &&& self.mask == other.mask
        &&& self.ecl == other.ecl
        &&& self.mode == other.mode
    }

    /// A builder that chooses version, mask and mode itself and uses error
    /// correction level Q.
    pub fn new() -> (r: QrBuilder)
        ensures
            r.version is None,
            r.mask is None,
            r.mode is None,
            r.ecl == ECLevel::Q,
            r.matrix.wf(),
            r.matrix.size == 0,
    {
        QrBuilder { version: None, mask: None, ecl: ECLevel::Q, mode: None, matrix: Matrix::new(0) }
    }

    /// Asks for a version. A valid version also gives the builder an empty
    /// matrix of that version's size.
    pub fn version(self, v: Version) -> (r: QrBuilder)
        ensures
            r.version == Some(v),
            r.mask == self.mask,
            r.ecl == self.ecl,
            r.mode == self.mode,
            v.wf() ==> r.sized() && r.matrix@ == Grid::blank(size_of(v.0 as int)),
            !v.wf() ==> r.matrix == self.matrix,
    {
        let mut r = self;
        r.version = Some(v);
        if 1 <= v.0 && v.0 <= 40 {
            let size: usize = v.size();
            assert(size * size <= 177 * 177) by (nonlinear_arith)
                requires
                    0 <= size <= 177,
            ;
            r.matrix = Matrix::new(size);
        }
        r
    }

    /// Asks for an error correction level.
    pub fn ecl(self, e: ECLevel) -> (r: QrBuilder)
        ensures
            r.ecl == e,
            r.version == self.version,
            r.mask == self.mask,
            r.mode == self.mode,
            r.matrix == self.matrix,
    {
        let mut r = self;
        r.ecl = e;
        r
    }

    /// Asks for a mask.
    pub fn mask(self, m: Mask) -> (r: QrBuilder)
        ensures
            r.mask == Some(m),
            r.version == self.version,
            r.ecl == self.ecl,
            r.mode == self.mode,
            r.matrix == self.matrix,
    {
        let mut r = self;
        r.mask = Some(m);
        r
    }

    /// Asks for a mode.
    pub fn mode(self, m: Mode) -> (r: QrBuilder)
        ensures
            r.mode == Some(m),
            r.version == self.version,
            r.mask == self.mask,
            r.ecl == self.ecl,
            r.matrix == self.matrix,
    {
        let mut r = self;
        r.mode = Some(m);
        r
    }

    /// Builds the QR code of a string. Its matrix holds function and data
    /// modules only.
    ///
    /// Fails with `InvalidVersion` for a version outside 1 to 40, else with
    /// `InvalidMask` for a mask outside 0 to 7, else with `InvalidMode` where
    /// the mode asked for cannot represent the string, else with
    /// `CapacityExceeded` where the string does not fit the version asked
    /// for, or no version at all.
    pub fn build(self, s: &str) -> (r: Result<Qr, Error>)
        ensures
            match r {
                Ok(qr) => build_error(self.version, self.mask, self.ecl, self.mode, s) is None
                    && qr.wf() && qr@ == symbol(self.version, self.mask, self.ecl, self.mode, s)
                    && qr.matrix@.complete(),
                Err(e) => build_error(self.version, self.mask, self.ecl, self.mode, s) == Some(e),
            },
    {
        let mut b = self;
        match b.add_all(s) {
            Ok(()) => Ok(b.into_qr()),
            Err(e) => Err(e),
        }
    }

    /// Builds the QR code of a string; the same as `build`.
    pub fn into(self, s: &str) -> (r: Result<Qr, Error>)
        ensures
            match r {
                Ok(qr) => build_error(self.version, self.mask, self.ecl, self.mode, s) is None
                    && qr.wf() && qr@ == symbol(self.version, self.mask, self.ecl, self.mode, s)
                    && qr.matrix@.complete(),
                Err(e) => build_error(self.version, self.mask, self.ecl, self.mode, s) == Some(e),
            },
    {
        self.build(s)
    }

    /// Build all elements and generate a QR code; the same as `build`.
    pub fn build_qr(self, s: &str) -> (r: Result<Qr, Error>)
        ensures
            match r {
                Ok(qr) => build_error(self.version, self.mask, self.ecl, self.mode, s) is None
                    && qr.wf() && qr@ == symbol(self.version, self.mask, self.ecl, self.mode, s)
                    && qr.matrix@.complete(),
                Err(e) => build_error(self.version, self.mask, self.ecl, self.mode, s) == Some(e),
            },
    {
        self.build(s)
    }

    /// The QR code that the builder has made.
    pub fn into_qr(self) -> (r: Qr)
        requires
            self.version is Some,
            self.mode is Some,
            self.mask is Some,
        ensures
            r.version == self.version->0,
            r.ecl == self.ecl,
            r.mode == self.mode->0,
            r.mask == self.mask->0,
            r.matrix == self.matrix,
    {
        let version = match self.version {
            Some(v) => v,
            None => Version(1),
        };
        let mode = match self.mode {
            Some(m) => m,
            None => Mode::Byte,
        };
        let mask = match self.mask {
            Some(m) => m,
            None => Mask(0),
        };
        Qr { version, ecl: self.ecl, mode, matrix: self.matrix, mask }
    }

    /// Add all elements of a QR code: the settings that were left open are
    /// chosen and stored, and the matrix becomes that of the finished symbol.
    /// On failure the builder is left as it was.
    pub fn add_all(&mut self, s: &str) -> (r: Result<(), Error>)
        ensures
            match r {
                Ok(()) => {
                    let sym = symbol(
                        old(self).version,
                        old(self).mask,
                        old(self).ecl,
                        old(self).mode,
                        s,
                    );
                    &&& build_error(
                        old(self).version,
                        old(self).mask,
                        old(self).ecl,
                        old(self).mode,
                        s,
                    ) is None
                    &&& final(self).sized()
                    &&& final(self).version is Some
                    &&& version_number(final(self).version) == sym.version
                    &&& final(self).mode == Some(sym.mode)
                    &&& final(self).mask is Some
                    &&& mask_number(final(self).mask) == sym.mask
                    &&& final(self).mask->0.wf()
                    &&& final(self).ecl == old(self).ecl
                    &&& final(self).matrix@ == sym.grid
                    &&& final(self).matrix@.complete()
                },
                Err(e) => build_error(
                    old(self).version,
                    old(self).mask,
                    old(self).ecl,
                    old(self).mode,
                    s,
                ) == Some(e) && *final(self) == *old(self),
            },
    {
        let ecl = self.ecl;
        match self.version {
            Some(v) => {
                if v.0 < 1 || v.0 > 40 {
                    return Err(Error::InvalidVersion);
                }
            },
            None => {},
        }
        match self.mask {
            Some(m) => {
                if m.0 > 7 {
                    return Err(Error::InvalidMask);
                }
            },
            None => {},
        }
        let mode = match self.mode {
            Some(m) => m,
            None => Mode::from_str(s),
        };
        if !mode.matches(s) {
            return Err(Error::InvalidMode);
        }
        proof {
            crate::data::lemma_symbols_len(s, mode);
        }
        let version = match self.version {
            Some(v) => v,
            None => match Version::minimal(s, mode, ecl) {
                Some(v) => v,
                None => {
                    return Err(Error::CapacityExceeded);
                },
            },
        };
        let data = match encode_with_mode(s, mode, version, ecl) {
            Ok(d) => d,
            Err(_) => {
                return Err(Error::CapacityExceeded);
            },
        };
        let stream = crate::ec::add(data, version, ecl);
        let size: usize = version.size();
        assert(size * size <= 177 * 177) by (nonlinear_arith)
            requires
                0 <= size <= 177,
        ;
        let mut matrix = Matrix::new(size);
        add_fun_patterns(&mut matrix, version);
        let _ = add_raw_data(&mut matrix, &stream);
        let ghost g = matrix@;
        assert(g == data_grid(s, version.0 as int, ecl, mode));
        let chosen = match self.mask {
            Some(m) => (m, apply_mask(m.0, &matrix)),
            None => mask(&matrix),
        };
        let picked: Mask = chosen.0;
        let mut masked_matrix: Matrix = chosen.1;
        proof {
            lemma_info_free(version.0 as int, stream@, picked.0 as int);
            crate::coverage::lemma_finished_is_complete(
                version.0 as int,
                ecl,
                stream@,
                picked.0 as int,
            );
        }
        let format = format_info(ecl, picked);
        let ghost before_info = masked_matrix@;
        add_format(&mut masked_matrix, &format);
        match version_info(version) {
            Some(bits) => {
                proof {
                    lemma_spots_stay_free(
                        before_info,
                        format@,
                        format_spots_a(),
                        version_spots_a(before_info.size),
                        15,
                    );
                    lemma_spots_stay_free(
                        before_info,
                        format@,
                        format_spots_a(),
                        version_spots_b(before_info.size),
                        15,
                    );
                    lemma_spots_stay_free(
                        before_info,
                        format@,
                        format_spots_a(),
                        format_spots_b(before_info.size),
                        15,
                    );
                    let half = with_spots_upto(before_info, format@, format_spots_a(), 15);
                    lemma_spots_stay_free(
                        half,
                        format@,
                        format_spots_b(before_info.size),
                        version_spots_a(before_info.size),
                        15,
                    );
                    lemma_spots_stay_free(
                        half,
                        format@,
                        format_spots_b(before_info.size),
                        version_spots_b(before_info.size),
                        15,
                    );
                }
                add_version(&mut masked_matrix, &bits);
            },
            None => {},
        }
        self.version = Some(version);
        self.mode = Some(mode);
        self.mask = Some(picked);
        self.matrix = masked_matrix;
        Ok(())
    }

    /// Add function patterns.
    pub fn add_fun_patterns(&mut self)
        requires
            old(self).sized(),
        ensures
            final(self).sized(),
            final(self).same_settings(old(self)),
            final(self).matrix@ == with_fun_patterns(
                old(self).matrix@,
                version_number(old(self).version),
            ),
    {
        let version = match self.version {
            Some(v) => v,
            None => Version(1),
        };
        add_fun_patterns(&mut self.matrix, version);
    }

    /// Add data: the string is encoded in the mode asked for, or else in the
    /// most compact mode, error correction is added and the bits are placed.
    /// The mode used is stored. On failure the builder is left as it was.
    pub fn add_data(&mut self, s: &str) -> (r: Result<(), Error>)
        requires
            old(self).sized(),
            old(self).matrix.size <= 177,
        ensures
            match r {
                Ok(()) => {
                    let md = chosen_mode(old(self).mode, s);
                    let v = version_number(old(self).version);
                    &&& md.represents(s@)
                    &&& payload_len(symbols(s, md).len() as int, md, v) <= total_bits_of(
                        v,
                        old(self).ecl,
                    )
                    &&& final(self).sized()
                    &&& final(self).version == old(self).version
                    &&& final(self).mask == old(self).mask
                    &&& final(self).ecl == old(self).ecl
                    &&& final(self).mode == Some(md)
                    &&& final(self).matrix@ == placed(
                        old(self).matrix@,
                        protected(encoded(s, md, v, old(self).ecl), v, old(self).ecl),
                    ).grid
                },
                Err(e) => {
                    let md = chosen_mode(old(self).mode, s);
                    let v = version_number(old(self).version);
                    &&& *final(self) == *old(self)
                    &&& e == if !md.represents(s@) {
                        Error::InvalidMode
                    } else {
                        Error::CapacityExceeded
                    }
                    &&& md.represents(s@) ==> payload_len(symbols(s, md).len() as int, md, v)
                        > total_bits_of(v, old(self).ecl)
                },
            },
    {
        let version = match self.version {
            Some(v) => v,
            None => Version(1),
        };
        let mode = match self.mode {
            Some(m) => m,
            None => Mode::from_str(s),
        };
        if !mode.matches(s) {
            return Err(Error::InvalidMode);
        }
        let data = match encode_with_mode(s, mode, version, self.ecl) {
            Ok(d) => d,
            Err(_) => {
                return Err(Error::CapacityExceeded);
            },
        };
        let stream = crate::ec::add(data, version, self.ecl);
        self.mode = Some(mode);
        let _ = add_raw_data(&mut self.matrix, &stream);
        Ok(())
    }

    /// Build modules before masking (and format/version info) is applied:
    /// function patterns and data.
    pub fn build_until_masking(&mut self, s: &str) -> (r: Result<(), Error>)
        requires
            old(self).sized(),
            old(self).matrix.size <= 177,
        ensures
            match r {
                Ok(()) => {
                    let md = chosen_mode(old(self).mode, s);
                    let v = version_number(old(self).version);
                    &&& md.represents(s@)
                    &&& final(self).sized()
                    &&& final(self).version == old(self).version
                    &&& final(self).mask == old(self).mask
                    &&& final(self).ecl == old(self).ecl
                    &&& final(self).mode == Some(md)
                    &&& final(self).matrix@ == placed(
                        with_fun_patterns(old(self).matrix@, v),
                        protected(encoded(s, md, v, old(self).ecl), v, old(self).ecl),
                    ).grid
                },
                Err(e) => {
                    let md = chosen_mode(old(self).mode, s);
                    let v = version_number(old(self).version);
                    &&& final(self).sized()
                    &&& final(self).same_settings(old(self))
                    &&& final(self).matrix@ == with_fun_patterns(old(self).matrix@, v)
                    &&& e == if !md.represents(s@) {
                        Error::InvalidMode
                    } else {
                        Error::CapacityExceeded
                    }
                },
            },
    {
        self.add_fun_patterns();
        self.add_data(s)
    }

    /// Build format and version information.
    pub fn build_information(&mut self)
        requires
            old(self).sized(),
            old(self).mask is Some,
            old(self).mask->0.wf(),
            format_free(old(self).matrix@),
            version_number(old(self).version) >= 7 ==> version_free(old(self).matrix@),
        ensures
            final(self).sized(),
            final(self).same_settings(old(self)),
            final(self).matrix@ == with_info(
                old(self).matrix@,
                version_number(old(self).version),
                old(self).ecl,
                mask_number(old(self).mask),
            ),
    {
        self.add_info();
    }

    /// Add raw data along the zig-zag walk. Returns how many data modules
    /// were written.
    pub fn add_raw_data(&mut self, v: &BitVec) -> (r: usize)
        requires
            old(self).matrix.wf(),
            1 <= old(self).matrix.size <= 177,
        ensures
            final(self).matrix.wf(),
            final(self).matrix.size == old(self).matrix.size,
            final(self).same_settings(old(self)),
            final(self).matrix@ == placed(old(self).matrix@, v@).grid,
            r == placed(old(self).matrix@, v@).used,
    {
        add_raw_data(&mut self.matrix, v)
    }

    /// Apply the mask of least penalty and store it.
    pub fn build_mask(&mut self)
        requires
            old(self).matrix.wf(),
            1 <= old(self).matrix.size <= 177,
        ensures
            final(self).matrix.wf(),
            final(self).matrix.size == old(self).matrix.size,
            final(self).version == old(self).version,
            final(self).ecl == old(self).ecl,
            final(self).mode == old(self).mode,
            final(self).mask is Some,
            mask_number(final(self).mask) == best_mask(old(self).matrix@),
            final(self).matrix@ == masked(old(self).matrix@, best_mask(old(self).matrix@)),
    {
        let chosen = mask(&self.matrix);
        self.mask = Some(chosen.0);
        self.matrix = chosen.1;
    }

    /// Apply the given mask and store it.
    pub fn mask_with(&mut self, m: Mask)
        requires
            m.wf(),
            old(self).matrix.wf(),
        ensures
            final(self).matrix.wf(),
            final(self).matrix.size == old(self).matrix.size,
            final(self).version == old(self).version,
            final(self).ecl == old(self).ecl,
            final(self).mode == old(self).mode,
            final(self).mask == Some(m),
            final(self).matrix@ == masked(old(self).matrix@, m.0 as int),
    {
        self.mask = Some(m);
        self.matrix = apply_mask(m.0, &self.matrix);
    }

    /// Add format and version info.
    pub fn add_info(&mut self)
        requires
            old(self).sized(),
            old(self).mask is Some,
            old(self).mask->0.wf(),
            format_free(old(self).matrix@),
            version_number(old(self).version) >= 7 ==> version_free(old(self).matrix@),
        ensures
            final(self).sized(),
            final(self).same_settings(old(self)),
            final(self).matrix@ == with_info(
                old(self).matrix@,
                version_number(old(self).version),
                old(self).ecl,
                mask_number(old(self).mask),
            ),
    {
        let ghost g = self.matrix@;
        let ghost format = int_bits(format_value(self.ecl, mask_number(self.mask)), 15);
        proof {
            lemma_spots_stay_free(g, format, format_spots_a(), format_spots_b(g.size), 15);
            let half = with_spots_upto(g, format, format_spots_a(), 15);
            if version_number(self.version) >= 7 {
                lemma_spots_stay_free(g, format, format_spots_a(), version_spots_a(g.size), 15);
                lemma_spots_stay_free(g, format, format_spots_a(), version_spots_b(g.size), 15);
                lemma_spots_stay_free(
                    half,
                    format,
                    format_spots_b(g.size),
                    version_spots_a(g.size),
                    15,
                );
                lemma_spots_stay_free(
                    half,
                    format,
                    format_spots_b(g.size),
                    version_spots_b(g.size),
                    15,
                );
            }
        }
        self.add_format_info();
        self.add_version_info();
    }

    /// Add format info.
    pub fn add_format_info(&mut self)
        requires
            old(self).sized(),
            old(self).mask is Some,
            old(self).mask->0.wf(),
            format_free(old(self).matrix@),
        ensures
            final(self).sized(),
            final(self).same_settings(old(self)),
            final(self).matrix@ == with_format(
                old(self).matrix@,
                int_bits(format_value(old(self).ecl, mask_number(old(self).mask)), 15),
            ),
    {
        let m = match self.mask {
            Some(m) => m,
            None => Mask(0),
        };
        let format = format_info(self.ecl, m);
        add_format(&mut self.matrix, &format);
    }

    /// Add version info, which versions below 7 do not have.
    pub fn add_version_info(&mut self)
        requires
            old(self).sized(),
            version_number(old(self).version) >= 7 ==> version_free(old(self).matrix@),
        ensures
            final(self).sized(),
            final(self).same_settings(old(self)),
            final(self).matrix@ == if version_number(old(self).version) >= 7 {
                with_version(
                    old(self).matrix@,
                    int_bits(version_value(version_number(old(self).version)), 18).reverse(),
                )
            } else {
                old(self).matrix@
            },
    {
        let version = match self.version {
            Some(v) => v,
            None => Version(1),
        };
        match version_info(version) {
            Some(bits) => {
                add_version(&mut self.matrix, &bits);
            },
            None => {},
        }
    }

    /// Convert matrix to string.
    pub fn to_string(&self) -> (r: String)
        requires
            self.matrix.wf(),
        ensures
            r@ == crate::render::StringRenderer::plain().text(self.matrix@),
    {
        crate::render::to_string(&self.matrix)
    }

    /// Convert matrix to a string that shows the kinds of the modules.
    pub fn to_dbg_string(&self) -> (r: String)
        requires
            self.matrix.wf(),
        ensures
            r@ == crate::render::dbg_text(self.matrix@),
    {
        crate::render::to_dbg_string(&self.matrix)
    }
}

/// Where a symbol holds function patterns and data, masked or not, the
/// places of the format and version information hold no data module.
pub proof fn lemma_info_free(v: int, bits: Seq<bool>, m: int)
    requires
        1 <= v <= 40,
    ensures
        ({
            let g = masked(
                placed(with_fun_patterns(Grid::blank(size_of(v)), v), bits).grid,
                m,
            );
            &&& g.wf()
            &&& g.size == size_of(v)
            &&& format_free(g)
            &&& v >= 7 ==> version_free(g)
        }),
{
    let n = size_of(v);
    let f = with_fun_patterns(Grid::blank(n), v);
    lemma_fun_patterns_at(v);
    let p = placed(f, bits).grid;
    lemma_place_frame(f, bits, walk_bound(n));
    lemma_masked_at(p, m);
    let g = masked(p, m);
    assert forall|a: int, b: int| g.on(a, b) && in_reserved_zone(n, v, a, b) implies !(#[trigger] g.at(
        a,
        b,
    )).data() by {
        assert(f.at(a, b) == Module::Reserved);
        assert(p.at(a, b) == f.at(a, b));
    }
    assert forall|i: int| 0 <= i < 15 implies g.on(
        (#[trigger] format_spots_a()[i]).0 as int,
        format_spots_a()[i].1 as int,
    ) && !g.at(format_spots_a()[i].0 as int, format_spots_a()[i].1 as int).data() by {
        let spot = format_spots_a()[i];
        assert(in_reserved_zone(n, v, spot.0 as int, spot.1 as int));
        assert(!g.at(spot.0 as int, spot.1 as int).data());
    }
    assert forall|i: int| 0 <= i < 15 implies g.on(
        (#[trigger] format_spots_b(n)[i]).0 as int,
        format_spots_b(n)[i].1 as int,
    ) && !g.at(format_spots_b(n)[i].0 as int, format_spots_b(n)[i].1 as int).data() by {
        let spot = format_spots_b(n)[i];
        assert(in_reserved_zone(n, v, spot.0 as int, spot.1 as int));
        assert(!g.at(spot.0 as int, spot.1 as int).data());
    }
    if v >= 7 {
        assert forall|i: int| 0 <= i < 18 implies g.on(
            (#[trigger] version_spots_a(n)[i]).0 as int,
            version_spots_a(n)[i].1 as int,
        ) && !g.at(version_spots_a(n)[i].0 as int, version_spots_a(n)[i].1 as int).data() by {
            let spot = version_spots_a(n)[i];
            assert(in_reserved_zone(n, v, spot.0 as int, spot.1 as int));
            assert(!g.at(spot.0 as int, spot.1 as int).data());
        }
        assert forall|i: int| 0 <= i < 18 implies g.on(
            (#[trigger] version_spots_b(n)[i]).0 as int,
            version_spots_b(n)[i].1 as int,
        ) && !g.at(version_spots_b(n)[i].0 as int, version_spots_b(n)[i].1 as int).data() by {
            let spot = version_spots_b(n)[i];
            assert(in_reserved_zone(n, v, spot.0 as int, spot.1 as int));
            assert(!g.at(spot.0 as int, spot.1 as int).data());
        }
    }
}

} // verus!
