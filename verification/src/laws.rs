//! Laws that relate the stages of the encoding to each other.
use crate::builder::{
    build_error, chosen_mask, chosen_mode, chosen_version, data_grid, symbol,
};
use crate::data::{data_bits_len, payload_len, symbols};
use crate::ec_level::ECLevel;
use crate::error::Error;
use crate::table_laws::lemma_capacity_is_exact;
use crate::info::total_bits_of;
use crate::mask::{best_mask, best_mask_upto, masked, penalty, Mask};
use crate::matrix::Grid;
use crate::mode::Mode;
use crate::tables::{capacity_of, lemma_capacity_grows};
use crate::version::{minimal_from, minimal_version, Version};
use vstd::prelude::*;

verus! {

/// More symbols take no fewer data bits.
pub proof fn lemma_data_len_grows(a: int, b: int, mode: Mode)
    requires
        0 <= a <= b,
    ensures
        data_bits_len(a, mode) <= data_bits_len(b, mode),
    decreases b - a,
{
    if a < b {
        lemma_data_len_grows(a, b - 1, mode);
    }
}

/// A larger version has a larger capacity.
pub proof fn lemma_capacity_monotone(u: int, v: int, e: ECLevel, mode: Mode)
    requires
        1 <= u <= v <= 40,
    ensures
        0 < capacity_of(u, e, mode) <= capacity_of(v, e, mode),
    decreases v - u,
{
    if u < v {
        lemma_capacity_monotone(u, v - 1, e, mode);
        lemma_capacity_grows(v - 1, e, mode);
    } else if u < 40 {
        lemma_capacity_grows(u, e, mode);
    } else {
        lemma_capacity_grows(39, e, mode);
    }
}

/// The smallest version from `from` on that holds `len` characters is a
/// version that holds them, and no version between holds them; where there
/// is none, no version from `from` on holds them.
pub proof fn lemma_minimal_from(len: int, e: ECLevel, mode: Mode, from: int)
    requires
        1 <= from <= 41,
    ensures
        match minimal_from(len, e, mode, from) {
            Some(w) => from <= w <= 40 && len <= capacity_of(w, e, mode) && forall|u: int|
                from <= u < w ==> len > #[trigger] capacity_of(u, e, mode),
            None => forall|u: int| from <= u <= 40 ==> len > #[trigger] capacity_of(u, e, mode),
        },
    decreases 41 - from,
{
    if from <= 40 && len > capacity_of(from, e, mode) {
        lemma_minimal_from(len, e, mode, from + 1);
    }
}

/// The smallest version that holds a number of characters is the first whose
/// capacity is not below that number; there is none where the number is above
/// the capacity of version 40.
pub proof fn lemma_minimal_version(len: int, e: ECLevel, mode: Mode)
    ensures
        match minimal_version(len, e, mode) {
            Some(w) => 1 <= w <= 40 && len <= capacity_of(w, e, mode) && (w > 1 ==> len
                > capacity_of(w - 1, e, mode)),
            None => len > capacity_of(40, e, mode),
        },
{
    lemma_minimal_from(len, e, mode, 1);
}

/// Whatever fits the capacity of a version fits its symbol.
pub proof fn lemma_capacity_fits(len: int, v: int, e: ECLevel, mode: Mode)
    requires
        1 <= v <= 40,
        0 <= len <= capacity_of(v, e, mode),
    ensures
        payload_len(len, mode, v) <= total_bits_of(v, e),
{
    lemma_capacity_is_exact(v, e, mode);
    lemma_data_len_grows(len, capacity_of(v, e, mode), mode);
}

/// Whatever exceeds the capacity of a version does not fit its symbol.
pub proof fn lemma_capacity_exceeded(len: int, v: int, e: ECLevel, mode: Mode)
    requires
        1 <= v <= 40,
        len > capacity_of(v, e, mode),
    ensures
        payload_len(len, mode, v) > total_bits_of(v, e),
{
    lemma_capacity_is_exact(v, e, mode);
    lemma_capacity_monotone(v, v, e, mode);
    lemma_data_len_grows(capacity_of(v, e, mode) + 1, len, mode);
}

/// With valid settings a string can be encoded exactly where a mode that is
/// asked for can represent it and it is no longer than the capacity: that of
/// the version asked for, or else that of version 40.
pub proof fn lemma_build_succeeds(
    version: Option<Version>,
    mask: Option<Mask>,
    e: ECLevel,
    mode: Option<Mode>,
    s: &str,
)
    requires
        version is Some ==> version->0.wf(),
        mask is Some ==> mask->0.wf(),
    ensures
        ({
            let md = chosen_mode(mode, s);
            let len = symbols(s, md).len() as int;
            let limit = match version {
                Some(v) => capacity_of(v.0 as int, e, md),
                None => capacity_of(40, e, md),
            };
            &&& build_error(version, mask, e, mode, s) is None <==> md.represents(s@) && len
                <= limit
            &&& build_error(version, mask, e, mode, s) == Some(Error::InvalidMode)
                <==> !md.represents(s@)
            &&& build_error(version, mask, e, mode, s) == Some(Error::CapacityExceeded) <==> md.represents(
                s@,
            ) && len > limit
        }),
{
    let md = chosen_mode(mode, s);
    let len = symbols(s, md).len() as int;
    match version {
        Some(v) => {
            if len <= capacity_of(v.0 as int, e, md) {
                lemma_capacity_fits(len, v.0 as int, e, md);
            } else {
                lemma_capacity_exceeded(len, v.0 as int, e, md);
            }
        },
        None => {
            lemma_minimal_version(len, e, md);
            match minimal_version(len, e, md) {
                Some(w) => {
                    lemma_capacity_fits(len, w, e, md);
                    lemma_capacity_monotone(w, 40, e, md);
                },
                None => {},
            }
        },
    }
}

/// At the boundary of a capacity: a string of as many characters as version
/// `n` holds can be encoded in version `n`, and by itself takes a version no
/// larger; a string of one character more cannot be encoded in version `n`,
/// and by itself takes a larger version or none.
pub proof fn lemma_capacity_boundary(n: int, mask: Option<Mask>, e: ECLevel, mode: Mode, s: &str)
    requires
        1 <= n <= 40,
        mask is Some ==> mask->0.wf(),
        mode.represents(s@),
    ensures
        symbols(s, mode).len() == capacity_of(n, e, mode) ==> {
            &&& build_error(Some(Version(n as usize)), mask, e, Some(mode), s) is None
            &&& build_error(None, mask, e, Some(mode), s) is None
            &&& chosen_version(None, e, mode, s) is Some
            &&& chosen_version(None, e, mode, s)->0 <= n
        },
        symbols(s, mode).len() == capacity_of(n, e, mode) + 1 ==> {
            &&& build_error(Some(Version(n as usize)), mask, e, Some(mode), s) == Some(
                Error::CapacityExceeded,
            )
            &&& match chosen_version(None, e, mode, s) {
                Some(w) => n < w <= 40 && build_error(None, mask, e, Some(mode), s) is None,
                None => n == 40 && build_error(None, mask, e, Some(mode), s) == Some(
                    Error::CapacityExceeded,
                ),
            }
        },
{
    let len = symbols(s, mode).len() as int;
    lemma_build_succeeds(Some(Version(n as usize)), mask, e, Some(mode), s);
    lemma_build_succeeds(None, mask, e, Some(mode), s);
    lemma_minimal_version(len, e, mode);
    lemma_capacity_monotone(n, 40, e, mode);
    match minimal_version(len, e, mode) {
        Some(w) => {
            lemma_minimal_from(len, e, mode, 1);
            if w <= n {
                lemma_capacity_monotone(w, n, e, mode);
            }
            if n < w {
                assert(len > capacity_of(n, e, mode));
            }
            lemma_capacity_fits(len, w, e, mode);
        },
        None => {
            if n < 40 {
                lemma_capacity_grows(n, e, mode);
                lemma_capacity_monotone(n + 1, 40, e, mode);
            }
        },
    }
}

/// The best of the masks 0 to `k` is one of them, has the least penalty of
/// them, and is the first of them with that penalty.
pub proof fn lemma_best_mask_upto(g: Grid, k: int)
    requires
        0 <= k,
    ensures
        0 <= best_mask_upto(g, k) <= k,
        forall|j: int|
            0 <= j <= k ==> penalty(masked(g, best_mask_upto(g, k))) <= penalty(
                #[trigger] masked(g, j),
            ),
        forall|j: int|
            0 <= j < best_mask_upto(g, k) ==> penalty(masked(g, best_mask_upto(g, k))) < penalty(
                #[trigger] masked(g, j),
            ),
    decreases k,
{
    if k > 0 {
        lemma_best_mask_upto(g, k - 1);
    }
}

/// The chosen mask minimizes the penalty over all eight masks, and of the
/// masks of least penalty it is the one of lowest index.
pub proof fn lemma_best_mask(g: Grid)
    ensures
        0 <= best_mask(g) <= 7,
        forall|j: int|
            0 <= j <= 7 ==> penalty(masked(g, best_mask(g))) <= penalty(#[trigger] masked(g, j)),
        forall|j: int|
            0 <= j < best_mask(g) ==> penalty(masked(g, best_mask(g))) < penalty(
                #[trigger] masked(g, j),
            ),
{
    lemma_best_mask_upto(g, 7);
}

/// Encoding a string again with the version, mask and mode that were chosen
/// for it gives the same symbol, module for module.
pub proof fn lemma_rebuild_is_identical(
    version: Option<Version>,
    mask: Option<Mask>,
    e: ECLevel,
    mode: Option<Mode>,
    s: &str,
)
    requires
        build_error(version, mask, e, mode, s) is None,
    ensures
        ({
            let sym = symbol(version, mask, e, mode, s);
            let v = Some(Version(sym.version as usize));
            let m = Some(Mask(sym.mask as usize));
            let md = Some(sym.mode);
            &&& 1 <= sym.version <= 40
            &&& 0 <= sym.mask <= 7
            &&& build_error(v, m, e, md, s) is None
            &&& symbol(v, m, e, md, s) == sym
        }),
{
    let md = chosen_mode(mode, s);
    let len = symbols(s, md).len() as int;
    lemma_minimal_version(len, e, md);
    let sym = symbol(version, mask, e, mode, s);
    let g = data_grid(s, sym.version, e, md);
    lemma_best_mask(g);
    assert(sym.mask == chosen_mask(mask, g));
}

} // verus!
