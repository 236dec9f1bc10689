//! Facts that hold of the tables of the standard together: the capacities
//! agree with the block layouts, and the bit streams fill the symbols.
use crate::census::free_modules;
use crate::data::payload_len;
use crate::ec::protected_len;
use crate::ec_level::ECLevel;
use crate::info::total_bits_of;
use crate::mode::Mode;
use crate::tables::{alignment_count, block_field, capacity_of, remainder_bits};
use vstd::prelude::*;

verus! {

/// The capacity table is exact: as many characters as the table gives for a
/// version, level and mode fit the symbol, and one more does not.
pub proof fn lemma_capacity_is_exact(v: int, e: ECLevel, mode: Mode)
    requires
        1 <= v <= 40,
    ensures
        payload_len(capacity_of(v, e, mode), mode, v) <= total_bits_of(v, e),
        payload_len(capacity_of(v, e, mode) + 1, mode, v) > total_bits_of(v, e),
{
    reveal(capacity_of);
    lemma_total_bits_value(v, e);
}

/// The count of data bits of each version and level.
pub proof fn lemma_total_bits_value(v: int, e: ECLevel)
    requires
        1 <= v <= 40,
    ensures

        v == 1 && e == ECLevel::L ==> total_bits_of(v, e) == 152,
        v == 1 && e == ECLevel::M ==> total_bits_of(v, e) == 128,
        v == 1 && e == ECLevel::Q ==> total_bits_of(v, e) == 104,
        v == 1 && e == ECLevel::H ==> total_bits_of(v, e) == 72,
        v == 2 && e == ECLevel::L ==> total_bits_of(v, e) == 272,
        v == 2 && e == ECLevel::M ==> total_bits_of(v, e) == 224,
        v == 2 && e == ECLevel::Q ==> total_bits_of(v, e) == 176,
        v == 2 && e == ECLevel::H ==> total_bits_of(v, e) == 128,
        v == 3 && e == ECLevel::L ==> total_bits_of(v, e) == 440,
        v == 3 && e == ECLevel::M ==> total_bits_of(v, e) == 352,
        v == 3 && e == ECLevel::Q ==> total_bits_of(v, e) == 272,
        v == 3 && e == ECLevel::H ==> total_bits_of(v, e) == 208,
        v == 4 && e == ECLevel::L ==> total_bits_of(v, e) == 640,
        v == 4 && e == ECLevel::M ==> total_bits_of(v, e) == 512,
        v == 4 && e == ECLevel::Q ==> total_bits_of(v, e) == 384,
        v == 4 && e == ECLevel::H ==> total_bits_of(v, e) == 288,
        v == 5 && e == ECLevel::L ==> total_bits_of(v, e) == 864,
        v == 5 && e == ECLevel::M ==> total_bits_of(v, e) == 688,
        v == 5 && e == ECLevel::Q ==> total_bits_of(v, e) == 496,
        v == 5 && e == ECLevel::H ==> total_bits_of(v, e) == 368,
        v == 6 && e == ECLevel::L ==> total_bits_of(v, e) == 1088,
        v == 6 && e == ECLevel::M ==> total_bits_of(v, e) == 864,
        v == 6 && e == ECLevel::Q ==> total_bits_of(v, e) == 608,
        v == 6 && e == ECLevel::H ==> total_bits_of(v, e) == 480,
        v == 7 && e == ECLevel::L ==> total_bits_of(v, e) == 1248,
        v == 7 && e == ECLevel::M ==> total_bits_of(v, e) == 992,
        v == 7 && e == ECLevel::Q ==> total_bits_of(v, e) == 704,
        v == 7 && e == ECLevel::H ==> total_bits_of(v, e) == 528,
        v == 8 && e == ECLevel::L ==> total_bits_of(v, e) == 1552,
        v == 8 && e == ECLevel::M ==> total_bits_of(v, e) == 1232,
        v == 8 && e == ECLevel::Q ==> total_bits_of(v, e) == 880,
        v == 8 && e == ECLevel::H ==> total_bits_of(v, e) == 688,
        v == 9 && e == ECLevel::L ==> total_bits_of(v, e) == 1856,
        v == 9 && e == ECLevel::M ==> total_bits_of(v, e) == 1456,
        v == 9 && e == ECLevel::Q ==> total_bits_of(v, e) == 1056,
        v == 9 && e == ECLevel::H ==> total_bits_of(v, e) == 800,
        v == 10 && e == ECLevel::L ==> total_bits_of(v, e) == 2192,
        v == 10 && e == ECLevel::M ==> total_bits_of(v, e) == 1728,
        v == 10 && e == ECLevel::Q ==> total_bits_of(v, e) == 1232,
        v == 10 && e == ECLevel::H ==> total_bits_of(v, e) == 976,
        v == 11 && e == ECLevel::L ==> total_bits_of(v, e) == 2592,
        v == 11 && e == ECLevel::M ==> total_bits_of(v, e) == 2032,
        v == 11 && e == ECLevel::Q ==> total_bits_of(v, e) == 1440,
        v == 11 && e == ECLevel::H ==> total_bits_of(v, e) == 1120,
        v == 12 && e == ECLevel::L ==> total_bits_of(v, e) == 2960,
        v == 12 && e == ECLevel::M ==> total_bits_of(v, e) == 2320,
        v == 12 && e == ECLevel::Q ==> total_bits_of(v, e) == 1648,
        v == 12 && e == ECLevel::H ==> total_bits_of(v, e) == 1264,
        v == 13 && e == ECLevel::L ==> total_bits_of(v, e) == 3424,
        v == 13 && e == ECLevel::M ==> total_bits_of(v, e) == 2672,
        v == 13 && e == ECLevel::Q ==> total_bits_of(v, e) == 1952,
        v == 13 && e == ECLevel::H ==> total_bits_of(v, e) == 1440,
        v == 14 && e == ECLevel::L ==> total_bits_of(v, e) == 3688,
        v == 14 && e == ECLevel::M ==> total_bits_of(v, e) == 2920,
        v == 14 && e == ECLevel::Q ==> total_bits_of(v, e) == 2088,
        v == 14 && e == ECLevel::H ==> total_bits_of(v, e) == 1576,
        v == 15 && e == ECLevel::L ==> total_bits_of(v, e) == 4184,
        v == 15 && e == ECLevel::M ==> total_bits_of(v, e) == 3320,
        v == 15 && e == ECLevel::Q ==> total_bits_of(v, e) == 2360,
        v == 15 && e == ECLevel::H ==> total_bits_of(v, e) == 1784,
        v == 16 && e == ECLevel::L ==> total_bits_of(v, e) == 4712,
        v == 16 && e == ECLevel::M ==> total_bits_of(v, e) == 3624,
        v == 16 && e == ECLevel::Q ==> total_bits_of(v, e) == 2600,
        v == 16 && e == ECLevel::H ==> total_bits_of(v, e) == 2024,
        v == 17 && e == ECLevel::L ==> total_bits_of(v, e) == 5176,
        v == 17 && e == ECLevel::M ==> total_bits_of(v, e) == 4056,
        v == 17 && e == ECLevel::Q ==> total_bits_of(v, e) == 2936,
        v == 17 && e == ECLevel::H ==> total_bits_of(v, e) == 2264,
        v == 18 && e == ECLevel::L ==> total_bits_of(v, e) == 5768,
        v == 18 && e == ECLevel::M ==> total_bits_of(v, e) == 4504,
        v == 18 && e == ECLevel::Q ==> total_bits_of(v, e) == 3176,
        v == 18 && e == ECLevel::H ==> total_bits_of(v, e) == 2504,
        v == 19 && e == ECLevel::L ==> total_bits_of(v, e) == 6360,
        v == 19 && e == ECLevel::M ==> total_bits_of(v, e) == 5016,
        v == 19 && e == ECLevel::Q ==> total_bits_of(v, e) == 3560,
        v == 19 && e == ECLevel::H ==> total_bits_of(v, e) == 2728,
        v == 20 && e == ECLevel::L ==> total_bits_of(v, e) == 6888,
        v == 20 && e == ECLevel::M ==> total_bits_of(v, e) == 5352,
        v == 20 && e == ECLevel::Q ==> total_bits_of(v, e) == 3880,
        v == 20 && e == ECLevel::H ==> total_bits_of(v, e) == 3080,
        v == 21 && e == ECLevel::L ==> total_bits_of(v, e) == 7456,
        v == 21 && e == ECLevel::M ==> total_bits_of(v, e) == 5712,
        v == 21 && e == ECLevel::Q ==> total_bits_of(v, e) == 4096,
        v == 21 && e == ECLevel::H ==> total_bits_of(v, e) == 3248,
        v == 22 && e == ECLevel::L ==> total_bits_of(v, e) == 8048,
        v == 22 && e == ECLevel::M ==> total_bits_of(v, e) == 6256,
        v == 22 && e == ECLevel::Q ==> total_bits_of(v, e) == 4544,
        v == 22 && e == ECLevel::H ==> total_bits_of(v, e) == 3536,
        v == 23 && e == ECLevel::L ==> total_bits_of(v, e) == 8752,
        v == 23 && e == ECLevel::M ==> total_bits_of(v, e) == 6880,
        v == 23 && e == ECLevel::Q ==> total_bits_of(v, e) == 4912,
        v == 23 && e == ECLevel::H ==> total_bits_of(v, e) == 3712,
        v == 24 && e == ECLevel::L ==> total_bits_of(v, e) == 9392,
        v == 24 && e == ECLevel::M ==> total_bits_of(v, e) == 7312,
        v == 24 && e == ECLevel::Q ==> total_bits_of(v, e) == 5312,
        v == 24 && e == ECLevel::H ==> total_bits_of(v, e) == 4112,
        v == 25 && e == ECLevel::L ==> total_bits_of(v, e) == 10208,
        v == 25 && e == ECLevel::M ==> total_bits_of(v, e) == 8000,
        v == 25 && e == ECLevel::Q ==> total_bits_of(v, e) == 5744,
        v == 25 && e == ECLevel::H ==> total_bits_of(v, e) == 4304,
        v == 26 && e == ECLevel::L ==> total_bits_of(v, e) == 10960,
        v == 26 && e == ECLevel::M ==> total_bits_of(v, e) == 8496,
        v == 26 && e == ECLevel::Q ==> total_bits_of(v, e) == 6032,
        v == 26 && e == ECLevel::H ==> total_bits_of(v, e) == 4768,
        v == 27 && e == ECLevel::L ==> total_bits_of(v, e) == 11744,
        v == 27 && e == ECLevel::M ==> total_bits_of(v, e) == 9024,
        v == 27 && e == ECLevel::Q ==> total_bits_of(v, e) == 6464,
        v == 27 && e == ECLevel::H ==> total_bits_of(v, e) == 5024,
        v == 28 && e == ECLevel::L ==> total_bits_of(v, e) == 12248,
        v == 28 && e == ECLevel::M ==> total_bits_of(v, e) == 9544,
        v == 28 && e == ECLevel::Q ==> total_bits_of(v, e) == 6968,
        v == 28 && e == ECLevel::H ==> total_bits_of(v, e) == 5288,
        v == 29 && e == ECLevel::L ==> total_bits_of(v, e) == 13048,
        v == 29 && e == ECLevel::M ==> total_bits_of(v, e) == 10136,
        v == 29 && e == ECLevel::Q ==> total_bits_of(v, e) == 7288,
        v == 29 && e == ECLevel::H ==> total_bits_of(v, e) == 5608,
        v == 30 && e == ECLevel::L ==> total_bits_of(v, e) == 13880,
        v == 30 && e == ECLevel::M ==> total_bits_of(v, e) == 10984,
        v == 30 && e == ECLevel::Q ==> total_bits_of(v, e) == 7880,
        v == 30 && e == ECLevel::H ==> total_bits_of(v, e) == 5960,
        v == 31 && e == ECLevel::L ==> total_bits_of(v, e) == 14744,
        v == 31 && e == ECLevel::M ==> total_bits_of(v, e) == 11640,
        v == 31 && e == ECLevel::Q ==> total_bits_of(v, e) == 8264,
        v == 31 && e == ECLevel::H ==> total_bits_of(v, e) == 6344,
        v == 32 && e == ECLevel::L ==> total_bits_of(v, e) == 15640,
        v == 32 && e == ECLevel::M ==> total_bits_of(v, e) == 12328,
        v == 32 && e == ECLevel::Q ==> total_bits_of(v, e) == 8920,
        v == 32 && e == ECLevel::H ==> total_bits_of(v, e) == 6760,
        v == 33 && e == ECLevel::L ==> total_bits_of(v, e) == 16568,
        v == 33 && e == ECLevel::M ==> total_bits_of(v, e) == 13048,
        v == 33 && e == ECLevel::Q ==> total_bits_of(v, e) == 9368,
        v == 33 && e == ECLevel::H ==> total_bits_of(v, e) == 7208,
        v == 34 && e == ECLevel::L ==> total_bits_of(v, e) == 17528,
        v == 34 && e == ECLevel::M ==> total_bits_of(v, e) == 13800,
        v == 34 && e == ECLevel::Q ==> total_bits_of(v, e) == 9848,
        v == 34 && e == ECLevel::H ==> total_bits_of(v, e) == 7688,
        v == 35 && e == ECLevel::L ==> total_bits_of(v, e) == 18448,
        v == 35 && e == ECLevel::M ==> total_bits_of(v, e) == 14496,
        v == 35 && e == ECLevel::Q ==> total_bits_of(v, e) == 10288,
        v == 35 && e == ECLevel::H ==> total_bits_of(v, e) == 7888,
        v == 36 && e == ECLevel::L ==> total_bits_of(v, e) == 19472,
        v == 36 && e == ECLevel::M ==> total_bits_of(v, e) == 15312,
        v == 36 && e == ECLevel::Q ==> total_bits_of(v, e) == 10832,
        v == 36 && e == ECLevel::H ==> total_bits_of(v, e) == 8432,
        v == 37 && e == ECLevel::L ==> total_bits_of(v, e) == 20528,
        v == 37 && e == ECLevel::M ==> total_bits_of(v, e) == 15936,
        v == 37 && e == ECLevel::Q ==> total_bits_of(v, e) == 11408,
        v == 37 && e == ECLevel::H ==> total_bits_of(v, e) == 8768,
        v == 38 && e == ECLevel::L ==> total_bits_of(v, e) == 21616,
        v == 38 && e == ECLevel::M ==> total_bits_of(v, e) == 16816,
        v == 38 && e == ECLevel::Q ==> total_bits_of(v, e) == 12016,
        v == 38 && e == ECLevel::H ==> total_bits_of(v, e) == 9136,
        v == 39 && e == ECLevel::L ==> total_bits_of(v, e) == 22496,
        v == 39 && e == ECLevel::M ==> total_bits_of(v, e) == 17728,
        v == 39 && e == ECLevel::Q ==> total_bits_of(v, e) == 12656,
        v == 39 && e == ECLevel::H ==> total_bits_of(v, e) == 9776,
        v == 40 && e == ECLevel::L ==> total_bits_of(v, e) == 23648,
        v == 40 && e == ECLevel::M ==> total_bits_of(v, e) == 18672,
        v == 40 && e == ECLevel::Q ==> total_bits_of(v, e) == 13328,
        v == 40 && e == ECLevel::H ==> total_bits_of(v, e) == 10208,
{
    reveal(block_field);
    let a = block_field(v, e, 1);
    let b = block_field(v, e, 2);
    let c = block_field(v, e, 3);
    let d = block_field(v, e, 4);
    if v == 1 {
        match e {
            ECLevel::L => {
                assert(a * b + c * d == 19) by (nonlinear_arith)
                    requires
                        a == 1,
                        b == 19,
                        c == 0,
                        d == 0,
                ;
            },
            ECLevel::M => {
                assert(a * b + c * d == 16) by (nonlinear_arith)
                    requires
                        a == 1,
                        b == 16,
                        c == 0,
                        d == 0,
                ;
            },
            ECLevel::Q => {
                assert(a * b + c * d == 13) by (nonlinear_arith)
                    requires
                        a == 1,
                        b == 13,
                        c == 0,
                        d == 0,
                ;
            },
            ECLevel::H => {
                assert(a * b + c * d == 9) by (nonlinear_arith)
                    requires
                        a == 1,
                        b == 9,
                        c == 0,
                        d == 0,
                ;
            },
        }
    } else if v == 2 {
        match e {
            ECLevel::L => {
                assert(a * b + c * d == 34) by (nonlinear_arith)
                    requires
                        a == 1,
                        b == 34,
                        c == 0,
                        d == 0,
                ;
            },
            ECLevel::M => {
                assert(a * b + c * d == 28) by (nonlinear_arith)
                    requires
                        a == 1,
                        b == 28,
                        c == 0,
                        d == 0,
                ;
            },
            ECLevel::Q => {
                assert(a * b + c * d == 22) by (nonlinear_arith)
                    requires
                        a == 1,
                        b == 22,
                        c == 0,
                        d == 0,
                ;
            },
            ECLevel::H => {
                assert(a * b + c * d == 16) by (nonlinear_arith)
                    requires
                        a == 1,
                        b == 16,
                        c == 0,
                        d == 0,
                ;
            },
        }
    } else if v == 3 {
        match e {
            ECLevel::L => {
                assert(a * b + c * d == 55) by (nonlinear_arith)
                    requires
                        a == 1,
                        b == 55,
                        c == 0,
                        d == 0,
                ;
            },
            ECLevel::M => {
                assert(a * b + c * d == 44) by (nonlinear_arith)
                    requires
                        a == 1,
                        b == 44,
                        c == 0,
                        d == 0,
                ;
            },
            ECLevel::Q => {
                assert(a * b + c * d == 34) by (nonlinear_arith)
                    requires
                        a == 2,
                        b == 17,
                        c == 0,
                        d == 0,
                ;
            },
            ECLevel::H => {
                assert(a * b + c * d == 26) by (nonlinear_arith)
                    requires
                        a == 2,
                        b == 13,
                        c == 0,
                        d == 0,
                ;
            },
        }
    } else if v == 4 {
        match e {
            ECLevel::L => {
                assert(a * b + c * d == 80) by (nonlinear_arith)
                    requires
                        a == 1,
                        b == 80,
                        c == 0,
                        d == 0,
                ;
            },
            ECLevel::M => {
                assert(a * b + c * d == 64) by (nonlinear_arith)
                    requires
                        a == 2,
                        b == 32,
                        c == 0,
                        d == 0,
                ;
            },
            ECLevel::Q => {
                assert(a * b + c * d == 48) by (nonlinear_arith)
                    requires
                        a == 2,
                        b == 24,
                        c == 0,
                        d == 0,
                ;
            },
            ECLevel::H => {
                assert(a * b + c * d == 36) by (nonlinear_arith)
                    requires
                        a == 4,
                        b == 9,
                        c == 0,
                        d == 0,
                ;
            },
        }
    } else if v == 5 {
        match e {
            ECLevel::L => {
                assert(a * b + c * d == 108) by (nonlinear_arith)
                    requires
                        a == 1,
                        b == 108,
                        c == 0,
                        d == 0,
                ;
            },
            ECLevel::M => {
                assert(a * b + c * d == 86) by (nonlinear_arith)
                    requires
                        a == 2,
                        b == 43,
                        c == 0,
                        d == 0,
                ;
            },
            ECLevel::Q => {
                assert(a * b + c * d == 62) by (nonlinear_arith)
                    requires
                        a == 2,
                        b == 15,
                        c == 2,
                        d == 16,
                ;
            },
            ECLevel::H => {
                assert(a * b + c * d == 46) by (nonlinear_arith)
                    requires
                        a == 2,
                        b == 11,
                        c == 2,
                        d == 12,
                ;
            },
        }
    } else if v == 6 {
        match e {
            ECLevel::L => {
                assert(a * b + c * d == 136) by (nonlinear_arith)
                    requires
                        a == 2,
                        b == 68,
                        c == 0,
                        d == 0,
                ;
            },
            ECLevel::M => {
                assert(a * b + c * d == 108) by (nonlinear_arith)
                    requires
                        a == 4,
                        b == 27,
                        c == 0,
                        d == 0,
                ;
            },
            ECLevel::Q => {
                assert(a * b + c * d == 76) by (nonlinear_arith)
                    requires
                        a == 4,
                        b == 19,
                        c == 0,
                        d == 0,
                ;
            },
            ECLevel::H => {
                assert(a * b + c * d == 60) by (nonlinear_arith)
                    requires
                        a == 4,
                        b == 15,
                        c == 0,
                        d == 0,
                ;
            },
        }
    } else if v == 7 {
        match e {
            ECLevel::L => {
                assert(a * b + c * d == 156) by (nonlinear_arith)
                    requires
                        a == 2,
                        b == 78,
                        c == 0,
                        d == 0,
                ;
            },
            ECLevel::M => {
                assert(a * b + c * d == 124) by (nonlinear_arith)
                    requires
                        a == 4,
                        b == 31,
                        c == 0,
                        d == 0,
                ;
            },
            ECLevel::Q => {
                assert(a * b + c * d == 88) by (nonlinear_arith)
                    requires
                        a == 2,
                        b == 14,
                        c == 4,
                        d == 15,
                ;
            },
            ECLevel::H => {
                assert(a * b + c * d == 66) by (nonlinear_arith)
                    requires
                        a == 4,
                        b == 13,
                        c == 1,
                        d == 14,
                ;
            },
        }
    } else if v == 8 {
        match e {
            ECLevel::L => {
                assert(a * b + c * d == 194) by (nonlinear_arith)
                    requires
                        a == 2,
                        b == 97,
                        c == 0,
                        d == 0,
                ;
            },
            ECLevel::M => {
                assert(a * b + c * d == 154) by (nonlinear_arith)
                    requires
                        a == 2,
                        b == 38,
                        c == 2,
                        d == 39,
                ;
            },
            ECLevel::Q => {
                assert(a * b + c * d == 110) by (nonlinear_arith)
                    requires
                        a == 4,
                        b == 18,
                        c == 2,
                        d == 19,
                ;
            },
            ECLevel::H => {
                assert(a * b + c * d == 86) by (nonlinear_arith)
                    requires
                        a == 4,
                        b == 14,
                        c == 2,
                        d == 15,
                ;
            },
        }
    } else if v == 9 {
        match e {
            ECLevel::L => {
                assert(a * b + c * d == 232) by (nonlinear_arith)
                    requires
                        a == 2,
                        b == 116,
                        c == 0,
                        d == 0,
                ;
            },
            ECLevel::M => {
                assert(a * b + c * d == 182) by (nonlinear_arith)
                    requires
                        a == 3,
                        b == 36,
                        c == 2,
                        d == 37,
                ;
            },
            ECLevel::Q => {
                assert(a * b + c * d == 132) by (nonlinear_arith)
                    requires
                        a == 4,
                        b == 16,
                        c == 4,
                        d == 17,
                ;
            },
            ECLevel::H => {
                assert(a * b + c * d == 100) by (nonlinear_arith)
                    requires
                        a == 4,
                        b == 12,
                        c == 4,
                        d == 13,
                ;
            },
        }
    } else if v == 10 {
        match e {
            ECLevel::L => {
                assert(a * b + c * d == 274) by (nonlinear_arith)
                    requires
                        a == 2,
                        b == 68,
                        c == 2,
                        d == 69,
                ;
            },
            ECLevel::M => {
                assert(a * b + c * d == 216) by (nonlinear_arith)
                    requires
                        a == 4,
                        b == 43,
                        c == 1,
                        d == 44,
                ;
            },
            ECLevel::Q => {
                assert(a * b + c * d == 154) by (nonlinear_arith)
                    requires
                        a == 6,
                        b == 19,
                        c == 2,
                        d == 20,
                ;
            },
            ECLevel::H => {
                assert(a * b + c * d == 122) by (nonlinear_arith)
                    requires
                        a == 6,
                        b == 15,
                        c == 2,
                        d == 16,
                ;
            },
        }
    } else if v == 11 {
        match e {
            ECLevel::L => {
                assert(a * b + c * d == 324) by (nonlinear_arith)
                    requires
                        a == 4,
                        b == 81,
                        c == 0,
                        d == 0,
                ;
            },
            ECLevel::M => {
                assert(a * b + c * d == 254) by (nonlinear_arith)
                    requires
                        a == 1,
                        b == 50,
                        c == 4,
                        d == 51,
                ;
            },
            ECLevel::Q => {
                assert(a * b + c * d == 180) by (nonlinear_arith)
                    requires
                        a == 4,
                        b == 22,
                        c == 4,
                        d == 23,
                ;
            },
            ECLevel::H => {
                assert(a * b + c * d == 140) by (nonlinear_arith)
                    requires
                        a == 3,
                        b == 12,
                        c == 8,
                        d == 13,
                ;
            },
        }
    } else if v == 12 {
        match e {
            ECLevel::L => {
                assert(a * b + c * d == 370) by (nonlinear_arith)
                    requires
                        a == 2,
                        b == 92,
                        c == 2,
                        d == 93,
                ;
            },
            ECLevel::M => {
                assert(a * b + c * d == 290) by (nonlinear_arith)
                    requires
                        a == 6,
                        b == 36,
                        c == 2,
                        d == 37,
                ;
            },
            ECLevel::Q => {
                assert(a * b + c * d == 206) by (nonlinear_arith)
                    requires
                        a == 4,
                        b == 20,
                        c == 6,
                        d == 21,
                ;
            },
            ECLevel::H => {
                assert(a * b + c * d == 158) by (nonlinear_arith)
                    requires
                        a == 7,
                        b == 14,
                        c == 4,
                        d == 15,
                ;
            },
        }
    } else if v == 13 {
        match e {
            ECLevel::L => {
                assert(a * b + c * d == 428) by (nonlinear_arith)
                    requires
                        a == 4,
                        b == 107,
                        c == 0,
                        d == 0,
                ;
            },
            ECLevel::M => {
                assert(a * b + c * d == 334) by (nonlinear_arith)
                    requires
                        a == 8,
                        b == 37,
                        c == 1,
                        d == 38,
                ;
            },
            ECLevel::Q => {
                assert(a * b + c * d == 244) by (nonlinear_arith)
                    requires
                        a == 8,
                        b == 20,
                        c == 4,
                        d == 21,
                ;
            },
            ECLevel::H => {
                assert(a * b + c * d == 180) by (nonlinear_arith)
                    requires
                        a == 12,
                        b == 11,
                        c == 4,
                        d == 12,
                ;
            },
        }
    } else if v == 14 {
        match e {
            ECLevel::L => {
                assert(a * b + c * d == 461) by (nonlinear_arith)
                    requires
                        a == 3,
                        b == 115,
                        c == 1,
                        d == 116,
                ;
            },
            ECLevel::M => {
                assert(a * b + c * d == 365) by (nonlinear_arith)
                    requires
                        a == 4,
                        b == 40,
                        c == 5,
                        d == 41,
                ;
            },
            ECLevel::Q => {
                assert(a * b + c * d == 261) by (nonlinear_arith)
                    requires
                        a == 11,
                        b == 16,
                        c == 5,
                        d == 17,
                ;
            },
            ECLevel::H => {
                assert(a * b + c * d == 197) by (nonlinear_arith)
                    requires
                        a == 11,
                        b == 12,
                        c == 5,
                        d == 13,
                ;
            },
        }
    } else if v == 15 {
        match e {
            ECLevel::L => {
                assert(a * b + c * d == 523) by (nonlinear_arith)
                    requires
                        a == 5,
                        b == 87,
                        c == 1,
                        d == 88,
                ;
            },
            ECLevel::M => {
                assert(a * b + c * d == 415) by (nonlinear_arith)
                    requires
                        a == 5,
                        b == 41,
                        c == 5,
                        d == 42,
                ;
            },
            ECLevel::Q => {
                assert(a * b + c * d == 295) by (nonlinear_arith)
                    requires
                        a == 5,
                        b == 24,
                        c == 7,
                        d == 25,
                ;
            },
            ECLevel::H => {
                assert(a * b + c * d == 223) by (nonlinear_arith)
                    requires
                        a == 11,
                        b == 12,
                        c == 7,
                        d == 13,
                ;
            },
        }
    } else if v == 16 {
        match e {
            ECLevel::L => {
                assert(a * b + c * d == 589) by (nonlinear_arith)
                    requires
                        a == 5,
                        b == 98,
                        c == 1,
                        d == 99,
                ;
            },
            ECLevel::M => {
                assert(a * b + c * d == 453) by (nonlinear_arith)
                    requires
                        a == 7,
                        b == 45,
                        c == 3,
                        d == 46,
                ;
            },
            ECLevel::Q => {
                assert(a * b + c * d == 325) by (nonlinear_arith)
                    requires
                        a == 15,
                        b == 19,
                        c == 2,
                        d == 20,
                ;
            },
            ECLevel::H => {
                assert(a * b + c * d == 253) by (nonlinear_arith)
                    requires
                        a == 3,
                        b == 15,
                        c == 13,
                        d == 16,
                ;
            },
        }
    } else if v == 17 {
        match e {
            ECLevel::L => {
                assert(a * b + c * d == 647) by (nonlinear_arith)
                    requires
                        a == 1,
                        b == 107,
                        c == 5,
                        d == 108,
                ;
            },
            ECLevel::M => {
                assert(a * b + c * d == 507) by (nonlinear_arith)
                    requires
                        a == 10,
                        b == 46,
                        c == 1,
                        d == 47,
                ;
            },
            ECLevel::Q => {
                assert(a * b + c * d == 367) by (nonlinear_arith)
                    requires
                        a == 1,
                        b == 22,
                        c == 15,
                        d == 23,
                ;
            },
            ECLevel::H => {
                assert(a * b + c * d == 283) by (nonlinear_arith)
                    requires
                        a == 2,
                        b == 14,
                        c == 17,
                        d == 15,
                ;
            },
        }
    } else if v == 18 {
        match e {
            ECLevel::L => {
                assert(a * b + c * d == 721) by (nonlinear_arith)
                    requires
                        a == 5,
                        b == 120,
                        c == 1,
                        d == 121,
                ;
            },
            ECLevel::M => {
                assert(a * b + c * d == 563) by (nonlinear_arith)
                    requires
                        a == 9,
                        b == 43,
                        c == 4,
                        d == 44,
                ;
            },
            ECLevel::Q => {
                assert(a * b + c * d == 397) by (nonlinear_arith)
                    requires
                        a == 17,
                        b == 22,
                        c == 1,
                        d == 23,
                ;
            },
            ECLevel::H => {
                assert(a * b + c * d == 313) by (nonlinear_arith)
                    requires
                        a == 2,
                        b == 14,
                        c == 19,
                        d == 15,
                ;
            },
        }
    } else if v == 19 {
        match e {
            ECLevel::L => {
                assert(a * b + c * d == 795) by (nonlinear_arith)
                    requires
                        a == 3,
                        b == 113,
                        c == 4,
                        d == 114,
                ;
            },
            ECLevel::M => {
                assert(a * b + c * d == 627) by (nonlinear_arith)
                    requires
                        a == 3,
                        b == 44,
                        c == 11,
                        d == 45,
                ;
            },
            ECLevel::Q => {
                assert(a * b + c * d == 445) by (nonlinear_arith)
                    requires
                        a == 17,
                        b == 21,
                        c == 4,
                        d == 22,
                ;
            },
            ECLevel::H => {
                assert(a * b + c * d == 341) by (nonlinear_arith)
                    requires
                        a == 9,
                        b == 13,
                        c == 16,
                        d == 14,
                ;
            },
        }
    } else if v == 20 {
        match e {
            ECLevel::L => {
                assert(a * b + c * d == 861) by (nonlinear_arith)
                    requires
                        a == 3,
                        b == 107,
                        c == 5,
                        d == 108,
                ;
            },
            ECLevel::M => {
                assert(a * b + c * d == 669) by (nonlinear_arith)
                    requires
                        a == 3,
                        b == 41,
                        c == 13,
                        d == 42,
                ;
            },
            ECLevel::Q => {
                assert(a * b + c * d == 485) by (nonlinear_arith)
                    requires
                        a == 15,
                        b == 24,
                        c == 5,
                        d == 25,
                ;
            },
            ECLevel::H => {
                assert(a * b + c * d == 385) by (nonlinear_arith)
                    requires
                        a == 15,
                        b == 15,
                        c == 10,
                        d == 16,
                ;
            },
        }
    } else if v == 21 {
        match e {
            ECLevel::L => {
                assert(a * b + c * d == 932) by (nonlinear_arith)
                    requires
                        a == 4,
                        b == 116,
                        c == 4,
                        d == 117,
                ;
            },
            ECLevel::M => {
                assert(a * b + c * d == 714) by (nonlinear_arith)
                    requires
                        a == 17,
                        b == 42,
                        c == 0,
                        d == 0,
                ;
            },
            ECLevel::Q => {
                assert(a * b + c * d == 512) by (nonlinear_arith)
                    requires
                        a == 17,
                        b == 22,
                        c == 6,
                        d == 23,
                ;
            },
            ECLevel::H => {
                assert(a * b + c * d == 406) by (nonlinear_arith)
                    requires
                        a == 19,
                        b == 16,
                        c == 6,
                        d == 17,
                ;
            },
        }
    } else if v == 22 {
        match e {
            ECLevel::L => {
                assert(a * b + c * d == 1006) by (nonlinear_arith)
                    requires
                        a == 2,
                        b == 111,
                        c == 7,
                        d == 112,
                ;
            },
            ECLevel::M => {
                assert(a * b + c * d == 782) by (nonlinear_arith)
                    requires
                        a == 17,
                        b == 46,
                        c == 0,
                        d == 0,
                ;
            },
            ECLevel::Q => {
                assert(a * b + c * d == 568) by (nonlinear_arith)
                    requires
                        a == 7,
                        b == 24,
                        c == 16,
                        d == 25,
                ;
            },
            ECLevel::H => {
                assert(a * b + c * d == 442) by (nonlinear_arith)
                    requires
                        a == 34,
                        b == 13,
                        c == 0,
                        d == 0,
                ;
            },
        }
    } else if v == 23 {
        match e {
            ECLevel::L => {
                assert(a * b + c * d == 1094) by (nonlinear_arith)
                    requires
                        a == 4,
                        b == 121,
                        c == 5,
                        d == 122,
                ;
            },
            ECLevel::M => {
                assert(a * b + c * d == 860) by (nonlinear_arith)
                    requires
                        a == 4,
                        b == 47,
                        c == 14,
                        d == 48,
                ;
            },
            ECLevel::Q => {
                assert(a * b + c * d == 614) by (nonlinear_arith)
                    requires
                        a == 11,
                        b == 24,
                        c == 14,
                        d == 25,
                ;
            },
            ECLevel::H => {
                assert(a * b + c * d == 464) by (nonlinear_arith)
                    requires
                        a == 16,
                        b == 15,
                        c == 14,
                        d == 16,
                ;
            },
        }
    } else if v == 24 {
        match e {
            ECLevel::L => {
                assert(a * b + c * d == 1174) by (nonlinear_arith)
                    requires
                        a == 6,
                        b == 117,
                        c == 4,
                        d == 118,
                ;
            },
            ECLevel::M => {
                assert(a * b + c * d == 914) by (nonlinear_arith)
                    requires
                        a == 6,
                        b == 45,
                        c == 14,
                        d == 46,
                ;
            },
            ECLevel::Q => {
                assert(a * b + c * d == 664) by (nonlinear_arith)
                    requires
                        a == 11,
                        b == 24,
                        c == 16,
                        d == 25,
                ;
            },
            ECLevel::H => {
                assert(a * b + c * d == 514) by (nonlinear_arith)
                    requires
                        a == 30,
                        b == 16,
                        c == 2,
                        d == 17,
                ;
            },
        }
    } else if v == 25 {
        match e {
            ECLevel::L => {
                assert(a * b + c * d == 1276) by (nonlinear_arith)
                    requires
                        a == 8,
                        b == 106,
                        c == 4,
                        d == 107,
                ;
            },
            ECLevel::M => {
                assert(a * b + c * d == 1000) by (nonlinear_arith)
                    requires
                        a == 8,
                        b == 47,
                        c == 13,
                        d == 48,
                ;
            },
            ECLevel::Q => {
                assert(a * b + c * d == 718) by (nonlinear_arith)
                    requires
                        a == 7,
                        b == 24,
                        c == 22,
                        d == 25,
                ;
            },
            ECLevel::H => {
                assert(a * b + c * d == 538) by (nonlinear_arith)
                    requires
                        a == 22,
                        b == 15,
                        c == 13,
                        d == 16,
                ;
            },
        }
    } else if v == 26 {
        match e {
            ECLevel::L => {
                assert(a * b + c * d == 1370) by (nonlinear_arith)
                    requires
                        a == 10,
                        b == 114,
                        c == 2,
                        d == 115,
                ;
            },
            ECLevel::M => {
                assert(a * b + c * d == 1062) by (nonlinear_arith)
                    requires
                        a == 19,
                        b == 46,
                        c == 4,
                        d == 47,
                ;
            },
            ECLevel::Q => {
                assert(a * b + c * d == 754) by (nonlinear_arith)
                    requires
                        a == 28,
                        b == 22,
                        c == 6,
                        d == 23,
                ;
            },
            ECLevel::H => {
                assert(a * b + c * d == 596) by (nonlinear_arith)
                    requires
                        a == 33,
                        b == 16,
                        c == 4,
                        d == 17,
                ;
            },
        }
    } else if v == 27 {
        match e {
            ECLevel::L => {
                assert(a * b + c * d == 1468) by (nonlinear_arith)
                    requires
                        a == 8,
                        b == 122,
                        c == 4,
                        d == 123,
                ;
            },
            ECLevel::M => {
                assert(a * b + c * d == 1128) by (nonlinear_arith)
                    requires
                        a == 22,
                        b == 45,
                        c == 3,
                        d == 46,
                ;
            },
            ECLevel::Q => {
                assert(a * b + c * d == 808) by (nonlinear_arith)
                    requires
                        a == 8,
                        b == 23,
                        c == 26,
                        d == 24,
                ;
            },
            ECLevel::H => {
                assert(a * b + c * d == 628) by (nonlinear_arith)
                    requires
                        a == 12,
                        b == 15,
                        c == 28,
                        d == 16,
                ;
            },
        }
    } else if v == 28 {
        match e {
            ECLevel::L => {
                assert(a * b + c * d == 1531) by (nonlinear_arith)
                    requires
                        a == 3,
                        b == 117,
                        c == 10,
                        d == 118,
                ;
            },
            ECLevel::M => {
                assert(a * b + c * d == 1193) by (nonlinear_arith)
                    requires
                        a == 3,
                        b == 45,
                        c == 23,
                        d == 46,
                ;
            },
            ECLevel::Q => {
                assert(a * b + c * d == 871) by (nonlinear_arith)
                    requires
                        a == 4,
                        b == 24,
                        c == 31,
                        d == 25,
                ;
            },
            ECLevel::H => {
                assert(a * b + c * d == 661) by (nonlinear_arith)
                    requires
                        a == 11,
                        b == 15,
                        c == 31,
                        d == 16,
                ;
            },
        }
    } else if v == 29 {
        match e {
            ECLevel::L => {
                assert(a * b + c * d == 1631) by (nonlinear_arith)
                    requires
                        a == 7,
                        b == 116,
                        c == 7,
                        d == 117,
                ;
            },
            ECLevel::M => {
                assert(a * b + c * d == 1267) by (nonlinear_arith)
                    requires
                        a == 21,
                        b == 45,
                        c == 7,
                        d == 46,
                ;
            },
            ECLevel::Q => {
                assert(a * b + c * d == 911) by (nonlinear_arith)
                    requires
                        a == 1,
                        b == 23,
                        c == 37,
                        d == 24,
                ;
            },
            ECLevel::H => {
                assert(a * b + c * d == 701) by (nonlinear_arith)
                    requires
                        a == 19,
                        b == 15,
                        c == 26,
                        d == 16,
                ;
            },
        }
    } else if v == 30 {
        match e {
            ECLevel::L => {
                assert(a * b + c * d == 1735) by (nonlinear_arith)
                    requires
                        a == 5,
                        b == 115,
                        c == 10,
                        d == 116,
                ;
            },
            ECLevel::M => {
                assert(a * b + c * d == 1373) by (nonlinear_arith)
                    requires
                        a == 19,
                        b == 47,
                        c == 10,
                        d == 48,
                ;
            },
            ECLevel::Q => {
                assert(a * b + c * d == 985) by (nonlinear_arith)
                    requires
                        a == 15,
                        b == 24,
                        c == 25,
                        d == 25,
                ;
            },
            ECLevel::H => {
                assert(a * b + c * d == 745) by (nonlinear_arith)
                    requires
                        a == 23,
                        b == 15,
                        c == 25,
                        d == 16,
                ;
            },
        }
    } else if v == 31 {
        match e {
            ECLevel::L => {
                assert(a * b + c * d == 1843) by (nonlinear_arith)
                    requires
                        a == 13,
                        b == 115,
                        c == 3,
                        d == 116,
                ;
            },
            ECLevel::M => {
                assert(a * b + c * d == 1455) by (nonlinear_arith)
                    requires
                        a == 2,
                        b == 46,
                        c == 29,
                        d == 47,
                ;
            },
            ECLevel::Q => {
                assert(a * b + c * d == 1033) by (nonlinear_arith)
                    requires
                        a == 42,
                        b == 24,
                        c == 1,
                        d == 25,
                ;
            },
            ECLevel::H => {
                assert(a * b + c * d == 793) by (nonlinear_arith)
                    requires
                        a == 23,
                        b == 15,
                        c == 28,
                        d == 16,
                ;
            },
        }
    } else if v == 32 {
        match e {
            ECLevel::L => {
                assert(a * b + c * d == 1955) by (nonlinear_arith)
                    requires
                        a == 17,
                        b == 115,
                        c == 0,
                        d == 0,
                ;
            },
            ECLevel::M => {
                assert(a * b + c * d == 1541) by (nonlinear_arith)
                    requires
                        a == 10,
                        b == 46,
                        c == 23,
                        d == 47,
                ;
            },
            ECLevel::Q => {
                assert(a * b + c * d == 1115) by (nonlinear_arith)
                    requires
                        a == 10,
                        b == 24,
                        c == 35,
                        d == 25,
                ;
            },
            ECLevel::H => {
                assert(a * b + c * d == 845) by (nonlinear_arith)
                    requires
                        a == 19,
                        b == 15,
                        c == 35,
                        d == 16,
                ;
            },
        }
    } else if v == 33 {
        match e {
            ECLevel::L => {
                assert(a * b + c * d == 2071) by (nonlinear_arith)
                    requires
                        a == 17,
                        b == 115,
                        c == 1,
                        d == 116,
                ;
            },
            ECLevel::M => {
                assert(a * b + c * d == 1631) by (nonlinear_arith)
                    requires
                        a == 14,
                        b == 46,
                        c == 21,
                        d == 47,
                ;
            },
            ECLevel::Q => {
                assert(a * b + c * d == 1171) by (nonlinear_arith)
                    requires
                        a == 29,
                        b == 24,
                        c == 19,
                        d == 25,
                ;
            },
            ECLevel::H => {
                assert(a * b + c * d == 901) by (nonlinear_arith)
                    requires
                        a == 11,
                        b == 15,
                        c == 46,
                        d == 16,
                ;
            },
        }
    } else if v == 34 {
        match e {
            ECLevel::L => {
                assert(a * b + c * d == 2191) by (nonlinear_arith)
                    requires
                        a == 13,
                        b == 115,
                        c == 6,
                        d == 116,
                ;
            },
            ECLevel::M => {
                assert(a * b + c * d == 1725) by (nonlinear_arith)
                    requires
                        a == 14,
                        b == 46,
                        c == 23,
                        d == 47,
                ;
            },
            ECLevel::Q => {
                assert(a * b + c * d == 1231) by (nonlinear_arith)
                    requires
                        a == 44,
                        b == 24,
                        c == 7,
                        d == 25,
                ;
            },
            ECLevel::H => {
                assert(a * b + c * d == 961) by (nonlinear_arith)
                    requires
                        a == 59,
                        b == 16,
                        c == 1,
                        d == 17,
                ;
            },
        }
    } else if v == 35 {
        match e {
            ECLevel::L => {
                assert(a * b + c * d == 2306) by (nonlinear_arith)
                    requires
                        a == 12,
                        b == 121,
                        c == 7,
                        d == 122,
                ;
            },
            ECLevel::M => {
                assert(a * b + c * d == 1812) by (nonlinear_arith)
                    requires
                        a == 12,
                        b == 47,
                        c == 26,
                        d == 48,
                ;
            },
            ECLevel::Q => {
                assert(a * b + c * d == 1286) by (nonlinear_arith)
                    requires
                        a == 39,
                        b == 24,
                        c == 14,
                        d == 25,
                ;
            },
            ECLevel::H => {
                assert(a * b + c * d == 986) by (nonlinear_arith)
                    requires
                        a == 22,
                        b == 15,
                        c == 41,
                        d == 16,
                ;
            },
        }
    } else if v == 36 {
        match e {
            ECLevel::L => {
                assert(a * b + c * d == 2434) by (nonlinear_arith)
                    requires
                        a == 6,
                        b == 121,
                        c == 14,
                        d == 122,
                ;
            },
            ECLevel::M => {
                assert(a * b + c * d == 1914) by (nonlinear_arith)
                    requires
                        a == 6,
                        b == 47,
                        c == 34,
                        d == 48,
                ;
            },
            ECLevel::Q => {
                assert(a * b + c * d == 1354) by (nonlinear_arith)
                    requires
                        a == 46,
                        b == 24,
                        c == 10,
                        d == 25,
                ;
            },
            ECLevel::H => {
                assert(a * b + c * d == 1054) by (nonlinear_arith)
                    requires
                        a == 2,
                        b == 15,
                        c == 64,
                        d == 16,
                ;
            },
        }
    } else if v == 37 {
        match e {
            ECLevel::L => {
                assert(a * b + c * d == 2566) by (nonlinear_arith)
                    requires
                        a == 17,
                        b == 122,
                        c == 4,
                        d == 123,
                ;
            },
            ECLevel::M => {
                assert(a * b + c * d == 1992) by (nonlinear_arith)
                    requires
                        a == 29,
                        b == 46,
                        c == 14,
                        d == 47,
                ;
            },
            ECLevel::Q => {
                assert(a * b + c * d == 1426) by (nonlinear_arith)
                    requires
                        a == 49,
                        b == 24,
                        c == 10,
                        d == 25,
                ;
            },
            ECLevel::H => {
                assert(a * b + c * d == 1096) by (nonlinear_arith)
                    requires
                        a == 24,
                        b == 15,
                        c == 46,
                        d == 16,
                ;
            },
        }
    } else if v == 38 {
        match e {
            ECLevel::L => {
                assert(a * b + c * d == 2702) by (nonlinear_arith)
                    requires
                        a == 4,
                        b == 122,
                        c == 18,
                        d == 123,
                ;
            },
            ECLevel::M => {
                assert(a * b + c * d == 2102) by (nonlinear_arith)
                    requires
                        a == 13,
                        b == 46,
                        c == 32,
                        d == 47,
                ;
            },
            ECLevel::Q => {
                assert(a * b + c * d == 1502) by (nonlinear_arith)
                    requires
                        a == 48,
                        b == 24,
                        c == 14,
                        d == 25,
                ;
            },
            ECLevel::H => {
                assert(a * b + c * d == 1142) by (nonlinear_arith)
                    requires
                        a == 42,
                        b == 15,
                        c == 32,
                        d == 16,
                ;
            },
        }
    } else if v == 39 {
        match e {
            ECLevel::L => {
                assert(a * b + c * d == 2812) by (nonlinear_arith)
                    requires
                        a == 20,
                        b == 117,
                        c == 4,
                        d == 118,
                ;
            },
            ECLevel::M => {
                assert(a * b + c * d == 2216) by (nonlinear_arith)
                    requires
                        a == 40,
                        b == 47,
                        c == 7,
                        d == 48,
                ;
            },
            ECLevel::Q => {
                assert(a * b + c * d == 1582) by (nonlinear_arith)
                    requires
                        a == 43,
                        b == 24,
                        c == 22,
                        d == 25,
                ;
            },
            ECLevel::H => {
                assert(a * b + c * d == 1222) by (nonlinear_arith)
                    requires
                        a == 10,
                        b == 15,
                        c == 67,
                        d == 16,
                ;
            },
        }
    } else if v == 40 {
        match e {
            ECLevel::L => {
                assert(a * b + c * d == 2956) by (nonlinear_arith)
                    requires
                        a == 19,
                        b == 118,
                        c == 6,
                        d == 119,
                ;
            },
            ECLevel::M => {
                assert(a * b + c * d == 2334) by (nonlinear_arith)
                    requires
                        a == 18,
                        b == 47,
                        c == 31,
                        d == 48,
                ;
            },
            ECLevel::Q => {
                assert(a * b + c * d == 1666) by (nonlinear_arith)
                    requires
                        a == 34,
                        b == 24,
                        c == 34,
                        d == 25,
                ;
            },
            ECLevel::H => {
                assert(a * b + c * d == 1276) by (nonlinear_arith)
                    requires
                        a == 20,
                        b == 15,
                        c == 61,
                        d == 16,
                ;
            },
        }
    }
}

/// The bit stream of a symbol has as many bits as the symbol has modules
/// free for data, at every error correction level.
pub proof fn lemma_stream_len(v: int, e: ECLevel)
    requires
        1 <= v <= 40,
    ensures
        protected_len(v, e) == free_modules(v),
{
    reveal(block_field);
    reveal(remainder_bits);
    reveal(alignment_count);
    let a = block_field(v, e, 1);
    let b = block_field(v, e, 2);
    let c = block_field(v, e, 3);
    let d = block_field(v, e, 4);
    let x = block_field(v, e, 0);
    let r = remainder_bits(v);
    let m = alignment_count(v);
    let n = 21 + 4 * (v - 1);
    if v == 1 {
        match e {
            ECLevel::L => {
                assert(8 * (a * b + c * d) + 8 * x * (a + c) + r == 208) by (nonlinear_arith)
                    requires
                        a == 1,
                        b == 19,
                        c == 0,
                        d == 0,
                        x == 7,
                        r == 0,
                ;
                assert(m * m == 0) by (nonlinear_arith)
                    requires
                        m == 0,
                ;
                assert(n * n == 441) by (nonlinear_arith)
                    requires
                        n == 21,
                ;
            },
            ECLevel::M => {
                assert(8 * (a * b + c * d) + 8 * x * (a + c) + r == 208) by (nonlinear_arith)
                    requires
                        a == 1,
                        b == 16,
                        c == 0,
                        d == 0,
                        x == 10,
                        r == 0,
                ;
                assert(m * m == 0) by (nonlinear_arith)
                    requires
                        m == 0,
                ;
                assert(n * n == 441) by (nonlinear_arith)
                    requires
                        n == 21,
                ;
            },
            ECLevel::Q => {
                assert(8 * (a * b + c * d) + 8 * x * (a + c) + r == 208) by (nonlinear_arith)
                    requires
                        a == 1,
                        b == 13,
                        c == 0,
                        d == 0,
                        x == 13,
                        r == 0,
                ;
                assert(m * m == 0) by (nonlinear_arith)
                    requires
                        m == 0,
                ;
                assert(n * n == 441) by (nonlinear_arith)
                    requires
                        n == 21,
                ;
            },
            ECLevel::H => {
                assert(8 * (a * b + c * d) + 8 * x * (a + c) + r == 208) by (nonlinear_arith)
                    requires
                        a == 1,
                        b == 9,
                        c == 0,
                        d == 0,
                        x == 17,
                        r == 0,
                ;
                assert(m * m == 0) by (nonlinear_arith)
                    requires
                        m == 0,
                ;
                assert(n * n == 441) by (nonlinear_arith)
                    requires
                        n == 21,
                ;
            },
        }
    } else if v == 2 {
        match e {
            ECLevel::L => {
                assert(8 * (a * b + c * d) + 8 * x * (a + c) + r == 359) by (nonlinear_arith)
                    requires
                        a == 1,
                        b == 34,
                        c == 0,
                        d == 0,
                        x == 10,
                        r == 7,
                ;
                assert(m * m == 4) by (nonlinear_arith)
                    requires
                        m == 2,
                ;
                assert(n * n == 625) by (nonlinear_arith)
                    requires
                        n == 25,
                ;
            },
            ECLevel::M => {
                assert(8 * (a * b + c * d) + 8 * x * (a + c) + r == 359) by (nonlinear_arith)
                    requires
                        a == 1,
                        b == 28,
                        c == 0,
                        d == 0,
                        x == 16,
                        r == 7,
                ;
                assert(m * m == 4) by (nonlinear_arith)
                    requires
                        m == 2,
                ;
                assert(n * n == 625) by (nonlinear_arith)
                    requires
                        n == 25,
                ;
            },
            ECLevel::Q => {
                assert(8 * (a * b + c * d) + 8 * x * (a + c) + r == 359) by (nonlinear_arith)
                    requires
                        a == 1,
                        b == 22,
                        c == 0,
                        d == 0,
                        x == 22,
                        r == 7,
                ;
                assert(m * m == 4) by (nonlinear_arith)
                    requires
                        m == 2,
                ;
                assert(n * n == 625) by (nonlinear_arith)
                    requires
                        n == 25,
                ;
            },
            ECLevel::H => {
                assert(8 * (a * b + c * d) + 8 * x * (a + c) + r == 359) by (nonlinear_arith)
                    requires
                        a == 1,
                        b == 16,
                        c == 0,
                        d == 0,
                        x == 28,
                        r == 7,
                ;
                assert(m * m == 4) by (nonlinear_arith)
                    requires
                        m == 2,
                ;
                assert(n * n == 625) by (nonlinear_arith)
                    requires
                        n == 25,
                ;
            },
        }
    } else if v == 3 {
        match e {
            ECLevel::L => {
                assert(8 * (a * b + c * d) + 8 * x * (a + c) + r == 567) by (nonlinear_arith)
                    requires
                        a == 1,
                        b == 55,
                        c == 0,
                        d == 0,
                        x == 15,
                        r == 7,
                ;
                assert(m * m == 4) by (nonlinear_arith)
                    requires
                        m == 2,
                ;
                assert(n * n == 841) by (nonlinear_arith)
                    requires
                        n == 29,
                ;
            },
            ECLevel::M => {
                assert(8 * (a * b + c * d) + 8 * x * (a + c) + r == 567) by (nonlinear_arith)
                    requires
                        a == 1,
                        b == 44,
                        c == 0,
                        d == 0,
                        x == 26,
                        r == 7,
                ;
                assert(m * m == 4) by (nonlinear_arith)
                    requires
                        m == 2,
                ;
                assert(n * n == 841) by (nonlinear_arith)
                    requires
                        n == 29,
                ;
            },
            ECLevel::Q => {
                assert(8 * (a * b + c * d) + 8 * x * (a + c) + r == 567) by (nonlinear_arith)
                    requires
                        a == 2,
                        b == 17,
                        c == 0,
                        d == 0,
                        x == 18,
                        r == 7,
                ;
                assert(m * m == 4) by (nonlinear_arith)
                    requires
                        m == 2,
                ;
                assert(n * n == 841) by (nonlinear_arith)
                    requires
                        n == 29,
                ;
            },
            ECLevel::H => {
                assert(8 * (a * b + c * d) + 8 * x * (a + c) + r == 567) by (nonlinear_arith)
                    requires
                        a == 2,
                        b == 13,
                        c == 0,
                        d == 0,
                        x == 22,
                        r == 7,
                ;
                assert(m * m == 4) by (nonlinear_arith)
                    requires
                        m == 2,
                ;
                assert(n * n == 841) by (nonlinear_arith)
                    requires
                        n == 29,
                ;
            },
        }
    } else if v == 4 {
        match e {
            ECLevel::L => {
                assert(8 * (a * b + c * d) + 8 * x * (a + c) + r == 807) by (nonlinear_arith)
                    requires
                        a == 1,
                        b == 80,
                        c == 0,
                        d == 0,
                        x == 20,
                        r == 7,
                ;
                assert(m * m == 4) by (nonlinear_arith)
                    requires
                        m == 2,
                ;
                assert(n * n == 1089) by (nonlinear_arith)
                    requires
                        n == 33,
                ;
            },
            ECLevel::M => {
                assert(8 * (a * b + c * d) + 8 * x * (a + c) + r == 807) by (nonlinear_arith)
                    requires
                        a == 2,
                        b == 32,
                        c == 0,
                        d == 0,
                        x == 18,
                        r == 7,
                ;
                assert(m * m == 4) by (nonlinear_arith)
                    requires
                        m == 2,
                ;
                assert(n * n == 1089) by (nonlinear_arith)
                    requires
                        n == 33,
                ;
            },
            ECLevel::Q => {
                assert(8 * (a * b + c * d) + 8 * x * (a + c) + r == 807) by (nonlinear_arith)
                    requires
                        a == 2,
                        b == 24,
                        c == 0,
                        d == 0,
                        x == 26,
                        r == 7,
                ;
                assert(m * m == 4) by (nonlinear_arith)
                    requires
                        m == 2,
                ;
                assert(n * n == 1089) by (nonlinear_arith)
                    requires
                        n == 33,
                ;
            },
            ECLevel::H => {
                assert(8 * (a * b + c * d) + 8 * x * (a + c) + r == 807) by (nonlinear_arith)
                    requires
                        a == 4,
                        b == 9,
                        c == 0,
                        d == 0,
                        x == 16,
                        r == 7,
                ;
                assert(m * m == 4) by (nonlinear_arith)
                    requires
                        m == 2,
                ;
                assert(n * n == 1089) by (nonlinear_arith)
                    requires
                        n == 33,
                ;
            },
        }
    } else if v == 5 {
        match e {
            ECLevel::L => {
                assert(8 * (a * b + c * d) + 8 * x * (a + c) + r == 1079) by (nonlinear_arith)
                    requires
                        a == 1,
                        b == 108,
                        c == 0,
                        d == 0,
                        x == 26,
                        r == 7,
                ;
                assert(m * m == 4) by (nonlinear_arith)
                    requires
                        m == 2,
                ;
                assert(n * n == 1369) by (nonlinear_arith)
                    requires
                        n == 37,
                ;
            },
            ECLevel::M => {
                assert(8 * (a * b + c * d) + 8 * x * (a + c) + r == 1079) by (nonlinear_arith)
                    requires
                        a == 2,
                        b == 43,
                        c == 0,
                        d == 0,
                        x == 24,
                        r == 7,
                ;
                assert(m * m == 4) by (nonlinear_arith)
                    requires
                        m == 2,
                ;
                assert(n * n == 1369) by (nonlinear_arith)
                    requires
                        n == 37,
                ;
            },
            ECLevel::Q => {
                assert(8 * (a * b + c * d) + 8 * x * (a + c) + r == 1079) by (nonlinear_arith)
                    requires
                        a == 2,
                        b == 15,
                        c == 2,
                        d == 16,
                        x == 18,
                        r == 7,
                ;
                assert(m * m == 4) by (nonlinear_arith)
                    requires
                        m == 2,
                ;
                assert(n * n == 1369) by (nonlinear_arith)
                    requires
                        n == 37,
                ;
            },
            ECLevel::H => {
                assert(8 * (a * b + c * d) + 8 * x * (a + c) + r == 1079) by (nonlinear_arith)
                    requires
                        a == 2,
                        b == 11,
                        c == 2,
                        d == 12,
                        x == 22,
                        r == 7,
                ;
                assert(m * m == 4) by (nonlinear_arith)
                    requires
                        m == 2,
                ;
                assert(n * n == 1369) by (nonlinear_arith)
                    requires
                        n == 37,
                ;
            },
        }
    } else if v == 6 {
        match e {
            ECLevel::L => {
                assert(8 * (a * b + c * d) + 8 * x * (a + c) + r == 1383) by (nonlinear_arith)
                    requires
                        a == 2,
                        b == 68,
                        c == 0,
                        d == 0,
                        x == 18,
                        r == 7,
                ;
                assert(m * m == 4) by (nonlinear_arith)
                    requires
                        m == 2,
                ;
                assert(n * n == 1681) by (nonlinear_arith)
                    requires
                        n == 41,
                ;
            },
            ECLevel::M => {
                assert(8 * (a * b + c * d) + 8 * x * (a + c) + r == 1383) by (nonlinear_arith)
                    requires
                        a == 4,
                        b == 27,
                        c == 0,
                        d == 0,
                        x == 16,
                        r == 7,
                ;
                assert(m * m == 4) by (nonlinear_arith)
                    requires
                        m == 2,
                ;
                assert(n * n == 1681) by (nonlinear_arith)
                    requires
                        n == 41,
                ;
            },
            ECLevel::Q => {
                assert(8 * (a * b + c * d) + 8 * x * (a + c) + r == 1383) by (nonlinear_arith)
                    requires
                        a == 4,
                        b == 19,
                        c == 0,
                        d == 0,
                        x == 24,
                        r == 7,
                ;
                assert(m * m == 4) by (nonlinear_arith)
                    requires
                        m == 2,
                ;
                assert(n * n == 1681) by (nonlinear_arith)
                    requires
                        n == 41,
                ;
            },
            ECLevel::H => {
                assert(8 * (a * b + c * d) + 8 * x * (a + c) + r == 1383) by (nonlinear_arith)
                    requires
                        a == 4,
                        b == 15,
                        c == 0,
                        d == 0,
                        x == 28,
                        r == 7,
                ;
                assert(m * m == 4) by (nonlinear_arith)
                    requires
                        m == 2,
                ;
                assert(n * n == 1681) by (nonlinear_arith)
                    requires
                        n == 41,
                ;
            },
        }
    } else if v == 7 {
        match e {
            ECLevel::L => {
                assert(8 * (a * b + c * d) + 8 * x * (a + c) + r == 1568) by (nonlinear_arith)
                    requires
                        a == 2,
                        b == 78,
                        c == 0,
                        d == 0,
                        x == 20,
                        r == 0,
                ;
                assert(m * m == 9) by (nonlinear_arith)
                    requires
                        m == 3,
                ;
                assert(n * n == 2025) by (nonlinear_arith)
                    requires
                        n == 45,
                ;
            },
            ECLevel::M => {
                assert(8 * (a * b + c * d) + 8 * x * (a + c) + r == 1568) by (nonlinear_arith)
                    requires
                        a == 4,
                        b == 31,
                        c == 0,
                        d == 0,
                        x == 18,
                        r == 0,
                ;
                assert(m * m == 9) by (nonlinear_arith)
                    requires
                        m == 3,
                ;
                assert(n * n == 2025) by (nonlinear_arith)
                    requires
                        n == 45,
                ;
            },
            ECLevel::Q => {
                assert(8 * (a * b + c * d) + 8 * x * (a + c) + r == 1568) by (nonlinear_arith)
                    requires
                        a == 2,
                        b == 14,
                        c == 4,
                        d == 15,
                        x == 18,
                        r == 0,
                ;
                assert(m * m == 9) by (nonlinear_arith)
                    requires
                        m == 3,
                ;
                assert(n * n == 2025) by (nonlinear_arith)
                    requires
                        n == 45,
                ;
            },
            ECLevel::H => {
                assert(8 * (a * b + c * d) + 8 * x * (a + c) + r == 1568) by (nonlinear_arith)
                    requires
                        a == 4,
                        b == 13,
                        c == 1,
                        d == 14,
                        x == 26,
                        r == 0,
                ;
                assert(m * m == 9) by (nonlinear_arith)
                    requires
                        m == 3,
                ;
                assert(n * n == 2025) by (nonlinear_arith)
                    requires
                        n == 45,
                ;
            },
        }
    } else if v == 8 {
        match e {
            ECLevel::L => {
                assert(8 * (a * b + c * d) + 8 * x * (a + c) + r == 1936) by (nonlinear_arith)
                    requires
                        a == 2,
                        b == 97,
                        c == 0,
                        d == 0,
                        x == 24,
                        r == 0,
                ;
                assert(m * m == 9) by (nonlinear_arith)
                    requires
                        m == 3,
                ;
                assert(n * n == 2401) by (nonlinear_arith)
                    requires
                        n == 49,
                ;
            },
            ECLevel::M => {
                assert(8 * (a * b + c * d) + 8 * x * (a + c) + r == 1936) by (nonlinear_arith)
                    requires
                        a == 2,
                        b == 38,
                        c == 2,
                        d == 39,
                        x == 22,
                        r == 0,
                ;
                assert(m * m == 9) by (nonlinear_arith)
                    requires
                        m == 3,
                ;
                assert(n * n == 2401) by (nonlinear_arith)
                    requires
                        n == 49,
                ;
            },
            ECLevel::Q => {
                assert(8 * (a * b + c * d) + 8 * x * (a + c) + r == 1936) by (nonlinear_arith)
                    requires
                        a == 4,
                        b == 18,
                        c == 2,
                        d == 19,
                        x == 22,
                        r == 0,
                ;
                assert(m * m == 9) by (nonlinear_arith)
                    requires
                        m == 3,
                ;
                assert(n * n == 2401) by (nonlinear_arith)
                    requires
                        n == 49,
                ;
            },
            ECLevel::H => {
                assert(8 * (a * b + c * d) + 8 * x * (a + c) + r == 1936) by (nonlinear_arith)
                    requires
                        a == 4,
                        b == 14,
                        c == 2,
                        d == 15,
                        x == 26,
                        r == 0,
                ;
                assert(m * m == 9) by (nonlinear_arith)
                    requires
                        m == 3,
                ;
                assert(n * n == 2401) by (nonlinear_arith)
                    requires
                        n == 49,
                ;
            },
        }
    } else if v == 9 {
        match e {
            ECLevel::L => {
                assert(8 * (a * b + c * d) + 8 * x * (a + c) + r == 2336) by (nonlinear_arith)
                    requires
                        a == 2,
                        b == 116,
                        c == 0,
                        d == 0,
                        x == 30,
                        r == 0,
                ;
                assert(m * m == 9) by (nonlinear_arith)
                    requires
                        m == 3,
                ;
                assert(n * n == 2809) by (nonlinear_arith)
                    requires
                        n == 53,
                ;
            },
            ECLevel::M => {
                assert(8 * (a * b + c * d) + 8 * x * (a + c) + r == 2336) by (nonlinear_arith)
                    requires
                        a == 3,
                        b == 36,
                        c == 2,
                        d == 37,
                        x == 22,
                        r == 0,
                ;
                assert(m * m == 9) by (nonlinear_arith)
                    requires
                        m == 3,
                ;
                assert(n * n == 2809) by (nonlinear_arith)
                    requires
                        n == 53,
                ;
            },
            ECLevel::Q => {
                assert(8 * (a * b + c * d) + 8 * x * (a + c) + r == 2336) by (nonlinear_arith)
                    requires
                        a == 4,
                        b == 16,
                        c == 4,
                        d == 17,
                        x == 20,
                        r == 0,
                ;
                assert(m * m == 9) by (nonlinear_arith)
                    requires
                        m == 3,
                ;
                assert(n * n == 2809) by (nonlinear_arith)
                    requires
                        n == 53,
                ;
            },
            ECLevel::H => {
                assert(8 * (a * b + c * d) + 8 * x * (a + c) + r == 2336) by (nonlinear_arith)
                    requires
                        a == 4,
                        b == 12,
                        c == 4,
                        d == 13,
                        x == 24,
                        r == 0,
                ;
                assert(m * m == 9) by (nonlinear_arith)
                    requires
                        m == 3,
                ;
                assert(n * n == 2809) by (nonlinear_arith)
                    requires
                        n == 53,
                ;
            },
        }
    } else if v == 10 {
        match e {
            ECLevel::L => {
                assert(8 * (a * b + c * d) + 8 * x * (a + c) + r == 2768) by (nonlinear_arith)
                    requires
                        a == 2,
                        b == 68,
                        c == 2,
                        d == 69,
                        x == 18,
                        r == 0,
                ;
                assert(m * m == 9) by (nonlinear_arith)
                    requires
                        m == 3,
                ;
                assert(n * n == 3249) by (nonlinear_arith)
                    requires
                        n == 57,
                ;
            },
            ECLevel::M => {
                assert(8 * (a * b + c * d) + 8 * x * (a + c) + r == 2768) by (nonlinear_arith)
                    requires
                        a == 4,
                        b == 43,
                        c == 1,
                        d == 44,
                        x == 26,
                        r == 0,
                ;
                assert(m * m == 9) by (nonlinear_arith)
                    requires
                        m == 3,
                ;
                assert(n * n == 3249) by (nonlinear_arith)
                    requires
                        n == 57,
                ;
            },
            ECLevel::Q => {
                assert(8 * (a * b + c * d) + 8 * x * (a + c) + r == 2768) by (nonlinear_arith)
                    requires
                        a == 6,
                        b == 19,
                        c == 2,
                        d == 20,
                        x == 24,
                        r == 0,
                ;
                assert(m * m == 9) by (nonlinear_arith)
                    requires
                        m == 3,
                ;
                assert(n * n == 3249) by (nonlinear_arith)
                    requires
                        n == 57,
                ;
            },
            ECLevel::H => {
                assert(8 * (a * b + c * d) + 8 * x * (a + c) + r == 2768) by (nonlinear_arith)
                    requires
                        a == 6,
                        b == 15,
                        c == 2,
                        d == 16,
                        x == 28,
                        r == 0,
                ;
                assert(m * m == 9) by (nonlinear_arith)
                    requires
                        m == 3,
                ;
                assert(n * n == 3249) by (nonlinear_arith)
                    requires
                        n == 57,
                ;
            },
        }
    } else if v == 11 {
        match e {
            ECLevel::L => {
                assert(8 * (a * b + c * d) + 8 * x * (a + c) + r == 3232) by (nonlinear_arith)
                    requires
                        a == 4,
                        b == 81,
                        c == 0,
                        d == 0,
                        x == 20,
                        r == 0,
                ;
                assert(m * m == 9) by (nonlinear_arith)
                    requires
                        m == 3,
                ;
                assert(n * n == 3721) by (nonlinear_arith)
                    requires
                        n == 61,
                ;
            },
            ECLevel::M => {
                assert(8 * (a * b + c * d) + 8 * x * (a + c) + r == 3232) by (nonlinear_arith)
                    requires
                        a == 1,
                        b == 50,
                        c == 4,
                        d == 51,
                        x == 30,
                        r == 0,
                ;
                assert(m * m == 9) by (nonlinear_arith)
                    requires
                        m == 3,
                ;
                assert(n * n == 3721) by (nonlinear_arith)
                    requires
                        n == 61,
                ;
            },
            ECLevel::Q => {
                assert(8 * (a * b + c * d) + 8 * x * (a + c) + r == 3232) by (nonlinear_arith)
                    requires
                        a == 4,
                        b == 22,
                        c == 4,
                        d == 23,
                        x == 28,
                        r == 0,
                ;
                assert(m * m == 9) by (nonlinear_arith)
                    requires
                        m == 3,
                ;
                assert(n * n == 3721) by (nonlinear_arith)
                    requires
                        n == 61,
                ;
            },
            ECLevel::H => {
                assert(8 * (a * b + c * d) + 8 * x * (a + c) + r == 3232) by (nonlinear_arith)
                    requires
                        a == 3,
                        b == 12,
                        c == 8,
                        d == 13,
                        x == 24,
                        r == 0,
                ;
                assert(m * m == 9) by (nonlinear_arith)
                    requires
                        m == 3,
                ;
                assert(n * n == 3721) by (nonlinear_arith)
                    requires
                        n == 61,
                ;
            },
        }
    } else if v == 12 {
        match e {
            ECLevel::L => {
                assert(8 * (a * b + c * d) + 8 * x * (a + c) + r == 3728) by (nonlinear_arith)
                    requires
                        a == 2,
                        b == 92,
                        c == 2,
                        d == 93,
                        x == 24,
                        r == 0,
                ;
                assert(m * m == 9) by (nonlinear_arith)
                    requires
                        m == 3,
                ;
                assert(n * n == 4225) by (nonlinear_arith)
                    requires
                        n == 65,
                ;
            },
            ECLevel::M => {
                assert(8 * (a * b + c * d) + 8 * x * (a + c) + r == 3728) by (nonlinear_arith)
                    requires
                        a == 6,
                        b == 36,
                        c == 2,
                        d == 37,
                        x == 22,
                        r == 0,
                ;
                assert(m * m == 9) by (nonlinear_arith)
                    requires
                        m == 3,
                ;
                assert(n * n == 4225) by (nonlinear_arith)
                    requires
                        n == 65,
                ;
            },
            ECLevel::Q => {
                assert(8 * (a * b + c * d) + 8 * x * (a + c) + r == 3728) by (nonlinear_arith)
                    requires
                        a == 4,
                        b == 20,
                        c == 6,
                        d == 21,
                        x == 26,
                        r == 0,
                ;
                assert(m * m == 9) by (nonlinear_arith)
                    requires
                        m == 3,
                ;
                assert(n * n == 4225) by (nonlinear_arith)
                    requires
                        n == 65,
                ;
            },
            ECLevel::H => {
                assert(8 * (a * b + c * d) + 8 * x * (a + c) + r == 3728) by (nonlinear_arith)
                    requires
                        a == 7,
                        b == 14,
                        c == 4,
                        d == 15,
                        x == 28,
                        r == 0,
                ;
                assert(m * m == 9) by (nonlinear_arith)
                    requires
                        m == 3,
                ;
                assert(n * n == 4225) by (nonlinear_arith)
                    requires
                        n == 65,
                ;
            },
        }
    } else if v == 13 {
        match e {
            ECLevel::L => {
                assert(8 * (a * b + c * d) + 8 * x * (a + c) + r == 4256) by (nonlinear_arith)
                    requires
                        a == 4,
                        b == 107,
                        c == 0,
                        d == 0,
                        x == 26,
                        r == 0,
                ;
                assert(m * m == 9) by (nonlinear_arith)
                    requires
                        m == 3,
                ;
                assert(n * n == 4761) by (nonlinear_arith)
                    requires
                        n == 69,
                ;
            },
            ECLevel::M => {
                assert(8 * (a * b + c * d) + 8 * x * (a + c) + r == 4256) by (nonlinear_arith)
                    requires
                        a == 8,
                        b == 37,
                        c == 1,
                        d == 38,
                        x == 22,
                        r == 0,
                ;
                assert(m * m == 9) by (nonlinear_arith)
                    requires
                        m == 3,
                ;
                assert(n * n == 4761) by (nonlinear_arith)
                    requires
                        n == 69,
                ;
            },
            ECLevel::Q => {
                assert(8 * (a * b + c * d) + 8 * x * (a + c) + r == 4256) by (nonlinear_arith)
                    requires
                        a == 8,
                        b == 20,
                        c == 4,
                        d == 21,
                        x == 24,
                        r == 0,
                ;
                assert(m * m == 9) by (nonlinear_arith)
                    requires
                        m == 3,
                ;
                assert(n * n == 4761) by (nonlinear_arith)
                    requires
                        n == 69,
                ;
            },
            ECLevel::H => {
                assert(8 * (a * b + c * d) + 8 * x * (a + c) + r == 4256) by (nonlinear_arith)
                    requires
                        a == 12,
                        b == 11,
                        c == 4,
                        d == 12,
                        x == 22,
                        r == 0,
                ;
                assert(m * m == 9) by (nonlinear_arith)
                    requires
                        m == 3,
                ;
                assert(n * n == 4761) by (nonlinear_arith)
                    requires
                        n == 69,
                ;
            },
        }
    } else if v == 14 {
        match e {
            ECLevel::L => {
                assert(8 * (a * b + c * d) + 8 * x * (a + c) + r == 4651) by (nonlinear_arith)
                    requires
                        a == 3,
                        b == 115,
                        c == 1,
                        d == 116,
                        x == 30,
                        r == 3,
                ;
                assert(m * m == 16) by (nonlinear_arith)
                    requires
                        m == 4,
                ;
                assert(n * n == 5329) by (nonlinear_arith)
                    requires
                        n == 73,
                ;
            },
            ECLevel::M => {
                assert(8 * (a * b + c * d) + 8 * x * (a + c) + r == 4651) by (nonlinear_arith)
                    requires
                        a == 4,
                        b == 40,
                        c == 5,
                        d == 41,
                        x == 24,
                        r == 3,
                ;
                assert(m * m == 16) by (nonlinear_arith)
                    requires
                        m == 4,
                ;
                assert(n * n == 5329) by (nonlinear_arith)
                    requires
                        n == 73,
                ;
            },
            ECLevel::Q => {
                assert(8 * (a * b + c * d) + 8 * x * (a + c) + r == 4651) by (nonlinear_arith)
                    requires
                        a == 11,
                        b == 16,
                        c == 5,
                        d == 17,
                        x == 20,
                        r == 3,
                ;
                assert(m * m == 16) by (nonlinear_arith)
                    requires
                        m == 4,
                ;
                assert(n * n == 5329) by (nonlinear_arith)
                    requires
                        n == 73,
                ;
            },
            ECLevel::H => {
                assert(8 * (a * b + c * d) + 8 * x * (a + c) + r == 4651) by (nonlinear_arith)
                    requires
                        a == 11,
                        b == 12,
                        c == 5,
                        d == 13,
                        x == 24,
                        r == 3,
                ;
                assert(m * m == 16) by (nonlinear_arith)
                    requires
                        m == 4,
                ;
                assert(n * n == 5329) by (nonlinear_arith)
                    requires
                        n == 73,
                ;
            },
        }
    } else if v == 15 {
        match e {
            ECLevel::L => {
                assert(8 * (a * b + c * d) + 8 * x * (a + c) + r == 5243) by (nonlinear_arith)
                    requires
                        a == 5,
                        b == 87,
                        c == 1,
                        d == 88,
                        x == 22,
                        r == 3,
                ;
                assert(m * m == 16) by (nonlinear_arith)
                    requires
                        m == 4,
                ;
                assert(n * n == 5929) by (nonlinear_arith)
                    requires
                        n == 77,
                ;
            },
            ECLevel::M => {
                assert(8 * (a * b + c * d) + 8 * x * (a + c) + r == 5243) by (nonlinear_arith)
                    requires
                        a == 5,
                        b == 41,
                        c == 5,
                        d == 42,
                        x == 24,
                        r == 3,
                ;
                assert(m * m == 16) by (nonlinear_arith)
                    requires
                        m == 4,
                ;
                assert(n * n == 5929) by (nonlinear_arith)
                    requires
                        n == 77,
                ;
            },
            ECLevel::Q => {
                assert(8 * (a * b + c * d) + 8 * x * (a + c) + r == 5243) by (nonlinear_arith)
                    requires
                        a == 5,
                        b == 24,
                        c == 7,
                        d == 25,
                        x == 30,
                        r == 3,
                ;
                assert(m * m == 16) by (nonlinear_arith)
                    requires
                        m == 4,
                ;
                assert(n * n == 5929) by (nonlinear_arith)
                    requires
                        n == 77,
                ;
            },
            ECLevel::H => {
                assert(8 * (a * b + c * d) + 8 * x * (a + c) + r == 5243) by (nonlinear_arith)
                    requires
                        a == 11,
                        b == 12,
                        c == 7,
                        d == 13,
                        x == 24,
                        r == 3,
                ;
                assert(m * m == 16) by (nonlinear_arith)
                    requires
                        m == 4,
                ;
                assert(n * n == 5929) by (nonlinear_arith)
                    requires
                        n == 77,
                ;
            },
        }
    } else if v == 16 {
        match e {
            ECLevel::L => {
                assert(8 * (a * b + c * d) + 8 * x * (a + c) + r == 5867) by (nonlinear_arith)
                    requires
                        a == 5,
                        b == 98,
                        c == 1,
                        d == 99,
                        x == 24,
                        r == 3,
                ;
                assert(m * m == 16) by (nonlinear_arith)
                    requires
                        m == 4,
                ;
                assert(n * n == 6561) by (nonlinear_arith)
                    requires
                        n == 81,
                ;
            },
            ECLevel::M => {
                assert(8 * (a * b + c * d) + 8 * x * (a + c) + r == 5867) by (nonlinear_arith)
                    requires
                        a == 7,
                        b == 45,
                        c == 3,
                        d == 46,
                        x == 28,
                        r == 3,
                ;
                assert(m * m == 16) by (nonlinear_arith)
                    requires
                        m == 4,
                ;
                assert(n * n == 6561) by (nonlinear_arith)
                    requires
                        n == 81,
                ;
            },
            ECLevel::Q => {
                assert(8 * (a * b + c * d) + 8 * x * (a + c) + r == 5867) by (nonlinear_arith)
                    requires
                        a == 15,
                        b == 19,
                        c == 2,
                        d == 20,
                        x == 24,
                        r == 3,
                ;
                assert(m * m == 16) by (nonlinear_arith)
                    requires
                        m == 4,
                ;
                assert(n * n == 6561) by (nonlinear_arith)
                    requires
                        n == 81,
                ;
            },
            ECLevel::H => {
                assert(8 * (a * b + c * d) + 8 * x * (a + c) + r == 5867) by (nonlinear_arith)
                    requires
                        a == 3,
                        b == 15,
                        c == 13,
                        d == 16,
                        x == 30,
                        r == 3,
                ;
                assert(m * m == 16) by (nonlinear_arith)
                    requires
                        m == 4,
                ;
                assert(n * n == 6561) by (nonlinear_arith)
                    requires
                        n == 81,
                ;
            },
        }
    } else if v == 17 {
        match e {
            ECLevel::L => {
                assert(8 * (a * b + c * d) + 8 * x * (a + c) + r == 6523) by (nonlinear_arith)
                    requires
                        a == 1,
                        b == 107,
                        c == 5,
                        d == 108,
                        x == 28,
                        r == 3,
                ;
                assert(m * m == 16) by (nonlinear_arith)
                    requires
                        m == 4,
                ;
                assert(n * n == 7225) by (nonlinear_arith)
                    requires
                        n == 85,
                ;
            },
            ECLevel::M => {
                assert(8 * (a * b + c * d) + 8 * x * (a + c) + r == 6523) by (nonlinear_arith)
                    requires
                        a == 10,
                        b == 46,
                        c == 1,
                        d == 47,
                        x == 28,
                        r == 3,
                ;
                assert(m * m == 16) by (nonlinear_arith)
                    requires
                        m == 4,
                ;
                assert(n * n == 7225) by (nonlinear_arith)
                    requires
                        n == 85,
                ;
            },
            ECLevel::Q => {
                assert(8 * (a * b + c * d) + 8 * x * (a + c) + r == 6523) by (nonlinear_arith)
                    requires
                        a == 1,
                        b == 22,
                        c == 15,
                        d == 23,
                        x == 28,
                        r == 3,
                ;
                assert(m * m == 16) by (nonlinear_arith)
                    requires
                        m == 4,
                ;
                assert(n * n == 7225) by (nonlinear_arith)
                    requires
                        n == 85,
                ;
            },
            ECLevel::H => {
                assert(8 * (a * b + c * d) + 8 * x * (a + c) + r == 6523) by (nonlinear_arith)
                    requires
                        a == 2,
                        b == 14,
                        c == 17,
                        d == 15,
                        x == 28,
                        r == 3,
                ;
                assert(m * m == 16) by (nonlinear_arith)
                    requires
                        m == 4,
                ;
                assert(n * n == 7225) by (nonlinear_arith)
                    requires
                        n == 85,
                ;
            },
        }
    } else if v == 18 {
        match e {
            ECLevel::L => {
                assert(8 * (a * b + c * d) + 8 * x * (a + c) + r == 7211) by (nonlinear_arith)
                    requires
                        a == 5,
                        b == 120,
                        c == 1,
                        d == 121,
                        x == 30,
                        r == 3,
                ;
                assert(m * m == 16) by (nonlinear_arith)
                    requires
                        m == 4,
                ;
                assert(n * n == 7921) by (nonlinear_arith)
                    requires
                        n == 89,
                ;
            },
            ECLevel::M => {
                assert(8 * (a * b + c * d) + 8 * x * (a + c) + r == 7211) by (nonlinear_arith)
                    requires
                        a == 9,
                        b == 43,
                        c == 4,
                        d == 44,
                        x == 26,
                        r == 3,
                ;
                assert(m * m == 16) by (nonlinear_arith)
                    requires
                        m == 4,
                ;
                assert(n * n == 7921) by (nonlinear_arith)
                    requires
                        n == 89,
                ;
            },
            ECLevel::Q => {
                assert(8 * (a * b + c * d) + 8 * x * (a + c) + r == 7211) by (nonlinear_arith)
                    requires
                        a == 17,
                        b == 22,
                        c == 1,
                        d == 23,
                        x == 28,
                        r == 3,
                ;
                assert(m * m == 16) by (nonlinear_arith)
                    requires
                        m == 4,
                ;
                assert(n * n == 7921) by (nonlinear_arith)
                    requires
                        n == 89,
                ;
            },
            ECLevel::H => {
                assert(8 * (a * b + c * d) + 8 * x * (a + c) + r == 7211) by (nonlinear_arith)
                    requires
                        a == 2,
                        b == 14,
                        c == 19,
                        d == 15,
                        x == 28,
                        r == 3,
                ;
                assert(m * m == 16) by (nonlinear_arith)
                    requires
                        m == 4,
                ;
                assert(n * n == 7921) by (nonlinear_arith)
                    requires
                        n == 89,
                ;
            },
        }
    } else if v == 19 {
        match e {
            ECLevel::L => {
                assert(8 * (a * b + c * d) + 8 * x * (a + c) + r == 7931) by (nonlinear_arith)
                    requires
                        a == 3,
                        b == 113,
                        c == 4,
                        d == 114,
                        x == 28,
                        r == 3,
                ;
                assert(m * m == 16) by (nonlinear_arith)
                    requires
                        m == 4,
                ;
                assert(n * n == 8649) by (nonlinear_arith)
                    requires
                        n == 93,
                ;
            },
            ECLevel::M => {
                assert(8 * (a * b + c * d) + 8 * x * (a + c) + r == 7931) by (nonlinear_arith)
                    requires
                        a == 3,
                        b == 44,
                        c == 11,
                        d == 45,
                        x == 26,
                        r == 3,
                ;
                assert(m * m == 16) by (nonlinear_arith)
                    requires
                        m == 4,
                ;
                assert(n * n == 8649) by (nonlinear_arith)
                    requires
                        n == 93,
                ;
            },
            ECLevel::Q => {
                assert(8 * (a * b + c * d) + 8 * x * (a + c) + r == 7931) by (nonlinear_arith)
                    requires
                        a == 17,
                        b == 21,
                        c == 4,
                        d == 22,
                        x == 26,
                        r == 3,
                ;
                assert(m * m == 16) by (nonlinear_arith)
                    requires
                        m == 4,
                ;
                assert(n * n == 8649) by (nonlinear_arith)
                    requires
                        n == 93,
                ;
            },
            ECLevel::H => {
                assert(8 * (a * b + c * d) + 8 * x * (a + c) + r == 7931) by (nonlinear_arith)
                    requires
                        a == 9,
                        b == 13,
                        c == 16,
                        d == 14,
                        x == 26,
                        r == 3,
                ;
                assert(m * m == 16) by (nonlinear_arith)
                    requires
                        m == 4,
                ;
                assert(n * n == 8649) by (nonlinear_arith)
                    requires
                        n == 93,
                ;
            },
        }
    } else if v == 20 {
        match e {
            ECLevel::L => {
                assert(8 * (a * b + c * d) + 8 * x * (a + c) + r == 8683) by (nonlinear_arith)
                    requires
                        a == 3,
                        b == 107,
                        c == 5,
                        d == 108,
                        x == 28,
                        r == 3,
                ;
                assert(m * m == 16) by (nonlinear_arith)
                    requires
                        m == 4,
                ;
                assert(n * n == 9409) by (nonlinear_arith)
                    requires
                        n == 97,
                ;
            },
            ECLevel::M => {
                assert(8 * (a * b + c * d) + 8 * x * (a + c) + r == 8683) by (nonlinear_arith)
                    requires
                        a == 3,
                        b == 41,
                        c == 13,
                        d == 42,
                        x == 26,
                        r == 3,
                ;
                assert(m * m == 16) by (nonlinear_arith)
                    requires
                        m == 4,
                ;
                assert(n * n == 9409) by (nonlinear_arith)
                    requires
                        n == 97,
                ;
            },
            ECLevel::Q => {
                assert(8 * (a * b + c * d) + 8 * x * (a + c) + r == 8683) by (nonlinear_arith)
                    requires
                        a == 15,
                        b == 24,
                        c == 5,
                        d == 25,
                        x == 30,
                        r == 3,
                ;
                assert(m * m == 16) by (nonlinear_arith)
                    requires
                        m == 4,
                ;
                assert(n * n == 9409) by (nonlinear_arith)
                    requires
                        n == 97,
                ;
            },
            ECLevel::H => {
                assert(8 * (a * b + c * d) + 8 * x * (a + c) + r == 8683) by (nonlinear_arith)
                    requires
                        a == 15,
                        b == 15,
                        c == 10,
                        d == 16,
                        x == 28,
                        r == 3,
                ;
                assert(m * m == 16) by (nonlinear_arith)
                    requires
                        m == 4,
                ;
                assert(n * n == 9409) by (nonlinear_arith)
                    requires
                        n == 97,
                ;
            },
        }
    } else if v == 21 {
        match e {
            ECLevel::L => {
                assert(8 * (a * b + c * d) + 8 * x * (a + c) + r == 9252) by (nonlinear_arith)
                    requires
                        a == 4,
                        b == 116,
                        c == 4,
                        d == 117,
                        x == 28,
                        r == 4,
                ;
                assert(m * m == 25) by (nonlinear_arith)
                    requires
                        m == 5,
                ;
                assert(n * n == 10201) by (nonlinear_arith)
                    requires
                        n == 101,
                ;
            },
            ECLevel::M => {
                assert(8 * (a * b + c * d) + 8 * x * (a + c) + r == 9252) by (nonlinear_arith)
                    requires
                        a == 17,
                        b == 42,
                        c == 0,
                        d == 0,
                        x == 26,
                        r == 4,
                ;
                assert(m * m == 25) by (nonlinear_arith)
                    requires
                        m == 5,
                ;
                assert(n * n == 10201) by (nonlinear_arith)
                    requires
                        n == 101,
                ;
            },
            ECLevel::Q => {
                assert(8 * (a * b + c * d) + 8 * x * (a + c) + r == 9252) by (nonlinear_arith)
                    requires
                        a == 17,
                        b == 22,
                        c == 6,
                        d == 23,
                        x == 28,
                        r == 4,
                ;
                assert(m * m == 25) by (nonlinear_arith)
                    requires
                        m == 5,
                ;
                assert(n * n == 10201) by (nonlinear_arith)
                    requires
                        n == 101,
                ;
            },
            ECLevel::H => {
                assert(8 * (a * b + c * d) + 8 * x * (a + c) + r == 9252) by (nonlinear_arith)
                    requires
                        a == 19,
                        b == 16,
                        c == 6,
                        d == 17,
                        x == 30,
                        r == 4,
                ;
                assert(m * m == 25) by (nonlinear_arith)
                    requires
                        m == 5,
                ;
                assert(n * n == 10201) by (nonlinear_arith)
                    requires
                        n == 101,
                ;
            },
        }
    } else if v == 22 {
        match e {
            ECLevel::L => {
                assert(8 * (a * b + c * d) + 8 * x * (a + c) + r == 10068) by (nonlinear_arith)
                    requires
                        a == 2,
                        b == 111,
                        c == 7,
                        d == 112,
                        x == 28,
                        r == 4,
                ;
                assert(m * m == 25) by (nonlinear_arith)
                    requires
                        m == 5,
                ;
                assert(n * n == 11025) by (nonlinear_arith)
                    requires
                        n == 105,
                ;
            },
            ECLevel::M => {
                assert(8 * (a * b + c * d) + 8 * x * (a + c) + r == 10068) by (nonlinear_arith)
                    requires
                        a == 17,
                        b == 46,
                        c == 0,
                        d == 0,
                        x == 28,
                        r == 4,
                ;
                assert(m * m == 25) by (nonlinear_arith)
                    requires
                        m == 5,
                ;
                assert(n * n == 11025) by (nonlinear_arith)
                    requires
                        n == 105,
                ;
            },
            ECLevel::Q => {
                assert(8 * (a * b + c * d) + 8 * x * (a + c) + r == 10068) by (nonlinear_arith)
                    requires
                        a == 7,
                        b == 24,
                        c == 16,
                        d == 25,
                        x == 30,
                        r == 4,
                ;
                assert(m * m == 25) by (nonlinear_arith)
                    requires
                        m == 5,
                ;
                assert(n * n == 11025) by (nonlinear_arith)
                    requires
                        n == 105,
                ;
            },
            ECLevel::H => {
                assert(8 * (a * b + c * d) + 8 * x * (a + c) + r == 10068) by (nonlinear_arith)
                    requires
                        a == 34,
                        b == 13,
                        c == 0,
                        d == 0,
                        x == 24,
                        r == 4,
                ;
                assert(m * m == 25) by (nonlinear_arith)
                    requires
                        m == 5,
                ;
                assert(n * n == 11025) by (nonlinear_arith)
                    requires
                        n == 105,
                ;
            },
        }
    } else if v == 23 {
        match e {
            ECLevel::L => {
                assert(8 * (a * b + c * d) + 8 * x * (a + c) + r == 10916) by (nonlinear_arith)
                    requires
                        a == 4,
                        b == 121,
                        c == 5,
                        d == 122,
                        x == 30,
                        r == 4,
                ;
                assert(m * m == 25) by (nonlinear_arith)
                    requires
                        m == 5,
                ;
                assert(n * n == 11881) by (nonlinear_arith)
                    requires
                        n == 109,
                ;
            },
            ECLevel::M => {
                assert(8 * (a * b + c * d) + 8 * x * (a + c) + r == 10916) by (nonlinear_arith)
                    requires
                        a == 4,
                        b == 47,
                        c == 14,
                        d == 48,
                        x == 28,
                        r == 4,
                ;
                assert(m * m == 25) by (nonlinear_arith)
                    requires
                        m == 5,
                ;
                assert(n * n == 11881) by (nonlinear_arith)
                    requires
                        n == 109,
                ;
            },
            ECLevel::Q => {
                assert(8 * (a * b + c * d) + 8 * x * (a + c) + r == 10916) by (nonlinear_arith)
                    requires
                        a == 11,
                        b == 24,
                        c == 14,
                        d == 25,
                        x == 30,
                        r == 4,
                ;
                assert(m * m == 25) by (nonlinear_arith)
                    requires
                        m == 5,
                ;
                assert(n * n == 11881) by (nonlinear_arith)
                    requires
                        n == 109,
                ;
            },
            ECLevel::H => {
                assert(8 * (a * b + c * d) + 8 * x * (a + c) + r == 10916) by (nonlinear_arith)
                    requires
                        a == 16,
                        b == 15,
                        c == 14,
                        d == 16,
                        x == 30,
                        r == 4,
                ;
                assert(m * m == 25) by (nonlinear_arith)
                    requires
                        m == 5,
                ;
                assert(n * n == 11881) by (nonlinear_arith)
                    requires
                        n == 109,
                ;
            },
        }
    } else if v == 24 {
        match e {
            ECLevel::L => {
                assert(8 * (a * b + c * d) + 8 * x * (a + c) + r == 11796) by (nonlinear_arith)
                    requires
                        a == 6,
                        b == 117,
                        c == 4,
                        d == 118,
                        x == 30,
                        r == 4,
                ;
                assert(m * m == 25) by (nonlinear_arith)
                    requires
                        m == 5,
                ;
                assert(n * n == 12769) by (nonlinear_arith)
                    requires
                        n == 113,
                ;
            },
            ECLevel::M => {
                assert(8 * (a * b + c * d) + 8 * x * (a + c) + r == 11796) by (nonlinear_arith)
                    requires
                        a == 6,
                        b == 45,
                        c == 14,
                        d == 46,
                        x == 28,
                        r == 4,
                ;
                assert(m * m == 25) by (nonlinear_arith)
                    requires
                        m == 5,
                ;
                assert(n * n == 12769) by (nonlinear_arith)
                    requires
                        n == 113,
                ;
            },
            ECLevel::Q => {
                assert(8 * (a * b + c * d) + 8 * x * (a + c) + r == 11796) by (nonlinear_arith)
                    requires
                        a == 11,
                        b == 24,
                        c == 16,
                        d == 25,
                        x == 30,
                        r == 4,
                ;
                assert(m * m == 25) by (nonlinear_arith)
                    requires
                        m == 5,
                ;
                assert(n * n == 12769) by (nonlinear_arith)
                    requires
                        n == 113,
                ;
            },
            ECLevel::H => {
                assert(8 * (a * b + c * d) + 8 * x * (a + c) + r == 11796) by (nonlinear_arith)
                    requires
                        a == 30,
                        b == 16,
                        c == 2,
                        d == 17,
                        x == 30,
                        r == 4,
                ;
                assert(m * m == 25) by (nonlinear_arith)
                    requires
                        m == 5,
                ;
                assert(n * n == 12769) by (nonlinear_arith)
                    requires
                        n == 113,
                ;
            },
        }
    } else if v == 25 {
        match e {
            ECLevel::L => {
                assert(8 * (a * b + c * d) + 8 * x * (a + c) + r == 12708) by (nonlinear_arith)
                    requires
                        a == 8,
                        b == 106,
                        c == 4,
                        d == 107,
                        x == 26,
                        r == 4,
                ;
                assert(m * m == 25) by (nonlinear_arith)
                    requires
                        m == 5,
                ;
                assert(n * n == 13689) by (nonlinear_arith)
                    requires
                        n == 117,
                ;
            },
            ECLevel::M => {
                assert(8 * (a * b + c * d) + 8 * x * (a + c) + r == 12708) by (nonlinear_arith)
                    requires
                        a == 8,
                        b == 47,
                        c == 13,
                        d == 48,
                        x == 28,
                        r == 4,
                ;
                assert(m * m == 25) by (nonlinear_arith)
                    requires
                        m == 5,
                ;
                assert(n * n == 13689) by (nonlinear_arith)
                    requires
                        n == 117,
                ;
            },
            ECLevel::Q => {
                assert(8 * (a * b + c * d) + 8 * x * (a + c) + r == 12708) by (nonlinear_arith)
                    requires
                        a == 7,
                        b == 24,
                        c == 22,
                        d == 25,
                        x == 30,
                        r == 4,
                ;
                assert(m * m == 25) by (nonlinear_arith)
                    requires
                        m == 5,
                ;
                assert(n * n == 13689) by (nonlinear_arith)
                    requires
                        n == 117,
                ;
            },
            ECLevel::H => {
                assert(8 * (a * b + c * d) + 8 * x * (a + c) + r == 12708) by (nonlinear_arith)
                    requires
                        a == 22,
                        b == 15,
                        c == 13,
                        d == 16,
                        x == 30,
                        r == 4,
                ;
                assert(m * m == 25) by (nonlinear_arith)
                    requires
                        m == 5,
                ;
                assert(n * n == 13689) by (nonlinear_arith)
                    requires
                        n == 117,
                ;
            },
        }
    } else if v == 26 {
        match e {
            ECLevel::L => {
                assert(8 * (a * b + c * d) + 8 * x * (a + c) + r == 13652) by (nonlinear_arith)
                    requires
                        a == 10,
                        b == 114,
                        c == 2,
                        d == 115,
                        x == 28,
                        r == 4,
                ;
                assert(m * m == 25) by (nonlinear_arith)
                    requires
                        m == 5,
                ;
                assert(n * n == 14641) by (nonlinear_arith)
                    requires
                        n == 121,
                ;
            },
            ECLevel::M => {
                assert(8 * (a * b + c * d) + 8 * x * (a + c) + r == 13652) by (nonlinear_arith)
                    requires
                        a == 19,
                        b == 46,
                        c == 4,
                        d == 47,
                        x == 28,
                        r == 4,
                ;
                assert(m * m == 25) by (nonlinear_arith)
                    requires
                        m == 5,
                ;
                assert(n * n == 14641) by (nonlinear_arith)
                    requires
                        n == 121,
                ;
            },
            ECLevel::Q => {
                assert(8 * (a * b + c * d) + 8 * x * (a + c) + r == 13652) by (nonlinear_arith)
                    requires
                        a == 28,
                        b == 22,
                        c == 6,
                        d == 23,
                        x == 28,
                        r == 4,
                ;
                assert(m * m == 25) by (nonlinear_arith)
                    requires
                        m == 5,
                ;
                assert(n * n == 14641) by (nonlinear_arith)
                    requires
                        n == 121,
                ;
            },
            ECLevel::H => {
                assert(8 * (a * b + c * d) + 8 * x * (a + c) + r == 13652) by (nonlinear_arith)
                    requires
                        a == 33,
                        b == 16,
                        c == 4,
                        d == 17,
                        x == 30,
                        r == 4,
                ;
                assert(m * m == 25) by (nonlinear_arith)
                    requires
                        m == 5,
                ;
                assert(n * n == 14641) by (nonlinear_arith)
                    requires
                        n == 121,
                ;
            },
        }
    } else if v == 27 {
        match e {
            ECLevel::L => {
                assert(8 * (a * b + c * d) + 8 * x * (a + c) + r == 14628) by (nonlinear_arith)
                    requires
                        a == 8,
                        b == 122,
                        c == 4,
                        d == 123,
                        x == 30,
                        r == 4,
                ;
                assert(m * m == 25) by (nonlinear_arith)
                    requires
                        m == 5,
                ;
                assert(n * n == 15625) by (nonlinear_arith)
                    requires
                        n == 125,
                ;
            },
            ECLevel::M => {
                assert(8 * (a * b + c * d) + 8 * x * (a + c) + r == 14628) by (nonlinear_arith)
                    requires
                        a == 22,
                        b == 45,
                        c == 3,
                        d == 46,
                        x == 28,
                        r == 4,
                ;
                assert(m * m == 25) by (nonlinear_arith)
                    requires
                        m == 5,
                ;
                assert(n * n == 15625) by (nonlinear_arith)
                    requires
                        n == 125,
                ;
            },
            ECLevel::Q => {
                assert(8 * (a * b + c * d) + 8 * x * (a + c) + r == 14628) by (nonlinear_arith)
                    requires
                        a == 8,
                        b == 23,
                        c == 26,
                        d == 24,
                        x == 30,
                        r == 4,
                ;
                assert(m * m == 25) by (nonlinear_arith)
                    requires
                        m == 5,
                ;
                assert(n * n == 15625) by (nonlinear_arith)
                    requires
                        n == 125,
                ;
            },
            ECLevel::H => {
                assert(8 * (a * b + c * d) + 8 * x * (a + c) + r == 14628) by (nonlinear_arith)
                    requires
                        a == 12,
                        b == 15,
                        c == 28,
                        d == 16,
                        x == 30,
                        r == 4,
                ;
                assert(m * m == 25) by (nonlinear_arith)
                    requires
                        m == 5,
                ;
                assert(n * n == 15625) by (nonlinear_arith)
                    requires
                        n == 125,
                ;
            },
        }
    } else if v == 28 {
        match e {
            ECLevel::L => {
                assert(8 * (a * b + c * d) + 8 * x * (a + c) + r == 15371) by (nonlinear_arith)
                    requires
                        a == 3,
                        b == 117,
                        c == 10,
                        d == 118,
                        x == 30,
                        r == 3,
                ;
                assert(m * m == 36) by (nonlinear_arith)
                    requires
                        m == 6,
                ;
                assert(n * n == 16641) by (nonlinear_arith)
                    requires
                        n == 129,
                ;
            },
            ECLevel::M => {
                assert(8 * (a * b + c * d) + 8 * x * (a + c) + r == 15371) by (nonlinear_arith)
                    requires
                        a == 3,
                        b == 45,
                        c == 23,
                        d == 46,
                        x == 28,
                        r == 3,
                ;
                assert(m * m == 36) by (nonlinear_arith)
                    requires
                        m == 6,
                ;
                assert(n * n == 16641) by (nonlinear_arith)
                    requires
                        n == 129,
                ;
            },
            ECLevel::Q => {
                assert(8 * (a * b + c * d) + 8 * x * (a + c) + r == 15371) by (nonlinear_arith)
                    requires
                        a == 4,
                        b == 24,
                        c == 31,
                        d == 25,
                        x == 30,
                        r == 3,
                ;
                assert(m * m == 36) by (nonlinear_arith)
                    requires
                        m == 6,
                ;
                assert(n * n == 16641) by (nonlinear_arith)
                    requires
                        n == 129,
                ;
            },
            ECLevel::H => {
                assert(8 * (a * b + c * d) + 8 * x * (a + c) + r == 15371) by (nonlinear_arith)
                    requires
                        a == 11,
                        b == 15,
                        c == 31,
                        d == 16,
                        x == 30,
                        r == 3,
                ;
                assert(m * m == 36) by (nonlinear_arith)
                    requires
                        m == 6,
                ;
                assert(n * n == 16641) by (nonlinear_arith)
                    requires
                        n == 129,
                ;
            },
        }
    } else if v == 29 {
        match e {
            ECLevel::L => {
                assert(8 * (a * b + c * d) + 8 * x * (a + c) + r == 16411) by (nonlinear_arith)
                    requires
                        a == 7,
                        b == 116,
                        c == 7,
                        d == 117,
                        x == 30,
                        r == 3,
                ;
                assert(m * m == 36) by (nonlinear_arith)
                    requires
                        m == 6,
                ;
                assert(n * n == 17689) by (nonlinear_arith)
                    requires
                        n == 133,
                ;
            },
            ECLevel::M => {
                assert(8 * (a * b + c * d) + 8 * x * (a + c) + r == 16411) by (nonlinear_arith)
                    requires
                        a == 21,
                        b == 45,
                        c == 7,
                        d == 46,
                        x == 28,
                        r == 3,
                ;
                assert(m * m == 36) by (nonlinear_arith)
                    requires
                        m == 6,
                ;
                assert(n * n == 17689) by (nonlinear_arith)
                    requires
                        n == 133,
                ;
            },
            ECLevel::Q => {
                assert(8 * (a * b + c * d) + 8 * x * (a + c) + r == 16411) by (nonlinear_arith)
                    requires
                        a == 1,
                        b == 23,
                        c == 37,
                        d == 24,
                        x == 30,
                        r == 3,
                ;
                assert(m * m == 36) by (nonlinear_arith)
                    requires
                        m == 6,
                ;
                assert(n * n == 17689) by (nonlinear_arith)
                    requires
                        n == 133,
                ;
            },
            ECLevel::H => {
                assert(8 * (a * b + c * d) + 8 * x * (a + c) + r == 16411) by (nonlinear_arith)
                    requires
                        a == 19,
                        b == 15,
                        c == 26,
                        d == 16,
                        x == 30,
                        r == 3,
                ;
                assert(m * m == 36) by (nonlinear_arith)
                    requires
                        m == 6,
                ;
                assert(n * n == 17689) by (nonlinear_arith)
                    requires
                        n == 133,
                ;
            },
        }
    } else if v == 30 {
        match e {
            ECLevel::L => {
                assert(8 * (a * b + c * d) + 8 * x * (a + c) + r == 17483) by (nonlinear_arith)
                    requires
                        a == 5,
                        b == 115,
                        c == 10,
                        d == 116,
                        x == 30,
                        r == 3,
                ;
                assert(m * m == 36) by (nonlinear_arith)
                    requires
                        m == 6,
                ;
                assert(n * n == 18769) by (nonlinear_arith)
                    requires
                        n == 137,
                ;
            },
            ECLevel::M => {
                assert(8 * (a * b + c * d) + 8 * x * (a + c) + r == 17483) by (nonlinear_arith)
                    requires
                        a == 19,
                        b == 47,
                        c == 10,
                        d == 48,
                        x == 28,
                        r == 3,
                ;
                assert(m * m == 36) by (nonlinear_arith)
                    requires
                        m == 6,
                ;
                assert(n * n == 18769) by (nonlinear_arith)
                    requires
                        n == 137,
                ;
            },
            ECLevel::Q => {
                assert(8 * (a * b + c * d) + 8 * x * (a + c) + r == 17483) by (nonlinear_arith)
                    requires
                        a == 15,
                        b == 24,
                        c == 25,
                        d == 25,
                        x == 30,
                        r == 3,
                ;
                assert(m * m == 36) by (nonlinear_arith)
                    requires
                        m == 6,
                ;
                assert(n * n == 18769) by (nonlinear_arith)
                    requires
                        n == 137,
                ;
            },
            ECLevel::H => {
                assert(8 * (a * b + c * d) + 8 * x * (a + c) + r == 17483) by (nonlinear_arith)
                    requires
                        a == 23,
                        b == 15,
                        c == 25,
                        d == 16,
                        x == 30,
                        r == 3,
                ;
                assert(m * m == 36) by (nonlinear_arith)
                    requires
                        m == 6,
                ;
                assert(n * n == 18769) by (nonlinear_arith)
                    requires
                        n == 137,
                ;
            },
        }
    } else if v == 31 {
        match e {
            ECLevel::L => {
                assert(8 * (a * b + c * d) + 8 * x * (a + c) + r == 18587) by (nonlinear_arith)
                    requires
                        a == 13,
                        b == 115,
                        c == 3,
                        d == 116,
                        x == 30,
                        r == 3,
                ;
                assert(m * m == 36) by (nonlinear_arith)
                    requires
                        m == 6,
                ;
                assert(n * n == 19881) by (nonlinear_arith)
                    requires
                        n == 141,
                ;
            },
            ECLevel::M => {
                assert(8 * (a * b + c * d) + 8 * x * (a + c) + r == 18587) by (nonlinear_arith)
                    requires
                        a == 2,
                        b == 46,
                        c == 29,
                        d == 47,
                        x == 28,
                        r == 3,
                ;
                assert(m * m == 36) by (nonlinear_arith)
                    requires
                        m == 6,
                ;
                assert(n * n == 19881) by (nonlinear_arith)
                    requires
                        n == 141,
                ;
            },
            ECLevel::Q => {
                assert(8 * (a * b + c * d) + 8 * x * (a + c) + r == 18587) by (nonlinear_arith)
                    requires
                        a == 42,
                        b == 24,
                        c == 1,
                        d == 25,
                        x == 30,
                        r == 3,
                ;
                assert(m * m == 36) by (nonlinear_arith)
                    requires
                        m == 6,
                ;
                assert(n * n == 19881) by (nonlinear_arith)
                    requires
                        n == 141,
                ;
            },
            ECLevel::H => {
                assert(8 * (a * b + c * d) + 8 * x * (a + c) + r == 18587) by (nonlinear_arith)
                    requires
                        a == 23,
                        b == 15,
                        c == 28,
                        d == 16,
                        x == 30,
                        r == 3,
                ;
                assert(m * m == 36) by (nonlinear_arith)
                    requires
                        m == 6,
                ;
                assert(n * n == 19881) by (nonlinear_arith)
                    requires
                        n == 141,
                ;
            },
        }
    } else if v == 32 {
        match e {
            ECLevel::L => {
                assert(8 * (a * b + c * d) + 8 * x * (a + c) + r == 19723) by (nonlinear_arith)
                    requires
                        a == 17,
                        b == 115,
                        c == 0,
                        d == 0,
                        x == 30,
                        r == 3,
                ;
                assert(m * m == 36) by (nonlinear_arith)
                    requires
                        m == 6,
                ;
                assert(n * n == 21025) by (nonlinear_arith)
                    requires
                        n == 145,
                ;
            },
            ECLevel::M => {
                assert(8 * (a * b + c * d) + 8 * x * (a + c) + r == 19723) by (nonlinear_arith)
                    requires
                        a == 10,
                        b == 46,
                        c == 23,
                        d == 47,
                        x == 28,
                        r == 3,
                ;
                assert(m * m == 36) by (nonlinear_arith)
                    requires
                        m == 6,
                ;
                assert(n * n == 21025) by (nonlinear_arith)
                    requires
                        n == 145,
                ;
            },
            ECLevel::Q => {
                assert(8 * (a * b + c * d) + 8 * x * (a + c) + r == 19723) by (nonlinear_arith)
                    requires
                        a == 10,
                        b == 24,
                        c == 35,
                        d == 25,
                        x == 30,
                        r == 3,
                ;
                assert(m * m == 36) by (nonlinear_arith)
                    requires
                        m == 6,
                ;
                assert(n * n == 21025) by (nonlinear_arith)
                    requires
                        n == 145,
                ;
            },
            ECLevel::H => {
                assert(8 * (a * b + c * d) + 8 * x * (a + c) + r == 19723) by (nonlinear_arith)
                    requires
                        a == 19,
                        b == 15,
                        c == 35,
                        d == 16,
                        x == 30,
                        r == 3,
                ;
                assert(m * m == 36) by (nonlinear_arith)
                    requires
                        m == 6,
                ;
                assert(n * n == 21025) by (nonlinear_arith)
                    requires
                        n == 145,
                ;
            },
        }
    } else if v == 33 {
        match e {
            ECLevel::L => {
                assert(8 * (a * b + c * d) + 8 * x * (a + c) + r == 20891) by (nonlinear_arith)
                    requires
                        a == 17,
                        b == 115,
                        c == 1,
                        d == 116,
                        x == 30,
                        r == 3,
                ;
                assert(m * m == 36) by (nonlinear_arith)
                    requires
                        m == 6,
                ;
                assert(n * n == 22201) by (nonlinear_arith)
                    requires
                        n == 149,
                ;
            },
            ECLevel::M => {
                assert(8 * (a * b + c * d) + 8 * x * (a + c) + r == 20891) by (nonlinear_arith)
                    requires
                        a == 14,
                        b == 46,
                        c == 21,
                        d == 47,
                        x == 28,
                        r == 3,
                ;
                assert(m * m == 36) by (nonlinear_arith)
                    requires
                        m == 6,
                ;
                assert(n * n == 22201) by (nonlinear_arith)
                    requires
                        n == 149,
                ;
            },
            ECLevel::Q => {
                assert(8 * (a * b + c * d) + 8 * x * (a + c) + r == 20891) by (nonlinear_arith)
                    requires
                        a == 29,
                        b == 24,
                        c == 19,
                        d == 25,
                        x == 30,
                        r == 3,
                ;
                assert(m * m == 36) by (nonlinear_arith)
                    requires
                        m == 6,
                ;
                assert(n * n == 22201) by (nonlinear_arith)
                    requires
                        n == 149,
                ;
            },
            ECLevel::H => {
                assert(8 * (a * b + c * d) + 8 * x * (a + c) + r == 20891) by (nonlinear_arith)
                    requires
                        a == 11,
                        b == 15,
                        c == 46,
                        d == 16,
                        x == 30,
                        r == 3,
                ;
                assert(m * m == 36) by (nonlinear_arith)
                    requires
                        m == 6,
                ;
                assert(n * n == 22201) by (nonlinear_arith)
                    requires
                        n == 149,
                ;
            },
        }
    } else if v == 34 {
        match e {
            ECLevel::L => {
                assert(8 * (a * b + c * d) + 8 * x * (a + c) + r == 22091) by (nonlinear_arith)
                    requires
                        a == 13,
                        b == 115,
                        c == 6,
                        d == 116,
                        x == 30,
                        r == 3,
                ;
                assert(m * m == 36) by (nonlinear_arith)
                    requires
                        m == 6,
                ;
                assert(n * n == 23409) by (nonlinear_arith)
                    requires
                        n == 153,
                ;
            },
            ECLevel::M => {
                assert(8 * (a * b + c * d) + 8 * x * (a + c) + r == 22091) by (nonlinear_arith)
                    requires
                        a == 14,
                        b == 46,
                        c == 23,
                        d == 47,
                        x == 28,
                        r == 3,
                ;
                assert(m * m == 36) by (nonlinear_arith)
                    requires
                        m == 6,
                ;
                assert(n * n == 23409) by (nonlinear_arith)
                    requires
                        n == 153,
                ;
            },
            ECLevel::Q => {
                assert(8 * (a * b + c * d) + 8 * x * (a + c) + r == 22091) by (nonlinear_arith)
                    requires
                        a == 44,
                        b == 24,
                        c == 7,
                        d == 25,
                        x == 30,
                        r == 3,
                ;
                assert(m * m == 36) by (nonlinear_arith)
                    requires
                        m == 6,
                ;
                assert(n * n == 23409) by (nonlinear_arith)
                    requires
                        n == 153,
                ;
            },
            ECLevel::H => {
                assert(8 * (a * b + c * d) + 8 * x * (a + c) + r == 22091) by (nonlinear_arith)
                    requires
                        a == 59,
                        b == 16,
                        c == 1,
                        d == 17,
                        x == 30,
                        r == 3,
                ;
                assert(m * m == 36) by (nonlinear_arith)
                    requires
                        m == 6,
                ;
                assert(n * n == 23409) by (nonlinear_arith)
                    requires
                        n == 153,
                ;
            },
        }
    } else if v == 35 {
        match e {
            ECLevel::L => {
                assert(8 * (a * b + c * d) + 8 * x * (a + c) + r == 23008) by (nonlinear_arith)
                    requires
                        a == 12,
                        b == 121,
                        c == 7,
                        d == 122,
                        x == 30,
                        r == 0,
                ;
                assert(m * m == 49) by (nonlinear_arith)
                    requires
                        m == 7,
                ;
                assert(n * n == 24649) by (nonlinear_arith)
                    requires
                        n == 157,
                ;
            },
            ECLevel::M => {
                assert(8 * (a * b + c * d) + 8 * x * (a + c) + r == 23008) by (nonlinear_arith)
                    requires
                        a == 12,
                        b == 47,
                        c == 26,
                        d == 48,
                        x == 28,
                        r == 0,
                ;
                assert(m * m == 49) by (nonlinear_arith)
                    requires
                        m == 7,
                ;
                assert(n * n == 24649) by (nonlinear_arith)
                    requires
                        n == 157,
                ;
            },
            ECLevel::Q => {
                assert(8 * (a * b + c * d) + 8 * x * (a + c) + r == 23008) by (nonlinear_arith)
                    requires
                        a == 39,
                        b == 24,
                        c == 14,
                        d == 25,
                        x == 30,
                        r == 0,
                ;
                assert(m * m == 49) by (nonlinear_arith)
                    requires
                        m == 7,
                ;
                assert(n * n == 24649) by (nonlinear_arith)
                    requires
                        n == 157,
                ;
            },
            ECLevel::H => {
                assert(8 * (a * b + c * d) + 8 * x * (a + c) + r == 23008) by (nonlinear_arith)
                    requires
                        a == 22,
                        b == 15,
                        c == 41,
                        d == 16,
                        x == 30,
                        r == 0,
                ;
                assert(m * m == 49) by (nonlinear_arith)
                    requires
                        m == 7,
                ;
                assert(n * n == 24649) by (nonlinear_arith)
                    requires
                        n == 157,
                ;
            },
        }
    } else if v == 36 {
        match e {
            ECLevel::L => {
                assert(8 * (a * b + c * d) + 8 * x * (a + c) + r == 24272) by (nonlinear_arith)
                    requires
                        a == 6,
                        b == 121,
                        c == 14,
                        d == 122,
                        x == 30,
                        r == 0,
                ;
                assert(m * m == 49) by (nonlinear_arith)
                    requires
                        m == 7,
                ;
                assert(n * n == 25921) by (nonlinear_arith)
                    requires
                        n == 161,
                ;
            },
            ECLevel::M => {
                assert(8 * (a * b + c * d) + 8 * x * (a + c) + r == 24272) by (nonlinear_arith)
                    requires
                        a == 6,
                        b == 47,
                        c == 34,
                        d == 48,
                        x == 28,
                        r == 0,
                ;
                assert(m * m == 49) by (nonlinear_arith)
                    requires
                        m == 7,
                ;
                assert(n * n == 25921) by (nonlinear_arith)
                    requires
                        n == 161,
                ;
            },
            ECLevel::Q => {
                assert(8 * (a * b + c * d) + 8 * x * (a + c) + r == 24272) by (nonlinear_arith)
                    requires
                        a == 46,
                        b == 24,
                        c == 10,
                        d == 25,
                        x == 30,
                        r == 0,
                ;
                assert(m * m == 49) by (nonlinear_arith)
                    requires
                        m == 7,
                ;
                assert(n * n == 25921) by (nonlinear_arith)
                    requires
                        n == 161,
                ;
            },
            ECLevel::H => {
                assert(8 * (a * b + c * d) + 8 * x * (a + c) + r == 24272) by (nonlinear_arith)
                    requires
                        a == 2,
                        b == 15,
                        c == 64,
                        d == 16,
                        x == 30,
                        r == 0,
                ;
                assert(m * m == 49) by (nonlinear_arith)
                    requires
                        m == 7,
                ;
                assert(n * n == 25921) by (nonlinear_arith)
                    requires
                        n == 161,
                ;
            },
        }
    } else if v == 37 {
        match e {
            ECLevel::L => {
                assert(8 * (a * b + c * d) + 8 * x * (a + c) + r == 25568) by (nonlinear_arith)
                    requires
                        a == 17,
                        b == 122,
                        c == 4,
                        d == 123,
                        x == 30,
                        r == 0,
                ;
                assert(m * m == 49) by (nonlinear_arith)
                    requires
                        m == 7,
                ;
                assert(n * n == 27225) by (nonlinear_arith)
                    requires
                        n == 165,
                ;
            },
            ECLevel::M => {
                assert(8 * (a * b + c * d) + 8 * x * (a + c) + r == 25568) by (nonlinear_arith)
                    requires
                        a == 29,
                        b == 46,
                        c == 14,
                        d == 47,
                        x == 28,
                        r == 0,
                ;
                assert(m * m == 49) by (nonlinear_arith)
                    requires
                        m == 7,
                ;
                assert(n * n == 27225) by (nonlinear_arith)
                    requires
                        n == 165,
                ;
            },
            ECLevel::Q => {
                assert(8 * (a * b + c * d) + 8 * x * (a + c) + r == 25568) by (nonlinear_arith)
                    requires
                        a == 49,
                        b == 24,
                        c == 10,
                        d == 25,
                        x == 30,
                        r == 0,
                ;
                assert(m * m == 49) by (nonlinear_arith)
                    requires
                        m == 7,
                ;
                assert(n * n == 27225) by (nonlinear_arith)
                    requires
                        n == 165,
                ;
            },
            ECLevel::H => {
                assert(8 * (a * b + c * d) + 8 * x * (a + c) + r == 25568) by (nonlinear_arith)
                    requires
                        a == 24,
                        b == 15,
                        c == 46,
                        d == 16,
                        x == 30,
                        r == 0,
                ;
                assert(m * m == 49) by (nonlinear_arith)
                    requires
                        m == 7,
                ;
                assert(n * n == 27225) by (nonlinear_arith)
                    requires
                        n == 165,
                ;
            },
        }
    } else if v == 38 {
        match e {
            ECLevel::L => {
                assert(8 * (a * b + c * d) + 8 * x * (a + c) + r == 26896) by (nonlinear_arith)
                    requires
                        a == 4,
                        b == 122,
                        c == 18,
                        d == 123,
                        x == 30,
                        r == 0,
                ;
                assert(m * m == 49) by (nonlinear_arith)
                    requires
                        m == 7,
                ;
                assert(n * n == 28561) by (nonlinear_arith)
                    requires
                        n == 169,
                ;
            },
            ECLevel::M => {
                assert(8 * (a * b + c * d) + 8 * x * (a + c) + r == 26896) by (nonlinear_arith)
                    requires
                        a == 13,
                        b == 46,
                        c == 32,
                        d == 47,
                        x == 28,
                        r == 0,
                ;
                assert(m * m == 49) by (nonlinear_arith)
                    requires
                        m == 7,
                ;
                assert(n * n == 28561) by (nonlinear_arith)
                    requires
                        n == 169,
                ;
            },
            ECLevel::Q => {
                assert(8 * (a * b + c * d) + 8 * x * (a + c) + r == 26896) by (nonlinear_arith)
                    requires
                        a == 48,
                        b == 24,
                        c == 14,
                        d == 25,
                        x == 30,
                        r == 0,
                ;
                assert(m * m == 49) by (nonlinear_arith)
                    requires
                        m == 7,
                ;
                assert(n * n == 28561) by (nonlinear_arith)
                    requires
                        n == 169,
                ;
            },
            ECLevel::H => {
                assert(8 * (a * b + c * d) + 8 * x * (a + c) + r == 26896) by (nonlinear_arith)
                    requires
                        a == 42,
                        b == 15,
                        c == 32,
                        d == 16,
                        x == 30,
                        r == 0,
                ;
                assert(m * m == 49) by (nonlinear_arith)
                    requires
                        m == 7,
                ;
                assert(n * n == 28561) by (nonlinear_arith)
                    requires
                        n == 169,
                ;
            },
        }
    } else if v == 39 {
        match e {
            ECLevel::L => {
                assert(8 * (a * b + c * d) + 8 * x * (a + c) + r == 28256) by (nonlinear_arith)
                    requires
                        a == 20,
                        b == 117,
                        c == 4,
                        d == 118,
                        x == 30,
                        r == 0,
                ;
                assert(m * m == 49) by (nonlinear_arith)
                    requires
                        m == 7,
                ;
                assert(n * n == 29929) by (nonlinear_arith)
                    requires
                        n == 173,
                ;
            },
            ECLevel::M => {
                assert(8 * (a * b + c * d) + 8 * x * (a + c) + r == 28256) by (nonlinear_arith)
                    requires
                        a == 40,
                        b == 47,
                        c == 7,
                        d == 48,
                        x == 28,
                        r == 0,
                ;
                assert(m * m == 49) by (nonlinear_arith)
                    requires
                        m == 7,
                ;
                assert(n * n == 29929) by (nonlinear_arith)
                    requires
                        n == 173,
                ;
            },
            ECLevel::Q => {
                assert(8 * (a * b + c * d) + 8 * x * (a + c) + r == 28256) by (nonlinear_arith)
                    requires
                        a == 43,
                        b == 24,
                        c == 22,
                        d == 25,
                        x == 30,
                        r == 0,
                ;
                assert(m * m == 49) by (nonlinear_arith)
                    requires
                        m == 7,
                ;
                assert(n * n == 29929) by (nonlinear_arith)
                    requires
                        n == 173,
                ;
            },
            ECLevel::H => {
                assert(8 * (a * b + c * d) + 8 * x * (a + c) + r == 28256) by (nonlinear_arith)
                    requires
                        a == 10,
                        b == 15,
                        c == 67,
                        d == 16,
                        x == 30,
                        r == 0,
                ;
                assert(m * m == 49) by (nonlinear_arith)
                    requires
                        m == 7,
                ;
                assert(n * n == 29929) by (nonlinear_arith)
                    requires
                        n == 173,
                ;
            },
        }
    } else if v == 40 {
        match e {
            ECLevel::L => {
                assert(8 * (a * b + c * d) + 8 * x * (a + c) + r == 29648) by (nonlinear_arith)
                    requires
                        a == 19,
                        b == 118,
                        c == 6,
                        d == 119,
                        x == 30,
                        r == 0,
                ;
                assert(m * m == 49) by (nonlinear_arith)
                    requires
                        m == 7,
                ;
                assert(n * n == 31329) by (nonlinear_arith)
                    requires
                        n == 177,
                ;
            },
            ECLevel::M => {
                assert(8 * (a * b + c * d) + 8 * x * (a + c) + r == 29648) by (nonlinear_arith)
                    requires
                        a == 18,
                        b == 47,
                        c == 31,
                        d == 48,
                        x == 28,
                        r == 0,
                ;
                assert(m * m == 49) by (nonlinear_arith)
                    requires
                        m == 7,
                ;
                assert(n * n == 31329) by (nonlinear_arith)
                    requires
                        n == 177,
                ;
            },
            ECLevel::Q => {
                assert(8 * (a * b + c * d) + 8 * x * (a + c) + r == 29648) by (nonlinear_arith)
                    requires
                        a == 34,
                        b == 24,
                        c == 34,
                        d == 25,
                        x == 30,
                        r == 0,
                ;
                assert(m * m == 49) by (nonlinear_arith)
                    requires
                        m == 7,
                ;
                assert(n * n == 31329) by (nonlinear_arith)
                    requires
                        n == 177,
                ;
            },
            ECLevel::H => {
                assert(8 * (a * b + c * d) + 8 * x * (a + c) + r == 29648) by (nonlinear_arith)
                    requires
                        a == 20,
                        b == 15,
                        c == 61,
                        d == 16,
                        x == 30,
                        r == 0,
                ;
                assert(m * m == 49) by (nonlinear_arith)
                    requires
                        m == 7,
                ;
                assert(n * n == 31329) by (nonlinear_arith)
                    requires
                        n == 177,
                ;
            },
        }
    }
}

} // verus!
