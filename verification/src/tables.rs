//! The tables of the QR code standard: character capacities, error
//! correction block layouts, alignment pattern centres, remainder bits and
//! the powers and logarithms of GF(256).
//!
//! Each table is a function of its indices, once for contracts and once for
//! running code, and the second is proved to agree with the first.
use crate::ec_level::ECLevel;
use crate::mode::Mode;
use vstd::prelude::*;

verus! {

/// The `k`-th of seven values.
pub open spec fn pick7(k: int, a0: int, a1: int, a2: int, a3: int, a4: int, a5: int, a6: int) -> int {
    if k == 0 {
        a0
    } else if k == 1 {
        a1
    } else if k == 2 {
        a2
    } else if k == 3 {
        a3
    } else if k == 4 {
        a4
    } else if k == 5 {
        a5
    } else {
        a6
    }
}

fn take7(k: usize, a0: usize, a1: usize, a2: usize, a3: usize, a4: usize, a5: usize, a6: usize) -> (r: usize)
    ensures
        r == pick7(k as int, a0 as int, a1 as int, a2 as int, a3 as int, a4 as int, a5 as int, a6 as int),
{
    if k == 0 {
        a0
    } else if k == 1 {
        a1
    } else if k == 2 {
        a2
    } else if k == 3 {
        a3
    } else if k == 4 {
        a4
    } else if k == 5 {
        a5
    } else {
        a6
    }
}

/// The `k`-th of twelve values.
pub open spec fn pick12(k: int, a0: int, a1: int, a2: int, a3: int, a4: int, a5: int, a6: int, a7: int, a8: int, a9: int, a10: int, a11: int) -> int {
    if k == 0 {
        a0
    } else if k == 1 {
        a1
    } else if k == 2 {
        a2
    } else if k == 3 {
        a3
    } else if k == 4 {
        a4
    } else if k == 5 {
        a5
    } else if k == 6 {
        a6
    } else if k == 7 {
        a7
    } else if k == 8 {
        a8
    } else if k == 9 {
        a9
    } else if k == 10 {
        a10
    } else {
        a11
    }
}

fn take12(k: usize, a0: usize, a1: usize, a2: usize, a3: usize, a4: usize, a5: usize, a6: usize, a7: usize, a8: usize, a9: usize, a10: usize, a11: usize) -> (r: usize)
    ensures
        r == pick12(k as int, a0 as int, a1 as int, a2 as int, a3 as int, a4 as int, a5 as int, a6 as int, a7 as int, a8 as int, a9 as int, a10 as int, a11 as int),
{
    if k == 0 {
        a0
    } else if k == 1 {
        a1
    } else if k == 2 {
        a2
    } else if k == 3 {
        a3
    } else if k == 4 {
        a4
    } else if k == 5 {
        a5
    } else if k == 6 {
        a6
    } else if k == 7 {
        a7
    } else if k == 8 {
        a8
    } else if k == 9 {
        a9
    } else if k == 10 {
        a10
    } else {
        a11
    }
}

/// The `k`-th of sixteen values.
pub open spec fn pick16(k: int, a0: int, a1: int, a2: int, a3: int, a4: int, a5: int, a6: int, a7: int, a8: int, a9: int, a10: int, a11: int, a12: int, a13: int, a14: int, a15: int) -> int {
    if k == 0 {
        a0
    } else if k == 1 {
        a1
    } else if k == 2 {
        a2
    } else if k == 3 {
        a3
    } else if k == 4 {
        a4
    } else if k == 5 {
        a5
    } else if k == 6 {
        a6
    } else if k == 7 {
        a7
    } else if k == 8 {
        a8
    } else if k == 9 {
        a9
    } else if k == 10 {
        a10
    } else if k == 11 {
        a11
    } else if k == 12 {
        a12
    } else if k == 13 {
        a13
    } else if k == 14 {
        a14
    } else {
        a15
    }
}

fn take16(k: usize, a0: u8, a1: u8, a2: u8, a3: u8, a4: u8, a5: u8, a6: u8, a7: u8, a8: u8, a9: u8, a10: u8, a11: u8, a12: u8, a13: u8, a14: u8, a15: u8) -> (r: u8)
    ensures
        r == pick16(k as int, a0 as int, a1 as int, a2 as int, a3 as int, a4 as int, a5 as int, a6 as int, a7 as int, a8 as int, a9 as int, a10 as int, a11 as int, a12 as int, a13 as int, a14 as int, a15 as int),
{
    if k == 0 {
        a0
    } else if k == 1 {
        a1
    } else if k == 2 {
        a2
    } else if k == 3 {
        a3
    } else if k == 4 {
        a4
    } else if k == 5 {
        a5
    } else if k == 6 {
        a6
    } else if k == 7 {
        a7
    } else if k == 8 {
        a8
    } else if k == 9 {
        a9
    } else if k == 10 {
        a10
    } else if k == 11 {
        a11
    } else if k == 12 {
        a12
    } else if k == 13 {
        a13
    } else if k == 14 {
        a14
    } else {
        a15
    }
}

/// The `k`-th of twenty values.
pub open spec fn pick20(k: int, a0: int, a1: int, a2: int, a3: int, a4: int, a5: int, a6: int, a7: int, a8: int, a9: int, a10: int, a11: int, a12: int, a13: int, a14: int, a15: int, a16: int, a17: int, a18: int, a19: int) -> int {
    if k == 0 {
        a0
    } else if k == 1 {
        a1
    } else if k == 2 {
        a2
    } else if k == 3 {
        a3
    } else if k == 4 {
        a4
    } else if k == 5 {
        a5
    } else if k == 6 {
        a6
    } else if k == 7 {
        a7
    } else if k == 8 {
        a8
    } else if k == 9 {
        a9
    } else if k == 10 {
        a10
    } else if k == 11 {
        a11
    } else if k == 12 {
        a12
    } else if k == 13 {
        a13
    } else if k == 14 {
        a14
    } else if k == 15 {
        a15
    } else if k == 16 {
        a16
    } else if k == 17 {
        a17
    } else if k == 18 {
        a18
    } else {
        a19
    }
}

fn take20(k: usize, a0: usize, a1: usize, a2: usize, a3: usize, a4: usize, a5: usize, a6: usize, a7: usize, a8: usize, a9: usize, a10: usize, a11: usize, a12: usize, a13: usize, a14: usize, a15: usize, a16: usize, a17: usize, a18: usize, a19: usize) -> (r: usize)
    ensures
        r == pick20(k as int, a0 as int, a1 as int, a2 as int, a3 as int, a4 as int, a5 as int, a6 as int, a7 as int, a8 as int, a9 as int, a10 as int, a11 as int, a12 as int, a13 as int, a14 as int, a15 as int, a16 as int, a17 as int, a18 as int, a19 as int),
{
    if k == 0 {
        a0
    } else if k == 1 {
        a1
    } else if k == 2 {
        a2
    } else if k == 3 {
        a3
    } else if k == 4 {
        a4
    } else if k == 5 {
        a5
    } else if k == 6 {
        a6
    } else if k == 7 {
        a7
    } else if k == 8 {
        a8
    } else if k == 9 {
        a9
    } else if k == 10 {
        a10
    } else if k == 11 {
        a11
    } else if k == 12 {
        a12
    } else if k == 13 {
        a13
    } else if k == 14 {
        a14
    } else if k == 15 {
        a15
    } else if k == 16 {
        a16
    } else if k == 17 {
        a17
    } else if k == 18 {
        a18
    } else {
        a19
    }
}

/// Capacity in characters of version `v` (1 to 40) at an error correction
/// level and in a mode. Each row lists L, M, Q, H, and for each of them
/// numeric, alphanumeric, byte.
#[verifier::opaque]
pub open spec fn capacity_of(v: int, e: ECLevel, mode: Mode) -> int {
    let k = e.idx() * 3 + mode.idx();
    if v == 1 {
        pick12(k, 41, 25, 17, 34, 20, 14, 27, 16, 11, 17, 10, 7)
    } else if v == 2 {
        pick12(k, 77, 47, 32, 63, 38, 26, 48, 29, 20, 34, 20, 14)
    } else if v == 3 {
        pick12(k, 127, 77, 53, 101, 61, 42, 77, 47, 32, 58, 35, 24)
    } else if v == 4 {
        pick12(k, 187, 114, 78, 149, 90, 62, 111, 67, 46, 82, 50, 34)
    } else if v == 5 {
        pick12(k, 255, 154, 106, 202, 122, 84, 144, 87, 60, 106, 64, 44)
    } else if v == 6 {
        pick12(k, 322, 195, 134, 255, 154, 106, 178, 108, 74, 139, 84, 58)
    } else if v == 7 {
        pick12(k, 370, 224, 154, 293, 178, 122, 207, 125, 86, 154, 93, 64)
    } else if v == 8 {
        pick12(k, 461, 279, 192, 365, 221, 152, 259, 157, 108, 202, 122, 84)
    } else if v == 9 {
        pick12(k, 552, 335, 230, 432, 262, 180, 312, 189, 130, 235, 143, 98)
    } else if v == 10 {
        pick12(k, 652, 395, 271, 513, 311, 213, 364, 221, 151, 288, 174, 119)
    } else if v == 11 {
        pick12(k, 772, 468, 321, 604, 366, 251, 427, 259, 177, 331, 200, 137)
    } else if v == 12 {
        pick12(k, 883, 535, 367, 691, 419, 287, 489, 296, 203, 374, 227, 155)
    } else if v == 13 {
        pick12(k, 1022, 619, 425, 796, 483, 331, 580, 352, 241, 427, 259, 177)
    } else if v == 14 {
        pick12(k, 1101, 667, 458, 871, 528, 362, 621, 376, 258, 468, 283, 194)
    } else if v == 15 {
        pick12(k, 1250, 758, 520, 991, 600, 412, 703, 426, 292, 530, 321, 220)
    } else if v == 16 {
        pick12(k, 1408, 854, 586, 1082, 656, 450, 775, 470, 322, 602, 365, 250)
    } else if v == 17 {
        pick12(k, 1548, 938, 644, 1212, 734, 504, 876, 531, 364, 674, 408, 280)
    } else if v == 18 {
        pick12(k, 1725, 1046, 718, 1346, 816, 560, 948, 574, 394, 746, 452, 310)
    } else if v == 19 {
        pick12(k, 1903, 1153, 792, 1500, 909, 624, 1063, 644, 442, 813, 493, 338)
    } else if v == 20 {
        pick12(k, 2061, 1249, 858, 1600, 970, 666, 1159, 702, 482, 919, 557, 382)
    } else if v == 21 {
        pick12(k, 2232, 1352, 929, 1708, 1035, 711, 1224, 742, 509, 969, 587, 403)
    } else if v == 22 {
        pick12(k, 2409, 1460, 1003, 1872, 1134, 779, 1358, 823, 565, 1056, 640, 439)
    } else if v == 23 {
        pick12(k, 2620, 1588, 1091, 2059, 1248, 857, 1468, 890, 611, 1108, 672, 461)
    } else if v == 24 {
        pick12(k, 2812, 1704, 1171, 2188, 1326, 911, 1588, 963, 661, 1228, 744, 511)
    } else if v == 25 {
        pick12(k, 3057, 1853, 1273, 2395, 1451, 997, 1718, 1041, 715, 1286, 779, 535)
    } else if v == 26 {
        pick12(k, 3283, 1990, 1367, 2544, 1542, 1059, 1804, 1094, 751, 1425, 864, 593)
    } else if v == 27 {
        pick12(k, 3517, 2132, 1465, 2701, 1637, 1125, 1933, 1172, 805, 1501, 910, 625)
    } else if v == 28 {
        pick12(k, 3669, 2223, 1528, 2857, 1732, 1190, 2085, 1263, 868, 1581, 958, 658)
    } else if v == 29 {
        pick12(k, 3909, 2369, 1628, 3035, 1839, 1264, 2181, 1322, 908, 1677, 1016, 698)
    } else if v == 30 {
        pick12(k, 4158, 2520, 1732, 3289, 1994, 1370, 2358, 1429, 982, 1782, 1080, 742)
    } else if v == 31 {
        pick12(k, 4417, 2677, 1840, 3486, 2113, 1452, 2473, 1499, 1030, 1897, 1150, 790)
    } else if v == 32 {
        pick12(k, 4686, 2840, 1952, 3693, 2238, 1538, 2670, 1618, 1112, 2022, 1226, 842)
    } else if v == 33 {
        pick12(k, 4965, 3009, 2068, 3909, 2369, 1628, 2805, 1700, 1168, 2157, 1307, 898)
    } else if v == 34 {
        pick12(k, 5253, 3183, 2188, 4134, 2506, 1722, 2949, 1787, 1228, 2301, 1394, 958)
    } else if v == 35 {
        pick12(k, 5529, 3351, 2303, 4343, 2632, 1809, 3081, 1867, 1283, 2361, 1431, 983)
    } else if v == 36 {
        pick12(k, 5836, 3537, 2431, 4588, 2780, 1911, 3244, 1966, 1351, 2524, 1530, 1051)
    } else if v == 37 {
        pick12(k, 6153, 3729, 2563, 4775, 2894, 1989, 3417, 2071, 1423, 2625, 1591, 1093)
    } else if v == 38 {
        pick12(k, 6479, 3927, 2699, 5039, 3054, 2099, 3599, 2181, 1499, 2735, 1658, 1139)
    } else if v == 39 {
        pick12(k, 6743, 4087, 2809, 5313, 3220, 2213, 3791, 2298, 1579, 2927, 1774, 1219)
    } else if v == 40 {
        pick12(k, 7089, 4296, 2953, 5596, 3391, 2331, 3993, 2420, 1663, 3057, 1852, 1273)
    } else {
        0
    }
}

/// Looks a capacity up.
pub fn capacity_lookup(v: usize, e: ECLevel, mode: Mode) -> (r: usize)
    ensures
        r == capacity_of(v as int, e, mode),
{
    reveal(capacity_of);
    let k: usize = e.index() * 3 + mode.index();
    if v == 1 {
        take12(k, 41, 25, 17, 34, 20, 14, 27, 16, 11, 17, 10, 7)
    } else if v == 2 {
        take12(k, 77, 47, 32, 63, 38, 26, 48, 29, 20, 34, 20, 14)
    } else if v == 3 {
        take12(k, 127, 77, 53, 101, 61, 42, 77, 47, 32, 58, 35, 24)
    } else if v == 4 {
        take12(k, 187, 114, 78, 149, 90, 62, 111, 67, 46, 82, 50, 34)
    } else if v == 5 {
        take12(k, 255, 154, 106, 202, 122, 84, 144, 87, 60, 106, 64, 44)
    } else if v == 6 {
        take12(k, 322, 195, 134, 255, 154, 106, 178, 108, 74, 139, 84, 58)
    } else if v == 7 {
        take12(k, 370, 224, 154, 293, 178, 122, 207, 125, 86, 154, 93, 64)
    } else if v == 8 {
        take12(k, 461, 279, 192, 365, 221, 152, 259, 157, 108, 202, 122, 84)
    } else if v == 9 {
        take12(k, 552, 335, 230, 432, 262, 180, 312, 189, 130, 235, 143, 98)
    } else if v == 10 {
        take12(k, 652, 395, 271, 513, 311, 213, 364, 221, 151, 288, 174, 119)
    } else if v == 11 {
        take12(k, 772, 468, 321, 604, 366, 251, 427, 259, 177, 331, 200, 137)
    } else if v == 12 {
        take12(k, 883, 535, 367, 691, 419, 287, 489, 296, 203, 374, 227, 155)
    } else if v == 13 {
        take12(k, 1022, 619, 425, 796, 483, 331, 580, 352, 241, 427, 259, 177)
    } else if v == 14 {
        take12(k, 1101, 667, 458, 871, 528, 362, 621, 376, 258, 468, 283, 194)
    } else if v == 15 {
        take12(k, 1250, 758, 520, 991, 600, 412, 703, 426, 292, 530, 321, 220)
    } else if v == 16 {
        take12(k, 1408, 854, 586, 1082, 656, 450, 775, 470, 322, 602, 365, 250)
    } else if v == 17 {
        take12(k, 1548, 938, 644, 1212, 734, 504, 876, 531, 364, 674, 408, 280)
    } else if v == 18 {
        take12(k, 1725, 1046, 718, 1346, 816, 560, 948, 574, 394, 746, 452, 310)
    } else if v == 19 {
        take12(k, 1903, 1153, 792, 1500, 909, 624, 1063, 644, 442, 813, 493, 338)
    } else if v == 20 {
        take12(k, 2061, 1249, 858, 1600, 970, 666, 1159, 702, 482, 919, 557, 382)
    } else if v == 21 {
        take12(k, 2232, 1352, 929, 1708, 1035, 711, 1224, 742, 509, 969, 587, 403)
    } else if v == 22 {
        take12(k, 2409, 1460, 1003, 1872, 1134, 779, 1358, 823, 565, 1056, 640, 439)
    } else if v == 23 {
        take12(k, 2620, 1588, 1091, 2059, 1248, 857, 1468, 890, 611, 1108, 672, 461)
    } else if v == 24 {
        take12(k, 2812, 1704, 1171, 2188, 1326, 911, 1588, 963, 661, 1228, 744, 511)
    } else if v == 25 {
        take12(k, 3057, 1853, 1273, 2395, 1451, 997, 1718, 1041, 715, 1286, 779, 535)
    } else if v == 26 {
        take12(k, 3283, 1990, 1367, 2544, 1542, 1059, 1804, 1094, 751, 1425, 864, 593)
    } else if v == 27 {
        take12(k, 3517, 2132, 1465, 2701, 1637, 1125, 1933, 1172, 805, 1501, 910, 625)
    } else if v == 28 {
        take12(k, 3669, 2223, 1528, 2857, 1732, 1190, 2085, 1263, 868, 1581, 958, 658)
    } else if v == 29 {
        take12(k, 3909, 2369, 1628, 3035, 1839, 1264, 2181, 1322, 908, 1677, 1016, 698)
    } else if v == 30 {
        take12(k, 4158, 2520, 1732, 3289, 1994, 1370, 2358, 1429, 982, 1782, 1080, 742)
    } else if v == 31 {
        take12(k, 4417, 2677, 1840, 3486, 2113, 1452, 2473, 1499, 1030, 1897, 1150, 790)
    } else if v == 32 {
        take12(k, 4686, 2840, 1952, 3693, 2238, 1538, 2670, 1618, 1112, 2022, 1226, 842)
    } else if v == 33 {
        take12(k, 4965, 3009, 2068, 3909, 2369, 1628, 2805, 1700, 1168, 2157, 1307, 898)
    } else if v == 34 {
        take12(k, 5253, 3183, 2188, 4134, 2506, 1722, 2949, 1787, 1228, 2301, 1394, 958)
    } else if v == 35 {
        take12(k, 5529, 3351, 2303, 4343, 2632, 1809, 3081, 1867, 1283, 2361, 1431, 983)
    } else if v == 36 {
        take12(k, 5836, 3537, 2431, 4588, 2780, 1911, 3244, 1966, 1351, 2524, 1530, 1051)
    } else if v == 37 {
        take12(k, 6153, 3729, 2563, 4775, 2894, 1989, 3417, 2071, 1423, 2625, 1591, 1093)
    } else if v == 38 {
        take12(k, 6479, 3927, 2699, 5039, 3054, 2099, 3599, 2181, 1499, 2735, 1658, 1139)
    } else if v == 39 {
        take12(k, 6743, 4087, 2809, 5313, 3220, 2213, 3791, 2298, 1579, 2927, 1774, 1219)
    } else if v == 40 {
        take12(k, 7089, 4296, 2953, 5596, 3391, 2331, 3993, 2420, 1663, 3057, 1852, 1273)
    } else {
        0
    }
}

/// One number of the block layout of version `v` (1 to 40) at a level.
/// Field 0 is the count of error correction codewords per block, 1 and 2
/// the count and size of the blocks of the first group, 3 and 4 those of the
/// second group. Each row lists L, M, Q, H.
#[verifier::opaque]
pub open spec fn block_field(v: int, e: ECLevel, field: int) -> int {
    let k = e.idx() * 5 + field;
    if v == 1 {
        pick20(k, 7, 1, 19, 0, 0, 10, 1, 16, 0, 0, 13, 1, 13, 0, 0, 17, 1, 9, 0, 0)
    } else if v == 2 {
        pick20(k, 10, 1, 34, 0, 0, 16, 1, 28, 0, 0, 22, 1, 22, 0, 0, 28, 1, 16, 0, 0)
    } else if v == 3 {
        pick20(k, 15, 1, 55, 0, 0, 26, 1, 44, 0, 0, 18, 2, 17, 0, 0, 22, 2, 13, 0, 0)
    } else if v == 4 {
        pick20(k, 20, 1, 80, 0, 0, 18, 2, 32, 0, 0, 26, 2, 24, 0, 0, 16, 4, 9, 0, 0)
    } else if v == 5 {
        pick20(k, 26, 1, 108, 0, 0, 24, 2, 43, 0, 0, 18, 2, 15, 2, 16, 22, 2, 11, 2, 12)
    } else if v == 6 {
        pick20(k, 18, 2, 68, 0, 0, 16, 4, 27, 0, 0, 24, 4, 19, 0, 0, 28, 4, 15, 0, 0)
    } else if v == 7 {
        pick20(k, 20, 2, 78, 0, 0, 18, 4, 31, 0, 0, 18, 2, 14, 4, 15, 26, 4, 13, 1, 14)
    } else if v == 8 {
        pick20(k, 24, 2, 97, 0, 0, 22, 2, 38, 2, 39, 22, 4, 18, 2, 19, 26, 4, 14, 2, 15)
    } else if v == 9 {
        pick20(k, 30, 2, 116, 0, 0, 22, 3, 36, 2, 37, 20, 4, 16, 4, 17, 24, 4, 12, 4, 13)
    } else if v == 10 {
        pick20(k, 18, 2, 68, 2, 69, 26, 4, 43, 1, 44, 24, 6, 19, 2, 20, 28, 6, 15, 2, 16)
    } else if v == 11 {
        pick20(k, 20, 4, 81, 0, 0, 30, 1, 50, 4, 51, 28, 4, 22, 4, 23, 24, 3, 12, 8, 13)
    } else if v == 12 {
        pick20(k, 24, 2, 92, 2, 93, 22, 6, 36, 2, 37, 26, 4, 20, 6, 21, 28, 7, 14, 4, 15)
    } else if v == 13 {
        pick20(k, 26, 4, 107, 0, 0, 22, 8, 37, 1, 38, 24, 8, 20, 4, 21, 22, 12, 11, 4, 12)
    } else if v == 14 {
        pick20(k, 30, 3, 115, 1, 116, 24, 4, 40, 5, 41, 20, 11, 16, 5, 17, 24, 11, 12, 5, 13)
    } else if v == 15 {
        pick20(k, 22, 5, 87, 1, 88, 24, 5, 41, 5, 42, 30, 5, 24, 7, 25, 24, 11, 12, 7, 13)
    } else if v == 16 {
        pick20(k, 24, 5, 98, 1, 99, 28, 7, 45, 3, 46, 24, 15, 19, 2, 20, 30, 3, 15, 13, 16)
    } else if v == 17 {
        pick20(k, 28, 1, 107, 5, 108, 28, 10, 46, 1, 47, 28, 1, 22, 15, 23, 28, 2, 14, 17, 15)
    } else if v == 18 {
        pick20(k, 30, 5, 120, 1, 121, 26, 9, 43, 4, 44, 28, 17, 22, 1, 23, 28, 2, 14, 19, 15)
    } else if v == 19 {
        pick20(k, 28, 3, 113, 4, 114, 26, 3, 44, 11, 45, 26, 17, 21, 4, 22, 26, 9, 13, 16, 14)
    } else if v == 20 {
        pick20(k, 28, 3, 107, 5, 108, 26, 3, 41, 13, 42, 30, 15, 24, 5, 25, 28, 15, 15, 10, 16)
    } else if v == 21 {
        pick20(k, 28, 4, 116, 4, 117, 26, 17, 42, 0, 0, 28, 17, 22, 6, 23, 30, 19, 16, 6, 17)
    } else if v == 22 {
        pick20(k, 28, 2, 111, 7, 112, 28, 17, 46, 0, 0, 30, 7, 24, 16, 25, 24, 34, 13, 0, 0)
    } else if v == 23 {
        pick20(k, 30, 4, 121, 5, 122, 28, 4, 47, 14, 48, 30, 11, 24, 14, 25, 30, 16, 15, 14, 16)
    } else if v == 24 {
        pick20(k, 30, 6, 117, 4, 118, 28, 6, 45, 14, 46, 30, 11, 24, 16, 25, 30, 30, 16, 2, 17)
    } else if v == 25 {
        pick20(k, 26, 8, 106, 4, 107, 28, 8, 47, 13, 48, 30, 7, 24, 22, 25, 30, 22, 15, 13, 16)
    } else if v == 26 {
        pick20(k, 28, 10, 114, 2, 115, 28, 19, 46, 4, 47, 28, 28, 22, 6, 23, 30, 33, 16, 4, 17)
    } else if v == 27 {
        pick20(k, 30, 8, 122, 4, 123, 28, 22, 45, 3, 46, 30, 8, 23, 26, 24, 30, 12, 15, 28, 16)
    } else if v == 28 {
        pick20(k, 30, 3, 117, 10, 118, 28, 3, 45, 23, 46, 30, 4, 24, 31, 25, 30, 11, 15, 31, 16)
    } else if v == 29 {
        pick20(k, 30, 7, 116, 7, 117, 28, 21, 45, 7, 46, 30, 1, 23, 37, 24, 30, 19, 15, 26, 16)
    } else if v == 30 {
        pick20(k, 30, 5, 115, 10, 116, 28, 19, 47, 10, 48, 30, 15, 24, 25, 25, 30, 23, 15, 25, 16)
    } else if v == 31 {
        pick20(k, 30, 13, 115, 3, 116, 28, 2, 46, 29, 47, 30, 42, 24, 1, 25, 30, 23, 15, 28, 16)
    } else if v == 32 {
        pick20(k, 30, 17, 115, 0, 0, 28, 10, 46, 23, 47, 30, 10, 24, 35, 25, 30, 19, 15, 35, 16)
    } else if v == 33 {
        pick20(k, 30, 17, 115, 1, 116, 28, 14, 46, 21, 47, 30, 29, 24, 19, 25, 30, 11, 15, 46, 16)
    } else if v == 34 {
        pick20(k, 30, 13, 115, 6, 116, 28, 14, 46, 23, 47, 30, 44, 24, 7, 25, 30, 59, 16, 1, 17)
    } else if v == 35 {
        pick20(k, 30, 12, 121, 7, 122, 28, 12, 47, 26, 48, 30, 39, 24, 14, 25, 30, 22, 15, 41, 16)
    } else if v == 36 {
        pick20(k, 30, 6, 121, 14, 122, 28, 6, 47, 34, 48, 30, 46, 24, 10, 25, 30, 2, 15, 64, 16)
    } else if v == 37 {
        pick20(k, 30, 17, 122, 4, 123, 28, 29, 46, 14, 47, 30, 49, 24, 10, 25, 30, 24, 15, 46, 16)
    } else if v == 38 {
        pick20(k, 30, 4, 122, 18, 123, 28, 13, 46, 32, 47, 30, 48, 24, 14, 25, 30, 42, 15, 32, 16)
    } else if v == 39 {
        pick20(k, 30, 20, 117, 4, 118, 28, 40, 47, 7, 48, 30, 43, 24, 22, 25, 30, 10, 15, 67, 16)
    } else if v == 40 {
        pick20(k, 30, 19, 118, 6, 119, 28, 18, 47, 31, 48, 30, 34, 24, 34, 25, 30, 20, 15, 61, 16)
    } else {
        0
    }
}

/// Looks one number of a block layout up.
pub fn block_field_lookup(v: usize, e: ECLevel, field: usize) -> (r: usize)
    requires
        field < 5,
    ensures
        r == block_field(v as int, e, field as int),
{
    reveal(block_field);
    let k: usize = e.index() * 5 + field;
    if v == 1 {
        take20(k, 7, 1, 19, 0, 0, 10, 1, 16, 0, 0, 13, 1, 13, 0, 0, 17, 1, 9, 0, 0)
    } else if v == 2 {
        take20(k, 10, 1, 34, 0, 0, 16, 1, 28, 0, 0, 22, 1, 22, 0, 0, 28, 1, 16, 0, 0)
    } else if v == 3 {
        take20(k, 15, 1, 55, 0, 0, 26, 1, 44, 0, 0, 18, 2, 17, 0, 0, 22, 2, 13, 0, 0)
    } else if v == 4 {
        take20(k, 20, 1, 80, 0, 0, 18, 2, 32, 0, 0, 26, 2, 24, 0, 0, 16, 4, 9, 0, 0)
    } else if v == 5 {
        take20(k, 26, 1, 108, 0, 0, 24, 2, 43, 0, 0, 18, 2, 15, 2, 16, 22, 2, 11, 2, 12)
    } else if v == 6 {
        take20(k, 18, 2, 68, 0, 0, 16, 4, 27, 0, 0, 24, 4, 19, 0, 0, 28, 4, 15, 0, 0)
    } else if v == 7 {
        take20(k, 20, 2, 78, 0, 0, 18, 4, 31, 0, 0, 18, 2, 14, 4, 15, 26, 4, 13, 1, 14)
    } else if v == 8 {
        take20(k, 24, 2, 97, 0, 0, 22, 2, 38, 2, 39, 22, 4, 18, 2, 19, 26, 4, 14, 2, 15)
    } else if v == 9 {
        take20(k, 30, 2, 116, 0, 0, 22, 3, 36, 2, 37, 20, 4, 16, 4, 17, 24, 4, 12, 4, 13)
    } else if v == 10 {
        take20(k, 18, 2, 68, 2, 69, 26, 4, 43, 1, 44, 24, 6, 19, 2, 20, 28, 6, 15, 2, 16)
    } else if v == 11 {
        take20(k, 20, 4, 81, 0, 0, 30, 1, 50, 4, 51, 28, 4, 22, 4, 23, 24, 3, 12, 8, 13)
    } else if v == 12 {
        take20(k, 24, 2, 92, 2, 93, 22, 6, 36, 2, 37, 26, 4, 20, 6, 21, 28, 7, 14, 4, 15)
    } else if v == 13 {
        take20(k, 26, 4, 107, 0, 0, 22, 8, 37, 1, 38, 24, 8, 20, 4, 21, 22, 12, 11, 4, 12)
    } else if v == 14 {
        take20(k, 30, 3, 115, 1, 116, 24, 4, 40, 5, 41, 20, 11, 16, 5, 17, 24, 11, 12, 5, 13)
    } else if v == 15 {
        take20(k, 22, 5, 87, 1, 88, 24, 5, 41, 5, 42, 30, 5, 24, 7, 25, 24, 11, 12, 7, 13)
    } else if v == 16 {
        take20(k, 24, 5, 98, 1, 99, 28, 7, 45, 3, 46, 24, 15, 19, 2, 20, 30, 3, 15, 13, 16)
    } else if v == 17 {
        take20(k, 28, 1, 107, 5, 108, 28, 10, 46, 1, 47, 28, 1, 22, 15, 23, 28, 2, 14, 17, 15)
    } else if v == 18 {
        take20(k, 30, 5, 120, 1, 121, 26, 9, 43, 4, 44, 28, 17, 22, 1, 23, 28, 2, 14, 19, 15)
    } else if v == 19 {
        take20(k, 28, 3, 113, 4, 114, 26, 3, 44, 11, 45, 26, 17, 21, 4, 22, 26, 9, 13, 16, 14)
    } else if v == 20 {
        take20(k, 28, 3, 107, 5, 108, 26, 3, 41, 13, 42, 30, 15, 24, 5, 25, 28, 15, 15, 10, 16)
    } else if v == 21 {
        take20(k, 28, 4, 116, 4, 117, 26, 17, 42, 0, 0, 28, 17, 22, 6, 23, 30, 19, 16, 6, 17)
    } else if v == 22 {
        take20(k, 28, 2, 111, 7, 112, 28, 17, 46, 0, 0, 30, 7, 24, 16, 25, 24, 34, 13, 0, 0)
    } else if v == 23 {
        take20(k, 30, 4, 121, 5, 122, 28, 4, 47, 14, 48, 30, 11, 24, 14, 25, 30, 16, 15, 14, 16)
    } else if v == 24 {
        take20(k, 30, 6, 117, 4, 118, 28, 6, 45, 14, 46, 30, 11, 24, 16, 25, 30, 30, 16, 2, 17)
    } else if v == 25 {
        take20(k, 26, 8, 106, 4, 107, 28, 8, 47, 13, 48, 30, 7, 24, 22, 25, 30, 22, 15, 13, 16)
    } else if v == 26 {
        take20(k, 28, 10, 114, 2, 115, 28, 19, 46, 4, 47, 28, 28, 22, 6, 23, 30, 33, 16, 4, 17)
    } else if v == 27 {
        take20(k, 30, 8, 122, 4, 123, 28, 22, 45, 3, 46, 30, 8, 23, 26, 24, 30, 12, 15, 28, 16)
    } else if v == 28 {
        take20(k, 30, 3, 117, 10, 118, 28, 3, 45, 23, 46, 30, 4, 24, 31, 25, 30, 11, 15, 31, 16)
    } else if v == 29 {
        take20(k, 30, 7, 116, 7, 117, 28, 21, 45, 7, 46, 30, 1, 23, 37, 24, 30, 19, 15, 26, 16)
    } else if v == 30 {
        take20(k, 30, 5, 115, 10, 116, 28, 19, 47, 10, 48, 30, 15, 24, 25, 25, 30, 23, 15, 25, 16)
    } else if v == 31 {
        take20(k, 30, 13, 115, 3, 116, 28, 2, 46, 29, 47, 30, 42, 24, 1, 25, 30, 23, 15, 28, 16)
    } else if v == 32 {
        take20(k, 30, 17, 115, 0, 0, 28, 10, 46, 23, 47, 30, 10, 24, 35, 25, 30, 19, 15, 35, 16)
    } else if v == 33 {
        take20(k, 30, 17, 115, 1, 116, 28, 14, 46, 21, 47, 30, 29, 24, 19, 25, 30, 11, 15, 46, 16)
    } else if v == 34 {
        take20(k, 30, 13, 115, 6, 116, 28, 14, 46, 23, 47, 30, 44, 24, 7, 25, 30, 59, 16, 1, 17)
    } else if v == 35 {
        take20(k, 30, 12, 121, 7, 122, 28, 12, 47, 26, 48, 30, 39, 24, 14, 25, 30, 22, 15, 41, 16)
    } else if v == 36 {
        take20(k, 30, 6, 121, 14, 122, 28, 6, 47, 34, 48, 30, 46, 24, 10, 25, 30, 2, 15, 64, 16)
    } else if v == 37 {
        take20(k, 30, 17, 122, 4, 123, 28, 29, 46, 14, 47, 30, 49, 24, 10, 25, 30, 24, 15, 46, 16)
    } else if v == 38 {
        take20(k, 30, 4, 122, 18, 123, 28, 13, 46, 32, 47, 30, 48, 24, 14, 25, 30, 42, 15, 32, 16)
    } else if v == 39 {
        take20(k, 30, 20, 117, 4, 118, 28, 40, 47, 7, 48, 30, 43, 24, 22, 25, 30, 10, 15, 67, 16)
    } else if v == 40 {
        take20(k, 30, 19, 118, 6, 119, 28, 18, 47, 31, 48, 30, 34, 24, 34, 25, 30, 20, 15, 61, 16)
    } else {
        0
    }
}

/// How many alignment pattern centre coordinates version `v` has.
#[verifier::opaque]
pub open spec fn alignment_count(v: int) -> int {
    if v == 1 {
        0
    } else if v == 2 {
        2
    } else if v == 3 {
        2
    } else if v == 4 {
        2
    } else if v == 5 {
        2
    } else if v == 6 {
        2
    } else if v == 7 {
        3
    } else if v == 8 {
        3
    } else if v == 9 {
        3
    } else if v == 10 {
        3
    } else if v == 11 {
        3
    } else if v == 12 {
        3
    } else if v == 13 {
        3
    } else if v == 14 {
        4
    } else if v == 15 {
        4
    } else if v == 16 {
        4
    } else if v == 17 {
        4
    } else if v == 18 {
        4
    } else if v == 19 {
        4
    } else if v == 20 {
        4
    } else if v == 21 {
        5
    } else if v == 22 {
        5
    } else if v == 23 {
        5
    } else if v == 24 {
        5
    } else if v == 25 {
        5
    } else if v == 26 {
        5
    } else if v == 27 {
        5
    } else if v == 28 {
        6
    } else if v == 29 {
        6
    } else if v == 30 {
        6
    } else if v == 31 {
        6
    } else if v == 32 {
        6
    } else if v == 33 {
        6
    } else if v == 34 {
        6
    } else if v == 35 {
        7
    } else if v == 36 {
        7
    } else if v == 37 {
        7
    } else if v == 38 {
        7
    } else if v == 39 {
        7
    } else if v == 40 {
        7
    } else {
        0
    }
}

/// Looks the count of alignment pattern centre coordinates up.
pub fn alignment_count_lookup(v: usize) -> (r: usize)
    ensures
        r == alignment_count(v as int),
{
    reveal(alignment_count);
    if v == 1 {
        0
    } else if v == 2 {
        2
    } else if v == 3 {
        2
    } else if v == 4 {
        2
    } else if v == 5 {
        2
    } else if v == 6 {
        2
    } else if v == 7 {
        3
    } else if v == 8 {
        3
    } else if v == 9 {
        3
    } else if v == 10 {
        3
    } else if v == 11 {
        3
    } else if v == 12 {
        3
    } else if v == 13 {
        3
    } else if v == 14 {
        4
    } else if v == 15 {
        4
    } else if v == 16 {
        4
    } else if v == 17 {
        4
    } else if v == 18 {
        4
    } else if v == 19 {
        4
    } else if v == 20 {
        4
    } else if v == 21 {
        5
    } else if v == 22 {
        5
    } else if v == 23 {
        5
    } else if v == 24 {
        5
    } else if v == 25 {
        5
    } else if v == 26 {
        5
    } else if v == 27 {
        5
    } else if v == 28 {
        6
    } else if v == 29 {
        6
    } else if v == 30 {
        6
    } else if v == 31 {
        6
    } else if v == 32 {
        6
    } else if v == 33 {
        6
    } else if v == 34 {
        6
    } else if v == 35 {
        7
    } else if v == 36 {
        7
    } else if v == 37 {
        7
    } else if v == 38 {
        7
    } else if v == 39 {
        7
    } else if v == 40 {
        7
    } else {
        0
    }
}

/// The `i`-th alignment pattern centre coordinate of version `v`, in
/// ascending order.
#[verifier::opaque]
pub open spec fn alignment_center(v: int, i: int) -> int {
    if v == 1 {
        pick7(i, 0, 0, 0, 0, 0, 0, 0)
    } else if v == 2 {
        pick7(i, 6, 18, 0, 0, 0, 0, 0)
    } else if v == 3 {
        pick7(i, 6, 22, 0, 0, 0, 0, 0)
    } else if v == 4 {
        pick7(i, 6, 26, 0, 0, 0, 0, 0)
    } else if v == 5 {
        pick7(i, 6, 30, 0, 0, 0, 0, 0)
    } else if v == 6 {
        pick7(i, 6, 34, 0, 0, 0, 0, 0)
    } else if v == 7 {
        pick7(i, 6, 22, 38, 0, 0, 0, 0)
    } else if v == 8 {
        pick7(i, 6, 24, 42, 0, 0, 0, 0)
    } else if v == 9 {
        pick7(i, 6, 26, 46, 0, 0, 0, 0)
    } else if v == 10 {
        pick7(i, 6, 28, 50, 0, 0, 0, 0)
    } else if v == 11 {
        pick7(i, 6, 30, 54, 0, 0, 0, 0)
    } else if v == 12 {
        pick7(i, 6, 32, 58, 0, 0, 0, 0)
    } else if v == 13 {
        pick7(i, 6, 34, 62, 0, 0, 0, 0)
    } else if v == 14 {
        pick7(i, 6, 26, 46, 66, 0, 0, 0)
    } else if v == 15 {
        pick7(i, 6, 26, 48, 70, 0, 0, 0)
    } else if v == 16 {
        pick7(i, 6, 26, 50, 74, 0, 0, 0)
    } else if v == 17 {
        pick7(i, 6, 30, 54, 78, 0, 0, 0)
    } else if v == 18 {
        pick7(i, 6, 30, 56, 82, 0, 0, 0)
    } else if v == 19 {
        pick7(i, 6, 30, 58, 86, 0, 0, 0)
    } else if v == 20 {
        pick7(i, 6, 34, 62, 90, 0, 0, 0)
    } else if v == 21 {
        pick7(i, 6, 28, 50, 72, 94, 0, 0)
    } else if v == 22 {
        pick7(i, 6, 26, 50, 74, 98, 0, 0)
    } else if v == 23 {
        pick7(i, 6, 30, 54, 78, 102, 0, 0)
    } else if v == 24 {
        pick7(i, 6, 28, 54, 80, 106, 0, 0)
    } else if v == 25 {
        pick7(i, 6, 32, 58, 84, 110, 0, 0)
    } else if v == 26 {
        pick7(i, 6, 30, 58, 86, 114, 0, 0)
    } else if v == 27 {
        pick7(i, 6, 34, 62, 90, 118, 0, 0)
    } else if v == 28 {
        pick7(i, 6, 26, 50, 74, 98, 122, 0)
    } else if v == 29 {
        pick7(i, 6, 30, 54, 78, 102, 126, 0)
    } else if v == 30 {
        pick7(i, 6, 26, 52, 78, 104, 130, 0)
    } else if v == 31 {
        pick7(i, 6, 30, 56, 82, 108, 134, 0)
    } else if v == 32 {
        pick7(i, 6, 34, 60, 86, 112, 138, 0)
    } else if v == 33 {
        pick7(i, 6, 30, 58, 86, 114, 142, 0)
    } else if v == 34 {
        pick7(i, 6, 34, 62, 90, 118, 146, 0)
    } else if v == 35 {
        pick7(i, 6, 30, 54, 78, 102, 126, 150)
    } else if v == 36 {
        pick7(i, 6, 24, 50, 76, 102, 128, 154)
    } else if v == 37 {
        pick7(i, 6, 28, 54, 80, 106, 132, 158)
    } else if v == 38 {
        pick7(i, 6, 32, 58, 84, 110, 136, 162)
    } else if v == 39 {
        pick7(i, 6, 26, 54, 82, 110, 138, 166)
    } else if v == 40 {
        pick7(i, 6, 30, 58, 86, 114, 142, 170)
    } else {
        0
    }
}

/// Looks an alignment pattern centre coordinate up.
pub fn alignment_center_lookup(v: usize, i: usize) -> (r: usize)
    ensures
        r == alignment_center(v as int, i as int),
{
    reveal(alignment_center);
    if v == 1 {
        take7(i, 0, 0, 0, 0, 0, 0, 0)
    } else if v == 2 {
        take7(i, 6, 18, 0, 0, 0, 0, 0)
    } else if v == 3 {
        take7(i, 6, 22, 0, 0, 0, 0, 0)
    } else if v == 4 {
        take7(i, 6, 26, 0, 0, 0, 0, 0)
    } else if v == 5 {
        take7(i, 6, 30, 0, 0, 0, 0, 0)
    } else if v == 6 {
        take7(i, 6, 34, 0, 0, 0, 0, 0)
    } else if v == 7 {
        take7(i, 6, 22, 38, 0, 0, 0, 0)
    } else if v == 8 {
        take7(i, 6, 24, 42, 0, 0, 0, 0)
    } else if v == 9 {
        take7(i, 6, 26, 46, 0, 0, 0, 0)
    } else if v == 10 {
        take7(i, 6, 28, 50, 0, 0, 0, 0)
    } else if v == 11 {
        take7(i, 6, 30, 54, 0, 0, 0, 0)
    } else if v == 12 {
        take7(i, 6, 32, 58, 0, 0, 0, 0)
    } else if v == 13 {
        take7(i, 6, 34, 62, 0, 0, 0, 0)
    } else if v == 14 {
        take7(i, 6, 26, 46, 66, 0, 0, 0)
    } else if v == 15 {
        take7(i, 6, 26, 48, 70, 0, 0, 0)
    } else if v == 16 {
        take7(i, 6, 26, 50, 74, 0, 0, 0)
    } else if v == 17 {
        take7(i, 6, 30, 54, 78, 0, 0, 0)
    } else if v == 18 {
        take7(i, 6, 30, 56, 82, 0, 0, 0)
    } else if v == 19 {
        take7(i, 6, 30, 58, 86, 0, 0, 0)
    } else if v == 20 {
        take7(i, 6, 34, 62, 90, 0, 0, 0)
    } else if v == 21 {
        take7(i, 6, 28, 50, 72, 94, 0, 0)
    } else if v == 22 {
        take7(i, 6, 26, 50, 74, 98, 0, 0)
    } else if v == 23 {
        take7(i, 6, 30, 54, 78, 102, 0, 0)
    } else if v == 24 {
        take7(i, 6, 28, 54, 80, 106, 0, 0)
    } else if v == 25 {
        take7(i, 6, 32, 58, 84, 110, 0, 0)
    } else if v == 26 {
        take7(i, 6, 30, 58, 86, 114, 0, 0)
    } else if v == 27 {
        take7(i, 6, 34, 62, 90, 118, 0, 0)
    } else if v == 28 {
        take7(i, 6, 26, 50, 74, 98, 122, 0)
    } else if v == 29 {
        take7(i, 6, 30, 54, 78, 102, 126, 0)
    } else if v == 30 {
        take7(i, 6, 26, 52, 78, 104, 130, 0)
    } else if v == 31 {
        take7(i, 6, 30, 56, 82, 108, 134, 0)
    } else if v == 32 {
        take7(i, 6, 34, 60, 86, 112, 138, 0)
    } else if v == 33 {
        take7(i, 6, 30, 58, 86, 114, 142, 0)
    } else if v == 34 {
        take7(i, 6, 34, 62, 90, 118, 146, 0)
    } else if v == 35 {
        take7(i, 6, 30, 54, 78, 102, 126, 150)
    } else if v == 36 {
        take7(i, 6, 24, 50, 76, 102, 128, 154)
    } else if v == 37 {
        take7(i, 6, 28, 54, 80, 106, 132, 158)
    } else if v == 38 {
        take7(i, 6, 32, 58, 84, 110, 136, 162)
    } else if v == 39 {
        take7(i, 6, 26, 54, 82, 110, 138, 166)
    } else if v == 40 {
        take7(i, 6, 30, 58, 86, 114, 142, 170)
    } else {
        0
    }
}

/// How many zero bits follow the interleaved codewords of version `v`.
#[verifier::opaque]
pub open spec fn remainder_bits(v: int) -> int {
    if v == 1 {
        0
    } else if v == 2 {
        7
    } else if v == 3 {
        7
    } else if v == 4 {
        7
    } else if v == 5 {
        7
    } else if v == 6 {
        7
    } else if v == 7 {
        0
    } else if v == 8 {
        0
    } else if v == 9 {
        0
    } else if v == 10 {
        0
    } else if v == 11 {
        0
    } else if v == 12 {
        0
    } else if v == 13 {
        0
    } else if v == 14 {
        3
    } else if v == 15 {
        3
    } else if v == 16 {
        3
    } else if v == 17 {
        3
    } else if v == 18 {
        3
    } else if v == 19 {
        3
    } else if v == 20 {
        3
    } else if v == 21 {
        4
    } else if v == 22 {
        4
    } else if v == 23 {
        4
    } else if v == 24 {
        4
    } else if v == 25 {
        4
    } else if v == 26 {
        4
    } else if v == 27 {
        4
    } else if v == 28 {
        3
    } else if v == 29 {
        3
    } else if v == 30 {
        3
    } else if v == 31 {
        3
    } else if v == 32 {
        3
    } else if v == 33 {
        3
    } else if v == 34 {
        3
    } else if v == 35 {
        0
    } else if v == 36 {
        0
    } else if v == 37 {
        0
    } else if v == 38 {
        0
    } else if v == 39 {
        0
    } else if v == 40 {
        0
    } else {
        0
    }
}

/// Looks the count of remainder bits up.
pub fn remainder_bits_lookup(v: usize) -> (r: usize)
    ensures
        r == remainder_bits(v as int),
{
    reveal(remainder_bits);
    if v == 1 {
        0
    } else if v == 2 {
        7
    } else if v == 3 {
        7
    } else if v == 4 {
        7
    } else if v == 5 {
        7
    } else if v == 6 {
        7
    } else if v == 7 {
        0
    } else if v == 8 {
        0
    } else if v == 9 {
        0
    } else if v == 10 {
        0
    } else if v == 11 {
        0
    } else if v == 12 {
        0
    } else if v == 13 {
        0
    } else if v == 14 {
        3
    } else if v == 15 {
        3
    } else if v == 16 {
        3
    } else if v == 17 {
        3
    } else if v == 18 {
        3
    } else if v == 19 {
        3
    } else if v == 20 {
        3
    } else if v == 21 {
        4
    } else if v == 22 {
        4
    } else if v == 23 {
        4
    } else if v == 24 {
        4
    } else if v == 25 {
        4
    } else if v == 26 {
        4
    } else if v == 27 {
        4
    } else if v == 28 {
        3
    } else if v == 29 {
        3
    } else if v == 30 {
        3
    } else if v == 31 {
        3
    } else if v == 32 {
        3
    } else if v == 33 {
        3
    } else if v == 34 {
        3
    } else if v == 35 {
        0
    } else if v == 36 {
        0
    } else if v == 37 {
        0
    } else if v == 38 {
        0
    } else if v == 39 {
        0
    } else if v == 40 {
        0
    } else {
        0
    }
}

/// The power `2^i` in GF(256) with the primitive polynomial 0x11D.
#[verifier::opaque]
pub open spec fn gf_exp(i: int) -> int {
    let row = i / 16;
    let col = i % 16;
    if row == 0 {
        pick16(col, 1, 2, 4, 8, 16, 32, 64, 128, 29, 58, 116, 232, 205, 135, 19, 38)
    } else if row == 1 {
        pick16(col, 76, 152, 45, 90, 180, 117, 234, 201, 143, 3, 6, 12, 24, 48, 96, 192)
    } else if row == 2 {
        pick16(col, 157, 39, 78, 156, 37, 74, 148, 53, 106, 212, 181, 119, 238, 193, 159, 35)
    } else if row == 3 {
        pick16(col, 70, 140, 5, 10, 20, 40, 80, 160, 93, 186, 105, 210, 185, 111, 222, 161)
    } else if row == 4 {
        pick16(col, 95, 190, 97, 194, 153, 47, 94, 188, 101, 202, 137, 15, 30, 60, 120, 240)
    } else if row == 5 {
        pick16(col, 253, 231, 211, 187, 107, 214, 177, 127, 254, 225, 223, 163, 91, 182, 113, 226)
    } else if row == 6 {
        pick16(col, 217, 175, 67, 134, 17, 34, 68, 136, 13, 26, 52, 104, 208, 189, 103, 206)
    } else if row == 7 {
        pick16(col, 129, 31, 62, 124, 248, 237, 199, 147, 59, 118, 236, 197, 151, 51, 102, 204)
    } else if row == 8 {
        pick16(col, 133, 23, 46, 92, 184, 109, 218, 169, 79, 158, 33, 66, 132, 21, 42, 84)
    } else if row == 9 {
        pick16(col, 168, 77, 154, 41, 82, 164, 85, 170, 73, 146, 57, 114, 228, 213, 183, 115)
    } else if row == 10 {
        pick16(col, 230, 209, 191, 99, 198, 145, 63, 126, 252, 229, 215, 179, 123, 246, 241, 255)
    } else if row == 11 {
        pick16(col, 227, 219, 171, 75, 150, 49, 98, 196, 149, 55, 110, 220, 165, 87, 174, 65)
    } else if row == 12 {
        pick16(col, 130, 25, 50, 100, 200, 141, 7, 14, 28, 56, 112, 224, 221, 167, 83, 166)
    } else if row == 13 {
        pick16(col, 81, 162, 89, 178, 121, 242, 249, 239, 195, 155, 43, 86, 172, 69, 138, 9)
    } else if row == 14 {
        pick16(col, 18, 36, 72, 144, 61, 122, 244, 245, 247, 243, 251, 235, 203, 139, 11, 22)
    } else if row == 15 {
        pick16(col, 44, 88, 176, 125, 250, 233, 207, 131, 27, 54, 108, 216, 173, 71, 142, 1)
    } else {
        0
    }
}

/// Looks a power of 2 in GF(256) up.
pub fn gf_exp_lookup(i: u8) -> (r: u8)
    ensures
        r == gf_exp(i as int),
{
    reveal(gf_exp);
    let row: usize = (i / 16) as usize;
    let col: usize = (i % 16) as usize;
    if row == 0 {
        take16(col, 1, 2, 4, 8, 16, 32, 64, 128, 29, 58, 116, 232, 205, 135, 19, 38)
    } else if row == 1 {
        take16(col, 76, 152, 45, 90, 180, 117, 234, 201, 143, 3, 6, 12, 24, 48, 96, 192)
    } else if row == 2 {
        take16(col, 157, 39, 78, 156, 37, 74, 148, 53, 106, 212, 181, 119, 238, 193, 159, 35)
    } else if row == 3 {
        take16(col, 70, 140, 5, 10, 20, 40, 80, 160, 93, 186, 105, 210, 185, 111, 222, 161)
    } else if row == 4 {
        take16(col, 95, 190, 97, 194, 153, 47, 94, 188, 101, 202, 137, 15, 30, 60, 120, 240)
    } else if row == 5 {
        take16(col, 253, 231, 211, 187, 107, 214, 177, 127, 254, 225, 223, 163, 91, 182, 113, 226)
    } else if row == 6 {
        take16(col, 217, 175, 67, 134, 17, 34, 68, 136, 13, 26, 52, 104, 208, 189, 103, 206)
    } else if row == 7 {
        take16(col, 129, 31, 62, 124, 248, 237, 199, 147, 59, 118, 236, 197, 151, 51, 102, 204)
    } else if row == 8 {
        take16(col, 133, 23, 46, 92, 184, 109, 218, 169, 79, 158, 33, 66, 132, 21, 42, 84)
    } else if row == 9 {
        take16(col, 168, 77, 154, 41, 82, 164, 85, 170, 73, 146, 57, 114, 228, 213, 183, 115)
    } else if row == 10 {
        take16(col, 230, 209, 191, 99, 198, 145, 63, 126, 252, 229, 215, 179, 123, 246, 241, 255)
    } else if row == 11 {
        take16(col, 227, 219, 171, 75, 150, 49, 98, 196, 149, 55, 110, 220, 165, 87, 174, 65)
    } else if row == 12 {
        take16(col, 130, 25, 50, 100, 200, 141, 7, 14, 28, 56, 112, 224, 221, 167, 83, 166)
    } else if row == 13 {
        take16(col, 81, 162, 89, 178, 121, 242, 249, 239, 195, 155, 43, 86, 172, 69, 138, 9)
    } else if row == 14 {
        take16(col, 18, 36, 72, 144, 61, 122, 244, 245, 247, 243, 251, 235, 203, 139, 11, 22)
    } else if row == 15 {
        take16(col, 44, 88, 176, 125, 250, 233, 207, 131, 27, 54, 108, 216, 173, 71, 142, 1)
    } else {
        0
    }
}

/// The logarithm to base 2 in GF(256): the `i` with `2^i == v`. For 0, which
/// has no logarithm, the table holds 255.
#[verifier::opaque]
pub open spec fn gf_log(v: int) -> int {
    let row = v / 16;
    let col = v % 16;
    if row == 0 {
        pick16(col, 255, 0, 1, 25, 2, 50, 26, 198, 3, 223, 51, 238, 27, 104, 199, 75)
    } else if row == 1 {
        pick16(col, 4, 100, 224, 14, 52, 141, 239, 129, 28, 193, 105, 248, 200, 8, 76, 113)
    } else if row == 2 {
        pick16(col, 5, 138, 101, 47, 225, 36, 15, 33, 53, 147, 142, 218, 240, 18, 130, 69)
    } else if row == 3 {
        pick16(col, 29, 181, 194, 125, 106, 39, 249, 185, 201, 154, 9, 120, 77, 228, 114, 166)
    } else if row == 4 {
        pick16(col, 6, 191, 139, 98, 102, 221, 48, 253, 226, 152, 37, 179, 16, 145, 34, 136)
    } else if row == 5 {
        pick16(col, 54, 208, 148, 206, 143, 150, 219, 189, 241, 210, 19, 92, 131, 56, 70, 64)
    } else if row == 6 {
        pick16(col, 30, 66, 182, 163, 195, 72, 126, 110, 107, 58, 40, 84, 250, 133, 186, 61)
    } else if row == 7 {
        pick16(col, 202, 94, 155, 159, 10, 21, 121, 43, 78, 212, 229, 172, 115, 243, 167, 87)
    } else if row == 8 {
        pick16(col, 7, 112, 192, 247, 140, 128, 99, 13, 103, 74, 222, 237, 49, 197, 254, 24)
    } else if row == 9 {
        pick16(col, 227, 165, 153, 119, 38, 184, 180, 124, 17, 68, 146, 217, 35, 32, 137, 46)
    } else if row == 10 {
        pick16(col, 55, 63, 209, 91, 149, 188, 207, 205, 144, 135, 151, 178, 220, 252, 190, 97)
    } else if row == 11 {
        pick16(col, 242, 86, 211, 171, 20, 42, 93, 158, 132, 60, 57, 83, 71, 109, 65, 162)
    } else if row == 12 {
        pick16(col, 31, 45, 67, 216, 183, 123, 164, 118, 196, 23, 73, 236, 127, 12, 111, 246)
    } else if row == 13 {
        pick16(col, 108, 161, 59, 82, 41, 157, 85, 170, 251, 96, 134, 177, 187, 204, 62, 90)
    } else if row == 14 {
        pick16(col, 203, 89, 95, 176, 156, 169, 160, 81, 11, 245, 22, 235, 122, 117, 44, 215)
    } else if row == 15 {
        pick16(col, 79, 174, 213, 233, 230, 231, 173, 232, 116, 214, 244, 234, 168, 80, 88, 175)
    } else {
        0
    }
}

/// Looks a logarithm in GF(256) up.
pub fn gf_log_lookup(v: u8) -> (r: u8)
    ensures
        r == gf_log(v as int),
{
    reveal(gf_log);
    let row: usize = (v / 16) as usize;
    let col: usize = (v % 16) as usize;
    if row == 0 {
        take16(col, 255, 0, 1, 25, 2, 50, 26, 198, 3, 223, 51, 238, 27, 104, 199, 75)
    } else if row == 1 {
        take16(col, 4, 100, 224, 14, 52, 141, 239, 129, 28, 193, 105, 248, 200, 8, 76, 113)
    } else if row == 2 {
        take16(col, 5, 138, 101, 47, 225, 36, 15, 33, 53, 147, 142, 218, 240, 18, 130, 69)
    } else if row == 3 {
        take16(col, 29, 181, 194, 125, 106, 39, 249, 185, 201, 154, 9, 120, 77, 228, 114, 166)
    } else if row == 4 {
        take16(col, 6, 191, 139, 98, 102, 221, 48, 253, 226, 152, 37, 179, 16, 145, 34, 136)
    } else if row == 5 {
        take16(col, 54, 208, 148, 206, 143, 150, 219, 189, 241, 210, 19, 92, 131, 56, 70, 64)
    } else if row == 6 {
        take16(col, 30, 66, 182, 163, 195, 72, 126, 110, 107, 58, 40, 84, 250, 133, 186, 61)
    } else if row == 7 {
        take16(col, 202, 94, 155, 159, 10, 21, 121, 43, 78, 212, 229, 172, 115, 243, 167, 87)
    } else if row == 8 {
        take16(col, 7, 112, 192, 247, 140, 128, 99, 13, 103, 74, 222, 237, 49, 197, 254, 24)
    } else if row == 9 {
        take16(col, 227, 165, 153, 119, 38, 184, 180, 124, 17, 68, 146, 217, 35, 32, 137, 46)
    } else if row == 10 {
        take16(col, 55, 63, 209, 91, 149, 188, 207, 205, 144, 135, 151, 178, 220, 252, 190, 97)
    } else if row == 11 {
        take16(col, 242, 86, 211, 171, 20, 42, 93, 158, 132, 60, 57, 83, 71, 109, 65, 162)
    } else if row == 12 {
        take16(col, 31, 45, 67, 216, 183, 123, 164, 118, 196, 23, 73, 236, 127, 12, 111, 246)
    } else if row == 13 {
        take16(col, 108, 161, 59, 82, 41, 157, 85, 170, 251, 96, 134, 177, 187, 204, 62, 90)
    } else if row == 14 {
        take16(col, 203, 89, 95, 176, 156, 169, 160, 81, 11, 245, 22, 235, 122, 117, 44, 215)
    } else if row == 15 {
        take16(col, 79, 174, 213, 233, 230, 231, 173, 232, 116, 214, 244, 234, 168, 80, 88, 175)
    } else {
        0
    }
}

/// Capacities are positive, grow with the version and never exceed 7089.
pub proof fn lemma_capacity_grows(v: int, e: ECLevel, mode: Mode)
    requires
        1 <= v < 40,
    ensures
        0 < capacity_of(v, e, mode) < capacity_of(v + 1, e, mode) <= 7089,
{
    reveal(capacity_of);
}

/// Every block layout has a first group, blocks of at least nine and at most
/// 123 codewords, at most 81 blocks, between 7 and 30 error correction
/// codewords per block, and a second group, where there is one, whose blocks
/// are one codeword longer than those of the first. A symbol holds at most
/// 2956 data codewords, up to version 9 at most 232 and up to version 26 at
/// most 1370.
pub proof fn lemma_block_layout(v: int, e: ECLevel)
    requires
        1 <= v <= 40,
    ensures
        7 <= block_field(v, e, 0) <= 30,
        1 <= block_field(v, e, 1),
        9 <= block_field(v, e, 2) <= 122,
        0 <= block_field(v, e, 3),
        block_field(v, e, 1) + block_field(v, e, 3) <= 81,
        block_field(v, e, 3) > 0 ==> block_field(v, e, 4) == block_field(v, e, 2) + 1,
        block_field(v, e, 3) == 0 ==> block_field(v, e, 4) == 0,
        block_field(v, e, 1) * block_field(v, e, 2) + block_field(v, e, 3) * block_field(v, e, 4)
            <= 2956,
        v <= 9 ==> block_field(v, e, 1) * block_field(v, e, 2) + block_field(v, e, 3)
            * block_field(v, e, 4) <= 232,
        v <= 26 ==> block_field(v, e, 1) * block_field(v, e, 2) + block_field(v, e, 3)
            * block_field(v, e, 4) <= 1370,
{
    reveal(block_field);
    let a = block_field(v, e, 1);
    let b = block_field(v, e, 2);
    let c = block_field(v, e, 3);
    let d = block_field(v, e, 4);
    if v == 1 {
        match e {
            ECLevel::L => {
                assert(a * b + c * d == 19) by (nonlinear_arith)
                    requires
                        a == 1,
                        b == 19,
                        c == 0,
                        d == 0,
                ;
            },
            ECLevel::M => {
                assert(a * b + c * d == 16) by (nonlinear_arith)
                    requires
                        a == 1,
                        b == 16,
                        c == 0,
                        d == 0,
                ;
            },
            ECLevel::Q => {
                assert(a * b + c * d == 13) by (nonlinear_arith)
                    requires
                        a == 1,
                        b == 13,
                        c == 0,
                        d == 0,
                ;
            },
            ECLevel::H => {
                assert(a * b + c * d == 9) by (nonlinear_arith)
                    requires
                        a == 1,
                        b == 9,
                        c == 0,
                        d == 0,
                ;
            },
        }
    } else if v == 2 {
        match e {
            ECLevel::L => {
                assert(a * b + c * d == 34) by (nonlinear_arith)
                    requires
                        a == 1,
                        b == 34,
                        c == 0,
                        d == 0,
                ;
            },
            ECLevel::M => {
                assert(a * b + c * d == 28) by (nonlinear_arith)
                    requires
                        a == 1,
                        b == 28,
                        c == 0,
                        d == 0,
                ;
            },
            ECLevel::Q => {
                assert(a * b + c * d == 22) by (nonlinear_arith)
                    requires
                        a == 1,
                        b == 22,
                        c == 0,
                        d == 0,
                ;
            },
            ECLevel::H => {
                assert(a * b + c * d == 16) by (nonlinear_arith)
                    requires
                        a == 1,
                        b == 16,
                        c == 0,
                        d == 0,
                ;
            },
        }
    } else if v == 3 {
        match e {
            ECLevel::L => {
                assert(a * b + c * d == 55) by (nonlinear_arith)
                    requires
                        a == 1,
                        b == 55,
                        c == 0,
                        d == 0,
                ;
            },
            ECLevel::M => {
                assert(a * b + c * d == 44) by (nonlinear_arith)
                    requires
                        a == 1,
                        b == 44,
                        c == 0,
                        d == 0,
                ;
            },
            ECLevel::Q => {
                assert(a * b + c * d == 34) by (nonlinear_arith)
                    requires
                        a == 2,
                        b == 17,
                        c == 0,
                        d == 0,
                ;
            },
            ECLevel::H => {
                assert(a * b + c * d == 26) by (nonlinear_arith)
                    requires
                        a == 2,
                        b == 13,
                        c == 0,
                        d == 0,
                ;
            },
        }
    } else if v == 4 {
        match e {
            ECLevel::L => {
                assert(a * b + c * d == 80) by (nonlinear_arith)
                    requires
                        a == 1,
                        b == 80,
                        c == 0,
                        d == 0,
                ;
            },
            ECLevel::M => {
                assert(a * b + c * d == 64) by (nonlinear_arith)
                    requires
                        a == 2,
                        b == 32,
                        c == 0,
                        d == 0,
                ;
            },
            ECLevel::Q => {
                assert(a * b + c * d == 48) by (nonlinear_arith)
                    requires
                        a == 2,
                        b == 24,
                        c == 0,
                        d == 0,
                ;
            },
            ECLevel::H => {
                assert(a * b + c * d == 36) by (nonlinear_arith)
                    requires
                        a == 4,
                        b == 9,
                        c == 0,
                        d == 0,
                ;
            },
        }
    } else if v == 5 {
        match e {
            ECLevel::L => {
                assert(a * b + c * d == 108) by (nonlinear_arith)
                    requires
                        a == 1,
                        b == 108,
                        c == 0,
                        d == 0,
                ;
            },
            ECLevel::M => {
                assert(a * b + c * d == 86) by (nonlinear_arith)
                    requires
                        a == 2,
                        b == 43,
                        c == 0,
                        d == 0,
                ;
            },
            ECLevel::Q => {
                assert(a * b + c * d == 62) by (nonlinear_arith)
                    requires
                        a == 2,
                        b == 15,
                        c == 2,
                        d == 16,
                ;
            },
            ECLevel::H => {
                assert(a * b + c * d == 46) by (nonlinear_arith)
                    requires
                        a == 2,
                        b == 11,
                        c == 2,
                        d == 12,
                ;
            },
        }
    } else if v == 6 {
        match e {
            ECLevel::L => {
                assert(a * b + c * d == 136) by (nonlinear_arith)
                    requires
                        a == 2,
                        b == 68,
                        c == 0,
                        d == 0,
                ;
            },
            ECLevel::M => {
                assert(a * b + c * d == 108) by (nonlinear_arith)
                    requires
                        a == 4,
                        b == 27,
                        c == 0,
                        d == 0,
                ;
            },
            ECLevel::Q => {
                assert(a * b + c * d == 76) by (nonlinear_arith)
                    requires
                        a == 4,
                        b == 19,
                        c == 0,
                        d == 0,
                ;
            },
            ECLevel::H => {
                assert(a * b + c * d == 60) by (nonlinear_arith)
                    requires
                        a == 4,
                        b == 15,
                        c == 0,
                        d == 0,
                ;
            },
        }
    } else if v == 7 {
        match e {
            ECLevel::L => {
                assert(a * b + c * d == 156) by (nonlinear_arith)
                    requires
                        a == 2,
                        b == 78,
                        c == 0,
                        d == 0,
                ;
            },
            ECLevel::M => {
                assert(a * b + c * d == 124) by (nonlinear_arith)
                    requires
                        a == 4,
                        b == 31,
                        c == 0,
                        d == 0,
                ;
            },
            ECLevel::Q => {
                assert(a * b + c * d == 88) by (nonlinear_arith)
                    requires
                        a == 2,
                        b == 14,
                        c == 4,
                        d == 15,
                ;
            },
            ECLevel::H => {
                assert(a * b + c * d == 66) by (nonlinear_arith)
                    requires
                        a == 4,
                        b == 13,
                        c == 1,
                        d == 14,
                ;
            },
        }
    } else if v == 8 {
        match e {
            ECLevel::L => {
                assert(a * b + c * d == 194) by (nonlinear_arith)
                    requires
                        a == 2,
                        b == 97,
                        c == 0,
                        d == 0,
                ;
            },
            ECLevel::M => {
                assert(a * b + c * d == 154) by (nonlinear_arith)
                    requires
                        a == 2,
                        b == 38,
                        c == 2,
                        d == 39,
                ;
            },
            ECLevel::Q => {
                assert(a * b + c * d == 110) by (nonlinear_arith)
                    requires
                        a == 4,
                        b == 18,
                        c == 2,
                        d == 19,
                ;
            },
            ECLevel::H => {
                assert(a * b + c * d == 86) by (nonlinear_arith)
                    requires
                        a == 4,
                        b == 14,
                        c == 2,
                        d == 15,
                ;
            },
        }
    } else if v == 9 {
        match e {
            ECLevel::L => {
                assert(a * b + c * d == 232) by (nonlinear_arith)
                    requires
                        a == 2,
                        b == 116,
                        c == 0,
                        d == 0,
                ;
            },
            ECLevel::M => {
                assert(a * b + c * d == 182) by (nonlinear_arith)
                    requires
                        a == 3,
                        b == 36,
                        c == 2,
                        d == 37,
                ;
            },
            ECLevel::Q => {
                assert(a * b + c * d == 132) by (nonlinear_arith)
                    requires
                        a == 4,
                        b == 16,
                        c == 4,
                        d == 17,
                ;
            },
            ECLevel::H => {
                assert(a * b + c * d == 100) by (nonlinear_arith)
                    requires
                        a == 4,
                        b == 12,
                        c == 4,
                        d == 13,
                ;
            },
        }
    } else if v == 10 {
        match e {
            ECLevel::L => {
                assert(a * b + c * d == 274) by (nonlinear_arith)
                    requires
                        a == 2,
                        b == 68,
                        c == 2,
                        d == 69,
                ;
            },
            ECLevel::M => {
                assert(a * b + c * d == 216) by (nonlinear_arith)
                    requires
                        a == 4,
                        b == 43,
                        c == 1,
                        d == 44,
                ;
            },
            ECLevel::Q => {
                assert(a * b + c * d == 154) by (nonlinear_arith)
                    requires
                        a == 6,
                        b == 19,
                        c == 2,
                        d == 20,
                ;
            },
            ECLevel::H => {
                assert(a * b + c * d == 122) by (nonlinear_arith)
                    requires
                        a == 6,
                        b == 15,
                        c == 2,
                        d == 16,
                ;
            },
        }
    } else if v == 11 {
        match e {
            ECLevel::L => {
                assert(a * b + c * d == 324) by (nonlinear_arith)
                    requires
                        a == 4,
                        b == 81,
                        c == 0,
                        d == 0,
                ;
            },
            ECLevel::M => {
                assert(a * b + c * d == 254) by (nonlinear_arith)
                    requires
                        a == 1,
                        b == 50,
                        c == 4,
                        d == 51,
                ;
            },
            ECLevel::Q => {
                assert(a * b + c * d == 180) by (nonlinear_arith)
                    requires
                        a == 4,
                        b == 22,
                        c == 4,
                        d == 23,
                ;
            },
            ECLevel::H => {
                assert(a * b + c * d == 140) by (nonlinear_arith)
                    requires
                        a == 3,
                        b == 12,
                        c == 8,
                        d == 13,
                ;
            },
        }
    } else if v == 12 {
        match e {
            ECLevel::L => {
                assert(a * b + c * d == 370) by (nonlinear_arith)
                    requires
                        a == 2,
                        b == 92,
                        c == 2,
                        d == 93,
                ;
            },
            ECLevel::M => {
                assert(a * b + c * d == 290) by (nonlinear_arith)
                    requires
                        a == 6,
                        b == 36,
                        c == 2,
                        d == 37,
                ;
            },
            ECLevel::Q => {
                assert(a * b + c * d == 206) by (nonlinear_arith)
                    requires
                        a == 4,
                        b == 20,
                        c == 6,
                        d == 21,
                ;
            },
            ECLevel::H => {
                assert(a * b + c * d == 158) by (nonlinear_arith)
                    requires
                        a == 7,
                        b == 14,
                        c == 4,
                        d == 15,
                ;
            },
        }
    } else if v == 13 {
        match e {
            ECLevel::L => {
                assert(a * b + c * d == 428) by (nonlinear_arith)
                    requires
                        a == 4,
                        b == 107,
                        c == 0,
                        d == 0,
                ;
            },
            ECLevel::M => {
                assert(a * b + c * d == 334) by (nonlinear_arith)
                    requires
                        a == 8,
                        b == 37,
                        c == 1,
                        d == 38,
                ;
            },
            ECLevel::Q => {
                assert(a * b + c * d == 244) by (nonlinear_arith)
                    requires
                        a == 8,
                        b == 20,
                        c == 4,
                        d == 21,
                ;
            },
            ECLevel::H => {
                assert(a * b + c * d == 180) by (nonlinear_arith)
                    requires
                        a == 12,
                        b == 11,
                        c == 4,
                        d == 12,
                ;
            },
        }
    } else if v == 14 {
        match e {
            ECLevel::L => {
                assert(a * b + c * d == 461) by (nonlinear_arith)
                    requires
                        a == 3,
                        b == 115,
                        c == 1,
                        d == 116,
                ;
            },
            ECLevel::M => {
                assert(a * b + c * d == 365) by (nonlinear_arith)
                    requires
                        a == 4,
                        b == 40,
                        c == 5,
                        d == 41,
                ;
            },
            ECLevel::Q => {
                assert(a * b + c * d == 261) by (nonlinear_arith)
                    requires
                        a == 11,
                        b == 16,
                        c == 5,
                        d == 17,
                ;
            },
            ECLevel::H => {
                assert(a * b + c * d == 197) by (nonlinear_arith)
                    requires
                        a == 11,
                        b == 12,
                        c == 5,
                        d == 13,
                ;
            },
        }
    } else if v == 15 {
        match e {
            ECLevel::L => {
                assert(a * b + c * d == 523) by (nonlinear_arith)
                    requires
                        a == 5,
                        b == 87,
                        c == 1,
                        d == 88,
                ;
            },
            ECLevel::M => {
                assert(a * b + c * d == 415) by (nonlinear_arith)
                    requires
                        a == 5,
                        b == 41,
                        c == 5,
                        d == 42,
                ;
            },
            ECLevel::Q => {
                assert(a * b + c * d == 295) by (nonlinear_arith)
                    requires
                        a == 5,
                        b == 24,
                        c == 7,
                        d == 25,
                ;
            },
            ECLevel::H => {
                assert(a * b + c * d == 223) by (nonlinear_arith)
                    requires
                        a == 11,
                        b == 12,
                        c == 7,
                        d == 13,
                ;
            },
        }
    } else if v == 16 {
        match e {
            ECLevel::L => {
                assert(a * b + c * d == 589) by (nonlinear_arith)
                    requires
                        a == 5,
                        b == 98,
                        c == 1,
                        d == 99,
                ;
            },
            ECLevel::M => {
                assert(a * b + c * d == 453) by (nonlinear_arith)
                    requires
                        a == 7,
                        b == 45,
                        c == 3,
                        d == 46,
                ;
            },
            ECLevel::Q => {
                assert(a * b + c * d == 325) by (nonlinear_arith)
                    requires
                        a == 15,
                        b == 19,
                        c == 2,
                        d == 20,
                ;
            },
            ECLevel::H => {
                assert(a * b + c * d == 253) by (nonlinear_arith)
                    requires
                        a == 3,
                        b == 15,
                        c == 13,
                        d == 16,
                ;
            },
        }
    } else if v == 17 {
        match e {
            ECLevel::L => {
                assert(a * b + c * d == 647) by (nonlinear_arith)
                    requires
                        a == 1,
                        b == 107,
                        c == 5,
                        d == 108,
                ;
            },
            ECLevel::M => {
                assert(a * b + c * d == 507) by (nonlinear_arith)
                    requires
                        a == 10,
                        b == 46,
                        c == 1,
                        d == 47,
                ;
            },
            ECLevel::Q => {
                assert(a * b + c * d == 367) by (nonlinear_arith)
                    requires
                        a == 1,
                        b == 22,
                        c == 15,
                        d == 23,
                ;
            },
            ECLevel::H => {
                assert(a * b + c * d == 283) by (nonlinear_arith)
                    requires
                        a == 2,
                        b == 14,
                        c == 17,
                        d == 15,
                ;
            },
        }
    } else if v == 18 {
        match e {
            ECLevel::L => {
                assert(a * b + c * d == 721) by (nonlinear_arith)
                    requires
                        a == 5,
                        b == 120,
                        c == 1,
                        d == 121,
                ;
            },
            ECLevel::M => {
                assert(a * b + c * d == 563) by (nonlinear_arith)
                    requires
                        a == 9,
                        b == 43,
                        c == 4,
                        d == 44,
                ;
            },
            ECLevel::Q => {
                assert(a * b + c * d == 397) by (nonlinear_arith)
                    requires
                        a == 17,
                        b == 22,
                        c == 1,
                        d == 23,
                ;
            },
            ECLevel::H => {
                assert(a * b + c * d == 313) by (nonlinear_arith)
                    requires
                        a == 2,
                        b == 14,
                        c == 19,
                        d == 15,
                ;
            },
        }
    } else if v == 19 {
        match e {
            ECLevel::L => {
                assert(a * b + c * d == 795) by (nonlinear_arith)
                    requires
                        a == 3,
                        b == 113,
                        c == 4,
                        d == 114,
                ;
            },
            ECLevel::M => {
                assert(a * b + c * d == 627) by (nonlinear_arith)
                    requires
                        a == 3,
                        b == 44,
                        c == 11,
                        d == 45,
                ;
            },
            ECLevel::Q => {
                assert(a * b + c * d == 445) by (nonlinear_arith)
                    requires
                        a == 17,
                        b == 21,
                        c == 4,
                        d == 22,
                ;
            },
            ECLevel::H => {
                assert(a * b + c * d == 341) by (nonlinear_arith)
                    requires
                        a == 9,
                        b == 13,
                        c == 16,
                        d == 14,
                ;
            },
        }
    } else if v == 20 {
        match e {
            ECLevel::L => {
                assert(a * b + c * d == 861) by (nonlinear_arith)
                    requires
                        a == 3,
                        b == 107,
                        c == 5,
                        d == 108,
                ;
            },
            ECLevel::M => {
                assert(a * b + c * d == 669) by (nonlinear_arith)
                    requires
                        a == 3,
                        b == 41,
                        c == 13,
                        d == 42,
                ;
            },
            ECLevel::Q => {
                assert(a * b + c * d == 485) by (nonlinear_arith)
                    requires
                        a == 15,
                        b == 24,
                        c == 5,
                        d == 25,
                ;
            },
            ECLevel::H => {
                assert(a * b + c * d == 385) by (nonlinear_arith)
                    requires
                        a == 15,
                        b == 15,
                        c == 10,
                        d == 16,
                ;
            },
        }
    } else if v == 21 {
        match e {
            ECLevel::L => {
                assert(a * b + c * d == 932) by (nonlinear_arith)
                    requires
                        a == 4,
                        b == 116,
                        c == 4,
                        d == 117,
                ;
            },
            ECLevel::M => {
                assert(a * b + c * d == 714) by (nonlinear_arith)
                    requires
                        a == 17,
                        b == 42,
                        c == 0,
                        d == 0,
                ;
            },
            ECLevel::Q => {
                assert(a * b + c * d == 512) by (nonlinear_arith)
                    requires
                        a == 17,
                        b == 22,
                        c == 6,
                        d == 23,
                ;
            },
            ECLevel::H => {
                assert(a * b + c * d == 406) by (nonlinear_arith)
                    requires
                        a == 19,
                        b == 16,
                        c == 6,
                        d == 17,
                ;
            },
        }
    } else if v == 22 {
        match e {
            ECLevel::L => {
                assert(a * b + c * d == 1006) by (nonlinear_arith)
                    requires
                        a == 2,
                        b == 111,
                        c == 7,
                        d == 112,
                ;
            },
            ECLevel::M => {
                assert(a * b + c * d == 782) by (nonlinear_arith)
                    requires
                        a == 17,
                        b == 46,
                        c == 0,
                        d == 0,
                ;
            },
            ECLevel::Q => {
                assert(a * b + c * d == 568) by (nonlinear_arith)
                    requires
                        a == 7,
                        b == 24,
                        c == 16,
                        d == 25,
                ;
            },
            ECLevel::H => {
                assert(a * b + c * d == 442) by (nonlinear_arith)
                    requires
                        a == 34,
                        b == 13,
                        c == 0,
                        d == 0,
                ;
            },
        }
    } else if v == 23 {
        match e {
            ECLevel::L => {
                assert(a * b + c * d == 1094) by (nonlinear_arith)
                    requires
                        a == 4,
                        b == 121,
                        c == 5,
                        d == 122,
                ;
            },
            ECLevel::M => {
                assert(a * b + c * d == 860) by (nonlinear_arith)
                    requires
                        a == 4,
                        b == 47,
                        c == 14,
                        d == 48,
                ;
            },
            ECLevel::Q => {
                assert(a * b + c * d == 614) by (nonlinear_arith)
                    requires
                        a == 11,
                        b == 24,
                        c == 14,
                        d == 25,
                ;
            },
            ECLevel::H => {
                assert(a * b + c * d == 464) by (nonlinear_arith)
                    requires
                        a == 16,
                        b == 15,
                        c == 14,
                        d == 16,
                ;
            },
        }
    } else if v == 24 {
        match e {
            ECLevel::L => {
                assert(a * b + c * d == 1174) by (nonlinear_arith)
                    requires
                        a == 6,
                        b == 117,
                        c == 4,
                        d == 118,
                ;
            },
            ECLevel::M => {
                assert(a * b + c * d == 914) by (nonlinear_arith)
                    requires
                        a == 6,
                        b == 45,
                        c == 14,
                        d == 46,
                ;
            },
            ECLevel::Q => {
                assert(a * b + c * d == 664) by (nonlinear_arith)
                    requires
                        a == 11,
                        b == 24,
                        c == 16,
                        d == 25,
                ;
            },
            ECLevel::H => {
                assert(a * b + c * d == 514) by (nonlinear_arith)
                    requires
                        a == 30,
                        b == 16,
                        c == 2,
                        d == 17,
                ;
            },
        }
    } else if v == 25 {
        match e {
            ECLevel::L => {
                assert(a * b + c * d == 1276) by (nonlinear_arith)
                    requires
                        a == 8,
                        b == 106,
                        c == 4,
                        d == 107,
                ;
            },
            ECLevel::M => {
                assert(a * b + c * d == 1000) by (nonlinear_arith)
                    requires
                        a == 8,
                        b == 47,
                        c == 13,
                        d == 48,
                ;
            },
            ECLevel::Q => {
                assert(a * b + c * d == 718) by (nonlinear_arith)
                    requires
                        a == 7,
                        b == 24,
                        c == 22,
                        d == 25,
                ;
            },
            ECLevel::H => {
                assert(a * b + c * d == 538) by (nonlinear_arith)
                    requires
                        a == 22,
                        b == 15,
                        c == 13,
                        d == 16,
                ;
            },
        }
    } else if v == 26 {
        match e {
            ECLevel::L => {
                assert(a * b + c * d == 1370) by (nonlinear_arith)
                    requires
                        a == 10,
                        b == 114,
                        c == 2,
                        d == 115,
                ;
            },
            ECLevel::M => {
                assert(a * b + c * d == 1062) by (nonlinear_arith)
                    requires
                        a == 19,
                        b == 46,
                        c == 4,
                        d == 47,
                ;
            },
            ECLevel::Q => {
                assert(a * b + c * d == 754) by (nonlinear_arith)
                    requires
                        a == 28,
                        b == 22,
                        c == 6,
                        d == 23,
                ;
            },
            ECLevel::H => {
                assert(a * b + c * d == 596) by (nonlinear_arith)
                    requires
                        a == 33,
                        b == 16,
                        c == 4,
                        d == 17,
                ;
            },
        }
    } else if v == 27 {
        match e {
            ECLevel::L => {
                assert(a * b + c * d == 1468) by (nonlinear_arith)
                    requires
                        a == 8,
                        b == 122,
                        c == 4,
                        d == 123,
                ;
            },
            ECLevel::M => {
                assert(a * b + c * d == 1128) by (nonlinear_arith)
                    requires
                        a == 22,
                        b == 45,
                        c == 3,
                        d == 46,
                ;
            },
            ECLevel::Q => {
                assert(a * b + c * d == 808) by (nonlinear_arith)
                    requires
                        a == 8,
                        b == 23,
                        c == 26,
                        d == 24,
                ;
            },
            ECLevel::H => {
                assert(a * b + c * d == 628) by (nonlinear_arith)
                    requires
                        a == 12,
                        b == 15,
                        c == 28,
                        d == 16,
                ;
            },
        }
    } else if v == 28 {
        match e {
            ECLevel::L => {
                assert(a * b + c * d == 1531) by (nonlinear_arith)
                    requires
                        a == 3,
                        b == 117,
                        c == 10,
                        d == 118,
                ;
            },
            ECLevel::M => {
                assert(a * b + c * d == 1193) by (nonlinear_arith)
                    requires
                        a == 3,
                        b == 45,
                        c == 23,
                        d == 46,
                ;
            },
            ECLevel::Q => {
                assert(a * b + c * d == 871) by (nonlinear_arith)
                    requires
                        a == 4,
                        b == 24,
                        c == 31,
                        d == 25,
                ;
            },
            ECLevel::H => {
                assert(a * b + c * d == 661) by (nonlinear_arith)
                    requires
                        a == 11,
                        b == 15,
                        c == 31,
                        d == 16,
                ;
            },
        }
    } else if v == 29 {
        match e {
            ECLevel::L => {
                assert(a * b + c * d == 1631) by (nonlinear_arith)
                    requires
                        a == 7,
                        b == 116,
                        c == 7,
                        d == 117,
                ;
            },
            ECLevel::M => {
                assert(a * b + c * d == 1267) by (nonlinear_arith)
                    requires
                        a == 21,
                        b == 45,
                        c == 7,
                        d == 46,
                ;
            },
            ECLevel::Q => {
                assert(a * b + c * d == 911) by (nonlinear_arith)
                    requires
                        a == 1,
                        b == 23,
                        c == 37,
                        d == 24,
                ;
            },
            ECLevel::H => {
                assert(a * b + c * d == 701) by (nonlinear_arith)
                    requires
                        a == 19,
                        b == 15,
                        c == 26,
                        d == 16,
                ;
            },
        }
    } else if v == 30 {
        match e {
            ECLevel::L => {
                assert(a * b + c * d == 1735) by (nonlinear_arith)
                    requires
                        a == 5,
                        b == 115,
                        c == 10,
                        d == 116,
                ;
            },
            ECLevel::M => {
                assert(a * b + c * d == 1373) by (nonlinear_arith)
                    requires
                        a == 19,
                        b == 47,
                        c == 10,
                        d == 48,
                ;
            },
            ECLevel::Q => {
                assert(a * b + c * d == 985) by (nonlinear_arith)
                    requires
                        a == 15,
                        b == 24,
                        c == 25,
                        d == 25,
                ;
            },
            ECLevel::H => {
                assert(a * b + c * d == 745) by (nonlinear_arith)
                    requires
                        a == 23,
                        b == 15,
                        c == 25,
                        d == 16,
                ;
            },
        }
    } else if v == 31 {
        match e {
            ECLevel::L => {
                assert(a * b + c * d == 1843) by (nonlinear_arith)
                    requires
                        a == 13,
                        b == 115,
                        c == 3,
                        d == 116,
                ;
            },
            ECLevel::M => {
                assert(a * b + c * d == 1455) by (nonlinear_arith)
                    requires
                        a == 2,
                        b == 46,
                        c == 29,
                        d == 47,
                ;
            },
            ECLevel::Q => {
                assert(a * b + c * d == 1033) by (nonlinear_arith)
                    requires
                        a == 42,
                        b == 24,
                        c == 1,
                        d == 25,
                ;
            },
            ECLevel::H => {
                assert(a * b + c * d == 793) by (nonlinear_arith)
                    requires
                        a == 23,
                        b == 15,
                        c == 28,
                        d == 16,
                ;
            },
        }
    } else if v == 32 {
        match e {
            ECLevel::L => {
                assert(a * b + c * d == 1955) by (nonlinear_arith)
                    requires
                        a == 17,
                        b == 115,
                        c == 0,
                        d == 0,
                ;
            },
            ECLevel::M => {
                assert(a * b + c * d == 1541) by (nonlinear_arith)
                    requires
                        a == 10,
                        b == 46,
                        c == 23,
                        d == 47,
                ;
            },
            ECLevel::Q => {
                assert(a * b + c * d == 1115) by (nonlinear_arith)
                    requires
                        a == 10,
                        b == 24,
                        c == 35,
                        d == 25,
                ;
            },
            ECLevel::H => {
                assert(a * b + c * d == 845) by (nonlinear_arith)
                    requires
                        a == 19,
                        b == 15,
                        c == 35,
                        d == 16,
                ;
            },
        }
    } else if v == 33 {
        match e {
            ECLevel::L => {
                assert(a * b + c * d == 2071) by (nonlinear_arith)
                    requires
                        a == 17,
                        b == 115,
                        c == 1,
                        d == 116,
                ;
            },
            ECLevel::M => {
                assert(a * b + c * d == 1631) by (nonlinear_arith)
                    requires
                        a == 14,
                        b == 46,
                        c == 21,
                        d == 47,
                ;
            },
            ECLevel::Q => {
                assert(a * b + c * d == 1171) by (nonlinear_arith)
                    requires
                        a == 29,
                        b == 24,
                        c == 19,
                        d == 25,
                ;
            },
            ECLevel::H => {
                assert(a * b + c * d == 901) by (nonlinear_arith)
                    requires
                        a == 11,
                        b == 15,
                        c == 46,
                        d == 16,
                ;
            },
        }
    } else if v == 34 {
        match e {
            ECLevel::L => {
                assert(a * b + c * d == 2191) by (nonlinear_arith)
                    requires
                        a == 13,
                        b == 115,
                        c == 6,
                        d == 116,
                ;
            },
            ECLevel::M => {
                assert(a * b + c * d == 1725) by (nonlinear_arith)
                    requires
                        a == 14,
                        b == 46,
                        c == 23,
                        d == 47,
                ;
            },
            ECLevel::Q => {
                assert(a * b + c * d == 1231) by (nonlinear_arith)
                    requires
                        a == 44,
                        b == 24,
                        c == 7,
                        d == 25,
                ;
            },
            ECLevel::H => {
                assert(a * b + c * d == 961) by (nonlinear_arith)
                    requires
                        a == 59,
                        b == 16,
                        c == 1,
                        d == 17,
                ;
            },
        }
    } else if v == 35 {
        match e {
            ECLevel::L => {
                assert(a * b + c * d == 2306) by (nonlinear_arith)
                    requires
                        a == 12,
                        b == 121,
                        c == 7,
                        d == 122,
                ;
            },
            ECLevel::M => {
                assert(a * b + c * d == 1812) by (nonlinear_arith)
                    requires
                        a == 12,
                        b == 47,
                        c == 26,
                        d == 48,
                ;
            },
            ECLevel::Q => {
                assert(a * b + c * d == 1286) by (nonlinear_arith)
                    requires
                        a == 39,
                        b == 24,
                        c == 14,
                        d == 25,
                ;
            },
            ECLevel::H => {
                assert(a * b + c * d == 986) by (nonlinear_arith)
                    requires
                        a == 22,
                        b == 15,
                        c == 41,
                        d == 16,
                ;
            },
        }
    } else if v == 36 {
        match e {
            ECLevel::L => {
                assert(a * b + c * d == 2434) by (nonlinear_arith)
                    requires
                        a == 6,
                        b == 121,
                        c == 14,
                        d == 122,
                ;
            },
            ECLevel::M => {
                assert(a * b + c * d == 1914) by (nonlinear_arith)
                    requires
                        a == 6,
                        b == 47,
                        c == 34,
                        d == 48,
                ;
            },
            ECLevel::Q => {
                assert(a * b + c * d == 1354) by (nonlinear_arith)
                    requires
                        a == 46,
                        b == 24,
                        c == 10,
                        d == 25,
                ;
            },
            ECLevel::H => {
                assert(a * b + c * d == 1054) by (nonlinear_arith)
                    requires
                        a == 2,
                        b == 15,
                        c == 64,
                        d == 16,
                ;
            },
        }
    } else if v == 37 {
        match e {
            ECLevel::L => {
                assert(a * b + c * d == 2566) by (nonlinear_arith)
                    requires
                        a == 17,
                        b == 122,
                        c == 4,
                        d == 123,
                ;
            },
            ECLevel::M => {
                assert(a * b + c * d == 1992) by (nonlinear_arith)
                    requires
                        a == 29,
                        b == 46,
                        c == 14,
                        d == 47,
                ;
            },
            ECLevel::Q => {
                assert(a * b + c * d == 1426) by (nonlinear_arith)
                    requires
                        a == 49,
                        b == 24,
                        c == 10,
                        d == 25,
                ;
            },
            ECLevel::H => {
                assert(a * b + c * d == 1096) by (nonlinear_arith)
                    requires
                        a == 24,
                        b == 15,
                        c == 46,
                        d == 16,
                ;
            },
        }
    } else if v == 38 {
        match e {
            ECLevel::L => {
                assert(a * b + c * d == 2702) by (nonlinear_arith)
                    requires
                        a == 4,
                        b == 122,
                        c == 18,
                        d == 123,
                ;
            },
            ECLevel::M => {
                assert(a * b + c * d == 2102) by (nonlinear_arith)
                    requires
                        a == 13,
                        b == 46,
                        c == 32,
                        d == 47,
                ;
            },
            ECLevel::Q => {
                assert(a * b + c * d == 1502) by (nonlinear_arith)
                    requires
                        a == 48,
                        b == 24,
                        c == 14,
                        d == 25,
                ;
            },
            ECLevel::H => {
                assert(a * b + c * d == 1142) by (nonlinear_arith)
                    requires
                        a == 42,
                        b == 15,
                        c == 32,
                        d == 16,
                ;
            },
        }
    } else if v == 39 {
        match e {
            ECLevel::L => {
                assert(a * b + c * d == 2812) by (nonlinear_arith)
                    requires
                        a == 20,
                        b == 117,
                        c == 4,
                        d == 118,
                ;
            },
            ECLevel::M => {
                assert(a * b + c * d == 2216) by (nonlinear_arith)
                    requires
                        a == 40,
                        b == 47,
                        c == 7,
                        d == 48,
                ;
            },
            ECLevel::Q => {
                assert(a * b + c * d == 1582) by (nonlinear_arith)
                    requires
                        a == 43,
                        b == 24,
                        c == 22,
                        d == 25,
                ;
            },
            ECLevel::H => {
                assert(a * b + c * d == 1222) by (nonlinear_arith)
                    requires
                        a == 10,
                        b == 15,
                        c == 67,
                        d == 16,
                ;
            },
        }
    } else if v == 40 {
        match e {
            ECLevel::L => {
                assert(a * b + c * d == 2956) by (nonlinear_arith)
                    requires
                        a == 19,
                        b == 118,
                        c == 6,
                        d == 119,
                ;
            },
            ECLevel::M => {
                assert(a * b + c * d == 2334) by (nonlinear_arith)
                    requires
                        a == 18,
                        b == 47,
                        c == 31,
                        d == 48,
                ;
            },
            ECLevel::Q => {
                assert(a * b + c * d == 1666) by (nonlinear_arith)
                    requires
                        a == 34,
                        b == 24,
                        c == 34,
                        d == 25,
                ;
            },
            ECLevel::H => {
                assert(a * b + c * d == 1276) by (nonlinear_arith)
                    requires
                        a == 20,
                        b == 15,
                        c == 61,
                        d == 16,
                ;
            },
        }
    }
}

/// Alignment pattern centres start at 6, ascend, are even, leave six modules
/// to the far edge of the symbol, and from the second on lie at 18 or beyond.
pub proof fn lemma_alignment_centers(v: int, i: int)
    requires
        1 <= v <= 40,
        0 <= i < alignment_count(v),
    ensures
        alignment_count(v) <= 7,
        6 <= alignment_center(v, i) <= 21 + 4 * (v - 1) - 7,
        i == 0 ==> alignment_center(v, i) == 6,
        i > 0 ==> alignment_center(v, i - 1) < alignment_center(v, i),
        i > 0 ==> alignment_center(v, i) >= 18,
        alignment_center(v, i) % 2 == 0,
{
    reveal(alignment_count);
    reveal(alignment_center);
}

/// There are at most seven remainder bits.
pub proof fn lemma_remainder_bits(v: int)
    requires
        1 <= v <= 40,
    ensures
        0 <= remainder_bits(v) <= 7,
{
    reveal(remainder_bits);
}

/// Twice an element of GF(256): the element moved up by one bit, and reduced
/// by the primitive polynomial 0x11D where that leaves the eight bits.
pub open spec fn gf_double(v: int) -> int {
    if v < 128 {
        2 * v
    } else {
        (((2 * v) as u32) ^ 0x11Du32) as int
    }
}

/// The table of powers holds the powers of 2: it starts at 1 and each entry
/// is twice the one before. The power 255 is 1 again.
pub proof fn lemma_gf_exp_doubles(i: int)
    requires
        0 <= i < 255,
    ensures
        gf_exp(0) == 1,
        0 < gf_exp(i) < 256,
        gf_exp(i + 1) == gf_double(gf_exp(i)),
        gf_exp(255) == 1,
{
    reveal(gf_exp);
    assert((256u32 ^ 0x11Du32 == 29u32)
        && (258u32 ^ 0x11Du32 == 31u32)
        && (260u32 ^ 0x11Du32 == 25u32)
        && (262u32 ^ 0x11Du32 == 27u32)
        && (264u32 ^ 0x11Du32 == 21u32)
        && (266u32 ^ 0x11Du32 == 23u32)
        && (268u32 ^ 0x11Du32 == 17u32)
        && (270u32 ^ 0x11Du32 == 19u32)
        && (272u32 ^ 0x11Du32 == 13u32)
        && (274u32 ^ 0x11Du32 == 15u32)
        && (276u32 ^ 0x11Du32 == 9u32)
        && (278u32 ^ 0x11Du32 == 11u32)
        && (280u32 ^ 0x11Du32 == 5u32)
        && (282u32 ^ 0x11Du32 == 7u32)
        && (284u32 ^ 0x11Du32 == 1u32)
        && (286u32 ^ 0x11Du32 == 3u32)
        && (288u32 ^ 0x11Du32 == 61u32)
        && (290u32 ^ 0x11Du32 == 63u32)
        && (292u32 ^ 0x11Du32 == 57u32)
        && (294u32 ^ 0x11Du32 == 59u32)
        && (296u32 ^ 0x11Du32 == 53u32)
        && (298u32 ^ 0x11Du32 == 55u32)
        && (300u32 ^ 0x11Du32 == 49u32)
        && (302u32 ^ 0x11Du32 == 51u32)
        && (304u32 ^ 0x11Du32 == 45u32)
        && (306u32 ^ 0x11Du32 == 47u32)
        && (308u32 ^ 0x11Du32 == 41u32)
        && (310u32 ^ 0x11Du32 == 43u32)
        && (312u32 ^ 0x11Du32 == 37u32)
        && (314u32 ^ 0x11Du32 == 39u32)
        && (316u32 ^ 0x11Du32 == 33u32)
        && (318u32 ^ 0x11Du32 == 35u32)
        && (320u32 ^ 0x11Du32 == 93u32)
        && (322u32 ^ 0x11Du32 == 95u32)
        && (324u32 ^ 0x11Du32 == 89u32)
        && (326u32 ^ 0x11Du32 == 91u32)
        && (328u32 ^ 0x11Du32 == 85u32)
        && (330u32 ^ 0x11Du32 == 87u32)
        && (332u32 ^ 0x11Du32 == 81u32)
        && (334u32 ^ 0x11Du32 == 83u32)
        && (336u32 ^ 0x11Du32 == 77u32)
        && (338u32 ^ 0x11Du32 == 79u32)
        && (340u32 ^ 0x11Du32 == 73u32)
        && (342u32 ^ 0x11Du32 == 75u32)
        && (344u32 ^ 0x11Du32 == 69u32)
        && (346u32 ^ 0x11Du32 == 71u32)
        && (348u32 ^ 0x11Du32 == 65u32)
        && (350u32 ^ 0x11Du32 == 67u32)
        && (352u32 ^ 0x11Du32 == 125u32)
        && (354u32 ^ 0x11Du32 == 127u32)
        && (356u32 ^ 0x11Du32 == 121u32)
        && (358u32 ^ 0x11Du32 == 123u32)
        && (360u32 ^ 0x11Du32 == 117u32)
        && (362u32 ^ 0x11Du32 == 119u32)
        && (364u32 ^ 0x11Du32 == 113u32)
        && (366u32 ^ 0x11Du32 == 115u32)
        && (368u32 ^ 0x11Du32 == 109u32)
        && (370u32 ^ 0x11Du32 == 111u32)
        && (372u32 ^ 0x11Du32 == 105u32)
        && (374u32 ^ 0x11Du32 == 107u32)
        && (376u32 ^ 0x11Du32 == 101u32)
        && (378u32 ^ 0x11Du32 == 103u32)
        && (380u32 ^ 0x11Du32 == 97u32)
        && (382u32 ^ 0x11Du32 == 99u32)
        && (384u32 ^ 0x11Du32 == 157u32)
        && (386u32 ^ 0x11Du32 == 159u32)
        && (388u32 ^ 0x11Du32 == 153u32)
        && (390u32 ^ 0x11Du32 == 155u32)
        && (392u32 ^ 0x11Du32 == 149u32)
        && (394u32 ^ 0x11Du32 == 151u32)
        && (396u32 ^ 0x11Du32 == 145u32)
        && (398u32 ^ 0x11Du32 == 147u32)
        && (400u32 ^ 0x11Du32 == 141u32)
        && (402u32 ^ 0x11Du32 == 143u32)
        && (404u32 ^ 0x11Du32 == 137u32)
        && (406u32 ^ 0x11Du32 == 139u32)
        && (408u32 ^ 0x11Du32 == 133u32)
        && (410u32 ^ 0x11Du32 == 135u32)
        && (412u32 ^ 0x11Du32 == 129u32)
        && (414u32 ^ 0x11Du32 == 131u32)
        && (416u32 ^ 0x11Du32 == 189u32)
        && (418u32 ^ 0x11Du32 == 191u32)
        && (420u32 ^ 0x11Du32 == 185u32)
        && (422u32 ^ 0x11Du32 == 187u32)
        && (424u32 ^ 0x11Du32 == 181u32)
        && (426u32 ^ 0x11Du32 == 183u32)
        && (428u32 ^ 0x11Du32 == 177u32)
        && (430u32 ^ 0x11Du32 == 179u32)
        && (432u32 ^ 0x11Du32 == 173u32)
        && (434u32 ^ 0x11Du32 == 175u32)
        && (436u32 ^ 0x11Du32 == 169u32)
        && (438u32 ^ 0x11Du32 == 171u32)
        && (440u32 ^ 0x11Du32 == 165u32)
        && (442u32 ^ 0x11Du32 == 167u32)
        && (444u32 ^ 0x11Du32 == 161u32)
        && (446u32 ^ 0x11Du32 == 163u32)
        && (448u32 ^ 0x11Du32 == 221u32)
        && (450u32 ^ 0x11Du32 == 223u32)
        && (452u32 ^ 0x11Du32 == 217u32)
        && (454u32 ^ 0x11Du32 == 219u32)
        && (456u32 ^ 0x11Du32 == 213u32)
        && (458u32 ^ 0x11Du32 == 215u32)
        && (460u32 ^ 0x11Du32 == 209u32)
        && (462u32 ^ 0x11Du32 == 211u32)
        && (464u32 ^ 0x11Du32 == 205u32)
        && (466u32 ^ 0x11Du32 == 207u32)
        && (468u32 ^ 0x11Du32 == 201u32)
        && (470u32 ^ 0x11Du32 == 203u32)
        && (472u32 ^ 0x11Du32 == 197u32)
        && (474u32 ^ 0x11Du32 == 199u32)
        && (476u32 ^ 0x11Du32 == 193u32)
        && (478u32 ^ 0x11Du32 == 195u32)
        && (480u32 ^ 0x11Du32 == 253u32)
        && (482u32 ^ 0x11Du32 == 255u32)
        && (484u32 ^ 0x11Du32 == 249u32)
        && (486u32 ^ 0x11Du32 == 251u32)
        && (488u32 ^ 0x11Du32 == 245u32)
        && (490u32 ^ 0x11Du32 == 247u32)
        && (492u32 ^ 0x11Du32 == 241u32)
        && (494u32 ^ 0x11Du32 == 243u32)
        && (496u32 ^ 0x11Du32 == 237u32)
        && (498u32 ^ 0x11Du32 == 239u32)
        && (500u32 ^ 0x11Du32 == 233u32)
        && (502u32 ^ 0x11Du32 == 235u32)
        && (504u32 ^ 0x11Du32 == 229u32)
        && (506u32 ^ 0x11Du32 == 231u32)
        && (508u32 ^ 0x11Du32 == 225u32)
        && (510u32 ^ 0x11Du32 == 227u32)) by (bit_vector);
}

/// The table of logarithms inverts the table of powers.
pub proof fn lemma_gf_log_inverts(i: int, v: int)
    requires
        0 <= i < 255,
        0 < v < 256,
    ensures
        gf_log(gf_exp(i)) == i,
        0 <= gf_log(v) < 255,
        gf_exp(gf_log(v)) == v,
{
    reveal(gf_exp);
    reveal(gf_log);
}

/// How the alignment pattern centres of a version are spaced: there are none
/// or at least two; the last lies seven modules before the far edge; those
/// between the first and the last lie between 18 and nineteen modules before
/// the far edge; and neighbours are at least twelve modules apart.
pub proof fn lemma_alignment_spacing(v: int, i: int)
    requires
        1 <= v <= 40,
        0 <= i < alignment_count(v),
    ensures
        2 <= alignment_count(v) <= 7,
        i == alignment_count(v) - 1 ==> alignment_center(v, i) == 21 + 4 * (v - 1) - 7,
        0 < i < alignment_count(v) - 1 ==> 18 <= alignment_center(v, i) <= 21 + 4 * (v - 1) - 19,
        i > 0 ==> alignment_center(v, i) - alignment_center(v, i - 1) >= 12,
        i == 0 ==> alignment_center(v, i) == 6,
        v >= 2,
{
    reveal(alignment_count);
    reveal(alignment_center);
}

/// Version 1 has no alignment patterns, every other version has some.
pub proof fn lemma_alignment_none(v: int)
    requires
        1 <= v <= 40,
    ensures
        alignment_count(v) == 0 <==> v == 1,
        0 <= alignment_count(v) <= 7,
{
    reveal(alignment_count);
}

} // verus!
