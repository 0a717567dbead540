//! Tables of the sound generator.

use vstd::prelude::*;

verus! {

/// Envelope steps per sample of the 64 attack rates, in 1/65536 of a level.
pub const ATTACK_STEPS: [i32; 64] = [
    0, 0, 187, 220, 253, 316, 380, 447, 506, 633,
    760, 894, 1013, 1266, 1520, 1767, 2000, 2533, 3040, 3535,
    4000, 5067, 6081, 6910, 8001, 10135, 11694, 13820, 16002, 20003,
    24131, 27641, 32345, 40006, 49040, 56305, 63344, 80013, 101350, 116942,
    126688, 161729, 192437, 223567, 253376, 323458, 400067, 447134, 506752, 633440,
    760128, 844587, 950160, 1169428, 1382051, 1634684, 1788537, 2338856, 2868409, 3455129,
    3800642, 4343591, 67108864, 67108864,
];

/// Envelope steps per sample of the 64 decay rates, in 1/65536 of a level.
pub const DECAY_STEPS: [i32; 64] = [
    0, 0, 12, 15, 17, 21, 25, 29, 34, 42,
    51, 60, 68, 85, 102, 119, 136, 170, 205, 241,
    276, 345, 410, 475, 542, 691, 844, 950, 1085, 1382,
    1652, 1924, 2203, 2764, 3304, 3898, 4471, 5630, 6609, 7601,
    8942, 10858, 13820, 15512, 17885, 22356, 26671, 31025, 35354, 44713,
    54294, 60810, 69102, 84458, 108589, 126688, 138205, 178853, 214120, 249222,
    281529, 353548, 422293, 490405,
];

/// Gains of the 1024 envelope levels, in 1/4096: a level is worth 3/32 dB, and
/// the highest has gain 1.
pub const LEVEL_GAINS: [i32; 1024] = [
    0, 0, 0, 0, 0, 0, 0, 0, 0, 0, 0, 0, 0, 0, 0, 0,
    0, 0, 0, 0, 0, 0, 0, 0, 0, 0, 0, 0, 0, 0, 0, 0,
    0, 0, 0, 0, 0, 0, 0, 0, 0, 0, 0, 0, 0, 0, 0, 0,
    0, 0, 0, 0, 0, 0, 0, 0, 0, 0, 0, 0, 0, 0, 0, 0,
    0, 0, 0, 0, 0, 0, 0, 0, 0, 0, 0, 0, 0, 0, 0, 0,
    0, 0, 0, 0, 0, 0, 0, 0, 0, 0, 0, 0, 0, 0, 0, 0,
    0, 0, 0, 0, 0, 0, 0, 0, 0, 0, 0, 0, 0, 0, 0, 0,
    0, 0, 0, 0, 0, 0, 0, 0, 0, 0, 0, 0, 0, 0, 0, 0,
    0, 0, 0, 0, 0, 0, 0, 0, 0, 0, 0, 0, 0, 0, 0, 0,
    0, 0, 0, 0, 0, 0, 0, 0, 0, 0, 0, 0, 0, 0, 0, 0,
    0, 0, 0, 0, 0, 0, 0, 0, 0, 0, 0, 0, 0, 0, 0, 0,
    0, 0, 0, 0, 0, 0, 0, 0, 0, 0, 0, 0, 0, 0, 0, 0,
    0, 0, 0, 0, 0, 0, 0, 0, 0, 0, 0, 0, 0, 0, 0, 0,
    0, 0, 0, 0, 0, 0, 0, 0, 0, 0, 0, 0, 0, 0, 0, 0,
    0, 0, 0, 0, 0, 0, 0, 0, 0, 0, 0, 0, 0, 0, 0, 0,
    0, 0, 0, 0, 0, 0, 0, 0, 0, 0, 0, 0, 0, 1, 1, 1,
    1, 1, 1, 1, 1, 1, 1, 1, 1, 1, 1, 1, 1, 1, 1, 1,
    1, 1, 1, 1, 1, 1, 1, 1, 1, 1, 1, 1, 1, 1, 1, 1,
    1, 1, 1, 1, 1, 1, 1, 1, 1, 1, 1, 1, 1, 1, 1, 1,
    1, 1, 1, 1, 1, 1, 1, 1, 1, 1, 1, 1, 1, 2, 2, 2,
    2, 2, 2, 2, 2, 2, 2, 2, 2, 2, 2, 2, 2, 2, 2, 2,
    2, 2, 2, 2, 2, 2, 2, 2, 2, 2, 2, 2, 2, 2, 2, 2,
    2, 2, 2, 3, 3, 3, 3, 3, 3, 3, 3, 3, 3, 3, 3, 3,
    3, 3, 3, 3, 3, 3, 3, 3, 3, 3, 3, 3, 3, 4, 4, 4,
    4, 4, 4, 4, 4, 4, 4, 4, 4, 4, 4, 4, 4, 4, 4, 4,
    4, 4, 5, 5, 5, 5, 5, 5, 5, 5, 5, 5, 5, 5, 5, 5,
    5, 5, 5, 6, 6, 6, 6, 6, 6, 6, 6, 6, 6, 6, 6, 6,
    6, 7, 7, 7, 7, 7, 7, 7, 7, 7, 7, 7, 7, 7, 8, 8,
    8, 8, 8, 8, 8, 8, 8, 8, 9, 9, 9, 9, 9, 9, 9, 9,
    9, 9, 10, 10, 10, 10, 10, 10, 10, 10, 10, 11, 11, 11, 11, 11,
    11, 11, 11, 12, 12, 12, 12, 12, 12, 12, 12, 13, 13, 13, 13, 13,
    13, 14, 14, 14, 14, 14, 14, 14, 15, 15, 15, 15, 15, 15, 16, 16,
    16, 16, 16, 17, 17, 17, 17, 17, 17, 18, 18, 18, 18, 18, 19, 19,
    19, 19, 20, 20, 20, 20, 20, 21, 21, 21, 21, 22, 22, 22, 22, 23,
    23, 23, 23, 24, 24, 24, 24, 25, 25, 25, 25, 26, 26, 26, 27, 27,
    27, 27, 28, 28, 28, 29, 29, 29, 30, 30, 30, 31, 31, 31, 32, 32,
    32, 33, 33, 33, 34, 34, 35, 35, 35, 36, 36, 37, 37, 37, 38, 38,
    39, 39, 39, 40, 40, 41, 41, 42, 42, 43, 43, 44, 44, 44, 45, 45,
    46, 46, 47, 47, 48, 49, 49, 50, 50, 51, 51, 52, 52, 53, 54, 54,
    55, 55, 56, 57, 57, 58, 58, 59, 60, 60, 61, 62, 62, 63, 64, 64,
    65, 66, 67, 67, 68, 69, 70, 70, 71, 72, 73, 73, 74, 75, 76, 77,
    77, 78, 79, 80, 81, 82, 83, 84, 85, 85, 86, 87, 88, 89, 90, 91,
    92, 93, 94, 95, 96, 97, 98, 99, 101, 102, 103, 104, 105, 106, 107, 108,
    110, 111, 112, 113, 115, 116, 117, 118, 120, 121, 122, 124, 125, 126, 128, 129,
    130, 132, 133, 135, 136, 138, 139, 141, 142, 144, 145, 147, 149, 150, 152, 153,
    155, 157, 159, 160, 162, 164, 166, 167, 169, 171, 173, 175, 177, 179, 180, 182,
    184, 186, 188, 191, 193, 195, 197, 199, 201, 203, 206, 208, 210, 212, 215, 217,
    219, 222, 224, 227, 229, 231, 234, 237, 239, 242, 244, 247, 250, 252, 255, 258,
    261, 264, 266, 269, 272, 275, 278, 281, 284, 287, 291, 294, 297, 300, 303, 307,
    310, 313, 317, 320, 324, 327, 331, 334, 338, 342, 345, 349, 353, 357, 361, 365,
    369, 373, 377, 381, 385, 389, 393, 397, 402, 406, 411, 415, 420, 424, 429, 433,
    438, 443, 448, 453, 457, 462, 467, 472, 478, 483, 488, 493, 499, 504, 510, 515,
    521, 526, 532, 538, 544, 550, 556, 562, 568, 574, 580, 586, 593, 599, 606, 612,
    619, 626, 633, 639, 646, 653, 660, 668, 675, 682, 690, 697, 705, 712, 720, 728,
    736, 744, 752, 760, 768, 777, 785, 794, 802, 811, 820, 829, 838, 847, 856, 865,
    875, 884, 894, 903, 913, 923, 933, 943, 953, 964, 974, 985, 996, 1006, 1017, 1028,
    1040, 1051, 1062, 1074, 1085, 1097, 1109, 1121, 1133, 1146, 1158, 1171, 1183, 1196, 1209, 1222,
    1236, 1249, 1263, 1276, 1290, 1304, 1318, 1333, 1347, 1362, 1376, 1391, 1407, 1422, 1437, 1453,
    1469, 1485, 1501, 1517, 1533, 1550, 1567, 1584, 1601, 1618, 1636, 1654, 1672, 1690, 1708, 1727,
    1746, 1764, 1784, 1803, 1823, 1842, 1862, 1883, 1903, 1924, 1945, 1966, 1987, 2009, 2030, 2052,
    2075, 2097, 2120, 2143, 2166, 2190, 2213, 2237, 2262, 2286, 2311, 2336, 2362, 2387, 2413, 2439,
    2466, 2493, 2520, 2547, 2575, 2603, 2631, 2659, 2688, 2717, 2747, 2777, 2807, 2837, 2868, 2899,
    2931, 2963, 2995, 3027, 3060, 3093, 3127, 3161, 3195, 3230, 3265, 3300, 3336, 3372, 3409, 3446,
    3483, 3521, 3559, 3598, 3637, 3676, 3716, 3757, 3797, 3839, 3880, 3922, 3965, 4008, 4052, 4096,
];

/// Gains of the 256 total levels, in 1/4096. The bits attenuate by 0.4, 0.8, 1.5,
/// 3, 6, 12, 24 and 48 dB.
pub const TOTAL_LEVEL_GAINS: [i32; 256] = [
    4096, 3911, 3735, 3567, 3446, 3291, 3143, 3001, 2899, 2769, 2644, 2525,
    2439, 2330, 2225, 2125, 2052, 1960, 1872, 1787, 1727, 1649, 1575, 1504,
    1453, 1387, 1325, 1265, 1222, 1167, 1115, 1065, 1028, 982, 938, 896,
    865, 826, 789, 753, 728, 695, 664, 634, 612, 585, 558, 533,
    515, 492, 470, 449, 433, 414, 395, 377, 365, 348, 332, 317,
    307, 293, 280, 267, 258, 246, 235, 225, 217, 207, 198, 189,
    182, 174, 166, 159, 153, 147, 140, 134, 129, 123, 118, 112,
    108, 104, 99, 94, 91, 87, 83, 79, 77, 73, 70, 67,
    64, 61, 59, 56, 54, 52, 49, 47, 45, 43, 41, 40,
    38, 36, 35, 33, 32, 31, 29, 28, 27, 26, 24, 23,
    23, 21, 21, 20, 19, 18, 17, 16, 16, 15, 14, 14,
    13, 13, 12, 11, 11, 11, 10, 10, 9, 9, 8, 8,
    8, 7, 7, 7, 6, 6, 6, 5, 5, 5, 5, 5,
    4, 4, 4, 4, 4, 3, 3, 3, 3, 3, 3, 3,
    2, 2, 2, 2, 2, 2, 2, 2, 2, 1, 1, 1,
    1, 1, 1, 1, 1, 1, 1, 1, 1, 1, 1, 1,
    1, 0, 0, 0, 0, 0, 0, 0, 0, 0, 0, 0,
    0, 0, 0, 0, 0, 0, 0, 0, 0, 0, 0, 0,
    0, 0, 0, 0, 0, 0, 0, 0, 0, 0, 0, 0,
    0, 0, 0, 0, 0, 0, 0, 0, 0, 0, 0, 0,
    0, 0, 0, 0, 0, 0, 0, 0, 0, 0, 0, 0,
    0, 0, 0, 0,
];

/// Gains of a channel that is attenuated by 4 bits of pan, for each of the 8 send
/// levels, in 1/16384. Level 0 is silent, and the others are 6 dB apart. The bits
/// of the pan attenuate by 3, 6, 12 and 24 dB, and all of them silence the
/// channel.
pub const SEND_GAINS: [i32; 128] = [
    0, 0, 0, 0, 0, 0, 0, 0,
    0, 0, 0, 0, 0, 0, 0, 0,
    259, 183, 130, 92, 65, 46, 32, 23,
    16, 11, 8, 5, 4, 2, 2, 0,
    518, 366, 259, 183, 130, 92, 65, 46,
    32, 23, 16, 11, 8, 5, 4, 0,
    1033, 731, 518, 366, 259, 183, 130, 92,
    65, 46, 32, 23, 16, 11, 8, 0,
    2062, 1460, 1033, 731, 518, 366, 259, 183,
    130, 92, 65, 46, 32, 23, 16, 0,
    4115, 2913, 2062, 1460, 1033, 731, 518, 366,
    259, 183, 130, 92, 65, 46, 32, 0,
    8211, 5813, 4115, 2913, 2062, 1460, 1033, 731,
    518, 366, 259, 183, 130, 92, 65, 0,
    16384, 11598, 8211, 5813, 4115, 2913, 2062, 1460,
    1033, 731, 518, 366, 259, 183, 130, 0,
];

/// The gain of an envelope level, in 1/4096.
#[verifier::opaque]
pub open spec fn level_gain(level: int) -> i32 {
    LEVEL_GAINS@[level]
}

/// The gain of a total level, in 1/4096.
#[verifier::opaque]
pub open spec fn total_gain(total: int) -> i32 {
    TOTAL_LEVEL_GAINS@[total]
}

/// The gain of a channel at a send level, attenuated by 4 bits of pan, in 1/16384.
#[verifier::opaque]
pub open spec fn channel_gain(level: int, pan: int) -> i32 {
    SEND_GAINS@[level * 16 + pan]
}

/// A level is at least as loud as the one below it.
#[verifier::rlimit(100)]
proof fn level_rises(i: int)
    requires
        0 <= i < 1023,
    ensures
        level_gain(i) <= level_gain(i + 1),
{
    reveal(level_gain);
}

/// A higher level is never softer, and gains are at most 1.
pub proof fn levels_rise(a: int, b: int)
    requires
        0 <= a <= b < 1024,
    ensures
        0 <= level_gain(a) <= level_gain(b) <= 4096,
    decreases b - a,
{
    if a < b {
        levels_rise(a, b - 1);
        level_rises(b - 1);
        level_is_bounded(b);
    } else {
        level_is_bounded(a);
    }
}

proof fn level_is_bounded(i: int)
    requires
        0 <= i < 1024,
    ensures
        0 <= level_gain(i) <= 4096,
{
    reveal(level_gain);
}

/// Total levels attenuate.
pub proof fn total_is_bounded(i: int)
    requires
        0 <= i < 256,
    ensures
        0 <= total_gain(i) <= 4096,
{
    reveal(total_gain);
}

/// Reads the gain of an envelope level.
pub fn level_gain_of(level: usize) -> (r: i32)
    requires
        level < 1024,
    ensures
        r == level_gain(level as int),
        0 <= r <= 4096,
{
    reveal(level_gain);
    LEVEL_GAINS[level]
}

/// Reads the gain of a total level.
pub fn total_gain_of(total: usize) -> (r: i32)
    requires
        total < 256,
    ensures
        r == total_gain(total as int),
        0 <= r <= 4096,
{
    reveal(total_gain);
    TOTAL_LEVEL_GAINS[total]
}

/// Reads the gain of a channel.
pub fn channel_gain_of(level: usize, pan: usize) -> (r: i32)
    requires
        level < 8,
        pan < 16,
    ensures
        r == channel_gain(level as int, pan as int),
        0 <= r <= 16384,
{
    reveal(channel_gain);
    SEND_GAINS[level * 16 + pan]
}

} // verus!
