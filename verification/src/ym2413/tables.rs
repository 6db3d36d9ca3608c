//! The tables of the FM sound generator.
//!
//! Levels are kept as logarithms: 256 steps halve an amplitude. The sine comes
//! as a logarithm as well, so that attenuation is an addition.
use vstd::prelude::*;

verus! {

/// Amplitude of the 256 fractional steps below full scale.
pub const LEVELS: [u16; 256] = [
    2042, 2037, 2031, 2026, 2020, 2015, 2010, 2004, 1999, 1993, 1988, 1983, 1977, 1972, 1966, 1961,
    1956, 1951, 1945, 1940, 1935, 1930, 1924, 1919, 1914, 1909, 1904, 1898, 1893, 1888, 1883, 1878,
    1873, 1868, 1863, 1858, 1853, 1848, 1843, 1838, 1833, 1828, 1823, 1818, 1813, 1808, 1803, 1798,
    1794, 1789, 1784, 1779, 1774, 1769, 1765, 1760, 1755, 1750, 1746, 1741, 1736, 1732, 1727, 1722,
    1717, 1713, 1708, 1704, 1699, 1694, 1690, 1685, 1681, 1676, 1672, 1667, 1663, 1658, 1654, 1649,
    1645, 1640, 1636, 1631, 1627, 1623, 1618, 1614, 1609, 1605, 1601, 1596, 1592, 1588, 1584, 1579,
    1575, 1571, 1566, 1562, 1558, 1554, 1550, 1545, 1541, 1537, 1533, 1529, 1525, 1520, 1516, 1512,
    1508, 1504, 1500, 1496, 1492, 1488, 1484, 1480, 1476, 1472, 1468, 1464, 1460, 1456, 1452, 1448,
    1444, 1440, 1436, 1433, 1429, 1425, 1421, 1417, 1413, 1409, 1406, 1402, 1398, 1394, 1391, 1387,
    1383, 1379, 1376, 1372, 1368, 1364, 1361, 1357, 1353, 1350, 1346, 1342, 1339, 1335, 1332, 1328,
    1324, 1321, 1317, 1314, 1310, 1307, 1303, 1300, 1296, 1292, 1289, 1286, 1282, 1279, 1275, 1272,
    1268, 1265, 1261, 1258, 1255, 1251, 1248, 1244, 1241, 1238, 1234, 1231, 1228, 1224, 1221, 1218,
    1214, 1211, 1208, 1205, 1201, 1198, 1195, 1192, 1188, 1185, 1182, 1179, 1176, 1172, 1169, 1166,
    1163, 1160, 1157, 1154, 1150, 1147, 1144, 1141, 1138, 1135, 1132, 1129, 1126, 1123, 1120, 1117,
    1114, 1111, 1108, 1105, 1102, 1099, 1096, 1093, 1090, 1087, 1084, 1081, 1078, 1075, 1072, 1069,
    1066, 1064, 1061, 1058, 1055, 1052, 1049, 1046, 1044, 1041, 1038, 1035, 1032, 1030, 1027, 1024,
];

/// Attenuation of the first quarter of a sine, in steps.
pub const QUARTER_SINE: [u16; 256] = [
    2137, 1731, 1543, 1419, 1326, 1252, 1190, 1137, 1091, 1050, 1013, 979, 949, 920, 894, 869,
    846, 825, 804, 785, 767, 749, 732, 717, 701, 687, 672, 659, 646, 633, 621, 609,
    598, 587, 576, 566, 556, 546, 536, 527, 518, 509, 501, 492, 484, 476, 468, 461,
    453, 446, 439, 432, 425, 418, 411, 405, 399, 392, 386, 380, 375, 369, 363, 358,
    352, 347, 341, 336, 331, 326, 321, 316, 311, 307, 302, 297, 293, 289, 284, 280,
    276, 271, 267, 263, 259, 255, 251, 248, 244, 240, 236, 233, 229, 226, 222, 219,
    215, 212, 209, 205, 202, 199, 196, 193, 190, 187, 184, 181, 178, 175, 172, 169,
    167, 164, 161, 159, 156, 153, 151, 148, 146, 143, 141, 138, 136, 134, 131, 129,
    127, 125, 122, 120, 118, 116, 114, 112, 110, 108, 106, 104, 102, 100, 98, 96,
    94, 92, 91, 89, 87, 85, 83, 82, 80, 78, 77, 75, 74, 72, 70, 69,
    67, 66, 64, 63, 62, 60, 59, 57, 56, 55, 53, 52, 51, 49, 48, 47,
    46, 45, 43, 42, 41, 40, 39, 38, 37, 36, 35, 34, 33, 32, 31, 30,
    29, 28, 27, 26, 25, 24, 23, 23, 22, 21, 20, 20, 19, 18, 17, 17,
    16, 15, 15, 14, 13, 13, 12, 12, 11, 10, 10, 9, 9, 8, 8, 7,
    7, 7, 6, 6, 5, 5, 5, 4, 4, 4, 3, 3, 3, 2, 2, 2,
    2, 1, 1, 1, 1, 1, 1, 1, 0, 0, 0, 0, 0, 0, 0, 0,
];

/// The instruments of the chip: 1 to 15 are melodic, then bass drum, high hat
/// with snare drum, and tom-tom with top cymbal. Number 0 is the user's.
pub const INSTRUMENT_ROM: [[u8; 8]; 19] = [
    [0x00, 0x00, 0x00, 0x00, 0x00, 0x00, 0x00, 0x00],
    [0x71, 0x61, 0x1e, 0x17, 0xd0, 0x78, 0x00, 0x17],
    [0x13, 0x41, 0x1a, 0x0d, 0xd8, 0xf7, 0x23, 0x13],
    [0x13, 0x01, 0x99, 0x00, 0xf2, 0xc4, 0x11, 0x23],
    [0x31, 0x61, 0x0e, 0x07, 0xa8, 0x64, 0x70, 0x27],
    [0x32, 0x21, 0x1e, 0x06, 0xe0, 0x76, 0x00, 0x28],
    [0x31, 0x22, 0x16, 0x05, 0xe0, 0x71, 0x00, 0x18],
    [0x21, 0x61, 0x1d, 0x07, 0x82, 0x81, 0x10, 0x07],
    [0x23, 0x21, 0x2d, 0x14, 0xa2, 0x72, 0x00, 0x07],
    [0x61, 0x61, 0x1b, 0x06, 0x64, 0x65, 0x10, 0x17],
    [0x41, 0x61, 0x0b, 0x18, 0x85, 0xf7, 0x71, 0x07],
    [0x13, 0x01, 0x83, 0x11, 0xfa, 0xe4, 0x10, 0x04],
    [0x17, 0xc1, 0x24, 0x07, 0xf8, 0xf8, 0x22, 0x12],
    [0x61, 0x50, 0x0c, 0x05, 0xc2, 0xf5, 0x20, 0x42],
    [0x01, 0x01, 0x55, 0x03, 0xc9, 0x95, 0x03, 0x02],
    [0x61, 0x41, 0x89, 0x03, 0xf1, 0xe4, 0x40, 0x13],
    [0x01, 0x01, 0x18, 0x0f, 0xdf, 0xf8, 0x6a, 0x6d],
    [0x01, 0x01, 0x00, 0x00, 0xc8, 0xd8, 0xa7, 0x48],
    [0x05, 0x01, 0x00, 0x00, 0xf8, 0xaa, 0x59, 0x55],
];

/// A power of two.
pub open spec fn power(n: int) -> int
    decreases n,
{
    if n <= 0 {
        1
    } else {
        2 * power(n - 1)
    }
}

pub fn power_of_two(n: u32) -> (r: u32)
    requires
        n <= 15,
    ensures
        r == power(n as int),
        1 <= r <= 32768,
{
    proof {
        reveal_with_fuel(power, 16);
    }
    match n {
        0 => 1,
        1 => 2,
        2 => 4,
        3 => 8,
        4 => 16,
        5 => 32,
        6 => 64,
        7 => 128,
        8 => 256,
        9 => 512,
        10 => 1024,
        11 => 2048,
        12 => 4096,
        13 => 8192,
        14 => 16384,
        _ => 32768,
    }
}

/// Whether step `k` gets an extra increment when `n` of every four do.
pub open spec fn extra(n: int, k: int) -> bool {
    if n == 1 {
        k % 4 == 1
    } else if n == 2 {
        k % 2 == 1
    } else {
        n == 3 && k % 4 != 0
    }
}

/// Envelope increment of row `row` at step `k` of 16. Rows 1 to 4 and 5 to 8
/// add 1 on at least every second step, rows 9 to 12 add 1 or 2, row 13 adds 2.
pub open spec fn eg_increment(row: int, k: int) -> int {
    if row <= 0 {
        0
    } else if row <= 4 {
        if k % 2 == 1 || extra(row - 1, k / 2) {
            1
        } else {
            0
        }
    } else if row <= 8 {
        if k % 2 == 1 || extra(row - 5, k / 4) {
            1
        } else {
            0
        }
    } else if row <= 12 {
        if extra(row - 9, k / 4) {
            2
        } else {
            1
        }
    } else {
        2
    }
}

/// Attack factor of row `row` at step `k` of 16.
pub open spec fn attack_factor(row: int, k: int) -> int {
    if row <= 4 {
        eg_increment(row, k)
    } else if row <= 8 {
        if extra(row - 5, k / 4) {
            2
        } else {
            1
        }
    } else if row <= 12 {
        if extra(row - 9, k / 4) {
            4
        } else {
            2
        }
    } else if extra(row - 13, k / 4) {
        8
    } else {
        4
    }
}

fn has_extra(n: u32, k: u32) -> (r: bool)
    ensures
        r == extra(n as int, k as int),
{
    match n {
        1 => k % 4 == 1,
        2 => k % 2 == 1,
        3 => k % 4 != 0,
        _ => false,
    }
}

pub fn increment(row: u32, k: u32) -> (r: u32)
    ensures
        r == eg_increment(row as int, k as int),
        r <= 2,
{
    if row == 0 {
        0
    } else if row <= 4 {
        if k % 2 == 1 || has_extra(row - 1, k / 2) {
            1
        } else {
            0
        }
    } else if row <= 8 {
        if k % 2 == 1 || has_extra(row - 5, k / 4) {
            1
        } else {
            0
        }
    } else if row <= 12 {
        if has_extra(row - 9, k / 4) {
            2
        } else {
            1
        }
    } else {
        2
    }
}

pub fn factor(row: u32, k: u32) -> (r: u32)
    ensures
        r == attack_factor(row as int, k as int),
        r <= 8,
{
    if row <= 4 {
        increment(row, k)
    } else if row <= 8 {
        if has_extra(row - 5, k / 4) {
            2
        } else {
            1
        }
    } else if row <= 12 {
        if has_extra(row - 9, k / 4) {
            4
        } else {
            2
        }
    } else if has_extra(row - 13, k / 4) {
        8
    } else {
        4
    }
}

/// An envelope rate as the generator uses it: a step every 2^shift samples,
/// with the increments of a row.
#[derive(Copy, Clone, PartialEq, Eq, Structural)]
pub struct Rate {
    pub shift: u32,
    pub row: u32,
}

/// The rate number `r`, four to each of the chip's sixteen, from 16 on; lower
/// numbers never move and higher ones are as fast as the last.
pub open spec fn eg_rate(r: int) -> Rate {
    if r < 20 {
        Rate { shift: 13, row: 0 }
    } else if r < 68 {
        Rate { shift: (12 - (r - 20) / 4) as u32, row: (1 + r % 4) as u32 }
    } else if r < 72 {
        Rate { shift: 0, row: (5 + r % 4) as u32 }
    } else if r < 76 {
        Rate { shift: 0, row: (9 + r % 4) as u32 }
    } else {
        Rate { shift: 0, row: 13 }
    }
}

/// The rate number `r` in the attack phase.
pub open spec fn eg_attack_rate(r: int) -> Rate {
    if r >= 76 {
        Rate { shift: 13, row: 0 }
    } else if r >= 64 {
        Rate { shift: 0, row: (eg_rate(r).row + 4) as u32 }
    } else {
        eg_rate(r)
    }
}

pub fn rate(r: u32) -> (x: Rate)
    requires
        r <= 95,
    ensures
        x == eg_rate(r as int),
        x.shift <= 13,
        x.row <= 13,
{
    if r < 20 {
        Rate { shift: 13, row: 0 }
    } else if r < 68 {
        Rate { shift: 12 - (r - 20) / 4, row: 1 + r % 4 }
    } else if r < 72 {
        Rate { shift: 0, row: 5 + r % 4 }
    } else if r < 76 {
        Rate { shift: 0, row: 9 + r % 4 }
    } else {
        Rate { shift: 0, row: 13 }
    }
}

pub fn attack_rate(r: u32) -> (x: Rate)
    requires
        r <= 95,
    ensures
        x == eg_attack_rate(r as int),
        x.shift <= 13,
        x.row <= 16,
{
    if r >= 76 {
        Rate { shift: 13, row: 0 }
    } else if r >= 64 {
        Rate { shift: 0, row: rate(r).row + 4 }
    } else {
        rate(r)
    }
}

/// Rate number of a four-bit rate: 0 never moves.
pub open spec fn rate_number(v: int) -> int {
    if v == 0 {
        0
    } else {
        16 + 4 * v
    }
}

pub fn number_of_rate(v: u8) -> (r: u32)
    requires
        v < 16,
    ensures
        r == rate_number(v as int),
        r <= 76,
{
    if v == 0 {
        0
    } else {
        16 + 4 * v as u32
    }
}

/// Frequency multiple, in halves.
pub open spec fn multiple(v: int) -> int {
    if v == 0 {
        1
    } else if v <= 10 {
        2 * v
    } else if v == 11 {
        20
    } else if v <= 13 {
        24
    } else {
        30
    }
}

pub fn multiple_of(v: u8) -> (r: u32)
    requires
        v < 16,
    ensures
        r == multiple(v as int),
        r <= 30,
{
    if v == 0 {
        1
    } else if v <= 10 {
        2 * v as u32
    } else if v == 11 {
        20
    } else if v <= 13 {
        24
    } else {
        30
    }
}

/// Key scale attenuation in the top octave, by the high four bits of the
/// frequency number.
pub open spec fn key_scale_top(n: int) -> int {
    if n == 0 {
        0
    } else if n == 1 {
        48
    } else if n == 2 {
        64
    } else if n == 3 {
        74
    } else if n == 4 {
        80
    } else if n == 5 {
        86
    } else if n == 6 {
        90
    } else if n == 7 {
        94
    } else if n == 8 {
        96
    } else {
        82 + 2 * n
    }
}

/// Key scale attenuation: 16 less for each octave down, never below 0.
pub open spec fn key_scale(octave: int, n: int) -> int {
    let k = key_scale_top(n) - 16 * (7 - octave);
    if k < 0 {
        0
    } else {
        k
    }
}

pub fn key_scale_of(octave: u32, n: u32) -> (r: u32)
    requires
        octave < 8,
        n < 16,
    ensures
        r == key_scale(octave as int, n as int),
        r <= 112,
{
    let top: u32 = match n {
        0 => 0,
        1 => 48,
        2 => 64,
        3 => 74,
        4 => 80,
        5 => 86,
        6 => 90,
        7 => 94,
        8 => 96,
        _ => 82 + 2 * n,
    };
    let less: u32 = 16 * (7 - octave);
    if top < less {
        0
    } else {
        top - less
    }
}

/// Tremolo depth at step `i` of 210: a triangle from 0 to 26 and back.
pub open spec fn tremolo(i: int) -> int {
    if i < 7 {
        0
    } else if i < 107 {
        1 + (i - 7) / 4
    } else if i < 110 {
        26
    } else {
        25 - (i - 110) / 4
    }
}

pub fn tremolo_at(i: u32) -> (r: u32)
    requires
        i < 210,
    ensures
        r == tremolo(i as int),
        r <= 26,
{
    if i < 7 {
        0
    } else if i < 107 {
        1 + (i - 7) / 4
    } else if i < 110 {
        26
    } else {
        25 - (i - 110) / 4
    }
}

/// Vibrato offset of the frequency number at step `k` of 8, for depth `d`.
pub open spec fn vibrato(d: int, k: int) -> int {
    if k == 0 {
        d
    } else if k == 1 || k == 7 {
        d / 2
    } else if k == 3 || k == 5 {
        -(d / 2)
    } else if k == 4 {
        -d
    } else {
        0
    }
}

pub fn vibrato_at(d: u32, k: u32) -> (r: i32)
    requires
        d < 8,
    ensures
        r == vibrato(d as int, k as int),
        -(d as int) <= r <= d,
{
    match k {
        0 => d as i32,
        1 | 7 => (d / 2) as i32,
        3 | 5 => -((d / 2) as i32),
        4 => -(d as i32),
        _ => 0,
    }
}

/// Attenuation of the sine at angle `i` of 1024.
#[verifier::opaque]
pub open spec fn sine_attenuation(i: int) -> int {
    let j = i % 512;
    if j < 256 {
        QUARTER_SINE[j] as int
    } else {
        QUARTER_SINE[511 - j] as int
    }
}

/// Amplitude of `steps` of attenuation: halved every 256, gone after eleven
/// halvings.
#[verifier::opaque]
pub open spec fn amplitude(steps: int) -> int {
    if steps >= 2816 {
        0
    } else {
        LEVELS[steps % 256] as int / power(steps / 256)
    }
}

/// Output of an operator at an angle for an envelope level. The second half of
/// the wave is negative, or silent for a half wave.
pub open spec fn operator_output(angle: int, env: int, half_wave: bool) -> int {
    let i = angle % 1024;
    let a = amplitude(16 * env + sine_attenuation(i));
    if i < 512 {
        a
    } else if half_wave {
        0
    } else {
        -a
    }
}

/// Output of an operator.
pub fn wave(angle: u32, env: u32, half_wave: bool) -> (r: i32)
    requires
        angle < 1024,
        env < 1024,
    ensures
        r == operator_output(angle as int, env as int, half_wave),
        -2042 <= r <= 2042,
{
    proof {
        reveal(sine_attenuation);
        reveal(amplitude);
    }
    let j: usize = (angle % 512) as usize;
    let sine: u32 = if j < 256 {
        QUARTER_SINE[j] as u32
    } else {
        QUARTER_SINE[511 - j] as u32
    };
    let steps: u32 = 16 * env + sine;
    if steps >= 2816 {
        return 0;
    }
    let level: u32 = LEVELS[(steps % 256) as usize] as u32;
    proof {
        lemma_levels((steps % 256) as int);
    }
    let p = power_of_two(steps / 256);
    assert(level / p <= level && level as int / (p as int) >= 0) by (nonlinear_arith)
        requires
            p >= 1,
            level >= 0,
    ;
    let a: i32 = (level / p) as i32;
    if angle < 512 {
        a
    } else if half_wave {
        0
    } else {
        -a
    }
}

/// Full scale is 2042.
pub(crate) proof fn lemma_levels(i: int)
    requires
        0 <= i < 256,
    ensures
        LEVELS[i] <= 2042,
{
}

} // verus!
