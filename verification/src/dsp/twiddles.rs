//! Roots of unity of the fixed-point transform, from a quarter-wave table.
use vstd::prelude::*;

verus! {

/// Number of roots: the largest transform length.
pub const TW_MASTER: usize = 2048;

/// `cos(2 * pi * i / TW_MASTER)` in Q15, rounded to nearest, over the first
/// quarter wave; the next entry would be zero.
pub const QUARTER_COS: [u16; 512] = [
    32768, 32768, 32767, 32767, 32766, 32764, 32762, 32760, 32758, 32756, 32753, 32749,
    32746, 32742, 32738, 32733, 32729, 32723, 32718, 32712, 32706, 32700, 32693, 32686,
    32679, 32672, 32664, 32656, 32647, 32638, 32629, 32620, 32610, 32600, 32590, 32579,
    32568, 32557, 32546, 32534, 32522, 32509, 32496, 32483, 32470, 32456, 32442, 32428,
    32413, 32398, 32383, 32368, 32352, 32336, 32319, 32303, 32286, 32268, 32251, 32233,
    32214, 32196, 32177, 32158, 32138, 32119, 32099, 32078, 32058, 32037, 32015, 31994,
    31972, 31950, 31927, 31904, 31881, 31858, 31834, 31810, 31786, 31761, 31737, 31711,
    31686, 31660, 31634, 31608, 31581, 31554, 31527, 31499, 31471, 31443, 31415, 31386,
    31357, 31328, 31298, 31268, 31238, 31207, 31177, 31146, 31114, 31082, 31050, 31018,
    30986, 30953, 30920, 30886, 30853, 30819, 30784, 30750, 30715, 30680, 30644, 30608,
    30572, 30536, 30499, 30462, 30425, 30388, 30350, 30312, 30274, 30235, 30196, 30157,
    30118, 30078, 30038, 29997, 29957, 29916, 29875, 29833, 29792, 29750, 29707, 29665,
    29622, 29579, 29535, 29492, 29448, 29404, 29359, 29314, 29269, 29224, 29178, 29132,
    29086, 29040, 28993, 28946, 28899, 28851, 28803, 28755, 28707, 28658, 28610, 28560,
    28511, 28461, 28411, 28361, 28311, 28260, 28209, 28158, 28106, 28054, 28002, 27950,
    27897, 27844, 27791, 27738, 27684, 27630, 27576, 27522, 27467, 27412, 27357, 27301,
    27246, 27190, 27133, 27077, 27020, 26963, 26906, 26848, 26791, 26733, 26674, 26616,
    26557, 26498, 26439, 26379, 26320, 26259, 26199, 26139, 26078, 26017, 25956, 25894,
    25833, 25771, 25708, 25646, 25583, 25520, 25457, 25394, 25330, 25266, 25202, 25138,
    25073, 25008, 24943, 24878, 24812, 24746, 24680, 24614, 24548, 24481, 24414, 24347,
    24279, 24212, 24144, 24076, 24008, 23939, 23870, 23801, 23732, 23663, 23593, 23523,
    23453, 23383, 23312, 23241, 23170, 23099, 23028, 22956, 22884, 22812, 22740, 22668,
    22595, 22522, 22449, 22375, 22302, 22228, 22154, 22080, 22006, 21931, 21856, 21781,
    21706, 21631, 21555, 21479, 21403, 21327, 21251, 21174, 21097, 21020, 20943, 20865,
    20788, 20710, 20632, 20554, 20475, 20397, 20318, 20239, 20160, 20081, 20001, 19921,
    19841, 19761, 19681, 19601, 19520, 19439, 19358, 19277, 19195, 19114, 19032, 18950,
    18868, 18786, 18703, 18621, 18538, 18455, 18372, 18288, 18205, 18121, 18037, 17953,
    17869, 17785, 17700, 17616, 17531, 17446, 17361, 17275, 17190, 17104, 17018, 16932,
    16846, 16760, 16673, 16587, 16500, 16413, 16326, 16239, 16151, 16064, 15976, 15888,
    15800, 15712, 15624, 15535, 15447, 15358, 15269, 15180, 15091, 15002, 14912, 14823,
    14733, 14643, 14553, 14463, 14373, 14282, 14192, 14101, 14010, 13919, 13828, 13737,
    13646, 13554, 13463, 13371, 13279, 13187, 13095, 13003, 12910, 12818, 12725, 12633,
    12540, 12447, 12354, 12261, 12167, 12074, 11980, 11887, 11793, 11699, 11605, 11511,
    11417, 11323, 11228, 11134, 11039, 10945, 10850, 10755, 10660, 10565, 10469, 10374,
    10279, 10183, 10088, 9992, 9896, 9800, 9704, 9608, 9512, 9416, 9319, 9223,
    9127, 9030, 8933, 8836, 8740, 8643, 8546, 8449, 8351, 8254, 8157, 8059,
    7962, 7864, 7767, 7669, 7571, 7473, 7376, 7278, 7180, 7081, 6983, 6885,
    6787, 6688, 6590, 6491, 6393, 6294, 6195, 6097, 5998, 5899, 5800, 5701,
    5602, 5503, 5404, 5305, 5205, 5106, 5007, 4907, 4808, 4709, 4609, 4510,
    4410, 4310, 4211, 4111, 4011, 3911, 3812, 3712, 3612, 3512, 3412, 3312,
    3212, 3112, 3012, 2912, 2811, 2711, 2611, 2511, 2411, 2310, 2210, 2110,
    2009, 1909, 1809, 1708, 1608, 1507, 1407, 1307, 1206, 1106, 1005, 905,
    804, 704, 603, 503, 402, 302, 201, 101,
];

/// The first quarter wave with both its ends.
#[verifier::opaque]
pub open spec fn quarter(i: int) -> int {
    if i == 512 {
        0
    } else {
        QUARTER_COS@[i] as int
    }
}

/// `cos(2 * pi * i / TW_MASTER)` in Q15 over the whole circle, by symmetry.
#[verifier::opaque]
pub open spec fn cosine(i: int) -> int {
    let j = i % 2048;
    if j <= 512 {
        quarter(j)
    } else if j <= 1024 {
        -quarter(1024 - j)
    } else if j <= 1536 {
        -quarter(j - 1024)
    } else {
        quarter(2048 - j)
    }
}

/// Reads the first quarter wave.
fn quarter_at(i: usize) -> (c: i32)
    requires
        i <= 512,
    ensures
        c == quarter(i as int),
        0 <= c <= 0xffff,
{
    reveal(quarter);
    if i == 512 {
        0
    } else {
        QUARTER_COS[i] as i32
    }
}

/// The cosine of `i` steps round the circle, in Q15.
pub fn cosine_at(i: usize) -> (c: i32)
    requires
        i < 2048,
    ensures
        c == cosine(i as int),
        -0xffff <= c <= 0xffff,
{
    reveal(cosine);
    if i <= 512 {
        quarter_at(i)
    } else if i <= 1024 {
        -quarter_at(1024 - i)
    } else if i <= 1536 {
        -quarter_at(i - 1024)
    } else {
        quarter_at(2048 - i)
    }
}

/// The cosine has the circle's period.
pub proof fn law_cosine_is_periodic(i: int)
    ensures
        cosine(i + 2048) == cosine(i),
{
    reveal(cosine);
}

/// Symmetries of the cosine: even, and opposite half a turn on.
pub proof fn law_cosine_is_symmetric(i: int)
    ensures
        cosine(-i) == cosine(i),
        cosine(i + 1024) == -cosine(i),
{
    let j = i % 2048;
    let back = (-i) % 2048;
    let on = (i + 1024) % 2048;
    assert(back == if j == 0 {
        0
    } else {
        2048 - j
    });
    assert(on == if j < 1024 {
        j + 1024
    } else {
        j - 1024
    });
    lemma_quarter_end();
    assert(cosine(-i) == cosine(i) && cosine(i + 1024) == -cosine(i)) by {
        reveal(cosine);
    }
}

/// Over the first quarter the cosine is the table.
pub proof fn law_first_quarter_is_the_table(i: int)
    requires
        0 <= i < 512,
    ensures
        cosine(i) == QUARTER_COS@[i],
{
    reveal(cosine);
    reveal(quarter);
}

/// A quarter turn from its peak the cosine is zero.
proof fn lemma_quarter_end()
    ensures
        quarter(512) == 0,
{
    reveal(quarter);
}

} // verus!
