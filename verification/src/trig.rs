//! Sines and cosines of whole degrees, as fixed-point numbers.
//!
//! They are held to eighteen decimals ([`TRIG_SCALE`]), twelve more than a
//! length has, so that a product of a length and a sine is rounded once
//! only, when it is brought back to a length. One quarter turn is tabulated;
//! the other three follow by symmetry, so that `sin(-d) == -sin(d)` and
//! `cos(d) == sin(d + 90)` hold exactly.

use vstd::prelude::*;
use vstd::arithmetic::div_mod::lemma_fundamental_div_mod_converse;

verus! {

/// What stands for one in a sine or cosine.
pub const TRIG_SCALE: i64 = 1_000_000_000_000_000_000;

/// `TRIG_SCALE * sin(d degrees)` for `d` from 0 to 90, to the nearest
/// integer.
pub const SIN_TABLE: [i64; 91] = [
    0, 17_452_406_437_283_513, 34_899_496_702_500_972,
    52_335_956_242_943_833, 69_756_473_744_125_301, 87_155_742_747_658_174,
    104_528_463_267_653_471, 121_869_343_405_147_481, 139_173_100_960_065_444,
    156_434_465_040_230_869, 173_648_177_666_930_349, 190_808_995_376_544_812,
    207_911_690_817_759_337, 224_951_054_343_864_998, 241_921_895_599_667_723,
    258_819_045_102_520_762, 275_637_355_816_999_186, 292_371_704_722_736_728,
    309_016_994_374_947_424, 325_568_154_457_156_669, 342_020_143_325_668_733,
    358_367_949_545_300_273, 374_606_593_415_912_035, 390_731_128_489_273_755,
    406_736_643_075_800_208, 422_618_261_740_699_436, 438_371_146_789_077_417,
    453_990_499_739_546_792, 469_471_562_785_890_776, 484_809_620_246_337_029,
    500_000_000_000_000_000, 515_038_074_910_054_210, 529_919_264_233_204_954,
    544_639_035_015_027_082, 559_192_903_470_746_830, 573_576_436_351_046_096,
    587_785_252_292_473_129, 601_815_023_152_048_280, 615_661_475_325_658_280,
    629_320_391_049_837_453, 642_787_609_686_539_326, 656_059_028_990_507_285,
    669_130_606_358_858_214, 681_998_360_062_498_500, 694_658_370_458_997_287,
    707_106_781_186_547_524, 719_339_800_338_651_139, 731_353_701_619_170_483,
    743_144_825_477_394_235, 754_709_580_222_771_998, 766_044_443_118_978_035,
    777_145_961_456_970_880, 788_010_753_606_721_957, 798_635_510_047_292_846,
    809_016_994_374_947_424, 819_152_044_288_991_790, 829_037_572_555_041_692,
    838_670_567_945_424_030, 848_048_096_156_425_970, 857_167_300_702_112_287,
    866_025_403_784_438_647, 874_619_707_139_395_800, 882_947_592_858_926_942,
    891_006_524_188_367_862, 898_794_046_299_166_993, 906_307_787_036_649_963,
    913_545_457_642_600_896, 920_504_853_452_440_327, 927_183_854_566_787_401,
    933_580_426_497_201_749, 939_692_620_785_908_384, 945_518_575_599_316_810,
    951_056_516_295_153_572, 956_304_755_963_035_481, 961_261_695_938_318_862,
    965_925_826_289_068_287, 970_295_726_275_996_472, 974_370_064_785_235_229,
    978_147_600_733_805_638, 981_627_183_447_663_953, 984_807_753_012_208_059,
    987_688_340_595_137_726, 990_268_068_741_570_315, 992_546_151_641_322_035,
    994_521_895_368_273_337, 996_194_698_091_745_532, 997_564_050_259_824_248,
    998_629_534_754_573_874, 999_390_827_019_095_730, 999_847_695_156_391_239,
    1_000_000_000_000_000_000,
];

/// The sine of `degrees`, in units of `1 / TRIG_SCALE`.
pub open spec fn spec_sin_deg(degrees: int) -> int {
    let d = degrees % 360;
    if d <= 90 {
        SIN_TABLE[d] as int
    } else if d <= 180 {
        SIN_TABLE[180 - d] as int
    } else if d <= 270 {
        -SIN_TABLE[d - 180]
    } else {
        -SIN_TABLE[360 - d]
    }
}

/// The cosine of `degrees`, in units of `1 / TRIG_SCALE`.
pub open spec fn spec_cos_deg(degrees: int) -> int {
    spec_sin_deg(degrees + 90)
}

/// Every tabulated sine lies between zero and one.
proof fn lemma_table_bounds(d: int)
    requires
        0 <= d <= 90,
    ensures
        0 <= SIN_TABLE[d] <= TRIG_SCALE,
{
}

/// How far `sin^2 + cos^2` of a tabulated angle may lie from the square of
/// one, in units of `1 / TRIG_SCALE^2`: little more than one part in
/// `TRIG_SCALE`.
pub const UNIT_CIRCLE_SLACK: i64 = 1_133_759_066_578_938_848;

/// The sum of the squares of `s` and `c` is the square of one and `off`.
/// The caller shows this of three literals; what is gained is the sum of
/// the squares as a fact about `s` and `c`.
proof fn lemma_sum_of_squares(s: int, c: int, off: int)
    by (nonlinear_arith)
    requires
        s * s + c * c - 1_000_000_000_000_000_000_000_000_000_000_000_000int == off,
    ensures
        s * s + c * c == 1_000_000_000_000_000_000_000_000_000_000_000_000int + off,
        c * c + s * s == 1_000_000_000_000_000_000_000_000_000_000_000_000int + off,
{
}

/// A tabulated angle of at most 45 degrees and its complement lie on the
/// unit circle, up to [`UNIT_CIRCLE_SLACK`]. Each pair is checked by itself.
proof fn lemma_table_pair(d: int)
    requires
        0 <= d <= 45,
    ensures
        -UNIT_CIRCLE_SLACK <= SIN_TABLE[d] * SIN_TABLE[d] + SIN_TABLE[90 - d] * SIN_TABLE[90 - d]
            - 1_000_000_000_000_000_000_000_000_000_000_000_000int <= UNIT_CIRCLE_SLACK,
{
    if d == 0 {
        lemma_sum_of_squares(0, 1_000_000_000_000_000_000, 0);
    } else if d == 1 {
        lemma_sum_of_squares(17_452_406_437_283_513, 999_847_695_156_391_239, -307_672_143_622_423_710);
    } else if d == 2 {
        lemma_sum_of_squares(34_899_496_702_500_972, 999_390_827_019_095_730, 12_229_906_565_177_684);
    } else if d == 3 {
        lemma_sum_of_squares(52_335_956_242_943_833, 998_629_534_754_573_874, 459_511_565_316_099_765);
    } else if d == 4 {
        lemma_sum_of_squares(69_756_473_744_125_301, 997_564_050_259_824_248, 803_046_649_437_106_105);
    } else if d == 5 {
        lemma_sum_of_squares(87_155_742_747_658_174, 996_194_698_091_745_532, -510_741_124_209_022_700);
    } else if d == 6 {
        lemma_sum_of_squares(104_528_463_267_653_471, 994_521_895_368_273_337, 70_181_007_283_463_410);
    } else if d == 7 {
        lemma_sum_of_squares(121_869_343_405_147_481, 992_546_151_641_322_035, 12_062_969_937_186_586);
    } else if d == 8 {
        lemma_sum_of_squares(139_173_100_960_065_444, 990_268_068_741_570_315, -197_232_171_147_883_639);
    } else if d == 9 {
        lemma_sum_of_squares(156_434_465_040_230_869, 987_688_340_595_137_726, -378_562_714_271_053_763);
    } else if d == 10 {
        lemma_sum_of_squares(173_648_177_666_930_349, 984_807_753_012_208_059, -670_844_472_878_190_718);
    } else if d == 11 {
        lemma_sum_of_squares(190_808_995_376_544_812, 981_627_183_447_663_953, -1_129_374_311_740_298_447);
    } else if d == 12 {
        lemma_sum_of_squares(207_911_690_817_759_337, 978_147_600_733_805_638, 97_437_707_611_266_613);
    } else if d == 13 {
        lemma_sum_of_squares(224_951_054_343_864_998, 974_370_064_785_235_229, 874_022_597_712_222_445);
    } else if d == 14 {
        lemma_sum_of_squares(241_921_895_599_667_723, 970_295_726_275_996_472, -381_877_055_435_548_487);
    } else if d == 15 {
        lemma_sum_of_squares(258_819_045_102_520_762, 965_925_826_289_068_287, 302_855_685_190_175_013);
    } else if d == 16 {
        lemma_sum_of_squares(275_637_355_816_999_186, 961_261_695_938_318_862, 353_498_196_709_637_640);
    } else if d == 17 {
        lemma_sum_of_squares(292_371_704_722_736_728, 956_304_755_963_035_481, -704_700_950_334_952_655);
    } else if d == 18 {
        lemma_sum_of_squares(309_016_994_374_947_424, 951_056_516_295_153_572, -284_701_582_171_405_040);
    } else if d == 19 {
        lemma_sum_of_squares(325_568_154_457_156_669, 945_518_575_599_316_810, -472_097_589_240_248_339);
    } else if d == 20 {
        lemma_sum_of_squares(342_020_143_325_668_733, 939_692_620_785_908_384, -131_858_090_304_683_255);
    } else if d == 21 {
        lemma_sum_of_squares(358_367_949_545_300_273, 933_580_426_497_201_749, -328_407_731_057_466_470);
    } else if d == 22 {
        lemma_sum_of_squares(374_606_593_415_912_035, 927_183_854_566_787_401, 47_971_196_790_176_026);
    } else if d == 23 {
        lemma_sum_of_squares(390_731_128_489_273_755, 920_504_853_452_440_327, -779_203_801_172_333_046);
    } else if d == 24 {
        lemma_sum_of_squares(406_736_643_075_800_208, 913_545_457_642_600_896, 1_109_784_015_072_846_080);
    } else if d == 25 {
        lemma_sum_of_squares(422_618_261_740_699_436, 906_307_787_036_649_963, -597_695_771_721_380_535);
    } else if d == 26 {
        lemma_sum_of_squares(438_371_146_789_077_417, 898_794_046_299_166_993, -5_588_820_279_946_062);
    } else if d == 27 {
        lemma_sum_of_squares(453_990_499_739_546_792, 891_006_524_188_367_862, -241_866_299_008_057_692);
    } else if d == 28 {
        lemma_sum_of_squares(469_471_562_785_890_776, 882_947_592_858_926_942, -18_748_644_504_646_460);
    } else if d == 29 {
        lemma_sum_of_squares(484_809_620_246_337_029, 874_619_707_139_395_800, -570_987_719_085_813_159);
    } else if d == 30 {
        lemma_sum_of_squares(500_000_000_000_000_000, 866_025_403_784_438_647, 409_243_472_907_190_609);
    } else if d == 31 {
        lemma_sum_of_squares(515_038_074_910_054_210, 857_167_300_702_112_287, -881_626_391_304_905_531);
    } else if d == 32 {
        lemma_sum_of_squares(529_919_264_233_204_954, 848_048_096_156_425_970, -704_572_413_339_416_984);
    } else if d == 33 {
        lemma_sum_of_squares(544_639_035_015_027_082, 838_670_567_945_424_030, 363_794_169_694_875_624);
    } else if d == 34 {
        lemma_sum_of_squares(559_192_903_470_746_830, 829_037_572_555_041_692, -189_927_514_186_728_236);
    } else if d == 35 {
        lemma_sum_of_squares(573_576_436_351_046_096, 819_152_044_288_991_790, 392_974_848_204_245_316);
    } else if d == 36 {
        lemma_sum_of_squares(587_785_252_292_473_129, 809_016_994_374_947_424, -363_839_970_048_713_583);
    } else if d == 37 {
        lemma_sum_of_squares(601_815_023_152_048_280, 798_635_510_047_292_846, -354_900_907_266_261_884);
    } else if d == 38 {
        lemma_sum_of_squares(615_661_475_325_658_280, 788_010_753_606_721_957, 890_098_090_438_468_249);
    } else if d == 39 {
        lemma_sum_of_squares(629_320_391_049_837_453, 777_145_961_456_970_880, 401_345_762_889_501_609);
    } else if d == 40 {
        lemma_sum_of_squares(642_787_609_686_539_326, 766_044_443_118_978_035, -724_865_903_043_004_499);
    } else if d == 41 {
        lemma_sum_of_squares(656_059_028_990_507_285, 754_709_580_222_771_998, 371_451_684_730_983_229);
    } else if d == 42 {
        lemma_sum_of_squares(669_130_606_358_858_214, 743_144_825_477_394_235, 210_647_591_366_505_021);
    } else if d == 43 {
        lemma_sum_of_squares(681_998_360_062_498_500, 731_353_701_619_170_483, -1_023_786_684_479_296_711);
    } else if d == 44 {
        lemma_sum_of_squares(694_658_370_458_997_287, 719_339_800_338_651_139, -34_888_116_580_642_310);
    } else if d == 45 {
        lemma_sum_of_squares(707_106_781_186_547_524, 707_106_781_186_547_524, -1_133_759_066_578_938_848);
    }
}

/// A tabulated angle and its complement lie on the unit circle, up to
/// [`UNIT_CIRCLE_SLACK`].
proof fn lemma_table_unit_circle(d: int)
    requires
        0 <= d <= 90,
    ensures
        -UNIT_CIRCLE_SLACK <= SIN_TABLE[d] * SIN_TABLE[d] + SIN_TABLE[90 - d] * SIN_TABLE[90 - d]
            - 1_000_000_000_000_000_000_000_000_000_000_000_000int <= UNIT_CIRCLE_SLACK,
{
    if d <= 45 {
        lemma_table_pair(d);
    } else {
        lemma_table_pair(90 - d);
    }
}

/// Sine and cosine of every angle lie on the unit circle, up to
/// [`UNIT_CIRCLE_SLACK`].
pub proof fn lemma_unit_circle(degrees: int)
    ensures
        -UNIT_CIRCLE_SLACK <= spec_sin_deg(degrees) * spec_sin_deg(degrees) + spec_cos_deg(degrees)
            * spec_cos_deg(degrees) - 1_000_000_000_000_000_000_000_000_000_000_000_000int <= UNIT_CIRCLE_SLACK,
{
    let d = degrees % 360;
    let e = (degrees + 90) % 360;
    let s = spec_sin_deg(degrees);
    let c = spec_cos_deg(degrees);
    let i = if d <= 90 {
        d
    } else if d <= 180 {
        180 - d
    } else if d <= 270 {
        d - 180
    } else {
        360 - d
    };
    assert(e == if d < 270 { d + 90 } else { d - 270 });
    let ti = SIN_TABLE[i] as int;
    let tj = SIN_TABLE[90 - i] as int;
    assert(s == ti || s == -ti);
    assert(c == tj || c == -tj);
    lemma_table_unit_circle(i);
    assert(s * s == ti * ti && c * c == tj * tj) by (nonlinear_arith)
        requires
            s == ti || s == -ti,
            c == tj || c == -tj,
    ;
}

/// Sines and cosines never exceed one in magnitude.
pub proof fn lemma_sin_cos_bounds(degrees: int)
    ensures
        -TRIG_SCALE <= spec_sin_deg(degrees) <= TRIG_SCALE,
        -TRIG_SCALE <= spec_cos_deg(degrees) <= TRIG_SCALE,
{
}

/// A known quotient and remainder by 360 fix the angle within its turn.
proof fn lemma_reduced(degrees: int, turns: int, rest: int)
    requires
        degrees == 360 * turns + rest,
        0 <= rest < 360,
    ensures
        degrees % 360 == rest,
{
    lemma_fundamental_div_mod_converse(degrees, 360, turns, rest);
}

/// The sine is odd and the cosine is even; both repeat after a full turn.
pub proof fn lemma_sin_cos_symmetry(degrees: int)
    ensures
        spec_sin_deg(-degrees) == -spec_sin_deg(degrees),
        spec_cos_deg(-degrees) == spec_cos_deg(degrees),
        spec_sin_deg(degrees + 360) == spec_sin_deg(degrees),
        spec_cos_deg(degrees + 360) == spec_cos_deg(degrees),
{
    let q = degrees / 360;
    let d = degrees % 360;
    assert(degrees == 360 * q + d && 0 <= d < 360);
    // the angle and its cosine's angle, one turn on
    lemma_reduced(degrees + 360, q + 1, d);
    if d < 270 {
        lemma_reduced(degrees + 90, q, d + 90);
        lemma_reduced(degrees + 90 + 360, q + 1, d + 90);
    } else {
        lemma_reduced(degrees + 90, q + 1, d - 270);
        lemma_reduced(degrees + 90 + 360, q + 2, d - 270);
    }
    // the mirrored angle and its cosine's angle
    if d == 0 {
        lemma_reduced(-degrees, -q, 0);
    } else {
        lemma_reduced(-degrees, -q - 1, 360 - d);
    }
    if d <= 90 {
        lemma_reduced(-degrees + 90, -q, 90 - d);
    } else {
        lemma_reduced(-degrees + 90, -q - 1, 450 - d);
    }
}

/// `degrees` brought into `0..360`.
pub fn reduce_degrees(degrees: i64) -> (r: usize)
    ensures
        r == degrees as int % 360,
{
    if degrees >= 0 {
        (degrees % 360) as usize
    } else {
        let m: i128 = -(degrees as i128);
        let k: i128 = m % 360;
        let q: i128 = m / 360;
        if k == 0 {
            proof {
                lemma_fundamental_div_mod_converse(degrees as int, 360, -q as int, 0);
            }
            0
        } else {
            proof {
                lemma_fundamental_div_mod_converse(degrees as int, 360, -q - 1, 360 - k);
            }
            (360 - k) as usize
        }
    }
}

/// The sine of a whole number of degrees, in units of `1 / TRIG_SCALE`.
pub fn sin_deg(degrees: i32) -> (r: i64)
    ensures
        r == spec_sin_deg(degrees as int),
        -TRIG_SCALE <= r <= TRIG_SCALE,
{
    sin_wide(degrees as i64)
}

fn sin_wide(degrees: i64) -> (r: i64)
    ensures
        r == spec_sin_deg(degrees as int),
        -TRIG_SCALE <= r <= TRIG_SCALE,
{
    proof {
        lemma_sin_cos_bounds(degrees as int);
    }
    let d = reduce_degrees(degrees);
    if d <= 90 {
        SIN_TABLE[d]
    } else if d <= 180 {
        SIN_TABLE[180 - d]
    } else if d <= 270 {
        proof {
            lemma_table_bounds(d - 180);
        }
        -SIN_TABLE[d - 180]
    } else {
        proof {
            lemma_table_bounds(360 - d);
        }
        -SIN_TABLE[360 - d]
    }
}

/// The cosine of a whole number of degrees, in units of `1 / TRIG_SCALE`.
pub fn cos_deg(degrees: i32) -> (r: i64)
    ensures
        r == spec_cos_deg(degrees as int),
        -TRIG_SCALE <= r <= TRIG_SCALE,
{
    proof {
        lemma_sin_cos_bounds(degrees as int);
    }
    sin_wide(degrees as i64 + 90)
}

} // verus!
