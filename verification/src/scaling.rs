//! Samples of one bit depth as samples of another.
use crate::errors::DecodeUncompressedError;
use crate::text::{Arg, Detail};
#[allow(unused_imports)]
use crate::uncompressed::reader::invalid;
use crate::uncompressed::reader::invalid_input;
use vstd::arithmetic::power2::{
    lemma2_to64, lemma_pow2_adds, lemma_pow2_pos, lemma_pow2_strictly_increases, pow2,
};
use vstd::prelude::*;

verus! {

/// The largest sample of `bit_depth` bits.
pub open spec fn max_sample(bit_depth: int) -> int {
    pow2(bit_depth as nat) - 1
}

proof fn lemma_pow2_16(bit_depth: nat)
    requires
        bit_depth <= 16,
    ensures
        1 <= pow2(bit_depth) <= 65536,
        pow2(16) == 65536,
        pow2(8) == 256,
        bit_depth >= 1 ==> pow2(bit_depth) >= 2,
{
    lemma2_to64();
    if bit_depth < 16 {
        lemma_pow2_strictly_increases(bit_depth, 16);
    }
    if bit_depth > 1 {
        lemma_pow2_strictly_increases(1, bit_depth);
    }
    lemma_pow2_pos(bit_depth);
}

/// `1 << bit_depth`.
pub(crate) fn power_of_two(bit_depth: u8) -> (power: u32)
    requires
        bit_depth < 32,
    ensures
        power == pow2(bit_depth as nat),
        power > 0,
{
    proof {
        lemma2_to64();
        if bit_depth < 31 {
            lemma_pow2_strictly_increases(bit_depth as nat, 31);
        }
        vstd::bits::lemma_u32_shl_is_mul(1, bit_depth as u32);
        lemma_pow2_pos(bit_depth as nat);
    }
    1u32 << (bit_depth as u32)
}

/// The largest sample that `bit_depth` bits can hold.
pub fn max_sample_for_bit_depth(bit_depth: u8) -> (max: Result<u16, DecodeUncompressedError>)
    ensures
        max == (if bit_depth == 0 || bit_depth > 16 {
            Err::<u16, DecodeUncompressedError>(
                invalid(
                    Detail::One(
                        "invalid uncompressed output bit depth {}",
                        Arg::Num(bit_depth as i128),
                    ),
                ),
            )
        } else {
            Ok(max_sample(bit_depth as int) as u16)
        }),
{
    if bit_depth == 0 || bit_depth > 16 {
        return invalid_input(
            Detail::One("invalid uncompressed output bit depth {}", Arg::Num(bit_depth as i128)),
        );
    }
    proof {
        lemma_pow2_16(bit_depth as nat);
    }
    Ok((power_of_two(bit_depth) - 1) as u16)
}

/// `copies` copies of the bits of `sample` behind each other, each of `bits`
/// bits.
pub open spec fn repeated(sample: int, bits: nat, copies: nat) -> int
    decreases copies,
{
    if copies == 0 {
        0
    } else {
        repeated(sample, bits, (copies - 1) as nat) * pow2(bits) + sample
    }
}

/// The number of copies of `source` bits that fill `target` bits.
pub open spec fn copies_for(source: int, target: int) -> int {
    (target + source - 1) / source
}

/// A sample with more bits: its bits over and over, cut to the new length.
pub open spec fn expanded(sample: int, source: int, target: int) -> int {
    let copies = copies_for(source, target);
    repeated(sample, source as nat, copies as nat) / (pow2(
        (copies * source - target) as nat,
    ) as int)
}

/// A sample with fewer bits: the nearest one in proportion.
pub open spec fn reduced(sample: int, source: int, target: int) -> int {
    (sample * max_sample(target) + max_sample(source) / 2) / max_sample(source)
}

/// A sample of `source` bits as one of `target` bits.
pub open spec fn scaled(sample: u16, source: u8, target: u8, name: &'static str) -> Result<
    u16,
    DecodeUncompressedError,
> {
    if source == target {
        Ok(sample)
    } else if source == 0 || source > 16 || target == 0 || target > 16 {
        Err(
            invalid(
                Detail::Three(
                    "cannot scale {} sample between invalid bit depths {}->{}",
                    Arg::Word(name),
                    Arg::Num(source as i128),
                    Arg::Num(target as i128),
                ),
            ),
        )
    } else if sample > max_sample(source as int) {
        Err(
            invalid(
                Detail::Three(
                    "{} sample {} exceeds source bit depth {}",
                    Arg::Word(name),
                    Arg::Num(sample as i128),
                    Arg::Num(source as i128),
                ),
            ),
        )
    } else if source < target {
        Ok(expanded(sample as int, source as int, target as int) as u16)
    } else {
        Ok(reduced(sample as int, source as int, target as int) as u16)
    }
}

/// Repeated bits fill their length and no more.
proof fn lemma_repeated_bound(sample: int, bits: nat, copies: nat)
    requires
        0 <= sample < pow2(bits),
    ensures
        0 <= repeated(sample, bits, copies) < pow2(bits * copies),
    decreases copies,
{
    if copies == 0 {
        assert(bits * copies == 0) by (nonlinear_arith)
            requires
                copies == 0,
        ;
        lemma2_to64();
    } else {
        let rest = repeated(sample, bits, (copies - 1) as nat);
        lemma_repeated_bound(sample, bits, (copies - 1) as nat);
        let small = bits * ((copies - 1) as nat);
        assert(bits * copies == small + bits) by (nonlinear_arith)
            requires
                small == bits * ((copies - 1) as nat),
                copies >= 1,
        ;
        lemma_pow2_adds(small, bits);
        assert(0 <= rest * pow2(bits) + sample < pow2(small) * pow2(bits)) by (nonlinear_arith)
            requires
                0 <= rest < pow2(small),
                0 <= sample < pow2(bits),
        ;
    }
}

/// An expanded sample fits its new length.
pub proof fn lemma_expanded_bound(sample: int, source: int, target: int)
    requires
        1 <= source < target <= 16,
        0 <= sample <= max_sample(source),
    ensures
        0 <= expanded(sample, source, target) <= max_sample(target),
{
    let copies = copies_for(source, target);
    assert(target <= copies * source) by (nonlinear_arith)
        requires
            source >= 1,
            copies == (target + source - 1) / source,
    ;
    assert(copies >= 1) by (nonlinear_arith)
        requires
            source >= 1,
            target >= 1,
            copies == (target + source - 1) / source,
    ;
    let total = (copies * source) as nat;
    let extra = (copies * source - target) as nat;
    lemma_repeated_bound(sample, source as nat, copies as nat);
    assert(source * copies == copies * source) by (nonlinear_arith);
    lemma_pow2_adds(extra, target as nat);
    lemma_pow2_pos(extra);
    let value = repeated(sample, source as nat, copies as nat);
    let e = pow2(extra) as int;
    let t = pow2(target as nat) as int;
    assert(0 <= value / e < t) by (nonlinear_arith)
        requires
            0 <= value < e * t,
            e > 0,
    ;
}

/// Repeated bits begin with one copy; the other copies stand behind it.
proof fn lemma_repeated_front(sample: int, bits: nat, copies: nat)
    requires
        copies >= 1,
    ensures
        repeated(sample, bits, copies) == sample * pow2(bits * ((copies - 1) as nat)) + repeated(
            sample,
            bits,
            (copies - 1) as nat,
        ),
    decreases copies,
{
    let fewer = (copies - 1) as nat;
    let p = pow2(bits) as int;
    if copies == 1 {
        reveal_with_fuel(repeated, 2);
        assert(bits * fewer == 0) by (nonlinear_arith)
            requires
                fewer == 0,
        ;
        lemma2_to64();
        assert(0 * p == 0) by (nonlinear_arith);
        assert(sample * 1 == sample);
    } else {
        lemma_repeated_front(sample, bits, fewer);
        let few = bits * ((copies - 2) as nat);
        let rest = repeated(sample, bits, (copies - 2) as nat);
        assert(bits * fewer == few + bits) by (nonlinear_arith)
            requires
                few == bits * ((copies - 2) as nat),
                fewer == copies - 1,
                copies >= 2,
        ;
        lemma_pow2_adds(few, bits);
        assert((sample * pow2(few) + rest) * p + sample == sample * (pow2(few) * p) + (rest * p
            + sample)) by (nonlinear_arith);
    }
}

/// An expanded sample begins with the bits of the sample.
pub proof fn lemma_expanded_front(sample: int, source: int, target: int)
    requires
        1 <= source < target <= 16,
        0 <= sample <= max_sample(source),
    ensures
        expanded(sample, source, target) / pow2((target - source) as nat) as int == sample,
{
    let copies = copies_for(source, target);
    assert(target <= copies * source && copies >= 1) by (nonlinear_arith)
        requires
            source >= 1,
            target >= 1,
            copies == (target + source - 1) / source,
    ;
    let fewer = (copies - 1) as nat;
    let extra = (copies * source - target) as nat;
    let rest = (target - source) as nat;
    let value = repeated(sample, source as nat, copies as nat);
    let behind = repeated(sample, source as nat, fewer);
    lemma_repeated_front(sample, source as nat, copies as nat);
    lemma_repeated_bound(sample, source as nat, fewer);
    assert(source * fewer == extra + rest) by (nonlinear_arith)
        requires
            fewer == copies - 1,
            extra == copies * source - target,
            rest == target - source,
    ;
    lemma_pow2_adds(extra, rest);
    lemma_pow2_pos(extra);
    lemma_pow2_pos(rest);
    let whole = pow2(extra + rest) as int;
    vstd::arithmetic::div_mod::lemma_fundamental_div_mod_converse(value, whole, sample, behind);
    vstd::arithmetic::div_mod::lemma_div_denominator(
        value,
        pow2(extra) as int,
        pow2(rest) as int,
    );
}

/// A reduced sample fits its new length.
pub proof fn lemma_reduced_bound(sample: int, source: int, target: int)
    requires
        1 <= target < source <= 16,
        0 <= sample <= max_sample(source),
    ensures
        0 <= reduced(sample, source, target) <= max_sample(target),
{
    lemma_pow2_16(source as nat);
    lemma_pow2_16(target as nat);
    let s = max_sample(source);
    let t = max_sample(target);
    assert(0 <= (sample * t + s / 2) / s <= t) by (nonlinear_arith)
        requires
            0 <= sample <= s,
            s >= 1,
            t >= 1,
    ;
}

/// A sample with more bits: its bits over and over, cut to the new length.
pub(crate) fn expand_sample(sample: u16, source_bit_depth: u8, target_bit_depth: u8) -> (wide: u16)
    requires
        1 <= source_bit_depth < target_bit_depth <= 16,
        sample <= max_sample(source_bit_depth as int),
    ensures
        wide == expanded(sample as int, source_bit_depth as int, target_bit_depth as int),
{
    proof {
        lemma_pow2_16(source_bit_depth as nat);
    }
    let source_range: u32 = power_of_two(source_bit_depth);
    let sample_u32: u32 = sample as u32;
    let ghost source = source_bit_depth as int;
    let ghost target = target_bit_depth as int;
    let mut value: u32 = sample_u32;
    let mut produced_bits: u8 = source_bit_depth;
    let ghost mut copies: nat = 1;
    proof {
        assert(repeated(sample as int, source as nat, 1) == sample) by {
            reveal_with_fuel(repeated, 2);
            assert(0 * pow2(source as nat) == 0) by (nonlinear_arith);
        }
    }
    while produced_bits < target_bit_depth
        invariant
            1 <= source_bit_depth < target_bit_depth <= 16,
            source == source_bit_depth,
            target == target_bit_depth,
            source_range == pow2(source as nat),
            sample_u32 == sample,
            sample_u32 < source_range <= 65536,
            copies >= 1,
            produced_bits == copies * source,
            produced_bits <= target + source - 1,
            (copies - 1) * source < target,
            value == repeated(sample as int, source as nat, copies),
        decreases 32 - produced_bits,
    {
        proof {
            lemma_repeated_bound(sample as int, source as nat, copies);
            lemma2_to64();
            assert(source * copies == copies * source) by (nonlinear_arith);
            lemma_pow2_strictly_increases(produced_bits as nat, 16);
            assert(value < 65536);
            assert(value * source_range + sample_u32 < 0x1_0000_0000) by (nonlinear_arith)
                requires
                    value < 65536,
                    sample_u32 < source_range <= 65536,
            ;
            assert((copies + 1) * source == copies * source + source) by (nonlinear_arith);
            assert(value * source_range >= 0) by (nonlinear_arith)
                requires
                    value >= 0,
                    source_range >= 0,
            ;
            assert(repeated(sample as int, source as nat, copies + 1) == repeated(
                sample as int,
                source as nat,
                copies,
            ) * pow2(source as nat) + sample);
        }
        value = value * source_range + sample_u32;
        produced_bits = produced_bits + source_bit_depth;
        proof {
            copies = copies + 1;
        }
    }
    proof {
        assert(copies == copies_for(source, target)) by (nonlinear_arith)
            requires
                source >= 1,
                target <= copies * source,
                (copies - 1) * source < target,
                copies_for(source, target) == (target + source - 1) / source,
        ;
        lemma_pow2_16(target_bit_depth as nat);
        lemma_expanded_bound(sample as int, source, target);
        lemma_pow2_pos((copies * source - target) as nat);
    }
    if produced_bits > target_bit_depth {
        let surplus: u8 = produced_bits - target_bit_depth;
        let divisor: u32 = power_of_two(surplus);
        return (value / divisor) as u16;
    }
    proof {
        lemma2_to64();
        assert(value as int / 1 == value as int);
    }
    value as u16
}

/// A sample of `source_bit_depth` bits as one of `target_bit_depth` bits.
pub fn scale_uncompressed_sample_bit_depth(
    sample: u16,
    source_bit_depth: u8,
    target_bit_depth: u8,
    channel_name: &'static str,
) -> (result: Result<u16, DecodeUncompressedError>)
    ensures
        result == scaled(sample, source_bit_depth, target_bit_depth, channel_name),
{
    if source_bit_depth == target_bit_depth {
        return Ok(sample);
    }
    if source_bit_depth == 0 || source_bit_depth > 16 || target_bit_depth == 0 || target_bit_depth
        > 16 {
        return invalid_input(
            Detail::Three(
                "cannot scale {} sample between invalid bit depths {}->{}",
                Arg::Word(channel_name),
                Arg::Num(source_bit_depth as i128),
                Arg::Num(target_bit_depth as i128),
            ),
        );
    }
    proof {
        lemma_pow2_16(source_bit_depth as nat);
        lemma_pow2_16(target_bit_depth as nat);
    }
    let source_max: u32 = power_of_two(source_bit_depth) - 1;
    let sample_u32: u32 = sample as u32;
    if sample_u32 > source_max {
        return invalid_input(
            Detail::Three(
                "{} sample {} exceeds source bit depth {}",
                Arg::Word(channel_name),
                Arg::Num(sample as i128),
                Arg::Num(source_bit_depth as i128),
            ),
        );
    }
    if source_bit_depth < target_bit_depth {
        return Ok(expand_sample(sample, source_bit_depth, target_bit_depth));
    }
    let target_max: u32 = power_of_two(target_bit_depth) - 1;
    proof {
        assert(sample_u32 * target_max <= 65535 * 65535) by (nonlinear_arith)
            requires
                0 <= sample_u32 <= 65535,
                0 <= target_max <= 65535,
        ;
        lemma_reduced_bound(sample as int, source_bit_depth as int, target_bit_depth as int);
    }
    Ok(((sample_u32 * target_max + source_max / 2) / source_max) as u16)
}

/// The eight-bit sample nearest in proportion; where the sample exceeds its
/// bit depth, its low eight bits.
pub open spec fn to_u8(sample: u16, bit_depth: u8) -> u8 {
    if bit_depth == 8 {
        (sample % 256) as u8
    } else {
        (((sample * 255 + max_sample(bit_depth as int) / 2) / max_sample(bit_depth as int))
            % 256) as u8
    }
}

/// The sixteen-bit sample that begins with the sample's bits and goes on with
/// them, over and over; where the sample exceeds its bit depth, the largest
/// one.
pub open spec fn to_u16(sample: u16, bit_depth: u8) -> u16 {
    if bit_depth >= 16 {
        sample
    } else if sample >= pow2(bit_depth as nat) {
        65535
    } else if bit_depth == 0 {
        0
    } else {
        expanded(sample as int, bit_depth as int, 16) as u16
    }
}

/// The eight-bit sample of a sample that has been a sixteen-bit one in
/// between, rounded to the nearest.
pub open spec fn to_rgb8(sample: u16, bit_depth: u8) -> u8 {
    if bit_depth <= 8 {
        to_u8(sample, bit_depth)
    } else {
        ((to_u16(sample, bit_depth) + 128) / 257) as u8
    }
}

/// Scales a sample to eight bits.
pub fn scale_sample_to_u8(sample: u16, bit_depth: u8) -> (scaled: u8)
    requires
        1 <= bit_depth < 32,
    ensures
        scaled == to_u8(sample, bit_depth),
{
    if bit_depth == 8 {
        return (sample % 256) as u8;
    }
    let max_value: u32 = power_of_two(bit_depth) - 1;
    proof {
        lemma2_to64();
        if bit_depth > 1 {
            lemma_pow2_strictly_increases(1, bit_depth as nat);
        }
        if bit_depth < 31 {
            lemma_pow2_strictly_increases(bit_depth as nat, 31);
        }
    }
    let scaled: u32 = ((sample as u32) * 255 + max_value / 2) / max_value;
    (scaled % 256) as u8
}

/// Scales a sample to sixteen bits.
pub fn scale_sample_to_u16(sample: u16, bit_depth: u8) -> (scaled: u16)
    ensures
        scaled == to_u16(sample, bit_depth),
{
    if bit_depth >= 16 {
        return sample;
    }
    proof {
        lemma_pow2_16(bit_depth as nat);
    }
    if sample as u32 >= power_of_two(bit_depth) {
        return 65535;
    }
    if bit_depth == 0 {
        return 0;
    }
    expand_sample(sample, bit_depth, 16)
}

/// Scales a sample to eight bits as a conversion through sixteen bits does.
pub fn scale_heic_sample_to_image_rgb8(sample: u16, bit_depth: u8) -> (scaled: u8)
    requires
        1 <= bit_depth,
    ensures
        scaled == to_rgb8(sample, bit_depth),
{
    if bit_depth <= 8 {
        return scale_sample_to_u8(sample, bit_depth);
    }
    (((scale_sample_to_u16(sample, bit_depth) as u32) + 128) / 257) as u8
}

/// The value that stands for no colour at all: half the range.
pub open spec fn midpoint(bit_depth: u8) -> int {
    pow2(
        (if bit_depth == 0 {
            0
        } else {
            bit_depth - 1
        }) as nat,
    ) as int
}

/// The chroma value that stands for no colour at all.
pub fn chroma_midpoint(bit_depth: u8) -> (value: i32)
    requires
        bit_depth <= 31,
    ensures
        value == midpoint(bit_depth),
        0 < value,
{
    let exponent: u8 = if bit_depth == 0 {
        0
    } else {
        bit_depth - 1
    };
    proof {
        lemma2_to64();
        lemma_pow2_strictly_increases(exponent as nat, 31);
    }
    power_of_two(exponent) as i32
}

/// The luma value that stands for black in limited range: sixteen at eight
/// bits, in proportion at others.
pub open spec fn black_level(bit_depth: u8) -> int {
    if bit_depth == 0 {
        0
    } else if bit_depth >= 8 {
        16 * (pow2((bit_depth - 8) as nat) as int)
    } else {
        16int / (pow2((8 - bit_depth) as nat) as int)
    }
}

/// The luma value that stands for black in limited range.
pub fn limited_range_offset(bit_depth: u8) -> (offset: i32)
    requires
        bit_depth <= 34,
    ensures
        offset == black_level(bit_depth),
{
    if bit_depth == 0 {
        return 0;
    }
    if bit_depth >= 8 {
        proof {
            lemma2_to64();
            if bit_depth < 34 {
                lemma_pow2_strictly_increases((bit_depth - 8) as nat, 26);
            }
        }
        (16 * power_of_two(bit_depth - 8)) as i32
    } else {
        (16 / power_of_two(8 - bit_depth)) as i32
    }
}

/// `value` limited to the samples of `bit_depth` bits.
pub open spec fn clipped(value: int, bit_depth: u8) -> int {
    if value < 0 {
        0
    } else if value > max_sample(bit_depth as int) {
        max_sample(bit_depth as int)
    } else {
        value
    }
}

/// `value` limited to the samples of `bit_depth` bits.
pub fn clip_to_bit_depth(value: i64, bit_depth: u8) -> (sample: u16)
    requires
        bit_depth <= 16,
    ensures
        sample == clipped(value as int, bit_depth),
{
    proof {
        lemma_pow2_16(bit_depth as nat);
    }
    let max_value: i64 = (power_of_two(bit_depth) - 1) as i64;
    if value < 0 {
        0
    } else if value > max_value {
        max_value as u16
    } else {
        value as u16
    }
}

/// Repeating the bits of a larger sample gives no smaller number, those of
/// nought give nought, and ones repeated are ones.
proof fn lemma_repeated_order(low: int, high: int, bits: nat, copies: nat)
    requires
        0 <= low <= high,
    ensures
        repeated(0, bits, copies) == 0,
        0 <= repeated(low, bits, copies) <= repeated(high, bits, copies),
        repeated(pow2(bits) - 1, bits, copies) == pow2(bits * copies) - 1,
    decreases copies,
{
    let p = pow2(bits) as int;
    if copies == 0 {
        assert(bits * copies == 0) by (nonlinear_arith)
            requires
                copies == 0,
        ;
        lemma2_to64();
    } else {
        let fewer = (copies - 1) as nat;
        lemma_repeated_order(low, high, bits, fewer);
        let few = repeated(low, bits, fewer);
        let many = repeated(high, bits, fewer);
        assert(0 <= few * p <= many * p) by (nonlinear_arith)
            requires
                0 <= few <= many,
                p >= 0,
        ;
        assert(0 * p == 0) by (nonlinear_arith);
        let small = bits * fewer;
        assert(bits * copies == small + bits) by (nonlinear_arith)
            requires
                small == bits * fewer,
                fewer == copies - 1,
        ;
        lemma_pow2_adds(small, bits);
        assert((pow2(small) - 1) * p + (p - 1) == pow2(small) * p - 1) by (nonlinear_arith);
    }
}

/// A larger numerator has no smaller quotient.
proof fn lemma_quotients(few: int, many: int, divisor: int)
    requires
        0 <= few <= many,
        0 < divisor,
    ensures
        0 <= few / divisor <= many / divisor,
{
    vstd::arithmetic::div_mod::lemma_div_is_ordered(few, many, divisor);
    vstd::arithmetic::div_mod::lemma_div_pos_is_pos(few, divisor);
}

/// Scaling to eight bits keeps the ends of the range and the order of the
/// samples.
pub proof fn lemma_to_u8_range(low: u16, high: u16, bit_depth: u8)
    requires
        1 <= bit_depth <= 16,
        low <= high,
        high < pow2(bit_depth as nat),
    ensures
        to_u8(0, bit_depth) == 0,
        to_u8(max_sample(bit_depth as int) as u16, bit_depth) == 255,
        to_u8(low, bit_depth) <= to_u8(high, bit_depth),
{
    lemma_pow2_16(bit_depth as nat);
    let max = max_sample(bit_depth as int);
    if bit_depth != 8 {
        let half = max / 2;
        assert(0 <= half < max);
        lemma_quotients(low * 255 + half, high * 255 + half, max);
        lemma_quotients(high * 255 + half, max * 255 + half, max);
        vstd::arithmetic::div_mod::lemma_fundamental_div_mod_converse(
            255 * max + half,
            max,
            255,
            half,
        );
        vstd::arithmetic::div_mod::lemma_fundamental_div_mod_converse(half, max, 0, half);
    }
}

/// Scaling to sixteen bits keeps the ends of the range and the order of the
/// samples.
pub proof fn lemma_to_u16_range(low: u16, high: u16, bit_depth: u8)
    requires
        1 <= bit_depth <= 16,
        low <= high,
        high < pow2(bit_depth as nat),
    ensures
        to_u16(0, bit_depth) == 0,
        to_u16(max_sample(bit_depth as int) as u16, bit_depth) == 65535,
        to_u16(low, bit_depth) <= to_u16(high, bit_depth),
{
    lemma_pow2_16(bit_depth as nat);
    if bit_depth < 16 {
        let source = bit_depth as int;
        let max = max_sample(source);
        let copies = copies_for(source, 16);
        assert(16 <= copies * source) by (nonlinear_arith)
            requires
                source >= 1,
                copies == (16 + source - 1) / source,
        ;
        assert(copies >= 1) by (nonlinear_arith)
            requires
                source >= 1,
                copies == (16 + source - 1) / source,
        ;
        let extra = (copies * source - 16) as nat;
        let cut = pow2(extra) as int;
        lemma_pow2_pos(extra);
        lemma_pow2_adds(extra, 16);
        assert(source * copies == copies * source) by (nonlinear_arith);
        lemma_repeated_order(low as int, high as int, source as nat, copies as nat);
        lemma_quotients(
            repeated(low as int, source as nat, copies as nat),
            repeated(high as int, source as nat, copies as nat),
            cut,
        );
        lemma_expanded_bound(low as int, source, 16);
        lemma_expanded_bound(high as int, source, 16);
        vstd::arithmetic::div_mod::lemma_fundamental_div_mod_converse(0, cut, 0, 0);
        assert(cut * 65536 - 1 == 65535 * cut + (cut - 1)) by (nonlinear_arith);
        vstd::arithmetic::div_mod::lemma_fundamental_div_mod_converse(
            cut * 65536 - 1,
            cut,
            65535,
            cut - 1,
        );
    }
}

/// What eight-bit output shows of a deeper sample is, to the nearest, what
/// sixteen-bit output shows of it.
pub proof fn lemma_to_rgb8_is_nearest(sample: u16, bit_depth: u8)
    requires
        8 < bit_depth <= 16,
    ensures
        -128 <= 257 * to_rgb8(sample, bit_depth) - to_u16(sample, bit_depth) <= 128,
{
}

/// An expanded sample repeats its bits: what stands behind the first copy is
/// what stands before the last bits.
pub proof fn lemma_expanded_repeats(sample: int, source: int, target: int)
    requires
        1 <= source < target <= 16,
        0 <= sample <= max_sample(source),
    ensures
        expanded(sample, source, target) / pow2(source as nat) as int == expanded(
            sample,
            source,
            target,
        ) % pow2((target - source) as nat) as int,
{
    let copies = copies_for(source, target);
    assert(target <= copies * source && copies >= 1) by (nonlinear_arith)
        requires
            source >= 1,
            target >= 1,
            copies == (target + source - 1) / source,
    ;
    let fewer = (copies - 1) as nat;
    let extra = (copies * source - target) as nat;
    let rest = (target - source) as nat;
    let value = repeated(sample, source as nat, copies as nat);
    let behind = repeated(sample, source as nat, fewer);
    lemma_repeated_front(sample, source as nat, copies as nat);
    lemma_repeated_bound(sample, source as nat, fewer);
    assert(source * fewer == extra + rest) by (nonlinear_arith)
        requires
            fewer == copies - 1,
            extra == copies * source - target,
            rest == target - source,
    ;
    lemma_pow2_adds(extra, rest);
    lemma_pow2_pos(extra);
    lemma_pow2_pos(rest);
    lemma_pow2_pos(source as nat);
    let e = pow2(extra) as int;
    let r = pow2(rest) as int;
    let s = pow2(source as nat) as int;
    let wide = value / e;
    // The copies but the last one stand in front of it.
    vstd::arithmetic::div_mod::lemma_fundamental_div_mod_converse(value, s, behind, sample);
    vstd::arithmetic::div_mod::lemma_div_denominator(value, e, s);
    vstd::arithmetic::div_mod::lemma_div_denominator(value, s, e);
    assert(e * s == s * e) by (nonlinear_arith);
    assert(wide / s == behind / e);
    // The copies but the first one stand behind it.
    vstd::arithmetic::div_mod::lemma_fundamental_div_mod(behind, e);
    let part = behind % e;
    let back = behind / e;
    assert(value == (sample * r + back) * e + part && 0 <= back < r) by (nonlinear_arith)
        requires
            value == sample * (e * r) + behind,
            behind == e * back + part,
            0 <= part < e,
            0 <= behind < e * r,
            r > 0,
    ;
    vstd::arithmetic::div_mod::lemma_fundamental_div_mod_converse(
        value,
        e,
        sample * r + back,
        part,
    );
    vstd::arithmetic::div_mod::lemma_fundamental_div_mod_converse(wide, r, sample, back);
}

/// Scaling to eight bits takes the nearest sample in proportion; one of eight
/// bits stays as it is.
pub proof fn lemma_to_u8_is_nearest(sample: u16, bit_depth: u8)
    requires
        1 <= bit_depth <= 16,
        sample < pow2(bit_depth as nat),
    ensures
        -(pow2(bit_depth as nat) - 1) <= 2 * (255 * sample - (pow2(bit_depth as nat) - 1) * to_u8(
            sample,
            bit_depth,
        )) <= pow2(bit_depth as nat) - 1,
        bit_depth == 8 ==> to_u8(sample, bit_depth) == sample,
{
    lemma_pow2_16(bit_depth as nat);
    if bit_depth != 8 {
        lemma_nearest_in_proportion(sample as int, bit_depth as int, 255);
    }
}

/// The nearest of `top` steps for a sample.
proof fn lemma_nearest_in_proportion(sample: int, bit_depth: int, top: int)
    requires
        1 <= bit_depth <= 16,
        0 <= sample < pow2(bit_depth as nat),
        top >= 1,
    ensures
        ({
            let max = max_sample(bit_depth);
            let step = (sample * top + max / 2) / max;
            0 <= step <= top && -max <= 2 * (top * sample - max * step) <= max
        }),
{
    lemma_pow2_16(bit_depth as nat);
    let max = max_sample(bit_depth);
    let num = sample * top + max / 2;
    let step = num / max;
    vstd::arithmetic::div_mod::lemma_fundamental_div_mod(num, max);
    assert(sample * top == top * sample) by (nonlinear_arith);
    assert(0 <= step <= top) by (nonlinear_arith)
        requires
            0 <= sample <= max,
            max >= 1,
            top >= 1,
            num == sample * top + max / 2,
            step == num / max,
    ;
}

/// Scaling to sixteen bits begins with the bits of the sample and repeats
/// them; a sample that exceeds its bit depth becomes the largest one, and one
/// of sixteen bits stays as it is.
pub proof fn lemma_to_u16_bits(sample: u16, bit_depth: u8)
    requires
        1 <= bit_depth <= 16,
    ensures
        bit_depth == 16 ==> to_u16(sample, bit_depth) == sample,
        bit_depth < 16 && sample >= pow2(bit_depth as nat) ==> to_u16(sample, bit_depth) == 0xffff,
        bit_depth < 16 && sample < pow2(bit_depth as nat) ==> to_u16(sample, bit_depth) as int
            / pow2((16 - bit_depth) as nat) as int == sample && to_u16(sample, bit_depth) as int
            / pow2(bit_depth as nat) as int == to_u16(sample, bit_depth) as int % pow2(
            (16 - bit_depth) as nat,
        ) as int,
{
    lemma_pow2_16(bit_depth as nat);
    if bit_depth < 16 && sample < pow2(bit_depth as nat) {
        lemma_expanded_bound(sample as int, bit_depth as int, 16);
        lemma_expanded_front(sample as int, bit_depth as int, 16);
        lemma_expanded_repeats(sample as int, bit_depth as int, 16);
    }
}

/// A sample with fewer bits is the nearest one in proportion; one with more
/// bits begins with those of the sample and repeats them; one with as many is
/// the sample. A sample that exceeds its bit depth is refused.
pub proof fn lemma_scaled_sample(sample: u16, source: u8, target: u8, name: &'static str)
    requires
        1 <= source <= 16,
        1 <= target <= 16,
    ensures
        source != target && sample >= pow2(source as nat) <==> scaled(
            sample,
            source,
            target,
            name,
        ) is Err,
        match scaled(sample, source, target, name) {
            Err(_) => true,
            Ok(new) => {
                &&& source == target ==> new == sample
                &&& target < source ==> new < pow2(target as nat) && -(pow2(source as nat) - 1)
                    <= 2 * ((pow2(target as nat) - 1) * sample - (pow2(source as nat) - 1) * new)
                    <= pow2(source as nat) - 1
                &&& source < target ==> new < pow2(target as nat) && new as int / pow2(
                    (target - source) as nat,
                ) as int == sample && new as int / pow2(source as nat) as int == new as int % pow2(
                    (target - source) as nat,
                ) as int
            },
        },
{
    lemma_pow2_16(source as nat);
    lemma_pow2_16(target as nat);
    if source != target && sample < pow2(source as nat) {
        if source < target {
            lemma_expanded_bound(sample as int, source as int, target as int);
            lemma_expanded_front(sample as int, source as int, target as int);
            lemma_expanded_repeats(sample as int, source as int, target as int);
        } else {
            lemma_reduced_bound(sample as int, source as int, target as int);
            lemma_nearest_in_proportion(sample as int, source as int, max_sample(target as int));
        }
    }
}

/// No colour stands in the middle of the samples, black in limited range a
/// sixteenth from their end, and what does not fit is moved to the nearest
/// sample that does.
pub proof fn lemma_levels(bit_depth: u8, value: int, sample: int)
    requires
        1 <= bit_depth <= 16,
        0 <= sample < pow2(bit_depth as nat),
    ensures
        2 * midpoint(bit_depth) == pow2(bit_depth as nat),
        bit_depth >= 4 ==> 16 * black_level(bit_depth) == pow2(bit_depth as nat),
        0 <= clipped(value, bit_depth) < pow2(bit_depth as nat),
        value <= clipped(value, bit_depth) ==> clipped(value, bit_depth) - value <= if sample
            >= value {
            sample - value
        } else {
            value - sample
        },
        value >= clipped(value, bit_depth) ==> value - clipped(value, bit_depth) <= if sample
            >= value {
            sample - value
        } else {
            value - sample
        },
{
    lemma2_to64();
    lemma_pow2_16(bit_depth as nat);
    lemma_pow2_adds(1, (bit_depth - 1) as nat);
    if bit_depth >= 8 {
        lemma_pow2_adds(8, (bit_depth - 8) as nat);
    } else if bit_depth >= 4 {
        let part = pow2((8 - bit_depth) as nat) as int;
        assert(part == 16 || part == 8 || part == 4 || part == 2);
        assert(16int / 16 == 1 && 16int / 8 == 2 && 16int / 4 == 4 && 16int / 2 == 8);
    }
}

} // verus!
