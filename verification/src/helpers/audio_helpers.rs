//! Predictive ADPCM audio decoding for CD-i sound groups.
//!
//! A sound group is a 128-byte block holding 4 (Level A) or 8 (Level B/C)
//! sound units of 28 residual samples each. Reconstruction per sample is
//! `clamp(residual * 2^(G - range) + (k0 * h0 + k1 * h1) / 256)` with the
//! division truncating toward zero, `G` 8 for Level A and 12 for Level
//! B/C, `(h0, h1)` the two most recent clamped outputs of the same output
//! channel, and `(k0, k1)` fixed filter coefficients selected by the
//! 2-bit filter value of the unit.

use vstd::prelude::*;
use vstd::arithmetic::div_mod::lemma_div_of0;
use vstd::arithmetic::div_mod::lemma_fundamental_div_mod;
use vstd::arithmetic::div_mod::lemma_mod_bound;
use vstd::arithmetic::power2::lemma2_to64;
use vstd::arithmetic::power2::lemma_pow2_strictly_increases;
use vstd::arithmetic::power2::pow2;
use vstd::bits::lemma_u32_shl_is_mul;

verus! {

/// Decoding failure of a sound group: a sound unit carries a filter or
/// range value outside what the format defines, and no sample can be
/// reconstructed from it.
#[derive(Clone, Copy, Debug, PartialEq, Eq, Structural)]
pub enum AudioDecodeError {
    /// A unit's 4-bit filter value is outside the coefficient table
    /// (only 0 through 3 are defined).
    FilterOutOfRange,
    /// A unit's range value exceeds the gain exponent of the level, so
    /// the gain would not be a whole number.
    RangeOutOfRange,
}

/// First filter coefficient table, indexed by the 2-bit filter value.
pub open spec fn spec_k0(f: int) -> int {
    if f == 0 {
        0
    } else if f == 1 {
        240
    } else if f == 2 {
        460
    } else {
        392
    }
}

/// Second filter coefficient table, indexed by the 2-bit filter value.
pub open spec fn spec_k1(f: int) -> int {
    if f == 2 {
        -208
    } else if f == 3 {
        -220
    } else {
        0
    }
}

/// Clamp of a reconstructed sample to the signed 16-bit range.
pub open spec fn spec_limit(s: int) -> int {
    if s > 32767 {
        32767
    } else if s < -32768 {
        -32768
    } else {
        s
    }
}

/// Division by 256 truncating toward zero, as the predictor's fixed-point
/// filter contribution is scaled.
pub open spec fn spec_div256_trunc(x: int) -> int {
    if x < 0 {
        ((x * -1) / 256) * -1
    } else {
        x / 256
    }
}

/// Gain of a sound unit: two to the power of the level's gain exponent
/// `g` minus the unit's range value.
pub open spec fn spec_gain(g: int, range: int) -> int {
    pow2((g - range) as nat) as int
}

/// One reconstructed sample: the residual scaled by the unit's gain plus
/// the filter contribution of the channel's two previous outputs, clamped
/// to the signed 16-bit range.
pub open spec fn spec_sample(residual: int, gain: int, f: int, h0: int, h1: int) -> int {
    spec_limit(residual * gain + spec_div256_trunc(spec_k0(f) * h0 + spec_k1(f) * h1))
}

/// Per-unit gains of a sound group with gain exponent `g`.
pub open spec fn spec_gains(ranges: Seq<u8>, g: int) -> Seq<int> {
    Seq::new(ranges.len(), |i: int| spec_gain(g, ranges[i] as int))
}

/// The residual matrix of a group as mathematical integers.
pub open spec fn spec_sd_view(sd: Seq<Vec<i8>>) -> Seq<Seq<int>> {
    Seq::new(sd.len(), |i: int| Seq::new(sd[i]@.len(), |j: int| sd[i]@[j] as int))
}

/// The first malformed unit at or after `i` decides the error: a filter
/// value above 3 is reported before a range value above the gain exponent
/// of the same unit.
pub open spec fn spec_first_error(
    filters: Seq<u8>,
    ranges: Seq<u8>,
    g: int,
    i: int,
) -> Option<AudioDecodeError>
    decreases filters.len() - i,
{
    if i < 0 || i >= filters.len() {
        None
    } else if filters[i] > 3 {
        Some(AudioDecodeError::FilterOutOfRange)
    } else if ranges[i] as int > g {
        Some(AudioDecodeError::RangeOutOfRange)
    } else {
        spec_first_error(filters, ranges, g, i + 1)
    }
}

/// The left and right sample streams produced from sound-unit `i`,
/// sample `ss` onward, given the channel histories at that point.
/// Samples are produced in sound-unit-major order; when `stereo` holds,
/// odd-numbered units feed the right channel and even-numbered units the
/// left, each channel keeping its own history, and when it does not, all
/// units feed the left channel.
pub open spec fn spec_adpcm(
    sd: Seq<Seq<int>>,
    gains: Seq<int>,
    filters: Seq<u8>,
    stereo: bool,
    su: int,
    i: int,
    ss: int,
    lk0: int,
    lk1: int,
    rk0: int,
    rk1: int,
) -> (Seq<i16>, Seq<i16>)
    decreases su - i, 28 - ss,
{
    if i < 0 || i >= su {
        (Seq::empty(), Seq::empty())
    } else if ss < 0 || ss >= 28 {
        spec_adpcm(sd, gains, filters, stereo, su, i + 1, 0, lk0, lk1, rk0, rk1)
    } else if stereo && i % 2 == 1 {
        let s = spec_sample(sd[i][ss], gains[i], filters[i] as int, rk0, rk1);
        let rest = spec_adpcm(sd, gains, filters, stereo, su, i, ss + 1, lk0, lk1, s, rk0);
        (rest.0, seq![s as i16] + rest.1)
    } else {
        let s = spec_sample(sd[i][ss], gains[i], filters[i] as int, lk0, lk1);
        let rest = spec_adpcm(sd, gains, filters, stereo, su, i, ss + 1, s, lk0, rk0, rk1);
        (seq![s as i16] + rest.0, rest.1)
    }
}

/// Number of samples the decode from `(i, ss)` onward sends to the left
/// channel.
pub open spec fn spec_count_left(stereo: bool, su: int, i: int, ss: int) -> int
    decreases su - i, 28 - ss,
{
    if i < 0 || i >= su {
        0
    } else if ss < 0 || ss >= 28 {
        spec_count_left(stereo, su, i + 1, 0)
    } else if stereo && i % 2 == 1 {
        spec_count_left(stereo, su, i, ss + 1)
    } else {
        1 + spec_count_left(stereo, su, i, ss + 1)
    }
}

/// Number of samples the decode from `(i, ss)` onward sends to the right
/// channel.
pub open spec fn spec_count_right(stereo: bool, su: int, i: int, ss: int) -> int
    decreases su - i, 28 - ss,
{
    if i < 0 || i >= su {
        0
    } else if ss < 0 || ss >= 28 {
        spec_count_right(stereo, su, i + 1, 0)
    } else if stereo && i % 2 == 1 {
        1 + spec_count_right(stereo, su, i, ss + 1)
    } else {
        spec_count_right(stereo, su, i, ss + 1)
    }
}

/// The decode produces exactly `spec_count_left` samples on the left
/// channel and `spec_count_right` on the right, whatever the residuals,
/// gains, filters and histories are.
pub proof fn lemma_adpcm_len(
    sd: Seq<Seq<int>>,
    gains: Seq<int>,
    filters: Seq<u8>,
    stereo: bool,
    su: int,
    i: int,
    ss: int,
    lk0: int,
    lk1: int,
    rk0: int,
    rk1: int,
)
    ensures
        spec_adpcm(sd, gains, filters, stereo, su, i, ss, lk0, lk1, rk0, rk1).0.len()
            == spec_count_left(stereo, su, i, ss),
        spec_adpcm(sd, gains, filters, stereo, su, i, ss, lk0, lk1, rk0, rk1).1.len()
            == spec_count_right(stereo, su, i, ss),
    decreases su - i, 28 - ss,
{
    if i < 0 || i >= su {
    } else if ss < 0 || ss >= 28 {
        lemma_adpcm_len(sd, gains, filters, stereo, su, i + 1, 0, lk0, lk1, rk0, rk1);
    } else if stereo && i % 2 == 1 {
        let s = spec_sample(sd[i][ss], gains[i], filters[i] as int, rk0, rk1);
        lemma_adpcm_len(sd, gains, filters, stereo, su, i, ss + 1, lk0, lk1, s, rk0);
    } else {
        let s = spec_sample(sd[i][ss], gains[i], filters[i] as int, lk0, lk1);
        lemma_adpcm_len(sd, gains, filters, stereo, su, i, ss + 1, s, lk0, rk0, rk1);
    }
}

/// One sound unit contributes its remaining `28 - ss` samples entirely to
/// the channel its parity selects.
pub proof fn lemma_count_unit(stereo: bool, su: int, i: int, ss: int)
    requires
        0 <= i < su,
        0 <= ss <= 28,
    ensures
        spec_count_left(stereo, su, i, ss) == (if stereo && i % 2 == 1 {
            0
        } else {
            28 - ss
        }) + spec_count_left(stereo, su, i + 1, 0),
        spec_count_right(stereo, su, i, ss) == (if stereo && i % 2 == 1 {
            28 - ss
        } else {
            0
        }) + spec_count_right(stereo, su, i + 1, 0),
    decreases 28 - ss,
{
    if ss < 28 {
        lemma_count_unit(stereo, su, i, ss + 1);
    }
}

/// Law: with filter value 0 both coefficients are zero, so a
/// reconstructed sample is the clamped product of residual and gain, with
/// no contribution from the channel history.
pub proof fn lemma_filter_zero_sample(residual: int, gain: int, h0: int, h1: int)
    ensures
        spec_sample(residual, gain, 0, h0, h1) == spec_limit(residual * gain),
{
    lemma_div_of0(256);
}

/// Clamps a reconstructed sample to the signed 16-bit range.
pub fn limit_sample(sample: i32) -> (r: i16)
    ensures
        r == spec_limit(sample as int),
{
    if sample > 32767 {
        32767
    } else if sample < -32768 {
        -32768
    } else {
        sample as i16
    }
}

/// First filter coefficient of a 2-bit filter value.
fn k0_coeff(f: u8) -> (r: i32)
    requires
        f <= 3,
    ensures
        r == spec_k0(f as int),
{
    match f {
        0 => 0,
        1 => 240,
        2 => 460,
        _ => 392,
    }
}

/// Second filter coefficient of a 2-bit filter value.
fn k1_coeff(f: u8) -> (r: i32)
    requires
        f <= 3,
    ensures
        r == spec_k1(f as int),
{
    match f {
        2 => -208,
        3 => -220,
        _ => 0,
    }
}

/// Decodes `su` sound units of 28 residuals each, appending the
/// reconstructed samples to `left` and `right` in sound-unit-major order
/// and returning how many samples were produced. Unit parity selects the
/// output channel when `stereo` holds; otherwise every sample goes to
/// `left`. The whole group is rejected, with the output untouched, when
/// any unit carries a filter value above 3 or a range value above the
/// gain exponent.
pub fn decode_adpcm(
    su: usize,
    gain: u32,
    sd: &Vec<Vec<i8>>,
    ranges: &Vec<u8>,
    filters: &Vec<u8>,
    stereo: bool,
    left: &mut Vec<i16>,
    right: &mut Vec<i16>,
) -> (r: Result<u8, AudioDecodeError>)
    requires
        gain == 8 || gain == 12,
        su <= 8,
        sd@.len() == su,
        ranges@.len() == su,
        filters@.len() == su,
        forall|t: int| 0 <= t < su ==> (#[trigger] sd@[t])@.len() == 28,
    ensures
        ({
            let err = spec_first_error(filters@, ranges@, gain as int, 0);
            let out = spec_adpcm(
                spec_sd_view(sd@),
                spec_gains(ranges@, gain as int),
                filters@,
                stereo,
                su as int,
                0,
                0,
                0,
                0,
                0,
                0,
            );
            match r {
                Ok(n) => {
                    &&& err is None
                    &&& n == 28 * su
                    &&& final(left)@ == old(left)@ + out.0
                    &&& final(right)@ == old(right)@ + out.1
                },
                Err(e) => {
                    &&& Some(e) == err
                    &&& final(left)@ == old(left)@
                    &&& final(right)@ == old(right)@
                },
            }
        }),
{
    let mut v: usize = 0;
    while v < su
        invariant
            v <= su,
            su <= 8,
            ranges@.len() == su,
            filters@.len() == su,
            gain == 8 || gain == 12,
            spec_first_error(filters@, ranges@, gain as int, 0) == spec_first_error(
                filters@,
                ranges@,
                gain as int,
                v as int,
            ),
            forall|t: int| 0 <= t < v ==> #[trigger] filters@[t] <= 3,
            forall|t: int| 0 <= t < v ==> (#[trigger] ranges@[t]) as int <= gain,
            left@ == old(left)@,
            right@ == old(right)@,
        decreases su - v,
    {
        if filters[v] > 3 {
            return Err(AudioDecodeError::FilterOutOfRange);
        }
        if ranges[v] as u32 > gain {
            return Err(AudioDecodeError::RangeOutOfRange);
        }
        v = v + 1;
    }

    let ghost sd_m = spec_sd_view(sd@);
    let ghost gains_m = spec_gains(ranges@, gain as int);
    let ghost out = spec_adpcm(
        sd_m,
        gains_m,
        filters@,
        stereo,
        su as int,
        0,
        0,
        0,
        0,
        0,
        0,
    );
    let ghost oldl = old(left)@.len() as int;
    let ghost oldr = old(right)@.len() as int;

    let mut index: u8 = 0;
    let mut lk0: i32 = 0;
    let mut lk1: i32 = 0;
    let mut rk0: i32 = 0;
    let mut rk1: i32 = 0;

    let mut i: usize = 0;
    while i < su
        invariant
            i <= su,
            su <= 8,
            gain == 8 || gain == 12,
            sd@.len() == su,
            ranges@.len() == su,
            filters@.len() == su,
            forall|t: int| 0 <= t < su ==> (#[trigger] sd@[t])@.len() == 28,
            forall|t: int| 0 <= t < su ==> #[trigger] filters@[t] <= 3,
            forall|t: int| 0 <= t < su ==> (#[trigger] ranges@[t]) as int <= gain,
            sd_m == spec_sd_view(sd@),
            gains_m == spec_gains(ranges@, gain as int),
            out == spec_adpcm(sd_m, gains_m, filters@, stereo, su as int, 0, 0, 0, 0, 0, 0),
            oldl == old(left)@.len(),
            oldr == old(right)@.len(),
            -32768 <= lk0 <= 32767,
            -32768 <= lk1 <= 32767,
            -32768 <= rk0 <= 32767,
            -32768 <= rk1 <= 32767,
            index == 28 * i,
            left@.len() >= oldl,
            right@.len() >= oldr,
            left@.subrange(0, oldl) == old(left)@,
            right@.subrange(0, oldr) == old(right)@,
            out.0 == left@.skip(oldl) + spec_adpcm(
                sd_m,
                gains_m,
                filters@,
                stereo,
                su as int,
                i as int,
                0,
                lk0 as int,
                lk1 as int,
                rk0 as int,
                rk1 as int,
            ).0,
            out.1 == right@.skip(oldr) + spec_adpcm(
                sd_m,
                gains_m,
                filters@,
                stereo,
                su as int,
                i as int,
                0,
                lk0 as int,
                lk1 as int,
                rk0 as int,
                rk1 as int,
            ).1,
        decreases su - i,
    {
        let sh: u32 = gain - (ranges[i] as u32);
        let cur_gain: u32 = 1u32 << sh;
        proof {
            lemma2_to64();
            if sh < 12 {
                lemma_pow2_strictly_increases(sh as nat, 12);
            }
            lemma_u32_shl_is_mul(1u32, sh);
            assert(cur_gain == spec_gain(gain as int, ranges@[i as int] as int));
            assert(1 <= cur_gain <= 4096);
        }
        let mut ss: usize = 0;
        while ss < 28
            invariant
                ss <= 28,
                i < su,
                su <= 8,
                gain == 8 || gain == 12,
                sd@.len() == su,
                ranges@.len() == su,
                filters@.len() == su,
                forall|t: int| 0 <= t < su ==> (#[trigger] sd@[t])@.len() == 28,
                forall|t: int| 0 <= t < su ==> #[trigger] filters@[t] <= 3,
                forall|t: int| 0 <= t < su ==> (#[trigger] ranges@[t]) as int <= gain,
                sd_m == spec_sd_view(sd@),
                gains_m == spec_gains(ranges@, gain as int),
                out == spec_adpcm(sd_m, gains_m, filters@, stereo, su as int, 0, 0, 0, 0, 0, 0),
                oldl == old(left)@.len(),
                oldr == old(right)@.len(),
                cur_gain == spec_gain(gain as int, ranges@[i as int] as int),
                1 <= cur_gain <= 4096,
                -32768 <= lk0 <= 32767,
                -32768 <= lk1 <= 32767,
                -32768 <= rk0 <= 32767,
                -32768 <= rk1 <= 32767,
                index == 28 * i + ss,
                left@.len() >= oldl,
                right@.len() >= oldr,
                left@.subrange(0, oldl) == old(left)@,
                right@.subrange(0, oldr) == old(right)@,
                out.0 == left@.skip(oldl) + spec_adpcm(
                    sd_m,
                    gains_m,
                    filters@,
                    stereo,
                    su as int,
                    i as int,
                    ss as int,
                    lk0 as int,
                    lk1 as int,
                    rk0 as int,
                    rk1 as int,
                ).0,
                out.1 == right@.skip(oldr) + spec_adpcm(
                    sd_m,
                    gains_m,
                    filters@,
                    stereo,
                    su as int,
                    i as int,
                    ss as int,
                    lk0 as int,
                    lk1 as int,
                    rk0 as int,
                    rk1 as int,
                ).1,
            decreases 28 - ss,
        {
            let ghost rem = spec_adpcm(
                sd_m,
                gains_m,
                filters@,
                stereo,
                su as int,
                i as int,
                ss as int,
                lk0 as int,
                lk1 as int,
                rk0 as int,
                rk1 as int,
            );
            let residual: i8 = sd[i][ss];
            let f = filters[i];
            let k0v: i32 = k0_coeff(f);
            let k1v: i32 = k1_coeff(f);
            if stereo && i % 2 == 1 {
                proof {
                    assert(k0v * rk0 <= 460 * 32767 && k0v * rk0 >= 460 * -32768)
                        by (nonlinear_arith)
                        requires
                            0 <= k0v <= 460,
                            -32768 <= rk0 <= 32767,
                    ;
                    assert(k1v * rk1 <= 220 * 32768 && k1v * rk1 >= -220 * 32767)
                        by (nonlinear_arith)
                        requires
                            -220 <= k1v <= 0,
                            -32768 <= rk1 <= 32767,
                    ;
                }
                let num: i32 = k0v * rk0 + k1v * rk1;
                proof {
                    let a = if num >= 0 {
                        num as int
                    } else {
                        (num as int) * -1
                    };
                    lemma_fundamental_div_mod(a, 256);
                    lemma_mod_bound(a, 256);
                }
                let feedback: i32 = match num.checked_div(256) {
                    Some(q) => q,
                    None => 0,
                };
                proof {
                    assert(feedback == spec_div256_trunc(num as int));
                    assert((residual as i32) * (cur_gain as i32) <= 127 * 4096
                        && (residual as i32) * (cur_gain as i32) >= -128 * 4096)
                        by (nonlinear_arith)
                        requires
                            -128 <= residual as i32 <= 127,
                            1 <= cur_gain as i32 <= 4096,
                    ;
                }
                let sample: i16 = limit_sample((residual as i32) * (cur_gain as i32) + feedback);
                proof {
                    assert(sample as int == spec_sample(
                        sd_m[i as int][ss as int],
                        gains_m[i as int],
                        filters@[i as int] as int,
                        rk0 as int,
                        rk1 as int,
                    ));
                }
                let ghost pre = right@;
                rk1 = rk0;
                rk0 = sample as i32;
                right.push(sample);
                index = index + 1;
                proof {
                    let rest = spec_adpcm(
                        sd_m,
                        gains_m,
                        filters@,
                        stereo,
                        su as int,
                        i as int,
                        ss + 1,
                        lk0 as int,
                        lk1 as int,
                        rk0 as int,
                        rk1 as int,
                    );
                    assert(rem.0 == rest.0);
                    assert(rem.1 == seq![sample] + rest.1);
                    assert(right@.skip(oldr) =~= pre.skip(oldr) + seq![sample]);
                    assert((pre.skip(oldr) + seq![sample]) + rest.1 =~= pre.skip(oldr) + (seq![
                        sample,
                    ] + rest.1));
                    assert(right@.subrange(0, oldr) =~= pre.subrange(0, oldr));
                }
            } else {
                proof {
                    assert(k0v * lk0 <= 460 * 32767 && k0v * lk0 >= 460 * -32768)
                        by (nonlinear_arith)
                        requires
                            0 <= k0v <= 460,
                            -32768 <= lk0 <= 32767,
                    ;
                    assert(k1v * lk1 <= 220 * 32768 && k1v * lk1 >= -220 * 32767)
                        by (nonlinear_arith)
                        requires
                            -220 <= k1v <= 0,
                            -32768 <= lk1 <= 32767,
                    ;
                }
                let num: i32 = k0v * lk0 + k1v * lk1;
                proof {
                    let a = if num >= 0 {
                        num as int
                    } else {
                        (num as int) * -1
                    };
                    lemma_fundamental_div_mod(a, 256);
                    lemma_mod_bound(a, 256);
                }
                let feedback: i32 = match num.checked_div(256) {
                    Some(q) => q,
                    None => 0,
                };
                proof {
                    assert(feedback == spec_div256_trunc(num as int));
                    assert((residual as i32) * (cur_gain as i32) <= 127 * 4096
                        && (residual as i32) * (cur_gain as i32) >= -128 * 4096)
                        by (nonlinear_arith)
                        requires
                            -128 <= residual as i32 <= 127,
                            1 <= cur_gain as i32 <= 4096,
                    ;
                }
                let sample: i16 = limit_sample((residual as i32) * (cur_gain as i32) + feedback);
                proof {
                    assert(sample as int == spec_sample(
                        sd_m[i as int][ss as int],
                        gains_m[i as int],
                        filters@[i as int] as int,
                        lk0 as int,
                        lk1 as int,
                    ));
                }
                let ghost pre = left@;
                lk1 = lk0;
                lk0 = sample as i32;
                left.push(sample);
                index = index + 1;
                proof {
                    let rest = spec_adpcm(
                        sd_m,
                        gains_m,
                        filters@,
                        stereo,
                        su as int,
                        i as int,
                        ss + 1,
                        lk0 as int,
                        lk1 as int,
                        rk0 as int,
                        rk1 as int,
                    );
                    assert(rem.1 == rest.1);
                    assert(rem.0 == seq![sample] + rest.0);
                    assert(left@.skip(oldl) =~= pre.skip(oldl) + seq![sample]);
                    assert((pre.skip(oldl) + seq![sample]) + rest.0 =~= pre.skip(oldl) + (seq![
                        sample,
                    ] + rest.0));
                    assert(left@.subrange(0, oldl) =~= pre.subrange(0, oldl));
                }
            }
            ss = ss + 1;
        }
        proof {
            assert(spec_adpcm(
                sd_m,
                gains_m,
                filters@,
                stereo,
                su as int,
                i as int,
                28,
                lk0 as int,
                lk1 as int,
                rk0 as int,
                rk1 as int,
            ) == spec_adpcm(
                sd_m,
                gains_m,
                filters@,
                stereo,
                su as int,
                i + 1,
                0,
                lk0 as int,
                lk1 as int,
                rk0 as int,
                rk1 as int,
            ));
        }
        i = i + 1;
    }
    proof {
        assert(spec_adpcm(
            sd_m,
            gains_m,
            filters@,
            stereo,
            su as int,
            su as int,
            0,
            lk0 as int,
            lk1 as int,
            rk0 as int,
            rk1 as int,
        ).0 =~= Seq::<i16>::empty());
        assert(spec_adpcm(
            sd_m,
            gains_m,
            filters@,
            stereo,
            su as int,
            su as int,
            0,
            lk0 as int,
            lk1 as int,
            rk0 as int,
            rk1 as int,
        ).1 =~= Seq::<i16>::empty());
        assert(left@ =~= old(left)@ + out.0);
        assert(right@ =~= old(right)@ + out.1);
    }
    Ok(index)
}

/// Both 4-bit halves of a byte are below 16.
pub(crate) proof fn lemma_nibble_bounds(b: u8)
    by (bit_vector)
    ensures
        b >> 4 < 16,
        b & 0x0F < 16,
{
}

/// Reinterpreting a byte below 128 as a signed byte keeps its value.
proof fn lemma_small_u8_as_i8(b: u8)
    by (bit_vector)
    requires
        b < 128,
    ensures
        (b as i8) as int == b as int,
{
}

/// Range values of a Level A group: the low nibble of each of the first
/// 4 bytes.
pub open spec fn spec_a_ranges(d: Seq<u8>) -> Seq<u8> {
    Seq::new(4, |i: int| d[i] & 0x0F)
}

/// Filter values of a Level A group: the high nibble of each of the
/// first 4 bytes.
pub open spec fn spec_a_filters(d: Seq<u8>) -> Seq<u8> {
    Seq::new(4, |i: int| d[i] >> 4)
}

/// Residual `ss` of unit `u` in a Level A group: one signed byte per
/// residual, the four units interleaved byte by byte from offset 16.
pub open spec fn spec_a_residual(d: Seq<u8>, u: int, ss: int) -> int {
    (d[16 + 4 * ss + u] as i8) as int
}

/// The 4 x 28 residual matrix of a Level A group.
pub open spec fn spec_a_sd(d: Seq<u8>) -> Seq<Seq<int>> {
    Seq::new(4, |u: int| Seq::new(28, |ss: int| spec_a_residual(d, u, ss)))
}

/// Decodes one Level A sound group of 128 bytes: a 16-byte header whose
/// first 4 bytes carry range (low nibble) and filter (high nibble) of the
/// 4 sound units, then one byte per residual, units interleaved. Appends
/// 112 samples across the output channels, or rejects the group with the
/// output untouched when a unit carries a malformed filter or range.
pub fn decode_level_a_sound_group(
    stereo: bool,
    data: &[u8],
    left: &mut Vec<i16>,
    right: &mut Vec<i16>,
) -> (r: Result<u8, AudioDecodeError>)
    requires
        data@.len() >= 128,
    ensures
        ({
            let err = spec_first_error(spec_a_filters(data@), spec_a_ranges(data@), 8, 0);
            let out = spec_adpcm(
                spec_a_sd(data@),
                spec_gains(spec_a_ranges(data@), 8),
                spec_a_filters(data@),
                stereo,
                4,
                0,
                0,
                0,
                0,
                0,
                0,
            );
            match r {
                Ok(n) => {
                    &&& err is None
                    &&& n == 112
                    &&& final(left)@ == old(left)@ + out.0
                    &&& final(right)@ == old(right)@ + out.1
                    &&& final(left)@.len() == old(left)@.len() + (if stereo {
                        56int
                    } else {
                        112int
                    })
                    &&& final(right)@.len() == old(right)@.len() + (if stereo {
                        56int
                    } else {
                        0int
                    })
                },
                Err(e) => {
                    &&& Some(e) == err
                    &&& final(left)@ == old(left)@
                    &&& final(right)@ == old(right)@
                },
            }
        }),
{
    let mut range_v: Vec<u8> = Vec::new();
    let mut filter_v: Vec<u8> = Vec::new();
    let mut i: usize = 0;
    while i < 4
        invariant
            i <= 4,
            data@.len() >= 128,
            range_v@.len() == i,
            filter_v@.len() == i,
            forall|t: int| 0 <= t < i ==> range_v@[t] == (#[trigger] data@[t]) & 0x0F,
            forall|t: int| 0 <= t < i ==> filter_v@[t] == (#[trigger] data@[t]) >> 4,
        decreases 4 - i,
    {
        range_v.push(data[i] & 0x0F);
        filter_v.push(data[i] >> 4);
        i = i + 1;
    }
    proof {
        assert(range_v@ =~= spec_a_ranges(data@));
        assert(filter_v@ =~= spec_a_filters(data@));
    }

    let mut sd_v: Vec<Vec<i8>> = Vec::new();
    let mut u: usize = 0;
    while u < 4
        invariant
            u <= 4,
            data@.len() >= 128,
            sd_v@.len() == u,
            forall|w: int|
                0 <= w < u ==> {
                    &&& (#[trigger] sd_v@[w])@.len() == 28
                    &&& forall|t: int|
                        0 <= t < 28 ==> (#[trigger] sd_v@[w]@[t]) as int == spec_a_residual(
                            data@,
                            w,
                            t,
                        )
                },
        decreases 4 - u,
    {
        let mut unit: Vec<i8> = Vec::new();
        let mut ss: usize = 0;
        while ss < 28
            invariant
                ss <= 28,
                u < 4,
                data@.len() >= 128,
                unit@.len() == ss,
                forall|t: int|
                    0 <= t < ss ==> (#[trigger] unit@[t]) as int == spec_a_residual(
                        data@,
                        u as int,
                        t,
                    ),
            decreases 28 - ss,
        {
            unit.push(data[16 + 4 * ss + u] as i8);
            ss = ss + 1;
        }
        sd_v.push(unit);
        u = u + 1;
    }
    proof {
        assert(spec_sd_view(sd_v@) =~~= spec_a_sd(data@));
    }

    let res = decode_adpcm(4, 8, &sd_v, &range_v, &filter_v, stereo, left, right);
    match res {
        Ok(n) => {
            proof {
                lemma_adpcm_len(
                    spec_a_sd(data@),
                    spec_gains(spec_a_ranges(data@), 8),
                    spec_a_filters(data@),
                    stereo,
                    4,
                    0,
                    0,
                    0,
                    0,
                    0,
                    0,
                );
                lemma_count_unit(stereo, 4, 0, 0);
                lemma_count_unit(stereo, 4, 1, 0);
                lemma_count_unit(stereo, 4, 2, 0);
                lemma_count_unit(stereo, 4, 3, 0);
                assert(spec_count_left(stereo, 4, 4, 0) == 0);
                assert(spec_count_right(stereo, 4, 4, 0) == 0);
            }
            Ok(n)
        },
        Err(e) => Err(e),
    }
}

/// Law: a Level A sound group consumes exactly its first 128 bytes; two
/// buffers that agree on them carry the same ranges, filters and
/// residuals, and so decode identically.
pub proof fn lemma_level_a_reads_128_bytes(d1: Seq<u8>, d2: Seq<u8>)
    requires
        d1.len() >= 128,
        d2.len() >= 128,
        d1.subrange(0, 128) == d2.subrange(0, 128),
    ensures
        spec_a_ranges(d1) == spec_a_ranges(d2),
        spec_a_filters(d1) == spec_a_filters(d2),
        spec_a_sd(d1) == spec_a_sd(d2),
{
    assert forall|i: int| 0 <= i < 128 implies d1[i] == d2[i] by {
        assert(d1.subrange(0, 128)[i] == d1[i]);
        assert(d2.subrange(0, 128)[i] == d2[i]);
    }
    assert(spec_a_ranges(d1) =~= spec_a_ranges(d2));
    assert(spec_a_filters(d1) =~= spec_a_filters(d2));
    assert(spec_a_sd(d1) =~~= spec_a_sd(d2));
}

/// Range values of a Level B/C group: the low nibble of each of the 8
/// header bytes at offset 4.
pub open spec fn spec_bc_ranges(d: Seq<u8>) -> Seq<u8> {
    Seq::new(8, |i: int| d[4 + i] & 0x0F)
}

/// Filter values of a Level B/C group: the high nibble of each of the 8
/// header bytes at offset 4.
pub open spec fn spec_bc_filters(d: Seq<u8>) -> Seq<u8> {
    Seq::new(8, |i: int| d[4 + i] >> 4)
}

/// Residual `ss` of unit `u` in a Level B/C group: from offset 16 each
/// byte packs two 4-bit two's-complement residuals, the low nibble for
/// the even unit and the high nibble for the odd unit of the pair; a
/// nibble of 8 or more is sign-extended by subtracting 16.
pub open spec fn spec_bc_residual(d: Seq<u8>, u: int, ss: int) -> int {
    let b = d[16 + 4 * ss + u / 2];
    let nib = if u % 2 == 0 {
        b & 0x0F
    } else {
        b >> 4
    };
    if nib >= 8 {
        nib - 16
    } else {
        nib as int
    }
}

/// The 8 x 28 residual matrix of a Level B/C group.
pub open spec fn spec_bc_sd(d: Seq<u8>) -> Seq<Seq<int>> {
    Seq::new(8, |u: int| Seq::new(28, |ss: int| spec_bc_residual(d, u, ss)))
}

/// Law: a Level B/C sound group consumes exactly its first 128 bytes; two
/// buffers that agree on them carry the same ranges, filters and
/// residuals, and so decode identically.
pub proof fn lemma_level_bc_reads_128_bytes(d1: Seq<u8>, d2: Seq<u8>)
    requires
        d1.len() >= 128,
        d2.len() >= 128,
        d1.subrange(0, 128) == d2.subrange(0, 128),
    ensures
        spec_bc_ranges(d1) == spec_bc_ranges(d2),
        spec_bc_filters(d1) == spec_bc_filters(d2),
        spec_bc_sd(d1) == spec_bc_sd(d2),
{
    assert forall|i: int| 0 <= i < 128 implies d1[i] == d2[i] by {
        assert(d1.subrange(0, 128)[i] == d1[i]);
        assert(d2.subrange(0, 128)[i] == d2[i]);
    }
    assert(spec_bc_ranges(d1) =~= spec_bc_ranges(d2));
    assert(spec_bc_filters(d1) =~= spec_bc_filters(d2));
    assert(spec_bc_sd(d1) =~~= spec_bc_sd(d2));
}

/// Decodes one Level B/C sound group of 128 bytes: 4 unused bytes, then
/// 8 header bytes carrying range (low nibble) and filter (high nibble)
/// of the 8 sound units, then 4 more header bytes, then from offset 16
/// two 4-bit two's-complement residuals per byte. Appends 224 samples
/// across the output channels, or rejects the group with the output
/// untouched when a unit carries a malformed filter or range.
pub fn decode_level_bc_sound_group(
    stereo: bool,
    data: &[u8],
    left: &mut Vec<i16>,
    right: &mut Vec<i16>,
) -> (r: Result<u8, AudioDecodeError>)
    requires
        data@.len() >= 128,
    ensures
        ({
            let err = spec_first_error(spec_bc_filters(data@), spec_bc_ranges(data@), 12, 0);
            let out = spec_adpcm(
                spec_bc_sd(data@),
                spec_gains(spec_bc_ranges(data@), 12),
                spec_bc_filters(data@),
                stereo,
                8,
                0,
                0,
                0,
                0,
                0,
                0,
            );
            match r {
                Ok(n) => {
                    &&& err is None
                    &&& n == 224
                    &&& final(left)@ == old(left)@ + out.0
                    &&& final(right)@ == old(right)@ + out.1
                    &&& final(left)@.len() == old(left)@.len() + (if stereo {
                        112int
                    } else {
                        224int
                    })
                    &&& final(right)@.len() == old(right)@.len() + (if stereo {
                        112int
                    } else {
                        0int
                    })
                },
                Err(e) => {
                    &&& Some(e) == err
                    &&& final(left)@ == old(left)@
                    &&& final(right)@ == old(right)@
                },
            }
        }),
{
    let mut range_v: Vec<u8> = Vec::new();
    let mut filter_v: Vec<u8> = Vec::new();
    let mut i: usize = 0;
    while i < 8
        invariant
            i <= 8,
            data@.len() >= 128,
            range_v@.len() == i,
            filter_v@.len() == i,
            forall|t: int| 0 <= t < i ==> range_v@[t] == (#[trigger] data@[4 + t]) & 0x0F,
            forall|t: int| 0 <= t < i ==> filter_v@[t] == (#[trigger] data@[4 + t]) >> 4,
        decreases 8 - i,
    {
        range_v.push(data[4 + i] & 0x0F);
        filter_v.push(data[4 + i] >> 4);
        i = i + 1;
    }
    proof {
        assert(range_v@ =~= spec_bc_ranges(data@));
        assert(filter_v@ =~= spec_bc_filters(data@));
    }

    let mut sd_v: Vec<Vec<i8>> = Vec::new();
    let mut u: usize = 0;
    while u < 8
        invariant
            u <= 8,
            data@.len() >= 128,
            sd_v@.len() == u,
            forall|w: int|
                0 <= w < u ==> {
                    &&& (#[trigger] sd_v@[w])@.len() == 28
                    &&& forall|t: int|
                        0 <= t < 28 ==> (#[trigger] sd_v@[w]@[t]) as int == spec_bc_residual(
                            data@,
                            w,
                            t,
                        )
                },
        decreases 8 - u,
    {
        let mut unit: Vec<i8> = Vec::new();
        let mut ss: usize = 0;
        while ss < 28
            invariant
                ss <= 28,
                u < 8,
                data@.len() >= 128,
                unit@.len() == ss,
                forall|t: int|
                    0 <= t < ss ==> (#[trigger] unit@[t]) as int == spec_bc_residual(
                        data@,
                        u as int,
                        t,
                    ),
            decreases 28 - ss,
        {
            let b = data[16 + 4 * ss + u / 2];
            let nib: u8 = if u % 2 == 0 {
                b & 0x0F
            } else {
                b >> 4
            };
            proof {
                lemma_nibble_bounds(b);
                lemma_small_u8_as_i8(nib);
            }
            let val: i8 = if nib >= 8 {
                (nib as i8) - 16
            } else {
                nib as i8
            };
            unit.push(val);
            ss = ss + 1;
        }
        sd_v.push(unit);
        u = u + 1;
    }
    proof {
        assert(spec_sd_view(sd_v@) =~~= spec_bc_sd(data@));
    }

    let res = decode_adpcm(8, 12, &sd_v, &range_v, &filter_v, stereo, left, right);
    match res {
        Ok(n) => {
            proof {
                lemma_adpcm_len(
                    spec_bc_sd(data@),
                    spec_gains(spec_bc_ranges(data@), 12),
                    spec_bc_filters(data@),
                    stereo,
                    8,
                    0,
                    0,
                    0,
                    0,
                    0,
                    0,
                );
                lemma_count_unit(stereo, 8, 0, 0);
                lemma_count_unit(stereo, 8, 1, 0);
                lemma_count_unit(stereo, 8, 2, 0);
                lemma_count_unit(stereo, 8, 3, 0);
                lemma_count_unit(stereo, 8, 4, 0);
                lemma_count_unit(stereo, 8, 5, 0);
                lemma_count_unit(stereo, 8, 6, 0);
                lemma_count_unit(stereo, 8, 7, 0);
                assert(spec_count_left(stereo, 8, 8, 0) == 0);
                assert(spec_count_right(stereo, 8, 8, 0) == 0);
            }
            Ok(n)
        },
        Err(e) => Err(e),
    }
}

} // verus!
