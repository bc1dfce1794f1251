//! Channel and rate normalisation. Both functions are pure and return a fresh vector.
//!
//! Neither is a band-limited converter: down-sampling aliases whatever lies
//! above the new Nyquist frequency. That is a known limit of linear
//! interpolation and is accepted here.
//!
//! Positions are those of a computation in double precision: the ratio of
//! the rates, the number of output samples and the place of each of them in
//! the input are rounded as doubles are. The rounding is carried out on whole
//! numbers, and a position is never read outside the input.

use crate::audio::binary::{
    divide, fraction, fraction_numerator, fraction_shift, lemma_scaling_is_unique, multiply,
    nearest, product, quotient, round_quotient, round_whole, whole, whole_part, Binary, Dyadic,
};
use vstd::arithmetic::power2::{lemma2_to64, lemma2_to64_rest, lemma_pow2_adds, pow2};
use vstd::prelude::*;

verus! {

/// `function` may return `output` when it is handed a slice that holds `input`.
pub open spec fn returns_on<T, R, F: Fn(&[T]) -> R>(function: F, input: Seq<T>, output: R) -> bool {
    exists|slice: &[T]| slice@ == input && call_ensures(function, (slice,), output)
}

/// The `index`-th run of `width` consecutive samples.
pub open spec fn frame_at<T>(samples: Seq<T>, width: nat, index: int) -> Seq<T> {
    samples.subrange(index * width, (index + 1) * width)
}

/// The ratio `src_rate / dst_rate` in double precision.
pub open spec fn rate_ratio(src_rate: nat, dst_rate: nat) -> Binary {
    nearest(src_rate, dst_rate)
}

/// Number of output samples when `len` samples at `src_rate` are brought to
/// `dst_rate`: the floor of `len / (src_rate / dst_rate)`, with the ratio and
/// the quotient in double precision. Equal rates leave the length as it is.
pub open spec fn resampled_len(len: nat, src_rate: nat, dst_rate: nat) -> nat {
    if src_rate == dst_rate {
        len
    } else if len == 0 || dst_rate == 0 {
        0
    } else {
        whole_part(quotient(nearest(len, 1), rate_ratio(src_rate, dst_rate)))
    }
}

/// Place of output sample `index` in the input: `index * (src_rate /
/// dst_rate)`, ratio and product in double precision.
pub open spec fn source_position(index: nat, src_rate: nat, dst_rate: nat) -> Binary {
    product(nearest(index, 1), rate_ratio(src_rate, dst_rate))
}

/// The input sample at or just before output sample `index`: the whole part
/// of its place, held at the last sample of an input of `len` samples.
pub open spec fn source_index(index: nat, src_rate: nat, dst_rate: nat, len: nat) -> nat {
    let at = whole_part(source_position(index, src_rate, dst_rate));
    if at < len {
        at
    } else {
        (len - 1) as nat
    }
}

/// The input position after `position`, held at the last sample.
pub open spec fn next_or_last(position: nat, len: nat) -> nat {
    if position + 1 < len {
        position + 1
    } else {
        (len - 1) as nat
    }
}

/// `value` is what `blend` may return for output position `index`: it was
/// handed the input sample at `source_index`, the sample after it, and how
/// far the place lies past the first of them, as a numerator and the power
/// of two that the numerator counts in.
pub open spec fn interpolated<T, F: Fn(T, T, u64, u32) -> T>(
    blend: F,
    input: Seq<T>,
    src_rate: u32,
    dst_rate: u32,
    index: int,
    value: T,
) -> bool {
    let place = source_position(index as nat, src_rate as nat, dst_rate as nat);
    let at = source_index(index as nat, src_rate as nat, dst_rate as nat, input.len());
    &&& input.len() > 0
    &&& call_ensures(
        blend,
        (
            input[at as int],
            input[next_or_last(at, input.len()) as int],
            fraction_numerator(place) as u64,
            fraction_shift(place) as u32,
        ),
        value,
    )
}

/// `mono` is a down-mix of `samples`: the samples themselves for one channel,
/// else one result of `average` per complete frame, in order.
pub open spec fn is_mono_of<T, F: Fn(&[T]) -> T>(
    average: F,
    samples: Seq<T>,
    channels: u16,
    mono: Seq<T>,
) -> bool {
    if channels == 1 {
        mono == samples
    } else {
        &&& mono.len() == samples.len() / (channels as nat)
        &&& forall|i: int|
            0 <= i < mono.len() ==> returns_on(
                average,
                frame_at(samples, channels as nat, i),
                #[trigger] mono[i],
            )
    }
}

/// `output` is `input` brought from `src_rate` to `dst_rate`: the input itself
/// for equal rates, else one result of `blend` per output position.
pub open spec fn is_resampled_of<T, F: Fn(T, T, u64, u32) -> T>(
    blend: F,
    input: Seq<T>,
    src_rate: u32,
    dst_rate: u32,
    output: Seq<T>,
) -> bool {
    if src_rate == dst_rate {
        output == input
    } else {
        &&& output.len() == resampled_len(input.len(), src_rate as nat, dst_rate as nat)
        &&& forall|i: int|
            0 <= i < output.len() ==> interpolated(
                blend,
                input,
                src_rate,
                dst_rate,
                i,
                #[trigger] output[i],
            )
    }
}

/// Reduces interleaved frames of `channels` samples to one sample per frame.
///
/// With one channel the input is returned as it is. Otherwise each complete
/// frame is handed to `average`, in order, and the results are collected;
/// samples after the last complete frame are dropped.
pub fn to_mono<T: Copy, F: Fn(&[T]) -> T>(samples: &[T], channels: u16, average: F) -> (mono: Vec<T>)
    requires
        channels >= 1,
        channels > 1 ==> forall|frame: &[T]|
            frame@.len() == channels ==> call_requires(average, (frame,)),
    ensures
        is_mono_of(average, samples@, channels, mono@),
        channels == 1 ==> mono@ == samples@,
        mono.len() == samples.len() / (channels as usize),
{
    if channels == 1 {
        return vstd::slice::slice_to_vec(samples);
    }
    let width: usize = channels as usize;
    let frames: usize = samples.len() / width;
    let mut mono: Vec<T> = Vec::with_capacity(frames);
    let mut i: usize = 0;
    proof {
        crate::arith::lemma_div_mul_le(samples.len() as int, width as int);
    }
    while i < frames
        invariant
            width == channels,
            width > 1,
            frames == samples.len() / width,
            frames * width <= samples.len(),
            i <= frames,
            mono.len() == i,
            forall|frame: &[T]| frame@.len() == channels ==> call_requires(average, (frame,)),
            forall|k: int|
                0 <= k < i ==> returns_on(
                    average,
                    frame_at(samples@, channels as nat, k),
                    #[trigger] mono[k],
                ),
        decreases frames - i,
    {
        assert(0 <= i * width && (i + 1) * width <= frames * width && (i + 1) * width == i * width
            + width) by (nonlinear_arith)
            requires
                i < frames,
                width > 0,
        ;
        let start: usize = i * width;
        let frame: &[T] = &samples[start..start + width];
        let value: T = average(frame);
        mono.push(value);
        proof {
            assert(frame@ == frame_at(samples@, channels as nat, i as int));
        }
        i = i + 1;
    }
    mono
}

/// Brings `input` from `src_rate` to `dst_rate` by linear interpolation.
///
/// With equal rates the input is returned as it is. Otherwise output sample
/// `i` is `blend(a, b, k, s)`, where `a` is the input sample at the whole part
/// of `i * (src_rate / dst_rate)`, `b` is the sample after it (the last
/// sample again at the end of the input), and `k / 2^s` is the part of
/// that place after the point. `blend` is expected to weigh `a` by
/// `1 - k / 2^s` and `b` by `k / 2^s`.
pub fn resample<T: Copy, F: Fn(T, T, u64, u32) -> T>(
    input: &[T],
    src_rate: u32,
    dst_rate: u32,
    blend: F,
) -> (output: Vec<T>)
    requires
        src_rate == dst_rate || src_rate > 0,
        resampled_len(input.len() as nat, src_rate as nat, dst_rate as nat) <= usize::MAX,
        src_rate != dst_rate ==> forall|a: T, b: T, k: u64, s: u32|
            call_requires(blend, (a, b, k, s)),
    ensures
        is_resampled_of(blend, input@, src_rate, dst_rate, output@),
        src_rate == dst_rate ==> output@ == input@,
        output.len() == resampled_len(input.len() as nat, src_rate as nat, dst_rate as nat),
{
    match resample_if_it_fits(input, src_rate, dst_rate, &blend) {
        Some(output) => output,
        None => Vec::new(),
    }
}

/// `resample`, for every input: `None` where the output would hold more
/// samples than can be counted.
pub fn resample_if_it_fits<T: Copy, F: Fn(T, T, u64, u32) -> T>(
    input: &[T],
    src_rate: u32,
    dst_rate: u32,
    blend: &F,
) -> (fitting: Option<Vec<T>>)
    requires
        src_rate == dst_rate || src_rate > 0,
        src_rate != dst_rate ==> forall|a: T, b: T, k: u64, s: u32|
            call_requires(*blend, (a, b, k, s)),
    ensures
        match fitting {
            Some(output) => {
                &&& is_resampled_of(*blend, input@, src_rate, dst_rate, output@)
                &&& output.len() == resampled_len(
                    input.len() as nat,
                    src_rate as nat,
                    dst_rate as nat,
                )
            },
            None => resampled_len(input.len() as nat, src_rate as nat, dst_rate as nat)
                > usize::MAX,
        },
{
    if src_rate == dst_rate {
        return Some(vstd::slice::slice_to_vec(input));
    }
    let len: usize = input.len();
    if len == 0 || dst_rate == 0 {
        return Some(Vec::new());
    }
    let ratio: Dyadic = round_quotient(src_rate as u128, dst_rate as u128);
    let count: Dyadic = divide(round_whole(len), ratio);
    let output_len: usize = match whole(count) {
        Some(output_len) => output_len,
        None => {
            return None;
        },
    };
    let mut output: Vec<T> = Vec::with_capacity(output_len);
    let mut i: usize = 0;
    while i < output_len
        invariant
            len == input.len(),
            len > 0,
            src_rate != dst_rate,
            ratio@ == rate_ratio(src_rate as nat, dst_rate as nat),
            ratio.within(106),
            i <= output_len,
            output.len() == i,
            forall|a: T, b: T, k: u64, s: u32| call_requires(*blend, (a, b, k, s)),
            forall|j: int|
                0 <= j < i ==> interpolated(
                    *blend,
                    input@,
                    src_rate,
                    dst_rate,
                    j,
                    #[trigger] output[j],
                ),
        decreases output_len - i,
    {
        let place: Dyadic = multiply(round_whole(i), ratio);
        let at: usize = match whole(place) {
            Some(at) => if at < len {
                at
            } else {
                len - 1
            },
            None => len - 1,
        };
        let after: usize = if at + 1 < len {
            at + 1
        } else {
            len - 1
        };
        let (numerator, shift) = fraction(place);
        let value: T = blend(input[at], input[after], numerator, shift);
        output.push(value);
        proof {
            assert(place@ == source_position(i as nat, src_rate as nat, dst_rate as nat));
            assert(at == source_index(i as nat, src_rate as nat, dst_rate as nat, len as nat));
            assert(after == next_or_last(at as nat, len as nat));
        }
        i = i + 1;
    }
    Some(output)
}

/// Resampling a signal to its own rate changes nothing, whatever the signal
/// and the rate.
pub proof fn lemma_resample_same_rate_is_identity<T, F: Fn(T, T, u64, u32) -> T>(
    blend: F,
    input: Seq<T>,
    rate: u32,
    output: Seq<T>,
)
    requires
        is_resampled_of(blend, input, rate, rate, output),
    ensures
        output == input,
        resampled_len(input.len(), rate as nat, rate as nat) == input.len(),
{
}

/// The number of samples after resampling is the whole part of the number
/// before divided by the ratio of the rates, each rounded as a double is;
/// nothing goes in, nothing comes out, and a target rate of zero leaves nothing.
pub proof fn lemma_resampled_len_is_rounded_floor(len: nat, src_rate: nat, dst_rate: nat)
    requires
        src_rate != dst_rate,
    ensures
        len > 0 && dst_rate > 0 ==> resampled_len(len, src_rate, dst_rate) == whole_part(
            quotient(nearest(len, 1), nearest(src_rate, dst_rate)),
        ),
        resampled_len(0, src_rate, dst_rate) == 0,
        src_rate != 0 ==> resampled_len(len, src_rate, 0) == 0,
{
}

/// Two lengths worked out: a tenth of a second at 48 kHz is 1600 samples at
/// 16 kHz, as it is over the real numbers; and 1920 samples at 48 kHz are
/// 440 samples at 11025 Hz, where the real quotient is 441 and the quotient
/// of the doubles falls just short of it.
pub proof fn lemma_resampled_len_worked_out()
    ensures
        resampled_len(4800, 48000, 16000) == 1600,
        resampled_len(1920, 48000, 11025) == 440,
{
    lemma2_to64();
    lemma2_to64_rest();
    lemma_pow2_adds(52, 1);
    // 4800 and 48000 / 16000
    lemma_scaling_is_unique(4800, 1, 40);
    assert(nearest(4800, 1) == Binary { mantissa: 0x12_c000_0000_0000, exponent: -40 });
    lemma_scaling_is_unique(48000, 16000, 51);
    assert(nearest(48000, 16000) == Binary { mantissa: 0x18_0000_0000_0000, exponent: -51 });
    lemma_scaling_is_unique(0x12_c000_0000_0000, 0x18_0000_0000_0000, 53);
    assert(nearest(0x12_c000_0000_0000, 0x18_0000_0000_0000) == Binary {
        mantissa: 0x19_0000_0000_0000,
        exponent: -53,
    });
    assert(0x19_0000_0000_0000nat / pow2(42) == 1600);
    // 1920 and 48000 / 11025
    lemma_scaling_is_unique(1920, 1, 42);
    assert(nearest(1920, 1) == Binary { mantissa: 0x1e_0000_0000_0000, exponent: -42 });
    lemma_scaling_is_unique(48000, 11025, 50);
    assert(nearest(48000, 11025) == Binary { mantissa: 0x11_6a3b_35fc_845b, exponent: -50 });
    lemma_scaling_is_unique(0x1e_0000_0000_0000, 0x11_6a3b_35fc_845b, 52);
    assert(nearest(0x1e_0000_0000_0000, 0x11_6a3b_35fc_845b) == Binary {
        mantissa: 0x1b_8fff_ffff_ffff,
        exponent: -52,
    });
    assert(0x1b_8fff_ffff_ffffnat / pow2(44) == 440);
}

/// Down-mixing a single channel changes nothing.
pub proof fn lemma_mono_of_one_channel_is_identity<T, F: Fn(&[T]) -> T>(
    average: F,
    samples: Seq<T>,
    mono: Seq<T>,
)
    requires
        is_mono_of(average, samples, 1, mono),
    ensures
        mono == samples,
{
}

/// A signal that holds one value throughout still holds that value
/// throughout after resampling, provided `blend` returns the value when
/// both its samples are that value.
pub proof fn lemma_resample_keeps_constant<T, F: Fn(T, T, u64, u32) -> T>(
    blend: F,
    input: Seq<T>,
    src_rate: u32,
    dst_rate: u32,
    output: Seq<T>,
    value: T,
)
    requires
        is_resampled_of(blend, input, src_rate, dst_rate, output),
        forall|i: int| 0 <= i < input.len() ==> input[i] == value,
        forall|k: u64, s: u32, result: T|
            call_ensures(blend, (value, value, k, s), result) ==> result == value,
    ensures
        forall|i: int| 0 <= i < output.len() ==> output[i] == value,
{
    assert forall|i: int| 0 <= i < output.len() implies output[i] == value by {
        if src_rate != dst_rate {
            assert(interpolated(blend, input, src_rate, dst_rate, i, output[i]));
        }
    }
}

} // verus!
