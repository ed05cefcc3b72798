//! The low-pass filter, as it acts on a spectrum.
//!
//! The filter works in the frequency domain: of the bins of a spectrum it
//! zeroes those from the cutoff's bin up to where the mirror image of the
//! lower bins begins. The transforms into the frequency domain and back
//! are the caller's, and so is the type of a bin.

use vstd::prelude::*;
use vstd::arithmetic::div_mod::{
    lemma_fundamental_div_mod,
    lemma_fundamental_div_mod_converse,
    lemma_mod_bound,
};
use crate::units::SCALE;

verus! {

/// The bin of a spectrum of `len` bins at which a cutoff of `cutoff_freq`
/// millionths of a Hz lies, at `rate` Hz: `cutoff_freq / (rate / 2)` of
/// the way through the lower half, which is `cutoff_freq * len / rate`,
/// rounded to the nearest whole number, a half rounded up.
pub open spec fn cutoff_bin(len: int, rate: int, cutoff_freq: int) -> int {
    (2 * (cutoff_freq * len) + rate * SCALE) / (2 * (rate * SCALE))
}

/// Whether bin `i` of `len` is zeroed by a cutoff at bin `bin`.
pub open spec fn in_stop_band(i: int, len: int, bin: int) -> bool {
    bin <= i < len - bin
}

/// The spectrum with the bins of the stop band replaced by `zero`.
pub open spec fn filtered<T>(bins: Seq<T>, bin: int, zero: T) -> Seq<T> {
    Seq::new(
        bins.len(),
        |i: int|
            if in_stop_band(i, bins.len() as int, bin) {
                zero
            } else {
                bins[i]
            },
    )
}

/// The bin at which the cutoff lies.
pub fn lowpass_bin(len: usize, samplerate: u32, cutoff_freq: u64) -> (bin: u128)
    requires
        samplerate > 0,
    ensures
        bin as int == cutoff_bin(len as int, samplerate as int, cutoff_freq as int),
{
    assert(cutoff_freq * len <= 0xffff_ffff_ffff_ffff * 0xffff_ffff_ffff_ffff) by (nonlinear_arith)
        requires
            cutoff_freq <= 0xffff_ffff_ffff_ffff,
            len <= 0xffff_ffff_ffff_ffff,
    ;
    assert(0 <= cutoff_freq * len) by (nonlinear_arith)
        requires
            0 <= cutoff_freq,
            0 <= len,
    ;
    let scaled: u128 = (cutoff_freq as u128) * (len as u128);
    let unit: u128 = (samplerate as u128) * 1_000_000;
    let whole: u128 = scaled / unit;
    let rest: u128 = scaled % unit;
    proof {
        lemma_fundamental_div_mod(scaled as int, unit as int);
        lemma_mod_bound(scaled as int, unit as int);
        assert(whole <= scaled) by (nonlinear_arith)
            requires
                scaled == unit * whole + rest,
                unit >= 1,
                whole >= 0,
                rest >= 0,
        ;
        if 2 * rest >= unit {
            assert(2 * scaled + unit == (2 * unit) * (whole + 1) + (2 * rest - unit))
                by (nonlinear_arith)
                requires
                    scaled == unit * whole + rest,
            ;
            lemma_fundamental_div_mod_converse(
                2 * scaled + unit,
                2 * unit,
                whole + 1,
                2 * rest - unit,
            );
        } else {
            assert(2 * scaled + unit == (2 * unit) * whole + (2 * rest + unit)) by (nonlinear_arith)
                requires
                    scaled == unit * whole + rest,
            ;
            lemma_fundamental_div_mod_converse(2 * scaled + unit, 2 * unit, whole as int, 2 * rest + unit);
        }
    }
    if rest >= unit - rest {
        whole + 1
    } else {
        whole
    }
}

/// Zeroes the bins of the spectrum that lie at or above the cutoff: the
/// bins from the cutoff's bin up to, and not including, the bin as far from
/// the end as the cutoff's bin is from the start. The other bins, and the
/// length, stay as they are. `zero` is the value of an empty bin.
pub fn lowpass_filter<T: Copy>(spectrum: &mut Vec<T>, samplerate: u32, cutoff_freq: u64, zero: T)
    requires
        samplerate > 0,
    ensures
        final(spectrum)@ == filtered(
            old(spectrum)@,
            cutoff_bin(old(spectrum)@.len() as int, samplerate as int, cutoff_freq as int),
            zero,
        ),
{
    let len: usize = spectrum.len();
    let bin: u128 = lowpass_bin(len, samplerate, cutoff_freq);
    let ghost goal = filtered(old(spectrum)@, bin as int, zero);
    if bin >= len as u128 {
        assert(spectrum@ =~= goal);
        return ;
    }
    let start: usize = bin as usize;
    let end: usize = len - start;
    let mut i: usize = start;
    while i < end
        invariant
            start <= i,
            i == start || i <= end,
            end == len - start,
            start < len,
            len == spectrum@.len(),
            len == old(spectrum)@.len(),
            bin == start,
            goal == filtered(old(spectrum)@, bin as int, zero),
            forall|j: int| 0 <= j < len && !(start <= j < i) ==> spectrum@[j] == old(spectrum)@[j],
            forall|j: int| start <= j < i ==> spectrum@[j] == zero,
        decreases end - i,
    {
        spectrum.set(i, zero);
        i += 1;
    }
    assert forall|j: int| 0 <= j < len implies spectrum@[j] == goal[j] by {
        if in_stop_band(j, len as int, bin as int) {
            assert(start <= j < i);
        }
    }
    assert(spectrum@ =~= goal);
}

/// With the cutoff at or above half the rate, no bin is zeroed: the
/// spectrum passes as it is.
pub proof fn lemma_lowpass_passes_all<T>(bins: Seq<T>, rate: int, cutoff_freq: int, zero: T)
    requires
        0 < rate,
        2 * cutoff_freq >= rate * SCALE,
    ensures
        filtered(bins, cutoff_bin(bins.len() as int, rate, cutoff_freq), zero) == bins,
{
    let len = bins.len() as int;
    let unit = rate * SCALE;
    let top = 2 * (cutoff_freq * len) + unit;
    let bin = cutoff_bin(len, rate, cutoff_freq);
    assert(unit > 0) by (nonlinear_arith)
        requires
            unit == rate * SCALE,
            rate > 0,
            SCALE == 1_000_000,
    ;
    lemma_fundamental_div_mod(top, 2 * unit);
    lemma_mod_bound(top, 2 * unit);
    assert(top >= unit * len + unit) by (nonlinear_arith)
        requires
            top == 2 * (cutoff_freq * len) + unit,
            2 * cutoff_freq >= unit,
            len >= 0,
    ;
    assert(2 * bin >= len) by (nonlinear_arith)
        requires
            top == (2 * unit) * bin + top % (2 * unit),
            top % (2 * unit) < 2 * unit,
            top >= unit * len + unit,
            unit > 0,
    ;
    assert(filtered(bins, bin, zero) =~= bins);
}

/// The stop band mirrors itself: a bin is zeroed exactly when the bin as
/// far from the other end is.
pub proof fn lemma_stop_band_is_symmetric(i: int, len: int, bin: int)
    requires
        0 <= i < len,
    ensures
        in_stop_band(i, len, bin) <==> in_stop_band(len - 1 - i, len, bin),
{
}

} // verus!
