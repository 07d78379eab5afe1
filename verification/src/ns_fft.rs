//! Layout of the spectrum of a `FFT_SIZE`-point real FFT.
//!
//! The in-place real FFT leaves its result "packed": position 0 holds the DC
//! bin (real), position 1 the Nyquist bin (real), and positions `2k`, `2k+1`
//! the real and imaginary parts of bin `k` for `0 < k < FFT_SIZE / 2`. The
//! noise suppressor works on split arrays of `FFT_SIZE_BY_2_PLUS_1` real and
//! imaginary parts; the DC and Nyquist bins have no imaginary part.
//!
//! This module reads bins out of a packed array, splits a packed array into
//! real and imaginary parts, and packs split parts back for the inverse
//! transform. It is generic in the sample type.
use vstd::prelude::*;

use crate::config::{FFT_SIZE, FFT_SIZE_BY_2_PLUS_1};

verus! {

/// Position in the packed array of the real part of bin `bin`.
pub open spec fn real_position(bin: int) -> int {
    if bin == FFT_SIZE_BY_2_PLUS_1 - 1 {
        1
    } else {
        2 * bin
    }
}

/// Position in the packed array of the imaginary part of bin `bin`, or
/// `None` for the DC and Nyquist bins, whose imaginary part is zero.
pub open spec fn imag_position(bin: int) -> Option<int> {
    if bin == 0 || bin == FFT_SIZE_BY_2_PLUS_1 - 1 {
        None
    } else {
        Some(2 * bin + 1)
    }
}

/// The real parts of all bins of a packed spectrum.
pub open spec fn unpacked_real<T>(packed: Seq<T>) -> Seq<T> {
    Seq::new(FFT_SIZE_BY_2_PLUS_1 as nat, |bin: int| packed[real_position(bin)])
}

/// The imaginary parts of all bins of a packed spectrum, `zero` standing for
/// the DC and Nyquist bins.
pub open spec fn unpacked_imag<T>(packed: Seq<T>, zero: T) -> Seq<T> {
    Seq::new(
        FFT_SIZE_BY_2_PLUS_1 as nat,
        |bin: int|
            match imag_position(bin) {
                Some(p) => packed[p],
                None => zero,
            },
    )
}

/// The packed spectrum whose bins have real parts `re[0..=128]` and
/// imaginary parts `im[1..128]`.
pub open spec fn packed_spectrum<T>(re: Seq<T>, im: Seq<T>) -> Seq<T> {
    Seq::new(
        FFT_SIZE as nat,
        |p: int|
            if p == 0 {
                re[0]
            } else if p == 1 {
                re[FFT_SIZE_BY_2_PLUS_1 - 1]
            } else if p % 2 == 0 {
                re[p / 2]
            } else {
                im[p / 2]
            },
    )
}

/// Position in the packed array of the real part of bin `bin`.
pub fn real_bin_position(bin: usize) -> (p: usize)
    requires
        bin < FFT_SIZE_BY_2_PLUS_1,
    ensures
        p == real_position(bin as int),
        p < FFT_SIZE,
        bin == FFT_SIZE_BY_2_PLUS_1 - 1 ==> p == 1,
        bin < FFT_SIZE_BY_2_PLUS_1 - 1 ==> p == 2 * bin,
{
    if bin == FFT_SIZE_BY_2_PLUS_1 - 1 {
        1
    } else {
        2 * bin
    }
}

/// Position in the packed array of the imaginary part of bin `bin`, or
/// `None` for the DC and Nyquist bins.
pub fn imag_bin_position(bin: usize) -> (p: Option<usize>)
    requires
        bin < FFT_SIZE_BY_2_PLUS_1,
    ensures
        match p {
            Some(q) => imag_position(bin as int) == Some(q as int) && q < FFT_SIZE,
            None => imag_position(bin as int) is None,
        },
        (p is None) <==> (bin == 0 || bin == FFT_SIZE_BY_2_PLUS_1 - 1),
        p matches Some(q) ==> q == 2 * bin + 1,
{
    if bin == 0 || bin == FFT_SIZE_BY_2_PLUS_1 - 1 {
        None
    } else {
        Some(2 * bin + 1)
    }
}

/// A read-only view of a packed spectrum.
pub struct FFTPackedHelper<'d, T> {
    ray: &'d [T; FFT_SIZE],
}

/// Reads the imaginary parts of the bins of a packed spectrum.
pub struct FFTImagHelper<'d, T>(&'d FFTPackedHelper<'d, T>);

/// Reads the real parts of the bins of a packed spectrum.
pub struct FFTRealHelper<'d, T>(&'d FFTPackedHelper<'d, T>);

impl<'d, T> FFTPackedHelper<'d, T> {
    /// The packed spectrum that this helper reads.
    pub closed spec fn packed(&self) -> Seq<T> {
        self.ray@
    }

    /// A helper reading the packed spectrum `f`.
    pub fn new(f: &'d [T; FFT_SIZE]) -> (r: FFTPackedHelper<'d, T>)
        ensures
            r.packed() == f@,
    {
        FFTPackedHelper { ray: f }
    }

    /// Access to the imaginary parts of the bins.
    pub fn imag(&'d self) -> (r: FFTImagHelper<'d, T>)
        ensures
            r.packed() == self.packed(),
    {
        FFTImagHelper(self)
    }

    /// Access to the real parts of the bins.
    pub fn real_part(&'d self) -> (r: FFTRealHelper<'d, T>)
        ensures
            r.packed() == self.packed(),
    {
        FFTRealHelper(self)
    }
}

impl<'d, T> FFTImagHelper<'d, T> {
    /// The packed spectrum that this helper reads.
    pub closed spec fn packed(&self) -> Seq<T> {
        self.0.packed()
    }

    /// The imaginary part of bin `index`; `None` for the DC and Nyquist
    /// bins, whose imaginary part is zero.
    pub fn index(&self, index: usize) -> (r: Option<&T>)
        requires
            index < FFT_SIZE_BY_2_PLUS_1,
        ensures
            match imag_position(index as int) {
                Some(p) => r == Some(&self.packed()[p]),
                None => r is None,
            },
            (r is None) <==> (index == 0 || index == FFT_SIZE_BY_2_PLUS_1 - 1),
            r matches Some(v) ==> *v == self.packed()[2 * index + 1],
    {
        match imag_bin_position(index) {
            Some(p) => Some(&self.0.ray[p]),
            None => None,
        }
    }
}

impl<'d, T> FFTRealHelper<'d, T> {
    /// The packed spectrum that this helper reads.
    pub closed spec fn packed(&self) -> Seq<T> {
        self.0.packed()
    }

    /// The real part of bin `index`.
    pub fn index(&self, index: usize) -> (r: &T)
        requires
            index < FFT_SIZE_BY_2_PLUS_1,
        ensures
            *r == self.packed()[real_position(index as int)],
            index == FFT_SIZE_BY_2_PLUS_1 - 1 ==> *r == self.packed()[1],
            index < FFT_SIZE_BY_2_PLUS_1 - 1 ==> *r == self.packed()[2 * index],
    {
        &self.0.ray[real_bin_position(index)]
    }
}

/// Splits the packed spectrum `packed` into the first
/// `FFT_SIZE_BY_2_PLUS_1` entries of `re` and `im`; the imaginary parts
/// of the DC and Nyquist bins are set to `zero`, and the entries of `re`
/// and `im` past the last bin are left as they were.
pub fn unpack_spectrum<T: Copy>(
    packed: &[T; FFT_SIZE],
    zero: T,
    re: &mut [T; FFT_SIZE],
    im: &mut [T; FFT_SIZE],
)
    ensures
        final(re)@.subrange(0, FFT_SIZE_BY_2_PLUS_1 as int) == unpacked_real(packed@),
        final(im)@.subrange(0, FFT_SIZE_BY_2_PLUS_1 as int) == unpacked_imag(packed@, zero),
        final(re)@.subrange(FFT_SIZE_BY_2_PLUS_1 as int, FFT_SIZE as int) == old(
            re,
        )@.subrange(FFT_SIZE_BY_2_PLUS_1 as int, FFT_SIZE as int),
        final(im)@.subrange(FFT_SIZE_BY_2_PLUS_1 as int, FFT_SIZE as int) == old(
            im,
        )@.subrange(FFT_SIZE_BY_2_PLUS_1 as int, FFT_SIZE as int),
        final(im)@[0] == zero,
        final(im)@[FFT_SIZE_BY_2_PLUS_1 - 1] == zero,
        forall|b: int|
            0 <= b < FFT_SIZE_BY_2_PLUS_1 ==> #[trigger] final(re)@[b] == unpacked_real(packed@)[b],
        forall|b: int|
            0 <= b < FFT_SIZE_BY_2_PLUS_1 ==> #[trigger] final(im)@[b] == unpacked_imag(
                packed@,
                zero,
            )[b],
        forall|b: int|
            FFT_SIZE_BY_2_PLUS_1 <= b < FFT_SIZE ==> #[trigger] final(re)@[b] == old(re)@[b],
        forall|b: int|
            FFT_SIZE_BY_2_PLUS_1 <= b < FFT_SIZE ==> #[trigger] final(im)@[b] == old(im)@[b],
        final(re)@[0] == packed@[0],
        final(re)@[FFT_SIZE_BY_2_PLUS_1 - 1] == packed@[1],
        forall|k: int|
            0 < k < FFT_SIZE_BY_2_PLUS_1 - 1 ==> #[trigger] final(re)@[k] == packed@[2 * k]
                && final(im)@[k] == packed@[2 * k + 1],
{
    im[0] = zero;
    re[0] = packed[0];
    im[FFT_SIZE_BY_2_PLUS_1 - 1] = zero;
    re[FFT_SIZE_BY_2_PLUS_1 - 1] = packed[1];
    for i in 1..FFT_SIZE_BY_2_PLUS_1 - 1
        invariant
            re[0] == packed[0],
            im[0] == zero,
            re[FFT_SIZE_BY_2_PLUS_1 - 1] == packed[1],
            im[FFT_SIZE_BY_2_PLUS_1 - 1] == zero,
            forall|b: int| 1 <= b < i ==> #[trigger] re[b] == packed[2 * b],
            forall|b: int| 1 <= b < i ==> #[trigger] im[b] == packed[2 * b + 1],
            forall|b: int|
                FFT_SIZE_BY_2_PLUS_1 <= b < FFT_SIZE ==> #[trigger] re[b] == old(re)[b],
            forall|b: int|
                FFT_SIZE_BY_2_PLUS_1 <= b < FFT_SIZE ==> #[trigger] im[b] == old(im)[b],
    {
        re[i] = packed[2 * i];
        im[i] = packed[2 * i + 1];
    }
    assert(re@.subrange(0, FFT_SIZE_BY_2_PLUS_1 as int) =~= unpacked_real(packed@));
    assert(im@.subrange(0, FFT_SIZE_BY_2_PLUS_1 as int) =~= unpacked_imag(packed@, zero));
    assert(re@.subrange(FFT_SIZE_BY_2_PLUS_1 as int, FFT_SIZE as int) =~= old(
        re,
    )@.subrange(FFT_SIZE_BY_2_PLUS_1 as int, FFT_SIZE as int));
    assert(im@.subrange(FFT_SIZE_BY_2_PLUS_1 as int, FFT_SIZE as int) =~= old(
        im,
    )@.subrange(FFT_SIZE_BY_2_PLUS_1 as int, FFT_SIZE as int));
}

/// Packs the real parts `re[0..=128]` and imaginary parts `im[1..128]`
/// of the bins into `packed`, the layout that the inverse real FFT reads.
pub fn pack_spectrum<T: Copy>(re: &[T], im: &[T], packed: &mut [T; FFT_SIZE])
    requires
        re@.len() >= FFT_SIZE_BY_2_PLUS_1,
        im@.len() >= FFT_SIZE_BY_2_PLUS_1 - 1,
    ensures
        final(packed)@ == packed_spectrum(re@, im@),
        final(packed)@[0] == re@[0],
        final(packed)@[1] == re@[FFT_SIZE_BY_2_PLUS_1 - 1],
        forall|k: int|
            0 < k < FFT_SIZE_BY_2_PLUS_1 - 1 ==> #[trigger] final(packed)@[2 * k] == re@[k]
                && final(packed)@[2 * k + 1] == im@[k],
{
    packed[0] = re[0];
    packed[1] = re[FFT_SIZE_BY_2_PLUS_1 - 1];
    for i in 1..FFT_SIZE_BY_2_PLUS_1 - 1
        invariant
            re@.len() >= FFT_SIZE_BY_2_PLUS_1,
            im@.len() >= FFT_SIZE_BY_2_PLUS_1 - 1,
            packed[0] == re@[0],
            packed[1] == re@[FFT_SIZE_BY_2_PLUS_1 - 1],
            forall|b: int| 1 <= b < i ==> #[trigger] packed[2 * b] == re@[b],
            forall|b: int| 1 <= b < i ==> #[trigger] packed[2 * b + 1] == im@[b],
    {
        packed[2 * i] = re[i];
        packed[2 * i + 1] = im[i];
    }
    assert forall|p: int| 0 <= p < FFT_SIZE implies #[trigger] packed@[p] == packed_spectrum(
        re@,
        im@,
    )[p] by {
        if p >= 2 {
            let b = p / 2;
            if p % 2 == 0 {
                assert(p == 2 * b);
            } else {
                assert(p == 2 * b + 1);
            }
        }
    }
    assert(packed@ =~= packed_spectrum(re@, im@));
}

/// Splitting a packed spectrum and packing the parts again gives back the
/// packed spectrum, whatever `zero` the split used.
pub proof fn law_pack_after_unpack<T>(packed: Seq<T>, zero: T)
    requires
        packed.len() == FFT_SIZE,
    ensures
        packed_spectrum(unpacked_real(packed), unpacked_imag(packed, zero)) == packed,
{
    let r = packed_spectrum(unpacked_real(packed), unpacked_imag(packed, zero));
    assert forall|p: int| 0 <= p < FFT_SIZE implies #[trigger] r[p] == packed[p] by {
        if p >= 2 {
            let b = p / 2;
            if p % 2 == 0 {
                assert(p == 2 * b);
            } else {
                assert(p == 2 * b + 1);
            }
        }
    }
    assert(r =~= packed);
}

/// Packing split parts and splitting the result again gives back the real
/// parts of all bins and the imaginary parts of all bins but DC and Nyquist,
/// which come back as `zero`.
pub proof fn law_unpack_after_pack<T>(re: Seq<T>, im: Seq<T>, zero: T)
    requires
        re.len() >= FFT_SIZE_BY_2_PLUS_1,
        im.len() >= FFT_SIZE_BY_2_PLUS_1 - 1,
    ensures
        unpacked_real(packed_spectrum(re, im)) == re.subrange(
            0,
            FFT_SIZE_BY_2_PLUS_1 as int,
        ),
        forall|bin: int|
            0 < bin < FFT_SIZE_BY_2_PLUS_1 - 1 ==> #[trigger] unpacked_imag(
                packed_spectrum(re, im),
                zero,
            )[bin] == im[bin],
        unpacked_imag(packed_spectrum(re, im), zero)[0] == zero,
        unpacked_imag(packed_spectrum(re, im), zero)[FFT_SIZE_BY_2_PLUS_1 - 1] == zero,
{
    let p = packed_spectrum(re, im);
    assert forall|bin: int| 0 < bin < FFT_SIZE_BY_2_PLUS_1 - 1 implies #[trigger] unpacked_real(
        p,
    )[bin] == re[bin] && unpacked_imag(p, zero)[bin] == im[bin] by {
        assert((2 * bin) / 2 == bin);
        assert((2 * bin + 1) / 2 == bin);
    }
    assert(unpacked_real(p) =~= re.subrange(0, FFT_SIZE_BY_2_PLUS_1 as int));
}

} // verus!
