use vstd::prelude::*;

use crate::error::NoveltyError;
use crate::stages::{
    apply_elementwise, ceil_div, compress_all, compressed_by, copy_of, diff_by, first_difference,
    half_wave_rectify, mapped_by, rectified_by, scale_all, scaled_by, subsample, subsample_spec,
};

verus! {

/// The preconditions of the engine: positive window, hop and sample rate, and
/// a non-empty signal. Anything else is rejected as `InvalidParameter`.
pub open spec fn params_valid<T>(signal: Seq<T>, fs: u32, window_length: u32, hop_length: u32) -> bool {
    &&& fs >= 1
    &&& window_length >= 1
    &&& hop_length >= 1
    &&& signal.len() >= 1
}

/// `energy` is the subsampled local-energy curve of `signal`: the window
/// generator produced a window of length `window_length`, both the signal and
/// the window were squared elementwise, the convolution primitive combined
/// them keeping the signal's length, and every `hop_length`-th value was kept.
pub open spec fn energy_stage<
    T,
    FWin: Fn(u32) -> Vec<T>,
    FSq: Fn(T) -> T,
    FConv: Fn(Vec<T>, Vec<T>) -> Option<Vec<T>>,
>(
    signal: Seq<T>,
    window_length: u32,
    hop_length: u32,
    win: FWin,
    square: FSq,
    conv: FConv,
    energy: Seq<T>,
) -> bool {
    exists|w: Vec<T>, ss: Vec<T>, sw: Vec<T>, c: Vec<T>|
        #![trigger call_ensures(win, (window_length,), w), call_ensures(conv, (ss, sw), Some(c))]
        {
            &&& call_ensures(win, (window_length,), w)
            &&& mapped_by(signal, square, ss@)
            &&& mapped_by(w@, square, sw@)
            &&& call_ensures(conv, (ss, sw), Some(c))
            &&& c@.len() == signal.len()
            &&& energy == subsample_spec(c@, hop_length as nat)
        }
}

/// The convolution primitive was handed the squared signal and the squared
/// window, and either failed outright or broke its same-length contract.
pub open spec fn conv_rejected<
    T,
    FWin: Fn(u32) -> Vec<T>,
    FSq: Fn(T) -> T,
    FConv: Fn(Vec<T>, Vec<T>) -> Option<Vec<T>>,
>(
    signal: Seq<T>,
    window_length: u32,
    win: FWin,
    square: FSq,
    conv: FConv,
) -> bool {
    exists|w: Vec<T>, ss: Vec<T>, sw: Vec<T>, out: Option<Vec<T>>|
        #![trigger call_ensures(win, (window_length,), w), call_ensures(conv, (ss, sw), out)]
        {
            &&& call_ensures(win, (window_length,), w)
            &&& mapped_by(signal, square, ss@)
            &&& mapped_by(w@, square, sw@)
            &&& call_ensures(conv, (ss, sw), out)
            &&& match out {
                Option::None => true,
                Option::Some(c) => c@.len() != signal.len(),
            }
        }
}

/// `rect` is what the energy curve becomes before normalization: compressed
/// with `gamma` exactly when the zero test on `gamma` came back false (the
/// designated bypass sentinel), then first-differenced with a trailing `zero`,
/// then half-wave rectified.
pub open spec fn pre_norm_stage<
    T,
    FZero: Fn(T) -> bool,
    FCmp: Fn(T, T) -> T,
    FSub: Fn(T, T) -> T,
    FLt: Fn(T, T) -> bool,
>(
    energy: Seq<T>,
    gamma: T,
    zero: T,
    is_zero: FZero,
    compress: FCmp,
    minus: FSub,
    lt: FLt,
    rect: Seq<T>,
) -> bool {
    exists|bypass: bool, e2: Seq<T>, d: Seq<T>|
        #![trigger call_ensures(is_zero, (gamma,), bypass), diff_by(e2, zero, minus, d)]
        {
            &&& call_ensures(is_zero, (gamma,), bypass)
            &&& (if bypass {
                e2 == energy
            } else {
                compressed_by(energy, gamma, compress, e2)
            })
            &&& diff_by(e2, zero, minus, d)
            &&& rectified_by(d, zero, lt, rect)
        }
}

/// `curve` is `rect` after the normalization step: untouched when
/// normalization was not requested or when the maximum was not above `zero`,
/// and divided elementwise by the maximum otherwise.
pub open spec fn norm_stage<
    T,
    FLt: Fn(T, T) -> bool,
    FMax: Fn(Vec<T>) -> Option<T>,
    FDiv: Fn(T, T) -> T,
>(
    rect: Seq<T>,
    zero: T,
    normalize: bool,
    lt: FLt,
    peak: FMax,
    div: FDiv,
    curve: Seq<T>,
) -> bool {
    if !normalize {
        curve == rect
    } else {
        exists|vv: Vec<T>, m: T, pos: bool|
            #![trigger call_ensures(peak, (vv,), Some(m)), call_ensures(lt, (zero, m), pos)]
            {
                &&& vv@ == rect
                &&& call_ensures(peak, (vv,), Some(m))
                &&& call_ensures(lt, (zero, m), pos)
                &&& (if pos {
                    scaled_by(rect, m, div, curve)
                } else {
                    curve == rect
                })
            }
    }
}

/// The maximum primitive found no maximum in the rectified curve.
pub open spec fn peak_rejected<T, FMax: Fn(Vec<T>) -> Option<T>>(rect: Seq<T>, peak: FMax) -> bool {
    exists|vv: Vec<T>| #[trigger] call_ensures(peak, (vv,), Option::<T>::None) && vv@ == rect
}

/// Non-negativity of the novelty curve, as far as the abstract order can
/// carry it: when normalization is not requested, every value of the curve
/// the engine returns is `zero` itself, or a value the comparison primitive
/// reported as not below `zero`. (A normalized curve is made of quotients of
/// such values, which only the scalar domain itself can bound; the division
/// primitive's outputs are outside the abstract order.)
pub proof fn lemma_unnormalized_curve_nonnegative<
    T,
    FZero: Fn(T) -> bool,
    FCmp: Fn(T, T) -> T,
    FSub: Fn(T, T) -> T,
    FLt: Fn(T, T) -> bool,
    FMax: Fn(Vec<T>) -> Option<T>,
    FDiv: Fn(T, T) -> T,
>(
    energy: Seq<T>,
    gamma: T,
    zero: T,
    is_zero: FZero,
    compress: FCmp,
    minus: FSub,
    lt: FLt,
    peak: FMax,
    div: FDiv,
    rect: Seq<T>,
    curve: Seq<T>,
)
    requires
        pre_norm_stage(energy, gamma, zero, is_zero, compress, minus, lt, rect),
        norm_stage(rect, zero, false, lt, peak, div, curve),
    ensures
        forall|i: int|
            0 <= i < curve.len() ==> curve[i] == zero || call_ensures(
                lt,
                (#[trigger] curve[i], zero),
                false,
            ),
{
    let (bypass, e2, d) = choose|bypass: bool, e2: Seq<T>, d: Seq<T>|
        {
            &&& call_ensures(is_zero, (gamma,), bypass)
            &&& (if bypass {
                e2 == energy
            } else {
                crate::stages::compressed_by(energy, gamma, compress, e2)
            })
            &&& diff_by(e2, zero, minus, d)
            &&& rectified_by(d, zero, lt, rect)
        };
    crate::stages::lemma_rectified_nonnegative(d, zero, lt, rect);
}

/// Computes the energy-based novelty curve of `signal`, together with the
/// feature sample rate produced by the `rate` primitive on
/// `(fs, hop_length)`.
///
/// The scalar primitives come from the caller: `win` generates the analysis
/// window, `square` squares a scalar, `conv` is same-length zero-padded
/// convolution, `is_zero` tests the compression parameter against the bypass
/// sentinel, `compress` applies logarithmic compression, `minus` subtracts,
/// `lt` is strict order, `peak` finds a maximum and `div` divides; `zero` is
/// the scalar's additive identity, used as the trailing pad of the first
/// difference and as the rectification floor. The curve always has exactly
/// one value per started hop of the signal, and every intermediate stage is
/// pinned to the primitives' input/output relations.
pub fn compute_novelty<T, FWin, FSq, FConv, FZero, FCmp, FSub, FLt, FMax, FDiv, FRate>(
    signal: &Vec<T>,
    fs: u32,
    window_length: u32,
    hop_length: u32,
    gamma: T,
    normalize: bool,
    zero: T,
    win: FWin,
    square: FSq,
    conv: FConv,
    is_zero: FZero,
    compress: FCmp,
    minus: FSub,
    lt: FLt,
    peak: FMax,
    div: FDiv,
    rate: FRate,
) -> (r: Result<(Vec<T>, T), NoveltyError>) where
    T: Copy,
    FWin: Fn(u32) -> Vec<T>,
    FSq: Fn(T) -> T + Copy,
    FConv: Fn(Vec<T>, Vec<T>) -> Option<Vec<T>>,
    FZero: Fn(T) -> bool,
    FCmp: Fn(T, T) -> T,
    FSub: Fn(T, T) -> T,
    FLt: Fn(T, T) -> bool + Copy,
    FMax: Fn(Vec<T>) -> Option<T>,
    FDiv: Fn(T, T) -> T,
    FRate: Fn(u32, u32) -> T,

    requires
        forall|l: u32| call_requires(win, (l,)),
        forall|x: T| call_requires(square, (x,)),
        forall|a: Vec<T>, b: Vec<T>| call_requires(conv, (a, b)),
        forall|x: T| call_requires(is_zero, (x,)),
        forall|a: T, b: T| call_requires(compress, (a, b)),
        forall|a: T, b: T| call_requires(minus, (a, b)),
        forall|a: T, b: T| call_requires(lt, (a, b)),
        forall|v: Vec<T>| call_requires(peak, (v,)),
        forall|a: T, b: T| call_requires(div, (a, b)),
        forall|a: u32, b: u32| call_requires(rate, (a, b)),
    ensures
        (!params_valid(signal@, fs, window_length, hop_length)) <==> (r == Err::<
            (Vec<T>, T),
            NoveltyError,
        >(NoveltyError::InvalidParameter)),
        r matches Err(e) ==> (e == NoveltyError::InvalidParameter || e
            == NoveltyError::ConvolutionError || e == NoveltyError::EmptyMax),
        (r == Err::<(Vec<T>, T), NoveltyError>(NoveltyError::ConvolutionError)) ==> {
            &&& params_valid(signal@, fs, window_length, hop_length)
            &&& conv_rejected(signal@, window_length, win, square, conv)
        },
        (r == Err::<(Vec<T>, T), NoveltyError>(NoveltyError::EmptyMax)) ==> {
            &&& params_valid(signal@, fs, window_length, hop_length)
            &&& normalize
            &&& exists|energy: Seq<T>, rect: Seq<T>|
                #![trigger pre_norm_stage(energy, gamma, zero, is_zero, compress, minus, lt, rect)]
                {
                    &&& energy_stage(signal@, window_length, hop_length, win, square, conv, energy)
                    &&& pre_norm_stage(energy, gamma, zero, is_zero, compress, minus, lt, rect)
                    &&& peak_rejected(rect, peak)
                }
        },
        r matches Ok(out) ==> {
            &&& params_valid(signal@, fs, window_length, hop_length)
            &&& out.0@.len() == ceil_div(signal@.len(), hop_length as nat)
            &&& call_ensures(rate, (fs, hop_length), out.1)
            &&& (!normalize ==> forall|i: int|
                0 <= i < out.0@.len() ==> out.0@[i] == zero || call_ensures(
                    lt,
                    (#[trigger] out.0@[i], zero),
                    false,
                ))
            &&& exists|energy: Seq<T>, rect: Seq<T>|
                #![trigger pre_norm_stage(energy, gamma, zero, is_zero, compress, minus, lt, rect)]
                {
                    &&& energy_stage(signal@, window_length, hop_length, win, square, conv, energy)
                    &&& energy.len() == ceil_div(signal@.len(), hop_length as nat)
                    &&& pre_norm_stage(energy, gamma, zero, is_zero, compress, minus, lt, rect)
                    &&& norm_stage(rect, zero, normalize, lt, peak, div, out.0@)
                }
        },
{
    if window_length == 0 || hop_length == 0 || fs == 0 || signal.len() == 0 {
        return Err(NoveltyError::InvalidParameter);
    }
    let w = win(window_length);
    let squared_signal = apply_elementwise(signal, square);
    let squared_window = apply_elementwise(&w, square);
    let ghost g_ss: Vec<T> = squared_signal;
    let ghost g_sw: Vec<T> = squared_window;
    let conv_out = conv(squared_signal, squared_window);
    let c = match conv_out {
        Option::Some(c) => c,
        Option::None => {
            proof {
                assert(conv_rejected(signal@, window_length, win, square, conv));
            }
            return Err(NoveltyError::ConvolutionError);
        },
    };
    if c.len() != signal.len() {
        proof {
            assert(conv_rejected(signal@, window_length, win, square, conv));
        }
        return Err(NoveltyError::ConvolutionError);
    }
    let energy = subsample(&c, hop_length as usize);
    let ghost g_energy = energy@;
    proof {
        assert(energy_stage(signal@, window_length, hop_length, win, square, conv, g_energy));
    }
    let bypass = is_zero(gamma);
    let e2 = if bypass {
        energy
    } else {
        compress_all(&energy, gamma, compress)
    };
    let d = first_difference(&e2, zero, minus);
    let ghost g_e2 = e2@;
    let ghost g_d = d@;
    let rect = half_wave_rectify(&d, zero, lt);
    let ghost g_rect = rect@;
    proof {
        assert(diff_by(g_e2, zero, minus, g_d));
        assert(pre_norm_stage(g_energy, gamma, zero, is_zero, compress, minus, lt, g_rect));
    }
    let curve: Vec<T>;
    if normalize {
        let duplicate = copy_of(&rect);
        let ghost g_dup: Vec<T> = duplicate;
        let found = peak(duplicate);
        match found {
            Option::None => {
                proof {
                    assert(call_ensures(peak, (g_dup,), Option::<T>::None));
                    assert(peak_rejected(g_rect, peak));
                }
                return Err(NoveltyError::EmptyMax);
            },
            Option::Some(m) => {
                let pos = lt(zero, m);
                if pos {
                    curve = scale_all(&rect, m, div);
                } else {
                    curve = rect;
                }
                proof {
                    assert(call_ensures(peak, (g_dup,), Some(m)));
                    assert(norm_stage(g_rect, zero, normalize, lt, peak, div, curve@));
                }
            },
        }
    } else {
        curve = rect;
        proof {
            assert(norm_stage(g_rect, zero, normalize, lt, peak, div, curve@));
            crate::stages::lemma_rectified_nonnegative(g_d, zero, lt, g_rect);
        }
    }
    let fsf = rate(fs, hop_length);
    Ok((curve, fsf))
}

} // verus!
