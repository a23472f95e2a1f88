use vstd::prelude::*;

verus! {

/// The ceiling of `n / h`: the number of frames a signal of length `n`
/// yields under a hop of `h`.
pub open spec fn ceil_div(n: nat, h: nat) -> nat
    recommends
        h >= 1,
{
    if n == 0 {
        0
    } else {
        ((n - 1) as nat) / h + 1
    }
}

/// `ceil_div` really is the ceiling of the division: `h * ceil_div(n, h)` is
/// the least multiple of `h` that reaches `n`, and the result is zero exactly
/// for the empty signal.
pub proof fn lemma_ceil_div_bounds(n: nat, h: nat)
    requires
        h >= 1,
    ensures
        n <= h * ceil_div(n, h),
        h * ceil_div(n, h) < n + h,
        (ceil_div(n, h) == 0) <==> (n == 0),
{
    if n > 0 {
        let q = ((n - 1) as nat) / h;
        let r = ((n - 1) as nat) % h;
        vstd::arithmetic::div_mod::lemma_fundamental_div_mod((n - 1) as int, h as int);
        vstd::arithmetic::div_mod::lemma_mod_bound((n - 1) as int, h as int);
        assert(n - 1 == h * q + r);
        assert(h * ceil_div(n, h) == h * q + h) by (nonlinear_arith)
            requires
                ceil_div(n, h) == q + 1,
        ;
    }
}

/// Every frame index of the subsampled sequence points inside the full
/// sequence it was taken from.
pub proof fn lemma_stride_in_range(n: nat, h: nat, k: nat)
    requires
        h >= 1,
        k < ceil_div(n, h),
    ensures
        k * h < n,
{
    let q = ((n - 1) as nat) / h;
    vstd::arithmetic::div_mod::lemma_fundamental_div_mod((n - 1) as int, h as int);
    vstd::arithmetic::div_mod::lemma_mod_bound((n - 1) as int, h as int);
    assert(h * q <= n - 1);
    vstd::arithmetic::mul::lemma_mul_inequality(k as int, q as int, h as int);
    vstd::arithmetic::mul::lemma_mul_is_commutative(k as int, h as int);
    vstd::arithmetic::mul::lemma_mul_is_commutative(q as int, h as int);
}

/// Every `h`-th element of `s`, starting at index `0`.
pub open spec fn subsample_spec<T>(s: Seq<T>, h: nat) -> Seq<T>
    recommends
        h >= 1,
{
    Seq::new(ceil_div(s.len(), h), |i: int| s[i * h])
}

/// Keeps every `hop`-th element of `v`, starting at index `0`: the frame-rate
/// view of a per-sample sequence.
pub fn subsample<T: Copy>(v: &Vec<T>, hop: usize) -> (r: Vec<T>)
    requires
        hop >= 1,
    ensures
        r@ == subsample_spec(v@, hop as nat),
        r@.len() == ceil_div(v@.len(), hop as nat),
{
    let n = v.len();
    let mut r: Vec<T> = Vec::new();
    if n == 0 {
        proof {
            assert(r@ =~= subsample_spec(v@, hop as nat));
        }
        return r;
    }
    let count = (n - 1) / hop + 1;
    assert(count == ceil_div(v@.len(), hop as nat));
    for k in 0..count
        invariant
            n == v@.len(),
            1 <= n,
            hop >= 1,
            count == ceil_div(v@.len(), hop as nat),
            r@.len() == k,
            forall|i: int| 0 <= i < k ==> r@[i] == v@[i * (hop as nat)],
    {
        proof {
            lemma_stride_in_range(n as nat, hop as nat, k as nat);
        }
        let j = k * hop;
        r.push(v[j]);
    }
    proof {
        assert(r@ =~= subsample_spec(v@, hop as nat));
    }
    r
}

/// `dst` is `src` with `f` applied to each element: each `dst[i]` is a value
/// that `f` can return on `src[i]`.
pub open spec fn mapped_by<T, F: Fn(T) -> T>(src: Seq<T>, f: F, dst: Seq<T>) -> bool {
    &&& dst.len() == src.len()
    &&& forall|i: int| 0 <= i < src.len() ==> call_ensures(f, (src[i],), #[trigger] dst[i])
}

/// Applies a scalar primitive to every element (the elementwise squaring of
/// the signal and of the window are both instances of this).
pub fn apply_elementwise<T: Copy, F: Fn(T) -> T>(v: &Vec<T>, f: F) -> (r: Vec<T>)
    requires
        forall|x: T| call_requires(f, (x,)),
    ensures
        mapped_by(v@, f, r@),
{
    let mut r: Vec<T> = Vec::new();
    let n = v.len();
    for k in 0..n
        invariant
            n == v@.len(),
            r@.len() == k,
            forall|x: T| call_requires(f, (x,)),
            forall|i: int| 0 <= i < k ==> call_ensures(f, (v@[i],), #[trigger] r@[i]),
    {
        r.push(f(v[k]));
    }
    r
}

/// `dst` is `src` compressed with parameter `gamma`: each `dst[i]` is a value
/// that the compression primitive can return on `(gamma, src[i])`.
pub open spec fn compressed_by<T, F: Fn(T, T) -> T>(
    src: Seq<T>,
    gamma: T,
    f: F,
    dst: Seq<T>,
) -> bool {
    &&& dst.len() == src.len()
    &&& forall|i: int| 0 <= i < src.len() ==> call_ensures(f, (gamma, src[i]), #[trigger] dst[i])
}

/// Applies the compression primitive with parameter `gamma` to every element.
pub fn compress_all<T: Copy, F: Fn(T, T) -> T>(v: &Vec<T>, gamma: T, f: F) -> (r: Vec<T>)
    requires
        forall|a: T, b: T| call_requires(f, (a, b)),
    ensures
        compressed_by(v@, gamma, f, r@),
{
    let mut r: Vec<T> = Vec::new();
    let n = v.len();
    for k in 0..n
        invariant
            n == v@.len(),
            r@.len() == k,
            forall|a: T, b: T| call_requires(f, (a, b)),
            forall|i: int| 0 <= i < k ==> call_ensures(f, (gamma, v@[i]), #[trigger] r@[i]),
    {
        r.push(f(gamma, v[k]));
    }
    r
}

/// `d` is the first difference of `e`, padded with one trailing `zero`: each
/// `d[i]` is a value the subtraction primitive can return on
/// `(e[i + 1], e[i])`, and the last element is exactly `zero`.
pub open spec fn diff_by<T, F: Fn(T, T) -> T>(e: Seq<T>, zero: T, minus: F, d: Seq<T>) -> bool {
    &&& e.len() >= 1
    &&& d.len() == e.len()
    &&& d[e.len() - 1] == zero
    &&& forall|i: int| 0 <= i < e.len() - 1 ==> call_ensures(minus, (e[i + 1], e[i]), #[trigger] d[i])
}

/// The first difference of consecutive values, one trailing `zero` appended
/// to keep the frame count: rising energy becomes a positive entry.
pub fn first_difference<T: Copy, F: Fn(T, T) -> T>(v: &Vec<T>, zero: T, minus: F) -> (r: Vec<T>)
    requires
        v@.len() >= 1,
        forall|a: T, b: T| call_requires(minus, (a, b)),
    ensures
        diff_by(v@, zero, minus, r@),
{
    let mut r: Vec<T> = Vec::new();
    let n = v.len();
    for k in 0..n - 1
        invariant
            n == v@.len(),
            n >= 1,
            r@.len() == k,
            forall|a: T, b: T| call_requires(minus, (a, b)),
            forall|i: int| 0 <= i < k ==> call_ensures(minus, (v@[i + 1], v@[i]), #[trigger] r@[i]),
    {
        r.push(minus(v[k + 1], v[k]));
    }
    r.push(zero);
    r
}

/// One cell of half-wave rectification: `y` is `zero` where the comparison
/// primitive reported `x` below `zero`, and `x` itself otherwise.
pub open spec fn rect_cell<T, F: Fn(T, T) -> bool>(x: T, zero: T, lt: F, y: T) -> bool {
    exists|b: bool|
        {
            &&& #[trigger] call_ensures(lt, (x, zero), b)
            &&& y == (if b {
                zero
            } else {
                x
            })
        }
}

/// `r` is `d` half-wave rectified against `zero` under the comparison
/// primitive; in particular every element of `r` is `zero` or kept from `d`.
pub open spec fn rectified_by<T, F: Fn(T, T) -> bool>(
    d: Seq<T>,
    zero: T,
    lt: F,
    r: Seq<T>,
) -> bool {
    &&& r.len() == d.len()
    &&& forall|i: int| 0 <= i < d.len() ==> rect_cell(d[i], zero, lt, #[trigger] r[i])
}

/// Half-wave rectification: clamps every value the comparison primitive puts
/// below `zero` to exactly `zero` and keeps the rest unchanged.
pub fn half_wave_rectify<T: Copy, F: Fn(T, T) -> bool>(v: &Vec<T>, zero: T, lt: F) -> (r: Vec<T>)
    requires
        forall|a: T, b: T| call_requires(lt, (a, b)),
    ensures
        rectified_by(v@, zero, lt, r@),
        forall|i: int| 0 <= i < v@.len() ==> r@[i] == zero || r@[i] == v@[i],
{
    let mut r: Vec<T> = Vec::new();
    let n = v.len();
    for k in 0..n
        invariant
            n == v@.len(),
            r@.len() == k,
            forall|a: T, b: T| call_requires(lt, (a, b)),
            forall|i: int| 0 <= i < k ==> rect_cell(v@[i], zero, lt, #[trigger] r@[i]),
            forall|i: int| 0 <= i < k ==> r@[i] == zero || r@[i] == v@[i],
    {
        let below = lt(v[k], zero);
        if below {
            r.push(zero);
        } else {
            r.push(v[k]);
        }
        proof {
            assert(rect_cell(v@[k as int], zero, lt, r@[k as int]));
        }
    }
    r
}

/// Non-negativity of the rectified curve, as far as the abstract order can
/// carry it: every rectified value is `zero` itself, or a value the
/// comparison primitive reported as not below `zero`.
pub proof fn lemma_rectified_nonnegative<T, F: Fn(T, T) -> bool>(
    d: Seq<T>,
    zero: T,
    lt: F,
    r: Seq<T>,
)
    requires
        rectified_by(d, zero, lt, r),
    ensures
        forall|i: int|
            0 <= i < r.len() ==> r[i] == zero || call_ensures(lt, (#[trigger] r[i], zero), false),
{
    assert forall|i: int|
        0 <= i < r.len() implies r[i] == zero || call_ensures(lt, (r[i], zero), false) by {
        assert(rect_cell(d[i], zero, lt, r[i]));
        let b = choose|b: bool|
            call_ensures(lt, (d[i], zero), b) && r[i] == (if b {
                zero
            } else {
                d[i]
            });
        if !b {
            assert(r[i] == d[i]);
        }
    }
}

/// `out` is `v` with every element divided by `m`: each `out[i]` is a value
/// the division primitive can return on `(v[i], m)`.
pub open spec fn scaled_by<T, F: Fn(T, T) -> T>(v: Seq<T>, m: T, div: F, out: Seq<T>) -> bool {
    &&& out.len() == v.len()
    &&& forall|i: int| 0 <= i < v.len() ==> call_ensures(div, (v[i], m), #[trigger] out[i])
}

/// Divides every element by the maximum value `m` found for normalization.
pub fn scale_all<T: Copy, F: Fn(T, T) -> T>(v: &Vec<T>, m: T, div: F) -> (r: Vec<T>)
    requires
        forall|a: T, b: T| call_requires(div, (a, b)),
    ensures
        scaled_by(v@, m, div, r@),
{
    let mut r: Vec<T> = Vec::new();
    let n = v.len();
    for k in 0..n
        invariant
            n == v@.len(),
            r@.len() == k,
            forall|a: T, b: T| call_requires(div, (a, b)),
            forall|i: int| 0 <= i < k ==> call_ensures(div, (v@[i], m), #[trigger] r@[i]),
    {
        r.push(div(v[k], m));
    }
    r
}

/// An element-for-element copy, handed to the maximum primitive so that the
/// curve itself stays available afterwards.
pub fn copy_of<T: Copy>(v: &Vec<T>) -> (r: Vec<T>)
    ensures
        r@ == v@,
{
    let mut r: Vec<T> = Vec::new();
    let n = v.len();
    for k in 0..n
        invariant
            n == v@.len(),
            r@.len() == k,
            forall|i: int| 0 <= i < k ==> r@[i] == v@[i],
    {
        r.push(v[k]);
    }
    proof {
        assert(r@ =~= v@);
    }
    r
}

} // verus!
