//! Choosing a near-square pixel grid able to hold a byte buffer.
use vstd::arithmetic::div_mod::lemma_fundamental_div_mod;
use vstd::prelude::*;

verus! {

/// `r` is the integer square root of `n`, rounded down.
pub open spec fn is_floor_sqrt(r: nat, n: nat) -> bool {
    r * r <= n && n < (r + 1) * (r + 1)
}

/// The integer square root of `n`, rounded down.
pub open spec fn floor_sqrt(n: nat) -> nat
    decreases n,
{
    if n == 0 {
        0
    } else {
        let r = floor_sqrt((n - 1) as nat);
        if (r + 1) * (r + 1) <= n {
            r + 1
        } else {
            r
        }
    }
}

/// `a / b` rounded up.
pub open spec fn ceil_div(a: nat, b: nat) -> nat {
    if b == 0 {
        0
    } else {
        ((a + b - 1) as nat) / b
    }
}

/// Number of RGB pixels needed for `len` bytes.
pub open spec fn pixel_count(len: nat) -> nat {
    ceil_div(len, 3)
}

/// Width of the grid chosen for a buffer of `len` bytes.
pub open spec fn grid_width(len: nat) -> nat {
    floor_sqrt(pixel_count(len))
}

/// Height of the grid chosen for a buffer of `len` bytes.
pub open spec fn grid_height(len: nat) -> nat {
    ceil_div(pixel_count(len), grid_width(len))
}

/// Number of bytes held by the grid chosen for a buffer of `len` bytes.
pub open spec fn grid_bytes(len: nat) -> nat {
    grid_width(len) * grid_height(len) * 3
}

pub proof fn lemma_floor_sqrt(n: nat)
    ensures
        is_floor_sqrt(floor_sqrt(n), n),
    decreases n,
{
    if n > 0 {
        let m = (n - 1) as nat;
        lemma_floor_sqrt(m);
        let r = floor_sqrt(m);
        assert(r * r <= m && m < (r + 1) * (r + 1));
        assert((r + 1) * (r + 1) < (r + 2) * (r + 2)) by (nonlinear_arith);
        if (r + 1) * (r + 1) <= n {
            assert(floor_sqrt(n) == r + 1);
        } else {
            assert(floor_sqrt(n) == r);
        }
    } else {
        assert(floor_sqrt(n) == 0);
        assert(is_floor_sqrt(0, 0)) by (nonlinear_arith);
    }
}

pub proof fn lemma_floor_sqrt_unique(a: nat, b: nat, n: nat)
    requires
        is_floor_sqrt(a, n),
        is_floor_sqrt(b, n),
    ensures
        a == b,
{
    if a < b {
        assert((a + 1) * (a + 1) <= b * b) by (nonlinear_arith)
            requires a + 1 <= b;
    } else if b < a {
        assert((b + 1) * (b + 1) <= a * a) by (nonlinear_arith)
            requires b + 1 <= a;
    }
}

/// Integer square root of `n`, rounded down.
pub fn floor_sqrt_u64(n: u64) -> (r: u64)
    ensures
        r as nat == floor_sqrt(n as nat),
{
    // binary search for the largest `lo` with `lo * lo <= n`
    let mut lo: u64 = 0;
    let mut hi: u64 = 0x1_0000_0000;
    assert(n < hi * hi) by (nonlinear_arith)
        requires n <= 0xFFFF_FFFF_FFFF_FFFFu64, hi == 0x1_0000_0000u64;
    while lo + 1 < hi
        invariant
            lo < hi <= 0x1_0000_0000,
            lo * lo <= n,
            n < hi * hi,
        decreases hi - lo,
    {
        let mid: u64 = lo + (hi - lo) / 2;
        assert(mid * mid <= 0xFFFF_FFFF * 0xFFFF_FFFF) by (nonlinear_arith)
            requires mid <= 0xFFFF_FFFF;
        if mid * mid <= n {
            lo = mid;
        } else {
            hi = mid;
        }
    }
    proof {
        lemma_floor_sqrt(n as nat);
        lemma_floor_sqrt_unique(lo as nat, floor_sqrt(n as nat), n as nat);
    }
    lo
}

/// Facts on a width `w` with `w * w <= t` and the height `ceil(t / w)`.
proof fn lemma_height_bounds(t: nat, w: nat)
    requires
        1 <= w,
        w * w <= t,
    ensures
        t <= w * ceil_div(t, w),
        w * ceil_div(t, w) < t + w,
        w <= ceil_div(t, w) <= t,
{
    let h = ceil_div(t, w);
    lemma_fundamental_div_mod((t + w - 1) as int, w as int);
    let rem = ((t + w - 1) as int) % (w as int);
    assert(t + w - 1 == w * h + rem);
    assert(0 <= rem < w);
    assert(w <= h) by (nonlinear_arith)
        requires
            w * w <= t,
            t <= w * h,
            1 <= w,
    ;
    assert(h <= t) by (nonlinear_arith)
        requires
            w * h < t + w,
            1 <= w,
    ;
}

/// For every non-empty buffer the chosen grid holds it, the padding it leaves
/// is less than one pixel column high, and the grid is at least as tall as wide.
pub proof fn lemma_grid_fits(len: nat)
    requires
        len >= 1,
    ensures
        1 <= grid_width(len) <= grid_height(len),
        grid_height(len) <= pixel_count(len),
        len <= grid_bytes(len),
        grid_bytes(len) - len < 3 * grid_height(len),
{
    let t = pixel_count(len);
    let w = grid_width(len);
    let h = grid_height(len);
    lemma_floor_sqrt(t);
    assert(t >= 1);
    assert(w >= 1) by (nonlinear_arith)
        requires
            t >= 1,
            t < (w + 1) * (w + 1),
    ;
    lemma_height_bounds(t, w);
    assert(3 * t <= len + 2);
    assert(len <= 3 * t);
    assert(grid_bytes(len) == 3 * (w * h)) by (nonlinear_arith)
        requires grid_bytes(len) == w * h * 3;
}

/// Width and height of the grid chosen for a buffer of `len` bytes.
pub fn dimensions(len: u64) -> (r: (u32, u32))
    requires
        1 <= len <= 0x1_0000_0003,
    ensures
        r.0 as nat == grid_width(len as nat),
        r.1 as nat == grid_height(len as nat),
        1 <= r.0 <= r.1,
{
    let total_pixels: u64 = (len + 2) / 3;
    let w: u64 = floor_sqrt_u64(total_pixels);
    proof {
        lemma_grid_fits(len as nat);
        lemma_floor_sqrt(total_pixels as nat);
        lemma_height_bounds(total_pixels as nat, w as nat);
    }
    let h: u64 = (total_pixels + w - 1) / w;
    (w as u32, h as u32)
}

} // verus!
