use crate::error::CodecError;
use crate::format::PixelFormat;
use vstd::prelude::*;

verus! {

/// `r` is the ceiling of the square root of `n`: the least non-negative integer
/// whose square is at least `n`.
pub open spec fn is_ceil_sqrt(n: int, r: int) -> bool {
    &&& r >= 0
    &&& r * r >= n
    &&& (r == 0 || (r - 1) * (r - 1) < n)
}

/// The ceiling of the square root of `n`.
pub open spec fn ceil_sqrt(n: int) -> int {
    choose|r: int| #[trigger] is_ceil_sqrt(n, r)
}

/// Padding that makes the payload plus its 16-byte length field a whole number
/// of pixels: the least non-negative value that does.
pub open spec fn pre_padding(len: int, bpp: int) -> int {
    if (len + 16) % bpp == 0 {
        0
    } else {
        bpp - (len + 16) % bpp
    }
}

/// The pixels that the padded content needs, plus one for the metadata pixel.
pub open spec fn min_pixels(len: int, bpp: int) -> int {
    (len + 16 + pre_padding(len, bpp)) / bpp + 1
}

/// The side of the square image for a payload of `len` bytes.
pub open spec fn side_for(len: int, bpp: int) -> int {
    ceil_sqrt(min_pixels(len, bpp))
}

/// The padding once the pixel count is extended to a perfect square.
pub open spec fn padding_for(len: int, bpp: int) -> int {
    pre_padding(len, bpp) + (side_for(len, bpp) * side_for(len, bpp) - min_pixels(len, bpp))
        * bpp
}

/// The side fits a pixel dimension (`u32`) and the image's bytes fit a `usize`.
pub open spec fn fits(len: int, bpp: int) -> bool {
    &&& side_for(len, bpp) <= u32::MAX
    &&& side_for(len, bpp) * side_for(len, bpp) * bpp <= usize::MAX
}

proof fn lemma_square_mono(a: int, b: int)
    requires
        0 <= a <= b,
    ensures
        a * a <= b * b,
{
    assert(a * a <= b * b) by (nonlinear_arith)
        requires
            0 <= a <= b,
    ;
}

proof fn lemma_ceil_sqrt_exists(n: int)
    requires
        n >= 0,
    ensures
        exists|r: int| #[trigger] is_ceil_sqrt(n, r),
    decreases n,
{
    if n == 0 {
        assert(is_ceil_sqrt(0, 0));
    } else {
        lemma_ceil_sqrt_exists(n - 1);
        let r = choose|r: int| #[trigger] is_ceil_sqrt(n - 1, r);
        if r * r >= n {
            assert(is_ceil_sqrt(n, r));
        } else {
            assert((r + 1) * (r + 1) == r * r + 2 * r + 1) by (nonlinear_arith);
            assert(is_ceil_sqrt(n, r + 1));
        }
    }
}

/// The ceiling square root is unique.
pub proof fn lemma_ceil_sqrt_unique(n: int, a: int, b: int)
    requires
        is_ceil_sqrt(n, a),
        is_ceil_sqrt(n, b),
    ensures
        a == b,
{
    if a < b {
        lemma_square_mono(a, b - 1);
    } else if b < a {
        lemma_square_mono(b, a - 1);
    }
}

pub proof fn lemma_ceil_sqrt(n: int)
    requires
        n >= 0,
    ensures
        is_ceil_sqrt(n, ceil_sqrt(n)),
{
    lemma_ceil_sqrt_exists(n);
}

/// The ceiling of the square root of `n`, by binary search on integers.
pub fn ceil_sqrt_u128(n: u128) -> (r: u128)
    ensures
        is_ceil_sqrt(n as int, r as int),
        r as int == ceil_sqrt(n as int),
        r <= 0x1_0000_0000_0000_0000,
{
    let mut lo: u128 = 0;
    let mut hi: u128 = 0x1_0000_0000_0000_0000;
    assert(hi * hi > u128::MAX) by (nonlinear_arith)
        requires
            hi == 0x1_0000_0000_0000_0000u128,
    ;
    while lo < hi
        invariant
            lo <= hi <= 0x1_0000_0000_0000_0000,
            hi * hi >= n,
            lo == 0 || (lo - 1) * (lo - 1) < n,
        decreases hi - lo,
    {
        let mid = lo + (hi - lo) / 2;
        assert(mid * mid < 0x1_0000_0000_0000_0000 * 0x1_0000_0000_0000_0000) by (nonlinear_arith)
            requires
                mid < 0x1_0000_0000_0000_0000,
        ;
        let sq = mid * mid;
        if sq >= n {
            hi = mid;
        } else {
            lo = mid + 1;
        }
    }
    proof {
        lemma_ceil_sqrt(n as int);
        lemma_ceil_sqrt_unique(n as int, lo as int, ceil_sqrt(n as int));
    }
    lo
}

/// The pre-square padding is the least value in `[0, bpp)` that makes the
/// payload and its length field fill whole pixels.
pub proof fn lemma_minimal_padding(len: int, bpp: int)
    requires
        len >= 0,
        bpp >= 1,
    ensures
        0 <= pre_padding(len, bpp) < bpp,
        (len + 16 + pre_padding(len, bpp)) % bpp == 0,
        forall|q: int| 0 <= q < pre_padding(len, bpp) ==> #[trigger] ((len + 16 + q) % bpp) != 0,
{
    let c = len + 16;
    let p = pre_padding(len, bpp);
    assert(c == (c / bpp) * bpp + c % bpp) by (nonlinear_arith)
        requires
            bpp >= 1,
    ;
    if c % bpp != 0 {
        assert((c + p) == (c / bpp + 1) * bpp) by (nonlinear_arith)
            requires
                c == (c / bpp) * bpp + c % bpp,
                p == bpp - c % bpp,
        ;
        vstd::arithmetic::div_mod::lemma_mod_multiples_basic(c / bpp + 1, bpp);
        assert forall|q: int| 0 <= q < p implies #[trigger] ((len + 16 + q) % bpp) != 0 by {
            vstd::arithmetic::div_mod::lemma_fundamental_div_mod_converse(
                c + q,
                bpp,
                c / bpp,
                c % bpp + q,
            );
        }
    }
}

/// The image is square and exactly holds the metadata pixel, the length field,
/// the payload and the padding; the side is the least that does.
pub proof fn lemma_square_fill(len: int, bpp: int)
    requires
        len >= 0,
        bpp >= 1,
    ensures
        side_for(len, bpp) >= 1,
        is_ceil_sqrt(min_pixels(len, bpp), side_for(len, bpp)),
        side_for(len, bpp) * side_for(len, bpp) * bpp == bpp + 16 + len + padding_for(len, bpp),
        padding_for(len, bpp) >= pre_padding(len, bpp) >= 0,
        (padding_for(len, bpp) - pre_padding(len, bpp)) % bpp == 0,
        padding_for(len, bpp) % bpp == pre_padding(len, bpp),
        side_for(len, bpp) * side_for(len, bpp) * bpp >= bpp + 16 + len,
{
    let p = pre_padding(len, bpp);
    let m = min_pixels(len, bpp);
    let s = side_for(len, bpp);
    lemma_minimal_padding(len, bpp);
    let c = len + 16 + p;
    vstd::arithmetic::div_mod::lemma_fundamental_div_mod(c, bpp);
    assert(c == (c / bpp) * bpp);
    assert(c / bpp >= 0) by (nonlinear_arith)
        requires
            c >= 0,
            bpp >= 1,
    ;
    lemma_ceil_sqrt(m);
    assert(s >= 1) by (nonlinear_arith)
        requires
            m >= 1,
            s * s >= m,
            s >= 0,
    ;
    assert(s * s * bpp == bpp + c + (s * s - m) * bpp) by (nonlinear_arith)
        requires
            m == c / bpp + 1,
            c == (c / bpp) * bpp,
    ;
    assert((s * s - m) * bpp >= 0) by (nonlinear_arith)
        requires
            s * s >= m,
            bpp >= 1,
    ;
    vstd::arithmetic::div_mod::lemma_mod_multiples_basic(s * s - m, bpp);
    vstd::arithmetic::div_mod::lemma_fundamental_div_mod_converse(
        padding_for(len, bpp),
        bpp,
        s * s - m,
        p,
    );
}

/// Where a payload sits in its square image: the format, the payload length,
/// the side and the padding.
#[derive(Clone, Copy, Debug, PartialEq, Eq, Structural)]
pub struct PackLayout {
    pub format: PixelFormat,
    pub payload_len: usize,
    pub side: u32,
    pub padding: usize,
}

impl PackLayout {
    /// The layout that `plan` computes for a payload of `len` bytes.
    pub open spec fn is_plan_for(self, len: int) -> bool {
        let bpp = self.format.bytes_per_pixel_spec();
        &&& self.format.valid()
        &&& self.payload_len == len
        &&& fits(len, bpp)
        &&& self.side as int == side_for(len, bpp)
        &&& self.padding as int == padding_for(len, bpp)
    }

    /// Computes the square side and the padding for a payload of `payload_len`
    /// bytes in `format`; fails on an unsupported format before any geometry, and
    /// on a side or byte count too large for its integer type.
    pub fn plan(payload_len: usize, format: PixelFormat) -> (r: Result<PackLayout, CodecError>)
        ensures
            !format.valid() ==> r == Err::<PackLayout, CodecError>(CodecError::UnsupportedFormat),
            format.valid() && !fits(payload_len as int, format.bytes_per_pixel_spec()) ==> r
                == Err::<PackLayout, CodecError>(CodecError::ArithmeticOverflow),
            format.valid() && fits(payload_len as int, format.bytes_per_pixel_spec()) ==> (r is Ok
                && r->Ok_0.is_plan_for(payload_len as int) && r->Ok_0.format == format),
    {
        if !format.is_valid() {
            return Err(CodecError::UnsupportedFormat);
        }
        let bpp = format.bytes_per_pixel() as u128;
        let ghost len = payload_len as int;
        let ghost b = bpp as int;
        let content: u128 = payload_len as u128 + 16;
        let rem = content % bpp;
        let pre: u128 = if rem == 0 {
            0
        } else {
            bpp - rem
        };
        assert(pre as int == pre_padding(len, b));
        let min_px = (content + pre) / bpp + 1;
        assert(min_px as int == min_pixels(len, b));
        let side = ceil_sqrt_u128(min_px);
        proof {
            lemma_square_fill(len, b);
        }
        if side > u32::MAX as u128 {
            return Err(CodecError::ArithmeticOverflow);
        }
        assert(side * side <= 0xFFFF_FFFFu128 * 0xFFFF_FFFFu128) by (nonlinear_arith)
            requires
                side <= 0xFFFF_FFFFu128,
        ;
        let total_px = side * side;
        assert(total_px * bpp <= 0xFFFF_FFFFu128 * 0xFFFF_FFFFu128 * 8) by (nonlinear_arith)
            requires
                total_px <= 0xFFFF_FFFFu128 * 0xFFFF_FFFFu128,
                bpp <= 8,
        ;
        let total_bytes = total_px * bpp;
        if total_bytes > usize::MAX as u128 {
            return Err(CodecError::ArithmeticOverflow);
        }
        let padding = pre + (total_px - min_px) * bpp;
        Ok(PackLayout { format, payload_len, side: side as u32, padding: padding as usize })
    }
}

} // verus!
