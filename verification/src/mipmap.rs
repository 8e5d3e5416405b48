//! Making an image of half the size.
//!
//! Each texel of the smaller image is a sample of the larger one, taken at
//! the middle of the texel. With the nearest filter the sample is the texel
//! of the larger image that the middle lies in. With the linear filter it is
//! the mean of the two texels nearest to the middle on each axis, each
//! weighted by how near it is; this is done byte by byte, for formats whose
//! bytes are unsigned channels of their own.
//!
//! All of this is computed in whole numbers. A texel `x` of an axis of `dw`
//! texels has its middle at `(2x + 1) / (2 dw)` of the axis. On an axis of
//! `sw` texels that is the place `(2x + 1) sw / (2 dw)`, counted in texels,
//! and the middles of the texels there lie at the halves.

use vstd::prelude::*;
use vstd::arithmetic::div_mod::{lemma_fundamental_div_mod, lemma_fundamental_div_mod_converse};
use crate::extent::Extent3d;
use crate::format::Format;
use crate::wrap::Filter;

verus! {

/// The texel of an axis of `sw` texels in which the middle of texel `x` of
/// an axis of `dw` texels lies.
pub open spec fn spec_nearest(x: nat, sw: nat, dw: nat) -> nat {
    ((2 * x + 1) * sw) / (2 * dw)
}

/// The first of the two texels of an axis of `sw` texels that lie nearest to
/// the middle of texel `x` of an axis of `dw` texels.
pub open spec fn spec_tap_lo(x: nat, sw: nat, dw: nat) -> nat {
    (((2 * x + 1) * sw - dw) / (2 * dw as int)) as nat
}

/// The second of the two texels: the one after the first, or the first
/// again where the axis ends.
pub open spec fn spec_tap_hi(x: nat, sw: nat, dw: nat) -> nat {
    if spec_tap_lo(x, sw, dw) + 1 < sw {
        spec_tap_lo(x, sw, dw) + 1
    } else {
        spec_tap_lo(x, sw, dw)
    }
}

/// The weight of the second of the two texels, out of `2 dw`; the first has
/// the rest.
pub open spec fn spec_tap_weight(x: nat, sw: nat, dw: nat) -> nat {
    (((2 * x + 1) * sw - dw) % (2 * dw as int)) as nat
}

/// The sum of `a` and `b`, where `b` has the weight `weight` out of `total`
/// and `a` the rest.
pub open spec fn spec_blend(a: nat, b: nat, weight: nat, total: nat) -> nat {
    ((total - weight) * a + weight * b) as nat
}

/// The place of a byte in an image of single texels, stored row by row and
/// plane by plane.
pub open spec fn spec_place(extent: Extent3d, size: nat, x: nat, y: nat, z: nat, k: nat) -> nat {
    ((z * extent.height as nat + y) * extent.width as nat + x) * size + k
}

/// Byte `k` of the texel at `x`, `y`, `z` of an image.
pub open spec fn spec_byte(
    image: Seq<u8>,
    extent: Extent3d,
    size: nat,
    x: nat,
    y: nat,
    z: nat,
    k: nat,
) -> nat {
    image[spec_place(extent, size, x, y, z, k) as int] as nat
}

/// The weighted sum along the x axis of byte `k` of the two texels nearest
/// to the middle of texel `x` of the smaller image, in row `y` of plane `z`
/// of the larger one.
pub open spec fn spec_sum_x(
    image: Seq<u8>,
    from: Extent3d,
    to: Extent3d,
    size: nat,
    x: nat,
    y: nat,
    z: nat,
    k: nat,
) -> nat {
    spec_blend(
        spec_byte(image, from, size, spec_tap_lo(x, from.width as nat, to.width as nat), y, z, k),
        spec_byte(image, from, size, spec_tap_hi(x, from.width as nat, to.width as nat), y, z, k),
        spec_tap_weight(x, from.width as nat, to.width as nat),
        2 * to.width as nat,
    )
}

/// The weighted sum along the x and y axes.
pub open spec fn spec_sum_xy(
    image: Seq<u8>,
    from: Extent3d,
    to: Extent3d,
    size: nat,
    x: nat,
    y: nat,
    z: nat,
    k: nat,
) -> nat {
    spec_blend(
        spec_sum_x(
            image,
            from,
            to,
            size,
            x,
            spec_tap_lo(y, from.height as nat, to.height as nat),
            z,
            k,
        ),
        spec_sum_x(
            image,
            from,
            to,
            size,
            x,
            spec_tap_hi(y, from.height as nat, to.height as nat),
            z,
            k,
        ),
        spec_tap_weight(y, from.height as nat, to.height as nat),
        2 * to.height as nat,
    )
}

/// The weighted sum along all three axes.
pub open spec fn spec_sum_xyz(
    image: Seq<u8>,
    from: Extent3d,
    to: Extent3d,
    size: nat,
    x: nat,
    y: nat,
    z: nat,
    k: nat,
) -> nat {
    spec_blend(
        spec_sum_xy(
            image,
            from,
            to,
            size,
            x,
            y,
            spec_tap_lo(z, from.depth as nat, to.depth as nat),
            k,
        ),
        spec_sum_xy(
            image,
            from,
            to,
            size,
            x,
            y,
            spec_tap_hi(z, from.depth as nat, to.depth as nat),
            k,
        ),
        spec_tap_weight(z, from.depth as nat, to.depth as nat),
        2 * to.depth as nat,
    )
}

/// The sum of all weights.
pub open spec fn spec_weights(to: Extent3d) -> nat {
    (2 * to.width as nat) * (2 * to.height as nat) * (2 * to.depth as nat)
}

/// The weighted mean of byte `k` of the texels nearest to the middle of
/// texel `x`, `y`, `z` of the smaller image, rounded to the nearest whole
/// number, halves upwards.
pub open spec fn spec_mean(
    image: Seq<u8>,
    from: Extent3d,
    to: Extent3d,
    size: nat,
    x: nat,
    y: nat,
    z: nat,
    k: nat,
) -> nat {
    (spec_sum_xyz(image, from, to, size, x, y, z, k) + spec_weights(to) / 2) / spec_weights(to)
}

/// Byte `k` of texel `x`, `y`, `z` of the smaller image.
pub open spec fn spec_sample(
    filter: Filter,
    image: Seq<u8>,
    from: Extent3d,
    to: Extent3d,
    size: nat,
    x: nat,
    y: nat,
    z: nat,
    k: nat,
) -> u8 {
    if filter.0 == Filter::LINEAR {
        spec_mean(image, from, to, size, x, y, z, k) as u8
    } else {
        spec_byte(
            image,
            from,
            size,
            spec_nearest(x, from.width as nat, to.width as nat),
            spec_nearest(y, from.height as nat, to.height as nat),
            spec_nearest(z, from.depth as nat, to.depth as nat),
            k,
        ) as u8
    }
}

/// The number of bytes of an image of single texels.
pub open spec fn spec_image_size(extent: Extent3d, size: nat) -> nat {
    extent.depth as nat * extent.height as nat * extent.width as nat * size
}

/// The smaller image: the image of extent `to` whose texels are samples of
/// the image `image` of extent `from`. Texels are `size` bytes each.
pub open spec fn spec_downsample(
    filter: Filter,
    image: Seq<u8>,
    from: Extent3d,
    to: Extent3d,
    size: nat,
) -> Seq<u8> {
    Seq::new(
        spec_image_size(to, size),
        |i: int|
            spec_sample(
                filter,
                image,
                from,
                to,
                size,
                ((i / size as int) % to.width as int) as nat,
                ((i / size as int / to.width as int) % to.height as int) as nat,
                (i / size as int / to.width as int / to.height as int) as nat,
                (i % size as int) as nat,
            ),
    )
}

/// Whether the larger and the smaller extent can be those of two
/// neighbouring mip levels: no length is 0, and no axis grows.
pub open spec fn spec_shrinks(from: Extent3d, to: Extent3d) -> bool {
    &&& 1 <= to.width <= from.width
    &&& 1 <= to.height <= from.height
    &&& 1 <= to.depth <= from.depth
}

/// The formats whose bytes are unsigned channels of their own: of these the
/// mean of two texels is the mean of their bytes.
pub open spec fn spec_has_byte_channels(format: Format) -> bool {
    &&& format.spec_is_valid()
    &&& !format.spec_is_compressed()
    &&& !format.spec_is_packed()
    &&& format.spec_is_unsigned()
    &&& format.spec_component_count() == format.spec_block_size()
}

/// Whether the bytes of a format are unsigned channels of their own.
pub fn has_byte_channels(format: Format) -> (r: bool)
    ensures
        r == spec_has_byte_channels(format),
{
    format.is_valid() && !format.is_compressed() && !format.is_packed() && format.is_unsigned()
        && format.component_count() == format.block_size()
}

/// The places of the bytes of an image are told apart by their
/// coordinates: the place determines the byte, the texel, the row and the
/// plane.
pub proof fn lemma_place(extent: Extent3d, size: nat, x: nat, y: nat, z: nat, k: nat)
    requires
        x < extent.width,
        y < extent.height,
        z < extent.depth,
        k < size,
    ensures
        spec_place(extent, size, x, y, z, k) < spec_image_size(extent, size),
        spec_place(extent, size, x, y, z, k) % size == k,
        (spec_place(extent, size, x, y, z, k) / size) % extent.width as nat == x,
        (spec_place(extent, size, x, y, z, k) / size / extent.width as nat) % extent.height as nat
            == y,
        spec_place(extent, size, x, y, z, k) / size / extent.width as nat / extent.height as nat
            == z,
{
    let w = extent.width as int;
    let h = extent.height as int;
    let d = extent.depth as int;
    let s = size as int;
    let row = z * h + y;
    let texel = row * w + x;
    let place = texel * s + k;
    assert(row >= 0 && texel >= 0 && place >= 0) by (nonlinear_arith)
        requires
            row == z * h + y,
            texel == row * w + x,
            place == texel * s + k,
            h >= 0,
            w >= 0,
            s >= 0,
    ;
    lemma_fundamental_div_mod_converse(place, s, texel, k as int);
    lemma_fundamental_div_mod_converse(texel, w, row, x as int);
    lemma_fundamental_div_mod_converse(row, h, z as int, y as int);
    assert(place < d * h * w * s) by (nonlinear_arith)
        requires
            place == ((z * h + y) * w + x) * s + k,
            0 <= k < s,
            0 <= x < w,
            0 <= y < h,
            0 <= z < d,
    ;
}

/// The two texels nearest to the middle of a texel of the smaller image are
/// texels of the larger one, and the weight of the second is below the sum
/// of both.
pub proof fn lemma_tap(x: nat, sw: nat, dw: nat)
    requires
        1 <= dw <= sw,
        x < dw,
    ensures
        (2 * x + 1) * sw >= dw,
        spec_tap_lo(x, sw, dw) <= spec_tap_hi(x, sw, dw) < sw,
        spec_tap_weight(x, sw, dw) < 2 * dw,
        spec_nearest(x, sw, dw) < sw,
{
    let n = (2 * x + 1) * sw - dw;
    let p = 2 * dw as int;
    assert((2 * x + 1) * sw >= sw) by (nonlinear_arith)
        requires
            x >= 0,
            sw >= 0,
    ;
    assert((2 * x + 1) * sw <= (2 * dw - 1) * sw) by (nonlinear_arith)
        requires
            x + 1 <= dw,
            sw >= 0,
    ;
    assert((2 * dw - 1) * sw == p * sw - sw) by (nonlinear_arith)
        requires
            p == 2 * dw,
    ;
    lemma_fundamental_div_mod(n, p);
    let lo = n / p;
    assert(lo < sw) by (nonlinear_arith)
        requires
            n == p * lo + n % p,
            0 <= n % p,
            n < p * sw,
            p > 0,
    ;
    assert(0 <= lo) by (nonlinear_arith)
        requires
            n == p * lo + n % p,
            n % p < p,
            n >= 0,
            p > 0,
    ;
    let m = ((2 * x + 1) * sw) as int;
    lemma_fundamental_div_mod(m, p);
    let near = m / p;
    assert(near < sw) by (nonlinear_arith)
        requires
            m == p * near + m % p,
            0 <= m % p,
            m < p * sw,
            p > 0,
    ;
}

/// A weighted sum is at most the sum of the weights times the greater
/// value.
pub proof fn lemma_blend(a: nat, b: nat, weight: nat, total: nat, bound: nat)
    requires
        a <= bound,
        b <= bound,
        weight <= total,
    ensures
        spec_blend(a, b, weight, total) <= total * bound,
        spec_blend(a, b, weight, total) == (total - weight) * a + weight * b,
{
    assert((total - weight) * a + weight * b <= total * bound) by (nonlinear_arith)
        requires
            a <= bound,
            b <= bound,
            weight <= total,
    ;
    assert((total - weight) * a >= 0 && weight * b >= 0) by (nonlinear_arith)
        requires
            weight <= total,
    ;
}

/// The texel of the larger axis in which the middle of a texel of the
/// smaller one lies.
fn nearest(x: u32, sw: u32, dw: u32) -> (r: u32)
    requires
        1 <= dw <= sw,
        x < dw,
    ensures
        r == spec_nearest(x as nat, sw as nat, dw as nat),
        r < sw,
{
    proof {
        lemma_tap(x as nat, sw as nat, dw as nat);
        assert((2 * x as nat + 1) * sw as nat <= 0x2_0000_0000 * 0x1_0000_0000)
            by (nonlinear_arith)
            requires
                x < 0x1_0000_0000,
                sw < 0x1_0000_0000,
        ;
    }
    let m: u128 = (2 * (x as u128) + 1) * (sw as u128);
    (m / (2 * (dw as u128))) as u32
}

/// The two texels of the larger axis nearest to the middle of a texel of the
/// smaller one, and the weight of the second.
fn tap(x: u32, sw: u32, dw: u32) -> (r: (u32, u32, u64))
    requires
        1 <= dw <= sw,
        x < dw,
    ensures
        r.0 == spec_tap_lo(x as nat, sw as nat, dw as nat),
        r.1 == spec_tap_hi(x as nat, sw as nat, dw as nat),
        r.2 == spec_tap_weight(x as nat, sw as nat, dw as nat),
        r.0 <= r.1 < sw,
        r.2 < 2 * dw,
{
    proof {
        lemma_tap(x as nat, sw as nat, dw as nat);
        assert((2 * x as nat + 1) * sw as nat <= 0x2_0000_0000 * 0x1_0000_0000)
            by (nonlinear_arith)
            requires
                x < 0x1_0000_0000,
                sw < 0x1_0000_0000,
        ;
    }
    let n: u128 = (2 * (x as u128) + 1) * (sw as u128) - (dw as u128);
    let p: u128 = 2 * (dw as u128);
    let lo: u32 = (n / p) as u32;
    let weight: u64 = (n % p) as u64;
    let hi: u32 = if lo + 1 < sw {
        lo + 1
    } else {
        lo
    };
    (lo, hi, weight)
}

/// The weighted sum of two values.
fn blend(a: u128, b: u128, weight: u64, total: u64, Ghost(bound): Ghost<nat>) -> (r: u128)
    requires
        a <= bound,
        b <= bound,
        weight <= total,
        total * bound <= u128::MAX,
    ensures
        r == spec_blend(a as nat, b as nat, weight as nat, total as nat),
        r <= total * bound,
{
    proof {
        lemma_blend(a as nat, b as nat, weight as nat, total as nat, bound);
        assert((total - weight) * a <= total * bound && weight * b <= total * bound)
            by (nonlinear_arith)
            requires
                a <= bound,
                b <= bound,
                weight <= total,
        ;
    }
    ((total - weight) as u128) * a + (weight as u128) * b
}

/// One byte of an image of single texels.
fn byte_at(image: &[u8], extent: Extent3d, size: usize, x: u32, y: u32, z: u32, k: usize) -> (r:
    u8)
    requires
        image@.len() == spec_image_size(extent, size as nat),
        x < extent.width,
        y < extent.height,
        z < extent.depth,
        k < size,
    ensures
        r == spec_byte(image@, extent, size as nat, x as nat, y as nat, z as nat, k as nat),
{
    let len = image.len();
    proof {
        lemma_place(extent, size as nat, x as nat, y as nat, z as nat, k as nat);
        let h = extent.height as nat;
        let w = extent.width as nat;
        let row = z as nat * h + y as nat;
        let texel = row * w + x as nat;
        assert(0 <= z as nat * h <= row <= row * w <= texel <= texel * size as nat)
            by (nonlinear_arith)
            requires
                row == z as nat * h + y as nat,
                texel == row * w + x as nat,
                w >= 1,
                size >= 1,
        ;
        assert(texel * size as nat + k as nat == spec_place(
            extent,
            size as nat,
            x as nat,
            y as nat,
            z as nat,
            k as nat,
        ));
        assert(texel * size as nat + k as nat + 1 <= len);
    }
    image[((z as usize * extent.height as usize + y as usize) * extent.width as usize
        + x as usize) * size + k]
}

/// One byte of the smaller image.
fn sample(
    filter: Filter,
    image: &[u8],
    from: Extent3d,
    to: Extent3d,
    size: usize,
    x: u32,
    y: u32,
    z: u32,
    k: usize,
) -> (r: u8)
    requires
        image@.len() == spec_image_size(from, size as nat),
        spec_shrinks(from, to),
        x < to.width,
        y < to.height,
        z < to.depth,
        k < size,
    ensures
        r == spec_sample(
            filter,
            image@,
            from,
            to,
            size as nat,
            x as nat,
            y as nat,
            z as nat,
            k as nat,
        ),
{
    if filter.0 == Filter::LINEAR {
        let (x0, x1, wx) = tap(x, from.width, to.width);
        let (y0, y1, wy) = tap(y, from.height, to.height);
        let (z0, z1, wz) = tap(z, from.depth, to.depth);
        let tx: u64 = 2 * (to.width as u64);
        let ty: u64 = 2 * (to.height as u64);
        let tz: u64 = 2 * (to.depth as u64);
        proof {
            assert(tx * 255 <= 0x2_0000_0000 * 255) by (nonlinear_arith)
                requires
                    tx <= 0x2_0000_0000,
            ;
            assert(ty * (tx * 255) <= 0x2_0000_0000 * (0x2_0000_0000 * 255) && tz * (ty * (tx
                * 255)) <= 0x2_0000_0000 * (0x2_0000_0000 * (0x2_0000_0000 * 255))
                && tx * ty * tz == tz * (ty * tx) && tz * (ty * (tx * 255)) == 255 * (tz * (ty
                * tx)) && tx * ty * tz >= 1) by (nonlinear_arith)
                requires
                    1 <= tx <= 0x2_0000_0000,
                    1 <= ty <= 0x2_0000_0000,
                    1 <= tz <= 0x2_0000_0000,
            ;
            assert(tx * ty <= 0x2_0000_0000 * 0x2_0000_0000 && tx * ty * tz <= 0x2_0000_0000
                * 0x2_0000_0000 * 0x2_0000_0000) by (nonlinear_arith)
                requires
                    1 <= tx <= 0x2_0000_0000,
                    1 <= ty <= 0x2_0000_0000,
                    1 <= tz <= 0x2_0000_0000,
            ;
        }
        let a00 = blend(
            byte_at(image, from, size, x0, y0, z0, k) as u128,
            byte_at(image, from, size, x1, y0, z0, k) as u128,
            wx,
            tx,
            Ghost(255),
        );
        let a10 = blend(
            byte_at(image, from, size, x0, y1, z0, k) as u128,
            byte_at(image, from, size, x1, y1, z0, k) as u128,
            wx,
            tx,
            Ghost(255),
        );
        let a01 = blend(
            byte_at(image, from, size, x0, y0, z1, k) as u128,
            byte_at(image, from, size, x1, y0, z1, k) as u128,
            wx,
            tx,
            Ghost(255),
        );
        let a11 = blend(
            byte_at(image, from, size, x0, y1, z1, k) as u128,
            byte_at(image, from, size, x1, y1, z1, k) as u128,
            wx,
            tx,
            Ghost(255),
        );
        let b0 = blend(a00, a10, wy, ty, Ghost((tx * 255) as nat));
        let b1 = blend(a01, a11, wy, ty, Ghost((tx * 255) as nat));
        let sum = blend(b0, b1, wz, tz, Ghost((ty * (tx * 255)) as nat));
        let weights: u128 = (tx as u128) * (ty as u128) * (tz as u128);
        proof {
            assert(weights == spec_weights(to));
            let w = weights as int;
            let v = sum as int + w / 2;
            lemma_fundamental_div_mod(v, w);
            assert(v / w <= 255) by (nonlinear_arith)
                requires
                    v == w * (v / w) + v % w,
                    0 <= v % w,
                    v <= 255 * w + w / 2,
                    w >= 1,
            ;
        }
        ((sum + weights / 2) / weights) as u8
    } else {
        byte_at(
            image,
            from,
            size,
            nearest(x, from.width, to.width),
            nearest(y, from.height, to.height),
            nearest(z, from.depth, to.depth),
            k,
        )
    }
}

/// Makes the smaller image: the image of extent `to` whose texels are
/// samples of the image `image` of extent `from`.
pub fn downsample(filter: Filter, image: &[u8], from: Extent3d, to: Extent3d, size: usize) -> (r:
    Vec<u8>)
    requires
        size >= 1,
        image@.len() == spec_image_size(from, size as nat),
        spec_shrinks(from, to),
        spec_image_size(to, size as nat) <= usize::MAX,
    ensures
        r@ == spec_downsample(filter, image@, from, to, size as nat),
        r@.len() == spec_image_size(to, size as nat),
        forall|x: nat, y: nat, z: nat, k: nat|
            x < to.width && y < to.height && z < to.depth && k < size ==> r@[#[trigger] spec_place(
                to,
                size as nat,
                x,
                y,
                z,
                k,
            ) as int] == spec_sample(filter, image@, from, to, size as nat, x, y, z, k),
{
    let mut out: Vec<u8> = Vec::new();
    let ghost want = spec_downsample(filter, image@, from, to, size as nat);
    assert(spec_place(to, size as nat, 0, 0, 0, 0) == 0) by (nonlinear_arith);
    let mut z: u32 = 0;
    while z < to.depth
        invariant
            z <= to.depth,
            size >= 1,
            image@.len() == spec_image_size(from, size as nat),
            spec_shrinks(from, to),
            want == spec_downsample(filter, image@, from, to, size as nat),
            out@.len() == spec_place(to, size as nat, 0, 0, z as nat, 0),
            out@ == want.subrange(0, out@.len() as int),
            want.len() == spec_image_size(to, size as nat),
        decreases to.depth - z,
    {
        let mut y: u32 = 0;
        while y < to.height
            invariant
                z < to.depth,
                y <= to.height,
                size >= 1,
                image@.len() == spec_image_size(from, size as nat),
                spec_shrinks(from, to),
                want == spec_downsample(filter, image@, from, to, size as nat),
                out@.len() == spec_place(to, size as nat, 0, y as nat, z as nat, 0),
                out@ == want.subrange(0, out@.len() as int),
                want.len() == spec_image_size(to, size as nat),
            decreases to.height - y,
        {
            let mut x: u32 = 0;
            while x < to.width
                invariant
                    z < to.depth,
                    y < to.height,
                    x <= to.width,
                    size >= 1,
                    image@.len() == spec_image_size(from, size as nat),
                    spec_shrinks(from, to),
                    want == spec_downsample(filter, image@, from, to, size as nat),
                    out@.len() == spec_place(to, size as nat, x as nat, y as nat, z as nat, 0),
                    out@ == want.subrange(0, out@.len() as int),
                    want.len() == spec_image_size(to, size as nat),
                decreases to.width - x,
            {
                let mut k: usize = 0;
                while k < size
                    invariant
                        z < to.depth,
                        y < to.height,
                        x < to.width,
                        k <= size,
                        size >= 1,
                        image@.len() == spec_image_size(from, size as nat),
                        spec_shrinks(from, to),
                        want == spec_downsample(filter, image@, from, to, size as nat),
                        out@.len() == spec_place(
                            to,
                            size as nat,
                            x as nat,
                            y as nat,
                            z as nat,
                            k as nat,
                        ),
                        out@ == want.subrange(0, out@.len() as int),
                        want.len() == spec_image_size(to, size as nat),
                    decreases size - k,
                {
                    let byte = sample(filter, image, from, to, size, x, y, z, k);
                    proof {
                        lemma_place(to, size as nat, x as nat, y as nat, z as nat, k as nat);
                    }
                    out.push(byte);
                    k = k + 1;
                    assert(out@ =~= want.subrange(0, out@.len() as int));
                }
                x = x + 1;
                assert(spec_place(to, size as nat, (x - 1) as nat, y as nat, z as nat, size as nat)
                    == spec_place(to, size as nat, x as nat, y as nat, z as nat, 0))
                    by (nonlinear_arith)
                    requires
                        x >= 1,
                ;
            }
            y = y + 1;
            assert(spec_place(to, size as nat, to.width as nat, (y - 1) as nat, z as nat, 0)
                == spec_place(to, size as nat, 0, y as nat, z as nat, 0)) by (nonlinear_arith)
                requires
                    y >= 1,
            ;
        }
        z = z + 1;
        assert(spec_place(to, size as nat, 0, to.height as nat, (z - 1) as nat, 0) == spec_place(
            to,
            size as nat,
            0,
            0,
            z as nat,
            0,
        )) by (nonlinear_arith)
            requires
                z >= 1,
        ;
    }
    assert(spec_place(to, size as nat, 0, 0, to.depth as nat, 0) == spec_image_size(
        to,
        size as nat,
    )) by (nonlinear_arith);
    assert(out@ =~= want);
    assert forall|x: nat, y: nat, z: nat, k: nat|
        x < to.width && y < to.height && z < to.depth && k < size implies want[#[trigger] spec_place(
        to,
        size as nat,
        x,
        y,
        z,
        k,
    ) as int] == spec_sample(filter, image@, from, to, size as nat, x, y, z, k) by {
        lemma_place(to, size as nat, x, y, z, k);
    }
    out
}

} // verus!
