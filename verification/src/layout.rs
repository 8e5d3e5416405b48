//! The geometry of a pixel buffer.
//!
//! A buffer holds `layers` array layers. Each layer holds `faces` faces, and
//! each face holds `levels` mip levels, the largest first. Nothing lies
//! between two neighbours, so the place of an image follows from the format's
//! block, the extent of the largest level and the three counts alone.
//!
//! The extent of level `n` is the extent of level 0 halved `n` times, rounded
//! down, and never less than one texel on any axis. A level is stored as whole
//! blocks: along each axis it has as many blocks as cover its extent.

use vstd::prelude::*;
use vstd::arithmetic::power2::{pow2, lemma_pow2_pos, lemma_pow2_unfold};
use vstd::arithmetic::logarithm::{log, lemma_log0, lemma_log_s};
use vstd::arithmetic::div_mod::lemma_div_denominator;
use crate::extent::Extent3d;
use crate::format::Format;

verus! {

/// No texture has more mip levels than this: an axis is at most `u32::MAX`
/// texels long.
pub const MAX_LEVELS: usize = 32;

/// The length at mip level `level` of an axis that is `n` texels long at
/// level 0.
pub open spec fn spec_mip(n: nat, level: nat) -> nat {
    let q = n / pow2(level);
    if q == 0 {
        1
    } else {
        q
    }
}

/// The number of mip levels of a complete chain that starts at `n` texels and
/// ends at one texel.
pub open spec fn spec_chain(n: nat) -> nat {
    (log(2, n as int) + 1) as nat
}

/// The number of blocks of `block` texels that cover `texels` texels.
pub open spec fn spec_blocks(texels: nat, block: nat) -> nat {
    if block == 0 {
        0
    } else if texels % block == 0 {
        texels / block
    } else {
        texels / block + 1
    }
}

/// The greatest of three lengths.
pub open spec fn spec_max3(a: nat, b: nat, c: nat) -> nat {
    if a >= b && a >= c {
        a
    } else if b >= c {
        b
    } else {
        c
    }
}

pub proof fn lemma_mip_bounds(n: nat, level: nat)
    ensures
        spec_mip(n, level) >= 1,
        n >= 1 ==> spec_mip(n, level) <= n,
        spec_mip(n, 0) == if n == 0 { 1 } else { n },
{
    lemma_pow2_pos(level);
    let p = pow2(level);
    assert(n / p <= n) by (nonlinear_arith)
        requires
            p >= 1,
    ;
    assert(pow2(0) == 1) by {
        lemma_pow2_unfold(1);
        lemma_pow2_pos(0);
        vstd::arithmetic::power2::lemma2_to64();
    }
}

/// Halving once more gives the next level.
pub proof fn lemma_mip_step(n: nat, level: nat)
    ensures
        spec_mip(n, level + 1) == if spec_mip(n, level) / 2 == 0 {
            1
        } else {
            spec_mip(n, level) / 2
        },
        spec_mip(n, level + 1) <= spec_mip(n, level),
{
    lemma_pow2_pos(level);
    lemma_pow2_unfold(level + 1);
    let p = pow2(level);
    assert(pow2(level + 1) == 2 * p);
    lemma_div_denominator(n as int, p as int, 2);
    assert((n / p) / 2 == n / (p * 2));
    assert(p * 2 == 2 * p);
}

/// From the level at which an axis is one texel long, it stays so.
pub proof fn lemma_mip_stays_one(n: nat, from: nat, to: nat)
    requires
        from <= to,
        spec_mip(n, from) == 1,
    ensures
        spec_mip(n, to) == 1,
    decreases to - from,
{
    if from < to {
        lemma_mip_step(n, from);
        lemma_mip_stays_one(n, from + 1, to);
    }
}

pub proof fn lemma_blocks_bounds(texels: nat, block: nat)
    requires
        block >= 1,
    ensures
        texels >= 1 ==> 1 <= spec_blocks(texels, block) <= texels,
        texels == 0 ==> spec_blocks(texels, block) == 0,
        spec_blocks(texels, block) * block >= texels,
        block == 1 ==> spec_blocks(texels, block) == texels,
{
    assert(texels == block * (texels / block) + texels % block && 0 <= texels % block < block
        && texels / block <= texels) by (nonlinear_arith)
        requires
            block >= 1,
    ;
    let q = texels / block;
    if texels % block != 0 {
        assert((q + 1) * block == q * block + block) by (nonlinear_arith);
        assert(q * block == block * q) by (nonlinear_arith);
        if block == 1 {
            assert(texels % 1 == 0);
        }
        assert(block >= 2);
        assert(q + 1 <= texels) by (nonlinear_arith)
            requires
                texels == block * q + texels % block,
                texels % block >= 1,
                block >= 2,
                q >= 0,
        ;
    } else {
        assert(q * block == block * q) by (nonlinear_arith);
        if texels >= 1 {
            assert(q >= 1) by (nonlinear_arith)
                requires
                    texels == block * q,
                    texels >= 1,
                    block >= 1,
                    q >= 0,
            ;
        }
    }
}

/// The length of an axis at a mip level.
pub fn mip(n: u32, level: usize) -> (r: u32)
    ensures
        r == spec_mip(n as nat, level as nat),
        r >= 1,
        n >= 1 ==> r <= n,
{
    let mut q: u32 = n;
    let mut i: usize = 0;
    proof {
        lemma_mip_bounds(n as nat, 0);
        lemma_mip_bounds(n as nat, level as nat);
        vstd::arithmetic::power2::lemma2_to64();
        assert(pow2(0) == 1);
    }
    while i < level && q > 1
        invariant
            i <= level,
            q == n as nat / pow2(i as nat) || (q == 1 && spec_mip(n as nat, i as nat) == 1),
            q <= n,
        decreases level - i,
    {
        proof {
            lemma_mip_step(n as nat, i as nat);
        }
        q = q / 2;
        i = i + 1;
        proof {
            if q == 0 {
                assert(spec_mip(n as nat, i as nat) == 1);
            }
        }
        if q == 0 {
            q = 1;
        }
    }
    if q == 0 {
        q = 1;
    }
    proof {
        assert(spec_mip(n as nat, i as nat) == q);
        if i < level {
            lemma_mip_stays_one(n as nat, i as nat, level as nat);
        }
    }
    q
}

/// The number of mip levels of a complete chain that starts at `n` texels.
pub fn chain(n: u32) -> (r: usize)
    ensures
        r == spec_chain(n as nat),
        1 <= r <= MAX_LEVELS,
{
    let mut m: u32 = n;
    let mut count: usize = 1;
    while m > 1
        invariant
            1 <= count <= 32,
            count + log(2, m as int) == 1 + log(2, n as int),
            m as nat * pow2((count - 1) as nat) < 0x1_0000_0000 || count == 1,
            m <= n,
        decreases m,
    {
        proof {
            lemma_log_s(2, m as int);
            lemma_pow2_unfold(count as nat);
            lemma_pow2_pos((count - 1) as nat);
            let p = pow2((count - 1) as nat);
            let h = (m / 2) as nat;
            assert(h * (2 * p) <= m as nat * p) by (nonlinear_arith)
                requires
                    h * 2 <= m,
                    p >= 1,
            ;
            if count == 32 {
                vstd::arithmetic::power2::lemma2_to64();
                assert(pow2(31) == 0x8000_0000);
                assert(m as nat * p >= 2 * p) by (nonlinear_arith)
                    requires
                        m >= 2,
                        p >= 1,
                ;
            }
            if count == 1 {
                vstd::arithmetic::power2::lemma2_to64();
                assert(pow2(0) == 1);
                assert(p == 1);
                assert(m as nat * p == m as nat) by (nonlinear_arith)
                    requires
                        p == 1,
                ;
            }
        }
        m = m / 2;
        count = count + 1;
    }
    proof {
        lemma_log0(2, m as int);
    }
    count
}

/// The number of blocks that cover an axis.
pub fn blocks(texels: u32, block: u32) -> (r: u32)
    requires
        block >= 1,
    ensures
        r == spec_blocks(texels as nat, block as nat),
        texels >= 1 ==> 1 <= r <= texels,
{
    proof {
        lemma_blocks_bounds(texels as nat, block as nat);
    }
    if texels % block == 0 {
        texels / block
    } else {
        texels / block + 1
    }
}

/// The geometry of a pixel buffer.
#[derive(Debug, Clone, Copy, PartialEq, Eq, Structural)]
pub struct Layout {
    /// The size in bytes of one block.
    pub block_size: usize,
    /// The size in texels of one block.
    pub block_extent: Extent3d,
    /// The size in texels of the largest mip level.
    pub extent: Extent3d,
    pub layers: usize,
    pub faces: usize,
    pub levels: usize,
}

impl Layout {
    /// The size in texels of a mip level.
    pub open spec fn spec_level_extent(self, level: nat) -> Extent3d {
        Extent3d {
            width: spec_mip(self.extent.width as nat, level) as u32,
            height: spec_mip(self.extent.height as nat, level) as u32,
            depth: spec_mip(self.extent.depth as nat, level) as u32,
        }
    }

    /// The number of blocks along the x axis of a mip level.
    pub open spec fn spec_blocks_x(self, level: nat) -> nat {
        spec_blocks(spec_mip(self.extent.width as nat, level), self.block_extent.width as nat)
    }

    /// The number of blocks along the y axis of a mip level.
    pub open spec fn spec_blocks_y(self, level: nat) -> nat {
        spec_blocks(spec_mip(self.extent.height as nat, level), self.block_extent.height as nat)
    }

    /// The number of blocks along the z axis of a mip level.
    pub open spec fn spec_blocks_z(self, level: nat) -> nat {
        spec_blocks(spec_mip(self.extent.depth as nat, level), self.block_extent.depth as nat)
    }

    /// The size in bytes of one row of blocks of a mip level.
    pub open spec fn spec_row_size(self, level: nat) -> nat {
        self.spec_blocks_x(level) * self.block_size as nat
    }

    /// The size in bytes of one image: of one mip level of one face.
    pub open spec fn spec_level_size(self, level: nat) -> nat {
        self.spec_blocks_z(level) * (self.spec_blocks_y(level) * self.spec_row_size(level))
    }

    /// The size in bytes of the mip levels from `base` up to, not including,
    /// `end` of one face.
    pub open spec fn spec_levels_size(self, base: nat, end: nat) -> nat
        decreases end,
    {
        if end <= base {
            0
        } else {
            self.spec_levels_size(base, (end - 1) as nat) + self.spec_level_size((end - 1) as nat)
        }
    }

    /// The size in bytes of one face with all its mip levels.
    pub open spec fn spec_face_size(self) -> nat {
        self.spec_levels_size(0, self.levels as nat)
    }

    /// The size in bytes of one layer with all its faces.
    pub open spec fn spec_layer_size(self) -> nat {
        self.spec_face_size() * self.faces as nat
    }

    /// The size in bytes of the whole buffer.
    pub open spec fn spec_size(self) -> nat {
        self.spec_layer_size() * self.layers as nat
    }

    /// The place in the buffer of the first byte of an image.
    pub open spec fn spec_offset(self, layer: nat, face: nat, level: nat) -> nat {
        self.spec_layer_size() * layer + self.spec_face_size() * face + self.spec_levels_size(
            0,
            level,
        )
    }

    /// What the counts and lengths of a buffer must satisfy, whatever its
    /// size: no axis and no count is 0, and there are no more mip levels
    /// than a complete chain has.
    pub open spec fn spec_shaped(self) -> bool {
        &&& self.block_size >= 1
        &&& self.block_extent.width >= 1
        &&& self.block_extent.height >= 1
        &&& self.block_extent.depth >= 1
        &&& self.extent.width >= 1
        &&& self.extent.height >= 1
        &&& self.extent.depth >= 1
        &&& self.layers >= 1
        &&& self.faces >= 1
        &&& 1 <= self.levels <= spec_chain(
            spec_max3(
                self.extent.width as nat,
                self.extent.height as nat,
                self.extent.depth as nat,
            ),
        )
    }

    /// A layout is well formed when it is shaped and the size of its buffer
    /// is a `usize`.
    pub open spec fn wf(self) -> bool {
        &&& self.spec_shaped()
        &&& self.levels <= MAX_LEVELS
        &&& self.spec_size() <= usize::MAX
    }

    /// The layout with the given block and counts, whatever its size.
    pub open spec fn spec_of(
        format: Format,
        extent: Extent3d,
        layers: usize,
        faces: usize,
        levels: usize,
    ) -> Layout {
        Layout {
            block_size: format.spec_block_size() as usize,
            block_extent: format.spec_block_extent(),
            extent,
            layers,
            faces,
            levels,
        }
    }

    pub proof fn lemma_level_size_positive(self, level: nat)
        requires
            self.spec_shaped(),
        ensures
            self.spec_blocks_x(level) >= 1,
            self.spec_blocks_y(level) >= 1,
            self.spec_blocks_z(level) >= 1,
            self.spec_blocks_x(level) <= u32::MAX,
            self.spec_blocks_y(level) <= u32::MAX,
            self.spec_blocks_z(level) <= u32::MAX,
            self.spec_row_size(level) >= self.block_size,
            self.spec_level_size(level) >= self.spec_row_size(level),
            self.spec_level_size(level) >= self.spec_blocks_y(level) * self.spec_row_size(level),
            self.spec_level_size(level) >= 1,
    {
        lemma_mip_bounds(self.extent.width as nat, level);
        lemma_mip_bounds(self.extent.height as nat, level);
        lemma_mip_bounds(self.extent.depth as nat, level);
        lemma_blocks_bounds(
            spec_mip(self.extent.width as nat, level),
            self.block_extent.width as nat,
        );
        lemma_blocks_bounds(
            spec_mip(self.extent.height as nat, level),
            self.block_extent.height as nat,
        );
        lemma_blocks_bounds(
            spec_mip(self.extent.depth as nat, level),
            self.block_extent.depth as nat,
        );
        let bx = self.spec_blocks_x(level);
        let by = self.spec_blocks_y(level);
        let bz = self.spec_blocks_z(level);
        let bs = self.block_size as nat;
        assert(bx * bs >= bs) by (nonlinear_arith)
            requires
                bx >= 1,
        ;
        let row = bx * bs;
        assert(by * row >= row) by (nonlinear_arith)
            requires
                by >= 1,
        ;
        let plane = by * row;
        assert(bz * plane >= plane) by (nonlinear_arith)
            requires
                bz >= 1,
        ;
    }

    /// The size of a run of levels grows with the run.
    pub proof fn lemma_levels_size_monotone(self, base: nat, mid: nat, end: nat)
        requires
            base <= mid <= end,
        ensures
            self.spec_levels_size(base, end) == self.spec_levels_size(base, mid)
                + self.spec_levels_size(mid, end),
            self.spec_levels_size(base, mid) <= self.spec_levels_size(base, end),
            self.spec_levels_size(mid, end) <= self.spec_levels_size(base, end),
        decreases end,
    {
        if mid < end {
            self.lemma_levels_size_monotone(base, mid, (end - 1) as nat);
        }
    }

    /// A run of one level has the size of that level.
    pub proof fn lemma_levels_size_one(self, level: nat)
        ensures
            self.spec_levels_size(level, level + 1) == self.spec_level_size(level),
    {
        assert(self.spec_levels_size(level, level) == 0);
    }

    /// Every image lies inside the buffer.
    pub proof fn lemma_image_in_bounds(self, layer: nat, face: nat, level: nat)
        requires
            layer < self.layers,
            face < self.faces,
            level < self.levels,
        ensures
            self.spec_offset(layer, face, level) + self.spec_level_size(level) <= self.spec_size(),
            self.spec_levels_size(0, level) + self.spec_level_size(level) <= self.spec_face_size(),
            self.spec_face_size() <= self.spec_layer_size(),
            self.spec_layer_size() <= self.spec_size(),
    {
        self.lemma_levels_size_monotone(0, level + 1, self.levels as nat);
        self.lemma_levels_size_monotone(0, level, level + 1);
        self.lemma_levels_size_one(level);
        let fs = self.spec_face_size();
        let ls = self.spec_layer_size();
        let faces = self.faces as nat;
        let layers = self.layers as nat;
        assert(fs * face + fs <= fs * faces) by (nonlinear_arith)
            requires
                face < faces,
        ;
        assert(ls * layer + ls <= ls * layers) by (nonlinear_arith)
            requires
                layer < layers,
        ;
        assert(fs <= fs * faces) by (nonlinear_arith)
            requires
                faces >= 1,
        ;
        assert(ls <= ls * layers) by (nonlinear_arith)
            requires
                layers >= 1,
        ;
    }

    /// Two different images share no byte: the one that comes first in the
    /// order of layers, then faces, then levels ends before the other
    /// begins.
    pub proof fn lemma_images_disjoint(
        self,
        layer_a: nat,
        face_a: nat,
        level_a: nat,
        layer_b: nat,
        face_b: nat,
        level_b: nat,
    )
        requires
            layer_a < self.layers,
            face_a < self.faces,
            level_a < self.levels,
            layer_b < self.layers,
            face_b < self.faces,
            level_b < self.levels,
            layer_a < layer_b || (layer_a == layer_b && (face_a < face_b || (face_a == face_b
                && level_a < level_b))),
        ensures
            self.spec_offset(layer_a, face_a, level_a) + self.spec_level_size(level_a)
                <= self.spec_offset(layer_b, face_b, level_b),
    {
        self.lemma_image_in_bounds(layer_a, face_a, level_a);
        let fs = self.spec_face_size();
        let ls = self.spec_layer_size();
        let faces = self.faces as nat;
        if layer_a < layer_b {
            assert(fs * face_a + fs <= fs * faces) by (nonlinear_arith)
                requires
                    face_a < faces,
            ;
            assert(ls * layer_a + ls <= ls * layer_b) by (nonlinear_arith)
                requires
                    layer_a < layer_b,
            ;
            assert(fs * face_b >= 0) by (nonlinear_arith);
        } else if face_a < face_b {
            assert(fs * face_a + fs <= fs * face_b) by (nonlinear_arith)
                requires
                    face_a < face_b,
            ;
        } else {
            self.lemma_levels_size_monotone(0, level_a + 1, level_b);
            self.lemma_levels_size_monotone(0, level_a, level_a + 1);
            self.lemma_levels_size_one(level_a);
        }
    }

    /// The bytes from the first image of a range of layers, faces and levels
    /// on, as many as the images of the range take together, lie inside the
    /// buffer.
    pub proof fn lemma_range_in_bounds(
        self,
        base_layer: nat,
        max_layer: nat,
        base_face: nat,
        max_face: nat,
        base_level: nat,
        max_level: nat,
    )
        requires
            base_layer <= max_layer < self.layers,
            base_face <= max_face < self.faces,
            base_level <= max_level < self.levels,
        ensures
            self.spec_offset(base_layer, base_face, base_level) + self.spec_levels_size(
                base_level,
                max_level + 1,
            ) * (max_face - base_face + 1) * (max_layer - base_layer + 1) <= self.spec_size(),
    {
        let fs = self.spec_face_size();
        let ls = self.spec_layer_size();
        let faces = self.faces as nat;
        let layers = self.layers as nat;
        let nf = (max_face - base_face + 1) as nat;
        let nl = (max_layer - base_layer + 1) as nat;
        let prefix = self.spec_levels_size(0, base_level);
        let run = self.spec_levels_size(base_level, max_level + 1);
        self.lemma_levels_size_monotone(0, base_level, max_level + 1);
        self.lemma_levels_size_monotone(0, max_level + 1, self.levels as nat);
        assert(prefix + run <= fs);
        // One face of the range fits in the face it starts in; the others are
        // no larger than a face each.
        assert(prefix + run * nf * nl <= fs * (nf * nl)) by (nonlinear_arith)
            requires
                prefix + run <= fs,
                nf >= 1,
                nl >= 1,
        ;
        assert(fs * base_face + fs * (nf * nl) <= fs * faces * nl) by (nonlinear_arith)
            requires
                base_face + nf <= faces,
                nl >= 1,
                nf >= 1,
        ;
        assert(ls * base_layer + fs * faces * nl <= ls * layers) by (nonlinear_arith)
            requires
                ls == fs * faces,
                base_layer + nl <= layers,
        ;
    }

    /// The size in texels of a mip level.
    pub fn level_extent(&self, level: usize) -> (r: Extent3d)
        ensures
            r == self.spec_level_extent(level as nat),
            r.width == spec_mip(self.extent.width as nat, level as nat),
            r.height == spec_mip(self.extent.height as nat, level as nat),
            r.depth == spec_mip(self.extent.depth as nat, level as nat),
            r.width >= 1 && r.height >= 1 && r.depth >= 1,
    {
        Extent3d {
            width: mip(self.extent.width, level),
            height: mip(self.extent.height, level),
            depth: mip(self.extent.depth, level),
        }
    }

    /// The numbers of blocks of a mip level along the three axes.
    pub fn level_blocks(&self, level: usize) -> (r: Extent3d)
        requires
            self.spec_shaped(),
        ensures
            r.width == self.spec_blocks_x(level as nat),
            r.height == self.spec_blocks_y(level as nat),
            r.depth == self.spec_blocks_z(level as nat),
            r.width >= 1 && r.height >= 1 && r.depth >= 1,
    {
        let e = self.level_extent(level);
        Extent3d {
            width: blocks(e.width, self.block_extent.width),
            height: blocks(e.height, self.block_extent.height),
            depth: blocks(e.depth, self.block_extent.depth),
        }
    }

    /// The size in bytes of an image, unless it is no `usize`.
    pub fn checked_level_size(&self, level: usize) -> (r: Option<usize>)
        requires
            self.spec_shaped(),
        ensures
            match r {
                Some(size) => size == self.spec_level_size(level as nat) && size >= 1,
                None => self.spec_level_size(level as nat) > usize::MAX,
            },
    {
        let b = self.level_blocks(level);
        proof {
            self.lemma_level_size_positive(level as nat);
        }
        let ghost bx = b.width as nat;
        let ghost by = b.height as nat;
        let ghost bz = b.depth as nat;
        let ghost bs = self.block_size as nat;
        let row = match (b.width as usize).checked_mul(self.block_size) {
            Some(row) => row,
            None => {
                return None;
            },
        };
        let plane = match (b.height as usize).checked_mul(row) {
            Some(plane) => plane,
            None => {
                return None;
            },
        };
        (b.depth as usize).checked_mul(plane)
    }

    /// The layout of a buffer for textures of the given format, extent and
    /// counts, if there is one.
    pub fn new(format: Format, extent: Extent3d, layers: usize, faces: usize, levels: usize) -> (r:
        Option<Layout>)
        ensures
            r.is_some() == (format.spec_is_valid() && Layout::spec_of(
                format,
                extent,
                layers,
                faces,
                levels,
            ).wf()),
            r matches Some(l) ==> l == Layout::spec_of(format, extent, layers, faces, levels),
    {
        if !format.is_valid() {
            return None;
        }
        let layout = Layout {
            block_size: format.block_size(),
            block_extent: format.block_extent(),
            extent,
            layers,
            faces,
            levels,
        };
        if extent.width == 0 || extent.height == 0 || extent.depth == 0 || layers == 0 || faces
            == 0 || levels == 0 {
            return None;
        }
        let longest = if extent.width >= extent.height && extent.width >= extent.depth {
            extent.width
        } else if extent.height >= extent.depth {
            extent.height
        } else {
            extent.depth
        };
        if levels > chain(longest) {
            return None;
        }
        let mut face_size: usize = 0;
        let mut level: usize = 0;
        while level < levels
            invariant
                layout.spec_shaped(),
                layout == Layout::spec_of(format, extent, layers, faces, levels),
                level <= levels <= MAX_LEVELS,
                face_size == layout.spec_levels_size(0, level as nat),
            decreases levels - level,
        {
            proof {
                layout.lemma_levels_size_monotone(0, (level + 1) as nat, levels as nat);
                layout.lemma_levels_size_monotone(0, level as nat, (level + 1) as nat);
                layout.lemma_levels_size_one(level as nat);
                layout.lemma_face_bounds_size();
                assert(layout.spec_levels_size(0, level as nat) + layout.spec_level_size(
                    level as nat,
                ) <= layout.spec_size());
            }
            let size = match layout.checked_level_size(level) {
                Some(size) => size,
                None => {
                    return None;
                },
            };
            face_size = match face_size.checked_add(size) {
                Some(sum) => sum,
                None => {
                    return None;
                },
            };
            level = level + 1;
        }
        proof {
            layout.lemma_face_bounds_size();
        }
        let layer_size = match face_size.checked_mul(faces) {
            Some(size) => size,
            None => {
                return None;
            },
        };
        match layer_size.checked_mul(layers) {
            Some(_) => Some(layout),
            None => None,
        }
    }

    /// The buffer is no smaller than a layer, a layer no smaller than a
    /// face.
    pub proof fn lemma_face_bounds_size(self)
        requires
            self.faces >= 1,
            self.layers >= 1,
        ensures
            self.spec_face_size() <= self.spec_layer_size() <= self.spec_size(),
    {
        let fs = self.spec_face_size();
        let ls = self.spec_layer_size();
        let faces = self.faces as nat;
        let layers = self.layers as nat;
        assert(fs <= fs * faces) by (nonlinear_arith)
            requires
                faces >= 1,
        ;
        assert(ls <= ls * layers) by (nonlinear_arith)
            requires
                layers >= 1,
        ;
    }

    /// The size in bytes of an image.
    pub fn level_size(&self, level: usize) -> (r: usize)
        requires
            self.wf(),
            level < self.levels,
        ensures
            r == self.spec_level_size(level as nat),
            r >= 1,
    {
        proof {
            self.lemma_image_in_bounds(0, 0, level as nat);
        }
        self.checked_level_size(level).unwrap()
    }

    /// The size in bytes of one row of blocks of an image.
    pub fn row_size(&self, level: usize) -> (r: usize)
        requires
            self.wf(),
            level < self.levels,
        ensures
            r == self.spec_row_size(level as nat),
            r >= 1,
    {
        proof {
            self.lemma_image_in_bounds(0, 0, level as nat);
            self.lemma_level_size_positive(level as nat);
        }
        let b = self.level_blocks(level);
        b.width as usize * self.block_size
    }

    /// The size in bytes of the mip levels from `base` up to, not including,
    /// `end` of one face.
    pub fn levels_size(&self, base: usize, end: usize) -> (r: usize)
        requires
            self.wf(),
            base <= end <= self.levels,
        ensures
            r == self.spec_levels_size(base as nat, end as nat),
    {
        let mut total: usize = 0;
        let mut level: usize = base;
        while level < end
            invariant
                self.wf(),
                base <= level <= end <= self.levels,
                total == self.spec_levels_size(base as nat, level as nat),
            decreases end - level,
        {
            proof {
                self.lemma_levels_size_monotone(base as nat, (level + 1) as nat, end as nat);
                self.lemma_levels_size_monotone(0, base as nat, end as nat);
                self.lemma_levels_size_monotone(0, end as nat, self.levels as nat);
                self.lemma_face_bounds_size();
            }
            let size = self.level_size(level);
            total = total + size;
            level = level + 1;
        }
        total
    }

    /// The place in the buffer of the first byte of an image.
    pub fn offset(&self, layer: usize, face: usize, level: usize) -> (r: usize)
        requires
            self.wf(),
            layer < self.layers,
            face < self.faces,
            level < self.levels,
        ensures
            r == self.spec_offset(layer as nat, face as nat, level as nat),
            r + self.spec_level_size(level as nat) <= self.spec_size(),
    {
        proof {
            self.lemma_image_in_bounds(layer as nat, face as nat, level as nat);
            self.lemma_levels_size_monotone(0, level as nat, self.levels as nat);
        }
        let face_size = self.levels_size(0, self.levels);
        let prefix = self.levels_size(0, level);
        let ghost fs = face_size as nat;
        let ghost faces = self.faces as nat;
        let ghost layers = self.layers as nat;
        proof {
            let ls = fs * faces;
            assert(fs * face as nat + fs <= fs * faces) by (nonlinear_arith)
                requires
                    (face as nat) < faces,
            ;
            assert(ls * layer as nat + ls <= ls * layers) by (nonlinear_arith)
                requires
                    (layer as nat) < layers,
            ;
            assert(fs * face as nat >= 0) by (nonlinear_arith);
            assert(ls * layer as nat >= 0) by (nonlinear_arith);
        }
        let layer_size = face_size * self.faces;
        layer_size * layer + face_size * face + prefix
    }
    /// The place in an image of the first byte of the block with the given
    /// coordinates, counted in blocks. Blocks are stored row by row, and the
    /// rows plane by plane.
    pub open spec fn spec_block_place(self, level: nat, x: nat, y: nat, z: nat) -> nat {
        (z * self.spec_blocks_y(level) + y) * self.spec_row_size(level) + x
            * self.block_size as nat
    }

    /// Every run of blocks inside a row of an image lies inside the image.
    pub proof fn lemma_block_in_image(self, level: nat, x: nat, y: nat, z: nat, count: nat)
        requires
            self.spec_shaped(),
            x + count <= self.spec_blocks_x(level),
            y < self.spec_blocks_y(level),
            z < self.spec_blocks_z(level),
        ensures
            self.spec_block_place(level, x, y, z) + count * self.block_size
                <= self.spec_level_size(level),
            x * self.block_size + count * self.block_size <= self.spec_row_size(level),
            (z * self.spec_blocks_y(level) + y) * self.spec_row_size(level) + self.spec_row_size(
                level,
            ) <= self.spec_level_size(level),
    {
        let bx = self.spec_blocks_x(level);
        let by = self.spec_blocks_y(level);
        let bz = self.spec_blocks_z(level);
        let bs = self.block_size as nat;
        let row = self.spec_row_size(level);
        assert(x * bs + count * bs <= bx * bs) by (nonlinear_arith)
            requires
                x + count <= bx,
        ;
        assert((z * by + y) * row + row <= bz * (by * row)) by (nonlinear_arith)
            requires
                y < by,
                z < bz,
        ;
    }

    /// The place in an image of the first byte of a block.
    pub fn block_place(&self, level: usize, x: u32, y: u32, z: u32) -> (r: usize)
        requires
            self.wf(),
            level < self.levels,
            x < self.spec_blocks_x(level as nat),
            y < self.spec_blocks_y(level as nat),
            z < self.spec_blocks_z(level as nat),
        ensures
            r == self.spec_block_place(level as nat, x as nat, y as nat, z as nat),
            r + self.block_size <= self.spec_level_size(level as nat),
    {
        let b = self.level_blocks(level);
        let row = self.row_size(level);
        let ghost by = b.height as nat;
        let ghost rowg = row as nat;
        proof {
            self.lemma_image_in_bounds(0, 0, level as nat);
            self.lemma_block_in_image(level as nat, x as nat, y as nat, z as nat, 1);
            assert(self.spec_block_place(level as nat, x as nat, y as nat, z as nat) <= usize::MAX);
            assert(z as nat * by + y as nat <= (z as nat * by + y as nat) * rowg)
                by (nonlinear_arith)
                requires
                    rowg >= 1,
            ;
            assert(z as nat * by >= 0) by (nonlinear_arith);
            assert((z as nat * by + y as nat) * rowg >= 0) by (nonlinear_arith);
            assert(x as nat * self.block_size as nat >= 0) by (nonlinear_arith);
        }
        (z as usize * b.height as usize + y as usize) * row + x as usize * self.block_size
    }
    /// Whether the buffer has an image at the given place.
    pub open spec fn spec_has(self, layer: nat, face: nat, level: nat) -> bool {
        layer < self.layers && face < self.faces && level < self.levels
    }

    /// The bytes of one image of a buffer with the bytes `bytes`.
    pub open spec fn spec_image(self, bytes: Seq<u8>, layer: nat, face: nat, level: nat) -> Seq<
        u8,
    > {
        bytes.subrange(
            self.spec_offset(layer, face, level) as int,
            (self.spec_offset(layer, face, level) + self.spec_level_size(level)) as int,
        )
    }

    /// Bytes written in the place of one image are the bytes of that image
    /// afterwards, and every other image is as it was.
    pub proof fn lemma_write_image(
        self,
        bytes: Seq<u8>,
        data: Seq<u8>,
        layer: nat,
        face: nat,
        level: nat,
        other_layer: nat,
        other_face: nat,
        other_level: nat,
    )
        requires
            bytes.len() == self.spec_size(),
            data.len() == self.spec_level_size(level),
            self.spec_has(layer, face, level),
            self.spec_has(other_layer, other_face, other_level),
        ensures
            crate::storage::spec_write(
                bytes,
                self.spec_offset(layer, face, level) as int,
                data,
            ).len() == bytes.len(),
            self.spec_image(
                crate::storage::spec_write(bytes, self.spec_offset(layer, face, level) as int, data),
                other_layer,
                other_face,
                other_level,
            ) == if layer == other_layer && face == other_face && level == other_level {
                data
            } else {
                self.spec_image(bytes, other_layer, other_face, other_level)
            },
    {
        let written = crate::storage::spec_write(
            bytes,
            self.spec_offset(layer, face, level) as int,
            data,
        );
        self.lemma_image_in_bounds(layer, face, level);
        self.lemma_image_in_bounds(other_layer, other_face, other_level);
        if layer == other_layer && face == other_face && level == other_level {
            assert(self.spec_image(written, other_layer, other_face, other_level) =~= data);
        } else {
            if layer < other_layer || (layer == other_layer && (face < other_face || (face
                == other_face && level < other_level))) {
                self.lemma_images_disjoint(
                    layer,
                    face,
                    level,
                    other_layer,
                    other_face,
                    other_level,
                );
            } else {
                self.lemma_images_disjoint(
                    other_layer,
                    other_face,
                    other_level,
                    layer,
                    face,
                    level,
                );
            }
            assert(self.spec_image(written, other_layer, other_face, other_level)
                =~= self.spec_image(bytes, other_layer, other_face, other_level));
        }
    }
    /// Whether an image at a level has a block with the given coordinates.
    pub open spec fn spec_has_block(self, level: nat, x: nat, y: nat, z: nat) -> bool {
        x < self.spec_blocks_x(level) && y < self.spec_blocks_y(level) && z < self.spec_blocks_z(
            level,
        )
    }

    /// The bytes of one block of an image of a buffer with the bytes
    /// `bytes`.
    pub open spec fn spec_block(
        self,
        bytes: Seq<u8>,
        layer: nat,
        face: nat,
        level: nat,
        x: nat,
        y: nat,
        z: nat,
    ) -> Seq<u8> {
        bytes.subrange(
            (self.spec_offset(layer, face, level) + self.spec_block_place(level, x, y, z)) as int,
            (self.spec_offset(layer, face, level) + self.spec_block_place(level, x, y, z)
                + self.block_size) as int,
        )
    }

    /// Where a run of blocks in a row lies among the blocks of its image:
    /// a block of the run lies in it at the place of its turn, and every
    /// other block ends before the run begins or begins after it ends.
    pub proof fn lemma_row_among_blocks(
        self,
        level: nat,
        x0: nat,
        y0: nat,
        z0: nat,
        count: nat,
        x: nat,
        y: nat,
        z: nat,
    )
        requires
            self.spec_shaped(),
            x0 + count <= self.spec_blocks_x(level),
            y0 < self.spec_blocks_y(level),
            z0 < self.spec_blocks_z(level),
            self.spec_has_block(level, x, y, z),
        ensures
            y == y0 && z == z0 && x0 <= x < x0 + count ==> self.spec_block_place(level, x, y, z)
                == self.spec_block_place(level, x0, y0, z0) + (x - x0) * self.block_size && (x
                - x0) * self.block_size + self.block_size <= count * self.block_size,
            !(y == y0 && z == z0 && x0 <= x < x0 + count) ==> self.spec_block_place(level, x, y, z)
                + self.block_size <= self.spec_block_place(level, x0, y0, z0)
                || self.spec_block_place(level, x0, y0, z0) + count * self.block_size
                <= self.spec_block_place(level, x, y, z),
            self.spec_block_place(level, x, y, z) + self.block_size <= self.spec_level_size(level),
    {
        let bx = self.spec_blocks_x(level);
        let by = self.spec_blocks_y(level);
        let bs = self.block_size as nat;
        let row = self.spec_row_size(level);
        let r = z * by + y;
        let r0 = z0 * by + y0;
        self.lemma_block_in_image(level, x, y, z, 1);
        self.lemma_block_in_image(level, x0, y0, z0, count);
        assert(1 * bs == bs) by (nonlinear_arith);
        assert(x * bs + bs <= bx * bs && x0 * bs + count * bs <= bx * bs && x * bs >= 0 && x0 * bs
            >= 0 && count * bs >= 0) by (nonlinear_arith)
            requires
                x < bx,
                x0 + count <= bx,
        ;
        if y == y0 && z == z0 {
            if x0 <= x < x0 + count {
                assert(x * bs == x0 * bs + (x - x0) * bs && (x - x0) * bs + bs <= count * bs)
                    by (nonlinear_arith)
                    requires
                        x0 <= x < x0 + count,
                ;
            } else if x < x0 {
                assert(x * bs + bs <= x0 * bs) by (nonlinear_arith)
                    requires
                        x < x0,
                ;
            } else {
                assert(x0 * bs + count * bs <= x * bs) by (nonlinear_arith)
                    requires
                        x0 + count <= x,
                ;
            }
        } else if z < z0 || (z == z0 && y < y0) {
            assert(r + 1 <= r0) by (nonlinear_arith)
                requires
                    r == z * by + y,
                    r0 == z0 * by + y0,
                    z < z0 || (z == z0 && y < y0),
                    y < by,
            ;
            assert(r * row + row <= r0 * row) by (nonlinear_arith)
                requires
                    r + 1 <= r0,
            ;
        } else {
            assert(r0 + 1 <= r) by (nonlinear_arith)
                requires
                    r == z * by + y,
                    r0 == z0 * by + y0,
                    z0 < z || (z == z0 && y0 < y),
                    y0 < by,
            ;
            assert(r0 * row + row <= r * row) by (nonlinear_arith)
                requires
                    r0 + 1 <= r,
            ;
        }
    }

    /// Bytes written over a run of blocks in a row of an image are the
    /// bytes of these blocks afterwards; every other block of the image, and
    /// every other image, is as it was.
    pub proof fn lemma_write_row(
        self,
        bytes: Seq<u8>,
        data: Seq<u8>,
        layer: nat,
        face: nat,
        level: nat,
        x0: nat,
        y0: nat,
        z0: nat,
        count: nat,
    )
        requires
            self.spec_shaped(),
            bytes.len() == self.spec_size(),
            self.spec_has(layer, face, level),
            x0 + count <= self.spec_blocks_x(level),
            y0 < self.spec_blocks_y(level),
            z0 < self.spec_blocks_z(level),
            data.len() == count * self.block_size,
        ensures
            ({
                let written = crate::storage::spec_write(
                    bytes,
                    (self.spec_offset(layer, face, level) + self.spec_block_place(
                        level,
                        x0,
                        y0,
                        z0,
                    )) as int,
                    data,
                );
                &&& written.len() == bytes.len()
                &&& forall|x: nat, y: nat, z: nat|
                    self.spec_has_block(level, x, y, z) ==> #[trigger] self.spec_block(
                        written,
                        layer,
                        face,
                        level,
                        x,
                        y,
                        z,
                    ) == if y == y0 && z == z0 && x0 <= x < x0 + count {
                        data.subrange(
                            (x - x0) * self.block_size,
                            (x - x0) * self.block_size + self.block_size,
                        )
                    } else {
                        self.spec_block(bytes, layer, face, level, x, y, z)
                    }
                &&& forall|l: nat, f: nat, v: nat|
                    self.spec_has(l, f, v) && !(l == layer && f == face && v == level)
                        ==> #[trigger] self.spec_image(written, l, f, v) == self.spec_image(
                        bytes,
                        l,
                        f,
                        v,
                    )
            }),
    {
        let base = self.spec_offset(layer, face, level);
        let start = base + self.spec_block_place(level, x0, y0, z0);
        let written = crate::storage::spec_write(bytes, start as int, data);
        self.lemma_image_in_bounds(layer, face, level);
        self.lemma_block_in_image(level, x0, y0, z0, count);
        assert forall|x: nat, y: nat, z: nat|
            self.spec_has_block(level, x, y, z) implies #[trigger] self.spec_block(
            written,
            layer,
            face,
            level,
            x,
            y,
            z,
        ) == if y == y0 && z == z0 && x0 <= x < x0 + count {
            data.subrange((x - x0) * self.block_size, (x - x0) * self.block_size + self.block_size)
        } else {
            self.spec_block(bytes, layer, face, level, x, y, z)
        } by {
            self.lemma_row_among_blocks(level, x0, y0, z0, count, x, y, z);
            if y == y0 && z == z0 && x0 <= x < x0 + count {
                assert(self.spec_block(written, layer, face, level, x, y, z) =~= data.subrange(
                    (x - x0) * self.block_size,
                    (x - x0) * self.block_size + self.block_size,
                ));
            } else {
                assert(self.spec_block(written, layer, face, level, x, y, z) =~= self.spec_block(
                    bytes,
                    layer,
                    face,
                    level,
                    x,
                    y,
                    z,
                ));
            }
        }
        assert forall|l: nat, f: nat, v: nat|
            self.spec_has(l, f, v) && !(l == layer && f == face && v
                == level) implies #[trigger] self.spec_image(written, l, f, v) == self.spec_image(
            bytes,
            l,
            f,
            v,
        ) by {
            self.lemma_image_in_bounds(l, f, v);
            if l < layer || (l == layer && (f < face || (f == face && v < level))) {
                self.lemma_images_disjoint(l, f, v, layer, face, level);
            } else {
                self.lemma_images_disjoint(layer, face, level, l, f, v);
            }
            assert(self.spec_image(written, l, f, v) =~= self.spec_image(bytes, l, f, v));
        }
    }
}

} // verus!
