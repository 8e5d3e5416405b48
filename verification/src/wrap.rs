//! Wrap modes and filters, and how a texel coordinate outside an image is
//! folded back into it.

use vstd::prelude::*;
use vstd::arithmetic::div_mod::{
    lemma_fundamental_div_mod, lemma_fundamental_div_mod_converse, lemma_mod_multiples_vanish,
    lemma_mod_bound,
};

verus! {

/// The policy for a texel coordinate that lies outside the image.
#[derive(Debug, Clone, Copy, PartialEq, Eq, Structural)]
pub struct Wrap(pub u32);

/// How a sample is made of the texels around it.
#[derive(Debug, Clone, Copy, PartialEq, Eq, Structural)]
pub struct Filter(pub u32);

impl Wrap {
    pub const FIRST: u32 = 0;
    /// The coordinate is moved to the nearest texel of the image.
    pub const CLAMP_TO_EDGE: u32 = 0;
    /// Outside the image lies the border color.
    pub const CLAMP_TO_BORDER: u32 = 1;
    /// The image repeats.
    pub const REPEAT: u32 = 2;
    /// The image repeats, every other copy mirrored.
    pub const MIRROR_REPEAT: u32 = 3;
    /// The image is mirrored once about its origin; beyond that the
    /// coordinate is moved to the nearest texel.
    pub const MIRROR_CLAMP_TO_EDGE: u32 = 4;
    /// The image is mirrored once about its origin; beyond that lies the
    /// border color.
    pub const MIRROR_CLAMP_TO_BORDER: u32 = 5;
    pub const LAST: u32 = 5;

    pub open spec fn spec_is_valid(self) -> bool {
        Wrap::FIRST <= self.0 <= Wrap::LAST
    }

    /// Whether the number names a wrap mode.
    pub fn is_valid(&self) -> (r: bool)
        ensures
            r == self.spec_is_valid(),
    {
        self.0 <= Wrap::LAST
    }

    /// Whether the mode shows the border color outside the image.
    pub open spec fn spec_is_border(self) -> bool {
        self.0 == Wrap::CLAMP_TO_BORDER || self.0 == Wrap::MIRROR_CLAMP_TO_BORDER
    }

    /// Whether the mode shows the border color outside the image.
    pub fn is_border(&self) -> (r: bool)
        ensures
            r == self.spec_is_border(),
    {
        self.0 == Wrap::CLAMP_TO_BORDER || self.0 == Wrap::MIRROR_CLAMP_TO_BORDER
    }
}

impl Filter {
    pub const NONE: u32 = 0;
    pub const FIRST: u32 = 1;
    /// The sample is the nearest texel.
    pub const NEAREST: u32 = 1;
    /// The sample is the weighted mean of the two nearest texels on each
    /// axis.
    pub const LINEAR: u32 = 2;
    pub const LAST: u32 = 2;

    pub open spec fn spec_is_valid(self) -> bool {
        Filter::FIRST <= self.0 <= Filter::LAST
    }

    /// Whether the number names a filter.
    pub fn is_valid(&self) -> (r: bool)
        ensures
            r == self.spec_is_valid(),
    {
        self.0 >= Filter::FIRST && self.0 <= Filter::LAST
    }
}

/// The coordinate mirrored about the origin of the image: texel -1 falls on
/// texel 0, texel -2 on texel 1, and so on.
pub open spec fn spec_mirror(coord: int) -> int {
    if coord >= 0 {
        coord
    } else {
        -1 - coord
    }
}

/// The texel that a coordinate falls on along an axis of `extent` texels, or
/// `None` where the border color is seen instead. A number that names no
/// wrap mode folds nothing: only coordinates inside the image fall on a
/// texel.
pub open spec fn spec_fold(wrap: Wrap, coord: int, extent: int) -> Option<int> {
    if extent <= 0 {
        None
    } else if wrap.0 == Wrap::CLAMP_TO_EDGE {
        Some(
            if coord < 0 {
                0
            } else if coord >= extent {
                extent - 1
            } else {
                coord
            },
        )
    } else if wrap.0 == Wrap::REPEAT {
        Some(coord % extent)
    } else if wrap.0 == Wrap::MIRROR_REPEAT {
        let m = coord % (2 * extent);
        Some(
            if m < extent {
                m
            } else {
                2 * extent - 1 - m
            },
        )
    } else if wrap.0 == Wrap::MIRROR_CLAMP_TO_EDGE {
        Some(
            if spec_mirror(coord) >= extent {
                extent - 1
            } else {
                spec_mirror(coord)
            },
        )
    } else if wrap.0 == Wrap::MIRROR_CLAMP_TO_BORDER {
        if spec_mirror(coord) < extent {
            Some(spec_mirror(coord))
        } else {
            None
        }
    } else {
        if 0 <= coord < extent {
            Some(coord)
        } else {
            None
        }
    }
}

/// A coordinate that falls on a texel falls on one of the image; a
/// coordinate inside the image falls on itself; and only the two border
/// modes, and numbers that name no mode, ever show the border.
pub proof fn lemma_fold_in_image(wrap: Wrap, coord: int, extent: int)
    requires
        extent >= 1,
    ensures
        spec_fold(wrap, coord, extent) matches Some(texel) ==> 0 <= texel < extent,
        0 <= coord < extent ==> spec_fold(wrap, coord, extent) == Some(coord),
        wrap.spec_is_valid() && !wrap.spec_is_border() ==> spec_fold(wrap, coord, extent).is_some(),
{
    lemma_mod_bound(coord, extent);
    lemma_mod_bound(coord, 2 * extent);
    if 0 <= coord < extent {
        vstd::arithmetic::div_mod::lemma_small_mod(coord as nat, extent as nat);
        vstd::arithmetic::div_mod::lemma_small_mod(coord as nat, (2 * extent) as nat);
    }
}

/// With the repeat mode, coordinates that are a whole number of images
/// apart fall on the same texel.
pub proof fn lemma_repeat_period(coord: int, extent: int, images: int)
    requires
        extent >= 1,
    ensures
        spec_fold(Wrap(Wrap::REPEAT), coord + images * extent, extent) == spec_fold(
            Wrap(Wrap::REPEAT),
            coord,
            extent,
        ),
{
    lemma_mod_multiples_vanish(images, coord, extent);
    assert(images * extent + coord == coord + images * extent);
}

/// The remainder of `coord` by `period`, never negative.
fn floor_mod(coord: i64, period: u64) -> (r: u64)
    requires
        1 <= period <= 0x2_0000_0000,
    ensures
        r == coord as int % period as int,
        r < period,
{
    proof {
        lemma_mod_bound(coord as int, period as int);
    }
    if coord >= 0 {
        (coord as u64) % period
    } else {
        // For a negative coordinate count back from the end of the period.
        let back: u64 = (-(coord + 1)) as u64;
        let m: u64 = back % period;
        proof {
            let p = period as int;
            let q = back as int / p;
            lemma_fundamental_div_mod(back as int, p);
            assert(back as int == p * q + m as int);
            assert(coord as int == -(back as int) - 1);
            assert(coord as int == (-q - 1) * p + (p - 1 - m as int)) by (nonlinear_arith)
                requires
                    coord as int == -(back as int) - 1,
                    back as int == p * q + m as int,
            ;
            lemma_fundamental_div_mod_converse(coord as int, p, -q - 1, p - 1 - m as int);
        }
        period - 1 - m
    }
}

/// The texel that a coordinate falls on along an axis of `extent` texels, or
/// `None` where the border color is seen instead.
pub fn fold(wrap: Wrap, coord: i64, extent: u32) -> (r: Option<u32>)
    ensures
        r.is_some() == spec_fold(wrap, coord as int, extent as int).is_some(),
        r matches Some(texel) ==> spec_fold(wrap, coord as int, extent as int) == Some(
            texel as int,
        ) && texel < extent,
{
    if extent == 0 {
        return None;
    }
    proof {
        lemma_fold_in_image(wrap, coord as int, extent as int);
    }
    let last: u32 = extent - 1;
    let mirrored: i64 = if coord >= 0 {
        coord
    } else {
        -1 - coord
    };
    if wrap.0 == Wrap::CLAMP_TO_EDGE {
        if coord < 0 {
            Some(0)
        } else if coord >= extent as i64 {
            Some(last)
        } else {
            Some(coord as u32)
        }
    } else if wrap.0 == Wrap::REPEAT {
        Some(floor_mod(coord, extent as u64) as u32)
    } else if wrap.0 == Wrap::MIRROR_REPEAT {
        let m: u64 = floor_mod(coord, 2 * (extent as u64));
        if m < extent as u64 {
            Some(m as u32)
        } else {
            Some((2 * (extent as u64) - 1 - m) as u32)
        }
    } else if wrap.0 == Wrap::MIRROR_CLAMP_TO_EDGE {
        if mirrored >= extent as i64 {
            Some(last)
        } else {
            Some(mirrored as u32)
        }
    } else if wrap.0 == Wrap::MIRROR_CLAMP_TO_BORDER {
        if mirrored < extent as i64 {
            Some(mirrored as u32)
        } else {
            None
        }
    } else {
        if 0 <= coord && coord < extent as i64 {
            Some(coord as u32)
        } else {
            None
        }
    }
}

} // verus!
