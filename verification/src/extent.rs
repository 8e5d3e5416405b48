//! Sizes of textures and images, counted in texels along each axis.

use vstd::prelude::*;
use vstd::std_specs::convert::FromSpecImpl;

verus! {

/// The size of a one-dimensional texture.
#[derive(Debug, Clone, Copy, PartialEq, Eq, Structural)]
pub struct Extent1d {
    pub width: u32,
}

/// The size of a two-dimensional texture.
#[derive(Debug, Clone, Copy, PartialEq, Eq, Structural)]
pub struct Extent2d {
    pub width: u32,
    pub height: u32,
}

/// The size of a three-dimensional texture.
#[derive(Debug, Clone, Copy, PartialEq, Eq, Structural)]
pub struct Extent3d {
    pub width: u32,
    pub height: u32,
    pub depth: u32,
}

impl Default for Extent1d {
    fn default() -> (e: Extent1d)
        ensures
            e == (Extent1d { width: 0 }),
    {
        Extent1d { width: 0 }
    }
}

impl Default for Extent2d {
    fn default() -> (e: Extent2d)
        ensures
            e == (Extent2d { width: 0, height: 0 }),
    {
        Extent2d { width: 0, height: 0 }
    }
}

impl Default for Extent3d {
    fn default() -> (e: Extent3d)
        ensures
            e == (Extent3d { width: 0, height: 0, depth: 0 }),
    {
        Extent3d { width: 0, height: 0, depth: 0 }
    }
}

impl From<Extent1d> for u32 {
    fn from(v: Extent1d) -> (r: u32) {
        v.width
    }
}

impl FromSpecImpl<Extent1d> for u32 {
    open spec fn obeys_from_spec() -> bool {
        true
    }

    open spec fn from_spec(v: Extent1d) -> u32 {
        v.width
    }
}

impl From<u32> for Extent1d {
    fn from(v: u32) -> (r: Extent1d) {
        Extent1d { width: v }
    }
}

impl FromSpecImpl<u32> for Extent1d {
    open spec fn obeys_from_spec() -> bool {
        true
    }

    open spec fn from_spec(v: u32) -> Extent1d {
        Extent1d { width: v }
    }
}

/// Keeps the width and drops the height.
impl From<[u32; 2]> for Extent1d {
    fn from(v: [u32; 2]) -> (r: Extent1d) {
        Extent1d { width: v[0] }
    }
}

impl FromSpecImpl<[u32; 2]> for Extent1d {
    open spec fn obeys_from_spec() -> bool {
        true
    }

    open spec fn from_spec(v: [u32; 2]) -> Extent1d {
        Extent1d { width: v[0] }
    }
}

/// Keeps the width and drops the height and the depth.
impl From<[u32; 3]> for Extent1d {
    fn from(v: [u32; 3]) -> (r: Extent1d) {
        Extent1d { width: v[0] }
    }
}

impl FromSpecImpl<[u32; 3]> for Extent1d {
    open spec fn obeys_from_spec() -> bool {
        true
    }

    open spec fn from_spec(v: [u32; 3]) -> Extent1d {
        Extent1d { width: v[0] }
    }
}

impl From<Extent2d> for [u32; 2] {
    fn from(v: Extent2d) -> (r: [u32; 2]) {
        [v.width, v.height]
    }
}

impl FromSpecImpl<Extent2d> for [u32; 2] {
    open spec fn obeys_from_spec() -> bool {
        true
    }

    open spec fn from_spec(v: Extent2d) -> [u32; 2] {
        [v.width, v.height]
    }
}

impl From<[u32; 2]> for Extent2d {
    fn from(v: [u32; 2]) -> (r: Extent2d) {
        Extent2d { width: v[0], height: v[1] }
    }
}

impl FromSpecImpl<[u32; 2]> for Extent2d {
    open spec fn obeys_from_spec() -> bool {
        true
    }

    open spec fn from_spec(v: [u32; 2]) -> Extent2d {
        Extent2d { width: v[0], height: v[1] }
    }
}

/// Keeps the width and the height and drops the depth.
impl From<[u32; 3]> for Extent2d {
    fn from(v: [u32; 3]) -> (r: Extent2d) {
        Extent2d { width: v[0], height: v[1] }
    }
}

impl FromSpecImpl<[u32; 3]> for Extent2d {
    open spec fn obeys_from_spec() -> bool {
        true
    }

    open spec fn from_spec(v: [u32; 3]) -> Extent2d {
        Extent2d { width: v[0], height: v[1] }
    }
}

impl From<Extent3d> for [u32; 3] {
    fn from(v: Extent3d) -> (r: [u32; 3]) {
        [v.width, v.height, v.depth]
    }
}

impl FromSpecImpl<Extent3d> for [u32; 3] {
    open spec fn obeys_from_spec() -> bool {
        true
    }

    open spec fn from_spec(v: Extent3d) -> [u32; 3] {
        [v.width, v.height, v.depth]
    }
}

impl From<[u32; 3]> for Extent3d {
    fn from(v: [u32; 3]) -> (r: Extent3d) {
        Extent3d { width: v[0], height: v[1], depth: v[2] }
    }
}

impl FromSpecImpl<[u32; 3]> for Extent3d {
    open spec fn obeys_from_spec() -> bool {
        true
    }

    open spec fn from_spec(v: [u32; 3]) -> Extent3d {
        Extent3d { width: v[0], height: v[1], depth: v[2] }
    }
}

} // verus!
