//! The topological kinds of textures.

use vstd::prelude::*;

verus! {

/// The kind of a texture: how many axes its images have, and whether it has
/// array layers or cube faces.
#[derive(Debug, Clone, Copy, PartialEq, Eq, Structural)]
pub struct Target(pub u32);

impl Target {
    pub const TARGET_FIRST: u32 = 0;
    pub const TARGET_1D: u32 = 0;
    pub const TARGET_1D_ARRAY: u32 = 1;
    pub const TARGET_2D: u32 = 2;
    pub const TARGET_2D_ARRAY: u32 = 3;
    pub const TARGET_3D: u32 = 4;
    pub const TARGET_RECT: u32 = 5;
    pub const TARGET_RECT_ARRAY: u32 = 6;
    pub const TARGET_CUBE: u32 = 7;
    pub const TARGET_CUBE_ARRAY: u32 = 8;
    pub const TARGET_LAST: u32 = 8;

    /// A target is valid when its number names a kind.
    pub open spec fn spec_is_valid(self) -> bool {
        Target::TARGET_FIRST <= self.0 <= Target::TARGET_LAST
    }

    /// Check whether the number names a kind of texture.
    pub fn is_valid(&self) -> (r: bool)
        ensures
            r == self.spec_is_valid(),
    {
        self.0 <= Target::TARGET_LAST
    }

    pub open spec fn spec_is_target_1d(self) -> bool {
        self.0 == Target::TARGET_1D || self.0 == Target::TARGET_1D_ARRAY
    }

    /// Check whether a target is a 1D target.
    pub fn is_target_1d(&self) -> (r: bool)
        ensures
            r == self.spec_is_target_1d(),
    {
        self.0 == Target::TARGET_1D || self.0 == Target::TARGET_1D_ARRAY
    }

    /// The array targets. The rectangle array is not among them.
    pub open spec fn spec_is_target_array(self) -> bool {
        self.0 == Target::TARGET_1D_ARRAY || self.0 == Target::TARGET_2D_ARRAY || self.0
            == Target::TARGET_CUBE_ARRAY
    }

    /// Check whether a target is an array target.
    pub fn is_target_array(&self) -> (r: bool)
        ensures
            r == self.spec_is_target_array(),
    {
        self.0 == Target::TARGET_1D_ARRAY || self.0 == Target::TARGET_2D_ARRAY || self.0
            == Target::TARGET_CUBE_ARRAY
    }

    pub open spec fn spec_is_target_cube(self) -> bool {
        self.0 == Target::TARGET_CUBE || self.0 == Target::TARGET_CUBE_ARRAY
    }

    /// Check whether a target is a cube map target.
    pub fn is_target_cube(&self) -> (r: bool)
        ensures
            r == self.spec_is_target_cube(),
    {
        self.0 == Target::TARGET_CUBE || self.0 == Target::TARGET_CUBE_ARRAY
    }

    pub open spec fn spec_is_target_rect(self) -> bool {
        self.0 == Target::TARGET_RECT || self.0 == Target::TARGET_RECT_ARRAY
    }

    /// Check whether a target is a rectangle target.
    pub fn is_target_rect(&self) -> (r: bool)
        ensures
            r == self.spec_is_target_rect(),
    {
        self.0 == Target::TARGET_RECT || self.0 == Target::TARGET_RECT_ARRAY
    }

    /// Whether textures of this kind may have more than one layer.
    pub open spec fn spec_has_layers(self) -> bool {
        self.spec_is_target_array() || self.0 == Target::TARGET_RECT_ARRAY
    }

    /// Whether textures of this kind may have more than one face.
    pub open spec fn spec_has_faces(self) -> bool {
        self.spec_is_target_cube()
    }

    /// The number of axes of an image of this kind: 1, 2 or 3; 0 for a
    /// number that names no kind.
    pub open spec fn spec_axes(self) -> nat {
        if !self.spec_is_valid() {
            0
        } else if self.spec_is_target_1d() {
            1
        } else if self.0 == Target::TARGET_3D {
            3
        } else {
            2
        }
    }

    /// The number of axes of an image of this kind.
    pub fn axes(&self) -> (r: usize)
        ensures
            r == self.spec_axes(),
    {
        if self.0 > Target::TARGET_LAST {
            0
        } else if self.is_target_1d() {
            1
        } else if self.0 == Target::TARGET_3D {
            3
        } else {
            2
        }
    }

    /// Whether a texture of this kind can have `layers` layers, `faces`
    /// faces, and images of the given height and depth. Kinds without array
    /// layers have one layer, kinds that are no cube maps have one face, and
    /// an axis that the kind does not have has length 1.
    pub open spec fn spec_admits(self, layers: nat, faces: nat, height: nat, depth: nat) -> bool {
        &&& self.spec_is_valid()
        &&& layers >= 1
        &&& faces >= 1
        &&& height >= 1
        &&& depth >= 1
        &&& (self.spec_has_layers() || layers == 1)
        &&& (self.spec_has_faces() || faces == 1)
        &&& (self.spec_axes() >= 2 || height == 1)
        &&& (self.spec_axes() >= 3 || depth == 1)
    }

    /// Check whether a texture of this kind can have the given shape.
    pub fn admits(&self, layers: usize, faces: usize, height: u32, depth: u32) -> (r: bool)
        ensures
            r == self.spec_admits(layers as nat, faces as nat, height as nat, depth as nat),
    {
        let arrayed = self.is_target_array() || self.0 == Target::TARGET_RECT_ARRAY;
        let axes = self.axes();
        self.is_valid() && layers >= 1 && faces >= 1 && height >= 1 && depth >= 1 && (arrayed
            || layers == 1) && (self.is_target_cube() || faces == 1) && (axes >= 2 || height == 1)
            && (axes >= 3 || depth == 1)
    }

    /// The name of a target, as it is printed.
    pub fn name(&self) -> (s: &'static str)
        ensures
            s@ == spec_target_name(self.0),
    {
        if self.0 == Target::TARGET_1D {
            "Target::TARGET_1D"
        } else if self.0 == Target::TARGET_1D_ARRAY {
            "Target::TARGET_1D_ARRAY"
        } else if self.0 == Target::TARGET_2D {
            "Target::TARGET_2D"
        } else if self.0 == Target::TARGET_2D_ARRAY {
            "Target::TARGET_2D_ARRAY"
        } else if self.0 == Target::TARGET_3D {
            "Target::TARGET_3D"
        } else if self.0 == Target::TARGET_RECT {
            "Target::TARGET_RECT"
        } else if self.0 == Target::TARGET_RECT_ARRAY {
            "Target::TARGET_RECT_ARRAY"
        } else if self.0 == Target::TARGET_CUBE {
            "Target::TARGET_CUBE"
        } else if self.0 == Target::TARGET_CUBE_ARRAY {
            "Target::TARGET_CUBE_ARRAY"
        } else {
            "Unknown target"
        }
    }
}

/// The text that stands for a target.
pub open spec fn spec_target_name(v: u32) -> Seq<char> {
    if v == Target::TARGET_1D {
        "Target::TARGET_1D"@
    } else if v == Target::TARGET_1D_ARRAY {
        "Target::TARGET_1D_ARRAY"@
    } else if v == Target::TARGET_2D {
        "Target::TARGET_2D"@
    } else if v == Target::TARGET_2D_ARRAY {
        "Target::TARGET_2D_ARRAY"@
    } else if v == Target::TARGET_3D {
        "Target::TARGET_3D"@
    } else if v == Target::TARGET_RECT {
        "Target::TARGET_RECT"@
    } else if v == Target::TARGET_RECT_ARRAY {
        "Target::TARGET_RECT_ARRAY"@
    } else if v == Target::TARGET_CUBE {
        "Target::TARGET_CUBE"@
    } else if v == Target::TARGET_CUBE_ARRAY {
        "Target::TARGET_CUBE_ARRAY"@
    } else {
        "Unknown target"@
    }
}

} // verus!
