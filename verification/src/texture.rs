//! Textures: views over a shared pixel buffer.
//!
//! A `Texture` names a buffer of a `Pool` and describes the part of it that
//! it shows: a format, a target, and a range of layers, of faces and of mip
//! levels. Several textures may show the same buffer, each with ranges of
//! its own. The ranges are counted in the buffer: a view that starts at
//! layer 2 of the buffer has base layer 2.
//!
//! A texture holds its buffer from the call that makes it until `release`.
//! The empty texture shows nothing and holds nothing; it is what the
//! allocating constructors return for arguments that describe no texture.

pub use self::t1d::Texture1D;
pub use self::t1d_array::Texture1DArray;
pub use self::t2d::Texture2D;
pub use self::t2d_array::Texture2DArray;
pub use self::t3d::Texture3D;
pub use self::tcube::TextureCube;
pub use self::tcube_array::TextureCubeArray;

pub mod t1d;
pub mod t1d_array;
pub mod t2d;
pub mod t2d_array;
pub mod t3d;
pub mod tcube;
pub mod tcube_array;

use vstd::prelude::*;
use crate::error::Error;
use crate::extent::Extent3d;
use crate::format::{Format, Swizzle, Swizzles};
use crate::layout::{Layout, chain, spec_chain, spec_max3, spec_mip};
use crate::storage::{Buffer, Pool, spec_acquire, spec_live, spec_release};
use crate::target::Target;

verus! {

/// What a texture shows of its buffer.
#[derive(Debug, Clone, Copy)]
pub struct Descriptor {
    pub format: Format,
    pub target: Target,
    pub base_layer: usize,
    pub max_layer: usize,
    pub base_face: usize,
    pub max_face: usize,
    pub base_level: usize,
    pub max_level: usize,
    pub swizzles: Swizzles,
}

/// A view over a pixel buffer, of any kind.
#[derive(Debug)]
pub struct Texture {
    buffer: Option<usize>,
    layout: Layout,
    desc: Descriptor,
}

/// The swizzles that read every channel from itself.
pub open spec fn spec_identity_swizzles() -> Swizzles {
    [
        Swizzle(Swizzle::RED),
        Swizzle(Swizzle::GREEN),
        Swizzle(Swizzle::BLUE),
        Swizzle(Swizzle::ALPHA),
    ]
}

/// The swizzles that read every channel from itself.
pub fn identity_swizzles() -> (s: Swizzles)
    ensures
        s == spec_identity_swizzles(),
{
    [
        Swizzle(Swizzle::RED),
        Swizzle(Swizzle::GREEN),
        Swizzle(Swizzle::BLUE),
        Swizzle(Swizzle::ALPHA),
    ]
}

/// The layout of no buffer.
pub open spec fn spec_no_layout() -> Layout {
    Layout {
        block_size: 0,
        block_extent: Extent3d { width: 0, height: 0, depth: 0 },
        extent: Extent3d { width: 0, height: 0, depth: 0 },
        layers: 0,
        faces: 0,
        levels: 0,
    }
}

/// The descriptor of the empty texture of a target.
pub open spec fn spec_no_descriptor(target: Target) -> Descriptor {
    Descriptor {
        format: Format(Format::UNDEFINED),
        target,
        base_layer: 0,
        max_layer: 0,
        base_face: 0,
        max_face: 0,
        base_level: 0,
        max_level: 0,
        swizzles: spec_identity_swizzles(),
    }
}

/// The descriptor of a texture that shows the whole of a buffer.
pub open spec fn spec_whole_descriptor(target: Target, format: Format, layout: Layout) -> Descriptor {
    Descriptor {
        format,
        target,
        base_layer: 0,
        max_layer: (layout.layers - 1) as usize,
        base_face: 0,
        max_face: (layout.faces - 1) as usize,
        base_level: 0,
        max_level: (layout.levels - 1) as usize,
        swizzles: spec_identity_swizzles(),
    }
}

/// Whether a descriptor lies within a buffer of the given layout: the format
/// is in the catalogue and has blocks of the buffer's size, and each range is
/// in order and inside the buffer.
pub open spec fn spec_within(desc: Descriptor, layout: Layout) -> bool {
    &&& desc.format.spec_is_valid()
    &&& desc.format.spec_block_size() == layout.block_size
    &&& desc.base_layer <= desc.max_layer < layout.layers
    &&& desc.base_face <= desc.max_face < layout.faces
    &&& desc.base_level <= desc.max_level < layout.levels
}

/// Whether a descriptor fits a buffer of the given layout: it lies within
/// the buffer, and the target admits the shape that the ranges cut out.
pub open spec fn spec_fits(desc: Descriptor, layout: Layout) -> bool {
    &&& spec_within(desc, layout)
    &&& desc.target.spec_admits(
        (desc.max_layer - desc.base_layer + 1) as nat,
        (desc.max_face - desc.base_face + 1) as nat,
        spec_mip(layout.extent.height as nat, desc.base_level as nat),
        spec_mip(layout.extent.depth as nat, desc.base_level as nat),
    )
}

/// Whether a texture of the given target, format, extent and counts can be
/// made: the format is in the catalogue, no length and no count is 0, there
/// are no more levels than a complete mip chain has, the target admits the
/// shape, and the size in bytes is a `usize`.
pub open spec fn spec_constructible(
    target: Target,
    format: Format,
    extent: Extent3d,
    layers: usize,
    faces: usize,
    levels: usize,
) -> bool {
    &&& format.spec_is_valid()
    &&& Layout::spec_of(format, extent, layers, faces, levels).wf()
    &&& target.spec_admits(layers as nat, faces as nat, extent.height as nat, extent.depth as nat)
}

/// What holds of a texture `t` that was made to show the whole of a new
/// buffer of zero bytes: it is empty, and the pool as before, if no texture
/// of the given target, format, extent and counts can be made; otherwise it
/// is empty, and the pool as before, or it holds the new buffer and shows all
/// of it.
pub open spec fn spec_made(
    t: &Texture,
    before: Seq<Buffer>,
    after: Seq<Buffer>,
    target: Target,
    format: Format,
    extent: Extent3d,
    layers: usize,
    faces: usize,
    levels: usize,
) -> bool {
    &&& t.wf()
    &&& t.spec_descriptor().target == target
    &&& !spec_constructible(target, format, extent, layers, faces, levels) ==> t.spec_empty()
    &&& t.spec_empty() ==> after == before
    &&& !t.spec_empty() ==> {
        &&& t.spec_buffer() == Some(before.len() as usize)
        &&& t.spec_layout() == Layout::spec_of(format, extent, layers, faces, levels)
        &&& t.spec_descriptor() == spec_whole_descriptor(target, format, t.spec_layout())
        &&& after == before.push(
            Buffer { holders: 1, bytes: Seq::new(t.spec_layout().spec_size(), |i: int| 0u8) },
        )
        &&& t.spec_held_by(after)
    }
}

/// What holds of a view `t` that was derived from `source` with the
/// descriptor `desc`: it shows the buffer of `source`, which has one holder
/// more than before.
pub open spec fn spec_derived(
    t: &Texture,
    source: &Texture,
    before: Seq<Buffer>,
    after: Seq<Buffer>,
    desc: Descriptor,
) -> bool {
    &&& t.wf()
    &&& t.spec_buffer() == source.spec_buffer()
    &&& t.spec_layout() == source.spec_layout()
    &&& t.spec_descriptor() == desc
    &&& after == spec_acquire(before, source.spec_buffer().unwrap() as int)
    &&& t.spec_held_by(after)
    &&& source.spec_held_by(after)
}

/// The descriptor of a view of `source` with the given target, format and
/// ranges; the swizzles are those of `source`.
pub open spec fn spec_detail_descriptor(
    source: &Texture,
    target: Target,
    format: Format,
    base_layer: usize,
    max_layer: usize,
    base_face: usize,
    max_face: usize,
    base_level: usize,
    max_level: usize,
) -> Descriptor {
    Descriptor {
        format,
        target,
        base_layer,
        max_layer,
        base_face,
        max_face,
        base_level,
        max_level,
        swizzles: source.spec_descriptor().swizzles,
    }
}

/// The number of mip levels of a complete chain for images of the given
/// extent: as many as it takes to halve the longest axis down to one texel.
pub open spec fn spec_full_chain(extent: Extent3d) -> nat {
    spec_chain(spec_max3(extent.width as nat, extent.height as nat, extent.depth as nat))
}

/// The number of mip levels of a complete chain for images of the given
/// extent.
pub fn full_chain(extent: Extent3d) -> (r: usize)
    ensures
        r == spec_full_chain(extent),
        1 <= r <= crate::layout::MAX_LEVELS,
{
    let longest = if extent.width >= extent.height && extent.width >= extent.depth {
        extent.width
    } else if extent.height >= extent.depth {
        extent.height
    } else {
        extent.depth
    };
    chain(longest)
}

/// One corner of a box of blocks in an image of a texture: the layer, the
/// face and the level of the image, counted from the bases of the texture,
/// and the coordinates of the first block of the box, counted in blocks.
pub struct Corner {
    pub layer: nat,
    pub face: nat,
    pub level: nat,
    pub x: nat,
    pub y: nat,
    pub z: nat,
}

/// The place in the buffer of the first byte of row `y` of plane `z` of a
/// box of blocks.
pub open spec fn spec_row_place(texture: &Texture, corner: Corner, y: nat, z: nat) -> nat {
    texture.spec_image_offset(corner.layer, corner.face, corner.level)
        + texture.spec_layout().spec_block_place(
        (texture.spec_descriptor().base_level + corner.level) as nat,
        corner.x,
        corner.y + y,
        corner.z + z,
    )
}

/// Whether a box of `cx` by `cy` by `cz` blocks with the given corner lies
/// inside the image.
pub open spec fn spec_box_inside(texture: &Texture, corner: Corner, cx: nat, cy: nat, cz: nat) -> bool {
    &&& texture.spec_shows(corner.layer, corner.face, corner.level)
    &&& corner.x + cx <= texture.spec_layout().spec_blocks_x(
        (texture.spec_descriptor().base_level + corner.level) as nat,
    )
    &&& corner.y + cy <= texture.spec_layout().spec_blocks_y(
        (texture.spec_descriptor().base_level + corner.level) as nat,
    )
    &&& corner.z + cz <= texture.spec_layout().spec_blocks_z(
        (texture.spec_descriptor().base_level + corner.level) as nat,
    )
}

/// Whether a block lies in a box of `cx` by `cy` by `cz` blocks with the
/// given corner.
pub open spec fn spec_in_box(corner: Corner, cx: nat, cy: nat, cz: nat, x: nat, y: nat, z: nat) -> bool {
    corner.x <= x < corner.x + cx && corner.y <= y < corner.y + cy && corner.z <= z < corner.z
        + cz
}

/// The bytes of the block of `src` that is copied over the block `x`, `y`,
/// `z` of `dst`: the block at the same place in the box of `src` as that
/// block has in the box of `dst`.
pub open spec fn spec_block_from(
    pool: Seq<Buffer>,
    to: Corner,
    src: &Texture,
    from: Corner,
    x: nat,
    y: nat,
    z: nat,
) -> Seq<u8> {
    src.spec_layout().spec_block(
        pool[src.spec_buffer().unwrap() as int].bytes,
        (src.spec_descriptor().base_layer + from.layer) as nat,
        (src.spec_descriptor().base_face + from.face) as nat,
        (src.spec_descriptor().base_level + from.level) as nat,
        (from.x + x - to.x) as nat,
        (from.y + y - to.y) as nat,
        (from.z + z - to.z) as nat,
    )
}

/// What holds after a box of `cx` by `cy` by `cz` blocks of `src` was
/// copied over a box of `dst`, which took the pool from `before` to
/// `after`: each block of the box of `dst` has the bytes that the block at
/// the same place in the box of `src` had before; every other block of that
/// image of `dst`, every other image of its buffer, and every other buffer
/// is as it was.
pub open spec fn spec_box_copied(
    before: Seq<Buffer>,
    after: Seq<Buffer>,
    dst: &Texture,
    to: Corner,
    src: &Texture,
    from: Corner,
    cx: nat,
    cy: nat,
    cz: nat,
) -> bool {
    let id = dst.spec_buffer().unwrap() as int;
    let layout = dst.spec_layout();
    let layer = (dst.spec_descriptor().base_layer + to.layer) as nat;
    let face = (dst.spec_descriptor().base_face + to.face) as nat;
    let level = (dst.spec_descriptor().base_level + to.level) as nat;
    &&& after == crate::storage::spec_with_bytes(before, id, after[id].bytes)
    &&& after[id].bytes.len() == before[id].bytes.len()
    &&& forall|l: nat, f: nat, v: nat|
        layout.spec_has(l, f, v) && !(l == layer && f == face && v == level)
            ==> #[trigger] layout.spec_image(after[id].bytes, l, f, v) == layout.spec_image(
            before[id].bytes,
            l,
            f,
            v,
        )
    &&& forall|x: nat, y: nat, z: nat|
        layout.spec_has_block(level, x, y, z) ==> #[trigger] layout.spec_block(
            after[id].bytes,
            layer,
            face,
            level,
            x,
            y,
            z,
        ) == if spec_in_box(to, cx, cy, cz, x, y, z) {
            spec_block_from(before, to, src, from, x, y, z)
        } else {
            layout.spec_block(before[id].bytes, layer, face, level, x, y, z)
        }
}

/// The bytes of row `y` of plane `z` of a box, `cx` blocks long.
pub open spec fn spec_row(
    pool: Seq<Buffer>,
    texture: &Texture,
    corner: Corner,
    cx: nat,
    y: nat,
    z: nat,
) -> Seq<u8> {
    pool[texture.spec_buffer().unwrap() as int].bytes.subrange(
        spec_row_place(texture, corner, y, z) as int,
        (spec_row_place(texture, corner, y, z) + cx * texture.spec_layout().block_size) as int,
    )
}

/// The bytes that stand for row `y` of plane `z` in a string of rows of
/// `len` bytes each, `cy` rows to a plane.
pub open spec fn spec_kept_row(rows: Seq<u8>, len: nat, cy: nat, y: nat, z: nat) -> Seq<u8> {
    rows.subrange(((z * cy + y) * len) as int, ((z * cy + y) * len + len) as int)
}

/// Whether row `y` of plane `z` comes before row `than_y` of plane
/// `than_z`.
pub open spec fn spec_row_before(y: nat, z: nat, than_y: nat, than_z: nat) -> bool {
    z < than_z || (z == than_z && y < than_y)
}

impl Texture {
    /// The number in the pool of the buffer that the texture holds; the
    /// empty texture holds none.
    pub closed spec fn spec_buffer(&self) -> Option<usize> {
        self.buffer
    }

    /// The geometry of the buffer that the texture holds.
    pub closed spec fn spec_layout(&self) -> Layout {
        self.layout
    }

    /// What the texture shows of its buffer.
    pub closed spec fn spec_descriptor(&self) -> Descriptor {
        self.desc
    }

    /// A texture is well formed when it is empty and described as such, or
    /// holds a buffer with a well-formed layout that its descriptor lies
    /// within. Its target is the kind that it is seen as. A texture that is
    /// made or derived has a target that admits its shape; one that was
    /// read from a container and is seen as another kind need not.
    pub open spec fn wf(&self) -> bool {
        match self.spec_buffer() {
            None => self.spec_layout() == spec_no_layout() && self.spec_descriptor()
                == spec_no_descriptor(self.spec_descriptor().target),
            Some(_) => self.spec_layout().wf() && spec_within(
                self.spec_descriptor(),
                self.spec_layout(),
            ),
        }
    }

    #[verifier::type_invariant]
    spec fn inv(&self) -> bool {
        self.wf()
    }

    pub open spec fn spec_empty(&self) -> bool {
        self.spec_buffer().is_none()
    }

    pub open spec fn spec_layers(&self) -> nat {
        if self.spec_empty() {
            0
        } else {
            (self.spec_descriptor().max_layer - self.spec_descriptor().base_layer + 1) as nat
        }
    }

    pub open spec fn spec_faces(&self) -> nat {
        if self.spec_empty() {
            0
        } else {
            (self.spec_descriptor().max_face - self.spec_descriptor().base_face + 1) as nat
        }
    }

    pub open spec fn spec_levels(&self) -> nat {
        if self.spec_empty() {
            0
        } else {
            (self.spec_descriptor().max_level - self.spec_descriptor().base_level + 1) as nat
        }
    }

    /// Whether the texture shows the image of its buffer at the given place,
    /// counted in the buffer.
    pub open spec fn spec_shows_place(&self, layer: nat, face: nat, level: nat) -> bool {
        &&& !self.spec_empty()
        &&& self.spec_descriptor().base_layer <= layer <= self.spec_descriptor().max_layer
        &&& self.spec_descriptor().base_face <= face <= self.spec_descriptor().max_face
        &&& self.spec_descriptor().base_level <= level <= self.spec_descriptor().max_level
    }

    /// Whether the texture shows the image at the given place, counted from
    /// the bases of its ranges.
    pub open spec fn spec_shows(&self, layer: nat, face: nat, level: nat) -> bool {
        layer < self.spec_layers() && face < self.spec_faces() && level < self.spec_levels()
    }

    /// The size in texels of a mip level of the texture, counted from its
    /// base level. A level that the texture does not show has no extent.
    pub open spec fn spec_extent(&self, level: nat) -> Extent3d {
        if level < self.spec_levels() {
            self.spec_layout().spec_level_extent((self.spec_descriptor().base_level + level) as nat)
        } else {
            Extent3d { width: 0, height: 0, depth: 0 }
        }
    }

    /// The size in bytes of one image of a mip level of the texture, counted
    /// from its base level. A level that the texture does not show has
    /// size 0.
    pub open spec fn spec_size_at_level(&self, level: nat) -> nat {
        if level < self.spec_levels() {
            self.spec_layout().spec_level_size((self.spec_descriptor().base_level + level) as nat)
        } else {
            0
        }
    }

    /// The size in bytes of all the images that the texture shows.
    pub open spec fn spec_size(&self) -> nat {
        if self.spec_empty() {
            0
        } else {
            self.spec_layout().spec_levels_size(
                self.spec_descriptor().base_level as nat,
                (self.spec_descriptor().max_level + 1) as nat,
            ) * self.spec_faces() * self.spec_layers()
        }
    }

    /// The place in the buffer of the first byte that the texture shows.
    pub open spec fn spec_base_offset(&self) -> nat {
        self.spec_layout().spec_offset(
            self.spec_descriptor().base_layer as nat,
            self.spec_descriptor().base_face as nat,
            self.spec_descriptor().base_level as nat,
        )
    }

    /// The place in the buffer of the first byte of an image of the
    /// texture, counted from the bases of its ranges.
    pub open spec fn spec_image_offset(&self, layer: nat, face: nat, level: nat) -> nat {
        self.spec_layout().spec_offset(
            (self.spec_descriptor().base_layer + layer) as nat,
            (self.spec_descriptor().base_face + face) as nat,
            (self.spec_descriptor().base_level + level) as nat,
        )
    }

    /// Whether the pool holds the buffer of the texture, with the size that
    /// the texture's layout gives it. This is so wherever the texture is
    /// used with the pool that it was made in, before its release.
    pub open spec fn spec_held_by(&self, pool: Seq<Buffer>) -> bool {
        match self.spec_buffer() {
            None => false,
            Some(id) => spec_live(pool, id as int) && pool[id as int].bytes.len()
                == self.spec_layout().spec_size(),
        }
    }

    /// The bytes that the texture shows of an image, counted from the bases
    /// of its ranges.
    pub open spec fn spec_image_bytes(
        &self,
        pool: Seq<Buffer>,
        layer: nat,
        face: nat,
        level: nat,
    ) -> Seq<u8> {
        pool[self.spec_buffer().unwrap() as int].bytes.subrange(
            self.spec_image_offset(layer, face, level) as int,
            (self.spec_image_offset(layer, face, level) + self.spec_size_at_level(level)) as int,
        )
    }

    /// Every image that a well-formed texture shows lies inside its buffer.
    pub proof fn lemma_shown_in_bounds(&self, layer: nat, face: nat, level: nat)
        requires
            self.wf(),
            self.spec_shows(layer, face, level),
        ensures
            self.spec_image_offset(layer, face, level) + self.spec_size_at_level(level)
                <= self.spec_layout().spec_size(),
            self.spec_size_at_level(level) >= 1,
    {
        let d = self.spec_descriptor();
        self.spec_layout().lemma_image_in_bounds(
            (d.base_layer + layer) as nat,
            (d.base_face + face) as nat,
            (d.base_level + level) as nat,
        );
        self.spec_layout().lemma_level_size_positive((d.base_level + level) as nat);
    }

    /// The run of bytes that a well-formed texture claims lies inside its
    /// buffer.
    pub proof fn lemma_claim_in_bounds(&self)
        requires
            self.wf(),
            !self.spec_empty(),
        ensures
            self.spec_base_offset() + self.spec_size() <= self.spec_layout().spec_size(),
    {
        let d = self.spec_descriptor();
        self.spec_layout().lemma_range_in_bounds(
            d.base_layer as nat,
            d.max_layer as nat,
            d.base_face as nat,
            d.max_face as nat,
            d.base_level as nat,
            d.max_level as nat,
        );
    }

    /// The empty texture of a target.
    pub fn new_empty(target: Target) -> (t: Texture)
        ensures
            t.wf(),
            t.spec_empty(),
            t.spec_descriptor() == spec_no_descriptor(target),
    {
        Texture {
            buffer: None,
            layout: Layout {
                block_size: 0,
                block_extent: Extent3d { width: 0, height: 0, depth: 0 },
                extent: Extent3d { width: 0, height: 0, depth: 0 },
                layers: 0,
                faces: 0,
                levels: 0,
            },
            desc: Descriptor {
                format: Format(Format::UNDEFINED),
                target,
                base_layer: 0,
                max_layer: 0,
                base_face: 0,
                max_face: 0,
                base_level: 0,
                max_level: 0,
                swizzles: identity_swizzles(),
            },
        }
    }

    /// The layout of a texture of the given target, format, extent and
    /// counts, if such a texture can be made.
    pub fn plan(
        target: Target,
        format: Format,
        extent: Extent3d,
        layers: usize,
        faces: usize,
        levels: usize,
    ) -> (r: Option<Layout>)
        ensures
            r.is_some() == spec_constructible(target, format, extent, layers, faces, levels),
            r matches Some(l) ==> l == Layout::spec_of(format, extent, layers, faces, levels),
    {
        if !target.admits(layers, faces, extent.height, extent.depth) {
            return None;
        }
        Layout::new(format, extent, layers, faces, levels)
    }

    /// Makes a texture that shows the whole of a new buffer with the given
    /// bytes. The result is empty, and the pool is left as it is, unless a
    /// texture of this target, format, extent and counts can be made and
    /// `bytes` has its size.
    pub fn from_bytes(
        pool: &mut Pool,
        target: Target,
        format: Format,
        extent: Extent3d,
        layers: usize,
        faces: usize,
        levels: usize,
        bytes: Vec<u8>,
    ) -> (t: Texture)
        ensures
            t.wf(),
            t.spec_descriptor().target == target,
            !t.spec_empty() <==> spec_constructible(target, format, extent, layers, faces, levels)
                && bytes@.len() == Layout::spec_of(
                format,
                extent,
                layers,
                faces,
                levels,
            ).spec_size(),
            t.spec_empty() ==> final(pool)@ == old(pool)@,
            !t.spec_empty() ==> {
                &&& t.spec_buffer() == Some(old(pool)@.len() as usize)
                &&& t.spec_layout() == Layout::spec_of(format, extent, layers, faces, levels)
                &&& t.spec_descriptor() == spec_whole_descriptor(target, format, t.spec_layout())
                &&& final(pool)@ == old(pool)@.push(Buffer { holders: 1, bytes: bytes@ })
                &&& t.spec_held_by(final(pool)@)
            },
    {
        let layout = match Texture::plan(target, format, extent, layers, faces, levels) {
            Some(layout) => layout,
            None => {
                return Texture::new_empty(target);
            },
        };
        proof {
            layout.lemma_face_bounds_size();
        }
        let size = layout.levels_size(0, levels) * faces * layers;
        if bytes.len() != size {
            return Texture::new_empty(target);
        }
        let id = pool.adopt(bytes);
        proof {
            vstd::arithmetic::power2::lemma2_to64();
            crate::layout::lemma_mip_bounds(extent.height as nat, 0);
            crate::layout::lemma_mip_bounds(extent.depth as nat, 0);
        }
        Texture {
            buffer: Some(id),
            layout,
            desc: Descriptor {
                format,
                target,
                base_layer: 0,
                max_layer: layers - 1,
                base_face: 0,
                max_face: faces - 1,
                base_level: 0,
                max_level: levels - 1,
                swizzles: identity_swizzles(),
            },
        }
    }

    /// Makes a texture that shows the whole of a new buffer of zero bytes.
    /// The result is empty, and the pool is left as it is, if no texture of
    /// this target, format, extent and counts can be made, or if the memory
    /// for the buffer cannot be had.
    pub fn new(
        pool: &mut Pool,
        target: Target,
        format: Format,
        extent: Extent3d,
        layers: usize,
        faces: usize,
        levels: usize,
    ) -> (t: Texture)
        ensures
            spec_made(&t, old(pool)@, final(pool)@, target, format, extent, layers, faces, levels),
    {
        let layout = match Texture::plan(target, format, extent, layers, faces, levels) {
            Some(layout) => layout,
            None => {
                return Texture::new_empty(target);
            },
        };
        proof {
            layout.lemma_face_bounds_size();
        }
        let size = layout.levels_size(0, levels) * faces * layers;
        match crate::storage::zeroed(size) {
            Some(bytes) => Texture::from_bytes(
                pool,
                target,
                format,
                extent,
                layers,
                faces,
                levels,
                bytes,
            ),
            None => Texture::new_empty(target),
        }
    }

    /// Return whether the texture instance is empty, no storage or
    /// description have been assigned to the instance.
    pub fn empty(&self) -> (r: bool)
        ensures
            r == self.spec_empty(),
    {
        self.buffer.is_none()
    }

    /// Return the texture instance format.
    pub fn format(&self) -> (r: Format)
        ensures
            r == self.spec_descriptor().format,
    {
        self.desc.format
    }

    /// Return the target of a texture instance.
    pub fn target(&self) -> (r: Target)
        ensures
            r == self.spec_descriptor().target,
    {
        self.desc.target
    }

    /// The sources of the four channels.
    pub fn swizzles(&self) -> (r: Swizzles)
        ensures
            r == self.spec_descriptor().swizzles,
    {
        self.desc.swizzles
    }

    /// Set the sources of the four channels. Nothing else changes. The
    /// empty texture keeps the swizzles that it has.
    pub fn set_swizzles(&mut self, swizzles: Swizzles)
        ensures
            final(self).wf(),
            final(self).spec_buffer() == old(self).spec_buffer(),
            final(self).spec_layout() == old(self).spec_layout(),
            final(self).spec_descriptor() == if old(self).spec_empty() {
                old(self).spec_descriptor()
            } else {
                (Descriptor { swizzles, ..old(self).spec_descriptor() })
            },
        no_unwind
    {
        proof {
            use_type_invariant(&*self);
        }
        match self.buffer {
            Some(_) => {
                self.desc.swizzles = swizzles;
            },
            None => {},
        }
    }

    /// Return the base face of the texture instance, effectively a memory
    /// offset in the actual texture storage to identify where to start
    /// reading the faces.
    pub fn base_face(&self) -> (r: usize)
        ensures
            r == self.spec_descriptor().base_face,
    {
        self.desc.base_face
    }

    /// Return the base layer of the texture instance, effectively a memory
    /// offset in the actual texture storage to identify where to start
    /// reading the layers.
    pub fn base_layer(&self) -> (r: usize)
        ensures
            r == self.spec_descriptor().base_layer,
    {
        self.desc.base_layer
    }

    /// Return the base level of the texture instance, effectively a memory
    /// offset in the actual texture storage to identify where to start
    /// reading the levels.
    pub fn base_level(&self) -> (r: usize)
        ensures
            r == self.spec_descriptor().base_level,
    {
        self.desc.base_level
    }

    /// Return the max face of the texture instance, effectively a memory
    /// offset to the beginning of the last face in the actual texture
    /// storage that the texture instance can access.
    pub fn max_face(&self) -> (r: usize)
        ensures
            r == self.spec_descriptor().max_face,
    {
        self.desc.max_face
    }

    /// Return the max layer of the texture instance, effectively a memory
    /// offset to the beginning of the last layer in the actual texture
    /// storage that the texture instance can access.
    pub fn max_layer(&self) -> (r: usize)
        ensures
            r == self.spec_descriptor().max_layer,
    {
        self.desc.max_layer
    }

    /// Return the max level of the texture instance, effectively a memory
    /// offset to the beginning of the last level in the actual texture
    /// storage that the texture instance can access.
    pub fn max_level(&self) -> (r: usize)
        ensures
            r == self.spec_descriptor().max_level,
    {
        self.desc.max_level
    }

    /// Return max_face() - base_face() + 1; 0 for the empty texture.
    pub fn faces(&self) -> (r: usize)
        ensures
            r == self.spec_faces(),
    {
        proof {
            use_type_invariant(self);
        }
        if self.buffer.is_none() {
            0
        } else {
            self.desc.max_face - self.desc.base_face + 1
        }
    }

    /// Return max_layer() - base_layer() + 1; 0 for the empty texture.
    pub fn layers(&self) -> (r: usize)
        ensures
            r == self.spec_layers(),
    {
        proof {
            use_type_invariant(self);
        }
        if self.buffer.is_none() {
            0
        } else {
            self.desc.max_layer - self.desc.base_layer + 1
        }
    }

    /// Return max_level() - base_level() + 1; 0 for the empty texture.
    pub fn levels(&self) -> (r: usize)
        ensures
            r == self.spec_levels(),
    {
        proof {
            use_type_invariant(self);
        }
        if self.buffer.is_none() {
            0
        } else {
            self.desc.max_level - self.desc.base_level + 1
        }
    }

    /// Return the size of a mip level of the texture: width, height and
    /// depth.
    pub fn extent(&self, level: usize) -> (r: Extent3d)
        ensures
            r == self.spec_extent(level as nat),
    {
        proof {
            use_type_invariant(self);
        }
        if level < self.levels() {
            self.layout.level_extent(self.desc.base_level + level)
        } else {
            Extent3d { width: 0, height: 0, depth: 0 }
        }
    }

    /// Return the memory size of a texture instance storage in bytes.
    pub fn size(&self) -> (r: usize)
        ensures
            r == self.spec_size(),
    {
        proof {
            use_type_invariant(self);
        }
        if self.buffer.is_none() {
            return 0;
        }
        proof {
            self.lemma_claim_in_bounds();
            let run = self.layout.spec_levels_size(
                self.desc.base_level as nat,
                (self.desc.max_level + 1) as nat,
            );
            let nf = self.spec_faces();
            let nl = self.spec_layers();
            assert(run * nf <= run * nf * nl) by (nonlinear_arith)
                requires
                    nl >= 1,
            ;
        }
        let run = self.layout.levels_size(self.desc.base_level, self.desc.max_level + 1);
        run * self.faces() * self.layers()
    }

    /// Return the memory size of a specific level identified by Level.
    pub fn size_at_level(&self, level: usize) -> (r: usize)
        ensures
            r == self.spec_size_at_level(level as nat),
    {
        proof {
            use_type_invariant(self);
        }
        if level < self.levels() {
            self.layout.level_size(self.desc.base_level + level)
        } else {
            0
        }
    }

    /// The place in the buffer of the first byte of an image of the
    /// texture, if the texture shows it.
    pub fn image_offset(&self, layer: usize, face: usize, level: usize) -> (r: Option<usize>)
        ensures
            self.wf(),
            r.is_some() == self.spec_shows(layer as nat, face as nat, level as nat),
            r matches Some(offset) ==> offset == self.spec_image_offset(
                layer as nat,
                face as nat,
                level as nat,
            ) && offset + self.spec_size_at_level(level as nat)
                <= self.spec_layout().spec_size(),
    {
        proof {
            use_type_invariant(self);
        }
        if layer < self.layers() && face < self.faces() && level < self.levels() {
            Some(
                self.layout.offset(
                    self.desc.base_layer + layer,
                    self.desc.base_face + face,
                    self.desc.base_level + level,
                ),
            )
        } else {
            None
        }
    }

    /// Whether the pool holds the buffer of the texture, with the size that
    /// the texture's layout gives it.
    pub fn held_by(&self, pool: &Pool) -> (r: bool)
        ensures
            r == self.spec_held_by(pool@),
            self.wf(),
    {
        proof {
            use_type_invariant(self);
        }
        match self.buffer {
            None => false,
            Some(id) => {
                proof {
                    self.layout.lemma_face_bounds_size();
                }
                let total = self.layout.levels_size(0, self.layout.levels) * self.layout.faces
                    * self.layout.layers;
                match pool.size(id) {
                    Some(size) => size == total,
                    None => false,
                }
            },
        }
    }

    /// Whether a view with the given descriptor can be derived from
    /// `source`: the source is not empty and the pool holds its buffer, the
    /// count of the buffer's holders is below its limit, each range of the
    /// view is in order and lies inside the source's range, and the
    /// descriptor fits the buffer. To fit, the view's format must have
    /// blocks of the size of the buffer's blocks.
    pub open spec fn spec_can_derive(source: &Texture, pool: Seq<Buffer>, desc: Descriptor) -> bool {
        &&& source.spec_held_by(pool)
        &&& pool[source.spec_buffer().unwrap() as int].holders < usize::MAX
        &&& source.spec_descriptor().base_layer <= desc.base_layer
        &&& desc.max_layer <= source.spec_descriptor().max_layer
        &&& source.spec_descriptor().base_face <= desc.base_face
        &&& desc.max_face <= source.spec_descriptor().max_face
        &&& source.spec_descriptor().base_level <= desc.base_level
        &&& desc.max_level <= source.spec_descriptor().max_level
        &&& spec_fits(desc, source.spec_layout())
    }

    /// Derives a view with the given descriptor from `source`, and counts it
    /// as one more holder of the buffer. Fails, and changes nothing, unless
    /// such a view can be derived.
    pub fn derive(pool: &mut Pool, source: &Texture, desc: Descriptor) -> (r: Result<
        Texture,
        Error,
    >)
        ensures
            r.is_ok() == Texture::spec_can_derive(source, old(pool)@, desc),
            r matches Ok(t) ==> spec_derived(&t, source, old(pool)@, final(pool)@, desc),
            r matches Err(e) ==> e.spec_is_bug() && final(pool)@ == old(pool)@,
    {
        proof {
            use_type_invariant(source);
        }
        let id = match source.buffer {
            Some(id) => id,
            None => {
                return Err(Error::bug("a view cannot be derived from the empty texture"));
            },
        };
        if !source.held_by(pool) {
            return Err(Error::bug("the pool does not hold the buffer of the texture"));
        }
        if !desc.format.is_valid() || desc.format.block_size() != source.layout.block_size {
            return Err(
                Error::bug("the block size of the format differs from that of the texture"),
            );
        }
        if !(source.desc.base_layer <= desc.base_layer && desc.base_layer <= desc.max_layer
            && desc.max_layer <= source.desc.max_layer) {
            return Err(Error::bug("the layers are not a range inside the texture"));
        }
        if !(source.desc.base_face <= desc.base_face && desc.base_face <= desc.max_face
            && desc.max_face <= source.desc.max_face) {
            return Err(Error::bug("the faces are not a range inside the texture"));
        }
        if !(source.desc.base_level <= desc.base_level && desc.base_level <= desc.max_level
            && desc.max_level <= source.desc.max_level) {
            return Err(Error::bug("the levels are not a range inside the texture"));
        }
        let extent = source.layout.level_extent(desc.base_level);
        if !desc.target.admits(
            desc.max_layer - desc.base_layer + 1,
            desc.max_face - desc.base_face + 1,
            extent.height,
            extent.depth,
        ) {
            return Err(Error::bug("the target does not admit the shape of the view"));
        }
        if !pool.acquire(id) {
            return Err(Error::bug("the buffer has too many holders"));
        }
        Ok(Texture { buffer: Some(id), layout: source.layout, desc })
    }

    /// Create a view of the given target over the storage of `source`, with
    /// the ranges and the format of `source`. The view of an empty texture
    /// is empty.
    pub fn share_from(pool: &mut Pool, source: &Texture, target: Target) -> (r: Result<
        Texture,
        Error,
    >)
        ensures
            r.is_ok() == (source.spec_empty() || Texture::spec_can_derive(
                source,
                old(pool)@,
                (Descriptor { target, ..source.spec_descriptor() }),
            )),
            r matches Ok(t) ==> if source.spec_empty() {
                t.wf() && t.spec_empty() && t.spec_descriptor() == spec_no_descriptor(target)
                    && final(pool)@ == old(pool)@
            } else {
                spec_derived(
                    &t,
                    source,
                    old(pool)@,
                    final(pool)@,
                    (Descriptor { target, ..source.spec_descriptor() }),
                )
            },
            r matches Err(e) ==> e.spec_is_bug() && final(pool)@ == old(pool)@,
    {
        proof {
            use_type_invariant(source);
        }
        if source.buffer.is_none() {
            return Ok(Texture::new_empty(target));
        }
        Texture::derive(
            pool,
            source,
            Descriptor {
                format: source.desc.format,
                target,
                base_layer: source.desc.base_layer,
                max_layer: source.desc.max_layer,
                base_face: source.desc.base_face,
                max_face: source.desc.max_face,
                base_level: source.desc.base_level,
                max_level: source.desc.max_level,
                swizzles: source.desc.swizzles,
            },
        )
    }

    /// Create a view of the given target over the storage of `source`, with
    /// another format and with narrower ranges. The ranges are counted in
    /// the buffer, as the bases and maxima of `source` are. For formats to be
    /// compatible, the block size of source and destination must match.
    pub fn share_from_detail(
        pool: &mut Pool,
        source: &Texture,
        target: Target,
        format: Format,
        base_layer: usize,
        max_layer: usize,
        base_face: usize,
        max_face: usize,
        base_level: usize,
        max_level: usize,
    ) -> (r: Result<Texture, Error>)
        ensures
            r.is_ok() == Texture::spec_can_derive(
                source,
                old(pool)@,
                spec_detail_descriptor(
                    source,
                    target,
                    format,
                    base_layer,
                    max_layer,
                    base_face,
                    max_face,
                    base_level,
                    max_level,
                ),
            ),
            r matches Ok(t) ==> spec_derived(
                &t,
                source,
                old(pool)@,
                final(pool)@,
                spec_detail_descriptor(
                    source,
                    target,
                    format,
                    base_layer,
                    max_layer,
                    base_face,
                    max_face,
                    base_level,
                    max_level,
                ),
            ),
            r matches Err(e) ==> e.spec_is_bug() && final(pool)@ == old(pool)@,
    {
        Texture::derive(
            pool,
            source,
            Descriptor {
                format,
                target,
                base_layer,
                max_layer,
                base_face,
                max_face,
                base_level,
                max_level,
                swizzles: source.desc.swizzles,
            },
        )
    }

    /// The descriptor of the part of `source` that the given ranges cut out,
    /// the ranges counted from the bases of `source`.
    pub open spec fn spec_subset_descriptor(
        source: &Texture,
        target: Target,
        base_layer: usize,
        max_layer: usize,
        base_face: usize,
        max_face: usize,
        base_level: usize,
        max_level: usize,
    ) -> Descriptor {
        Descriptor {
            format: source.spec_descriptor().format,
            target,
            base_layer: (source.spec_descriptor().base_layer + base_layer) as usize,
            max_layer: (source.spec_descriptor().base_layer + max_layer) as usize,
            base_face: (source.spec_descriptor().base_face + base_face) as usize,
            max_face: (source.spec_descriptor().base_face + max_face) as usize,
            base_level: (source.spec_descriptor().base_level + base_level) as usize,
            max_level: (source.spec_descriptor().base_level + max_level) as usize,
            swizzles: source.spec_descriptor().swizzles,
        }
    }

    /// Whether the part of `source` that the given ranges cut out can be
    /// shown by a view of its own: each range, counted from the bases of
    /// `source`, is in order and inside what `source` shows, and the view
    /// can be derived.
    pub open spec fn spec_can_subset(
        source: &Texture,
        pool: Seq<Buffer>,
        target: Target,
        base_layer: usize,
        max_layer: usize,
        base_face: usize,
        max_face: usize,
        base_level: usize,
        max_level: usize,
    ) -> bool {
        &&& base_layer <= max_layer < source.spec_layers()
        &&& base_face <= max_face < source.spec_faces()
        &&& base_level <= max_level < source.spec_levels()
        &&& Texture::spec_can_derive(
            source,
            pool,
            Texture::spec_subset_descriptor(
                source,
                target,
                base_layer,
                max_layer,
                base_face,
                max_face,
                base_level,
                max_level,
            ),
        )
    }

    /// Create a view of the given target that references a subset of
    /// `source`. The ranges are counted from the bases of `source`: layer 0
    /// is the first layer that `source` shows. Fails, and changes nothing,
    /// unless each range is in order and inside what `source` shows, and
    /// the view can be derived.
    pub fn share_from_subset(
        pool: &mut Pool,
        source: &Texture,
        target: Target,
        base_layer: usize,
        max_layer: usize,
        base_face: usize,
        max_face: usize,
        base_level: usize,
        max_level: usize,
    ) -> (r: Result<Texture, Error>)
        ensures
            r.is_ok() == Texture::spec_can_subset(
                source,
                old(pool)@,
                target,
                base_layer,
                max_layer,
                base_face,
                max_face,
                base_level,
                max_level,
            ),
            r matches Ok(t) ==> spec_derived(
                &t,
                source,
                old(pool)@,
                final(pool)@,
                Texture::spec_subset_descriptor(
                    source,
                    target,
                    base_layer,
                    max_layer,
                    base_face,
                    max_face,
                    base_level,
                    max_level,
                ),
            ),
            r matches Err(e) ==> e.spec_is_bug() && final(pool)@ == old(pool)@,
    {
        proof {
            use_type_invariant(source);
        }
        if !(base_layer <= max_layer && max_layer < source.layers() && base_face <= max_face
            && max_face < source.faces() && base_level <= max_level && max_level
            < source.levels()) {
            return Err(Error::bug("the ranges are not inside the texture"));
        }
        Texture::derive(
            pool,
            source,
            Descriptor {
                format: source.desc.format,
                target,
                base_layer: source.desc.base_layer + base_layer,
                max_layer: source.desc.base_layer + max_layer,
                base_face: source.desc.base_face + base_face,
                max_face: source.desc.base_face + max_face,
                base_level: source.desc.base_level + base_level,
                max_level: source.desc.base_level + max_level,
                swizzles: source.desc.swizzles,
            },
        )
    }

    /// Ends the view: the texture lets go of its buffer, and the bytes are
    /// freed if it was the last holder. Fails, and changes nothing, if the
    /// pool has no live buffer of the texture's. The empty texture holds
    /// nothing and ends without a change.
    pub fn release(self, pool: &mut Pool) -> (r: Result<(), Error>)
        ensures
            r.is_ok() == (self.spec_empty() || spec_live(
                old(pool)@,
                self.spec_buffer().unwrap() as int,
            )),
            self.spec_empty() ==> final(pool)@ == old(pool)@,
            !self.spec_empty() ==> final(pool)@ == spec_release(
                old(pool)@,
                self.spec_buffer().unwrap() as int,
            ),
            r matches Err(e) ==> e.spec_is_bug() && final(pool)@ == old(pool)@,
    {
        match self.buffer {
            None => Ok(()),
            Some(id) => {
                if pool.release(id) {
                    Ok(())
                } else {
                    Err(Error::bug("the pool does not hold the buffer of the texture"))
                }
            },
        }
    }

    /// Clear the entire texture storage with zeros: the bytes from the first
    /// that the texture shows on, as many as its size. For a texture that
    /// shows the whole of its buffer these are the bytes of its images. For
    /// a narrower view with more than one face or layer they are not: the
    /// run then ends before the last image of the view and covers bytes
    /// between its images that the view does not show. Fails, and changes
    /// nothing, unless the pool holds the buffer of the texture.
    pub fn clear(&self, pool: &mut Pool) -> (r: Result<(), Error>)
        ensures
            r.is_ok() == self.spec_held_by(old(pool)@),
            r.is_ok() ==> final(pool)@ == crate::storage::spec_with_bytes(
                old(pool)@,
                self.spec_buffer().unwrap() as int,
                crate::storage::spec_fill(
                    old(pool)@[self.spec_buffer().unwrap() as int].bytes,
                    self.spec_base_offset() as int,
                    self.spec_size() as int,
                    0u8,
                ),
            ),
            r matches Err(e) ==> e.spec_is_bug() && final(pool)@ == old(pool)@,
    {
        proof {
            use_type_invariant(self);
        }
        if !self.held_by(pool) {
            return Err(Error::bug("the pool does not hold the buffer of the texture"));
        }
        let id = self.buffer.unwrap();
        proof {
            self.lemma_claim_in_bounds();
            self.layout.lemma_image_in_bounds(
                self.desc.base_layer as nat,
                self.desc.base_face as nat,
                self.desc.base_level as nat,
            );
        }
        let start = self.layout.offset(
            self.desc.base_layer,
            self.desc.base_face,
            self.desc.base_level,
        );
        let size = self.size();
        let done = pool.fill(id, start, size, 0u8);
        assert(done);
        Ok(())
    }

    /// The bytes from the first that the texture shows on, as many as its
    /// size. Fails unless the pool holds the buffer of the texture.
    pub fn data<'a>(&self, pool: &'a Pool) -> (r: Result<&'a [u8], Error>)
        ensures
            r.is_ok() == self.spec_held_by(pool@),
            r matches Ok(bytes) ==> bytes@ == pool@[self.spec_buffer().unwrap() as int].bytes.subrange(
                self.spec_base_offset() as int,
                (self.spec_base_offset() + self.spec_size()) as int,
            ),
            r matches Err(e) ==> e.spec_is_bug(),
    {
        proof {
            use_type_invariant(self);
        }
        if !self.held_by(pool) {
            return Err(Error::bug("the pool does not hold the buffer of the texture"));
        }
        let id = self.buffer.unwrap();
        proof {
            self.lemma_claim_in_bounds();
            self.layout.lemma_image_in_bounds(
                self.desc.base_layer as nat,
                self.desc.base_face as nat,
                self.desc.base_level as nat,
            );
        }
        let start = self.layout.offset(
            self.desc.base_layer,
            self.desc.base_face,
            self.desc.base_level,
        );
        let size = self.size();
        match pool.span(id, start, size) {
            Some(bytes) => Ok(bytes),
            None => Err(Error::bug("the pool does not hold the buffer of the texture")),
        }
    }

    /// Puts `bytes` in place of bytes that the texture claims: those from
    /// the place `offset` on, counted from the first byte that the texture
    /// shows. Every other byte is as it was. Fails, and changes nothing,
    /// unless the pool holds the buffer of the texture and the bytes lie
    /// inside the run of bytes that the texture claims, which `data` gives.
    pub fn store(&self, pool: &mut Pool, offset: usize, bytes: &[u8]) -> (r: Result<(), Error>)
        ensures
            r.is_ok() == (self.spec_held_by(old(pool)@) && offset + bytes@.len()
                <= self.spec_size()),
            r.is_ok() ==> final(pool)@ == crate::storage::spec_with_bytes(
                old(pool)@,
                self.spec_buffer().unwrap() as int,
                crate::storage::spec_write(
                    old(pool)@[self.spec_buffer().unwrap() as int].bytes,
                    self.spec_base_offset() + offset,
                    bytes@,
                ),
            ),
            r matches Err(e) ==> e.spec_is_bug() && final(pool)@ == old(pool)@,
    {
        proof {
            use_type_invariant(self);
        }
        if !self.held_by(pool) {
            return Err(Error::bug("the pool does not hold the buffer of the texture"));
        }
        let size = self.size();
        if offset > size || bytes.len() > size - offset {
            return Err(Error::bug("the bytes do not lie inside the texture"));
        }
        let id = self.buffer.unwrap();
        proof {
            self.lemma_claim_in_bounds();
            self.layout.lemma_image_in_bounds(
                self.desc.base_layer as nat,
                self.desc.base_face as nat,
                self.desc.base_level as nat,
            );
        }
        let start = self.layout.offset(
            self.desc.base_layer,
            self.desc.base_face,
            self.desc.base_level,
        );
        let done = pool.write(id, start + offset, bytes);
        assert(done);
        Ok(())
    }

    /// The bytes of one image of the texture. Fails unless the texture
    /// shows the image and the pool holds the buffer of the texture.
    pub fn image_data<'a>(&self, pool: &'a Pool, layer: usize, face: usize, level: usize) -> (r:
        Result<&'a [u8], Error>)
        ensures
            r.is_ok() == (self.spec_held_by(pool@) && self.spec_shows(
                layer as nat,
                face as nat,
                level as nat,
            )),
            r matches Ok(bytes) ==> bytes@ == self.spec_image_bytes(
                pool@,
                layer as nat,
                face as nat,
                level as nat,
            ),
            r matches Err(e) ==> e.spec_is_bug(),
    {
        if !self.held_by(pool) {
            return Err(Error::bug("the pool does not hold the buffer of the texture"));
        }
        let start = match self.image_offset(layer, face, level) {
            Some(start) => start,
            None => {
                return Err(Error::bug("the texture does not show the image"));
            },
        };
        let size = self.size_at_level(level);
        match pool.span(self.buffer.unwrap(), start, size) {
            Some(bytes) => Ok(bytes),
            None => Err(Error::bug("the pool does not hold the buffer of the texture")),
        }
    }

    /// Whether an image of `source` can be copied over an image of this
    /// texture: the pool holds the buffers of both, each texture shows its
    /// image, and the two images have the same size in bytes.
    pub open spec fn spec_can_copy(
        &self,
        pool: Seq<Buffer>,
        source: &Texture,
        src_layer: nat,
        src_face: nat,
        src_level: nat,
        dst_layer: nat,
        dst_face: nat,
        dst_level: nat,
    ) -> bool {
        &&& self.spec_held_by(pool)
        &&& source.spec_held_by(pool)
        &&& self.spec_shows(dst_layer, dst_face, dst_level)
        &&& source.spec_shows(src_layer, src_face, src_level)
        &&& self.spec_size_at_level(dst_level) == source.spec_size_at_level(src_level)
    }

    /// Copy a specific image of a texture: afterwards the image of this
    /// texture holds the bytes that the image of `source` held before, and
    /// every other byte is as it was. No format is converted. Fails, and
    /// changes nothing, unless the image can be copied.
    pub fn copy(
        &self,
        pool: &mut Pool,
        source: &Texture,
        src_layer: usize,
        src_face: usize,
        src_level: usize,
        dst_layer: usize,
        dst_face: usize,
        dst_level: usize,
    ) -> (r: Result<(), Error>)
        ensures
            r.is_ok() == self.spec_can_copy(
                old(pool)@,
                source,
                src_layer as nat,
                src_face as nat,
                src_level as nat,
                dst_layer as nat,
                dst_face as nat,
                dst_level as nat,
            ),
            r.is_ok() ==> final(pool)@ == crate::storage::spec_with_bytes(
                old(pool)@,
                self.spec_buffer().unwrap() as int,
                crate::storage::spec_write(
                    old(pool)@[self.spec_buffer().unwrap() as int].bytes,
                    self.spec_image_offset(dst_layer as nat, dst_face as nat, dst_level as nat)
                        as int,
                    source.spec_image_bytes(
                        old(pool)@,
                        src_layer as nat,
                        src_face as nat,
                        src_level as nat,
                    ),
                ),
            ),
            r matches Err(e) ==> e.spec_is_bug() && final(pool)@ == old(pool)@,
    {
        if !self.held_by(pool) || !source.held_by(pool) {
            return Err(Error::bug("the pool does not hold the buffer of the texture"));
        }
        let from = match source.image_offset(src_layer, src_face, src_level) {
            Some(from) => from,
            None => {
                return Err(Error::bug("the source does not show the image"));
            },
        };
        let to = match self.image_offset(dst_layer, dst_face, dst_level) {
            Some(to) => to,
            None => {
                return Err(Error::bug("the texture does not show the image"));
            },
        };
        let size = source.size_at_level(src_level);
        if self.size_at_level(dst_level) != size {
            return Err(Error::bug("the two images differ in size"));
        }
        let bytes = match pool.read(source.buffer.unwrap(), from, size) {
            Some(bytes) => bytes,
            None => {
                return Err(Error::bug("the pool does not hold the buffer of the texture"));
            },
        };
        let done = pool.write(self.buffer.unwrap(), to, bytes.as_slice());
        assert(done);
        Ok(())
    }

    /// The geometry of the buffer that the texture holds.
    pub fn layout(&self) -> (r: Layout)
        ensures
            r == self.spec_layout(),
            self.wf(),
    {
        proof {
            use_type_invariant(self);
        }
        self.layout
    }

    /// The number in the pool of the buffer that the texture holds.
    pub fn buffer_id(&self) -> (r: Option<usize>)
        ensures
            r == self.spec_buffer(),
    {
        self.buffer
    }

    /// The same texture under another target: it shows the same images of
    /// the same buffer, and counts as the same holder. Whether the target
    /// admits the shape of what the texture shows is not asked.
    pub fn retarget(self, target: Target) -> (t: Texture)
        ensures
            t.wf(),
            t.spec_buffer() == self.spec_buffer(),
            t.spec_layout() == self.spec_layout(),
            t.spec_descriptor() == (Descriptor { target, ..self.spec_descriptor() }),
    {
        proof {
            use_type_invariant(&self);
        }
        Texture {
            buffer: self.buffer,
            layout: self.layout,
            desc: Descriptor {
                format: self.desc.format,
                target,
                base_layer: self.desc.base_layer,
                max_layer: self.desc.max_layer,
                base_face: self.desc.base_face,
                max_face: self.desc.max_face,
                base_level: self.desc.base_level,
                max_level: self.desc.max_level,
                swizzles: self.desc.swizzles,
            },
        }
    }

    /// The coordinates in blocks of the block that holds the texel with the
    /// given coordinates; as many blocks as fit whole into the given
    /// lengths.
    pub open spec fn spec_in_blocks(&self, texels: Extent3d) -> Extent3d {
        Extent3d {
            width: (texels.width as nat / self.spec_layout().block_extent.width as nat) as u32,
            height: (texels.height as nat / self.spec_layout().block_extent.height as nat) as u32,
            depth: (texels.depth as nat / self.spec_layout().block_extent.depth as nat) as u32,
        }
    }

    /// The corner of a box in an image of the texture.
    pub open spec fn spec_corner(
        &self,
        layer: usize,
        face: usize,
        level: usize,
        offset: Extent3d,
    ) -> Corner {
        Corner {
            layer: layer as nat,
            face: face as nat,
            level: level as nat,
            x: self.spec_in_blocks(offset).width as nat,
            y: self.spec_in_blocks(offset).height as nat,
            z: self.spec_in_blocks(offset).depth as nat,
        }
    }

    /// Whether a box of an image of `source` can be copied over a box of an
    /// image of this texture: the pool holds the buffers of both, their
    /// buffers have blocks of the same size and the same extent, and the
    /// box lies inside both images.
    pub open spec fn spec_can_copy_subset(
        &self,
        pool: Seq<Buffer>,
        source: &Texture,
        from: Corner,
        to: Corner,
        extent: Extent3d,
    ) -> bool {
        &&& self.spec_held_by(pool)
        &&& source.spec_held_by(pool)
        &&& self.spec_layout().block_size == source.spec_layout().block_size
        &&& self.spec_layout().block_extent == source.spec_layout().block_extent
        &&& spec_box_inside(
            self,
            to,
            self.spec_in_blocks(extent).width as nat,
            self.spec_in_blocks(extent).height as nat,
            self.spec_in_blocks(extent).depth as nat,
        )
        &&& spec_box_inside(
            source,
            from,
            self.spec_in_blocks(extent).width as nat,
            self.spec_in_blocks(extent).height as nat,
            self.spec_in_blocks(extent).depth as nat,
        )
    }

    /// The lengths in blocks of lengths in texels.
    fn in_blocks(&self, texels: Extent3d) -> (r: Extent3d)
        requires
            !self.spec_empty(),
        ensures
            r == self.spec_in_blocks(texels),
            r.width == texels.width as nat / self.spec_layout().block_extent.width as nat,
            r.height == texels.height as nat / self.spec_layout().block_extent.height as nat,
            r.depth == texels.depth as nat / self.spec_layout().block_extent.depth as nat,
    {
        proof {
            use_type_invariant(self);
        }
        Extent3d {
            width: texels.width / self.layout.block_extent.width,
            height: texels.height / self.layout.block_extent.height,
            depth: texels.depth / self.layout.block_extent.depth,
        }
    }

    /// Whether a box of blocks lies inside an image of the texture.
    fn box_inside(
        &self,
        layer: usize,
        face: usize,
        level: usize,
        corner: Extent3d,
        count: Extent3d,
    ) -> (r: bool)
        ensures
            r == spec_box_inside(
                self,
                (Corner {
                    layer: layer as nat,
                    face: face as nat,
                    level: level as nat,
                    x: corner.width as nat,
                    y: corner.height as nat,
                    z: corner.depth as nat,
                }),
                count.width as nat,
                count.height as nat,
                count.depth as nat,
            ),
    {
        proof {
            use_type_invariant(self);
        }
        if !(layer < self.layers() && face < self.faces() && level < self.levels()) {
            return false;
        }
        let blocks = self.layout.level_blocks(self.desc.base_level + level);
        corner.width as u64 + count.width as u64 <= blocks.width as u64 && corner.height as u64
            + count.height as u64 <= blocks.height as u64 && corner.depth as u64
            + count.depth as u64 <= blocks.depth as u64
    }

    /// The rows of a box of blocks of an image of the texture, one after
    /// the other, plane by plane.
    fn gather(
        &self,
        pool: &Pool,
        layer: usize,
        face: usize,
        level: usize,
        corner: Extent3d,
        count: Extent3d,
    ) -> (rows: Vec<u8>)
        requires
            self.wf(),
            self.spec_held_by(pool@),
            spec_box_inside(
                self,
                (Corner {
                    layer: layer as nat,
                    face: face as nat,
                    level: level as nat,
                    x: corner.width as nat,
                    y: corner.height as nat,
                    z: corner.depth as nat,
                }),
                count.width as nat,
                count.height as nat,
                count.depth as nat,
            ),
            count.width >= 1,
            count.height >= 1,
            count.depth >= 1,
        ensures
            rows@.len() == count.depth * count.height * (count.width
                * self.spec_layout().block_size),
            forall|y: nat, z: nat|
                y < count.height && z < count.depth ==> #[trigger] spec_kept_row(
                    rows@,
                    count.width as nat * self.spec_layout().block_size as nat,
                    count.height as nat,
                    y,
                    z,
                ) == spec_row(
                    pool@,
                    self,
                    (Corner {
                        layer: layer as nat,
                        face: face as nat,
                        level: level as nat,
                        x: corner.width as nat,
                        y: corner.height as nat,
                        z: corner.depth as nat,
                    }),
                    count.width as nat,
                    y,
                    z,
                ),
    {
        let id = self.buffer.unwrap();
        let base = self.image_offset(layer, face, level).unwrap();
        let deep: usize = self.desc.base_level + level;
        let ghost from = Corner {
            layer: layer as nat,
            face: face as nat,
            level: level as nat,
            x: corner.width as nat,
            y: corner.height as nat,
            z: corner.depth as nat,
        };
        let ghost cx = count.width as nat;
        let ghost cy = count.height as nat;
        let ghost bs = self.layout.block_size as nat;
        proof {
            self.layout.lemma_block_in_image(
                deep as nat,
                corner.width as nat,
                corner.height as nat,
                corner.depth as nat,
                cx,
            );
            self.layout.lemma_image_in_bounds(
                (self.desc.base_layer + layer) as nat,
                (self.desc.base_face + face) as nat,
                deep as nat,
            );
            self.layout.lemma_level_size_positive(deep as nat);
        }
        let len: usize = count.width as usize * self.layout.block_size;
        let mut rows: Vec<u8> = Vec::new();
        assert((0 * cy + 0) * (len as nat) == 0) by (nonlinear_arith);
        let mut z: u32 = 0;
        while z < count.depth
            invariant
                z <= count.depth,
                self.wf(),
                self.spec_held_by(pool@),
                self.spec_buffer() == Some(id),
                from.layer == layer && from.face == face && from.level == level,
                from.x == corner.width && from.y == corner.height && from.z == corner.depth,
                spec_box_inside(self, from, cx, cy, count.depth as nat),
                cx == count.width && cy == count.height,
                cx >= 1 && cy >= 1,
                bs == self.spec_layout().block_size,
                len == cx * bs,
                base == self.spec_image_offset(layer as nat, face as nat, level as nat),
                deep == self.spec_descriptor().base_level + level,
                rows@.len() == (z as nat * cy + 0) * (len as nat),
                forall|y1: nat, z1: nat|
                    y1 < cy && z1 < count.depth && spec_row_before(y1, z1, 0, z as nat)
                        ==> #[trigger] spec_kept_row(rows@, len as nat, cy, y1, z1) == spec_row(
                        pool@,
                        self,
                        from,
                        cx,
                        y1,
                        z1,
                    ),
            decreases count.depth - z,
        {
            let mut y: u32 = 0;
            while y < count.height
                invariant
                    z < count.depth,
                    y <= count.height,
                    self.wf(),
                    self.spec_held_by(pool@),
                    self.spec_buffer() == Some(id),
                    from.layer == layer && from.face == face && from.level == level,
                    from.x == corner.width && from.y == corner.height && from.z == corner.depth,
                    spec_box_inside(self, from, cx, cy, count.depth as nat),
                    cx == count.width && cy == count.height,
                    cx >= 1 && cy >= 1,
                    bs == self.spec_layout().block_size,
                    len == cx * bs,
                    base == self.spec_image_offset(layer as nat, face as nat, level as nat),
                    deep == self.spec_descriptor().base_level + level,
                    rows@.len() == (z as nat * cy + y as nat) * (len as nat),
                    forall|y1: nat, z1: nat|
                        y1 < cy && z1 < count.depth && spec_row_before(y1, z1, y as nat, z as nat)
                            ==> #[trigger] spec_kept_row(rows@, len as nat, cy, y1, z1)
                            == spec_row(pool@, self, from, cx, y1, z1),
                decreases count.height - y,
            {
                proof {
                    self.layout.lemma_block_in_image(
                        deep as nat,
                        corner.width as nat,
                        (corner.height + y) as nat,
                        (corner.depth + z) as nat,
                        cx,
                    );
                    self.lemma_shown_in_bounds(layer as nat, face as nat, level as nat);
                    self.layout.lemma_level_size_positive(deep as nat);
                }
                let place = base + self.layout.block_place(
                    deep,
                    corner.width,
                    corner.height + y,
                    corner.depth + z,
                );
                let row = pool.span(id, place, len).unwrap();
                let ghost kept = rows@;
                crate::storage::append_bytes(&mut rows, row);
                proof {
                    let at = (z as nat * cy + y as nat) * (len as nat);
                    assert((z as nat * cy + (y + 1) as nat) * (len as nat) == at + len)
                        by (nonlinear_arith)
                        requires
                            at == (z as nat * cy + y as nat) * (len as nat),
                    ;
                    assert(rows@.subrange(at as int, (at + len) as int) =~= row@);
                    assert forall|y1: nat, z1: nat|
                        y1 < cy && z1 < count.depth && spec_row_before(
                            y1,
                            z1,
                            (y + 1) as nat,
                            z as nat,
                        ) implies #[trigger] spec_kept_row(rows@, len as nat, cy, y1, z1)
                        == spec_row(pool@, self, from, cx, y1, z1) by {
                        if spec_row_before(y1, z1, y as nat, z as nat) {
                            let a = (z1 * cy + y1) * (len as nat);
                            assert(a + len <= at) by (nonlinear_arith)
                                requires
                                    a == (z1 * cy + y1) * (len as nat),
                                    at == (z as nat * cy + y as nat) * (len as nat),
                                    z1 < z || (z1 == z && y1 < y),
                                    y1 < cy,
                            ;
                            assert(spec_kept_row(rows@, len as nat, cy, y1, z1) =~= spec_kept_row(
                                kept,
                                len as nat,
                                cy,
                                y1,
                                z1,
                            ));
                        } else {
                            assert(y1 == y && z1 == z);
                        }
                    }
                }
                y = y + 1;
            }
            proof {
                assert((z as nat * cy + cy) * (len as nat) == ((z + 1) as nat * cy + 0) * (
                len as nat)) by (nonlinear_arith);
            }
            z = z + 1;
        }
        proof {
            assert((count.depth as nat * cy + 0) * (len as nat) == count.depth * count.height * (
            count.width * self.spec_layout().block_size)) by (nonlinear_arith)
                requires
                    cy == count.height,
                    len == cx * bs,
                    cx == count.width,
                    bs == self.spec_layout().block_size,
            ;
        }
        rows
    }

    /// Copy a subset of a specific image of a texture: a box of blocks of
    /// an image of `source` is copied over a box of the same size of an
    /// image of this texture. The two offsets and the extent are given in
    /// texels; a box begins with the block that holds the texel at its
    /// offset, and has as many blocks as fit whole into the extent. The
    /// blocks of `source` are read before any is written, so the two boxes
    /// may share bytes. No format is converted. Fails, and changes nothing,
    /// unless the box can be copied.
    pub fn copy_subset(
        &self,
        pool: &mut Pool,
        source: &Texture,
        src_layer: usize,
        src_face: usize,
        src_level: usize,
        src_offset: Extent3d,
        dst_layer: usize,
        dst_face: usize,
        dst_level: usize,
        dst_offset: Extent3d,
        extent: Extent3d,
    ) -> (r: Result<(), Error>)
        ensures
            r.is_ok() == self.spec_can_copy_subset(
                old(pool)@,
                source,
                source.spec_corner(src_layer, src_face, src_level, src_offset),
                self.spec_corner(dst_layer, dst_face, dst_level, dst_offset),
                extent,
            ),
            r.is_ok() ==> spec_box_copied(
                old(pool)@,
                final(pool)@,
                self,
                self.spec_corner(dst_layer, dst_face, dst_level, dst_offset),
                source,
                source.spec_corner(src_layer, src_face, src_level, src_offset),
                self.spec_in_blocks(extent).width as nat,
                self.spec_in_blocks(extent).height as nat,
                self.spec_in_blocks(extent).depth as nat,
            ),
            r matches Err(e) ==> e.spec_is_bug() && final(pool)@ == old(pool)@,
    {
        proof {
            use_type_invariant(self);
            use_type_invariant(source);
        }
        if !self.held_by(pool) || !source.held_by(pool) {
            return Err(Error::bug("the pool does not hold the buffer of the texture"));
        }
        if self.layout.block_size != source.layout.block_size || self.layout.block_extent.width
            != source.layout.block_extent.width || self.layout.block_extent.height
            != source.layout.block_extent.height || self.layout.block_extent.depth
            != source.layout.block_extent.depth {
            return Err(Error::bug("the two textures differ in their blocks"));
        }
        let from = source.in_blocks(src_offset);
        let to = self.in_blocks(dst_offset);
        let count = self.in_blocks(extent);
        if !self.box_inside(dst_layer, dst_face, dst_level, to, count) || !source.box_inside(
            src_layer,
            src_face,
            src_level,
            from,
            count,
        ) {
            return Err(Error::bug("the box does not lie inside the image"));
        }
        let dst_id = self.buffer.unwrap();
        let ghost before = pool@;
        let ghost src_corner = source.spec_corner(src_layer, src_face, src_level, src_offset);
        let ghost dst_corner = self.spec_corner(dst_layer, dst_face, dst_level, dst_offset);
        let ghost cx = count.width as nat;
        let ghost cy = count.height as nat;
        let ghost cz = count.depth as nat;
        let ghost start = pool@[dst_id as int].bytes;
        assert(pool@ =~= crate::storage::spec_with_bytes(before, dst_id as int, start));
        if count.width == 0 || count.height == 0 || count.depth == 0 {
            return Ok(());
        }
        let rows = source.gather(pool, src_layer, src_face, src_level, from, count);
        let dst_base = self.image_offset(dst_layer, dst_face, dst_level).unwrap();
        let dst_deep: usize = self.desc.base_level + dst_level;
        let ghost layout = self.layout;
        let ghost al = (self.desc.base_layer + dst_layer) as nat;
        let ghost af = (self.desc.base_face + dst_face) as nat;
        let ghost bs = self.layout.block_size as nat;
        proof {
            self.layout.lemma_block_in_image(
                dst_deep as nat,
                to.width as nat,
                to.height as nat,
                to.depth as nat,
                cx,
            );
            self.layout.lemma_image_in_bounds(al, af, dst_deep as nat);
        }
        let len: usize = count.width as usize * self.layout.block_size;
        let mut at: usize = 0;
        assert((0 * cy + 0) * (len as nat) == 0) by (nonlinear_arith);
        proof {
            assert(src_corner == (Corner {
                layer: src_layer as nat,
                face: src_face as nat,
                level: src_level as nat,
                x: from.width as nat,
                y: from.height as nat,
                z: from.depth as nat,
            }));
            assert(len as nat == count.width as nat * source.spec_layout().block_size as nat);
            assert forall|y1: nat, z1: nat| y1 < cy && z1 < cz implies #[trigger] spec_kept_row(
                rows@,
                len as nat,
                cy,
                y1,
                z1,
            ) == spec_row(before, source, src_corner, cx, y1, z1) by {
                assert(spec_kept_row(
                    rows@,
                    count.width as nat * source.spec_layout().block_size as nat,
                    count.height as nat,
                    y1,
                    z1,
                ) == spec_row(before, source, src_corner, count.width as nat, y1, z1));
            }
        }
        let mut z: u32 = 0;
        while z < count.depth
            invariant
                z <= count.depth,
                self.wf(),
                source.wf(),
                self.spec_held_by(before),
                source.spec_held_by(before),
                self.spec_buffer() == Some(dst_id),
                self.spec_layout() == layout,
                self.spec_layout().block_size == source.spec_layout().block_size,
                src_corner == source.spec_corner(src_layer, src_face, src_level, src_offset),
                dst_corner == self.spec_corner(dst_layer, dst_face, dst_level, dst_offset),
                src_corner.x == from.width && src_corner.y == from.height && src_corner.z
                    == from.depth,
                dst_corner.x == to.width && dst_corner.y == to.height && dst_corner.z == to.depth,
                spec_box_inside(self, dst_corner, cx, cy, cz),
                spec_box_inside(source, src_corner, cx, cy, cz),
                cx == count.width && cy == count.height && cz == count.depth,
                cx >= 1 && cy >= 1,
                bs == layout.block_size,
                len == cx * bs,
                al == self.spec_descriptor().base_layer + dst_layer,
                af == self.spec_descriptor().base_face + dst_face,
                dst_deep == self.spec_descriptor().base_level + dst_level,
                dst_base == layout.spec_offset(al, af, dst_deep as nat),
                start == before[dst_id as int].bytes,
                at == (z as nat * cy + 0) * (len as nat),
                rows@.len() == cz * cy * (cx * bs),
                forall|y1: nat, z1: nat|
                    y1 < cy && z1 < cz ==> #[trigger] spec_kept_row(rows@, len as nat, cy, y1, z1)
                        == spec_row(before, source, src_corner, cx, y1, z1),
                pool@ == crate::storage::spec_with_bytes(
                    before,
                    dst_id as int,
                    pool@[dst_id as int].bytes,
                ),
                pool@[dst_id as int].bytes.len() == start.len(),
                forall|l: nat, f: nat, v: nat|
                    layout.spec_has(l, f, v) && !(l == al && f == af && v == dst_deep)
                        ==> #[trigger] layout.spec_image(pool@[dst_id as int].bytes, l, f, v)
                        == layout.spec_image(start, l, f, v),
                forall|x1: nat, y1: nat, z1: nat|
                    layout.spec_has_block(dst_deep as nat, x1, y1, z1)
                        ==> #[trigger] layout.spec_block(
                        pool@[dst_id as int].bytes,
                        al,
                        af,
                        dst_deep as nat,
                        x1,
                        y1,
                        z1,
                    ) == if spec_in_box(dst_corner, cx, cy, cz, x1, y1, z1) && spec_row_before(
                        (y1 - dst_corner.y) as nat,
                        (z1 - dst_corner.z) as nat,
                        0,
                        z as nat,
                    ) {
                        spec_block_from(before, dst_corner, source, src_corner, x1, y1, z1)
                    } else {
                        layout.spec_block(start, al, af, dst_deep as nat, x1, y1, z1)
                    },
            decreases count.depth - z,
        {
            let mut y: u32 = 0;
            while y < count.height
                invariant
                    z < count.depth,
                    y <= count.height,
                    self.wf(),
                    source.wf(),
                    self.spec_held_by(before),
                    source.spec_held_by(before),
                    self.spec_buffer() == Some(dst_id),
                    self.spec_layout() == layout,
                    self.spec_layout().block_size == source.spec_layout().block_size,
                    src_corner == source.spec_corner(src_layer, src_face, src_level, src_offset),
                    dst_corner == self.spec_corner(dst_layer, dst_face, dst_level, dst_offset),
                    src_corner.x == from.width && src_corner.y == from.height && src_corner.z
                        == from.depth,
                    dst_corner.x == to.width && dst_corner.y == to.height && dst_corner.z
                        == to.depth,
                    spec_box_inside(self, dst_corner, cx, cy, cz),
                    spec_box_inside(source, src_corner, cx, cy, cz),
                    cx == count.width && cy == count.height && cz == count.depth,
                    cx >= 1 && cy >= 1,
                    bs == layout.block_size,
                    len == cx * bs,
                    al == self.spec_descriptor().base_layer + dst_layer,
                    af == self.spec_descriptor().base_face + dst_face,
                    dst_deep == self.spec_descriptor().base_level + dst_level,
                    dst_base == layout.spec_offset(al, af, dst_deep as nat),
                    start == before[dst_id as int].bytes,
                    at == (z as nat * cy + y as nat) * (len as nat),
                    rows@.len() == cz * cy * (cx * bs),
                    forall|y1: nat, z1: nat|
                        y1 < cy && z1 < cz ==> #[trigger] spec_kept_row(
                            rows@,
                            len as nat,
                            cy,
                            y1,
                            z1,
                        ) == spec_row(before, source, src_corner, cx, y1, z1),
                    pool@ == crate::storage::spec_with_bytes(
                        before,
                        dst_id as int,
                        pool@[dst_id as int].bytes,
                    ),
                    pool@[dst_id as int].bytes.len() == start.len(),
                    forall|l: nat, f: nat, v: nat|
                        layout.spec_has(l, f, v) && !(l == al && f == af && v == dst_deep)
                            ==> #[trigger] layout.spec_image(pool@[dst_id as int].bytes, l, f, v)
                            == layout.spec_image(start, l, f, v),
                    forall|x1: nat, y1: nat, z1: nat|
                        layout.spec_has_block(dst_deep as nat, x1, y1, z1)
                            ==> #[trigger] layout.spec_block(
                            pool@[dst_id as int].bytes,
                            al,
                            af,
                            dst_deep as nat,
                            x1,
                            y1,
                            z1,
                        ) == if spec_in_box(dst_corner, cx, cy, cz, x1, y1, z1)
                            && spec_row_before(
                            (y1 - dst_corner.y) as nat,
                            (z1 - dst_corner.z) as nat,
                            y as nat,
                            z as nat,
                        ) {
                            spec_block_from(before, dst_corner, source, src_corner, x1, y1, z1)
                        } else {
                            layout.spec_block(start, al, af, dst_deep as nat, x1, y1, z1)
                        },
                decreases count.height - y,
            {
                let ghost cur = pool@[dst_id as int].bytes;
                proof {
                    layout.lemma_block_in_image(
                        dst_deep as nat,
                        to.width as nat,
                        (to.height + y) as nat,
                        (to.depth + z) as nat,
                        cx,
                    );
                    self.lemma_shown_in_bounds(dst_layer as nat, dst_face as nat, dst_level as nat);
                    layout.lemma_level_size_positive(dst_deep as nat);
                    assert(at + len <= rows@.len()) by (nonlinear_arith)
                        requires
                            at == (z as nat * cy + y as nat) * (len as nat),
                            rows@.len() == cz * cy * (cx * bs),
                            len == cx * bs,
                            z < cz,
                            (y as nat) < cy,
                    ;
                }
                let place = dst_base + self.layout.block_place(
                    dst_deep,
                    to.width,
                    to.height + y,
                    to.depth + z,
                );
                let kept = rows.len();
                let row = vstd::slice::slice_subrange(rows.as_slice(), at, at + len);
                let done = pool.write(dst_id, place, row);
                assert(done);
                proof {
                    let now = pool@[dst_id as int].bytes;
                    assert(row@ == spec_kept_row(rows@, len as nat, cy, y as nat, z as nat));
                    assert(row@ == spec_row(before, source, src_corner, cx, y as nat, z as nat));
                    layout.lemma_write_row(
                        cur,
                        row@,
                        al,
                        af,
                        dst_deep as nat,
                        to.width as nat,
                        (to.height + y) as nat,
                        (to.depth + z) as nat,
                        cx,
                    );
                    assert((z as nat * cy + (y + 1) as nat) * (len as nat) == at + len)
                        by (nonlinear_arith)
                        requires
                            at == (z as nat * cy + y as nat) * (len as nat),
                    ;
                    assert forall|x1: nat, y1: nat, z1: nat|
                        layout.spec_has_block(
                            dst_deep as nat,
                            x1,
                            y1,
                            z1,
                        ) implies #[trigger] layout.spec_block(
                        now,
                        al,
                        af,
                        dst_deep as nat,
                        x1,
                        y1,
                        z1,
                    ) == if spec_in_box(dst_corner, cx, cy, cz, x1, y1, z1) && spec_row_before(
                        (y1 - dst_corner.y) as nat,
                        (z1 - dst_corner.z) as nat,
                        (y + 1) as nat,
                        z as nat,
                    ) {
                        spec_block_from(before, dst_corner, source, src_corner, x1, y1, z1)
                    } else {
                        layout.spec_block(start, al, af, dst_deep as nat, x1, y1, z1)
                    } by {
                        if y1 == to.height + y && z1 == to.depth + z && to.width <= x1 < to.width
                            + cx {
                            source.lemma_block_of_row(
                                before,
                                src_corner,
                                cx,
                                cy,
                                cz,
                                (x1 - to.width) as nat,
                                y as nat,
                                z as nat,
                            );
                        } else {
                            assert(layout.spec_block(cur, al, af, dst_deep as nat, x1, y1, z1)
                                == layout.spec_block(now, al, af, dst_deep as nat, x1, y1, z1));
                        }
                    }
                }
                at = at + len;
                y = y + 1;
            }
            proof {
                assert((z as nat * cy + cy) * (len as nat) == ((z + 1) as nat * cy + 0) * (
                len as nat)) by (nonlinear_arith);
            }
            z = z + 1;
        }
        Ok(())
    }

    /// A block of a row of a box is a part of the bytes of the row.
    proof fn lemma_block_of_row(
        &self,
        pool: Seq<Buffer>,
        corner: Corner,
        cx: nat,
        cy: nat,
        cz: nat,
        x: nat,
        y: nat,
        z: nat,
    )
        requires
            self.wf(),
            self.spec_held_by(pool),
            spec_box_inside(self, corner, cx, cy, cz),
            x < cx,
            y < cy,
            z < cz,
        ensures
            spec_row(pool, self, corner, cx, y, z).subrange(
                x * self.spec_layout().block_size,
                x * self.spec_layout().block_size + self.spec_layout().block_size,
            ) == self.spec_layout().spec_block(
                pool[self.spec_buffer().unwrap() as int].bytes,
                (self.spec_descriptor().base_layer + corner.layer) as nat,
                (self.spec_descriptor().base_face + corner.face) as nat,
                (self.spec_descriptor().base_level + corner.level) as nat,
                corner.x + x,
                corner.y + y,
                corner.z + z,
            ),
    {
        let layout = self.spec_layout();
        let deep = (self.spec_descriptor().base_level + corner.level) as nat;
        layout.lemma_row_among_blocks(
            deep,
            corner.x,
            corner.y + y,
            corner.z + z,
            cx,
            corner.x + x,
            corner.y + y,
            corner.z + z,
        );
        layout.lemma_block_in_image(deep, corner.x, corner.y + y, corner.z + z, cx);
        self.lemma_shown_in_bounds(corner.layer, corner.face, corner.level);
        let bs = layout.block_size as nat;
        assert(spec_row(pool, self, corner, cx, y, z).subrange((x * bs) as int, (x * bs + bs) as int)
            =~= layout.spec_block(
            pool[self.spec_buffer().unwrap() as int].bytes,
            (self.spec_descriptor().base_layer + corner.layer) as nat,
            (self.spec_descriptor().base_face + corner.face) as nat,
            deep,
            corner.x + x,
            corner.y + y,
            corner.z + z,
        ));
    }

    /// Whether one image of this texture and the image at the same place of
    /// `other` have the same extent and the same bytes.
    pub open spec fn spec_same_image(
        &self,
        other: &Texture,
        pool: Seq<Buffer>,
        layer: nat,
        face: nat,
        level: nat,
    ) -> bool {
        self.spec_extent(level) == other.spec_extent(level) && self.spec_image_bytes(
            pool,
            layer,
            face,
            level,
        ) == other.spec_image_bytes(pool, layer, face, level)
    }

    /// Two textures are the same when the data, the format and the targets
    /// are the same: they show as many layers, faces and levels, and each
    /// image of the one has the extent and the bytes of the image at the
    /// same place of the other. Whether they show the same buffer does not
    /// matter.
    pub open spec fn spec_same(&self, other: &Texture, pool: Seq<Buffer>) -> bool {
        &&& self.spec_descriptor().target == other.spec_descriptor().target
        &&& self.spec_descriptor().format == other.spec_descriptor().format
        &&& self.spec_layers() == other.spec_layers()
        &&& self.spec_faces() == other.spec_faces()
        &&& self.spec_levels() == other.spec_levels()
        &&& forall|layer: nat, face: nat, level: nat|
            self.spec_shows(layer, face, level) ==> #[trigger] self.spec_same_image(
                other,
                pool,
                layer,
                face,
                level,
            )
    }

    /// Compare two textures. Fails unless, of each texture, it is empty or
    /// the pool holds its buffer.
    pub fn equals(&self, other: &Texture, pool: &Pool) -> (r: Result<bool, Error>)
        ensures
            r.is_ok() == ((self.spec_empty() || self.spec_held_by(pool@)) && (other.spec_empty()
                || other.spec_held_by(pool@))),
            r matches Ok(same) ==> same == self.spec_same(other, pool@),
            r matches Err(e) ==> e.spec_is_bug(),
    {
        proof {
            use_type_invariant(self);
            use_type_invariant(other);
        }
        if !(self.empty() || self.held_by(pool)) || !(other.empty() || other.held_by(pool)) {
            return Err(Error::bug("the pool does not hold the buffer of the texture"));
        }
        let layers = self.layers();
        let faces = self.faces();
        let levels = self.levels();
        if self.desc.target.0 != other.desc.target.0 || self.desc.format.0 != other.desc.format.0
            || layers != other.layers() || faces != other.faces() || levels != other.levels() {
            return Ok(false);
        }
        let mut layer: usize = 0;
        while layer < layers
            invariant
                layer <= layers,
                layers == self.spec_layers() == other.spec_layers(),
                faces == self.spec_faces() == other.spec_faces(),
                levels == self.spec_levels() == other.spec_levels(),
                self.spec_held_by(pool@) || layers == 0,
                other.spec_held_by(pool@) || layers == 0,
                forall|l: nat, f: nat, v: nat|
                    l < layer && f < faces && v < levels ==> #[trigger] self.spec_same_image(
                        other,
                        pool@,
                        l,
                        f,
                        v,
                    ),
            decreases layers - layer,
        {
            let mut face: usize = 0;
            while face < faces
                invariant
                    layer < layers,
                    face <= faces,
                    layers == self.spec_layers() == other.spec_layers(),
                    faces == self.spec_faces() == other.spec_faces(),
                    levels == self.spec_levels() == other.spec_levels(),
                    self.spec_held_by(pool@),
                    other.spec_held_by(pool@),
                    forall|l: nat, f: nat, v: nat|
                        l < layer && f < faces && v < levels ==> #[trigger] self.spec_same_image(
                            other,
                            pool@,
                            l,
                            f,
                            v,
                        ),
                    forall|f: nat, v: nat|
                        f < face && v < levels ==> #[trigger] self.spec_same_image(
                            other,
                            pool@,
                            layer as nat,
                            f,
                            v,
                        ),
                decreases faces - face,
            {
                let mut level: usize = 0;
                while level < levels
                    invariant
                        layer < layers,
                        face < faces,
                        level <= levels,
                        layers == self.spec_layers() == other.spec_layers(),
                        faces == self.spec_faces() == other.spec_faces(),
                        levels == self.spec_levels() == other.spec_levels(),
                        self.spec_held_by(pool@),
                        other.spec_held_by(pool@),
                        forall|v: nat|
                            v < level ==> #[trigger] self.spec_same_image(
                                other,
                                pool@,
                                layer as nat,
                                face as nat,
                                v,
                            ),
                    decreases levels - level,
                {
                    let mine = self.extent(level);
                    let theirs = other.extent(level);
                    let same_extent = mine.width == theirs.width && mine.height == theirs.height
                        && mine.depth == theirs.depth;
                    let same_data = match (
                        self.image_data(pool, layer, face, level),
                        other.image_data(pool, layer, face, level),
                    ) {
                        (Ok(a), Ok(b)) => crate::image::same_bytes(a, b),
                        _ => false,
                    };
                    if !(same_extent && same_data) {
                        assert(!self.spec_same_image(
                            other,
                            pool@,
                            layer as nat,
                            face as nat,
                            level as nat,
                        ));
                        assert(self.spec_shows(layer as nat, face as nat, level as nat));
                        return Ok(false);
                    }
                    level = level + 1;
                }
                face = face + 1;
            }
            layer = layer + 1;
        }
        Ok(true)
    }

    /// Whether `other` shows the same buffer as this texture.
    pub fn shares_with(&self, other: &Texture) -> (r: bool)
        ensures
            r == (!self.spec_empty() && self.spec_buffer() == other.spec_buffer()),
    {
        match (self.buffer, other.buffer) {
            (Some(a), Some(b)) => a == b,
            _ => false,
        }
    }
}

/// The range laws of views: a derived view has each of its ranges in order
/// and inside the range of the texture that it was derived from, and a
/// format with blocks of the size of that texture's.
pub proof fn lemma_derived_view(source: &Texture, pool: Seq<Buffer>, desc: Descriptor)
    requires
        source.wf(),
        Texture::spec_can_derive(source, pool, desc),
    ensures
        source.spec_descriptor().base_layer <= desc.base_layer <= desc.max_layer
            <= source.spec_descriptor().max_layer,
        source.spec_descriptor().base_face <= desc.base_face <= desc.max_face
            <= source.spec_descriptor().max_face,
        source.spec_descriptor().base_level <= desc.base_level <= desc.max_level
            <= source.spec_descriptor().max_level,
        desc.format.spec_block_size() == source.spec_descriptor().format.spec_block_size(),
{
}

/// In a texture whose buffer holds single texels, not compressed blocks, an
/// image has as many bytes as its texels take: the width times the height
/// times the depth of its level, times the size of a texel of the format.
/// The buffer of a texture that was made with a format that is not
/// compressed holds single texels.
pub proof fn lemma_size_of_texels(texture: &Texture, level: nat)
    requires
        texture.wf(),
        level < texture.spec_levels(),
        texture.spec_layout().block_extent == (Extent3d { width: 1, height: 1, depth: 1 }),
    ensures
        texture.spec_size_at_level(level) == texture.spec_extent(level).width
            * texture.spec_extent(level).height * texture.spec_extent(level).depth
            * texture.spec_descriptor().format.spec_block_size(),
        texture.spec_extent(level).width >= 1,
        texture.spec_extent(level).height >= 1,
        texture.spec_extent(level).depth >= 1,
{
    let deep = (texture.spec_descriptor().base_level + level) as nat;
    crate::sampler::lemma_texel_image_size(texture.spec_layout(), deep);
    let e = texture.spec_extent(level);
    let bs = texture.spec_layout().block_size as nat;
    assert(e.depth as nat * e.height as nat * e.width as nat * bs == e.width * e.height * e.depth
        * bs) by (nonlinear_arith);
}

/// No view can be derived with a format whose block size differs from that
/// of the source's format.
pub proof fn lemma_block_size_must_match(source: &Texture, pool: Seq<Buffer>, desc: Descriptor)
    requires
        source.wf(),
        desc.format.spec_block_size() != source.spec_descriptor().format.spec_block_size(),
    ensures
        !Texture::spec_can_derive(source, pool, desc),
{
}

/// What gives access to the texture inside a texture of a kind.
pub trait TextureAccessible: Sized {
    /// The target of the kind.
    spec fn spec_target_type() -> Target;

    /// The texture inside.
    spec fn spec_raw(&self) -> Texture;

    /// The target of the kind.
    fn target_type() -> (r: Target)
        ensures
            r == Self::spec_target_type(),
    ;

    /// Takes a texture of the kind's target as a texture of the kind, and
    /// gives any other back.
    fn from_raw(raw: Texture) -> (r: Result<Self, Texture>)
        ensures
            r.is_ok() == (raw.spec_descriptor().target == Self::spec_target_type()),
            r matches Ok(t) ==> t.spec_raw() == raw,
            r matches Err(t) ==> t == raw,
    ;

    /// Gives the texture inside.
    fn into_raw(self) -> (r: Texture)
        ensures
            r == self.spec_raw(),
            r.wf(),
            r.spec_descriptor().target == Self::spec_target_type(),
    ;

    /// The texture inside.
    fn raw_texture(&self) -> (t: &Texture)
        ensures
            *t == self.spec_raw(),
            t.wf(),
            t.spec_descriptor().target == Self::spec_target_type(),
    ;
}

/// What the textures of all kinds have in common.
pub trait GliTexture: TextureAccessible {
    /// The extents of the kind: as many lengths as the kind has axes.
    type ExtentType;

    /// The lengths that the kind keeps of a width, a height and a depth.
    spec fn spec_project(extent: Extent3d) -> Self::ExtentType;

    /// Return the target of a texture instance.
    fn target(&self) -> (r: Target)
        ensures
            r == Self::spec_target_type(),
            r == self.spec_raw().spec_descriptor().target,
    ;

    /// Return the size of a texture instance: width, height and depth.
    fn extent(&self, level: usize) -> (r: Self::ExtentType)
        ensures
            r == Self::spec_project(self.spec_raw().spec_extent(level as nat)),
    ;

    /// Set the sources of the four channels.
    fn set_swizzles(&mut self, swizzles: Swizzles)
        ensures
            final(self).spec_raw().wf(),
            final(self).spec_raw().spec_buffer() == old(self).spec_raw().spec_buffer(),
            final(self).spec_raw().spec_layout() == old(self).spec_raw().spec_layout(),
            final(self).spec_raw().spec_descriptor() == if old(self).spec_raw().spec_empty() {
                old(self).spec_raw().spec_descriptor()
            } else {
                (Descriptor { swizzles, ..old(self).spec_raw().spec_descriptor() })
            },
    ;

    /// Return the base face of the texture instance, effectively a memory
    /// offset in the actual texture storage to identify where to start
    /// reading the faces.
    fn base_face(&self) -> (r: usize)
        ensures
            r == self.spec_raw().spec_descriptor().base_face,
    {
        self.raw_texture().base_face()
    }

    /// Return the base layer of the texture instance, effectively a memory
    /// offset in the actual texture storage to identify where to start
    /// reading the layers.
    fn base_layer(&self) -> (r: usize)
        ensures
            r == self.spec_raw().spec_descriptor().base_layer,
    {
        self.raw_texture().base_layer()
    }

    /// Return the base level of the texture instance, effectively a memory
    /// offset in the actual texture storage to identify where to start
    /// reading the levels.
    fn base_level(&self) -> (r: usize)
        ensures
            r == self.spec_raw().spec_descriptor().base_level,
    {
        self.raw_texture().base_level()
    }

    /// Clear the entire texture storage with zeros, as `Texture::clear`
    /// does.
    fn clear(&self, pool: &mut Pool) -> (r: Result<(), Error>)
        ensures
            r.is_ok() == self.spec_raw().spec_held_by(old(pool)@),
            r.is_ok() ==> final(pool)@ == crate::storage::spec_with_bytes(
                old(pool)@,
                self.spec_raw().spec_buffer().unwrap() as int,
                crate::storage::spec_fill(
                    old(pool)@[self.spec_raw().spec_buffer().unwrap() as int].bytes,
                    self.spec_raw().spec_base_offset() as int,
                    self.spec_raw().spec_size() as int,
                    0u8,
                ),
            ),
            r matches Err(e) ==> e.spec_is_bug() && final(pool)@ == old(pool)@,
    {
        self.raw_texture().clear(pool)
    }

    /// Copy a specific image of a texture, as `Texture::copy` does.
    fn copy(
        &self,
        pool: &mut Pool,
        src_texture: &Self,
        src_layer: usize,
        src_face: usize,
        src_level: usize,
        dst_layer: usize,
        dst_face: usize,
        dst_level: usize,
    ) -> (r: Result<(), Error>)
        ensures
            r.is_ok() == self.spec_raw().spec_can_copy(
                old(pool)@,
                &src_texture.spec_raw(),
                src_layer as nat,
                src_face as nat,
                src_level as nat,
                dst_layer as nat,
                dst_face as nat,
                dst_level as nat,
            ),
            r.is_ok() ==> final(pool)@ == crate::storage::spec_with_bytes(
                old(pool)@,
                self.spec_raw().spec_buffer().unwrap() as int,
                crate::storage::spec_write(
                    old(pool)@[self.spec_raw().spec_buffer().unwrap() as int].bytes,
                    self.spec_raw().spec_image_offset(
                        dst_layer as nat,
                        dst_face as nat,
                        dst_level as nat,
                    ) as int,
                    src_texture.spec_raw().spec_image_bytes(
                        old(pool)@,
                        src_layer as nat,
                        src_face as nat,
                        src_level as nat,
                    ),
                ),
            ),
            r matches Err(e) ==> e.spec_is_bug() && final(pool)@ == old(pool)@,
    {
        self.raw_texture().copy(
            pool,
            src_texture.raw_texture(),
            src_layer,
            src_face,
            src_level,
            dst_layer,
            dst_face,
            dst_level,
        )
    }

    /// Copy a subset of a specific image of a texture, as
    /// `Texture::copy_subset` does.
    fn copy_subset(
        &self,
        pool: &mut Pool,
        src_texture: &Self,
        src_layer: usize,
        src_face: usize,
        src_level: usize,
        src_offset: Extent3d,
        dst_layer: usize,
        dst_face: usize,
        dst_level: usize,
        dst_offset: Extent3d,
        extent: Extent3d,
    ) -> (r: Result<(), Error>)
        ensures
            r.is_ok() == self.spec_raw().spec_can_copy_subset(
                old(pool)@,
                &src_texture.spec_raw(),
                src_texture.spec_raw().spec_corner(src_layer, src_face, src_level, src_offset),
                self.spec_raw().spec_corner(dst_layer, dst_face, dst_level, dst_offset),
                extent,
            ),
            r.is_ok() ==> spec_box_copied(
                old(pool)@,
                final(pool)@,
                &self.spec_raw(),
                self.spec_raw().spec_corner(dst_layer, dst_face, dst_level, dst_offset),
                &src_texture.spec_raw(),
                src_texture.spec_raw().spec_corner(src_layer, src_face, src_level, src_offset),
                self.spec_raw().spec_in_blocks(extent).width as nat,
                self.spec_raw().spec_in_blocks(extent).height as nat,
                self.spec_raw().spec_in_blocks(extent).depth as nat,
            ),
            r matches Err(e) ==> e.spec_is_bug() && final(pool)@ == old(pool)@,
    {
        self.raw_texture().copy_subset(
            pool,
            src_texture.raw_texture(),
            src_layer,
            src_face,
            src_level,
            src_offset,
            dst_layer,
            dst_face,
            dst_level,
            dst_offset,
            extent,
        )
    }

    /// Compare two textures. Two textures are the same when the data, the
    /// format and the targets are the same.
    fn equals(&self, other: &Self, pool: &Pool) -> (r: Result<bool, Error>)
        ensures
            r.is_ok() == ((self.spec_raw().spec_empty() || self.spec_raw().spec_held_by(pool@))
                && (other.spec_raw().spec_empty() || other.spec_raw().spec_held_by(pool@))),
            r matches Ok(same) ==> same == self.spec_raw().spec_same(&other.spec_raw(), pool@),
            r matches Err(e) ==> e.spec_is_bug(),
    {
        self.raw_texture().equals(other.raw_texture(), pool)
    }

    /// Return the bytes of the texture instance, as `Texture::data` does.
    fn data<'a>(&self, pool: &'a Pool) -> (r: Result<&'a [u8], Error>)
        ensures
            r.is_ok() == self.spec_raw().spec_held_by(pool@),
            r matches Ok(bytes) ==> bytes@ == pool@[self.spec_raw().spec_buffer().unwrap() as int].bytes.subrange(
                self.spec_raw().spec_base_offset() as int,
                (self.spec_raw().spec_base_offset() + self.spec_raw().spec_size()) as int,
            ),
            r matches Err(e) ==> e.spec_is_bug(),
    {
        self.raw_texture().data(pool)
    }

    /// Puts bytes in place of bytes that the texture claims, as
    /// `Texture::store` does.
    fn store(&self, pool: &mut Pool, offset: usize, bytes: &[u8]) -> (r: Result<(), Error>)
        ensures
            r.is_ok() == (self.spec_raw().spec_held_by(old(pool)@) && offset + bytes@.len()
                <= self.spec_raw().spec_size()),
            r.is_ok() ==> final(pool)@ == crate::storage::spec_with_bytes(
                old(pool)@,
                self.spec_raw().spec_buffer().unwrap() as int,
                crate::storage::spec_write(
                    old(pool)@[self.spec_raw().spec_buffer().unwrap() as int].bytes,
                    self.spec_raw().spec_base_offset() + offset,
                    bytes@,
                ),
            ),
            r matches Err(e) ==> e.spec_is_bug() && final(pool)@ == old(pool)@,
    {
        self.raw_texture().store(pool, offset, bytes)
    }

    /// Return whether the texture instance is empty, no storage or
    /// description have been assigned to the instance.
    fn empty(&self) -> (r: bool)
        ensures
            r == self.spec_raw().spec_empty(),
    {
        self.raw_texture().empty()
    }

    /// Return max_face() - base_face() + 1.
    fn faces(&self) -> (r: usize)
        ensures
            r == self.spec_raw().spec_faces(),
    {
        self.raw_texture().faces()
    }

    /// Return the texture instance format.
    fn format(&self) -> (r: Format)
        ensures
            r == self.spec_raw().spec_descriptor().format,
    {
        self.raw_texture().format()
    }

    /// Return max_layer() - base_layer() + 1.
    fn layers(&self) -> (r: usize)
        ensures
            r == self.spec_raw().spec_layers(),
    {
        self.raw_texture().layers()
    }

    /// Return max_level() - base_level() + 1.
    fn levels(&self) -> (r: usize)
        ensures
            r == self.spec_raw().spec_levels(),
    {
        self.raw_texture().levels()
    }

    /// Return the max face of the texture instance, effectively a memory
    /// offset to the beginning of the last face in the actual texture
    /// storage that the texture instance can access.
    fn max_face(&self) -> (r: usize)
        ensures
            r == self.spec_raw().spec_descriptor().max_face,
    {
        self.raw_texture().max_face()
    }

    /// Return the max layer of the texture instance, effectively a memory
    /// offset to the beginning of the last layer in the actual texture
    /// storage that the texture instance can access.
    fn max_layer(&self) -> (r: usize)
        ensures
            r == self.spec_raw().spec_descriptor().max_layer,
    {
        self.raw_texture().max_layer()
    }

    /// Return the max level of the texture instance, effectively a memory
    /// offset to the beginning of the last level in the actual texture
    /// storage that the texture instance can access.
    fn max_level(&self) -> (r: usize)
        ensures
            r == self.spec_raw().spec_descriptor().max_level,
    {
        self.raw_texture().max_level()
    }

    /// Return the memory size of a texture instance storage in bytes.
    fn size(&self) -> (r: usize)
        ensures
            r == self.spec_raw().spec_size(),
    {
        self.raw_texture().size()
    }

    /// Return the memory size of a specific level identified by Level.
    fn size_at_level(&self, level: usize) -> (r: usize)
        ensures
            r == self.spec_raw().spec_size_at_level(level as nat),
    {
        self.raw_texture().size_at_level(level)
    }
}

} // verus!
