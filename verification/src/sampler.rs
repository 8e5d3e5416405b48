//! Texel samplers.
//!
//! A sampler borrows a texture and reads and writes single texels of it by
//! their coordinates. A coordinate outside the image is folded back into it
//! as the wrap mode of the sampler says, or falls on the border color. A
//! texel is handed out and taken as the bytes that the texture stores for
//! it; what numbers the bytes stand for is the format's business.

pub use crate::wrap::{Filter, Wrap};
pub use self::sampler1d::FSampler1D;
pub use self::sampler2d::FSampler2D;
pub use self::sampler2d_array::FSampler2DArray;
pub use self::sampler3d::FSampler3D;
pub use self::sampler_cube::FSamplerCube;
pub use self::sampler_cube_array::FSamplerCubeArray;

pub mod sampler1d;
pub mod sampler2d;
pub mod sampler2d_array;
pub mod sampler3d;
pub mod sampler_cube;
pub mod sampler_cube_array;

use vstd::prelude::*;
use crate::error::Error;
use crate::extent::Extent3d;
use crate::layout::lemma_blocks_bounds;
use crate::layout::Layout;
use crate::mipmap::{
    downsample, has_byte_channels, spec_downsample, spec_has_byte_channels, spec_image_size,
};
use crate::storage::{
    Buffer, Pool, lemma_tile_writes, spec_pattern, spec_tile, spec_with_bytes, spec_write,
};
use crate::texture::Texture;
use crate::wrap::{fold, spec_fold};

verus! {

/// The coordinates of a texel. They may lie outside the image.
#[derive(Debug, Clone, Copy, PartialEq, Eq, Structural)]
pub struct TexelCoord {
    pub x: i64,
    pub y: i64,
    pub z: i64,
}

/// A sampler of the texels of a texture of any kind.
pub struct Sampler<'a> {
    texture: &'a Texture,
    wrap: Wrap,
    mip: Filter,
    min: Filter,
    border: Vec<u8>,
}

/// The texel of the image that the coordinates fall on, or `None` where the
/// border color is seen instead: that is where any of the three coordinates
/// falls on the border.
pub open spec fn spec_resolve(wrap: Wrap, coord: TexelCoord, extent: Extent3d) -> Option<
    (nat, nat, nat),
> {
    match (
        spec_fold(wrap, coord.x as int, extent.width as int),
        spec_fold(wrap, coord.y as int, extent.height as int),
        spec_fold(wrap, coord.z as int, extent.depth as int),
    ) {
        (Some(x), Some(y), Some(z)) => Some((x as nat, y as nat, z as nat)),
        _ => None,
    }
}

/// The place in the buffer of the first byte of a texel of an image of a
/// texture. The layer, the face and the level are counted from the bases of
/// the texture.
pub open spec fn spec_texel_offset(
    texture: &Texture,
    layer: nat,
    face: nat,
    level: nat,
    x: nat,
    y: nat,
    z: nat,
) -> nat {
    texture.spec_image_offset(layer, face, level) + texture.spec_layout().spec_block_place(
        (texture.spec_descriptor().base_level + level) as nat,
        x,
        y,
        z,
    )
}

/// Whether a texture can be sampled with the given wrap mode and filters:
/// it is not empty, its buffer stores single texels, not compressed blocks,
/// and the three numbers name a wrap mode and two filters.
pub open spec fn spec_can_sample(texture: &Texture, wrap: Wrap, mip: Filter, min: Filter) -> bool {
    &&& !texture.spec_empty()
    &&& texture.spec_layout().block_extent == (Extent3d { width: 1, height: 1, depth: 1 })
    &&& wrap.spec_is_valid()
    &&& mip.spec_is_valid()
    &&& min.spec_is_valid()
}

/// The bytes of buffer `bytes` after every texel of the first `levels` mip
/// levels of one face of a texture has been set to `texel`.
pub open spec fn spec_clear_levels(
    bytes: Seq<u8>,
    texture: &Texture,
    texel: Seq<u8>,
    layer: nat,
    face: nat,
    levels: nat,
) -> Seq<u8>
    decreases levels,
{
    if levels == 0 {
        bytes
    } else {
        spec_tile(
            spec_clear_levels(bytes, texture, texel, layer, face, (levels - 1) as nat),
            texture.spec_image_offset(layer, face, (levels - 1) as nat) as int,
            texture.spec_size_at_level((levels - 1) as nat) as int,
            texel,
        )
    }
}

/// The bytes of buffer `bytes` after every texel of the first `faces` faces
/// of one layer of a texture has been set to `texel`.
pub open spec fn spec_clear_faces(
    bytes: Seq<u8>,
    texture: &Texture,
    texel: Seq<u8>,
    layer: nat,
    faces: nat,
) -> Seq<u8>
    decreases faces,
{
    if faces == 0 {
        bytes
    } else {
        spec_clear_levels(
            spec_clear_faces(bytes, texture, texel, layer, (faces - 1) as nat),
            texture,
            texel,
            layer,
            (faces - 1) as nat,
            texture.spec_levels(),
        )
    }
}

/// The bytes of buffer `bytes` after every texel of the first `layers`
/// layers of a texture has been set to `texel`.
pub open spec fn spec_clear_layers(
    bytes: Seq<u8>,
    texture: &Texture,
    texel: Seq<u8>,
    layers: nat,
) -> Seq<u8>
    decreases layers,
{
    if layers == 0 {
        bytes
    } else {
        spec_clear_faces(
            spec_clear_layers(bytes, texture, texel, (layers - 1) as nat),
            texture,
            texel,
            (layers - 1) as nat,
            texture.spec_faces(),
        )
    }
}

/// The bytes of buffer `bytes` after the image at `layer`, `face` and
/// `level` of a texture has been made anew from the image one level above
/// it, the larger one.
pub open spec fn spec_mip_image(
    bytes: Seq<u8>,
    texture: &Texture,
    filter: Filter,
    layer: nat,
    face: nat,
    level: nat,
) -> Seq<u8> {
    spec_write(
        bytes,
        texture.spec_image_offset(layer, face, level) as int,
        spec_downsample(
            filter,
            bytes.subrange(
                texture.spec_image_offset(layer, face, (level - 1) as nat) as int,
                (texture.spec_image_offset(layer, face, (level - 1) as nat)
                    + texture.spec_size_at_level((level - 1) as nat)) as int,
            ),
            texture.spec_extent((level - 1) as nat),
            texture.spec_extent(level),
            texture.spec_layout().block_size as nat,
        ),
    )
}

/// The bytes of buffer `bytes` after the images at `level` of the faces from
/// `base_face` up to, not including, `end_face` of one layer have been made
/// anew.
pub open spec fn spec_mip_faces(
    bytes: Seq<u8>,
    texture: &Texture,
    filter: Filter,
    layer: nat,
    level: nat,
    base_face: nat,
    end_face: nat,
) -> Seq<u8>
    decreases end_face,
{
    if end_face <= base_face {
        bytes
    } else {
        spec_mip_image(
            spec_mip_faces(bytes, texture, filter, layer, level, base_face, (end_face - 1) as nat),
            texture,
            filter,
            layer,
            (end_face - 1) as nat,
            level,
        )
    }
}

/// The bytes of buffer `bytes` after the images at `level` of the given
/// faces of the layers from `base_layer` up to, not including, `end_layer`
/// have been made anew.
pub open spec fn spec_mip_layers(
    bytes: Seq<u8>,
    texture: &Texture,
    filter: Filter,
    level: nat,
    base_face: nat,
    end_face: nat,
    base_layer: nat,
    end_layer: nat,
) -> Seq<u8>
    decreases end_layer,
{
    if end_layer <= base_layer {
        bytes
    } else {
        spec_mip_faces(
            spec_mip_layers(
                bytes,
                texture,
                filter,
                level,
                base_face,
                end_face,
                base_layer,
                (end_layer - 1) as nat,
            ),
            texture,
            filter,
            (end_layer - 1) as nat,
            level,
            base_face,
            end_face,
        )
    }
}

/// The bytes of buffer `bytes` after the mip levels after `base_level`, up
/// to and including `max_level`, of the given layers and faces have been
/// made anew, each from the level above it, the larger ones first.
pub open spec fn spec_mip_levels(
    bytes: Seq<u8>,
    texture: &Texture,
    filter: Filter,
    base_layer: nat,
    end_layer: nat,
    base_face: nat,
    end_face: nat,
    base_level: nat,
    max_level: nat,
) -> Seq<u8>
    decreases max_level,
{
    if max_level <= base_level {
        bytes
    } else {
        spec_mip_layers(
            spec_mip_levels(
                bytes,
                texture,
                filter,
                base_layer,
                end_layer,
                base_face,
                end_face,
                base_level,
                (max_level - 1) as nat,
            ),
            texture,
            filter,
            max_level,
            base_face,
            end_face,
            base_layer,
            end_layer,
        )
    }
}

/// Making mip levels moves no byte: the buffer keeps its size.
pub proof fn lemma_mip_faces_keeps_length(
    bytes: Seq<u8>,
    texture: &Texture,
    filter: Filter,
    layer: nat,
    level: nat,
    base_face: nat,
    end_face: nat,
)
    ensures
        spec_mip_faces(bytes, texture, filter, layer, level, base_face, end_face).len()
            == bytes.len(),
    decreases end_face,
{
    if end_face > base_face {
        lemma_mip_faces_keeps_length(
            bytes,
            texture,
            filter,
            layer,
            level,
            base_face,
            (end_face - 1) as nat,
        );
    }
}

/// Making mip levels moves no byte: the buffer keeps its size.
pub proof fn lemma_mip_layers_keeps_length(
    bytes: Seq<u8>,
    texture: &Texture,
    filter: Filter,
    level: nat,
    base_face: nat,
    end_face: nat,
    base_layer: nat,
    end_layer: nat,
)
    ensures
        spec_mip_layers(
            bytes,
            texture,
            filter,
            level,
            base_face,
            end_face,
            base_layer,
            end_layer,
        ).len() == bytes.len(),
    decreases end_layer,
{
    if end_layer > base_layer {
        lemma_mip_layers_keeps_length(
            bytes,
            texture,
            filter,
            level,
            base_face,
            end_face,
            base_layer,
            (end_layer - 1) as nat,
        );
        lemma_mip_faces_keeps_length(
            spec_mip_layers(
                bytes,
                texture,
                filter,
                level,
                base_face,
                end_face,
                base_layer,
                (end_layer - 1) as nat,
            ),
            texture,
            filter,
            (end_layer - 1) as nat,
            level,
            base_face,
            end_face,
        );
    }
}

/// Making mip levels moves no byte: the buffer keeps its size.
pub proof fn lemma_mip_levels_keeps_length(
    bytes: Seq<u8>,
    texture: &Texture,
    filter: Filter,
    base_layer: nat,
    end_layer: nat,
    base_face: nat,
    end_face: nat,
    base_level: nat,
    max_level: nat,
)
    ensures
        spec_mip_levels(
            bytes,
            texture,
            filter,
            base_layer,
            end_layer,
            base_face,
            end_face,
            base_level,
            max_level,
        ).len() == bytes.len(),
    decreases max_level,
{
    if max_level > base_level {
        lemma_mip_levels_keeps_length(
            bytes,
            texture,
            filter,
            base_layer,
            end_layer,
            base_face,
            end_face,
            base_level,
            (max_level - 1) as nat,
        );
        lemma_mip_layers_keeps_length(
            spec_mip_levels(
                bytes,
                texture,
                filter,
                base_layer,
                end_layer,
                base_face,
                end_face,
                base_level,
                (max_level - 1) as nat,
            ),
            texture,
            filter,
            max_level,
            base_face,
            end_face,
            base_layer,
            end_layer,
        );
    }
}

impl<'a> Sampler<'a> {
    /// The texture that the sampler borrows.
    pub closed spec fn spec_texture(&self) -> Texture {
        *self.texture
    }

    pub closed spec fn spec_wrap(&self) -> Wrap {
        self.wrap
    }

    /// The filter between mip levels.
    pub closed spec fn spec_mip(&self) -> Filter {
        self.mip
    }

    /// The filter inside a mip level.
    pub closed spec fn spec_min(&self) -> Filter {
        self.min
    }

    /// The bytes of the border color.
    pub closed spec fn spec_border(&self) -> Seq<u8> {
        self.border@
    }

    /// A sampler is well formed when its texture is well formed and can be
    /// sampled, and its border color has the size of a texel.
    pub open spec fn wf(&self) -> bool {
        &&& self.spec_texture().wf()
        &&& spec_can_sample(
            &self.spec_texture(),
            self.spec_wrap(),
            self.spec_mip(),
            self.spec_min(),
        )
        &&& self.spec_border().len() == self.spec_texture().spec_layout().block_size
    }

    #[verifier::type_invariant]
    spec fn inv(&self) -> bool {
        self.wf()
    }

    /// The size in bytes of a texel.
    pub open spec fn spec_texel_size(&self) -> nat {
        self.spec_texture().spec_layout().block_size as nat
    }

    /// What a fetch at the given coordinates gives: the bytes of the texel
    /// that the coordinates fall on, or the border color.
    pub open spec fn spec_fetch(
        &self,
        pool: Seq<Buffer>,
        coord: TexelCoord,
        layer: nat,
        face: nat,
        level: nat,
    ) -> Seq<u8> {
        match spec_resolve(self.spec_wrap(), coord, self.spec_texture().spec_extent(level)) {
            Some((x, y, z)) => pool[self.spec_texture().spec_buffer().unwrap() as int].bytes.subrange(
                spec_texel_offset(&self.spec_texture(), layer, face, level, x, y, z) as int,
                (spec_texel_offset(&self.spec_texture(), layer, face, level, x, y, z)
                    + self.spec_texel_size()) as int,
            ),
            None => self.spec_border(),
        }
    }

    /// Makes a sampler of a texture. The border color is made of zero
    /// bytes. Fails unless the texture can be sampled with the given wrap
    /// mode and filters.
    pub fn new(texture: &'a Texture, wrap: Wrap, mip: Filter, min: Filter) -> (r: Result<
        Sampler<'a>,
        Error,
    >)
        ensures
            r.is_ok() == spec_can_sample(texture, wrap, mip, min),
            r matches Ok(s) ==> {
                &&& s.wf()
                &&& s.spec_texture() == *texture
                &&& s.spec_wrap() == wrap
                &&& s.spec_mip() == mip
                &&& s.spec_min() == min
                &&& s.spec_border() == Seq::new(s.spec_texel_size(), |i: int| 0u8)
            },
            r matches Err(e) ==> e.spec_is_bug(),
    {
        if texture.empty() {
            return Err(Error::bug("the empty texture cannot be sampled"));
        }
        let layout = texture.layout();
        if !(layout.block_extent.width == 1 && layout.block_extent.height == 1
            && layout.block_extent.depth == 1) {
            return Err(Error::bug("a texture of compressed blocks cannot be sampled"));
        }
        if !wrap.is_valid() || !mip.is_valid() || !min.is_valid() {
            return Err(Error::bug("the wrap mode or a filter is not known"));
        }
        let mut border: Vec<u8> = Vec::new();
        let mut k: usize = 0;
        while k < layout.block_size
            invariant
                k <= layout.block_size,
                border@ == Seq::new(k as nat, |i: int| 0u8),
            decreases layout.block_size - k,
        {
            border.push(0u8);
            k = k + 1;
            assert(border@ =~= Seq::new(k as nat, |i: int| 0u8));
        }
        Ok(Sampler { texture, wrap, mip, min, border })
    }

    /// The texture that the sampler borrows.
    pub fn texture(&self) -> (t: &'a Texture)
        ensures
            *t == self.spec_texture(),
            self.wf(),
    {
        proof {
            use_type_invariant(self);
        }
        self.texture
    }

    /// The wrap mode of the sampler.
    pub fn wrap(&self) -> (r: Wrap)
        ensures
            r == self.spec_wrap(),
    {
        self.wrap
    }

    /// The filter between mip levels.
    pub fn mip_filter(&self) -> (r: Filter)
        ensures
            r == self.spec_mip(),
    {
        self.mip
    }

    /// The filter inside a mip level.
    pub fn min_filter(&self) -> (r: Filter)
        ensures
            r == self.spec_min(),
    {
        self.min
    }

    /// The bytes of the border color.
    pub fn border_color(&self) -> (r: &[u8])
        ensures
            r@ == self.spec_border(),
    {
        self.border.as_slice()
    }

    /// Set the border color used by the sampler: the bytes of the texel
    /// that is seen outside the image with the two border modes. Fails,
    /// and changes nothing, unless the color has the size of a texel.
    pub fn set_border_color(&mut self, color: &[u8]) -> (r: Result<(), Error>)
        ensures
            old(self).spec_border_set(final(self), color@, r),
    {
        proof {
            use_type_invariant(&*self);
        }
        if color.len() != self.border.len() {
            return Err(Error::bug("the color does not have the size of a texel"));
        }
        let copy = vstd::slice::slice_to_vec(color);
        self.border = copy;
        Ok(())
    }

    /// The place in the buffer of the texel that the coordinates fall on,
    /// or `None` if they fall on the border.
    fn locate(&self, coord: TexelCoord, layer: usize, face: usize, level: usize) -> (r: Option<
        usize,
    >)
        requires
            self.spec_texture().spec_shows(layer as nat, face as nat, level as nat),
        ensures
            self.wf(),
            r.is_some() == spec_resolve(
                self.spec_wrap(),
                coord,
                self.spec_texture().spec_extent(level as nat),
            ).is_some(),
            r matches Some(offset) ==> {
                &&& spec_resolve(
                    self.spec_wrap(),
                    coord,
                    self.spec_texture().spec_extent(level as nat),
                ) matches Some((x, y, z))
                &&& offset == spec_texel_offset(
                    &self.spec_texture(),
                    layer as nat,
                    face as nat,
                    level as nat,
                    x,
                    y,
                    z,
                )
                &&& offset + self.spec_texel_size() <= self.spec_texture().spec_layout().spec_size()
            },
    {
        proof {
            use_type_invariant(self);
        }
        let texture = self.texture;
        let layout = texture.layout();
        let base = match texture.image_offset(layer, face, level) {
            Some(base) => base,
            None => {
                return None;
            },
        };
        let extent = texture.extent(level);
        let deep: usize = texture.base_level() + level;
        proof {
            crate::layout::lemma_mip_bounds(layout.extent.width as nat, deep as nat);
            crate::layout::lemma_mip_bounds(layout.extent.height as nat, deep as nat);
            crate::layout::lemma_mip_bounds(layout.extent.depth as nat, deep as nat);
            lemma_blocks_bounds(extent.width as nat, 1);
            lemma_blocks_bounds(extent.height as nat, 1);
            lemma_blocks_bounds(extent.depth as nat, 1);
        }
        let x = fold(self.wrap, coord.x, extent.width);
        let y = fold(self.wrap, coord.y, extent.height);
        let z = fold(self.wrap, coord.z, extent.depth);
        match (x, y, z) {
            (Some(x), Some(y), Some(z)) => {
                let place = layout.block_place(deep, x, y, z);
                Some(base + place)
            },
            _ => None,
        }
    }

    /// Fetch a texel from the sampler texture: the bytes of the texel that
    /// the coordinates fall on in the image at `layer`, `face` and `level`,
    /// or the border color. The layer, the face and the level are counted
    /// from the bases of the texture. Fails unless the texture shows that
    /// image and the pool holds the buffer of the texture.
    pub fn texel_fetch(
        &self,
        pool: &Pool,
        coord: TexelCoord,
        layer: usize,
        face: usize,
        level: usize,
    ) -> (r: Result<Vec<u8>, Error>)
        ensures
            self.spec_fetched(pool@, coord, layer as nat, face as nat, level as nat, r),
    {
        proof {
            use_type_invariant(self);
        }
        let texture = self.texture;
        if !texture.held_by(pool) {
            return Err(Error::bug("the pool does not hold the buffer of the texture"));
        }
        if !(layer < texture.layers() && face < texture.faces() && level < texture.levels()) {
            return Err(Error::bug("the texture does not show the image"));
        }
        let id = match texture.buffer_id() {
            Some(id) => id,
            None => {
                return Err(Error::bug("the empty texture cannot be sampled"));
            },
        };
        match self.locate(coord, layer, face, level) {
            Some(offset) => {
                match pool.read(id, offset, self.border.len()) {
                    Some(bytes) => Ok(bytes),
                    None => Err(Error::bug("the pool does not hold the buffer of the texture")),
                }
            },
            None => Ok(vstd::slice::slice_to_vec(self.border.as_slice())),
        }
    }

    /// Write a texel in the sampler texture: the bytes of the texel that
    /// the coordinates fall on become `texel`, and every other byte is as it
    /// was. Coordinates that fall on the border write nothing. Fails, and
    /// changes nothing, unless the texture shows the image at `layer`,
    /// `face` and `level`, the pool holds the buffer of the texture, and
    /// `texel` has the size of a texel.
    pub fn texel_write(
        &self,
        pool: &mut Pool,
        coord: TexelCoord,
        layer: usize,
        face: usize,
        level: usize,
        texel: &[u8],
    ) -> (r: Result<(), Error>)
        ensures
            self.spec_written(
                old(pool)@,
                final(pool)@,
                coord,
                layer as nat,
                face as nat,
                level as nat,
                texel@,
                r,
            ),
    {
        proof {
            use_type_invariant(self);
        }
        let texture = self.texture;
        if !texture.held_by(pool) {
            return Err(Error::bug("the pool does not hold the buffer of the texture"));
        }
        if !(layer < texture.layers() && face < texture.faces() && level < texture.levels()) {
            return Err(Error::bug("the texture does not show the image"));
        }
        if texel.len() != self.border.len() {
            return Err(Error::bug("the bytes do not have the size of a texel"));
        }
        let id = match texture.buffer_id() {
            Some(id) => id,
            None => {
                return Err(Error::bug("the empty texture cannot be sampled"));
            },
        };
        match self.locate(coord, layer, face, level) {
            Some(offset) => {
                let done = pool.write(id, offset, texel);
                assert(done);
                Ok(())
            },
            None => Ok(()),
        }
    }

    /// Clear the sampler texture with a uniform texel: every texel of every
    /// image that the texture shows becomes `texel`, and every other byte
    /// is as it was. Fails, and changes nothing, unless the pool holds the
    /// buffer of the texture and `texel` has the size of a texel.
    pub fn clear(&self, pool: &mut Pool, texel: &[u8]) -> (r: Result<(), Error>)
        ensures
            self.spec_cleared(old(pool)@, final(pool)@, texel@, r),
    {
        proof {
            use_type_invariant(self);
        }
        let texture = self.texture;
        if !texture.held_by(pool) {
            return Err(Error::bug("the pool does not hold the buffer of the texture"));
        }
        if texel.len() != self.border.len() {
            return Err(Error::bug("the bytes do not have the size of a texel"));
        }
        let id = match texture.buffer_id() {
            Some(id) => id,
            None => {
                return Err(Error::bug("the empty texture cannot be sampled"));
            },
        };
        let layers = texture.layers();
        let faces = texture.faces();
        let levels = texture.levels();
        let ghost before = pool@;
        let ghost start = pool@[id as int].bytes;
        assert(pool@ =~= spec_with_bytes(before, id as int, start));
        let mut layer: usize = 0;
        while layer < layers
            invariant
                layer <= layers,
                layers == texture.spec_layers(),
                faces == texture.spec_faces(),
                levels == texture.spec_levels(),
                texture.wf(),
                texture.spec_buffer() == Some(id),
                texture.spec_held_by(before),
                start == before[id as int].bytes,
                texel@.len() == texture.spec_layout().block_size,
                texel@.len() >= 1,
                pool@ == spec_with_bytes(
                    before,
                    id as int,
                    spec_clear_layers(start, texture, texel@, layer as nat),
                ),
            decreases layers - layer,
        {
            let ghost at_layer = spec_clear_layers(start, texture, texel@, layer as nat);
            let mut face: usize = 0;
            while face < faces
                invariant
                    layer < layers,
                    face <= faces,
                    layers == texture.spec_layers(),
                    faces == texture.spec_faces(),
                    levels == texture.spec_levels(),
                    texture.wf(),
                    texture.spec_buffer() == Some(id),
                    texture.spec_held_by(before),
                    start == before[id as int].bytes,
                    at_layer == spec_clear_layers(start, texture, texel@, layer as nat),
                    texel@.len() == texture.spec_layout().block_size,
                    texel@.len() >= 1,
                    pool@ == spec_with_bytes(
                        before,
                        id as int,
                        spec_clear_faces(at_layer, texture, texel@, layer as nat, face as nat),
                    ),
                decreases faces - face,
            {
                let ghost at_face = spec_clear_faces(
                    at_layer,
                    texture,
                    texel@,
                    layer as nat,
                    face as nat,
                );
                proof {
                    lemma_clear_faces_keeps_length(
                        at_layer,
                        texture,
                        texel@,
                        layer as nat,
                        face as nat,
                    );
                    lemma_clear_layers_keeps_length(start, texture, texel@, layer as nat);
                }
                let mut level: usize = 0;
                while level < levels
                    invariant
                        layer < layers,
                        face < faces,
                        level <= levels,
                        at_face.len() == start.len(),
                        layers == texture.spec_layers(),
                        faces == texture.spec_faces(),
                        levels == texture.spec_levels(),
                        texture.wf(),
                        texture.spec_buffer() == Some(id),
                        texture.spec_held_by(before),
                        start == before[id as int].bytes,
                        texel@.len() == texture.spec_layout().block_size,
                        texel@.len() >= 1,
                        pool@ == spec_with_bytes(
                            before,
                            id as int,
                            spec_clear_levels(
                                at_face,
                                texture,
                                texel@,
                                layer as nat,
                                face as nat,
                                level as nat,
                            ),
                        ),
                    decreases levels - level,
                {
                    let ghost now = spec_clear_levels(
                        at_face,
                        texture,
                        texel@,
                        layer as nat,
                        face as nat,
                        level as nat,
                    );
                    let offset = texture.image_offset(layer, face, level).unwrap();
                    let size = texture.size_at_level(level);
                    proof {
                        lemma_clear_keeps_length(
                            at_face,
                            texture,
                            texel@,
                            layer as nat,
                            face as nat,
                            level as nat,
                        );
                        assert(now.len() == start.len());
                    }
                    let done = pool.tile(id, offset, size, texel);
                    assert(done);
                    level = level + 1;
                    assert(pool@ =~= spec_with_bytes(
                        before,
                        id as int,
                        spec_clear_levels(
                            at_face,
                            texture,
                            texel@,
                            layer as nat,
                            face as nat,
                            level as nat,
                        ),
                    ));
                }
                face = face + 1;
            }
            layer = layer + 1;
        }
        proof {
            lemma_clear_layers(start, texture, texel@, layers as nat);
        }
        Ok(())
    }

    /// What holds of the result `r` of a fetch: it fails unless the texture
    /// shows the image and the pool holds the buffer of the texture, and
    /// else gives the bytes of the texel that the coordinates fall on, or
    /// the border color.
    pub open spec fn spec_fetched(
        &self,
        pool: Seq<Buffer>,
        coord: TexelCoord,
        layer: nat,
        face: nat,
        level: nat,
        r: Result<Vec<u8>, Error>,
    ) -> bool {
        &&& r.is_ok() == (self.spec_texture().spec_held_by(pool) && self.spec_texture().spec_shows(
            layer,
            face,
            level,
        ))
        &&& r matches Ok(texel) ==> texel@ == self.spec_fetch(pool, coord, layer, face, level)
            && texel@.len() == self.spec_texel_size()
        &&& r matches Err(e) ==> e.spec_is_bug()
    }

    /// What holds of the result `r` of a write that takes the pool from
    /// `before` to `after`: it fails, and changes nothing, unless the
    /// texture shows the image, the pool holds the buffer of the texture
    /// and `texel` has the size of a texel; else the bytes of the texel
    /// that the coordinates fall on are `texel`, and every other byte is as
    /// it was. Coordinates that fall on the border write nothing.
    pub open spec fn spec_written(
        &self,
        before: Seq<Buffer>,
        after: Seq<Buffer>,
        coord: TexelCoord,
        layer: nat,
        face: nat,
        level: nat,
        texel: Seq<u8>,
        r: Result<(), Error>,
    ) -> bool {
        &&& r.is_ok() == (self.spec_texture().spec_held_by(before)
            && self.spec_texture().spec_shows(layer, face, level) && texel.len()
            == self.spec_texel_size())
        &&& r.is_ok() ==> after == (match spec_resolve(
            self.spec_wrap(),
            coord,
            self.spec_texture().spec_extent(level),
        ) {
            Some((x, y, z)) => spec_with_bytes(
                before,
                self.spec_texture().spec_buffer().unwrap() as int,
                spec_write(
                    before[self.spec_texture().spec_buffer().unwrap() as int].bytes,
                    spec_texel_offset(&self.spec_texture(), layer, face, level, x, y, z) as int,
                    texel,
                ),
            ),
            None => before,
        })
        &&& r matches Err(e) ==> e.spec_is_bug() && after == before
    }

    /// What holds of the result `r` of a clear that takes the pool from
    /// `before` to `after`: it fails, and changes nothing, unless the pool
    /// holds the buffer of the texture and `texel` has the size of a texel;
    /// else every image that the texture shows holds copies of `texel`, and
    /// every other image of the buffer, and every other buffer, is as it
    /// was.
    pub open spec fn spec_cleared(
        &self,
        before: Seq<Buffer>,
        after: Seq<Buffer>,
        texel: Seq<u8>,
        r: Result<(), Error>,
    ) -> bool {
        &&& r.is_ok() == (self.spec_texture().spec_held_by(before) && texel.len()
            == self.spec_texel_size())
        &&& r.is_ok() ==> after == spec_with_bytes(
            before,
            self.spec_texture().spec_buffer().unwrap() as int,
            after[self.spec_texture().spec_buffer().unwrap() as int].bytes,
        )
        &&& r.is_ok() ==> after[self.spec_texture().spec_buffer().unwrap() as int].bytes.len()
            == before[self.spec_texture().spec_buffer().unwrap() as int].bytes.len()
        &&& r.is_ok() ==> forall|l: nat, f: nat, v: nat|
            self.spec_texture().spec_layout().spec_has(l, f, v)
                ==> #[trigger] self.spec_texture().spec_layout().spec_image(
                after[self.spec_texture().spec_buffer().unwrap() as int].bytes,
                l,
                f,
                v,
            ) == if self.spec_texture().spec_shows_place(l, f, v) {
                spec_pattern(texel, self.spec_texture().spec_layout().spec_level_size(v))
            } else {
                self.spec_texture().spec_layout().spec_image(
                    before[self.spec_texture().spec_buffer().unwrap() as int].bytes,
                    l,
                    f,
                    v,
                )
            }
        &&& r matches Err(e) ==> e.spec_is_bug() && after == before
    }

    /// What holds of the result `r` of making mip levels, which takes the
    /// pool from `before` to `after`: it fails, and changes nothing, unless
    /// mip levels can be made with the given ranges and filter; else each
    /// image of the ranges at a level after `base_level`, up to `max_level`,
    /// is the image one level above it, as it is in the end, made smaller,
    /// and every other image of the buffer, and every other buffer, is as it
    /// was.
    pub open spec fn spec_generated(
        &self,
        before: Seq<Buffer>,
        after: Seq<Buffer>,
        base_layer: nat,
        max_layer: nat,
        base_face: nat,
        max_face: nat,
        base_level: nat,
        max_level: nat,
        minification: Filter,
        r: Result<(), Error>,
    ) -> bool {
        &&& r.is_ok() == self.spec_can_generate(
            before,
            base_layer,
            max_layer,
            base_face,
            max_face,
            base_level,
            max_level,
            minification,
        )
        &&& r.is_ok() ==> after == spec_with_bytes(
            before,
            self.spec_texture().spec_buffer().unwrap() as int,
            after[self.spec_texture().spec_buffer().unwrap() as int].bytes,
        )
        &&& r.is_ok() ==> after[self.spec_texture().spec_buffer().unwrap() as int].bytes.len()
            == before[self.spec_texture().spec_buffer().unwrap() as int].bytes.len()
        &&& r.is_ok() ==> forall|l: nat, f: nat, v: nat|
            self.spec_texture().spec_layout().spec_has(l, f, v)
                ==> #[trigger] self.spec_texture().spec_layout().spec_image(
                after[self.spec_texture().spec_buffer().unwrap() as int].bytes,
                l,
                f,
                v,
            ) == if spec_makes(
                &self.spec_texture(),
                base_layer,
                max_layer + 1,
                base_face,
                max_face + 1,
                base_level,
                max_level,
                l,
                f,
                v,
            ) {
                spec_shrunk(
                    self.spec_texture().spec_layout(),
                    minification,
                    after[self.spec_texture().spec_buffer().unwrap() as int].bytes,
                    l,
                    f,
                    v,
                )
            } else {
                self.spec_texture().spec_layout().spec_image(
                    before[self.spec_texture().spec_buffer().unwrap() as int].bytes,
                    l,
                    f,
                    v,
                )
            }
        &&& r matches Err(e) ==> e.spec_is_bug() && after == before
    }

    /// What holds after the border color was set to `color`: nothing but
    /// the border color has changed, and it has not either unless `color`
    /// has the size of a texel.
    pub open spec fn spec_border_set(
        &self,
        after: &Sampler<'a>,
        color: Seq<u8>,
        r: Result<(), Error>,
    ) -> bool {
        &&& after.wf()
        &&& after.spec_texture() == self.spec_texture()
        &&& after.spec_wrap() == self.spec_wrap()
        &&& after.spec_mip() == self.spec_mip()
        &&& after.spec_min() == self.spec_min()
        &&& r.is_ok() == (color.len() == self.spec_texel_size())
        &&& r.is_ok() ==> after.spec_border() == color
        &&& r matches Err(e) ==> e.spec_is_bug() && after.spec_border() == self.spec_border()
    }

    /// Whether mip levels can be made with the given ranges and filter: the
    /// pool holds the buffer of the texture; the ranges, counted from the
    /// bases of the texture, are in order and inside what the texture
    /// shows; the filter is known; and for the linear filter the bytes of
    /// the format are unsigned channels of their own.
    pub open spec fn spec_can_generate(
        &self,
        pool: Seq<Buffer>,
        base_layer: nat,
        max_layer: nat,
        base_face: nat,
        max_face: nat,
        base_level: nat,
        max_level: nat,
        minification: Filter,
    ) -> bool {
        &&& self.spec_texture().spec_held_by(pool)
        &&& base_layer <= max_layer < self.spec_texture().spec_layers()
        &&& base_face <= max_face < self.spec_texture().spec_faces()
        &&& base_level <= max_level < self.spec_texture().spec_levels()
        &&& minification.spec_is_valid()
        &&& (minification.0 == Filter::LINEAR ==> spec_has_byte_channels(
            self.spec_texture().spec_descriptor().format,
        ))
    }

    /// Makes one image anew from the image one level above it.
    fn generate_image(
        &self,
        pool: &mut Pool,
        layer: usize,
        face: usize,
        level: usize,
        minification: Filter,
    )
        requires
            self.wf(),
            self.spec_texture().spec_held_by(old(pool)@),
            self.spec_texture().spec_shows(layer as nat, face as nat, level as nat),
            level >= 1,
        ensures
            final(pool)@ == spec_with_bytes(
                old(pool)@,
                self.spec_texture().spec_buffer().unwrap() as int,
                spec_mip_image(
                    old(pool)@[self.spec_texture().spec_buffer().unwrap() as int].bytes,
                    &self.spec_texture(),
                    minification,
                    layer as nat,
                    face as nat,
                    level as nat,
                ),
            ),
    {
        let texture = self.texture;
        let layout = texture.layout();
        let id = texture.buffer_id().unwrap();
        let from = texture.extent(level - 1);
        let to = texture.extent(level);
        let from_offset = texture.image_offset(layer, face, level - 1).unwrap();
        let to_offset = texture.image_offset(layer, face, level).unwrap();
        let from_size = texture.size_at_level(level - 1);
        let to_size = texture.size_at_level(level);
        let ghost deep = (texture.spec_descriptor().base_level + level) as nat;
        proof {
            let w = layout.extent.width as nat;
            let h = layout.extent.height as nat;
            let d = layout.extent.depth as nat;
            crate::layout::lemma_mip_bounds(w, deep);
            crate::layout::lemma_mip_bounds(h, deep);
            crate::layout::lemma_mip_bounds(d, deep);
            crate::layout::lemma_mip_bounds(w, (deep - 1) as nat);
            crate::layout::lemma_mip_bounds(h, (deep - 1) as nat);
            crate::layout::lemma_mip_bounds(d, (deep - 1) as nat);
            crate::layout::lemma_mip_step(w, (deep - 1) as nat);
            crate::layout::lemma_mip_step(h, (deep - 1) as nat);
            crate::layout::lemma_mip_step(d, (deep - 1) as nat);
            lemma_blocks_bounds(from.width as nat, 1);
            lemma_blocks_bounds(from.height as nat, 1);
            lemma_blocks_bounds(from.depth as nat, 1);
            lemma_blocks_bounds(to.width as nat, 1);
            lemma_blocks_bounds(to.height as nat, 1);
            lemma_blocks_bounds(to.depth as nat, 1);
            let bs = layout.block_size as nat;
            assert(from.depth as nat * (from.height as nat * (from.width as nat * bs))
                == from.depth as nat * from.height as nat * from.width as nat * bs)
                by (nonlinear_arith);
            assert(to.depth as nat * (to.height as nat * (to.width as nat * bs)) == to.depth as nat
                * to.height as nat * to.width as nat * bs) by (nonlinear_arith);
        }
        let larger = pool.span(id, from_offset, from_size).unwrap();
        let made = downsample(minification, larger, from, to, layout.block_size);
        let done = pool.write(id, to_offset, made.as_slice());
        assert(done);
    }

    /// Generate the mipmaps of the sampler texture from the level
    /// `base_level` to the level `max_level` included, for the layers from
    /// `base_layer` to `max_layer` and the faces from `base_face` to
    /// `max_face`, all counted from the bases of the texture. Each level
    /// after `base_level` is made anew from the level above it, the larger
    /// ones first; the level `base_level` and every other byte stay as they
    /// are. Fails, and changes nothing, unless mip levels can be made with
    /// these ranges and this filter: a range that goes beyond the mip chain
    /// of the texture is refused.
    pub fn generate_mipmaps_detail(
        &self,
        pool: &mut Pool,
        base_layer: usize,
        max_layer: usize,
        base_face: usize,
        max_face: usize,
        base_level: usize,
        max_level: usize,
        minification: Filter,
    ) -> (r: Result<(), Error>)
        ensures
            self.spec_generated(
                old(pool)@,
                final(pool)@,
                base_layer as nat,
                max_layer as nat,
                base_face as nat,
                max_face as nat,
                base_level as nat,
                max_level as nat,
                minification,
                r,
            ),
    {
        proof {
            use_type_invariant(self);
        }
        let texture = self.texture;
        if !texture.held_by(pool) {
            return Err(Error::bug("the pool does not hold the buffer of the texture"));
        }
        if !(base_layer <= max_layer && max_layer < texture.layers() && base_face <= max_face
            && max_face < texture.faces() && base_level <= max_level && max_level
            < texture.levels()) {
            return Err(Error::bug("the ranges are not inside the texture"));
        }
        if !minification.is_valid() {
            return Err(Error::bug("the filter is not known"));
        }
        if minification.0 == Filter::LINEAR && !has_byte_channels(texture.format()) {
            return Err(
                Error::bug("the linear filter needs a format of unsigned byte channels"),
            );
        }
        let id = texture.buffer_id().unwrap();
        let ghost before = pool@;
        let ghost start = pool@[id as int].bytes;
        let ghost end_layer = (max_layer + 1) as nat;
        let ghost end_face = (max_face + 1) as nat;
        assert(pool@ =~= spec_with_bytes(before, id as int, start));
        let mut level: usize = base_level;
        while level < max_level
            invariant
                base_level <= level <= max_level < texture.spec_levels(),
                base_layer <= max_layer < texture.spec_layers(),
                base_face <= max_face < texture.spec_faces(),
                end_layer == max_layer + 1,
                end_face == max_face + 1,
                self.wf(),
                *texture == self.spec_texture(),
                texture.spec_buffer() == Some(id),
                texture.spec_held_by(before),
                start == before[id as int].bytes,
                pool@ == spec_with_bytes(
                    before,
                    id as int,
                    spec_mip_levels(
                        start,
                        texture,
                        minification,
                        base_layer as nat,
                        end_layer,
                        base_face as nat,
                        end_face,
                        base_level as nat,
                        level as nat,
                    ),
                ),
            decreases max_level - level,
        {
            let ghost at_level = spec_mip_levels(
                start,
                texture,
                minification,
                base_layer as nat,
                end_layer,
                base_face as nat,
                end_face,
                base_level as nat,
                level as nat,
            );
            proof {
                lemma_mip_levels_keeps_length(
                    start,
                    texture,
                    minification,
                    base_layer as nat,
                    end_layer,
                    base_face as nat,
                    end_face,
                    base_level as nat,
                    level as nat,
                );
            }
            let next: usize = level + 1;
            let mut layer: usize = base_layer;
            while layer <= max_layer
                invariant
                    base_level <= level < max_level < texture.spec_levels(),
                    next == level + 1,
                    base_layer <= layer <= max_layer + 1,
                    max_layer < texture.spec_layers(),
                    base_face <= max_face < texture.spec_faces(),
                    end_layer == max_layer + 1,
                    end_face == max_face + 1,
                    self.wf(),
                    *texture == self.spec_texture(),
                    texture.spec_buffer() == Some(id),
                    texture.spec_held_by(before),
                    start == before[id as int].bytes,
                    at_level.len() == start.len(),
                    pool@ == spec_with_bytes(
                        before,
                        id as int,
                        spec_mip_layers(
                            at_level,
                            texture,
                            minification,
                            next as nat,
                            base_face as nat,
                            end_face,
                            base_layer as nat,
                            layer as nat,
                        ),
                    ),
                decreases max_layer + 1 - layer,
            {
                let ghost at_layer = spec_mip_layers(
                    at_level,
                    texture,
                    minification,
                    next as nat,
                    base_face as nat,
                    end_face,
                    base_layer as nat,
                    layer as nat,
                );
                proof {
                    lemma_mip_layers_keeps_length(
                        at_level,
                        texture,
                        minification,
                        next as nat,
                        base_face as nat,
                        end_face,
                        base_layer as nat,
                        layer as nat,
                    );
                }
                let mut face: usize = base_face;
                while face <= max_face
                    invariant
                        base_level <= level < max_level < texture.spec_levels(),
                        next == level + 1,
                        base_layer <= layer <= max_layer < texture.spec_layers(),
                        base_face <= face <= max_face + 1,
                        max_face < texture.spec_faces(),
                        self.wf(),
                        *texture == self.spec_texture(),
                        texture.spec_buffer() == Some(id),
                        texture.spec_held_by(before),
                        start == before[id as int].bytes,
                        at_layer.len() == start.len(),
                        pool@ == spec_with_bytes(
                            before,
                            id as int,
                            spec_mip_faces(
                                at_layer,
                                texture,
                                minification,
                                layer as nat,
                                next as nat,
                                base_face as nat,
                                face as nat,
                            ),
                        ),
                    decreases max_face + 1 - face,
                {
                    proof {
                        lemma_mip_faces_keeps_length(
                            at_layer,
                            texture,
                            minification,
                            layer as nat,
                            next as nat,
                            base_face as nat,
                            face as nat,
                        );
                    }
                    self.generate_image(pool, layer, face, next, minification);
                    face = face + 1;
                    assert(pool@ =~= spec_with_bytes(
                        before,
                        id as int,
                        spec_mip_faces(
                            at_layer,
                            texture,
                            minification,
                            layer as nat,
                            next as nat,
                            base_face as nat,
                            face as nat,
                        ),
                    ));
                }
                layer = layer + 1;
            }
            level = next;
        }
        proof {
            lemma_mip_levels(
                start,
                texture,
                minification,
                base_layer as nat,
                end_layer,
                base_face as nat,
                end_face,
                base_level as nat,
                max_level as nat,
            );
        }
        Ok(())
    }

    /// Generate all the mipmaps of the sampler texture from the texture base
    /// level: every level after the first that the texture shows, of every
    /// layer and face that it shows.
    pub fn generate_mipmaps(&self, pool: &mut Pool, minification: Filter) -> (r: Result<
        (),
        Error,
    >)
        ensures
            self.spec_generated(
                old(pool)@,
                final(pool)@,
                0,
                (self.spec_texture().spec_layers() - 1) as nat,
                0,
                (self.spec_texture().spec_faces() - 1) as nat,
                0,
                (self.spec_texture().spec_levels() - 1) as nat,
                minification,
                r,
            ),
    {
        proof {
            use_type_invariant(self);
        }
        let texture = self.texture;
        let layout = texture.layout();
        self.generate_mipmaps_detail(
            pool,
            0,
            texture.layers() - 1,
            0,
            texture.faces() - 1,
            0,
            texture.levels() - 1,
            minification,
        )
    }
}

/// With the repeat mode, two fetches whose coordinates are, on each axis, a
/// whole number of images apart give the same texel.
pub proof fn lemma_fetch_repeats(
    sampler: &Sampler<'_>,
    pool: Seq<Buffer>,
    a: TexelCoord,
    b: TexelCoord,
    layer: nat,
    face: nat,
    level: nat,
)
    requires
        sampler.wf(),
        sampler.spec_wrap() == Wrap(Wrap::REPEAT),
        level < sampler.spec_texture().spec_levels(),
        (a.x - b.x) % sampler.spec_texture().spec_extent(level).width as int == 0,
        (a.y - b.y) % sampler.spec_texture().spec_extent(level).height as int == 0,
        (a.z - b.z) % sampler.spec_texture().spec_extent(level).depth as int == 0,
    ensures
        sampler.spec_fetch(pool, a, layer, face, level) == sampler.spec_fetch(
            pool,
            b,
            layer,
            face,
            level,
        ),
{
    let texture = sampler.spec_texture();
    let extent = texture.spec_extent(level);
    let deep = (texture.spec_descriptor().base_level + level) as nat;
    crate::layout::lemma_mip_bounds(texture.spec_layout().extent.width as nat, deep);
    crate::layout::lemma_mip_bounds(texture.spec_layout().extent.height as nat, deep);
    crate::layout::lemma_mip_bounds(texture.spec_layout().extent.depth as nat, deep);
    lemma_same_remainder(a.x as int, b.x as int, extent.width as int);
    lemma_same_remainder(a.y as int, b.y as int, extent.height as int);
    lemma_same_remainder(a.z as int, b.z as int, extent.depth as int);
}

/// Two numbers whose difference is a multiple of `m` have the same
/// remainder by `m`.
proof fn lemma_same_remainder(a: int, b: int, m: int)
    requires
        m >= 1,
        (a - b) % m == 0,
    ensures
        a % m == b % m,
{
    let k = (a - b) / m;
    vstd::arithmetic::div_mod::lemma_fundamental_div_mod(a - b, m);
    assert(a == b + k * m) by (nonlinear_arith)
        requires
            a - b == m * k + 0,
    ;
    crate::wrap::lemma_repeat_period(b, m, k);
}

/// What setting the texels of the first `levels` levels of one face does to
/// the images of the buffer: those levels of that face hold copies of the
/// texel, and every other image is as it was.
pub proof fn lemma_clear_levels(
    bytes: Seq<u8>,
    texture: &Texture,
    texel: Seq<u8>,
    layer: nat,
    face: nat,
    levels: nat,
)
    requires
        texture.wf(),
        bytes.len() == texture.spec_layout().spec_size(),
        layer < texture.spec_layers(),
        face < texture.spec_faces(),
        levels <= texture.spec_levels(),
    ensures
        spec_clear_levels(bytes, texture, texel, layer, face, levels).len() == bytes.len(),
        forall|l: nat, f: nat, v: nat|
            texture.spec_layout().spec_has(l, f, v) ==> #[trigger] texture.spec_layout().spec_image(
                spec_clear_levels(bytes, texture, texel, layer, face, levels),
                l,
                f,
                v,
            ) == if l == texture.spec_descriptor().base_layer + layer && f
                == texture.spec_descriptor().base_face + face
                && texture.spec_descriptor().base_level <= v
                < texture.spec_descriptor().base_level + levels {
                spec_pattern(texel, texture.spec_layout().spec_level_size(v))
            } else {
                texture.spec_layout().spec_image(bytes, l, f, v)
            },
    decreases levels,
{
    if levels > 0 {
        let layout = texture.spec_layout();
        let d = texture.spec_descriptor();
        let last = (levels - 1) as nat;
        let prev = spec_clear_levels(bytes, texture, texel, layer, face, last);
        lemma_clear_levels(bytes, texture, texel, layer, face, last);
        let xl = (d.base_layer + layer) as nat;
        let xf = (d.base_face + face) as nat;
        let xv = (d.base_level + last) as nat;
        let size = layout.spec_level_size(xv);
        layout.lemma_image_in_bounds(xl, xf, xv);
        lemma_tile_writes(prev, layout.spec_offset(xl, xf, xv) as int, size as int, texel);
        let now = spec_clear_levels(bytes, texture, texel, layer, face, levels);
        assert(now == spec_write(prev, layout.spec_offset(xl, xf, xv) as int, spec_pattern(texel, size)));
        assert forall|l: nat, f: nat, v: nat| layout.spec_has(l, f, v) implies #[trigger] layout.spec_image(
            now,
            l,
            f,
            v,
        ) == if l == d.base_layer + layer && f == d.base_face + face && d.base_level <= v
            < d.base_level + levels {
            spec_pattern(texel, layout.spec_level_size(v))
        } else {
            layout.spec_image(bytes, l, f, v)
        } by {
            layout.lemma_write_image(prev, spec_pattern(texel, size), xl, xf, xv, l, f, v);
            assert(layout.spec_image(prev, l, f, v) == if l == d.base_layer + layer && f
                == d.base_face + face && d.base_level <= v < d.base_level + last {
                spec_pattern(texel, layout.spec_level_size(v))
            } else {
                layout.spec_image(bytes, l, f, v)
            });
        }
    }
}

/// What setting the texels of the first `faces` faces of one layer does to
/// the images of the buffer.
pub proof fn lemma_clear_faces(
    bytes: Seq<u8>,
    texture: &Texture,
    texel: Seq<u8>,
    layer: nat,
    faces: nat,
)
    requires
        texture.wf(),
        bytes.len() == texture.spec_layout().spec_size(),
        layer < texture.spec_layers(),
        faces <= texture.spec_faces(),
    ensures
        spec_clear_faces(bytes, texture, texel, layer, faces).len() == bytes.len(),
        forall|l: nat, f: nat, v: nat|
            texture.spec_layout().spec_has(l, f, v) ==> #[trigger] texture.spec_layout().spec_image(
                spec_clear_faces(bytes, texture, texel, layer, faces),
                l,
                f,
                v,
            ) == if l == texture.spec_descriptor().base_layer + layer
                && texture.spec_descriptor().base_face <= f < texture.spec_descriptor().base_face
                + faces && texture.spec_descriptor().base_level <= v
                <= texture.spec_descriptor().max_level {
                spec_pattern(texel, texture.spec_layout().spec_level_size(v))
            } else {
                texture.spec_layout().spec_image(bytes, l, f, v)
            },
    decreases faces,
{
    if faces > 0 {
        let layout = texture.spec_layout();
        let d = texture.spec_descriptor();
        let last = (faces - 1) as nat;
        let prev = spec_clear_faces(bytes, texture, texel, layer, last);
        lemma_clear_faces(bytes, texture, texel, layer, last);
        lemma_clear_levels(prev, texture, texel, layer, last, texture.spec_levels());
        let now = spec_clear_faces(bytes, texture, texel, layer, faces);
        assert forall|l: nat, f: nat, v: nat| layout.spec_has(l, f, v) implies #[trigger] layout.spec_image(
            now,
            l,
            f,
            v,
        ) == if l == d.base_layer + layer && d.base_face <= f < d.base_face + faces
            && d.base_level <= v <= d.max_level {
            spec_pattern(texel, layout.spec_level_size(v))
        } else {
            layout.spec_image(bytes, l, f, v)
        } by {
            assert(layout.spec_image(prev, l, f, v) == if l == d.base_layer + layer && d.base_face
                <= f < d.base_face + last && d.base_level <= v <= d.max_level {
                spec_pattern(texel, layout.spec_level_size(v))
            } else {
                layout.spec_image(bytes, l, f, v)
            });
        }
    }
}

/// What setting the texels of the first `layers` layers does to the images
/// of the buffer.
pub proof fn lemma_clear_layers(bytes: Seq<u8>, texture: &Texture, texel: Seq<u8>, layers: nat)
    requires
        texture.wf(),
        bytes.len() == texture.spec_layout().spec_size(),
        layers <= texture.spec_layers(),
    ensures
        spec_clear_layers(bytes, texture, texel, layers).len() == bytes.len(),
        forall|l: nat, f: nat, v: nat|
            texture.spec_layout().spec_has(l, f, v) ==> #[trigger] texture.spec_layout().spec_image(
                spec_clear_layers(bytes, texture, texel, layers),
                l,
                f,
                v,
            ) == if texture.spec_descriptor().base_layer <= l
                < texture.spec_descriptor().base_layer + layers
                && texture.spec_descriptor().base_face <= f <= texture.spec_descriptor().max_face
                && texture.spec_descriptor().base_level <= v
                <= texture.spec_descriptor().max_level {
                spec_pattern(texel, texture.spec_layout().spec_level_size(v))
            } else {
                texture.spec_layout().spec_image(bytes, l, f, v)
            },
    decreases layers,
{
    if layers > 0 {
        let layout = texture.spec_layout();
        let d = texture.spec_descriptor();
        let last = (layers - 1) as nat;
        let prev = spec_clear_layers(bytes, texture, texel, last);
        lemma_clear_layers(bytes, texture, texel, last);
        lemma_clear_faces(prev, texture, texel, last, texture.spec_faces());
        let now = spec_clear_layers(bytes, texture, texel, layers);
        assert forall|l: nat, f: nat, v: nat| layout.spec_has(l, f, v) implies #[trigger] layout.spec_image(
            now,
            l,
            f,
            v,
        ) == if d.base_layer <= l < d.base_layer + layers && d.base_face <= f <= d.max_face
            && d.base_level <= v <= d.max_level {
            spec_pattern(texel, layout.spec_level_size(v))
        } else {
            layout.spec_image(bytes, l, f, v)
        } by {
            assert(layout.spec_image(prev, l, f, v) == if d.base_layer <= l < d.base_layer + last
                && d.base_face <= f <= d.max_face && d.base_level <= v <= d.max_level {
                spec_pattern(texel, layout.spec_level_size(v))
            } else {
                layout.spec_image(bytes, l, f, v)
            });
        }
    }
}

/// The image at a place of a buffer, made anew from the image one level
/// above it in the buffer with the bytes `bytes`. The place is counted in
/// the buffer.
pub open spec fn spec_shrunk(
    layout: Layout,
    filter: Filter,
    bytes: Seq<u8>,
    layer: nat,
    face: nat,
    level: nat,
) -> Seq<u8> {
    spec_downsample(
        filter,
        layout.spec_image(bytes, layer, face, (level - 1) as nat),
        layout.spec_level_extent((level - 1) as nat),
        layout.spec_level_extent(level),
        layout.block_size as nat,
    )
}

/// Whether making mip levels for the given ranges makes the image at a
/// place anew. The ranges are counted from the bases of the texture, the
/// place in the buffer.
pub open spec fn spec_makes(
    texture: &Texture,
    base_layer: nat,
    end_layer: nat,
    base_face: nat,
    end_face: nat,
    base_level: nat,
    max_level: nat,
    layer: nat,
    face: nat,
    level: nat,
) -> bool {
    &&& texture.spec_descriptor().base_layer + base_layer <= layer
        < texture.spec_descriptor().base_layer + end_layer
    &&& texture.spec_descriptor().base_face + base_face <= face
        < texture.spec_descriptor().base_face + end_face
    &&& texture.spec_descriptor().base_level + base_level < level
        <= texture.spec_descriptor().base_level + max_level
}

/// In a buffer of single texels, an image has as many bytes as its texels
/// take.
pub proof fn lemma_texel_image_size(layout: Layout, level: nat)
    requires
        layout.spec_shaped(),
        layout.block_extent == (Extent3d { width: 1, height: 1, depth: 1 }),
    ensures
        layout.spec_level_size(level) == spec_image_size(
            layout.spec_level_extent(level),
            layout.block_size as nat,
        ),
        layout.spec_level_extent(level).width >= 1,
        layout.spec_level_extent(level).height >= 1,
        layout.spec_level_extent(level).depth >= 1,
        layout.spec_level_extent(level + 1).width <= layout.spec_level_extent(level).width,
        layout.spec_level_extent(level + 1).height <= layout.spec_level_extent(level).height,
        layout.spec_level_extent(level + 1).depth <= layout.spec_level_extent(level).depth,
{
    let w = layout.extent.width as nat;
    let h = layout.extent.height as nat;
    let d = layout.extent.depth as nat;
    crate::layout::lemma_mip_bounds(w, level);
    crate::layout::lemma_mip_bounds(h, level);
    crate::layout::lemma_mip_bounds(d, level);
    crate::layout::lemma_mip_bounds(w, level + 1);
    crate::layout::lemma_mip_bounds(h, level + 1);
    crate::layout::lemma_mip_bounds(d, level + 1);
    crate::layout::lemma_mip_step(w, level);
    crate::layout::lemma_mip_step(h, level);
    crate::layout::lemma_mip_step(d, level);
    let e = layout.spec_level_extent(level);
    lemma_blocks_bounds(e.width as nat, 1);
    lemma_blocks_bounds(e.height as nat, 1);
    lemma_blocks_bounds(e.depth as nat, 1);
    let bs = layout.block_size as nat;
    assert(e.depth as nat * (e.height as nat * (e.width as nat * bs)) == e.depth as nat
        * e.height as nat * e.width as nat * bs) by (nonlinear_arith);
}

/// What making one image anew does to the images of the buffer: the image
/// is made from the image one level above it, and every other image is as it
/// was.
pub proof fn lemma_mip_image(
    bytes: Seq<u8>,
    texture: &Texture,
    filter: Filter,
    layer: nat,
    face: nat,
    level: nat,
)
    requires
        texture.wf(),
        texture.spec_layout().block_extent == (Extent3d { width: 1, height: 1, depth: 1 }),
        bytes.len() == texture.spec_layout().spec_size(),
        texture.spec_shows(layer, face, level),
        level >= 1,
    ensures
        spec_mip_image(bytes, texture, filter, layer, face, level).len() == bytes.len(),
        forall|l: nat, f: nat, v: nat|
            texture.spec_layout().spec_has(l, f, v) ==> #[trigger] texture.spec_layout().spec_image(
                spec_mip_image(bytes, texture, filter, layer, face, level),
                l,
                f,
                v,
            ) == if l == texture.spec_descriptor().base_layer + layer && f
                == texture.spec_descriptor().base_face + face && v
                == texture.spec_descriptor().base_level + level {
                spec_shrunk(texture.spec_layout(), filter, bytes, l, f, v)
            } else {
                texture.spec_layout().spec_image(bytes, l, f, v)
            },
{
    let layout = texture.spec_layout();
    let d = texture.spec_descriptor();
    let xl = (d.base_layer + layer) as nat;
    let xf = (d.base_face + face) as nat;
    let xv = (d.base_level + level) as nat;
    lemma_texel_image_size(layout, xv);
    let made = spec_shrunk(layout, filter, bytes, xl, xf, xv);
    let now = spec_mip_image(bytes, texture, filter, layer, face, level);
    assert(now == spec_write(bytes, layout.spec_offset(xl, xf, xv) as int, made));
    assert forall|l: nat, f: nat, v: nat| layout.spec_has(l, f, v) implies #[trigger] layout.spec_image(
        now,
        l,
        f,
        v,
    ) == if l == xl && f == xf && v == xv {
        spec_shrunk(layout, filter, bytes, l, f, v)
    } else {
        layout.spec_image(bytes, l, f, v)
    } by {
        layout.lemma_write_image(bytes, made, xl, xf, xv, l, f, v);
    }
    layout.lemma_write_image(bytes, made, xl, xf, xv, xl, xf, xv);
}

/// What making the images at one level of a range of faces of one layer
/// anew does to the images of the buffer.
pub proof fn lemma_mip_faces(
    bytes: Seq<u8>,
    texture: &Texture,
    filter: Filter,
    layer: nat,
    level: nat,
    base_face: nat,
    end_face: nat,
)
    requires
        texture.wf(),
        texture.spec_layout().block_extent == (Extent3d { width: 1, height: 1, depth: 1 }),
        bytes.len() == texture.spec_layout().spec_size(),
        layer < texture.spec_layers(),
        1 <= level < texture.spec_levels(),
        base_face <= end_face <= texture.spec_faces(),
    ensures
        spec_mip_faces(bytes, texture, filter, layer, level, base_face, end_face).len()
            == bytes.len(),
        forall|l: nat, f: nat, v: nat|
            texture.spec_layout().spec_has(l, f, v) ==> #[trigger] texture.spec_layout().spec_image(
                spec_mip_faces(bytes, texture, filter, layer, level, base_face, end_face),
                l,
                f,
                v,
            ) == if l == texture.spec_descriptor().base_layer + layer
                && texture.spec_descriptor().base_face + base_face <= f
                < texture.spec_descriptor().base_face + end_face && v
                == texture.spec_descriptor().base_level + level {
                spec_shrunk(texture.spec_layout(), filter, bytes, l, f, v)
            } else {
                texture.spec_layout().spec_image(bytes, l, f, v)
            },
    decreases end_face,
{
    if end_face > base_face {
        let layout = texture.spec_layout();
        let d = texture.spec_descriptor();
        let last = (end_face - 1) as nat;
        let prev = spec_mip_faces(bytes, texture, filter, layer, level, base_face, last);
        lemma_mip_faces(bytes, texture, filter, layer, level, base_face, last);
        lemma_mip_image(prev, texture, filter, layer, last, level);
        let now = spec_mip_faces(bytes, texture, filter, layer, level, base_face, end_face);
        assert forall|l: nat, f: nat, v: nat| layout.spec_has(l, f, v) implies #[trigger] layout.spec_image(
            now,
            l,
            f,
            v,
        ) == if l == d.base_layer + layer && d.base_face + base_face <= f < d.base_face
            + end_face && v == d.base_level + level {
            spec_shrunk(layout, filter, bytes, l, f, v)
        } else {
            layout.spec_image(bytes, l, f, v)
        } by {
            assert(layout.spec_image(prev, l, f, v) == if l == d.base_layer + layer && d.base_face
                + base_face <= f < d.base_face + last && v == d.base_level + level {
                spec_shrunk(layout, filter, bytes, l, f, v)
            } else {
                layout.spec_image(bytes, l, f, v)
            });
            if v == d.base_level + level {
                // The image one level above was not made in this turn.
                assert(layout.spec_image(prev, l, f, (v - 1) as nat) == layout.spec_image(
                    bytes,
                    l,
                    f,
                    (v - 1) as nat,
                ));
            }
        }
    }
}

/// What making the images at one level of a range of faces and layers anew
/// does to the images of the buffer.
pub proof fn lemma_mip_layers(
    bytes: Seq<u8>,
    texture: &Texture,
    filter: Filter,
    level: nat,
    base_face: nat,
    end_face: nat,
    base_layer: nat,
    end_layer: nat,
)
    requires
        texture.wf(),
        texture.spec_layout().block_extent == (Extent3d { width: 1, height: 1, depth: 1 }),
        bytes.len() == texture.spec_layout().spec_size(),
        1 <= level < texture.spec_levels(),
        base_face <= end_face <= texture.spec_faces(),
        base_layer <= end_layer <= texture.spec_layers(),
    ensures
        spec_mip_layers(
            bytes,
            texture,
            filter,
            level,
            base_face,
            end_face,
            base_layer,
            end_layer,
        ).len() == bytes.len(),
        forall|l: nat, f: nat, v: nat|
            texture.spec_layout().spec_has(l, f, v) ==> #[trigger] texture.spec_layout().spec_image(
                spec_mip_layers(
                    bytes,
                    texture,
                    filter,
                    level,
                    base_face,
                    end_face,
                    base_layer,
                    end_layer,
                ),
                l,
                f,
                v,
            ) == if texture.spec_descriptor().base_layer + base_layer <= l
                < texture.spec_descriptor().base_layer + end_layer
                && texture.spec_descriptor().base_face + base_face <= f
                < texture.spec_descriptor().base_face + end_face && v
                == texture.spec_descriptor().base_level + level {
                spec_shrunk(texture.spec_layout(), filter, bytes, l, f, v)
            } else {
                texture.spec_layout().spec_image(bytes, l, f, v)
            },
    decreases end_layer,
{
    if end_layer > base_layer {
        let layout = texture.spec_layout();
        let d = texture.spec_descriptor();
        let last = (end_layer - 1) as nat;
        let prev = spec_mip_layers(
            bytes,
            texture,
            filter,
            level,
            base_face,
            end_face,
            base_layer,
            last,
        );
        lemma_mip_layers(bytes, texture, filter, level, base_face, end_face, base_layer, last);
        lemma_mip_faces(prev, texture, filter, last, level, base_face, end_face);
        let now = spec_mip_layers(
            bytes,
            texture,
            filter,
            level,
            base_face,
            end_face,
            base_layer,
            end_layer,
        );
        assert forall|l: nat, f: nat, v: nat| layout.spec_has(l, f, v) implies #[trigger] layout.spec_image(
            now,
            l,
            f,
            v,
        ) == if d.base_layer + base_layer <= l < d.base_layer + end_layer && d.base_face
            + base_face <= f < d.base_face + end_face && v == d.base_level + level {
            spec_shrunk(layout, filter, bytes, l, f, v)
        } else {
            layout.spec_image(bytes, l, f, v)
        } by {
            assert(layout.spec_image(prev, l, f, v) == if d.base_layer + base_layer <= l
                < d.base_layer + last && d.base_face + base_face <= f < d.base_face + end_face
                && v == d.base_level + level {
                spec_shrunk(layout, filter, bytes, l, f, v)
            } else {
                layout.spec_image(bytes, l, f, v)
            });
            if v == d.base_level + level {
                assert(layout.spec_image(prev, l, f, (v - 1) as nat) == layout.spec_image(
                    bytes,
                    l,
                    f,
                    (v - 1) as nat,
                ));
            }
        }
    }
}

/// What making mip levels does to the images of the buffer: each image that
/// is made anew is the image one level above it, as it is in the end, made
/// smaller, and every other image is as it was.
pub proof fn lemma_mip_levels(
    bytes: Seq<u8>,
    texture: &Texture,
    filter: Filter,
    base_layer: nat,
    end_layer: nat,
    base_face: nat,
    end_face: nat,
    base_level: nat,
    max_level: nat,
)
    requires
        texture.wf(),
        texture.spec_layout().block_extent == (Extent3d { width: 1, height: 1, depth: 1 }),
        bytes.len() == texture.spec_layout().spec_size(),
        base_layer <= end_layer <= texture.spec_layers(),
        base_face <= end_face <= texture.spec_faces(),
        base_level <= max_level < texture.spec_levels(),
    ensures
        spec_mip_levels(
            bytes,
            texture,
            filter,
            base_layer,
            end_layer,
            base_face,
            end_face,
            base_level,
            max_level,
        ).len() == bytes.len(),
        forall|l: nat, f: nat, v: nat|
            texture.spec_layout().spec_has(l, f, v) ==> #[trigger] texture.spec_layout().spec_image(
                spec_mip_levels(
                    bytes,
                    texture,
                    filter,
                    base_layer,
                    end_layer,
                    base_face,
                    end_face,
                    base_level,
                    max_level,
                ),
                l,
                f,
                v,
            ) == if spec_makes(
                texture,
                base_layer,
                end_layer,
                base_face,
                end_face,
                base_level,
                max_level,
                l,
                f,
                v,
            ) {
                spec_shrunk(
                    texture.spec_layout(),
                    filter,
                    spec_mip_levels(
                        bytes,
                        texture,
                        filter,
                        base_layer,
                        end_layer,
                        base_face,
                        end_face,
                        base_level,
                        max_level,
                    ),
                    l,
                    f,
                    v,
                )
            } else {
                texture.spec_layout().spec_image(bytes, l, f, v)
            },
    decreases max_level,
{
    let layout = texture.spec_layout();
    let d = texture.spec_descriptor();
    if max_level > base_level {
        let last = (max_level - 1) as nat;
        let prev = spec_mip_levels(
            bytes,
            texture,
            filter,
            base_layer,
            end_layer,
            base_face,
            end_face,
            base_level,
            last,
        );
        lemma_mip_levels(
            bytes,
            texture,
            filter,
            base_layer,
            end_layer,
            base_face,
            end_face,
            base_level,
            last,
        );
        lemma_mip_layers(
            prev,
            texture,
            filter,
            max_level,
            base_face,
            end_face,
            base_layer,
            end_layer,
        );
        let now = spec_mip_levels(
            bytes,
            texture,
            filter,
            base_layer,
            end_layer,
            base_face,
            end_face,
            base_level,
            max_level,
        );
        assert forall|l: nat, f: nat, v: nat| layout.spec_has(l, f, v) implies #[trigger] layout.spec_image(
            now,
            l,
            f,
            v,
        ) == if spec_makes(
            texture,
            base_layer,
            end_layer,
            base_face,
            end_face,
            base_level,
            max_level,
            l,
            f,
            v,
        ) {
            spec_shrunk(layout, filter, now, l, f, v)
        } else {
            layout.spec_image(bytes, l, f, v)
        } by {
            assert(layout.spec_image(prev, l, f, v) == if spec_makes(
                texture,
                base_layer,
                end_layer,
                base_face,
                end_face,
                base_level,
                last,
                l,
                f,
                v,
            ) {
                spec_shrunk(layout, filter, prev, l, f, v)
            } else {
                layout.spec_image(bytes, l, f, v)
            });
            if v >= 1 && v <= d.base_level + max_level {
                // The image one level above is not made in the last turn.
                assert(layout.spec_image(now, l, f, (v - 1) as nat) == layout.spec_image(
                    prev,
                    l,
                    f,
                    (v - 1) as nat,
                ));
            }
        }
    } else {
        assert forall|l: nat, f: nat, v: nat| layout.spec_has(l, f, v) implies !spec_makes(
            texture,
            base_layer,
            end_layer,
            base_face,
            end_face,
            base_level,
            max_level,
            l,
            f,
            v,
        ) by {}
    }
}

/// Setting texels moves no byte: the buffer keeps its size.
pub proof fn lemma_clear_keeps_length(
    bytes: Seq<u8>,
    texture: &Texture,
    texel: Seq<u8>,
    layer: nat,
    face: nat,
    levels: nat,
)
    ensures
        spec_clear_levels(bytes, texture, texel, layer, face, levels).len() == bytes.len(),
    decreases levels,
{
    if levels > 0 {
        lemma_clear_keeps_length(bytes, texture, texel, layer, face, (levels - 1) as nat);
    }
}

/// Setting texels moves no byte: the buffer keeps its size.
pub proof fn lemma_clear_faces_keeps_length(
    bytes: Seq<u8>,
    texture: &Texture,
    texel: Seq<u8>,
    layer: nat,
    faces: nat,
)
    ensures
        spec_clear_faces(bytes, texture, texel, layer, faces).len() == bytes.len(),
    decreases faces,
{
    if faces > 0 {
        lemma_clear_faces_keeps_length(bytes, texture, texel, layer, (faces - 1) as nat);
        lemma_clear_keeps_length(
            spec_clear_faces(bytes, texture, texel, layer, (faces - 1) as nat),
            texture,
            texel,
            layer,
            (faces - 1) as nat,
            texture.spec_levels(),
        );
    }
}

/// Setting texels moves no byte: the buffer keeps its size.
pub proof fn lemma_clear_layers_keeps_length(
    bytes: Seq<u8>,
    texture: &Texture,
    texel: Seq<u8>,
    layers: nat,
)
    ensures
        spec_clear_layers(bytes, texture, texel, layers).len() == bytes.len(),
    decreases layers,
{
    if layers > 0 {
        lemma_clear_layers_keeps_length(bytes, texture, texel, (layers - 1) as nat);
        lemma_clear_faces_keeps_length(
            spec_clear_layers(bytes, texture, texel, (layers - 1) as nat),
            texture,
            texel,
            (layers - 1) as nat,
            texture.spec_faces(),
        );
    }
}

} // verus!
