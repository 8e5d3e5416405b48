//! One-dimensional texture samplers.

use vstd::prelude::*;
use crate::error::Error;
use crate::extent::Extent1d;
use crate::sampler::{Filter, Sampler, TexelCoord, Wrap, spec_can_sample};
use crate::storage::Pool;
use crate::texture::TextureAccessible;
use crate::texture::t1d::Texture1D;

verus! {

/// 1d texture sampler.
///
/// It hands out and takes texels as the bytes that the texture stores.
pub struct FSampler1D<'a> {
    inner: Sampler<'a>,
}

impl<'a> FSampler1D<'a> {
    /// The sampler inside, which knows nothing of the kind of the texture.
    pub closed spec fn spec_sampler(&self) -> Sampler<'a> {
        self.inner
    }

    /// The coordinates of a texel of a texture of this kind; the axes that
    /// the kind does not have are at 0.
    pub open spec fn spec_coord(texel_coord: Extent1d) -> TexelCoord {
        TexelCoord { x: texel_coord.width as i64, y: 0, z: 0 }
    }

    /// Constructor of `FSampler1D`. The border color is made of zero bytes.
    /// Fails unless the texture is not empty, stores single texels, and the
    /// three numbers name a wrap mode and two filters.
    pub fn new(texture: &'a Texture1D, wrap: Wrap, mip: Filter, min: Filter) -> (r: Result<
        FSampler1D<'a>,
        Error,
    >)
        ensures
            r.is_ok() == spec_can_sample(&texture.spec_raw(), wrap, mip, min),
            r matches Ok(s) ==> {
                &&& s.spec_sampler().wf()
                &&& s.spec_sampler().spec_texture() == texture.spec_raw()
                &&& s.spec_sampler().spec_wrap() == wrap
                &&& s.spec_sampler().spec_mip() == mip
                &&& s.spec_sampler().spec_min() == min
                &&& s.spec_sampler().spec_border() == Seq::new(
                    s.spec_sampler().spec_texel_size(),
                    |i: int| 0u8,
                )
            },
            r matches Err(e) ==> e.spec_is_bug(),
    {
        match Sampler::new(texture.raw_texture(), wrap, mip, min) {
            Ok(inner) => Ok(FSampler1D { inner }),
            Err(e) => Err(e),
        }
    }

    /// Set the border color used by sampler: the bytes of the texel that is
    /// seen outside the image with the two border modes.
    pub fn set_border_color(&mut self, color: &[u8]) -> (r: Result<(), Error>)
        ensures
            old(self).spec_sampler().spec_border_set(&final(self).spec_sampler(), color@, r),
    {
        self.inner.set_border_color(color)
    }

    /// Clear the sampler texture with a uniform texel.
    pub fn clear(&self, pool: &mut Pool, texel: &[u8]) -> (r: Result<(), Error>)
        ensures
            self.spec_sampler().spec_cleared(old(pool)@, final(pool)@, texel@, r),
    {
        self.inner.clear(pool, texel)
    }

    /// Generate all the mipmaps of the sampler texture from the texture base
    /// level.
    pub fn generate_mipmaps(&self, pool: &mut Pool, minification: Filter) -> (r: Result<
        (),
        Error,
    >)
        ensures
            self.spec_sampler().spec_generated(
                old(pool)@,
                final(pool)@,
                0,
                (self.spec_sampler().spec_texture().spec_layers() - 1) as nat,
                0,
                (self.spec_sampler().spec_texture().spec_faces() - 1) as nat,
                0,
                (self.spec_sampler().spec_texture().spec_levels() - 1) as nat,
                minification,
                r,
            ),
    {
        self.inner.generate_mipmaps(pool, minification)
    }

    /// Generate the mipmaps of the sampler texture for a range of its
    /// levels, from the base level to the max level included.
    /// The ranges are counted from the bases of the texture.
    pub fn generate_mipmaps_detail(
        &self,
        pool: &mut Pool,
        base_level: usize,
        max_level: usize,
        minification: Filter,
    ) -> (r: Result<(), Error>)
        ensures
            self.spec_sampler().spec_generated(
                old(pool)@,
                final(pool)@,
                0,
                (self.spec_sampler().spec_texture().spec_layers() - 1) as nat,
                0,
                (self.spec_sampler().spec_texture().spec_faces() - 1) as nat,
                base_level as nat,
                max_level as nat,
                minification,
                r,
            ),
    {
        let texture = self.inner.texture();
        self.inner.generate_mipmaps_detail(
            pool,
            0,
            texture.layers() - 1,
            0,
            texture.faces() - 1,
            base_level,
            max_level,
            minification,
        )
    }

    /// Fetch a texel from the sampler texture.
    pub fn texel_fetch(&self, pool: &Pool, texel_coord: Extent1d, level: usize) -> (r:
        Result<Vec<u8>, Error>)
        ensures
            self.spec_sampler().spec_fetched(
                pool@,
                FSampler1D::spec_coord(texel_coord),
                0,
                0,
                level as nat,
                r,
            ),
    {
        self.inner.texel_fetch(
            pool,
            TexelCoord { x: texel_coord.width as i64, y: 0, z: 0 },
            0,
            0,
            level,
        )
    }

    /// Write a texel in the sampler texture.
    pub fn texel_write(
        &self,
        pool: &mut Pool,
        texel_coord: Extent1d,
        level: usize,
        texel: &[u8],
    ) -> (r: Result<(), Error>)
        ensures
            self.spec_sampler().spec_written(
                old(pool)@,
                final(pool)@,
                FSampler1D::spec_coord(texel_coord),
                0,
                0,
                level as nat,
                texel@,
                r,
            ),
    {
        self.inner.texel_write(
            pool,
            TexelCoord { x: texel_coord.width as i64, y: 0, z: 0 },
            0,
            0,
            level,
            texel,
        )
    }

    /// The sampler inside, for what goes beyond single texels.
    pub fn sampler(&self) -> (s: &Sampler<'a>)
        ensures
            *s == self.spec_sampler(),
    {
        &self.inner
    }
}

} // verus!
