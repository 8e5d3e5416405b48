//! Cube maps: textures with six faces.

use vstd::prelude::*;
use crate::error::Error;
use crate::extent::{Extent2d, Extent3d};
use crate::format::{Format, Swizzles};
use crate::storage::Pool;
use crate::target::Target;
use crate::texture::{
    Descriptor, GliTexture, Texture, TextureAccessible, spec_derived, spec_detail_descriptor,
    spec_full_chain, spec_made, spec_no_descriptor,
};
use crate::texture::t2d::Texture2D;

verus! {

/// Cube map texture
#[derive(Debug)]
pub struct TextureCube {
    inner: Texture,
}

impl TextureAccessible for TextureCube {
    open spec fn spec_target_type() -> Target {
        Target(Target::TARGET_CUBE)
    }

    closed spec fn spec_raw(&self) -> Texture {
        self.inner
    }

    fn target_type() -> (r: Target) {
        Target(Target::TARGET_CUBE)
    }

    fn from_raw(raw: Texture) -> (r: Result<Self, Texture>) {
        if raw.target().0 == Target::TARGET_CUBE {
            proof {
                use_type_invariant(&raw);
            }
            Ok(TextureCube { inner: raw })
        } else {
            Err(raw)
        }
    }

    fn into_raw(self) -> (r: Texture) {
        proof {
            use_type_invariant(&self);
        }
        self.inner
    }

    fn raw_texture(&self) -> (t: &Texture) {
        proof {
            use_type_invariant(self);
        }
        &self.inner
    }
}

impl GliTexture for TextureCube {
    type ExtentType = Extent2d;

    open spec fn spec_project(extent: Extent3d) -> Extent2d {
        Extent2d { width: extent.width, height: extent.height }
    }

    fn target(&self) -> (r: Target) {
        proof {
            use_type_invariant(self);
        }
        self.inner.target()
    }

    fn extent(&self, level: usize) -> (r: Extent2d) {
        let e = self.inner.extent(level);
        Extent2d { width: e.width, height: e.height }
    }

    fn set_swizzles(&mut self, swizzles: Swizzles) {
        proof {
            use_type_invariant(&*self);
        }
        self.inner.set_swizzles(swizzles);
    }
}

impl TextureCube {
    #[verifier::type_invariant]
    spec fn inv(&self) -> bool {
        self.inner.wf() && self.inner.spec_descriptor().target == Target(Target::TARGET_CUBE)
    }

    /// The extent of the images of a texture of this kind, with length 1 on
    /// the axes that the kind does not have.
    pub open spec fn spec_extent3d(extent: Extent2d) -> Extent3d {
        Extent3d { width: extent.width, height: extent.height, depth: 1 }
    }

    /// Create an empty texture.
    pub fn new_empty() -> (t: TextureCube)
        ensures
            t.spec_raw().wf(),
            t.spec_raw().spec_empty(),
            t.spec_raw().spec_descriptor() == spec_no_descriptor(Target(Target::TARGET_CUBE)),
    {
        TextureCube { inner: Texture::new_empty(Target(Target::TARGET_CUBE)) }
    }

    /// Create a texture and allocate a new storage for it, filled with zero
    /// bytes, with six faces. The result is empty if no texture of this format,
    /// extent and counts can be made, or if the memory cannot be had.
    pub fn new(pool: &mut Pool, format: Format, extent: Extent2d, levels: usize) -> (t:
        TextureCube)
        ensures
            spec_made(
                &t.spec_raw(),
                old(pool)@,
                final(pool)@,
                Target(Target::TARGET_CUBE),
                format,
                TextureCube::spec_extent3d(extent),
                1,
                6,
                levels,
            ),
    {
        TextureCube {
            inner: Texture::new(
                pool,
                Target(Target::TARGET_CUBE),
                format,
                Extent3d { width: extent.width, height: extent.height, depth: 1 },
                1,
                6,
                levels,
            ),
        }
    }

    /// Create a texture and allocate a new storage for it with a complete
    /// mipmap chain: as many levels as it takes to halve the longest axis
    /// down to one texel.
    pub fn new_with_mipmap_chain(pool: &mut Pool, format: Format, extent: Extent2d) -> (t:
        TextureCube)
        ensures
            spec_made(
                &t.spec_raw(),
                old(pool)@,
                final(pool)@,
                Target(Target::TARGET_CUBE),
                format,
                TextureCube::spec_extent3d(extent),
                1,
                6,
                spec_full_chain(TextureCube::spec_extent3d(extent)) as usize,
            ),
    {
        let levels = crate::texture::full_chain(Extent3d { width: extent.width, height: extent.height, depth: 1 });
        TextureCube {
            inner: Texture::new(
                pool,
                Target(Target::TARGET_CUBE),
                format,
                Extent3d { width: extent.width, height: extent.height, depth: 1 },
                1,
                6,
                levels,
            ),
        }
    }

    /// Create a view of this kind with an existing storage: the view shows
    /// what `texture` shows. Fails, and changes nothing, unless this kind
    /// admits the shape of `texture`. The view of an empty texture is
    /// empty.
    pub fn new_from<T: GliTexture>(pool: &mut Pool, texture: &T) -> (r: Result<TextureCube, Error>)
        ensures
            r.is_ok() == (texture.spec_raw().spec_empty() || Texture::spec_can_derive(
                &texture.spec_raw(),
                old(pool)@,
                (Descriptor { target: Target(Target::TARGET_CUBE), ..texture.spec_raw().spec_descriptor() }),
            )),
            r matches Ok(t) ==> if texture.spec_raw().spec_empty() {
                t.spec_raw().wf() && t.spec_raw().spec_empty() && t.spec_raw().spec_descriptor()
                    == spec_no_descriptor(Target(Target::TARGET_CUBE)) && final(pool)@ == old(pool)@
            } else {
                spec_derived(
                    &t.spec_raw(),
                    &texture.spec_raw(),
                    old(pool)@,
                    final(pool)@,
                    (Descriptor { target: Target(Target::TARGET_CUBE), ..texture.spec_raw().spec_descriptor() }),
                )
            },
            r matches Err(e) ==> e.spec_is_bug() && final(pool)@ == old(pool)@,
    {
        match Texture::share_from(pool, texture.raw_texture(), Target(Target::TARGET_CUBE)) {
            Ok(inner) => Ok(TextureCube { inner }),
            Err(e) => Err(e),
        }
    }

    /// Create a view of this kind with an existing storage, with another
    /// format and narrower ranges. The ranges are counted in the storage, as
    /// the bases and maxima of `texture` are. Fails, and changes nothing,
    /// unless each range is in order and inside the range of `texture`, the
    /// block size of `format` is that of the format of `texture`, and this
    /// kind admits the shape of the view.
    pub fn new_detail<T: GliTexture>(
        pool: &mut Pool,
        texture: &T,
        format: Format,
        base_layer: usize,
        max_layer: usize,
        base_face: usize,
        max_face: usize,
        base_level: usize,
        max_level: usize,
    ) -> (r: Result<TextureCube, Error>)
        ensures
            r.is_ok() == Texture::spec_can_derive(
                &texture.spec_raw(),
                old(pool)@,
                spec_detail_descriptor(
                    &texture.spec_raw(),
                    Target(Target::TARGET_CUBE),
                    format,
                    base_layer,
                    max_layer,
                    base_face,
                    max_face,
                    base_level,
                    max_level,
                ),
            ),
            r matches Ok(t) ==> spec_derived(
                &t.spec_raw(),
                &texture.spec_raw(),
                old(pool)@,
                final(pool)@,
                spec_detail_descriptor(
                    &texture.spec_raw(),
                    Target(Target::TARGET_CUBE),
                    format,
                    base_layer,
                    max_layer,
                    base_face,
                    max_face,
                    base_level,
                    max_level,
                ),
            ),
            r matches Err(e) ==> e.spec_is_bug() && final(pool)@ == old(pool)@,
    {
        match Texture::share_from_detail(
            pool,
            texture.raw_texture(),
            Target(Target::TARGET_CUBE),
            format,
            base_layer,
            max_layer,
            base_face,
            max_face,
            base_level,
            max_level,
        ) {
            Ok(inner) => Ok(TextureCube { inner }),
            Err(e) => Err(e),
        }
    }

    /// Create a view that references a subset of an existing texture of
    /// this kind: a range of its faces and levels. The ranges are counted from
    /// the bases of `texture`: 0 is the first that `texture` shows. Fails,
    /// and changes nothing, unless `texture` is not empty and each range is
    /// in order and inside what `texture` shows.
    pub fn new_from_subset(
        pool: &mut Pool,
        texture: &TextureCube,
        base_face: usize,
        max_face: usize,
        base_level: usize,
        max_level: usize,
    ) -> (r: Result<TextureCube, Error>)
        ensures
            r.is_ok() == (!texture.spec_raw().spec_empty() && Texture::spec_can_subset(
                &texture.spec_raw(),
                old(pool)@,
                Target(Target::TARGET_CUBE),
                0,
                (texture.spec_raw().spec_layers() - 1) as usize,
                base_face,
                max_face,
                base_level,
                max_level,
            )),
            r matches Ok(t) ==> spec_derived(
                &t.spec_raw(),
                &texture.spec_raw(),
                old(pool)@,
                final(pool)@,
                Texture::spec_subset_descriptor(
                    &texture.spec_raw(),
                    Target(Target::TARGET_CUBE),
                    0,
                    (texture.spec_raw().spec_layers() - 1) as usize,
                    base_face,
                    max_face,
                    base_level,
                    max_level,
                ),
            ),
            r matches Err(e) ==> e.spec_is_bug() && final(pool)@ == old(pool)@,
    {
        proof {
            use_type_invariant(texture);
        }
        if texture.inner.empty() {
            return Err(Error::bug("the empty texture has no subset"));
        }
        match Texture::share_from_subset(
            pool,
            &texture.inner,
            Target(Target::TARGET_CUBE),
            0,
            texture.inner.layers() - 1,
            base_face,
            max_face,
            base_level,
            max_level,
        ) {
            Ok(inner) => Ok(TextureCube { inner }),
            Err(e) => Err(e),
        }
    }

    /// Create a view of the texture identified by `face` in the cube map,
    /// counted from its base face. The view counts as
    /// one more holder of the storage. Fails, and changes nothing, unless
    /// the texture shows that face and the pool holds its storage.
    pub fn get_face(&self, pool: &mut Pool, face: usize) -> (r: Result<Texture2D, Error>)
        ensures
            r.is_ok() == (!self.spec_raw().spec_empty() && Texture::spec_can_subset(
                &self.spec_raw(),
                old(pool)@,
                Target(Target::TARGET_2D),
                0,
                (self.spec_raw().spec_layers() - 1) as usize,
                face,
                face,
                0,
                (self.spec_raw().spec_levels() - 1) as usize,
            )),
            r matches Ok(t) ==> spec_derived(
                &t.spec_raw(),
                &self.spec_raw(),
                old(pool)@,
                final(pool)@,
                Texture::spec_subset_descriptor(
                    &self.spec_raw(),
                    Target(Target::TARGET_2D),
                    0,
                    (self.spec_raw().spec_layers() - 1) as usize,
                    face,
                    face,
                    0,
                    (self.spec_raw().spec_levels() - 1) as usize,
                ),
            ),
            r matches Err(e) ==> e.spec_is_bug() && final(pool)@ == old(pool)@,
    {
        proof {
            use_type_invariant(self);
        }
        if self.inner.empty() {
            return Err(Error::bug("the empty texture has no face"));
        }
        let shared = match Texture::share_from_subset(
            pool,
            &self.inner,
            Target(Target::TARGET_2D),
            0,
            self.inner.layers() - 1,
            face,
            face,
            0,
            self.inner.levels() - 1,
        ) {
            Ok(shared) => shared,
            Err(e) => {
                return Err(e);
            },
        };
        match Texture2D::from_raw(shared) {
            Ok(view) => Ok(view),
            Err(_) => Err(Error::bug("the view is not of the kind asked for")),
        }
    }

    /// Ends the view: the texture lets go of its storage, and the bytes are
    /// freed if it was the last holder. Fails, and changes nothing, if the
    /// pool does not hold the storage.
    pub fn release(self, pool: &mut Pool) -> (r: Result<(), Error>)
        ensures
            r.is_ok() == (self.spec_raw().spec_empty() || crate::storage::spec_live(
                old(pool)@,
                self.spec_raw().spec_buffer().unwrap() as int,
            )),
            self.spec_raw().spec_empty() ==> final(pool)@ == old(pool)@,
            !self.spec_raw().spec_empty() ==> final(pool)@ == crate::storage::spec_release(
                old(pool)@,
                self.spec_raw().spec_buffer().unwrap() as int,
            ),
            r matches Err(e) ==> e.spec_is_bug() && final(pool)@ == old(pool)@,
    {
        self.inner.release(pool)
    }
}

} // verus!
