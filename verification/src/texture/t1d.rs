//! One-dimensional textures.

use vstd::prelude::*;
use crate::error::Error;
use crate::extent::{Extent1d, Extent3d};
use crate::format::{Format, Swizzles};
use crate::image::{GliImage, spec_image_of};
use crate::storage::Pool;
use crate::target::Target;
use crate::texture::{
    Descriptor, GliTexture, Texture, TextureAccessible, spec_derived, spec_detail_descriptor,
    spec_full_chain, spec_made, spec_no_descriptor,
};

verus! {

/// 1d texture
#[derive(Debug)]
pub struct Texture1D {
    inner: Texture,
}

impl TextureAccessible for Texture1D {
    open spec fn spec_target_type() -> Target {
        Target(Target::TARGET_1D)
    }

    closed spec fn spec_raw(&self) -> Texture {
        self.inner
    }

    fn target_type() -> (r: Target) {
        Target(Target::TARGET_1D)
    }

    fn from_raw(raw: Texture) -> (r: Result<Self, Texture>) {
        if raw.target().0 == Target::TARGET_1D {
            proof {
                use_type_invariant(&raw);
            }
            Ok(Texture1D { inner: raw })
        } else {
            Err(raw)
        }
    }

    fn into_raw(self) -> (r: Texture) {
        proof {
            use_type_invariant(&self);
        }
        self.inner
    }

    fn raw_texture(&self) -> (t: &Texture) {
        proof {
            use_type_invariant(self);
        }
        &self.inner
    }
}

impl GliTexture for Texture1D {
    type ExtentType = Extent1d;

    open spec fn spec_project(extent: Extent3d) -> Extent1d {
        Extent1d { width: extent.width }
    }

    fn target(&self) -> (r: Target) {
        proof {
            use_type_invariant(self);
        }
        self.inner.target()
    }

    fn extent(&self, level: usize) -> (r: Extent1d) {
        let e = self.inner.extent(level);
        Extent1d { width: e.width }
    }

    fn set_swizzles(&mut self, swizzles: Swizzles) {
        proof {
            use_type_invariant(&*self);
        }
        self.inner.set_swizzles(swizzles);
    }
}

impl Texture1D {
    #[verifier::type_invariant]
    spec fn inv(&self) -> bool {
        self.inner.wf() && self.inner.spec_descriptor().target == Target(Target::TARGET_1D)
    }

    /// The extent of the images of a texture of this kind, with length 1 on
    /// the axes that the kind does not have.
    pub open spec fn spec_extent3d(extent: Extent1d) -> Extent3d {
        Extent3d { width: extent.width, height: 1, depth: 1 }
    }

    /// Create an empty texture.
    pub fn new_empty() -> (t: Texture1D)
        ensures
            t.spec_raw().wf(),
            t.spec_raw().spec_empty(),
            t.spec_raw().spec_descriptor() == spec_no_descriptor(Target(Target::TARGET_1D)),
    {
        Texture1D { inner: Texture::new_empty(Target(Target::TARGET_1D)) }
    }

    /// Create a texture and allocate a new storage for it, filled with zero
    /// bytes. The result is empty if no texture of this format,
    /// extent and counts can be made, or if the memory cannot be had.
    pub fn new(pool: &mut Pool, format: Format, extent: Extent1d, levels: usize) -> (t:
        Texture1D)
        ensures
            spec_made(
                &t.spec_raw(),
                old(pool)@,
                final(pool)@,
                Target(Target::TARGET_1D),
                format,
                Texture1D::spec_extent3d(extent),
                1,
                1,
                levels,
            ),
    {
        Texture1D {
            inner: Texture::new(
                pool,
                Target(Target::TARGET_1D),
                format,
                Extent3d { width: extent.width, height: 1, depth: 1 },
                1,
                1,
                levels,
            ),
        }
    }

    /// Create a texture and allocate a new storage for it with a complete
    /// mipmap chain: as many levels as it takes to halve the longest axis
    /// down to one texel.
    pub fn new_with_mipmap_chain(pool: &mut Pool, format: Format, extent: Extent1d) -> (t:
        Texture1D)
        ensures
            spec_made(
                &t.spec_raw(),
                old(pool)@,
                final(pool)@,
                Target(Target::TARGET_1D),
                format,
                Texture1D::spec_extent3d(extent),
                1,
                1,
                spec_full_chain(Texture1D::spec_extent3d(extent)) as usize,
            ),
    {
        let levels = crate::texture::full_chain(Extent3d { width: extent.width, height: 1, depth: 1 });
        Texture1D {
            inner: Texture::new(
                pool,
                Target(Target::TARGET_1D),
                format,
                Extent3d { width: extent.width, height: 1, depth: 1 },
                1,
                1,
                levels,
            ),
        }
    }

    /// Create a view of this kind with an existing storage: the view shows
    /// what `texture` shows. Fails, and changes nothing, unless this kind
    /// admits the shape of `texture`. The view of an empty texture is
    /// empty.
    pub fn share_from<T: GliTexture>(pool: &mut Pool, texture: &T) -> (r: Result<Texture1D, Error>)
        ensures
            r.is_ok() == (texture.spec_raw().spec_empty() || Texture::spec_can_derive(
                &texture.spec_raw(),
                old(pool)@,
                (Descriptor { target: Target(Target::TARGET_1D), ..texture.spec_raw().spec_descriptor() }),
            )),
            r matches Ok(t) ==> if texture.spec_raw().spec_empty() {
                t.spec_raw().wf() && t.spec_raw().spec_empty() && t.spec_raw().spec_descriptor()
                    == spec_no_descriptor(Target(Target::TARGET_1D)) && final(pool)@ == old(pool)@
            } else {
                spec_derived(
                    &t.spec_raw(),
                    &texture.spec_raw(),
                    old(pool)@,
                    final(pool)@,
                    (Descriptor { target: Target(Target::TARGET_1D), ..texture.spec_raw().spec_descriptor() }),
                )
            },
            r matches Err(e) ==> e.spec_is_bug() && final(pool)@ == old(pool)@,
    {
        match Texture::share_from(pool, texture.raw_texture(), Target(Target::TARGET_1D)) {
            Ok(inner) => Ok(Texture1D { inner }),
            Err(e) => Err(e),
        }
    }

    /// Create a view of this kind with an existing storage, with another
    /// format and narrower ranges. The ranges are counted in the storage, as
    /// the bases and maxima of `texture` are. Fails, and changes nothing,
    /// unless each range is in order and inside the range of `texture`, the
    /// block size of `format` is that of the format of `texture`, and this
    /// kind admits the shape of the view.
    pub fn share_from_detail<T: GliTexture>(
        pool: &mut Pool,
        texture: &T,
        format: Format,
        base_layer: usize,
        max_layer: usize,
        base_face: usize,
        max_face: usize,
        base_level: usize,
        max_level: usize,
    ) -> (r: Result<Texture1D, Error>)
        ensures
            r.is_ok() == Texture::spec_can_derive(
                &texture.spec_raw(),
                old(pool)@,
                spec_detail_descriptor(
                    &texture.spec_raw(),
                    Target(Target::TARGET_1D),
                    format,
                    base_layer,
                    max_layer,
                    base_face,
                    max_face,
                    base_level,
                    max_level,
                ),
            ),
            r matches Ok(t) ==> spec_derived(
                &t.spec_raw(),
                &texture.spec_raw(),
                old(pool)@,
                final(pool)@,
                spec_detail_descriptor(
                    &texture.spec_raw(),
                    Target(Target::TARGET_1D),
                    format,
                    base_layer,
                    max_layer,
                    base_face,
                    max_face,
                    base_level,
                    max_level,
                ),
            ),
            r matches Err(e) ==> e.spec_is_bug() && final(pool)@ == old(pool)@,
    {
        match Texture::share_from_detail(
            pool,
            texture.raw_texture(),
            Target(Target::TARGET_1D),
            format,
            base_layer,
            max_layer,
            base_face,
            max_face,
            base_level,
            max_level,
        ) {
            Ok(inner) => Ok(Texture1D { inner }),
            Err(e) => Err(e),
        }
    }

    /// Create a view that references a subset of an existing texture of
    /// this kind: a range of its levels. The ranges are counted from
    /// the bases of `texture`: 0 is the first that `texture` shows. Fails,
    /// and changes nothing, unless `texture` is not empty and each range is
    /// in order and inside what `texture` shows.
    pub fn share_from_subset(
        pool: &mut Pool,
        texture: &Texture1D,
        base_level: usize,
        max_level: usize,
    ) -> (r: Result<Texture1D, Error>)
        ensures
            r.is_ok() == (!texture.spec_raw().spec_empty() && Texture::spec_can_subset(
                &texture.spec_raw(),
                old(pool)@,
                Target(Target::TARGET_1D),
                0,
                (texture.spec_raw().spec_layers() - 1) as usize,
                0,
                (texture.spec_raw().spec_faces() - 1) as usize,
                base_level,
                max_level,
            )),
            r matches Ok(t) ==> spec_derived(
                &t.spec_raw(),
                &texture.spec_raw(),
                old(pool)@,
                final(pool)@,
                Texture::spec_subset_descriptor(
                    &texture.spec_raw(),
                    Target(Target::TARGET_1D),
                    0,
                    (texture.spec_raw().spec_layers() - 1) as usize,
                    0,
                    (texture.spec_raw().spec_faces() - 1) as usize,
                    base_level,
                    max_level,
                ),
            ),
            r matches Err(e) ==> e.spec_is_bug() && final(pool)@ == old(pool)@,
    {
        proof {
            use_type_invariant(texture);
        }
        if texture.inner.empty() {
            return Err(Error::bug("the empty texture has no subset"));
        }
        match Texture::share_from_subset(
            pool,
            &texture.inner,
            Target(Target::TARGET_1D),
            0,
            texture.inner.layers() - 1,
            0,
            texture.inner.faces() - 1,
            base_level,
            max_level,
        ) {
            Ok(inner) => Ok(Texture1D { inner }),
            Err(e) => Err(e),
        }
    }

    /// Create a view of the image identified by `level` in the mipmap chain
    /// of the texture, counted from its base level. The image counts as one
    /// more holder of the storage. Fails, and changes nothing, unless the
    /// texture shows that level and the pool holds its storage.
    pub fn get_level(&self, pool: &mut Pool, level: usize) -> (r: Result<GliImage, Error>)
        ensures
            r.is_ok() == (self.spec_raw().spec_held_by(old(pool)@) && old(
                pool,
            )@[self.spec_raw().spec_buffer().unwrap() as int].holders < usize::MAX && level
                < self.spec_raw().spec_levels()),
            r matches Ok(image) ==> spec_image_of(
                &image,
                &self.spec_raw(),
                old(pool)@,
                final(pool)@,
                0,
                0,
                level as nat,
            ),
            r matches Err(e) ==> e.spec_is_bug() && final(pool)@ == old(pool)@,
    {
        proof {
            use_type_invariant(self);
        }
        GliImage::of_texture(pool, &self.inner, 0, 0, level)
    }

    /// Ends the view: the texture lets go of its storage, and the bytes are
    /// freed if it was the last holder. Fails, and changes nothing, if the
    /// pool does not hold the storage.
    pub fn release(self, pool: &mut Pool) -> (r: Result<(), Error>)
        ensures
            r.is_ok() == (self.spec_raw().spec_empty() || crate::storage::spec_live(
                old(pool)@,
                self.spec_raw().spec_buffer().unwrap() as int,
            )),
            self.spec_raw().spec_empty() ==> final(pool)@ == old(pool)@,
            !self.spec_raw().spec_empty() ==> final(pool)@ == crate::storage::spec_release(
                old(pool)@,
                self.spec_raw().spec_buffer().unwrap() as int,
            ),
            r matches Err(e) ==> e.spec_is_bug() && final(pool)@ == old(pool)@,
    {
        self.inner.release(pool)
    }
}

} // verus!
