//! Arrays of one-dimensional textures.

use vstd::prelude::*;
use crate::error::Error;
use crate::extent::{Extent1d, Extent3d};
use crate::format::{Format, Swizzles};
use crate::storage::Pool;
use crate::target::Target;
use crate::texture::{
    Descriptor, GliTexture, Texture, TextureAccessible, spec_derived, spec_detail_descriptor,
    spec_full_chain, spec_made, spec_no_descriptor,
};
use crate::texture::t1d::Texture1D;

verus! {

/// 1d array texture
#[derive(Debug)]
pub struct Texture1DArray {
    inner: Texture,
}

impl TextureAccessible for Texture1DArray {
    open spec fn spec_target_type() -> Target {
        Target(Target::TARGET_1D_ARRAY)
    }

    closed spec fn spec_raw(&self) -> Texture {
        self.inner
    }

    fn target_type() -> (r: Target) {
        Target(Target::TARGET_1D_ARRAY)
    }

    fn from_raw(raw: Texture) -> (r: Result<Self, Texture>) {
        if raw.target().0 == Target::TARGET_1D_ARRAY {
            proof {
                use_type_invariant(&raw);
            }
            Ok(Texture1DArray { inner: raw })
        } else {
            Err(raw)
        }
    }

    fn into_raw(self) -> (r: Texture) {
        proof {
            use_type_invariant(&self);
        }
        self.inner
    }

    fn raw_texture(&self) -> (t: &Texture) {
        proof {
            use_type_invariant(self);
        }
        &self.inner
    }
}

impl GliTexture for Texture1DArray {
    type ExtentType = Extent1d;

    open spec fn spec_project(extent: Extent3d) -> Extent1d {
        Extent1d { width: extent.width }
    }

    fn target(&self) -> (r: Target) {
        proof {
            use_type_invariant(self);
        }
        self.inner.target()
    }

    fn extent(&self, level: usize) -> (r: Extent1d) {
        let e = self.inner.extent(level);
        Extent1d { width: e.width }
    }

    fn set_swizzles(&mut self, swizzles: Swizzles) {
        proof {
            use_type_invariant(&*self);
        }
        self.inner.set_swizzles(swizzles);
    }
}

impl Texture1DArray {
    #[verifier::type_invariant]
    spec fn inv(&self) -> bool {
        self.inner.wf() && self.inner.spec_descriptor().target == Target(Target::TARGET_1D_ARRAY)
    }

    /// The extent of the images of a texture of this kind, with length 1 on
    /// the axes that the kind does not have.
    pub open spec fn spec_extent3d(extent: Extent1d) -> Extent3d {
        Extent3d { width: extent.width, height: 1, depth: 1 }
    }

    /// Create an empty texture.
    pub fn new_empty() -> (t: Texture1DArray)
        ensures
            t.spec_raw().wf(),
            t.spec_raw().spec_empty(),
            t.spec_raw().spec_descriptor() == spec_no_descriptor(Target(Target::TARGET_1D_ARRAY)),
    {
        Texture1DArray { inner: Texture::new_empty(Target(Target::TARGET_1D_ARRAY)) }
    }

    /// Create a texture and allocate a new storage for it, filled with zero
    /// bytes. The result is empty if no texture of this format,
    /// extent and counts can be made, or if the memory cannot be had.
    pub fn new(pool: &mut Pool, format: Format, extent: Extent1d, layers: usize, levels: usize) -> (t:
        Texture1DArray)
        ensures
            spec_made(
                &t.spec_raw(),
                old(pool)@,
                final(pool)@,
                Target(Target::TARGET_1D_ARRAY),
                format,
                Texture1DArray::spec_extent3d(extent),
                layers,
                1,
                levels,
            ),
    {
        Texture1DArray {
            inner: Texture::new(
                pool,
                Target(Target::TARGET_1D_ARRAY),
                format,
                Extent3d { width: extent.width, height: 1, depth: 1 },
                layers,
                1,
                levels,
            ),
        }
    }

    /// Create a texture and allocate a new storage for it with a complete
    /// mipmap chain: as many levels as it takes to halve the longest axis
    /// down to one texel.
    pub fn new_with_mipmap_chain(pool: &mut Pool, format: Format, extent: Extent1d, layers: usize) -> (t:
        Texture1DArray)
        ensures
            spec_made(
                &t.spec_raw(),
                old(pool)@,
                final(pool)@,
                Target(Target::TARGET_1D_ARRAY),
                format,
                Texture1DArray::spec_extent3d(extent),
                layers,
                1,
                spec_full_chain(Texture1DArray::spec_extent3d(extent)) as usize,
            ),
    {
        let levels = crate::texture::full_chain(Extent3d { width: extent.width, height: 1, depth: 1 });
        Texture1DArray {
            inner: Texture::new(
                pool,
                Target(Target::TARGET_1D_ARRAY),
                format,
                Extent3d { width: extent.width, height: 1, depth: 1 },
                layers,
                1,
                levels,
            ),
        }
    }

    /// Create a view of this kind with an existing storage: the view shows
    /// what `texture` shows. Fails, and changes nothing, unless this kind
    /// admits the shape of `texture`. The view of an empty texture is
    /// empty.
    pub fn share_from<T: GliTexture>(pool: &mut Pool, texture: &T) -> (r: Result<Texture1DArray, Error>)
        ensures
            r.is_ok() == (texture.spec_raw().spec_empty() || Texture::spec_can_derive(
                &texture.spec_raw(),
                old(pool)@,
                (Descriptor { target: Target(Target::TARGET_1D_ARRAY), ..texture.spec_raw().spec_descriptor() }),
            )),
            r matches Ok(t) ==> if texture.spec_raw().spec_empty() {
                t.spec_raw().wf() && t.spec_raw().spec_empty() && t.spec_raw().spec_descriptor()
                    == spec_no_descriptor(Target(Target::TARGET_1D_ARRAY)) && final(pool)@ == old(pool)@
            } else {
                spec_derived(
                    &t.spec_raw(),
                    &texture.spec_raw(),
                    old(pool)@,
                    final(pool)@,
                    (Descriptor { target: Target(Target::TARGET_1D_ARRAY), ..texture.spec_raw().spec_descriptor() }),
                )
            },
            r matches Err(e) ==> e.spec_is_bug() && final(pool)@ == old(pool)@,
    {
        match Texture::share_from(pool, texture.raw_texture(), Target(Target::TARGET_1D_ARRAY)) {
            Ok(inner) => Ok(Texture1DArray { inner }),
            Err(e) => Err(e),
        }
    }

    /// Create a view of this kind with an existing storage, with another
    /// format and narrower ranges. The ranges are counted in the storage, as
    /// the bases and maxima of `texture` are. Fails, and changes nothing,
    /// unless each range is in order and inside the range of `texture`, the
    /// block size of `format` is that of the format of `texture`, and this
    /// kind admits the shape of the view.
    pub fn share_from_detail<T: GliTexture>(
        pool: &mut Pool,
        texture: &T,
        format: Format,
        base_layer: usize,
        max_layer: usize,
        base_face: usize,
        max_face: usize,
        base_level: usize,
        max_level: usize,
    ) -> (r: Result<Texture1DArray, Error>)
        ensures
            r.is_ok() == Texture::spec_can_derive(
                &texture.spec_raw(),
                old(pool)@,
                spec_detail_descriptor(
                    &texture.spec_raw(),
                    Target(Target::TARGET_1D_ARRAY),
                    format,
                    base_layer,
                    max_layer,
                    base_face,
                    max_face,
                    base_level,
                    max_level,
                ),
            ),
            r matches Ok(t) ==> spec_derived(
                &t.spec_raw(),
                &texture.spec_raw(),
                old(pool)@,
                final(pool)@,
                spec_detail_descriptor(
                    &texture.spec_raw(),
                    Target(Target::TARGET_1D_ARRAY),
                    format,
                    base_layer,
                    max_layer,
                    base_face,
                    max_face,
                    base_level,
                    max_level,
                ),
            ),
            r matches Err(e) ==> e.spec_is_bug() && final(pool)@ == old(pool)@,
    {
        match Texture::share_from_detail(
            pool,
            texture.raw_texture(),
            Target(Target::TARGET_1D_ARRAY),
            format,
            base_layer,
            max_layer,
            base_face,
            max_face,
            base_level,
            max_level,
        ) {
            Ok(inner) => Ok(Texture1DArray { inner }),
            Err(e) => Err(e),
        }
    }

    /// Create a view that references a subset of an existing texture of
    /// this kind: a range of its layers and levels. The ranges are counted from
    /// the bases of `texture`: 0 is the first that `texture` shows. Fails,
    /// and changes nothing, unless `texture` is not empty and each range is
    /// in order and inside what `texture` shows.
    pub fn share_from_subset(
        pool: &mut Pool,
        texture: &Texture1DArray,
        base_layer: usize,
        max_layer: usize,
        base_level: usize,
        max_level: usize,
    ) -> (r: Result<Texture1DArray, Error>)
        ensures
            r.is_ok() == (!texture.spec_raw().spec_empty() && Texture::spec_can_subset(
                &texture.spec_raw(),
                old(pool)@,
                Target(Target::TARGET_1D_ARRAY),
                base_layer,
                max_layer,
                0,
                (texture.spec_raw().spec_faces() - 1) as usize,
                base_level,
                max_level,
            )),
            r matches Ok(t) ==> spec_derived(
                &t.spec_raw(),
                &texture.spec_raw(),
                old(pool)@,
                final(pool)@,
                Texture::spec_subset_descriptor(
                    &texture.spec_raw(),
                    Target(Target::TARGET_1D_ARRAY),
                    base_layer,
                    max_layer,
                    0,
                    (texture.spec_raw().spec_faces() - 1) as usize,
                    base_level,
                    max_level,
                ),
            ),
            r matches Err(e) ==> e.spec_is_bug() && final(pool)@ == old(pool)@,
    {
        proof {
            use_type_invariant(texture);
        }
        if texture.inner.empty() {
            return Err(Error::bug("the empty texture has no subset"));
        }
        match Texture::share_from_subset(
            pool,
            &texture.inner,
            Target(Target::TARGET_1D_ARRAY),
            base_layer,
            max_layer,
            0,
            texture.inner.faces() - 1,
            base_level,
            max_level,
        ) {
            Ok(inner) => Ok(Texture1DArray { inner }),
            Err(e) => Err(e),
        }
    }

    /// Create a view of the texture identified by `layer` in the texture
    /// array, counted from its base layer. The view counts as
    /// one more holder of the storage. Fails, and changes nothing, unless
    /// the texture shows that layer and the pool holds its storage.
    pub fn get_layer(&self, pool: &mut Pool, layer: usize) -> (r: Result<Texture1D, Error>)
        ensures
            r.is_ok() == (!self.spec_raw().spec_empty() && Texture::spec_can_subset(
                &self.spec_raw(),
                old(pool)@,
                Target(Target::TARGET_1D),
                layer,
                layer,
                0,
                (self.spec_raw().spec_faces() - 1) as usize,
                0,
                (self.spec_raw().spec_levels() - 1) as usize,
            )),
            r matches Ok(t) ==> spec_derived(
                &t.spec_raw(),
                &self.spec_raw(),
                old(pool)@,
                final(pool)@,
                Texture::spec_subset_descriptor(
                    &self.spec_raw(),
                    Target(Target::TARGET_1D),
                    layer,
                    layer,
                    0,
                    (self.spec_raw().spec_faces() - 1) as usize,
                    0,
                    (self.spec_raw().spec_levels() - 1) as usize,
                ),
            ),
            r matches Err(e) ==> e.spec_is_bug() && final(pool)@ == old(pool)@,
    {
        proof {
            use_type_invariant(self);
        }
        if self.inner.empty() {
            return Err(Error::bug("the empty texture has no layer"));
        }
        let shared = match Texture::share_from_subset(
            pool,
            &self.inner,
            Target(Target::TARGET_1D),
            layer,
            layer,
            0,
            self.inner.faces() - 1,
            0,
            self.inner.levels() - 1,
        ) {
            Ok(shared) => shared,
            Err(e) => {
                return Err(e);
            },
        };
        match Texture1D::from_raw(shared) {
            Ok(view) => Ok(view),
            Err(_) => Err(Error::bug("the view is not of the kind asked for")),
        }
    }

    /// Ends the view: the texture lets go of its storage, and the bytes are
    /// freed if it was the last holder. Fails, and changes nothing, if the
    /// pool does not hold the storage.
    pub fn release(self, pool: &mut Pool) -> (r: Result<(), Error>)
        ensures
            r.is_ok() == (self.spec_raw().spec_empty() || crate::storage::spec_live(
                old(pool)@,
                self.spec_raw().spec_buffer().unwrap() as int,
            )),
            self.spec_raw().spec_empty() ==> final(pool)@ == old(pool)@,
            !self.spec_raw().spec_empty() ==> final(pool)@ == crate::storage::spec_release(
                old(pool)@,
                self.spec_raw().spec_buffer().unwrap() as int,
            ),
            r matches Err(e) ==> e.spec_is_bug() && final(pool)@ == old(pool)@,
    {
        self.inner.release(pool)
    }
}

} // verus!
