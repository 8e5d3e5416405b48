//! Images: one mip level of one face of one layer.

use vstd::prelude::*;
use crate::error::Error;
use crate::extent::Extent3d;
use crate::format::Format;
use crate::layout::Layout;
use crate::storage::{Buffer, Pool, spec_acquire, spec_fill, spec_live, spec_release, spec_with_bytes};
use crate::texture::Texture;

verus! {

/// GliImage representation for a single texture level.
///
/// An image shows a run of bytes of a buffer of the pool, and counts as one
/// holder of that buffer from the call that makes it until `release`.
#[derive(Debug)]
pub struct GliImage {
    buffer: Option<usize>,
    format: Format,
    extent: Extent3d,
    offset: usize,
    size: usize,
}

/// Whether two byte strings are the same.
pub fn same_bytes(a: &[u8], b: &[u8]) -> (r: bool)
    ensures
        r == (a@ == b@),
{
    if a.len() != b.len() {
        return false;
    }
    let mut i: usize = 0;
    while i < a.len()
        invariant
            i <= a.len(),
            a.len() == b.len(),
            a@.subrange(0, i as int) == b@.subrange(0, i as int),
        decreases a.len() - i,
    {
        if a[i] != b[i] {
            assert(a@[i as int] != b@[i as int]);
            return false;
        }
        i = i + 1;
        assert(a@.subrange(0, i as int) =~= a@.subrange(0, i - 1).push(a@[i - 1]));
        assert(b@.subrange(0, i as int) =~= b@.subrange(0, i - 1).push(b@[i - 1]));
    }
    assert(a@ =~= a@.subrange(0, i as int));
    assert(b@ =~= b@.subrange(0, i as int));
    true
}

/// What holds of an image that was made to show one image of a texture, the
/// layer, the face and the level counted from the bases of the texture: it
/// shows the bytes of that image in the buffer of the texture, which has one
/// holder more than before.
pub open spec fn spec_image_of(
    image: &GliImage,
    texture: &Texture,
    before: Seq<Buffer>,
    after: Seq<Buffer>,
    layer: nat,
    face: nat,
    level: nat,
) -> bool {
    &&& image.wf()
    &&& image.spec_buffer() == texture.spec_buffer()
    &&& image.spec_format() == texture.spec_descriptor().format
    &&& image.spec_extent() == texture.spec_extent(level)
    &&& image.spec_offset() == texture.spec_image_offset(layer, face, level)
    &&& image.spec_size() == texture.spec_size_at_level(level)
    &&& after == spec_acquire(before, texture.spec_buffer().unwrap() as int)
    &&& image.spec_held_by(after)
    &&& image.spec_bytes(after) == texture.spec_image_bytes(before, layer, face, level)
}

impl GliImage {
    /// The number in the pool of the buffer that the image holds; the empty
    /// image holds none.
    pub closed spec fn spec_buffer(&self) -> Option<usize> {
        self.buffer
    }

    pub closed spec fn spec_format(&self) -> Format {
        self.format
    }

    pub closed spec fn spec_extent(&self) -> Extent3d {
        self.extent
    }

    /// The place in the buffer of the first byte of the image.
    pub closed spec fn spec_offset(&self) -> nat {
        self.offset as nat
    }

    /// The size in bytes of the image.
    pub closed spec fn spec_size(&self) -> nat {
        self.size as nat
    }

    /// An image is well formed when it is empty and described as such, or
    /// holds a buffer and has a format of the catalogue.
    pub open spec fn wf(&self) -> bool {
        match self.spec_buffer() {
            None => self.spec_format() == Format(Format::UNDEFINED) && self.spec_extent() == (
            Extent3d { width: 0, height: 0, depth: 0 }) && self.spec_offset() == 0
                && self.spec_size() == 0,
            Some(_) => self.spec_format().spec_is_valid() && self.spec_offset() + self.spec_size()
                <= usize::MAX,
        }
    }

    #[verifier::type_invariant]
    spec fn inv(&self) -> bool {
        self.wf()
    }

    pub open spec fn spec_empty(&self) -> bool {
        self.spec_buffer().is_none()
    }

    /// Whether the pool holds the bytes of the image.
    pub open spec fn spec_held_by(&self, pool: Seq<Buffer>) -> bool {
        match self.spec_buffer() {
            None => false,
            Some(id) => Pool::spec_holds(
                pool,
                id as int,
                self.spec_offset() as int,
                self.spec_size() as int,
            ),
        }
    }

    /// The bytes of the image. The empty image has none.
    pub open spec fn spec_bytes(&self, pool: Seq<Buffer>) -> Seq<u8> {
        match self.spec_buffer() {
            None => Seq::empty(),
            Some(id) => pool[id as int].bytes.subrange(
                self.spec_offset() as int,
                (self.spec_offset() + self.spec_size()) as int,
            ),
        }
    }

    /// Create an empty image instance.
    pub fn new_empty() -> (image: GliImage)
        ensures
            image.wf(),
            image.spec_empty(),
    {
        GliImage {
            buffer: None,
            format: Format(Format::UNDEFINED),
            extent: Extent3d { width: 0, height: 0, depth: 0 },
            offset: 0,
            size: 0,
        }
    }

    /// Create an image object and allocate an image storage for it: a new
    /// buffer of zero bytes that holds one mip level of the given extent.
    /// The result is empty, and the pool is left as it is, if the format is
    /// not in the catalogue, a length is 0, the size in bytes is no `usize`,
    /// or the memory for the buffer cannot be had.
    pub fn new(pool: &mut Pool, format: Format, extent: Extent3d) -> (image: GliImage)
        ensures
            image.wf(),
            !(format.spec_is_valid() && Layout::spec_of(format, extent, 1, 1, 1).wf())
                ==> image.spec_empty(),
            image.spec_empty() ==> final(pool)@ == old(pool)@,
            !image.spec_empty() ==> {
                &&& image.spec_buffer() == Some(old(pool)@.len() as usize)
                &&& image.spec_format() == format
                &&& image.spec_extent() == extent
                &&& image.spec_offset() == 0
                &&& image.spec_size() == Layout::spec_of(format, extent, 1, 1, 1).spec_level_size(0)
                &&& final(pool)@ == old(pool)@.push(
                    Buffer { holders: 1, bytes: Seq::new(image.spec_size(), |i: int| 0u8) },
                )
                &&& image.spec_held_by(final(pool)@)
            },
    {
        let layout = match Layout::new(format, extent, 1, 1, 1) {
            Some(layout) => layout,
            None => {
                return GliImage::new_empty();
            },
        };
        proof {
            layout.lemma_image_in_bounds(0, 0, 0);
            layout.lemma_levels_size_one(0);
            assert(layout.spec_size() == layout.spec_level_size(0)) by (nonlinear_arith)
                requires
                    layout.spec_size() == layout.spec_levels_size(0, 1) * 1 * 1,
                    layout.spec_levels_size(0, 1) == layout.spec_level_size(0),
            ;
        }
        let size = layout.level_size(0);
        match crate::storage::zeroed(size) {
            Some(bytes) => GliImage::from_bytes(pool, format, extent, bytes),
            None => GliImage::new_empty(),
        }
    }

    /// Create an image object over a new buffer with the given bytes, which
    /// hold one mip level of the given extent. The result is empty, and the
    /// pool is left as it is, unless the format is in the catalogue, no
    /// length is 0, the size in bytes of such an image is a `usize`, and
    /// `bytes` has that size.
    pub fn from_bytes(pool: &mut Pool, format: Format, extent: Extent3d, bytes: Vec<u8>) -> (image:
        GliImage)
        ensures
            image.wf(),
            !image.spec_empty() <==> format.spec_is_valid() && Layout::spec_of(
                format,
                extent,
                1,
                1,
                1,
            ).wf() && bytes@.len() == Layout::spec_of(format, extent, 1, 1, 1).spec_level_size(0),
            image.spec_empty() ==> final(pool)@ == old(pool)@,
            !image.spec_empty() ==> {
                &&& image.spec_buffer() == Some(old(pool)@.len() as usize)
                &&& image.spec_format() == format
                &&& image.spec_extent() == extent
                &&& image.spec_offset() == 0
                &&& image.spec_size() == bytes@.len()
                &&& final(pool)@ == old(pool)@.push(Buffer { holders: 1, bytes: bytes@ })
                &&& image.spec_held_by(final(pool)@)
            },
    {
        let layout = match Layout::new(format, extent, 1, 1, 1) {
            Some(layout) => layout,
            None => {
                return GliImage::new_empty();
            },
        };
        proof {
            layout.lemma_image_in_bounds(0, 0, 0);
        }
        let size = layout.level_size(0);
        if bytes.len() != size {
            return GliImage::new_empty();
        }
        let count = pool.len();
        let id = pool.adopt(bytes);
        GliImage { buffer: Some(id), format, extent, offset: 0, size }
    }

    /// Whether the pool holds the bytes of the image.
    pub fn held_by(&self, pool: &Pool) -> (r: bool)
        ensures
            r == self.spec_held_by(pool@),
    {
        match self.buffer {
            None => false,
            Some(id) => pool.holds(id, self.offset, self.size),
        }
    }

    /// Create an image object by sharing an existing image storage from
    /// another image instance. This image object is effectively an image
    /// view where format can be reinterpreted with a different compatible
    /// image format. For formats to be compatible, the block size of source
    /// and destination must match. Fails, and changes nothing, unless they
    /// do, the pool holds the bytes of `image`, and the count of the
    /// buffer's holders is below its limit.
    pub fn share_from(pool: &mut Pool, image: &GliImage, format: Format) -> (r: Result<
        GliImage,
        Error,
    >)
        ensures
            r.is_ok() == (image.spec_held_by(old(pool)@) && old(
                pool,
            )@[image.spec_buffer().unwrap() as int].holders < usize::MAX && format.spec_is_valid()
                && format.spec_block_size() == image.spec_format().spec_block_size()),
            r matches Ok(view) ==> {
                &&& view.wf()
                &&& view.spec_buffer() == image.spec_buffer()
                &&& view.spec_format() == format
                &&& view.spec_extent() == image.spec_extent()
                &&& view.spec_offset() == image.spec_offset()
                &&& view.spec_size() == image.spec_size()
                &&& final(pool)@ == spec_acquire(old(pool)@, image.spec_buffer().unwrap() as int)
                &&& view.spec_held_by(final(pool)@)
            },
            r matches Err(e) ==> e.spec_is_bug() && final(pool)@ == old(pool)@,
    {
        proof {
            use_type_invariant(image);
        }
        if !image.held_by(pool) {
            return Err(Error::bug("the pool does not hold the bytes of the image"));
        }
        if !format.is_valid() || format.block_size() != image.format.block_size() {
            return Err(Error::bug("the block size of the format differs from that of the image"));
        }
        let id = image.buffer.unwrap();
        if !pool.acquire(id) {
            return Err(Error::bug("the buffer has too many holders"));
        }
        Ok(
            GliImage {
                buffer: Some(id),
                format,
                extent: image.extent,
                offset: image.offset,
                size: image.size,
            },
        )
    }

    /// Create an image that shows one image of a texture: the mip level
    /// `level` of face `face` of layer `layer`, all three counted in the
    /// buffer, as the bases and maxima of the texture are. Fails, and
    /// changes nothing, unless the texture shows that image, the format is
    /// in the catalogue and its block size is that of the texture's format,
    /// the pool holds the buffer of the texture, and the count of the
    /// buffer's holders is below its limit.
    pub fn shared_from_texture(
        pool: &mut Pool,
        texture: &Texture,
        format: Format,
        layer: usize,
        face: usize,
        level: usize,
    ) -> (r: Result<GliImage, Error>)
        ensures
            r.is_ok() == (texture.spec_held_by(old(pool)@) && old(
                pool,
            )@[texture.spec_buffer().unwrap() as int].holders < usize::MAX
                && format.spec_is_valid() && format.spec_block_size()
                == texture.spec_descriptor().format.spec_block_size()
                && texture.spec_descriptor().base_layer <= layer
                <= texture.spec_descriptor().max_layer && texture.spec_descriptor().base_face
                <= face <= texture.spec_descriptor().max_face
                && texture.spec_descriptor().base_level <= level
                <= texture.spec_descriptor().max_level),
            r matches Ok(image) ==> {
                &&& image.wf()
                &&& image.spec_buffer() == texture.spec_buffer()
                &&& image.spec_format() == format
                &&& image.spec_extent() == texture.spec_layout().spec_level_extent(level as nat)
                &&& image.spec_offset() == texture.spec_layout().spec_offset(
                    layer as nat,
                    face as nat,
                    level as nat,
                )
                &&& image.spec_size() == texture.spec_layout().spec_level_size(level as nat)
                &&& final(pool)@ == spec_acquire(
                    old(pool)@,
                    texture.spec_buffer().unwrap() as int,
                )
                &&& image.spec_held_by(final(pool)@)
            },
            r matches Err(e) ==> e.spec_is_bug() && final(pool)@ == old(pool)@,
    {
        if !texture.held_by(pool) {
            return Err(Error::bug("the pool does not hold the buffer of the texture"));
        }
        if !format.is_valid() || format.block_size() != texture.format().block_size() {
            return Err(
                Error::bug("the block size of the format differs from that of the texture"),
            );
        }
        if !(texture.base_layer() <= layer && layer <= texture.max_layer() && texture.base_face()
            <= face && face <= texture.max_face() && texture.base_level() <= level && level
            <= texture.max_level()) {
            return Err(Error::bug("the texture does not show the image"));
        }
        let offset = match texture.image_offset(
            layer - texture.base_layer(),
            face - texture.base_face(),
            level - texture.base_level(),
        ) {
            Some(offset) => offset,
            None => {
                return Err(Error::bug("the texture does not show the image"));
            },
        };
        let size = texture.size_at_level(level - texture.base_level());
        let extent = texture.extent(level - texture.base_level());
        let id = match texture.buffer_id() {
            Some(id) => id,
            None => {
                return Err(Error::bug("the pool does not hold the buffer of the texture"));
            },
        };
        if !pool.acquire(id) {
            return Err(Error::bug("the buffer has too many holders"));
        }
        Ok(GliImage { buffer: Some(id), format, extent, offset, size })
    }

    /// Create an image that shows one image of a texture, in the format of
    /// the texture. The layer, the face and the level are counted from the
    /// bases of the texture. Fails, and changes nothing, unless the texture
    /// shows that image, the pool holds the buffer of the texture, and the
    /// count of the buffer's holders is below its limit.
    pub fn of_texture(pool: &mut Pool, texture: &Texture, layer: usize, face: usize, level: usize) -> (r:
        Result<GliImage, Error>)
        ensures
            r.is_ok() == (texture.spec_held_by(old(pool)@) && old(
                pool,
            )@[texture.spec_buffer().unwrap() as int].holders < usize::MAX && texture.spec_shows(
                layer as nat,
                face as nat,
                level as nat,
            )),
            r matches Ok(image) ==> spec_image_of(
                &image,
                texture,
                old(pool)@,
                final(pool)@,
                layer as nat,
                face as nat,
                level as nat,
            ),
            r matches Err(e) ==> e.spec_is_bug() && final(pool)@ == old(pool)@,
    {
        if !texture.held_by(pool) {
            return Err(Error::bug("the pool does not hold the buffer of the texture"));
        }
        if !(layer < texture.layers() && face < texture.faces() && level < texture.levels()) {
            return Err(Error::bug("the texture does not show the image"));
        }
        GliImage::shared_from_texture(
            pool,
            texture,
            texture.format(),
            texture.base_layer() + layer,
            texture.base_face() + face,
            texture.base_level() + level,
        )
    }

    /// Ends the view: the image lets go of its buffer, and the bytes are
    /// freed if it was the last holder. Fails, and changes nothing, if the
    /// pool has no live buffer of the image's. The empty image holds
    /// nothing and ends without a change.
    pub fn release(self, pool: &mut Pool) -> (r: Result<(), Error>)
        ensures
            r.is_ok() == (self.spec_empty() || spec_live(
                old(pool)@,
                self.spec_buffer().unwrap() as int,
            )),
            self.spec_empty() ==> final(pool)@ == old(pool)@,
            !self.spec_empty() ==> final(pool)@ == spec_release(
                old(pool)@,
                self.spec_buffer().unwrap() as int,
            ),
            r matches Err(e) ==> e.spec_is_bug() && final(pool)@ == old(pool)@,
    {
        match self.buffer {
            None => Ok(()),
            Some(id) => {
                if pool.release(id) {
                    Ok(())
                } else {
                    Err(Error::bug("the pool does not hold the buffer of the image"))
                }
            },
        }
    }

    /// Clear the entire image storage with zeros. Every byte outside the
    /// image is as it was. Fails, and changes nothing, unless the pool holds
    /// the bytes of the image.
    pub fn clear(&self, pool: &mut Pool) -> (r: Result<(), Error>)
        ensures
            r.is_ok() == self.spec_held_by(old(pool)@),
            r.is_ok() ==> final(pool)@ == spec_with_bytes(
                old(pool)@,
                self.spec_buffer().unwrap() as int,
                spec_fill(
                    old(pool)@[self.spec_buffer().unwrap() as int].bytes,
                    self.spec_offset() as int,
                    self.spec_size() as int,
                    0u8,
                ),
            ),
            r.is_ok() ==> self.spec_held_by(final(pool)@) && self.spec_bytes(final(pool)@)
                == Seq::new(self.spec_size(), |i: int| 0u8),
            r matches Err(e) ==> e.spec_is_bug() && final(pool)@ == old(pool)@,
    {
        match self.buffer {
            None => Err(Error::bug("the empty image has no bytes")),
            Some(id) => {
                if pool.fill(id, self.offset, self.size, 0u8) {
                    assert(self.spec_bytes(pool@) =~= Seq::new(self.spec_size(), |i: int| 0u8));
                    Ok(())
                } else {
                    Err(Error::bug("the pool does not hold the bytes of the image"))
                }
            },
        }
    }

    /// Return the bytes of the image. Fails unless the pool holds them.
    pub fn data<'a>(&self, pool: &'a Pool) -> (r: Result<&'a [u8], Error>)
        ensures
            r.is_ok() == self.spec_held_by(pool@),
            r matches Ok(bytes) ==> bytes@ == self.spec_bytes(pool@),
            r matches Err(e) ==> e.spec_is_bug(),
    {
        match self.buffer {
            None => Err(Error::bug("the empty image has no bytes")),
            Some(id) => {
                match pool.span(id, self.offset, self.size) {
                    Some(bytes) => Ok(bytes),
                    None => Err(Error::bug("the pool does not hold the bytes of the image")),
                }
            },
        }
    }

    /// Puts `bytes` in place of the bytes of the image. Every byte outside
    /// the image is as it was. Fails, and changes nothing, unless the pool
    /// holds the bytes of the image and `bytes` has the size of the image.
    pub fn store(&self, pool: &mut Pool, bytes: &[u8]) -> (r: Result<(), Error>)
        ensures
            r.is_ok() == (self.spec_held_by(old(pool)@) && bytes@.len() == self.spec_size()),
            r.is_ok() ==> final(pool)@ == spec_with_bytes(
                old(pool)@,
                self.spec_buffer().unwrap() as int,
                crate::storage::spec_write(
                    old(pool)@[self.spec_buffer().unwrap() as int].bytes,
                    self.spec_offset() as int,
                    bytes@,
                ),
            ),
            r.is_ok() ==> self.spec_held_by(final(pool)@) && self.spec_bytes(final(pool)@)
                == bytes@,
            r matches Err(e) ==> e.spec_is_bug() && final(pool)@ == old(pool)@,
    {
        match self.buffer {
            None => Err(Error::bug("the empty image has no bytes")),
            Some(id) => {
                if bytes.len() != self.size {
                    return Err(Error::bug("the bytes do not have the size of the image"));
                }
                if pool.write(id, self.offset, bytes) {
                    assert(self.spec_bytes(pool@) =~= bytes@);
                    Ok(())
                } else {
                    Err(Error::bug("the pool does not hold the bytes of the image"))
                }
            },
        }
    }

    /// Return whether the image instance is empty, no storage or description
    /// have been assigned to the instance.
    pub fn empty(&self) -> (r: bool)
        ensures
            r == self.spec_empty(),
    {
        self.buffer.is_none()
    }

    /// Return the dimensions of an image instance: width, height and depth.
    pub fn extent(&self) -> (r: Extent3d)
        ensures
            r == self.spec_extent(),
    {
        self.extent
    }

    /// Return the image instance format.
    pub fn format(&self) -> (r: Format)
        ensures
            r == self.spec_format(),
    {
        self.format
    }

    /// Return the memory size of an image instance storage in bytes.
    pub fn size(&self) -> (r: usize)
        ensures
            r == self.spec_size(),
    {
        self.size
    }

    /// Compare two images. Two images are equal when their bytes are the
    /// same, whether they show the same buffer or not. Two empty images are
    /// equal. Fails unless, of each image, it is empty or the pool holds its
    /// bytes.
    pub fn equals(&self, other: &GliImage, pool: &Pool) -> (r: Result<bool, Error>)
        ensures
            r.is_ok() == ((self.spec_empty() || self.spec_held_by(pool@)) && (other.spec_empty()
                || other.spec_held_by(pool@))),
            r matches Ok(same) ==> same == (self.spec_bytes(pool@) == other.spec_bytes(pool@)),
            r matches Err(e) ==> e.spec_is_bug(),
    {
        proof {
            use_type_invariant(self);
            use_type_invariant(other);
        }
        let none: [u8; 0] = [];
        let mine: &[u8] = if self.buffer.is_none() {
            assert(none@ =~= Seq::<u8>::empty());
            vstd::array::array_as_slice(&none)
        } else {
            match self.data(pool) {
                Ok(bytes) => bytes,
                Err(e) => {
                    return Err(e);
                },
            }
        };
        let theirs: &[u8] = if other.buffer.is_none() {
            assert(none@ =~= Seq::<u8>::empty());
            vstd::array::array_as_slice(&none)
        } else {
            match other.data(pool) {
                Ok(bytes) => bytes,
                Err(e) => {
                    return Err(e);
                },
            }
        };
        Ok(same_bytes(mine, theirs))
    }
}

} // verus!
