//! The KMG container: a texture as a string of bytes.
//!
//! A KMG file begins with thirteen bytes that say what it is. Sixteen
//! numbers of four bytes each follow, the low byte first: a mark that says in
//! which order the bytes of a number stand, the format, the target, the four
//! swizzles, the width, the height and the depth of the largest mip level,
//! the numbers of layers, of levels and of faces, a flag that asks for mip
//! levels to be made, and the first and the last mip level. The images
//! follow, without gaps: for each layer in turn, for each level in turn, the
//! image of each face in turn.
//!
//! A file holds what a texture shows, not its buffer: written from a view,
//! it holds the images of the view and nothing else, and read again it is a
//! texture with a buffer of its own.

use vstd::prelude::*;
use vstd::bytes::{spec_u32_from_le_bytes, spec_u32_to_le_bytes, u32_from_le_bytes, u32_to_le_bytes};
use crate::error::Error;
use crate::extent::Extent3d;
use crate::format::{Format, Swizzle, Swizzles};
use crate::layout::Layout;
use crate::storage::{Buffer, Pool, append_bytes};
use crate::target::Target;
use crate::texture::{Descriptor, Texture, spec_constructible};

verus! {

/// The number of bytes before the first image.
pub const HEADER_SIZE: usize = 77;

/// The number of bytes that say what the file is.
pub const MAGIC_SIZE: usize = 13;

/// The number of numbers in the header.
pub const WORDS: usize = 16;

/// The mark that the bytes of a number stand low byte first.
pub const LITTLE_ENDIAN: u32 = 0x04030201;

/// The bytes that a KMG file begins with.
pub open spec fn spec_magic() -> Seq<u8> {
    seq![
        0xABu8,
        0x4Bu8,
        0x49u8,
        0x4Du8,
        0x20u8,
        0x31u8,
        0x30u8,
        0x30u8,
        0xBBu8,
        0x0Du8,
        0x0Au8,
        0x1Au8,
        0x0Au8,
    ]
}

/// The numbers of a header as bytes, one number after the other.
pub open spec fn spec_encode_words(words: Seq<u32>) -> Seq<u8>
    decreases words.len(),
{
    if words.len() == 0 {
        Seq::empty()
    } else {
        spec_encode_words(words.drop_last()) + spec_u32_to_le_bytes(words.last())
    }
}

/// Number `index` of the header of a file.
pub open spec fn spec_word(file: Seq<u8>, index: int) -> u32 {
    spec_u32_from_le_bytes(file.subrange(MAGIC_SIZE + 4 * index, MAGIC_SIZE + 4 * index + 4))
}

/// The numbers of headers as bytes: each takes four bytes, and stands where
/// its turn puts it.
pub proof fn lemma_encode_words(words: Seq<u32>)
    ensures
        spec_encode_words(words).len() == 4 * words.len(),
        forall|i: int|
            0 <= i < words.len() ==> #[trigger] spec_encode_words(words).subrange(4 * i, 4 * i + 4)
                == spec_u32_to_le_bytes(words[i]),
    decreases words.len(),
{
    vstd::bytes::lemma_auto_spec_u32_to_from_le_bytes();
    if words.len() > 0 {
        let front = words.drop_last();
        lemma_encode_words(front);
        let all = spec_encode_words(words);
        assert forall|i: int| 0 <= i < words.len() implies #[trigger] all.subrange(
            4 * i,
            4 * i + 4,
        ) == spec_u32_to_le_bytes(words[i]) by {
            if i < words.len() - 1 {
                assert(spec_encode_words(front).subrange(4 * i, 4 * i + 4) == spec_u32_to_le_bytes(
                    front[i],
                ));
                assert(all.subrange(4 * i, 4 * i + 4) =~= spec_encode_words(front).subrange(
                    4 * i,
                    4 * i + 4,
                ));
            } else {
                assert(all.subrange(4 * i, 4 * i + 4) =~= spec_u32_to_le_bytes(words.last()));
            }
        }
    }
}

/// A file that begins with the thirteen bytes and the numbers `words` has
/// these numbers in its header.
pub proof fn lemma_words_read_back(file: Seq<u8>, words: Seq<u32>)
    requires
        file.len() >= MAGIC_SIZE + 4 * words.len(),
        file.subrange(MAGIC_SIZE as int, MAGIC_SIZE + 4 * words.len()) == spec_encode_words(words),
    ensures
        forall|i: int| 0 <= i < words.len() ==> #[trigger] spec_word(file, i) == words[i],
{
    lemma_encode_words(words);
    vstd::bytes::lemma_auto_spec_u32_to_from_le_bytes();
    assert forall|i: int| 0 <= i < words.len() implies #[trigger] spec_word(file, i)
        == words[i] by {
        let part = file.subrange(MAGIC_SIZE as int, MAGIC_SIZE + 4 * words.len());
        assert(file.subrange(MAGIC_SIZE + 4 * i, MAGIC_SIZE + 4 * i + 4) =~= part.subrange(
            4 * i,
            4 * i + 4,
        ));
        assert(part.subrange(4 * i, 4 * i + 4) == spec_u32_to_le_bytes(words[i]));
    }
}

/// The thirteen bytes and the numbers of a header.
fn encode_header(words: &[u32; 16]) -> (out: Vec<u8>)
    ensures
        out@ == spec_magic() + spec_encode_words(words@),
        out@.len() == HEADER_SIZE,
{
    let mut out: Vec<u8> = Vec::new();
    let magic: [u8; 13] = [
        0xAB,
        0x4B,
        0x49,
        0x4D,
        0x20,
        0x31,
        0x30,
        0x30,
        0xBB,
        0x0D,
        0x0A,
        0x1A,
        0x0A,
    ];
    append_bytes(&mut out, vstd::array::array_as_slice(&magic));
    assert(out@ =~= spec_magic());
    let mut i: usize = 0;
    assert(words@.subrange(0, 0) =~= Seq::<u32>::empty());
    while i < 16
        invariant
            i <= 16,
            out@ == spec_magic() + spec_encode_words(words@.subrange(0, i as int)),
        decreases 16 - i,
    {
        let bytes = u32_to_le_bytes(words[i]);
        append_bytes(&mut out, bytes.as_slice());
        proof {
            let next = words@.subrange(0, i + 1);
            assert(next.drop_last() =~= words@.subrange(0, i as int));
            assert(next.last() == words@[i as int]);
            assert(out@ =~= spec_magic() + spec_encode_words(next));
        }
        i = i + 1;
    }
    proof {
        assert(words@.subrange(0, 16) =~= words@);
        lemma_encode_words(words@);
    }
    out
}

/// Number `index` of the header of a file.
fn word(file: &[u8], index: usize) -> (r: u32)
    requires
        index < WORDS,
        file@.len() >= HEADER_SIZE,
    ensures
        r == spec_word(file@, index as int),
{
    let start = MAGIC_SIZE + 4 * index;
    u32_from_le_bytes(vstd::slice::slice_subrange(file, start, start + 4))
}

/// Whether a file begins with the thirteen bytes of a KMG file.
fn has_magic(file: &[u8]) -> (r: bool)
    requires
        file@.len() >= HEADER_SIZE,
    ensures
        r == (file@.subrange(0, MAGIC_SIZE as int) == spec_magic()),
{
    let magic: [u8; 13] = [
        0xAB,
        0x4B,
        0x49,
        0x4D,
        0x20,
        0x31,
        0x30,
        0x30,
        0xBB,
        0x0D,
        0x0A,
        0x1A,
        0x0A,
    ];
    assert(magic@ =~= spec_magic());
    crate::image::same_bytes(
        vstd::slice::slice_subrange(file, 0, MAGIC_SIZE),
        vstd::array::array_as_slice(&magic),
    )
}

/// The numbers of the header of the file of a texture.
pub open spec fn spec_words_of(texture: &Texture) -> Seq<u32> {
    seq![
        LITTLE_ENDIAN,
        texture.spec_descriptor().format.0,
        texture.spec_descriptor().target.0,
        texture.spec_descriptor().swizzles[0].0,
        texture.spec_descriptor().swizzles[1].0,
        texture.spec_descriptor().swizzles[2].0,
        texture.spec_descriptor().swizzles[3].0,
        texture.spec_extent(0).width,
        texture.spec_extent(0).height,
        texture.spec_extent(0).depth,
        texture.spec_layers() as u32,
        texture.spec_levels() as u32,
        texture.spec_faces() as u32,
        0u32,
        0u32,
        (texture.spec_levels() - 1) as u32,
    ]
}

/// The place in a file of the first byte of an image, for a file that
/// holds `levels` levels, from level `base` of the layout on, of `faces`
/// faces. The layer, the level and the face are counted in the file.
pub open spec fn spec_place_in(
    layout: Layout,
    base: nat,
    levels: nat,
    faces: nat,
    layer: nat,
    level: nat,
    face: nat,
) -> nat {
    HEADER_SIZE as nat + layer * (layout.spec_levels_size(base, base + levels) * faces)
        + layout.spec_levels_size(base, base + level) * faces + face * layout.spec_level_size(
        base + level,
    )
}

/// The place in the file of a texture of the first byte of an image. The
/// layer, the level and the face are counted from the bases of the
/// texture.
pub open spec fn spec_place(texture: &Texture, layer: nat, level: nat, face: nat) -> nat {
    spec_place_in(
        texture.spec_layout(),
        texture.spec_descriptor().base_level as nat,
        texture.spec_levels(),
        texture.spec_faces(),
        layer,
        level,
        face,
    )
}

/// The bytes that a file has in the place of an image of a texture.
pub open spec fn spec_image_in_file(
    file: Seq<u8>,
    texture: &Texture,
    layer: nat,
    face: nat,
    level: nat,
) -> Seq<u8> {
    file.subrange(
        spec_place(texture, layer, level, face) as int,
        (spec_place(texture, layer, level, face) + texture.spec_size_at_level(level)) as int,
    )
}

/// Whether an image comes before another in a file: layers come one after
/// the other, in a layer the levels, in a level the faces.
pub open spec fn spec_earlier(
    layer: nat,
    level: nat,
    face: nat,
    than_layer: nat,
    than_level: nat,
    than_face: nat,
) -> bool {
    layer < than_layer || (layer == than_layer && (level < than_level || (level == than_level
        && face < than_face)))
}

/// Whether an image comes before another in a buffer: layers come one after
/// the other, in a layer the faces, in a face the levels.
pub open spec fn spec_sooner(
    layer: nat,
    face: nat,
    level: nat,
    than_layer: nat,
    than_face: nat,
    than_level: nat,
) -> bool {
    layer < than_layer || (layer == than_layer && (face < than_face || (face == than_face
        && level < than_level)))
}

/// Whether a file has, in the place of each image that a texture shows, the
/// bytes of that image.
pub open spec fn spec_holds_images(file: Seq<u8>, texture: &Texture, pool: Seq<Buffer>) -> bool {
    forall|layer: nat, face: nat, level: nat|
        texture.spec_shows(layer, face, level) ==> #[trigger] spec_image_in_file(
            file,
            texture,
            layer,
            face,
            level,
        ) == texture.spec_image_bytes(pool, layer, face, level)
}

/// Whether `file` is the file of a texture: the header that describes what
/// the texture shows, then the images that it shows, and nothing else.
pub open spec fn spec_is_file_of(file: Seq<u8>, texture: &Texture, pool: Seq<Buffer>) -> bool {
    &&& file.len() == HEADER_SIZE + texture.spec_size()
    &&& file.subrange(0, HEADER_SIZE as int) == spec_magic() + spec_encode_words(
        spec_words_of(texture),
    )
    &&& spec_holds_images(file, texture, pool)
}

/// Whether what a texture shows could be a texture with a buffer of its
/// own: a texture of its target, format, counts and first extent can be
/// made, and would have levels of the same extents and sizes. This fails for
/// a view whose format has blocks of another extent than its buffer, and for
/// a texture that is seen as a kind that does not admit its shape.
pub open spec fn spec_standalone(texture: &Texture) -> bool {
    &&& spec_constructible(
        texture.spec_descriptor().target,
        texture.spec_descriptor().format,
        texture.spec_extent(0),
        texture.spec_layers() as usize,
        texture.spec_faces() as usize,
        texture.spec_levels() as usize,
    )
    &&& forall|level: nat|
        level < texture.spec_levels() ==> #[trigger] spec_same_level(
            Layout::spec_of(
                texture.spec_descriptor().format,
                texture.spec_extent(0),
                texture.spec_layers() as usize,
                texture.spec_faces() as usize,
                texture.spec_levels() as usize,
            ),
            texture,
            level,
        )
}

/// Whether a mip level of a buffer with the given layout has the extent and
/// the size of the same level of what a texture shows.
pub open spec fn spec_same_level(layout: Layout, texture: &Texture, level: nat) -> bool {
    layout.spec_level_size(level) == texture.spec_size_at_level(level) && layout.spec_level_extent(
        level,
    ) == texture.spec_extent(level)
}

/// Whether a texture can be written as a file: the pool holds its buffer,
/// what it shows could be a texture with a buffer of its own, its counts
/// are numbers of four bytes, and the size of the file is a `usize`.
pub open spec fn spec_can_save(texture: &Texture, pool: Seq<Buffer>) -> bool {
    &&& texture.spec_held_by(pool)
    &&& spec_standalone(texture)
    &&& texture.spec_layers() <= u32::MAX
    &&& texture.spec_faces() <= u32::MAX
    &&& HEADER_SIZE + texture.spec_size() <= usize::MAX
}

/// The texture that the header of a file describes can be made, the header
/// says that the file holds all its levels, and the file has the size of the
/// header and the images together.
pub open spec fn spec_well_formed(file: Seq<u8>) -> bool {
    &&& file.len() >= HEADER_SIZE
    &&& file.subrange(0, MAGIC_SIZE as int) == spec_magic()
    &&& spec_word(file, 0) == LITTLE_ENDIAN
    &&& spec_constructible(
        Target(spec_word(file, 2)),
        Format(spec_word(file, 1)),
        spec_extent_in(file),
        spec_word(file, 10) as usize,
        spec_word(file, 12) as usize,
        spec_word(file, 11) as usize,
    )
    &&& spec_word(file, 14) == 0
    &&& spec_word(file, 15) == spec_word(file, 11) - 1
    &&& file.len() == HEADER_SIZE + spec_layout_in(file).spec_size()
}

/// The extent of the largest mip level that the header of a file gives.
pub open spec fn spec_extent_in(file: Seq<u8>) -> Extent3d {
    Extent3d { width: spec_word(file, 7), height: spec_word(file, 8), depth: spec_word(file, 9) }
}

/// The layout of the buffer of the texture that the header of a file
/// describes.
pub open spec fn spec_layout_in(file: Seq<u8>) -> Layout {
    Layout::spec_of(
        Format(spec_word(file, 1)),
        spec_extent_in(file),
        spec_word(file, 10) as usize,
        spec_word(file, 12) as usize,
        spec_word(file, 11) as usize,
    )
}

/// The descriptor of the texture that the header of a file describes.
pub open spec fn spec_descriptor_in(file: Seq<u8>) -> Descriptor {
    Descriptor {
        format: Format(spec_word(file, 1)),
        target: Target(spec_word(file, 2)),
        base_layer: 0,
        max_layer: (spec_word(file, 10) - 1) as usize,
        base_face: 0,
        max_face: (spec_word(file, 12) - 1) as usize,
        base_level: 0,
        max_level: (spec_word(file, 11) - 1) as usize,
        swizzles: [
            Swizzle(spec_word(file, 3)),
            Swizzle(spec_word(file, 4)),
            Swizzle(spec_word(file, 5)),
            Swizzle(spec_word(file, 6)),
        ],
    }
}

/// What holds of a texture that was read from a file, which took the pool
/// from `before` to `after`: it shows the whole of a new buffer, is
/// described as the header of the file says, but for the target, which may
/// be another that admits its shape, and each of its images has the bytes
/// that the file has in the place of that image.
pub open spec fn spec_read_from(
    texture: &Texture,
    before: Seq<Buffer>,
    after: Seq<Buffer>,
    file: Seq<u8>,
) -> bool {
    &&& texture.wf()
    &&& texture.spec_buffer() == Some(before.len() as usize)
    &&& texture.spec_layout() == spec_layout_in(file)
    &&& texture.spec_descriptor() == (Descriptor {
        target: texture.spec_descriptor().target,
        ..spec_descriptor_in(file)
    })
    &&& after.len() == before.len() + 1
    &&& after.subrange(0, before.len() as int) == before
    &&& after[before.len() as int].holders == 1
    &&& texture.spec_held_by(after)
    &&& spec_holds_images(file, texture, after)
}

/// Bytes put at the end leave the bytes before them alone.
proof fn lemma_append_keeps(old: Seq<u8>, data: Seq<u8>, from: int, to: int)
    requires
        0 <= from <= to <= old.len(),
    ensures
        (old + data).subrange(from, to) == old.subrange(from, to),
        (old + data).subrange(old.len() as int, (old.len() + data.len()) as int) == data,
{
    assert((old + data).subrange(from, to) =~= old.subrange(from, to));
    assert((old + data).subrange(old.len() as int, (old.len() + data.len()) as int) =~= data);
}

/// The places of the images in a file: each image ends where the next one
/// begins, and the last one ends with the file.
pub proof fn lemma_places_in(
    layout: Layout,
    base: nat,
    levels: nat,
    faces: nat,
    layers: nat,
    layer: nat,
    level: nat,
    face: nat,
)
    requires
        layer <= layers,
        level <= levels,
        face <= faces,
    ensures
        spec_place_in(layout, base, levels, faces, layer, level, face) + layout.spec_level_size(
            base + level,
        ) == spec_place_in(layout, base, levels, faces, layer, level, face + 1),
        level < levels ==> spec_place_in(layout, base, levels, faces, layer, level, faces)
            == spec_place_in(layout, base, levels, faces, layer, level + 1, 0),
        spec_place_in(layout, base, levels, faces, layer, levels, 0) == spec_place_in(
            layout,
            base,
            levels,
            faces,
            layer + 1,
            0,
            0,
        ),
        spec_place_in(layout, base, levels, faces, layers, 0, 0) == HEADER_SIZE
            + layout.spec_levels_size(base, base + levels) * faces * layers,
        spec_place_in(layout, base, levels, faces, 0, 0, 0) == HEADER_SIZE,
        layer < layers && level < levels && face < faces ==> spec_place_in(
            layout,
            base,
            levels,
            faces,
            layer,
            level,
            face,
        ) + layout.spec_level_size(base + level) <= HEADER_SIZE + layout.spec_levels_size(
            base,
            base + levels,
        ) * faces * layers,
{
    let all = layout.spec_levels_size(base, base + levels);
    let run = layout.spec_levels_size(base, base + level);
    let size = layout.spec_level_size(base + level);
    assert(layout.spec_levels_size(base, base) == 0);
    assert(0 * (all * faces) == 0 && 0 * faces == 0) by (nonlinear_arith);
    assert(layers * (all * faces) == all * faces * layers) by (nonlinear_arith);
    assert((layer + 1) * (all * faces) == layer * (all * faces) + all * faces)
        by (nonlinear_arith);
    assert((face + 1) * size == face * size + size) by (nonlinear_arith);
    assert(0 * layout.spec_level_size(base) == 0) by (nonlinear_arith);
    assert(0 * layout.spec_level_size(base + levels) == 0) by (nonlinear_arith);
    assert(0 * size == 0) by (nonlinear_arith);
    if level < levels {
        assert(layout.spec_levels_size(base, base + level + 1) == run + size);
        layout.lemma_levels_size_monotone(base, base + level + 1, base + levels);
        assert((run + size) * faces == run * faces + faces * size) by (nonlinear_arith);
        assert(0 * layout.spec_level_size(base + level + 1) == 0) by (nonlinear_arith);
        if face < faces && layer < layers {
            assert(face * size + size <= faces * size) by (nonlinear_arith)
                requires
                    face < faces,
            ;
            assert((run + size) * faces <= all * faces) by (nonlinear_arith)
                requires
                    run + size <= all,
            ;
            assert(layer * (all * faces) + all * faces <= layers * (all * faces))
                by (nonlinear_arith)
                requires
                    layer < layers,
            ;
        }
    }
}

/// An image that comes earlier in a file ends before a later one begins.
pub proof fn lemma_order_of_places_in(
    layout: Layout,
    base: nat,
    levels: nat,
    faces: nat,
    layer: nat,
    level: nat,
    face: nat,
    than_layer: nat,
    than_level: nat,
    than_face: nat,
)
    requires
        level < levels,
        face < faces,
        than_level <= levels,
        than_face <= faces,
        spec_earlier(layer, level, face, than_layer, than_level, than_face),
    ensures
        spec_place_in(layout, base, levels, faces, layer, level, face) + layout.spec_level_size(
            base + level,
        ) <= spec_place_in(layout, base, levels, faces, than_layer, than_level, than_face),
{
    let all = layout.spec_levels_size(base, base + levels);
    let run = layout.spec_levels_size(base, base + level);
    let size = layout.spec_level_size(base + level);
    assert(layout.spec_levels_size(base, base + level + 1) == run + size);
    layout.lemma_levels_size_monotone(base, base + level + 1, base + levels);
    assert(face * size + size <= faces * size) by (nonlinear_arith)
        requires
            face < faces,
    ;
    assert((run + size) * faces == run * faces + faces * size) by (nonlinear_arith);
    assert((run + size) * faces <= all * faces) by (nonlinear_arith)
        requires
            run + size <= all,
    ;
    let than_run = layout.spec_levels_size(base, base + than_level);
    let than_size = layout.spec_level_size(base + than_level);
    assert(than_run * faces >= 0 && than_face * than_size >= 0) by (nonlinear_arith);
    if layer < than_layer {
        assert(layer * (all * faces) + all * faces <= than_layer * (all * faces))
            by (nonlinear_arith)
            requires
                layer < than_layer,
        ;
    } else if level < than_level {
        layout.lemma_levels_size_monotone(base, base + level + 1, base + than_level);
        assert((run + size) * faces <= than_run * faces) by (nonlinear_arith)
            requires
                run + size <= than_run,
        ;
    } else {
        assert(face * size + size <= than_face * size) by (nonlinear_arith)
            requires
                face < than_face,
        ;
    }
}

/// The places of the images in the file of a texture: each image ends where
/// the next one begins, and the last one ends with the file.
pub proof fn lemma_places(texture: &Texture, layer: nat, level: nat, face: nat)
    requires
        texture.wf(),
        !texture.spec_empty(),
        layer <= texture.spec_layers(),
        level <= texture.spec_levels(),
        face <= texture.spec_faces(),
    ensures
        level < texture.spec_levels() && face < texture.spec_faces() ==> spec_place(
            texture,
            layer,
            level,
            face,
        ) + texture.spec_size_at_level(level) == spec_place(texture, layer, level, face + 1),
        level < texture.spec_levels() ==> spec_place(texture, layer, level, texture.spec_faces())
            == spec_place(texture, layer, level + 1, 0),
        spec_place(texture, layer, texture.spec_levels(), 0) == spec_place(
            texture,
            layer + 1,
            0,
            0,
        ),
        spec_place(texture, texture.spec_layers(), 0, 0) == HEADER_SIZE + texture.spec_size(),
        spec_place(texture, 0, 0, 0) == HEADER_SIZE,
        layer < texture.spec_layers() && level < texture.spec_levels() && face
            < texture.spec_faces() ==> spec_place(texture, layer, level, face)
            + texture.spec_size_at_level(level) <= HEADER_SIZE + texture.spec_size(),
{
    lemma_places_in(
        texture.spec_layout(),
        texture.spec_descriptor().base_level as nat,
        texture.spec_levels(),
        texture.spec_faces(),
        texture.spec_layers(),
        layer,
        level,
        face,
    );
}

impl Texture {
    /// Whether what the texture shows could be a texture with a buffer of
    /// its own.
    fn standalone(&self) -> (r: bool)
        ensures
            r == spec_standalone(self),
            self.wf(),
    {
        let layout = self.layout();
        let extent = self.extent(0);
        let levels = self.levels();
        let plan = match Texture::plan(
            self.target(),
            self.format(),
            extent,
            self.layers(),
            self.faces(),
            levels,
        ) {
            Some(plan) => plan,
            None => {
                return false;
            },
        };
        let mut level: usize = 0;
        while level < levels
            invariant
                level <= levels,
                levels == self.spec_levels(),
                levels == plan.levels,
                plan.wf(),
                self.wf(),
                plan == Layout::spec_of(
                    self.spec_descriptor().format,
                    self.spec_extent(0),
                    self.spec_layers() as usize,
                    self.spec_faces() as usize,
                    self.spec_levels() as usize,
                ),
                forall|v: nat| v < level ==> #[trigger] spec_same_level(plan, self, v),
            decreases levels - level,
        {
            let mine = self.extent(level);
            let theirs = plan.level_extent(level);
            if plan.level_size(level) != self.size_at_level(level) || mine.width != theirs.width
                || mine.height != theirs.height || mine.depth != theirs.depth {
                assert(!spec_same_level(plan, self, level as nat));
                return false;
            }
            assert(mine == theirs);
            assert(spec_same_level(plan, self, level as nat));
            level = level + 1;
        }
        true
    }
}

/// Writes a texture as the bytes of a KMG file. Fails unless the texture
/// can be written as a file.
pub fn save(texture: &Texture, pool: &Pool) -> (r: Result<Vec<u8>, Error>)
    ensures
        r.is_ok() == spec_can_save(texture, pool@),
        r matches Ok(file) ==> spec_is_file_of(file@, texture, pool@),
        r matches Err(e) ==> e.spec_kind() matches crate::error::ErrorKind::SaveTexture(m) && m@
            == if !texture.spec_held_by(pool@) {
            "The texture has no storage to save."@
        } else if !spec_standalone(texture) {
            "What the texture shows is no texture of its own."@
        } else {
            "The texture is too large to save."@
        },
{
    if !texture.held_by(pool) {
        return Err(Error::save_texture("The texture has no storage to save."));
    }
    if !texture.standalone() {
        return Err(Error::save_texture("What the texture shows is no texture of its own."));
    }
    let layers = texture.layers();
    let faces = texture.faces();
    let levels = texture.levels();
    let size = texture.size();
    if layers > u32::MAX as usize || faces > u32::MAX as usize || size > usize::MAX
        - HEADER_SIZE {
        return Err(Error::save_texture("The texture is too large to save."));
    }
    let extent = texture.extent(0);
    let swizzles = texture.swizzles();
    let words: [u32; 16] = [
        LITTLE_ENDIAN,
        texture.format().0,
        texture.target().0,
        swizzles[0].0,
        swizzles[1].0,
        swizzles[2].0,
        swizzles[3].0,
        extent.width,
        extent.height,
        extent.depth,
        layers as u32,
        levels as u32,
        faces as u32,
        0,
        0,
        (levels - 1) as u32,
    ];
    assert(words@ =~= spec_words_of(texture));
    let mut out = encode_header(&words);
    let ghost header = out@;
    let id = texture.buffer_id().unwrap();
    proof {
        lemma_places(texture, 0, 0, 0);
    }
    let mut layer: usize = 0;
    while layer < layers
        invariant
            layer <= layers,
            texture.wf(),
            texture.spec_held_by(pool@),
            texture.spec_buffer() == Some(id),
            layers == texture.spec_layers(),
            faces == texture.spec_faces(),
            levels == texture.spec_levels(),
            header.len() == HEADER_SIZE,
            out@.len() == spec_place(texture, layer as nat, 0, 0),
            out@.subrange(0, HEADER_SIZE as int) == header,
            forall|l: nat, f: nat, v: nat|
                l < layers && f < faces && v < levels && spec_earlier(l, v, f, layer as nat, 0, 0)
                    ==> #[trigger] spec_image_in_file(out@, texture, l, f, v)
                    == texture.spec_image_bytes(pool@, l, f, v),
        decreases layers - layer,
    {
        let mut level: usize = 0;
        while level < levels
            invariant
                layer < layers,
                level <= levels,
                texture.wf(),
                texture.spec_held_by(pool@),
                texture.spec_buffer() == Some(id),
                layers == texture.spec_layers(),
                faces == texture.spec_faces(),
                levels == texture.spec_levels(),
                header.len() == HEADER_SIZE,
                out@.len() == spec_place(texture, layer as nat, level as nat, 0),
                out@.subrange(0, HEADER_SIZE as int) == header,
                forall|l: nat, f: nat, v: nat|
                    l < layers && f < faces && v < levels && spec_earlier(
                        l,
                        v,
                        f,
                        layer as nat,
                        level as nat,
                        0,
                    ) ==> #[trigger] spec_image_in_file(out@, texture, l, f, v)
                        == texture.spec_image_bytes(pool@, l, f, v),
            decreases levels - level,
        {
            let mut face: usize = 0;
            while face < faces
                invariant
                    layer < layers,
                    level < levels,
                    face <= faces,
                    texture.wf(),
                    texture.spec_held_by(pool@),
                    texture.spec_buffer() == Some(id),
                    layers == texture.spec_layers(),
                    faces == texture.spec_faces(),
                    levels == texture.spec_levels(),
                    header.len() == HEADER_SIZE,
                    out@.len() == spec_place(texture, layer as nat, level as nat, face as nat),
                    out@.subrange(0, HEADER_SIZE as int) == header,
                    forall|l: nat, f: nat, v: nat|
                        l < layers && f < faces && v < levels && spec_earlier(
                            l,
                            v,
                            f,
                            layer as nat,
                            level as nat,
                            face as nat,
                        ) ==> #[trigger] spec_image_in_file(out@, texture, l, f, v)
                            == texture.spec_image_bytes(pool@, l, f, v),
                decreases faces - face,
            {
                let ghost before = out@;
                let bytes = match texture.image_data(pool, layer, face, level) {
                    Ok(bytes) => bytes,
                    Err(_) => {
                        return Err(Error::save_texture("The texture has no storage to save."));
                    },
                };
                proof {
                    texture.lemma_shown_in_bounds(layer as nat, face as nat, level as nat);
                    assert(bytes@.len() == texture.spec_size_at_level(level as nat));
                }
                append_bytes(&mut out, bytes);
                proof {
                    lemma_places(texture, layer as nat, level as nat, face as nat);
                    lemma_append_keeps(before, bytes@, 0, HEADER_SIZE as int);
                    assert forall|l: nat, f: nat, v: nat|
                        l < layers && f < faces && v < levels && spec_earlier(
                            l,
                            v,
                            f,
                            layer as nat,
                            level as nat,
                            (face + 1) as nat,
                        ) implies #[trigger] spec_image_in_file(out@, texture, l, f, v)
                        == texture.spec_image_bytes(pool@, l, f, v) by {
                        if spec_earlier(l, v, f, layer as nat, level as nat, face as nat) {
                            lemma_order_of_places(
                                texture,
                                l,
                                v,
                                f,
                                layer as nat,
                                level as nat,
                                face as nat,
                            );
                            lemma_places(texture, l, v, f);
                            lemma_append_keeps(
                                before,
                                bytes@,
                                spec_place(texture, l, v, f) as int,
                                (spec_place(texture, l, v, f) + texture.spec_size_at_level(
                                    v,
                                )) as int,
                            );
                            assert(spec_image_in_file(before, texture, l, f, v)
                                == texture.spec_image_bytes(pool@, l, f, v));
                        } else {
                            assert(l == layer && v == level && f == face);
                        }
                    }
                }
                face = face + 1;
            }
            proof {
                lemma_places(texture, layer as nat, level as nat, faces as nat);
            }
            level = level + 1;
        }
        proof {
            lemma_places(texture, layer as nat, levels as nat, 0);
        }
        layer = layer + 1;
    }
    proof {
        lemma_places(texture, layers as nat, 0, 0);
    }
    Ok(out)
}

/// An image that comes earlier in the file of a texture ends before a later
/// one begins.
pub proof fn lemma_order_of_places(
    texture: &Texture,
    layer: nat,
    level: nat,
    face: nat,
    than_layer: nat,
    than_level: nat,
    than_face: nat,
)
    requires
        texture.wf(),
        !texture.spec_empty(),
        layer < texture.spec_layers(),
        level < texture.spec_levels(),
        face < texture.spec_faces(),
        than_layer <= texture.spec_layers(),
        than_level <= texture.spec_levels(),
        than_face <= texture.spec_faces(),
        spec_earlier(layer, level, face, than_layer, than_level, than_face),
    ensures
        spec_place(texture, layer, level, face) + texture.spec_size_at_level(level) <= spec_place(
            texture,
            than_layer,
            than_level,
            than_face,
        ),
{
    lemma_order_of_places_in(
        texture.spec_layout(),
        texture.spec_descriptor().base_level as nat,
        texture.spec_levels(),
        texture.spec_faces(),
        layer,
        level,
        face,
        than_layer,
        than_level,
        than_face,
    );
}

/// The bytes that a file has in the place of an image of the texture that
/// its header describes.
pub open spec fn spec_piece(file: Seq<u8>, layout: Layout, layer: nat, face: nat, level: nat) -> Seq<
    u8,
> {
    file.subrange(
        spec_place_in(layout, 0, layout.levels as nat, layout.faces as nat, layer, level, face)
            as int,
        (spec_place_in(layout, 0, layout.levels as nat, layout.faces as nat, layer, level, face)
            + layout.spec_level_size(level)) as int,
    )
}

/// The places of the images in a buffer: each image ends where the next one
/// begins.
pub proof fn lemma_offsets(layout: Layout, layer: nat, face: nat, level: nat)
    ensures
        layout.spec_offset(layer, face, level) + layout.spec_level_size(level)
            == layout.spec_offset(layer, face, level + 1),
        layout.spec_offset(layer, face, layout.levels as nat) == layout.spec_offset(
            layer,
            face + 1,
            0,
        ),
        layout.spec_offset(layer, layout.faces as nat, 0) == layout.spec_offset(layer + 1, 0, 0),
        layout.spec_offset(0, 0, 0) == 0,
        layout.spec_offset(layout.layers as nat, 0, 0) == layout.spec_size(),
{
    let fs = layout.spec_face_size();
    let ls = layout.spec_layer_size();
    let faces = layout.faces as nat;
    assert(layout.spec_levels_size(0, 0) == 0);
    assert(fs * (face + 1) == fs * face + fs) by (nonlinear_arith);
    assert(ls * (layer + 1) == ls * layer + ls) by (nonlinear_arith);
    assert(fs * 0 == 0 && ls * 0 == 0) by (nonlinear_arith);
}

/// Reads a texture from the bytes of a KMG file. The result is empty, and
/// the pool is left as it is, unless the file is well formed.
pub fn load(pool: &mut Pool, file: &[u8]) -> (t: Texture)
    ensures
        t.wf(),
        t.spec_empty() == !spec_well_formed(file@),
        t.spec_empty() ==> final(pool)@ == old(pool)@ && t.spec_descriptor()
            == crate::texture::spec_no_descriptor(Target(Target::TARGET_FIRST)),
        !t.spec_empty() ==> spec_read_from(&t, old(pool)@, final(pool)@, file@)
            && t.spec_descriptor().target == spec_descriptor_in(file@).target,
{
    let none = Target(Target::TARGET_FIRST);
    if file.len() < HEADER_SIZE {
        return Texture::new_empty(none);
    }
    if !has_magic(file) || word(file, 0) != LITTLE_ENDIAN {
        return Texture::new_empty(none);
    }
    let format = Format(word(file, 1));
    let target = Target(word(file, 2));
    let swizzles: Swizzles = [
        Swizzle(word(file, 3)),
        Swizzle(word(file, 4)),
        Swizzle(word(file, 5)),
        Swizzle(word(file, 6)),
    ];
    let extent = Extent3d { width: word(file, 7), height: word(file, 8), depth: word(file, 9) };
    let layers = word(file, 10) as usize;
    let levels = word(file, 11) as usize;
    let faces = word(file, 12) as usize;
    let layout = match Texture::plan(target, format, extent, layers, faces, levels) {
        Some(layout) => layout,
        None => {
            return Texture::new_empty(none);
        },
    };
    if word(file, 14) != 0 || word(file, 15) != word(file, 11) - 1 {
        return Texture::new_empty(none);
    }
    proof {
        layout.lemma_face_bounds_size();
    }
    let face_size = layout.levels_size(0, levels);
    let layer_size = face_size * faces;
    let total = layer_size * layers;
    if file.len() - HEADER_SIZE != total {
        return Texture::new_empty(none);
    }
    let mut out: Vec<u8> = Vec::new();
    proof {
        lemma_offsets(layout, 0, 0, 0);
    }
    let mut layer: usize = 0;
    while layer < layers
        invariant
            layer <= layers,
            file@.len() <= usize::MAX,
            layout.wf(),
            layers == layout.layers,
            faces == layout.faces,
            levels == layout.levels,
            face_size == layout.spec_face_size(),
            layer_size == layout.spec_layer_size(),
            file@.len() == HEADER_SIZE + layout.spec_size(),
            out@.len() == layout.spec_offset(layer as nat, 0, 0),
            forall|l: nat, f: nat, v: nat|
                l < layers && f < faces && v < levels && spec_sooner(l, f, v, layer as nat, 0, 0)
                    ==> #[trigger] layout.spec_image(out@, l, f, v) == spec_piece(
                    file@,
                    layout,
                    l,
                    f,
                    v,
                ),
        decreases layers - layer,
    {
        let mut face: usize = 0;
        while face < faces
            invariant
                layer < layers,
                face <= faces,
                file@.len() <= usize::MAX,
                layout.wf(),
                layers == layout.layers,
                faces == layout.faces,
                levels == layout.levels,
                face_size == layout.spec_face_size(),
                layer_size == layout.spec_layer_size(),
                file@.len() == HEADER_SIZE + layout.spec_size(),
                out@.len() == layout.spec_offset(layer as nat, face as nat, 0),
                forall|l: nat, f: nat, v: nat|
                    l < layers && f < faces && v < levels && spec_sooner(
                        l,
                        f,
                        v,
                        layer as nat,
                        face as nat,
                        0,
                    ) ==> #[trigger] layout.spec_image(out@, l, f, v) == spec_piece(
                        file@,
                        layout,
                        l,
                        f,
                        v,
                    ),
            decreases faces - face,
        {
            let mut level: usize = 0;
            let mut prefix: usize = 0;
            while level < levels
                invariant
                    layer < layers,
                    face < faces,
                    level <= levels,
                    file@.len() <= usize::MAX,
                    layout.wf(),
                    layers == layout.layers,
                    faces == layout.faces,
                    levels == layout.levels,
                    face_size == layout.spec_face_size(),
                    layer_size == layout.spec_layer_size(),
                    prefix == layout.spec_levels_size(0, level as nat),
                    file@.len() == HEADER_SIZE + layout.spec_size(),
                    out@.len() == layout.spec_offset(layer as nat, face as nat, level as nat),
                    forall|l: nat, f: nat, v: nat|
                        l < layers && f < faces && v < levels && spec_sooner(
                            l,
                            f,
                            v,
                            layer as nat,
                            face as nat,
                            level as nat,
                        ) ==> #[trigger] layout.spec_image(out@, l, f, v) == spec_piece(
                            file@,
                            layout,
                            l,
                            f,
                            v,
                        ),
                decreases levels - level,
            {
                let size = layout.level_size(level);
                let ghost place = spec_place_in(
                    layout,
                    0,
                    levels as nat,
                    faces as nat,
                    layer as nat,
                    level as nat,
                    face as nat,
                );
                proof {
                    lemma_places_in(
                        layout,
                        0,
                        levels as nat,
                        faces as nat,
                        layers as nat,
                        layer as nat,
                        level as nat,
                        face as nat,
                    );
                    let a = layer as nat * (face_size as nat * faces as nat);
                    let b = prefix as nat * faces as nat;
                    let c = face as nat * size as nat;
                    assert(a >= 0 && b >= 0 && c >= 0) by (nonlinear_arith)
                        requires
                            a == layer as nat * (face_size as nat * faces as nat),
                            b == prefix as nat * faces as nat,
                            c == face as nat * size as nat,
                    ;
                    assert(place == HEADER_SIZE + a + b + c);
                    assert(layout.spec_size() == layout.spec_levels_size(0, levels as nat)
                        * faces as nat * layers as nat);
                    assert(place + size <= file@.len());
                    assert(layer * layer_size == a);
                    assert(layout.spec_levels_size(0, (level + 1) as nat) == prefix + size);
                    layout.lemma_levels_size_monotone(0, (level + 1) as nat, levels as nat);
                }
                let from: usize = HEADER_SIZE + layer * layer_size + prefix * faces + face * size;
                let piece = vstd::slice::slice_subrange(file, from, from + size);
                let ghost before = out@;
                append_bytes(&mut out, piece);
                proof {
                    lemma_offsets(layout, layer as nat, face as nat, level as nat);
                    assert forall|l: nat, f: nat, v: nat|
                        l < layers && f < faces && v < levels && spec_sooner(
                            l,
                            f,
                            v,
                            layer as nat,
                            face as nat,
                            (level + 1) as nat,
                        ) implies #[trigger] layout.spec_image(out@, l, f, v)
                        == spec_piece(file@, layout, l, f, v) by {
                        if spec_sooner(l, f, v, layer as nat, face as nat, level as nat) {
                            layout.lemma_images_disjoint(
                                l,
                                f,
                                v,
                                layer as nat,
                                face as nat,
                                level as nat,
                            );
                            lemma_append_keeps(
                                before,
                                piece@,
                                layout.spec_offset(l, f, v) as int,
                                (layout.spec_offset(l, f, v) + layout.spec_level_size(v)) as int,
                            );
                            assert(layout.spec_image(before, l, f, v) == spec_piece(
                                file@,
                                layout,
                                l,
                                f,
                                v,
                            ));
                        } else {
                            assert(l == layer && v == level && f == face);
                            lemma_append_keeps(before, piece@, 0, 0);
                        }
                    }
                }
                prefix = prefix + size;
                level = level + 1;
            }
            proof {
                lemma_offsets(layout, layer as nat, face as nat, levels as nat);
            }
            face = face + 1;
        }
        proof {
            lemma_offsets(layout, layer as nat, faces as nat, 0);
        }
        layer = layer + 1;
    }
    proof {
        lemma_offsets(layout, layers as nat, 0, 0);
    }
    let ghost bytes = out@;
    let count = pool.len();
    let mut t = Texture::from_bytes(pool, target, format, extent, layers, faces, levels, out);
    assert(!t.spec_empty());
    assert(pool@[t.spec_buffer().unwrap() as int].bytes == bytes);
    t.set_swizzles(swizzles);
    proof {
        assert(final(pool)@.subrange(0, old(pool)@.len() as int) =~= old(pool)@);
        assert(t.spec_descriptor().swizzles =~= spec_descriptor_in(file@).swizzles);
        assert forall|l: nat, f: nat, v: nat| t.spec_shows(l, f, v) implies #[trigger] spec_image_in_file(
            file@,
            &t,
            l,
            f,
            v,
        ) == t.spec_image_bytes(pool@, l, f, v) by {
            assert(spec_sooner(l, f, v, layers as nat, 0, 0));
            assert(layout.spec_image(bytes, l, f, v) == spec_piece(
                file@,
                layout,
                l,
                f,
                v,
            ));
            assert(t.spec_layout() == layout);
            assert(t.spec_descriptor().base_level == 0);
            assert(pool@[t.spec_buffer().unwrap() as int].bytes == bytes);
            assert(t.spec_image_offset(l, f, v) == layout.spec_offset(l, f, v));
            assert(t.spec_size_at_level(v) == layout.spec_level_size(v));
            assert(spec_place(&t, l, v, f) == spec_place_in(
                layout,
                0,
                levels as nat,
                faces as nat,
                l,
                v,
                f,
            ));
        }
    }
    t
}

/// Two runs of levels with the same sizes, level by level, have the same
/// size.
pub proof fn lemma_runs_agree(a: Layout, base_a: nat, b: Layout, base_b: nat, levels: nat)
    requires
        forall|v: nat| v < levels ==> #[trigger] a.spec_level_size(base_a + v) == b.spec_level_size(
            base_b + v,
        ),
    ensures
        a.spec_levels_size(base_a, base_a + levels) == b.spec_levels_size(base_b, base_b + levels),
    decreases levels,
{
    if levels > 0 {
        lemma_runs_agree(a, base_a, b, base_b, (levels - 1) as nat);
        assert(a.spec_level_size(base_a + (levels - 1) as nat) == b.spec_level_size(
            base_b + (levels - 1) as nat,
        ));
    }
}

/// What is true of the header of the file of a texture that can be saved:
/// it describes what the texture shows, as a texture with a buffer of its
/// own.
pub proof fn lemma_header_of_saved(texture: &Texture, pool: Seq<Buffer>, file: Seq<u8>)
    requires
        texture.wf(),
        spec_can_save(texture, pool),
        spec_is_file_of(file, texture, pool),
    ensures
        spec_well_formed(file),
        spec_descriptor_in(file).format == texture.spec_descriptor().format,
        spec_descriptor_in(file).target == texture.spec_descriptor().target,
        spec_descriptor_in(file).swizzles == texture.spec_descriptor().swizzles,
        spec_layout_in(file) == Layout::spec_of(
            texture.spec_descriptor().format,
            texture.spec_extent(0),
            texture.spec_layers() as usize,
            texture.spec_faces() as usize,
            texture.spec_levels() as usize,
        ),
        forall|levels: nat|
            levels <= texture.spec_levels() ==> #[trigger] spec_layout_in(file).spec_levels_size(
                0,
                levels,
            ) == texture.spec_layout().spec_levels_size(
                texture.spec_descriptor().base_level as nat,
                texture.spec_descriptor().base_level as nat + levels,
            ),
{
    let words = spec_words_of(texture);
    let head = file.subrange(0, HEADER_SIZE as int);
    lemma_encode_words(words);
    assert(file.subrange(MAGIC_SIZE as int, MAGIC_SIZE + 4 * words.len()) =~= spec_encode_words(
        words,
    )) by {
        assert(head == spec_magic() + spec_encode_words(words));
        assert(file.subrange(MAGIC_SIZE as int, MAGIC_SIZE + 4 * words.len()) =~= head.subrange(
            MAGIC_SIZE as int,
            HEADER_SIZE as int,
        ));
    }
    assert(file.subrange(0, MAGIC_SIZE as int) =~= spec_magic()) by {
        assert(file.subrange(0, MAGIC_SIZE as int) =~= head.subrange(0, MAGIC_SIZE as int));
    }
    lemma_words_read_back(file, words);
    assert(spec_word(file, 0) == words[0]);
    assert(spec_word(file, 1) == words[1]);
    assert(spec_word(file, 2) == words[2]);
    assert(spec_word(file, 3) == words[3]);
    assert(spec_word(file, 4) == words[4]);
    assert(spec_word(file, 5) == words[5]);
    assert(spec_word(file, 6) == words[6]);
    assert(spec_word(file, 7) == words[7]);
    assert(spec_word(file, 8) == words[8]);
    assert(spec_word(file, 9) == words[9]);
    assert(spec_word(file, 10) == words[10]);
    assert(spec_word(file, 11) == words[11]);
    assert(spec_word(file, 12) == words[12]);
    assert(spec_word(file, 14) == words[14]);
    assert(spec_word(file, 15) == words[15]);
    assert(spec_descriptor_in(file).swizzles =~= texture.spec_descriptor().swizzles);
    let own = spec_layout_in(file);
    let base = texture.spec_descriptor().base_level as nat;
    assert forall|levels: nat| levels <= texture.spec_levels() implies #[trigger] own.spec_levels_size(
        0,
        levels,
    ) == texture.spec_layout().spec_levels_size(base, base + levels) by {
        assert forall|v: nat| v < levels implies #[trigger] own.spec_level_size(0 + v)
            == texture.spec_layout().spec_level_size(base + v) by {
            assert(spec_same_level(own, texture, v));
        }
        lemma_runs_agree(own, 0, texture.spec_layout(), base, levels);
    }
    assert(own.spec_levels_size(0, texture.spec_levels()) == texture.spec_layout().spec_levels_size(
        base,
        base + texture.spec_levels(),
    ));
}

/// A texture that is read from the file of a texture shows what that
/// texture showed: the same format, target and swizzles, as many layers,
/// faces and levels, levels of the same extents and sizes, as many bytes in
/// all, and images with the same bytes.
pub proof fn lemma_round_trip(
    texture: &Texture,
    pool: Seq<Buffer>,
    file: Seq<u8>,
    read: &Texture,
    before: Seq<Buffer>,
    after: Seq<Buffer>,
)
    requires
        texture.wf(),
        spec_can_save(texture, pool),
        spec_is_file_of(file, texture, pool),
        spec_read_from(read, before, after, file),
    ensures
        spec_well_formed(file),
        read.spec_descriptor().format == texture.spec_descriptor().format,
        read.spec_descriptor().target == spec_descriptor_in(file).target
            ==> read.spec_descriptor().target == texture.spec_descriptor().target,
        read.spec_descriptor().swizzles == texture.spec_descriptor().swizzles,
        read.spec_layers() == texture.spec_layers(),
        read.spec_faces() == texture.spec_faces(),
        read.spec_levels() == texture.spec_levels(),
        read.spec_size() == texture.spec_size(),
        forall|level: nat| #[trigger] read.spec_extent(level) == texture.spec_extent(level),
        forall|level: nat|
            #[trigger] read.spec_size_at_level(level) == texture.spec_size_at_level(level),
        forall|layer: nat, face: nat, level: nat|
            texture.spec_shows(layer, face, level) ==> #[trigger] read.spec_image_bytes(
                after,
                layer,
                face,
                level,
            ) == texture.spec_image_bytes(pool, layer, face, level),
{
    lemma_header_of_saved(texture, pool, file);
    let own = spec_layout_in(file);
    let base = texture.spec_descriptor().base_level as nat;
    assert(read.spec_layers() == texture.spec_layers());
    assert(read.spec_faces() == texture.spec_faces());
    assert(read.spec_levels() == texture.spec_levels());
    assert(own.spec_levels_size(0, texture.spec_levels()) == texture.spec_layout().spec_levels_size(
        base,
        base + texture.spec_levels(),
    ));
    assert(read.spec_size() == texture.spec_size());
    assert forall|level: nat| #[trigger] read.spec_size_at_level(level)
        == texture.spec_size_at_level(level) by {
        if level < texture.spec_levels() {
            assert(spec_same_level(own, texture, level));
        }
    }
    assert forall|level: nat| #[trigger] read.spec_extent(level) == texture.spec_extent(level) by {
        if level < texture.spec_levels() {
            assert(spec_same_level(own, texture, level));
        }
    }
    assert forall|layer: nat, face: nat, level: nat|
        texture.spec_shows(layer, face, level) implies #[trigger] read.spec_image_bytes(
        after,
        layer,
        face,
        level,
    ) == texture.spec_image_bytes(pool, layer, face, level) by {
        assert(spec_same_level(own, texture, level));
        assert(own.spec_levels_size(0, level) == texture.spec_layout().spec_levels_size(
            base,
            base + level,
        ));
        assert(own.spec_levels_size(0, texture.spec_levels())
            == texture.spec_layout().spec_levels_size(base, base + texture.spec_levels()));
        assert(spec_place(read, layer, level, face) == spec_place(texture, layer, level, face));
        assert(spec_image_in_file(file, read, layer, face, level) == spec_image_in_file(
            file,
            texture,
            layer,
            face,
            level,
        ));
        assert(read.spec_shows(layer, face, level));
    }
}

} // verus!
