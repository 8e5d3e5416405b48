//! What is made of a texture that was read from a container.
//!
//! A reader of a container hands over the texture that it made, of whatever
//! kind the container holds, and here it is taken as a texture of the kind
//! that the caller asks for. Of the containers, KMG is read here.

use vstd::prelude::*;
use crate::error::{Error, ErrorKind};
use crate::format::TexFormatType;
use crate::kmg::{spec_read_from, spec_well_formed};
use crate::storage::Pool;
use crate::texture::{Descriptor, GliTexture, Texture, TextureAccessible};

verus! {

/// Takes a texture that was read from a container as a texture of the kind
/// `T`. An empty texture is what a reader hands over when it could not read,
/// and that is the one failure. Any other texture is taken as it is: the
/// result shows the same images of the same buffer, with the same format,
/// ranges and swizzles, under the target of the kind, and counts as the
/// same holder.
pub fn construct_texture<T: GliTexture>(raw: Texture) -> (r: Result<T, Error>)
    ensures
        r.is_ok() == !raw.spec_empty(),
        r matches Ok(t) ==> {
            &&& t.spec_raw().wf()
            &&& !t.spec_raw().spec_empty()
            &&& t.spec_raw().spec_buffer() == raw.spec_buffer()
            &&& t.spec_raw().spec_layout() == raw.spec_layout()
            &&& t.spec_raw().spec_descriptor() == (Descriptor {
                target: T::spec_target_type(),
                ..raw.spec_descriptor()
            })
        },
        r matches Err(e) ==> e.spec_kind() matches ErrorKind::LoadTexture(m) && m@
            == "Failed to load."@,
{
    if raw.empty() {
        return Err(Error::load_texture("Failed to load."));
    }
    match T::from_raw(raw.retarget(T::target_type())) {
        Ok(t) => Ok(t),
        Err(_) => Err(Error::load_texture("Failed to load.")),
    }
}

/// Loads a texture of the kind `T` from the bytes of a KMG (Khronos Image)
/// file. Fails, and leaves the pool as it is, unless the file is well
/// formed. The texture of a well-formed file is taken as a texture of the
/// kind `T`, whatever kind the file names.
pub fn load_kmg_memory<T: GliTexture>(pool: &mut Pool, data: &[u8]) -> (r: Result<T, Error>)
    ensures
        r.is_ok() == spec_well_formed(data@),
        r matches Ok(t) ==> spec_read_from(&t.spec_raw(), old(pool)@, final(pool)@, data@)
            && t.spec_raw().spec_descriptor().target == T::spec_target_type(),
        r matches Err(e) ==> (e.spec_kind() matches ErrorKind::LoadTexture(m) && m@
            == "Failed to load."@) && final(pool)@ == old(pool)@,
{
    let raw = crate::kmg::load(pool, data);
    let ghost was = raw;
    let r = construct_texture::<T>(raw);
    proof {
        if r.is_ok() {
            let t = r.unwrap().spec_raw();
            assert(t.spec_held_by(pool@));
            assert(crate::kmg::spec_holds_images(data@, &t, pool@)) by {
                assert forall|layer: nat, face: nat, level: nat|
                    t.spec_shows(layer, face, level) implies #[trigger] crate::kmg::spec_image_in_file(
                    data@,
                    &t,
                    layer,
                    face,
                    level,
                ) == t.spec_image_bytes(pool@, layer, face, level) by {
                    assert(was.spec_shows(layer, face, level));
                    assert(crate::kmg::spec_image_in_file(data@, &was, layer, face, level)
                        == was.spec_image_bytes(pool@, layer, face, level));
                }
            }
        }
    }
    r
}

/// The bytes that a DDS file begins with: `DDS` and a blank.
pub open spec fn spec_dds_magic() -> Seq<u8> {
    seq![0x44u8, 0x44u8, 0x53u8, 0x20u8]
}

/// The bytes that a KTX file begins with.
pub open spec fn spec_ktx_magic() -> Seq<u8> {
    seq![
        0xABu8,
        0x4Bu8,
        0x54u8,
        0x58u8,
        0x20u8,
        0x31u8,
        0x31u8,
        0xBBu8,
        0x0Du8,
        0x0Au8,
        0x1Au8,
        0x0Au8,
    ]
}

/// Whether `bytes` begins with `magic`.
pub open spec fn spec_begins_with(bytes: Seq<u8>, magic: Seq<u8>) -> bool {
    bytes.len() >= magic.len() && bytes.subrange(0, magic.len() as int) == magic
}

/// The container that the bytes of a file are, by the bytes that the file
/// begins with.
pub open spec fn spec_container_of(bytes: Seq<u8>) -> Option<TexFormatType> {
    if spec_begins_with(bytes, spec_dds_magic()) {
        Some(TexFormatType::DDS)
    } else if spec_begins_with(bytes, spec_ktx_magic()) {
        Some(TexFormatType::KTX)
    } else if spec_begins_with(bytes, crate::kmg::spec_magic()) {
        Some(TexFormatType::KMG)
    } else {
        None
    }
}

/// Whether `bytes` begins with `magic`.
fn begins_with(bytes: &[u8], magic: &[u8]) -> (r: bool)
    ensures
        r == spec_begins_with(bytes@, magic@),
{
    if bytes.len() < magic.len() {
        return false;
    }
    crate::image::same_bytes(vstd::slice::slice_subrange(bytes, 0, magic.len()), magic)
}

/// Tells which container the bytes of a file are, if any that is known, by
/// the bytes that the file begins with.
pub fn container_of(bytes: &[u8]) -> (r: Option<TexFormatType>)
    ensures
        r == spec_container_of(bytes@),
{
    let dds: [u8; 4] = [0x44, 0x44, 0x53, 0x20];
    let ktx: [u8; 12] = [0xAB, 0x4B, 0x54, 0x58, 0x20, 0x31, 0x31, 0xBB, 0x0D, 0x0A, 0x1A, 0x0A];
    let kmg: [u8; 13] = [
        0xAB,
        0x4B,
        0x49,
        0x4D,
        0x20,
        0x31,
        0x30,
        0x30,
        0xBB,
        0x0D,
        0x0A,
        0x1A,
        0x0A,
    ];
    assert(dds@ =~= spec_dds_magic());
    assert(ktx@ =~= spec_ktx_magic());
    assert(kmg@ =~= crate::kmg::spec_magic());
    if begins_with(bytes, vstd::array::array_as_slice(&dds)) {
        Some(TexFormatType::DDS)
    } else if begins_with(bytes, vstd::array::array_as_slice(&ktx)) {
        Some(TexFormatType::KTX)
    } else if begins_with(bytes, vstd::array::array_as_slice(&kmg)) {
        Some(TexFormatType::KMG)
    } else {
        None
    }
}

} // verus!
