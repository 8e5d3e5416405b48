//! Which container a texture is saved in.
//!
//! Writing the bytes of a container and putting them on disk is not done
//! here. What is decided here is the container: by the filename extension of
//! the path where the path decides, and by the caller where the caller names
//! it.

use vstd::prelude::*;
use vstd::string::StringExecFns;
use crate::error::{Error, ErrorKind};
use crate::format::TexFormatType;
use crate::kmg::{spec_can_save, spec_is_file_of, spec_standalone};
use crate::storage::Pool;
use crate::texture::GliTexture;

verus! {

/// The filename extension that stands for a container.
pub open spec fn spec_extension(container: TexFormatType) -> Seq<char> {
    match container {
        TexFormatType::DDS => "dds"@,
        TexFormatType::KTX => "ktx"@,
        TexFormatType::KMG => "kmg"@,
    }
}

/// The container that a filename extension stands for, if any.
pub open spec fn spec_container(extension: Seq<char>) -> Option<TexFormatType> {
    if extension == "dds"@ {
        Some(TexFormatType::DDS)
    } else if extension == "ktx"@ {
        Some(TexFormatType::KTX)
    } else if extension == "kmg"@ {
        Some(TexFormatType::KMG)
    } else {
        None
    }
}

/// The filename extension that stands for a container.
pub fn extension(container: TexFormatType) -> (r: &'static str)
    ensures
        r@ == spec_extension(container),
        spec_container(r@) == Some(container),
{
    proof {
        lemma_extension_names_container(container);
    }
    match container {
        TexFormatType::DDS => "dds",
        TexFormatType::KTX => "ktx",
        TexFormatType::KMG => "kmg",
    }
}

/// The container to save a texture in, by the filename extension of the path
/// to save it at: `dds`, `ktx` or `kmg`, in small letters. A path without an
/// extension and an extension that stands for no container are errors; there
/// is no container that is taken when in doubt.
pub fn container_for(extension: Option<&str>) -> (r: Result<TexFormatType, Error>)
    ensures
        match extension {
            None => r matches Err(e) && e.spec_kind() matches ErrorKind::SaveTexture(m) && m@
                == "Invalid path to save texture."@,
            Some(ext) => match spec_container(ext@) {
                Some(container) => r == Ok::<TexFormatType, Error>(container),
                None => r matches Err(e) && e.spec_kind() matches ErrorKind::SaveTexture(m) && m@
                    == "Saving "@ + ext@ + " format is not support."@,
            },
        },
{
    match extension {
        None => Err(Error::save_texture("Invalid path to save texture.")),
        Some(ext) => {
            let given = String::from_str(ext);
            if given == String::from_str("dds") {
                Ok(TexFormatType::DDS)
            } else if given == String::from_str("ktx") {
                Ok(TexFormatType::KTX)
            } else if given == String::from_str("kmg") {
                Ok(TexFormatType::KMG)
            } else {
                let message = String::from_str("Saving ").concat(ext).concat(
                    " format is not support.",
                );
                Err(Error::save_texture(message.as_str()))
            }
        },
    }
}

/// The filename extension of each container stands for that container.
pub proof fn lemma_extension_names_container(container: TexFormatType)
    ensures
        spec_container(spec_extension(container)) == Some(container),
{
    reveal_strlit("dds");
    reveal_strlit("ktx");
    reveal_strlit("kmg");
    match container {
        TexFormatType::DDS => {},
        TexFormatType::KTX => {
            assert("ktx"@[0] != "dds"@[0]);
        },
        TexFormatType::KMG => {
            assert("kmg"@[0] != "dds"@[0]);
            assert("kmg"@[1] != "ktx"@[1]);
        },
    }
}

/// Writes a texture as the bytes of a KMG (Khronos Image) file. Fails
/// unless the texture can be written as a file.
pub fn save_kmg_memory<T: GliTexture>(texture: &T, pool: &Pool) -> (r: Result<Vec<u8>, Error>)
    ensures
        r.is_ok() == spec_can_save(&texture.spec_raw(), pool@),
        r matches Ok(file) ==> spec_is_file_of(file@, &texture.spec_raw(), pool@),
        r matches Err(e) ==> e.spec_kind() matches ErrorKind::SaveTexture(m) && m@
            == if !texture.spec_raw().spec_held_by(pool@) {
            "The texture has no storage to save."@
        } else if !spec_standalone(&texture.spec_raw()) {
            "What the texture shows is no texture of its own."@
        } else {
            "The texture is too large to save."@
        },
{
    crate::kmg::save(texture.raw_texture(), pool)
}

} // verus!
