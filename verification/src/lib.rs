//! Typed views over block-structured texture data that share one pixel buffer,
//! and texel sampling on top of them.

pub use self::error::{Error, ErrorKind};
pub use self::extent::{Extent1d, Extent2d, Extent3d};
pub use self::format::{Format, Numeric, Swizzle, Swizzles, TexFormatType};
pub use self::image::GliImage;
pub use self::load::{construct_texture, container_of, load_kmg_memory};
pub use self::save::{container_for, save_kmg_memory};
pub use self::storage::Pool;
pub use self::texture::{
    GliTexture, Texture, Texture1D, Texture1DArray, Texture2D, Texture2DArray, Texture3D,
    TextureAccessible, TextureCube, TextureCubeArray,
};

pub mod error;
pub mod extent;
pub mod format;
pub mod image;
pub mod kmg;
pub mod layout;
pub mod load;
pub mod mipmap;
pub mod sampler;
pub mod save;
pub mod storage;
pub mod target;
pub mod texture;
pub mod wrap;
