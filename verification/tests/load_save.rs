use gli_rs::load::{construct_texture, container_of};
use gli_rs::save::{container_for, extension};
use gli_rs::target::Target;
use gli_rs::texture::Texture;
use gli_rs::{
    ErrorKind, Extent3d, Format, GliTexture, Pool, TexFormatType, Texture1D, Texture2D,
    Texture2DArray, TextureCube,
};

/// What a reader makes of a container that holds an array of two layers of
/// one byte a texel.
fn array_r8_uint(pool: &mut Pool) -> Texture {
    let bytes: Vec<u8> = (0u8..32).collect();
    Texture::from_bytes(
        pool,
        Target(Target::TARGET_2D_ARRAY),
        Format(Format::R8_UINT_PACK8),
        Extent3d { width: 4, height: 4, depth: 1 },
        2,
        1,
        1,
        bytes,
    )
}

fn print_texture_info(texture: &impl GliTexture) {
    println!("\tFaces  count: {}", texture.faces());
    println!("\tLayers count: {}", texture.layers());
    println!("\tLevels count: {}", texture.levels());
    println!("\tSize: {}", texture.size());
    println!("\tFormat: {}", texture.format().0);
    println!("\tTarget: {}", texture.target().name());
}

#[test]
fn load_and_save_dds() {
    let mut pool = Pool::new();
    let raw = array_r8_uint(&mut pool);
    let texture_loaded: Texture2D = construct_texture(raw).unwrap();

    assert!(!texture_loaded.empty(), "DDS texture is empty.");

    let extent = texture_loaded.extent(0);

    println!("DDS Texture info:");
    println!("\tExtent: ({}, {})", extent.width, extent.height);
    print_texture_info(&texture_loaded);

    assert_eq!(container_for(Some("dds")).unwrap(), TexFormatType::DDS);
}

#[test]
fn load_and_save_ktx() {
    let mut pool = Pool::new();
    let raw = array_r8_uint(&mut pool);
    let texture_loaded: Texture2D = construct_texture(raw).unwrap();

    assert!(!texture_loaded.empty(), "KTX texture is empty.");

    let extent = texture_loaded.extent(0);

    println!("KTX Texture info:");
    println!("\tExtent: ({}, {})", extent.width, extent.height);
    print_texture_info(&texture_loaded);

    assert_eq!(container_for(Some("ktx")).unwrap(), TexFormatType::KTX);
}

#[test]
fn an_empty_texture_fails_to_load() {
    let raw = Texture::new_empty(Target(Target::TARGET_2D));
    let r: Result<Texture2D, _> = construct_texture(raw);
    let e = r.err().unwrap();
    assert!(matches!(e.kind(), ErrorKind::LoadTexture(m) if m == "Failed to load."));
    assert_eq!(e.message(), "Load texture error: Failed to load.");
    let raw = Texture::new_empty(Target(Target::TARGET_CUBE));
    let r: Result<Texture1D, _> = construct_texture(raw);
    assert!(matches!(r.err().unwrap().kind(), ErrorKind::LoadTexture(m) if m == "Failed to load."));
}

#[test]
fn a_texture_loads_as_the_kind_asked_for() {
    // An array of two layers, asked for as a 2d texture, is taken as it is.
    let mut pool = Pool::new();
    let raw = array_r8_uint(&mut pool);
    assert_eq!(pool.holders(0), 1);
    let t: Texture2D = construct_texture(raw).unwrap();
    assert_eq!(pool.holders(0), 1);
    assert!(!t.empty());
    assert_eq!(t.target(), Target(Target::TARGET_2D));
    assert_eq!(t.format(), Format(Format::R8_UINT_PACK8));
    assert_eq!((t.layers(), t.faces(), t.levels()), (2, 1, 1));
    assert_eq!((t.base_layer(), t.max_layer()), (0, 1));
    assert_eq!(t.extent(0), gli_rs::Extent2d { width: 4, height: 4 });
    assert_eq!(t.size(), 32);
    let bytes: Vec<u8> = (0u8..32).collect();
    assert_eq!(t.data(&pool).unwrap(), &bytes[..]);
    // Its first level is the first image of the first layer.
    let image = t.get_level(&mut pool, 0).unwrap();
    assert_eq!(image.data(&pool).unwrap(), &bytes[..16]);
    // As any other kind too.
    let raw = array_r8_uint(&mut pool);
    let line: Texture1D = construct_texture(raw).unwrap();
    assert_eq!(line.target(), Target(Target::TARGET_1D));
    assert_eq!(line.extent(0), gli_rs::Extent1d { width: 4 });
    assert_eq!(line.size(), 32);
    let raw = array_r8_uint(&mut pool);
    let cube: TextureCube = construct_texture(raw).unwrap();
    assert_eq!((cube.layers(), cube.faces()), (2, 1));
    let raw = array_r8_uint(&mut pool);
    let array: Texture2DArray = construct_texture(raw).unwrap();
    assert_eq!(array.target().name(), "Target::TARGET_2D_ARRAY");
    assert_eq!(pool.holders(1), 1);
    assert_eq!(pool.holders(2), 1);
    assert_eq!(pool.holders(3), 1);
}

#[test]
fn the_extension_names_the_container() {
    assert_eq!(container_for(Some("dds")).unwrap(), TexFormatType::DDS);
    assert_eq!(container_for(Some("ktx")).unwrap(), TexFormatType::KTX);
    assert_eq!(container_for(Some("kmg")).unwrap(), TexFormatType::KMG);
    assert_eq!(extension(TexFormatType::DDS), "dds");
    assert_eq!(extension(TexFormatType::KTX), "ktx");
    assert_eq!(extension(TexFormatType::KMG), "kmg");
    for container in [TexFormatType::DDS, TexFormatType::KTX, TexFormatType::KMG] {
        assert_eq!(container_for(Some(extension(container))).unwrap(), container);
    }
}

#[test]
fn another_extension_is_an_error() {
    for ext in ["png", "DDS", "Ktx", "", "dds ", "kmg1"] {
        let e = container_for(Some(ext)).err().unwrap();
        let want = format!("Saving {} format is not support.", ext);
        assert!(matches!(e.kind(), ErrorKind::SaveTexture(m) if *m == want), "{}", ext);
    }
    let e = container_for(None).err().unwrap();
    assert!(matches!(e.kind(), ErrorKind::SaveTexture(m) if m == "Invalid path to save texture."));
    assert_eq!(e.message(), "Save texture error: Invalid path to save texture.");
}

#[test]
fn a_file_is_known_by_its_first_bytes() {
    let kmg = [0xABu8, 0x4B, 0x49, 0x4D, 0x20, 0x31, 0x30, 0x30, 0xBB, 0x0D, 0x0A, 0x1A, 0x0A, 7];
    let ktx = [0xABu8, 0x4B, 0x54, 0x58, 0x20, 0x31, 0x31, 0xBB, 0x0D, 0x0A, 0x1A, 0x0A];
    assert_eq!(container_of(b"DDS |..."), Some(TexFormatType::DDS));
    assert_eq!(container_of(b"DDS "), Some(TexFormatType::DDS));
    assert_eq!(container_of(&ktx), Some(TexFormatType::KTX));
    assert_eq!(container_of(&kmg), Some(TexFormatType::KMG));
    assert_eq!(container_of(&kmg[..13]), Some(TexFormatType::KMG));
    assert_eq!(container_of(&kmg[..12]), None);
    assert_eq!(container_of(&ktx[..11]), None);
    assert_eq!(container_of(b"DDS"), None);
    assert_eq!(container_of(b"dds "), None);
    assert_eq!(container_of(b""), None);
    assert_eq!(container_of(b"\x89PNG\r\n\x1a\n"), None);
}
