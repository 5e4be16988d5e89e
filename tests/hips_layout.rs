use skyview_geometry::hips_config::{
    tile_format, ConfigError, HiPSConfig, HiPSProperties, HiPSTileFormat, ImageFormatType,
};

fn props(tile_size: i32, max_order: u8, formats: Vec<HiPSTileFormat>, bitpix: Option<i32>) -> HiPSProperties {
    HiPSProperties {
        url: "https://example.org/hips".to_string(),
        max_order,
        tile_size,
        formats,
        longitude_reversed: false,
        bitpix,
    }
}

#[test]
fn jpeg_survey_layout() {
    let p = props(64, 9, vec![HiPSTileFormat::Jpeg, HiPSTileFormat::Png], None);
    let c = HiPSConfig::new(&p, HiPSTileFormat::Jpeg).unwrap();
    assert_eq!(c.format(), ImageFormatType::RGB8U);
    assert_eq!(c.get_tile_size(), 64);
    assert_eq!(c.get_texture_size(), 512);
    assert_eq!(c.delta_depth(), 3);
    assert_eq!(c.num_tiles_per_texture(), 64);
    assert_eq!(c.get_max_depth(), 6);
    assert_eq!(c.num_textures(), 192);
    assert_eq!(c.num_textures_by_side_slice(), 8);
    assert_eq!(c.num_textures_by_slice(), 64);
    assert_eq!(c.num_slices(), 3);
    assert_eq!(c.root_url, "https://example.org/hips");
    assert!(!c.tex_storing_fits);
}

#[test]
fn shallow_survey_keeps_small_textures() {
    let p = props(128, 1, vec![HiPSTileFormat::Png], None);
    let c = HiPSConfig::new(&p, HiPSTileFormat::Png).unwrap();
    assert_eq!(c.get_texture_size(), 256);
    assert_eq!(c.delta_depth(), 1);
    assert_eq!(c.num_tiles_per_texture(), 4);
    assert_eq!(c.get_max_depth(), 0);
    assert_eq!(c.format(), ImageFormatType::RGBA8U);
}

#[test]
fn large_tiles_fill_a_texture() {
    let p = props(512, 11, vec![HiPSTileFormat::Fits], Some(-32));
    let c = HiPSConfig::new(&p, HiPSTileFormat::Fits).unwrap();
    assert_eq!(c.get_texture_size(), 512);
    assert_eq!(c.delta_depth(), 0);
    assert_eq!(c.num_tiles_per_texture(), 1);
    assert_eq!(c.get_max_depth(), 11);
    assert!(c.tex_storing_fits);
    assert!(!c.tex_storing_integers);
}

#[test]
fn fits_bitpix_selects_format() {
    assert_eq!(tile_format(HiPSTileFormat::Fits, Some(8)), Ok(ImageFormatType::R8UI));
    assert_eq!(tile_format(HiPSTileFormat::Fits, Some(16)), Ok(ImageFormatType::R16I));
    assert_eq!(tile_format(HiPSTileFormat::Fits, Some(32)), Ok(ImageFormatType::R32I));
    assert_eq!(tile_format(HiPSTileFormat::Fits, Some(-64)), Ok(ImageFormatType::R32F));
    let p = props(256, 5, vec![HiPSTileFormat::Fits], Some(16));
    let c = HiPSConfig::new(&p, HiPSTileFormat::Fits).unwrap();
    assert!(c.tex_storing_integers);
    assert!(!c.tex_storing_unsigned_int);
}

#[test]
fn config_errors() {
    let p = props(256, 5, vec![HiPSTileFormat::Png], None);
    assert_eq!(HiPSConfig::new(&p, HiPSTileFormat::Jpeg).unwrap_err(), ConfigError::FormatNotAvailable);
    let p = props(256, 5, vec![HiPSTileFormat::Fits], None);
    assert_eq!(HiPSConfig::new(&p, HiPSTileFormat::Fits).unwrap_err(), ConfigError::MissingBitpix);
    let p = props(256, 5, vec![HiPSTileFormat::Fits], Some(12));
    assert_eq!(HiPSConfig::new(&p, HiPSTileFormat::Fits).unwrap_err(), ConfigError::UnsupportedBitpix);
}
