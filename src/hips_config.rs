//! How a survey's tiles are laid out in the texture array.

use vstd::prelude::*;

use crate::subdivision::{lemma_pow2_pos, pow2};

verus! {

/// Largest side, in pixels, of a texture of the tile atlas.
pub const MAX_TEXTURE_SIZE: i32 = 512;

/// Textures along one side of a slice of the texture array.
pub const NUM_TEXTURES_BY_SIDE_SLICE: i32 = 8;

/// Slices of the texture array.
pub const NUM_SLICES: i32 = 3;

/// The image formats a survey's tiles may be served in.
#[derive(Clone, Copy, Debug, PartialEq, Eq, Structural)]
pub enum HiPSTileFormat {
    Fits,
    Png,
    Jpeg,
}

/// The pixel formats of the textures that hold tiles.
#[derive(Clone, Copy, Debug, PartialEq, Eq, Structural)]
pub enum ImageFormatType {
    RGBA8U,
    RGB8U,
    R32F,
    R8UI,
    R16I,
    R32I,
}

/// Why a survey cannot be configured.
#[derive(Clone, Copy, Debug, PartialEq, Eq, Structural)]
pub enum ConfigError {
    /// The survey does not offer the requested format.
    FormatNotAvailable,
    /// FITS tiles, but with a BITPIX value that has no texture format.
    UnsupportedBitpix,
    /// FITS tiles, but the properties give no BITPIX.
    MissingBitpix,
}

/// The size of the tiles of a survey, in pixels along a side.
#[derive(Clone, Copy, Debug, PartialEq, Eq, Structural)]
pub struct TileConfig {
    pub size: i32,
}

/// The tiles of a survey, by the texture format that holds them.
#[derive(Clone, Copy, Debug, PartialEq, Eq, Structural)]
pub enum TileConfigType {
    RGBA8U { config: TileConfig },
    RGB8U { config: TileConfig },
    R32F { config: TileConfig },
    R8UI { config: TileConfig },
    R16I { config: TileConfig },
    R32I { config: TileConfig },
}

/// The tile configuration of texture format `f` with tiles of side `size`.
pub open spec fn tile_config_of(f: ImageFormatType, size: i32) -> TileConfigType {
    match f {
        ImageFormatType::RGBA8U => TileConfigType::RGBA8U { config: TileConfig { size } },
        ImageFormatType::RGB8U => TileConfigType::RGB8U { config: TileConfig { size } },
        ImageFormatType::R32F => TileConfigType::R32F { config: TileConfig { size } },
        ImageFormatType::R8UI => TileConfigType::R8UI { config: TileConfig { size } },
        ImageFormatType::R16I => TileConfigType::R16I { config: TileConfig { size } },
        ImageFormatType::R32I => TileConfigType::R32I { config: TileConfig { size } },
    }
}

impl TileConfigType {
    pub open spec fn format_spec(&self) -> ImageFormatType {
        match self {
            TileConfigType::RGBA8U { .. } => ImageFormatType::RGBA8U,
            TileConfigType::RGB8U { .. } => ImageFormatType::RGB8U,
            TileConfigType::R32F { .. } => ImageFormatType::R32F,
            TileConfigType::R8UI { .. } => ImageFormatType::R8UI,
            TileConfigType::R16I { .. } => ImageFormatType::R16I,
            TileConfigType::R32I { .. } => ImageFormatType::R32I,
        }
    }

    pub open spec fn width_spec(&self) -> i32 {
        match self {
            TileConfigType::RGBA8U { config } => config.size,
            TileConfigType::RGB8U { config } => config.size,
            TileConfigType::R32F { config } => config.size,
            TileConfigType::R8UI { config } => config.size,
            TileConfigType::R16I { config } => config.size,
            TileConfigType::R32I { config } => config.size,
        }
    }

    /// Builds the tile configuration of texture format `f`.
    pub fn new(f: ImageFormatType, size: i32) -> (r: TileConfigType)
        ensures
            r == tile_config_of(f, size),
    {
        let config = TileConfig { size };
        match f {
            ImageFormatType::RGBA8U => TileConfigType::RGBA8U { config },
            ImageFormatType::RGB8U => TileConfigType::RGB8U { config },
            ImageFormatType::R32F => TileConfigType::R32F { config },
            ImageFormatType::R8UI => TileConfigType::R8UI { config },
            ImageFormatType::R16I => TileConfigType::R16I { config },
            ImageFormatType::R32I => TileConfigType::R32I { config },
        }
    }

    pub fn format(&self) -> (r: ImageFormatType)
        ensures
            r == self.format_spec(),
    {
        match self {
            TileConfigType::RGBA8U { .. } => ImageFormatType::RGBA8U,
            TileConfigType::RGB8U { .. } => ImageFormatType::RGB8U,
            TileConfigType::R32F { .. } => ImageFormatType::R32F,
            TileConfigType::R8UI { .. } => ImageFormatType::R8UI,
            TileConfigType::R16I { .. } => ImageFormatType::R16I,
            TileConfigType::R32I { .. } => ImageFormatType::R32I,
        }
    }

    pub fn width(&self) -> (r: i32)
        ensures
            r == self.width_spec(),
    {
        match self {
            TileConfigType::RGBA8U { config } => config.size,
            TileConfigType::RGB8U { config } => config.size,
            TileConfigType::R32F { config } => config.size,
            TileConfigType::R8UI { config } => config.size,
            TileConfigType::R16I { config } => config.size,
            TileConfigType::R32I { config } => config.size,
        }
    }
}

/// What the properties of a survey say about its tiles.
#[derive(Clone, Debug)]
pub struct HiPSProperties {
    pub url: String,
    pub max_order: u8,
    pub tile_size: i32,
    pub formats: Vec<HiPSTileFormat>,
    pub longitude_reversed: bool,
    pub bitpix: Option<i32>,
}

/// The texture format for tiles of `fmt`, given the BITPIX of FITS tiles.
pub open spec fn tile_format_for(fmt: HiPSTileFormat, bitpix: Option<i32>) -> Result<ImageFormatType, ConfigError> {
    match fmt {
        HiPSTileFormat::Png => Ok(ImageFormatType::RGBA8U),
        HiPSTileFormat::Jpeg => Ok(ImageFormatType::RGB8U),
        HiPSTileFormat::Fits => match bitpix {
            None => Err(ConfigError::MissingBitpix),
            Some(b) => if b == 8 {
                Ok(ImageFormatType::R8UI)
            } else if b == 16 {
                Ok(ImageFormatType::R16I)
            } else if b == 32 {
                Ok(ImageFormatType::R32I)
            } else if b == -32 || b == -64 {
                Ok(ImageFormatType::R32F)
            } else {
                Err(ConfigError::UnsupportedBitpix)
            },
        },
    }
}

/// Chooses the texture format of the tiles.
pub fn tile_format(fmt: HiPSTileFormat, bitpix: Option<i32>) -> (r: Result<ImageFormatType, ConfigError>)
    ensures
        r == tile_format_for(fmt, bitpix),
{
    match fmt {
        HiPSTileFormat::Png => Ok(ImageFormatType::RGBA8U),
        HiPSTileFormat::Jpeg => Ok(ImageFormatType::RGB8U),
        HiPSTileFormat::Fits => match bitpix {
            None => Err(ConfigError::MissingBitpix),
            Some(b) => if b == 8 {
                Ok(ImageFormatType::R8UI)
            } else if b == 16 {
                Ok(ImageFormatType::R16I)
            } else if b == 32 {
                Ok(ImageFormatType::R32I)
            } else if b == -32 || b == -64 {
                Ok(ImageFormatType::R32F)
            } else {
                Err(ConfigError::UnsupportedBitpix)
            },
        },
    }
}

/// A power of two no larger than the largest texture.
pub open spec fn valid_tile_size(s: int) -> bool {
    s == 1 || s == 2 || s == 4 || s == 8 || s == 16 || s == 32 || s == 64 || s == 128 || s == 256 || s == 512
}

pub open spec fn min_int(a: int, b: int) -> int {
    if a <= b { a } else { b }
}

/// How a survey's tiles are laid out in the texture array.
#[derive(Clone, Debug)]
pub struct HiPSConfig {
    pub root_url: String,
    pub tile_config: TileConfigType,
    pub texture_size: i32,
    pub longitude_reversed: bool,
    pub delta_depth: u8,
    pub num_tiles_per_texture: usize,
    pub max_depth_tile: u8,
    pub max_depth_texture: u8,
    pub num_textures_by_side_slice: i32,
    pub num_textures_by_slice: i32,
    pub num_slices: i32,
    pub num_textures: usize,
    pub tex_storing_integers: bool,
    pub tex_storing_fits: bool,
    pub tex_storing_unsigned_int: bool,
}

proof fn lemma_pow2_mono(a: nat, b: nat)
    requires
        a <= b,
    ensures
        pow2(a) <= pow2(b),
    decreases b - a,
{
    if a < b {
        lemma_pow2_mono(a, (b - 1) as nat);
        assert(pow2(b) == 2 * pow2((b - 1) as nat));
    }
}

impl HiPSConfig {
    /// Lays out a survey's tiles for the requested image format: the format
    /// must be offered, FITS tiles need a BITPIX with a texture format, and a
    /// texture holds as many tiles as fit within `MAX_TEXTURE_SIZE` pixels
    /// without going deeper than the survey.
    pub fn new(properties: &HiPSProperties, img_format: HiPSTileFormat) -> (r: Result<HiPSConfig, ConfigError>)
        requires
            valid_tile_size(properties.tile_size as int),
        ensures
            !properties.formats@.contains(img_format) ==> r == Err::<HiPSConfig, ConfigError>(ConfigError::FormatNotAvailable),
            properties.formats@.contains(img_format) && tile_format_for(img_format, properties.bitpix).is_err()
                ==> r == Err::<HiPSConfig, ConfigError>(tile_format_for(img_format, properties.bitpix)->Err_0),
            properties.formats@.contains(img_format) && tile_format_for(img_format, properties.bitpix).is_ok() ==> {
                &&& r.is_ok()
                &&& r->Ok_0.tile_config == tile_config_of(tile_format_for(img_format, properties.bitpix)->Ok_0, properties.tile_size)
                &&& r->Ok_0.root_url@ == properties.url@
                &&& r->Ok_0.longitude_reversed == properties.longitude_reversed
                &&& r->Ok_0.texture_size == min_int(
                    MAX_TEXTURE_SIZE as int,
                    properties.tile_size * pow2(properties.max_order as nat),
                )
                &&& r->Ok_0.texture_size == properties.tile_size * pow2(r->Ok_0.delta_depth as nat)
                &&& r->Ok_0.num_tiles_per_texture
                    == pow2(r->Ok_0.delta_depth as nat) * pow2(r->Ok_0.delta_depth as nat)
                &&& r->Ok_0.max_depth_texture == properties.max_order - r->Ok_0.delta_depth
                &&& r->Ok_0.num_textures == 192
                &&& r->Ok_0.tex_storing_fits == (img_format == HiPSTileFormat::Fits)
                &&& r->Ok_0.tex_storing_unsigned_int == (tile_format_for(img_format, properties.bitpix)->Ok_0 == ImageFormatType::R8UI)
                &&& r->Ok_0.tex_storing_integers == (tile_format_for(img_format, properties.bitpix)->Ok_0 == ImageFormatType::R16I
                    || tile_format_for(img_format, properties.bitpix)->Ok_0 == ImageFormatType::R32I)
            },
    {
        if !format_offered(&properties.formats, img_format) {
            return Err(ConfigError::FormatNotAvailable);
        }
        let format = match tile_format(img_format, properties.bitpix) {
            Ok(f) => f,
            Err(e) => return Err(e),
        };
        let tile_size = properties.tile_size;
        let max_depth_tile = properties.max_order;

        // Double the texture side until it reaches the largest size or the
        // survey's deepest order.
        let mut texture_size: i32 = tile_size;
        let mut delta_depth: u8 = 0;
        let mut per_side: usize = 1;
        proof {
            assert(pow2(0) == 1);
        }
        while delta_depth < max_depth_tile && texture_size < MAX_TEXTURE_SIZE
            invariant
                valid_tile_size(tile_size as int),
                valid_tile_size(texture_size as int),
                delta_depth <= max_depth_tile,
                texture_size == tile_size * pow2(delta_depth as nat),
                per_side == pow2(delta_depth as nat),
                per_side <= 512,
            decreases max_depth_tile - delta_depth,
        {
            proof {
                assert(pow2(delta_depth as nat + 1) == 2 * pow2(delta_depth as nat));
                lemma_pow2_pos(delta_depth as nat);
                assert(per_side <= texture_size) by (nonlinear_arith)
                    requires texture_size == tile_size * per_side, tile_size >= 1, per_side >= 1;
            }
            let ghost t0 = texture_size;
            let ghost d0 = delta_depth;
            texture_size = texture_size * 2;
            per_side = per_side * 2;
            delta_depth = delta_depth + 1;
            proof {
                assert(texture_size == tile_size * pow2(delta_depth as nat)) by (nonlinear_arith)
                    requires
                        t0 == tile_size * pow2(d0 as nat),
                        texture_size == 2 * t0,
                        pow2(delta_depth as nat) == 2 * pow2(d0 as nat);
            }
        }
        proof {
            lemma_pow2_pos(delta_depth as nat);
            lemma_pow2_mono(delta_depth as nat, max_depth_tile as nat);
            assert(tile_size * pow2(delta_depth as nat) <= tile_size * pow2(max_depth_tile as nat)) by (nonlinear_arith)
                requires pow2(delta_depth as nat) <= pow2(max_depth_tile as nat), tile_size >= 1;
            if delta_depth == max_depth_tile {
                assert(texture_size == tile_size * pow2(max_depth_tile as nat));
            } else {
                assert(texture_size == MAX_TEXTURE_SIZE);
            }
        }
        proof {
            assert(per_side * per_side <= 512 * 512) by (nonlinear_arith)
                requires per_side <= 512;
        }
        let num_tiles_per_texture = per_side * per_side;
        let max_depth_texture = max_depth_tile - delta_depth;
        let num_textures_by_slice = NUM_TEXTURES_BY_SIDE_SLICE * NUM_TEXTURES_BY_SIDE_SLICE;
        let num_textures = (num_textures_by_slice * NUM_SLICES) as usize;
        let tex_storing_fits = match img_format {
            HiPSTileFormat::Fits => true,
            _ => false,
        };
        let tex_storing_unsigned_int = match format {
            ImageFormatType::R8UI => true,
            _ => false,
        };
        let tex_storing_integers = match format {
            ImageFormatType::R16I | ImageFormatType::R32I => true,
            _ => false,
        };
        Ok(HiPSConfig {
            root_url: properties.url.clone(),
            tile_config: TileConfigType::new(format, tile_size),
            texture_size,
            longitude_reversed: properties.longitude_reversed,
            delta_depth,
            num_tiles_per_texture,
            max_depth_tile,
            max_depth_texture,
            num_textures_by_side_slice: NUM_TEXTURES_BY_SIDE_SLICE,
            num_textures_by_slice,
            num_slices: NUM_SLICES,
            num_textures,
            tex_storing_integers,
            tex_storing_fits,
            tex_storing_unsigned_int,
        })
    }

    /// Log2 of the number of tiles along a side of a texture.
    pub fn delta_depth(&self) -> (r: u8)
        ensures
            r == self.delta_depth,
    {
        self.delta_depth
    }

    pub fn num_tiles_per_texture(&self) -> (r: usize)
        ensures
            r == self.num_tiles_per_texture,
    {
        self.num_tiles_per_texture
    }

    pub fn get_texture_size(&self) -> (r: i32)
        ensures
            r == self.texture_size,
    {
        self.texture_size
    }

    pub fn get_tile_size(&self) -> (r: i32)
        ensures
            r == self.tile_config.width_spec(),
    {
        self.tile_config.width()
    }

    /// The deepest depth of the textures.
    pub fn get_max_depth(&self) -> (r: u8)
        ensures
            r == self.max_depth_texture,
    {
        self.max_depth_texture
    }

    pub fn num_textures(&self) -> (r: usize)
        ensures
            r == self.num_textures,
    {
        self.num_textures
    }

    pub fn num_textures_by_side_slice(&self) -> (r: i32)
        ensures
            r == self.num_textures_by_side_slice,
    {
        self.num_textures_by_side_slice
    }

    pub fn num_textures_by_slice(&self) -> (r: i32)
        ensures
            r == self.num_textures_by_slice,
    {
        self.num_textures_by_slice
    }

    pub fn num_slices(&self) -> (r: i32)
        ensures
            r == self.num_slices,
    {
        self.num_slices
    }

    pub fn format(&self) -> (r: ImageFormatType)
        ensures
            r == self.tile_config.format_spec(),
    {
        self.tile_config.format()
    }
}

fn format_offered(formats: &Vec<HiPSTileFormat>, f: HiPSTileFormat) -> (r: bool)
    ensures
        r == formats@.contains(f),
{
    let mut i: usize = 0;
    while i < formats.len()
        invariant
            i <= formats@.len(),
            forall|k: int| 0 <= k < i ==> formats@[k] != f,
        decreases formats@.len() - i,
    {
        if formats[i] == f {
            return true;
        }
        i = i + 1;
    }
    false
}

} // verus!
