//! Named colours and banded shading palettes.
use vstd::prelude::*;
use crate::renderer_2d::trunc_div;
use crate::renderer_3d::Renderer3D;

verus! {

/// Common colours, packed as `0xRRGGBB`.
#[allow(non_camel_case_types)]
#[derive(Debug, Clone, Copy, PartialEq, Eq, Structural)]
pub enum COLOUR {
    BLACK,
    WHITE,
    RED,
    GREEN,
    BLUE,
    YELLOW,
    CYAN,
    MAGENTA,
    GRAY,
    ORANGE,
    PINK,
    BROWN,
}

impl COLOUR {
    pub fn to_u32(self) -> (r: u32)
        ensures
            r == match self {
                COLOUR::BLACK => 0x000000u32,
                COLOUR::WHITE => 0xFFFFFF,
                COLOUR::RED => 0xFF0000,
                COLOUR::GREEN => 0x00FF00,
                COLOUR::BLUE => 0x0000FF,
                COLOUR::YELLOW => 0xFFFF00,
                COLOUR::CYAN => 0x00FFFF,
                COLOUR::MAGENTA => 0xFF00FF,
                COLOUR::GRAY => 0x808080,
                COLOUR::ORANGE => 0xFFA500,
                COLOUR::PINK => 0xFFC0CB,
                COLOUR::BROWN => 0x8B4513,
            },
    {
        match self {
            COLOUR::BLACK => 0x000000,
            COLOUR::WHITE => 0xFFFFFF,
            COLOUR::RED => 0xFF0000,
            COLOUR::GREEN => 0x00FF00,
            COLOUR::BLUE => 0x0000FF,
            COLOUR::YELLOW => 0xFFFF00,
            COLOUR::CYAN => 0x00FFFF,
            COLOUR::MAGENTA => 0xFF00FF,
            COLOUR::GRAY => 0x808080,
            COLOUR::ORANGE => 0xFFA500,
            COLOUR::PINK => 0xFFC0CB,
            COLOUR::BROWN => 0x8B4513,
        }
    }
}

/// The ink-pink colours.
#[allow(non_camel_case_types)]
#[derive(Debug, Clone, Copy, PartialEq, Eq, Structural)]
pub enum PALETTE_INKPINK {
    WHITE,
    PINK0,
    PINK1,
    PINK2,
    PINK3,
    PINK4,
}

impl PALETTE_INKPINK {
    pub fn to_u32(self) -> (r: u32)
        ensures
            r == match self {
                PALETTE_INKPINK::WHITE => 0xffffffu32,
                PALETTE_INKPINK::PINK0 => 0xfe6c90,
                PALETTE_INKPINK::PINK1 => 0xd03791,
                PALETTE_INKPINK::PINK2 => 0x87286a,
                PALETTE_INKPINK::PINK3 => 0x452459,
                PALETTE_INKPINK::PINK4 => 0x260d34,
            },
    {
        match self {
            PALETTE_INKPINK::WHITE => 0xffffff,
            PALETTE_INKPINK::PINK0 => 0xfe6c90,
            PALETTE_INKPINK::PINK1 => 0xd03791,
            PALETTE_INKPINK::PINK2 => 0x87286a,
            PALETTE_INKPINK::PINK3 => 0x452459,
            PALETTE_INKPINK::PINK4 => 0x260d34,
        }
    }
}

/// Colours of the default shading palette.
#[allow(non_camel_case_types)]
#[derive(Debug, Clone, Copy, PartialEq, Eq, Structural)]
pub enum PALETTE_DEFAULT {
    BLACK,
    WHITE,
    RED,
    GREEN,
    BLUE,
    YELLOW,
    ORANGE,
}

impl PALETTE_DEFAULT {
    pub fn to_u32(self) -> (r: u32)
        ensures
            r == match self {
                PALETTE_DEFAULT::BLACK => 0x000000u32,
                PALETTE_DEFAULT::WHITE => 0xFFFFFF,
                PALETTE_DEFAULT::RED => 0xFF0000,
                PALETTE_DEFAULT::GREEN => 0x00FF00,
                PALETTE_DEFAULT::BLUE => 0x0000FF,
                PALETTE_DEFAULT::YELLOW => 0xFFFF00,
                PALETTE_DEFAULT::ORANGE => 0xFFA500,
            },
    {
        match self {
            PALETTE_DEFAULT::BLACK => 0x000000,
            PALETTE_DEFAULT::WHITE => 0xFFFFFF,
            PALETTE_DEFAULT::RED => 0xFF0000,
            PALETTE_DEFAULT::GREEN => 0x00FF00,
            PALETTE_DEFAULT::BLUE => 0x0000FF,
            PALETTE_DEFAULT::YELLOW => 0xFFFF00,
            PALETTE_DEFAULT::ORANGE => 0xFFA500,
        }
    }
}

/// Colours of the pink shading palette.
#[allow(non_camel_case_types)]
#[derive(Debug, Clone, Copy, PartialEq, Eq, Structural)]
pub enum PALETTE_PINK {
    WHITE,
    PINK0,
    PINK1,
    PINK2,
    PINK3,
    PINK4,
}

impl PALETTE_PINK {
    pub fn to_u32(self) -> (r: u32)
        ensures
            r == match self {
                PALETTE_PINK::WHITE => 0xFFFFFFu32,
                PALETTE_PINK::PINK0 => 0xFE6C90,
                PALETTE_PINK::PINK1 => 0xD03791,
                PALETTE_PINK::PINK2 => 0x87286A,
                PALETTE_PINK::PINK3 => 0x452459,
                PALETTE_PINK::PINK4 => 0x260D34,
            },
    {
        match self {
            PALETTE_PINK::WHITE => 0xFFFFFF,
            PALETTE_PINK::PINK0 => 0xFE6C90,
            PALETTE_PINK::PINK1 => 0xD03791,
            PALETTE_PINK::PINK2 => 0x87286A,
            PALETTE_PINK::PINK3 => 0x452459,
            PALETTE_PINK::PINK4 => 0x260D34,
        }
    }
}

/// Band of a light intensity `dp` (Q16.16) cut into `bands` steps per unit:
/// `dp * bands` truncated toward zero.
pub open spec fn band_of(dp: int, bands: int) -> int {
    trunc_div(dp * bands, 65536)
}

/// Colour of band `band` in a table of band colours: black past the table's
/// ends.
pub open spec fn table_color(table: Seq<u32>, band: int) -> u32 {
    if 0 <= band < table.len() {
        table[band]
    } else {
        0
    }
}

/// Band colours of the default palette, darkest light first.
pub open spec fn default_table() -> Seq<u32> {
    seq![0xFFA500u32, 0xFFFF00, 0xFFFFFF]
}

/// Band colours of the pink palette, darkest light first.
pub open spec fn pink_table() -> Seq<u32> {
    seq![0x260D34u32, 0x452459, 0x87286A, 0xD03791, 0xFE6C90]
}

/// Band of `dp` for `bands` bands per unit.
fn band_exec(dp: i32, bands: i64) -> (r: i64)
    requires
        1 <= bands <= 8,
    ensures
        r == band_of(dp as int, bands as int),
{
    proof {
        crate::fixed::lemma_mul_bound(dp as int, bands as int, 0x8000_0000, 8);
    }
    let v: i64 = dp as i64 * bands;
    if v >= 0 {
        v / 65536
    } else {
        -((-v) / 65536)
    }
}

/// Looks `band` up in `table`: black past the table's ends.
fn table_lookup(table: &[u32], band: i64) -> (r: u32)
    requires
        table@.len() <= 8,
    ensures
        r == table_color(table@, band as int),
{
    if 0 <= band && band < 8 && (band as usize) < table.len() {
        table[band as usize]
    } else {
        0
    }
}

/// The default palette: orange, yellow, white in three bands per unit of
/// light.
pub struct PaletteDefault;

impl PaletteDefault {
    pub fn get_shading_color(&self, dp: i32) -> (r: u32)
        ensures
            r == table_color(default_table(), band_of(dp as int, 3)),
    {
        let table: [u32; 3] = [
            PALETTE_DEFAULT::ORANGE.to_u32(),
            PALETTE_DEFAULT::YELLOW.to_u32(),
            PALETTE_DEFAULT::WHITE.to_u32(),
        ];
        let r = table_lookup(&table, band_exec(dp, 3));
        assert(table@ =~= default_table());
        r
    }
}

/// The pink palette: five shades of pink, darkest first, in four bands per
/// unit of light (the fifth for full light).
pub struct PalettePink;

impl PalettePink {
    pub fn get_shading_color(&self, dp: i32) -> (r: u32)
        ensures
            r == table_color(pink_table(), band_of(dp as int, 4)),
    {
        let table: [u32; 5] = [
            PALETTE_PINK::PINK4.to_u32(),
            PALETTE_PINK::PINK3.to_u32(),
            PALETTE_PINK::PINK2.to_u32(),
            PALETTE_PINK::PINK1.to_u32(),
            PALETTE_PINK::PINK0.to_u32(),
        ];
        let r = table_lookup(&table, band_exec(dp, 4));
        assert(table@ =~= pink_table());
        r
    }
}

/// The shading palettes a renderer can light faces with.
#[derive(Debug, Clone, Copy, PartialEq, Eq, Structural)]
pub enum ShadingPalette {
    Default,
    Pink,
}

/// Colour that `palette` gives light intensity `dp`.
pub open spec fn shading_spec(palette: ShadingPalette, dp: int) -> u32 {
    match palette {
        ShadingPalette::Default => table_color(default_table(), band_of(dp, 3)),
        ShadingPalette::Pink => table_color(pink_table(), band_of(dp, 4)),
    }
}

impl Renderer3D {
    /// Colour that `palette` gives the light intensity `dp` (Q16.16).
    pub fn get_shading_color(dp: i32, palette: ShadingPalette) -> (r: u32)
        ensures
            r == shading_spec(palette, dp as int),
    {
        match palette {
            ShadingPalette::Default => PaletteDefault.get_shading_color(dp),
            ShadingPalette::Pink => PalettePink.get_shading_color(dp),
        }
    }
}

} // verus!
