//! Decoded RGBA textures.
use vstd::prelude::*;
use vstd::string::StrSliceExecFns;

verus! {

/// File formats a texture can be loaded from.
#[derive(Debug, Clone, Copy, PartialEq, Eq, Structural)]
pub enum ImageFormat {
    PNG,
    JPG,
    BMP,
}

/// A file name extension that names no supported format.
#[derive(Debug, Clone, Copy, PartialEq, Eq, Structural)]
pub struct ParseImageFormatError;

impl ParseImageFormatError {
    /// The error's message.
    pub fn message(&self) -> (r: &'static str)
        ensures
            r@ == "invalid image format"@,
    {
        "invalid image format"
    }
}

/// What `s` folded to lower case is, as decided by `str::to_lowercase`.
pub uninterp spec fn lower_of(s: Seq<char>) -> Seq<char>;

/// Relies on `str::to_lowercase`: the result depends on the characters
/// alone, and the empty string stays empty.
#[verifier::external_body]
fn to_lower(s: &str) -> (r: String)
    ensures
        r@ == lower_of(s@),
        s@.len() == 0 ==> r@.len() == 0,
{
    s.to_lowercase()
}

/// The extension of the last component of `path`, as decided by
/// `std::path::Path::extension`.
pub uninterp spec fn extension_of(path: Seq<char>) -> Option<Seq<char>>;

/// Relies on `std::path::Path::extension` (and `OsStr::to_str`): the text
/// after the last `.` of the file name, if it has one and it is not a
/// leading dot; the result depends on the path's characters alone.
#[verifier::external_body]
fn path_extension(path: &str) -> (r: Option<String>)
    ensures
        match r {
            Some(e) => extension_of(path@) == Some(e@),
            None => extension_of(path@) is None,
        },
{
    let ext = std::path::Path::new(path).extension()?.to_str()?;
    Some(ext.to_string())
}

/// The format an already lower-case extension names.
pub open spec fn format_of_lowercase(s: Seq<char>) -> Option<ImageFormat> {
    if s == "png"@ {
        Some(ImageFormat::PNG)
    } else if s == "jpg"@ || s == "jpeg"@ {
        Some(ImageFormat::JPG)
    } else if s == "bmp"@ {
        Some(ImageFormat::BMP)
    } else {
        None
    }
}

/// `s` holds exactly the characters of `lit`.
fn str_is(s: &str, lit: &str) -> (r: bool)
    ensures
        r == (s@ == lit@),
{
    let n = s.unicode_len();
    if n != lit.unicode_len() {
        return false;
    }
    let mut i: usize = 0;
    while i < n
        invariant
            n == s@.len(),
            n == lit@.len(),
            0 <= i <= n,
            forall|j: int| 0 <= j < i ==> s@[j] == lit@[j],
        decreases n - i,
    {
        if s.get_char(i) != lit.get_char(i) {
            return false;
        }
        i = i + 1;
    }
    assert(s@ =~= lit@);
    true
}

impl ImageFormat {
    /// The format a lower-case file extension names: `png`, `jpg` or `jpeg`,
    /// `bmp`.
    pub fn from_lowercase(s: &str) -> (r: Result<ImageFormat, ParseImageFormatError>)
        ensures
            match format_of_lowercase(s@) {
                Some(f) => r == Ok::<ImageFormat, ParseImageFormatError>(f),
                None => r == Err::<ImageFormat, ParseImageFormatError>(ParseImageFormatError),
            },
    {
        proof {
            reveal_strlit("png");
            reveal_strlit("jpg");
            reveal_strlit("jpeg");
            reveal_strlit("bmp");
        }
        if str_is(s, "png") {
            Ok(ImageFormat::PNG)
        } else if str_is(s, "jpg") || str_is(s, "jpeg") {
            Ok(ImageFormat::JPG)
        } else if str_is(s, "bmp") {
            Ok(ImageFormat::BMP)
        } else {
            Err(ParseImageFormatError)
        }
    }

    /// The format a file extension names, in any letter case.
    pub fn from_extension(s: &str) -> (r: Result<ImageFormat, ParseImageFormatError>)
        ensures
            match format_of_lowercase(lower_of(s@)) {
                Some(f) => r == Ok::<ImageFormat, ParseImageFormatError>(f),
                None => r == Err::<ImageFormat, ParseImageFormatError>(ParseImageFormatError),
            },
    {
        let lower = to_lower(s);
        ImageFormat::from_lowercase(lower.as_str())
    }
}

impl std::str::FromStr for ImageFormat {
    type Err = ParseImageFormatError;

    fn from_str(s: &str) -> Result<Self, Self::Err> {
        ImageFormat::from_extension(s)
    }
}

/// A decoded image: `width * height` pixels of four bytes (red, green,
/// blue, alpha), row by row.
#[derive(Debug)]
pub struct Texture {
    pub path: String,
    pub format: ImageFormat,
    pub data: Vec<u8>,
    pub width: u32,
    pub height: u32,
}

/// Byte offset of pixel `(x, y)`.
pub open spec fn texel_offset(width: int, x: int, y: int) -> int {
    (y * width + x) * 4
}

/// Four channels packed into one word, the first in the highest byte.
pub open spec fn pack4(a: u8, b: u8, c: u8, d: u8) -> int {
    a * 0x100_0000 + b * 0x1_0000 + c * 0x100 + d
}

/// Channels of pixel `(x, y)`: none outside the image or past the data.
pub open spec fn texel_spec(t: &Texture, x: int, y: int) -> Option<[u8; 4]> {
    let i = texel_offset(t.width as int, x, y);
    if x >= t.width || y >= t.height || i + 3 >= t.data@.len() {
        None
    } else {
        Some([t.data@[i], t.data@[i + 1], t.data@[i + 2], t.data@[i + 3]])
    }
}

impl Texture {
    /// A texture over decoded RGBA data, its format named by the extension
    /// of `path`.
    pub fn from_rgba(path: &str, data: Vec<u8>, width: u32, height: u32) -> (r: Result<
        Texture,
        ParseImageFormatError,
    >)
        ensures
            match r {
                Ok(t) => {
                    &&& t.path@ == path@
                    &&& t.data@ == data@
                    &&& t.width == width
                    &&& t.height == height
                    &&& extension_of(path@) is Some
                    &&& format_of_lowercase(lower_of(extension_of(path@).unwrap())) == Some(t.format)
                },
                Err(_) => extension_of(path@) is None || format_of_lowercase(
                    lower_of(extension_of(path@).unwrap()),
                ) is None,
            },
    {
        match path_extension(path) {
            None => Err(ParseImageFormatError),
            Some(ext) => match ImageFormat::from_extension(ext.as_str()) {
                Ok(format) => Ok(Texture { path: path.to_string(), format, data, width, height }),
                Err(e) => Err(e),
            },
        }
    }

    /// Byte offset of pixel `(x, y)`, if it lies in the image and its four
    /// bytes lie in the data.
    fn texel_index(&self, x: u32, y: u32) -> (r: Option<usize>)
        ensures
            match r {
                Some(i) => {
                    &&& texel_spec(self, x as int, y as int) is Some
                    &&& i == texel_offset(self.width as int, x as int, y as int)
                },
                None => texel_spec(self, x as int, y as int) is None,
            },
    {
        if x >= self.width || y >= self.height {
            return None;
        }
        proof {
            crate::fixed::lemma_mul_bound(y as int, self.width as int, 0x1_0000_0000, 0x1_0000_0000);
        }
        let index: u128 = ((y as u128) * (self.width as u128) + (x as u128)) * 4;
        if index + 3 >= self.data.len() as u128 {
            None
        } else {
            Some(index as usize)
        }
    }

    /// Channels of pixel `(x, y)`: red, green, blue, alpha.
    pub fn get_pixel(&self, x: u32, y: u32) -> (r: Option<[u8; 4]>)
        ensures
            r == texel_spec(self, x as int, y as int),
    {
        match self.texel_index(x, y) {
            None => None,
            Some(i) => Some([self.data[i], self.data[i + 1], self.data[i + 2], self.data[i + 3]]),
        }
    }

    /// Pixel `(x, y)` packed as `0xRRGGBBAA` when `alpha`, else as
    /// `0x00RRGGBB`.
    pub fn get_pixel_as_u32(&self, x: u32, y: u32, alpha: bool) -> (r: Option<u32>)
        ensures
            match texel_spec(self, x as int, y as int) {
                None => r is None,
                Some(p) => r is Some && r.unwrap() == if alpha {
                    pack4(p[0], p[1], p[2], p[3])
                } else {
                    pack4(0, p[0], p[1], p[2])
                },
            },
    {
        match self.texel_index(x, y) {
            None => None,
            Some(i) => {
                let r = self.data[i] as u32;
                let g = self.data[i + 1] as u32;
                let b = self.data[i + 2] as u32;
                let a = self.data[i + 3] as u32;
                if alpha {
                    Some(r * 0x100_0000 + g * 0x1_0000 + b * 0x100 + a)
                } else {
                    Some(r * 0x1_0000 + g * 0x100 + b)
                }
            },
        }
    }
}

} // verus!
