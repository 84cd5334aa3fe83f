//! Previews of local images: decoded by the format their extension names,
//! shrunk to fit a square when they are larger, sent back as Base64 PNG.

use vstd::prelude::*;

use crate::commands::{extension_of, path_extension};
use crate::text::{chars_of, push_str, string_of};

verus! {

/// A decoded picture as plain values: its size and its pixels, four bytes
/// (red, green, blue, alpha) per pixel, row after row.
pub struct Picture {
    pub width: u32,
    pub height: u32,
    pub rgba: Vec<u8>,
}

impl View for Picture {
    type V = (u32, u32, Seq<u8>);

    open spec fn view(&self) -> (u32, u32, Seq<u8>) {
        (self.width, self.height, self.rgba@)
    }
}

/// The pixel data holds four bytes for every pixel.
pub open spec fn well_formed(p: (u32, u32, Seq<u8>)) -> bool {
    p.2.len() == 4 * p.0 * p.1
}

/// What the `image` crate decodes from `bytes` in the format the extension
/// `ext` names, as 8-bit RGBA.
pub uninterp spec fn decoded_picture(bytes: Seq<u8>, ext: Seq<char>) -> Option<(u32, u32, Seq<u8>)>;

/// What `DynamicImage::thumbnail(side, side)` makes of an RGBA picture.
pub uninterp spec fn thumbnail_of(width: u32, height: u32, rgba: Seq<u8>, side: u32) -> (
    u32,
    u32,
    Seq<u8>,
);

/// The PNG file the `image` crate writes for an RGBA picture.
pub uninterp spec fn png_of(width: u32, height: u32, rgba: Seq<u8>) -> Option<Seq<u8>>;

/// `image::ImageFormat::from_extension(ext)`, then
/// `ImageReader::with_format(..).decode()` over the bytes, converted to 8-bit
/// RGBA by `to_rgba8`: the picture, or nothing when the extension names no
/// format or decoding fails. The result is named after the bytes and the
/// extension; the pixel data fills the picture.
#[verifier::external_body]
fn decode_picture(bytes: Vec<u8>, ext: &str) -> (r: Option<Picture>)
    ensures
        match r {
            Some(p) => decoded_picture(bytes@, ext@) == Some(p@) && well_formed(p@),
            None => decoded_picture(bytes@, ext@) is None,
        },
{
    let format = image::ImageFormat::from_extension(ext)?;
    let img = image::ImageReader::with_format(std::io::Cursor::new(bytes), format).decode().ok()?;
    let rgba = img.to_rgba8();
    Some(Picture { width: rgba.width(), height: rgba.height(), rgba: rgba.into_raw() })
}

/// `DynamicImage::thumbnail(side, side)` on the RGBA picture: scaled down to
/// the largest size that fits a `side` square, as the crate documents. The
/// result is named after the picture and the side.
#[verifier::external_body]
fn thumbnail_picture(p: &Picture, side: u32) -> (r: Picture)
    requires
        side > 0,
        well_formed(p@),
    ensures
        r@ == thumbnail_of(p.width, p.height, p.rgba@, side),
        r.width <= side && r.height <= side,
        well_formed(r@),
{
    let buf = image::RgbaImage::from_raw(p.width, p.height, p.rgba.clone()).unwrap();
    let t = image::DynamicImage::ImageRgba8(buf).thumbnail(side, side).to_rgba8();
    Picture { width: t.width(), height: t.height(), rgba: t.into_raw() }
}

/// `DynamicImage::write_to(.., ImageFormat::Png)` of the RGBA picture into
/// memory: the PNG bytes, or nothing when encoding fails. The result is named
/// after the picture.
#[verifier::external_body]
fn encode_png(p: &Picture) -> (r: Option<Vec<u8>>)
    requires
        well_formed(p@),
    ensures
        match r {
            Some(b) => png_of(p.width, p.height, p.rgba@) == Some(b@),
            None => png_of(p.width, p.height, p.rgba@) is None,
        },
{
    let buf = image::RgbaImage::from_raw(p.width, p.height, p.rgba.clone()).unwrap();
    let mut out: Vec<u8> = Vec::new();
    match image::DynamicImage::ImageRgba8(buf).write_to(&mut std::io::Cursor::new(&mut out), image::ImageFormat::Png) {
        Ok(()) => Some(out),
        Err(_) => None,
    }
}

/// One character of the standard Base64 alphabet.
pub open spec fn base64_digit(v: int) -> char {
    if v < 26 {
        (65 + v) as char
    } else if v < 52 {
        (97 + v - 26) as char
    } else if v < 62 {
        (48 + v - 52) as char
    } else if v == 62 {
        '+'
    } else {
        '/'
    }
}

/// Standard Base64 with `=` padding: every three bytes become four characters.
pub open spec fn base64_standard(b: Seq<u8>) -> Seq<char>
    decreases b.len(),
{
    if b.len() == 0 {
        Seq::empty()
    } else {
        let x = b[0] as int;
        let y = if b.len() > 1 {
            b[1] as int
        } else {
            0
        };
        let z = if b.len() > 2 {
            b[2] as int
        } else {
            0
        };
        let first = base64_digit(x / 4);
        let second = base64_digit((x % 4) * 16 + y / 16);
        let third = if b.len() > 1 {
            base64_digit((y % 16) * 4 + z / 64)
        } else {
            '='
        };
        let fourth = if b.len() > 2 {
            base64_digit(z % 64)
        } else {
            '='
        };
        let rest = if b.len() > 3 {
            base64_standard(b.skip(3))
        } else {
            Seq::empty()
        };
        seq![first, second, third, fourth] + rest
    }
}

/// `base64::engine::general_purpose::STANDARD.encode`: standard Base64 with
/// padding. It panics when the encoded length does not fit in `usize`, which
/// the bound on the input rules out.
#[verifier::external_body]
fn base64_encode(bytes: &[u8]) -> (r: String)
    requires
        bytes@.len() <= usize::MAX / 2,
    ensures
        r@ == base64_standard(bytes@),
{
    base64::Engine::encode(&base64::engine::general_purpose::STANDARD, bytes)
}

/// The side of the square a preview is shrunk to: only when a positive limit
/// is set and the image is wider or taller than it.
pub open spec fn thumbnail_side_spec(width: u32, height: u32, max_side: Option<u32>) -> Option<u32> {
    match max_side {
        Some(m) => if m > 0 && (width > m || height > m) {
            Some(m)
        } else {
            None
        },
        None => None,
    }
}

pub fn thumbnail_side(width: u32, height: u32, max_side: Option<u32>) -> (r: Option<u32>)
    ensures
        r == thumbnail_side_spec(width, height, max_side),
{
    match max_side {
        Some(m) => {
            if m > 0 && (width > m || height > m) {
                Some(m)
            } else {
                None
            }
        },
        None => None,
    }
}

/// `无法打开图片 <path>`.
pub fn open_image_error(path: &str) -> (r: String)
    ensures
        r@ == "无法打开图片 "@ + path@,
{
    let mut v = chars_of("无法打开图片 ");
    push_str(&mut v, path);
    string_of(v.as_slice())
}

/// The picture a preview shows: the decoded one, shrunk to fit a square when
/// `thumbnail_side_spec` asks for it.
pub open spec fn preview_picture(p: (u32, u32, Seq<u8>), max_side: Option<u32>) -> (u32, u32, Seq<u8>) {
    match thumbnail_side_spec(p.0, p.1, max_side) {
        Some(m) => thumbnail_of(p.0, p.1, p.2, m),
        None => p,
    }
}

/// What `read_image` returns: the Base64 of the PNG of the preview, or why
/// there is none.
pub open spec fn read_image_spec(path: Seq<char>, bytes: Seq<u8>, max_side: Option<u32>) -> Result<
    Seq<char>,
    Seq<char>,
> {
    let open_err = "无法打开图片 "@ + path;
    match path_extension(path) {
        None => Err(open_err),
        Some(ext) => match decoded_picture(bytes, ext) {
            None => Err(open_err),
            Some(p) => {
                let q = preview_picture(p, max_side);
                match png_of(q.0, q.1, q.2) {
                    Some(png) => if png.len() <= usize::MAX / 2 {
                        Ok(base64_standard(png))
                    } else {
                        Err("编码图片失败"@)
                    },
                    None => Err("编码图片失败"@),
                }
            },
        },
    }
}

/// The preview of the image stored at `path` with the given content: decoded
/// by the format its extension names, shrunk to fit a `max_side` square when
/// it is larger, and sent back as Base64 of PNG bytes.
pub fn read_image(path: &str, bytes: Vec<u8>, max_side: Option<u32>) -> (r: Result<String, String>)
    ensures
        match r {
            Ok(s) => read_image_spec(path@, bytes@, max_side) == Ok::<Seq<char>, Seq<char>>(s@),
            Err(e) => read_image_spec(path@, bytes@, max_side) == Err::<Seq<char>, Seq<char>>(e@),
        },
        path_extension(path@) matches Some(ext) ==> (decoded_picture(bytes@, ext) matches Some(p)
            ==> (thumbnail_side_spec(p.0, p.1, max_side) matches Some(m) ==> preview_picture(
            p,
            max_side,
        ).0 <= m && preview_picture(p, max_side).1 <= m)),
{
    let ext = match extension_of(path) {
        Some(e) => e,
        None => return Err(open_image_error(path)),
    };
    let pic = match decode_picture(bytes, ext.as_str()) {
        Some(p) => p,
        None => return Err(open_image_error(path)),
    };
    let shown = match thumbnail_side(pic.width, pic.height, max_side) {
        Some(m) => thumbnail_picture(&pic, m),
        None => pic,
    };
    match encode_png(&shown) {
        Some(png) => {
            if png.len() > usize::MAX / 2 {
                return Err(String::from_str("编码图片失败"));
            }
            Ok(base64_encode(png.as_slice()))
        },
        None => Err(String::from_str("编码图片失败")),
    }
}

} // verus!
