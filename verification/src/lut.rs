//! The table of blend weights for the hq4x shader, which comes as a PNG picture.
use vstd::prelude::*;

verus! {

/// The colour type of red, green, blue and alpha, as PNG numbers it.
pub const RGBA: u8 = 6;

/// Bytes of pixels that are decoded at most.
pub const PIXELS_MAX: usize = 0x400_0000;

/// A decoded picture as values.
#[verifier::ext_equal]
pub struct PictureInfo {
    pub width: u32,
    pub height: u32,
    pub colour: u8,
    pub depth: u8,
    pub pixels: Seq<u8>,
}

/// A decoded picture: its size, colour type and bits per channel as PNG numbers
/// them, and its rows.
pub struct Picture {
    pub width: u32,
    pub height: u32,
    pub colour: u8,
    pub depth: u8,
    pub pixels: Vec<u8>,
}

impl View for Picture {
    type V = PictureInfo;

    open spec fn view(&self) -> PictureInfo {
        PictureInfo {
            width: self.width,
            height: self.height,
            colour: self.colour,
            depth: self.depth,
            pixels: self.pixels@,
        }
    }
}

/// The bytes of pixels that `png::Reader::output_buffer_size` tells of a file;
/// `None` where its header cannot be read.
pub uninterp spec fn png_size(bytes: Seq<u8>) -> Option<usize>;

/// The picture that `png::Reader::next_frame` decodes; `None` where it fails.
pub uninterp spec fn png_picture(bytes: Seq<u8>) -> Option<PictureInfo>;

/// `png::Decoder::read_info` and `png::Reader::output_buffer_size`. Claimed is
/// only that the bytes of the file alone decide the size.
#[verifier::external_body]
fn pixel_bytes(bytes: &Vec<u8>) -> (r: Option<usize>)
    ensures
        r == png_size(bytes@),
{
    Some(png::Decoder::new(bytes.as_slice()).read_info().ok()?.output_buffer_size())
}

/// `png::Decoder::read_info` and `png::Reader::next_frame`, with a buffer of the
/// size that the reader asks for. Claimed is that the bytes of the file alone
/// decide the picture.
#[verifier::external_body]
fn decoded(bytes: &Vec<u8>) -> (r: Option<Picture>)
    requires
        png_size(bytes@) is Some,
        png_size(bytes@)->Some_0 <= PIXELS_MAX,
    ensures
        png_picture(bytes@) == (match r {
            Some(p) => Some(p@),
            None => None,
        }),
{
    let mut reader = png::Decoder::new(bytes.as_slice()).read_info().ok()?;
    let mut pixels = vec![0u8; reader.output_buffer_size()];
    let info = reader.next_frame(&mut pixels).ok()?;
    Some(Picture {
        width: info.width,
        height: info.height,
        colour: info.color_type as u8,
        depth: info.bit_depth as u8,
        pixels,
    })
}

/// The table as values.
#[verifier::ext_equal]
pub struct LutInfo {
    pub width: u32,
    pub height: u32,
    pub rgba: Seq<u8>,
}

/// The table: four bytes to an entry, row after row.
pub struct Lut {
    pub width: u32,
    pub height: u32,
    pub rgba: Vec<u8>,
}

impl View for Lut {
    type V = LutInfo;

    open spec fn view(&self) -> LutInfo {
        LutInfo { width: self.width, height: self.height, rgba: self.rgba@ }
    }
}

/// The table that a picture is: it has to have eight bits of red, green, blue and
/// alpha, and all of its pixels.
pub open spec fn lut_in(p: PictureInfo) -> Option<LutInfo> {
    if p.colour == RGBA && p.depth == 8 && p.width * p.height * 4 <= p.pixels.len() {
        Some(
            LutInfo {
                width: p.width,
                height: p.height,
                rgba: p.pixels.take(p.width * p.height * 4),
            },
        )
    } else {
        None
    }
}

/// The table in a file.
pub open spec fn lut_loaded(bytes: Seq<u8>) -> Option<LutInfo> {
    match png_size(bytes) {
        Some(n) if n <= PIXELS_MAX => match png_picture(bytes) {
            Some(p) => lut_in(p),
            None => None,
        },
        _ => None,
    }
}

/// A table, as values.
pub open spec fn lut_view(r: Option<Lut>) -> Option<LutInfo> {
    match r {
        Some(l) => Some(l@),
        None => None,
    }
}

/// The table that a picture is.
pub fn lut_of(picture: Picture) -> (r: Option<Lut>)
    ensures
        lut_view(r) == lut_in(picture@),
{
    if picture.colour != RGBA || picture.depth != 8 {
        return None;
    }
    let size: u128 = product(picture.width, picture.height) * 4;
    if size > picture.pixels.len() as u128 {
        return None;
    }
    let ghost all = picture.pixels@;
    let mut rgba = picture.pixels;
    rgba.truncate(size as usize);
    assert(rgba@ =~= all.take(size as int));
    Some(Lut { width: picture.width, height: picture.height, rgba })
}

fn product(a: u32, b: u32) -> (r: u128)
    ensures
        r == a * b,
        r <= 0xFFFF_FFFF_FFFF_FFFF,
{
    assert(0 <= a * b <= 0xFFFF_FFFF * 0xFFFF_FFFF) by (nonlinear_arith)
        requires
            0 <= a <= 0xFFFF_FFFF,
            0 <= b <= 0xFFFF_FFFF,
    ;
    a as u128 * b as u128
}

/// The table in a file, or `None` where the file is no PNG picture, has too many
/// pixels, or is not such a table.
pub fn load_lut(bytes: &Vec<u8>) -> (r: Option<Lut>)
    ensures
        lut_view(r) == lut_loaded(bytes@),
{
    match pixel_bytes(bytes) {
        Some(n) => {
            if n > PIXELS_MAX {
                return None;
            }
            match decoded(bytes) {
                Some(p) => lut_of(p),
                None => None,
            }
        },
        None => None,
    }
}

/// A picture is a table where its colour is RGBA at eight bits and all its pixels are there, four
/// bytes each. The table has its size, and those bytes in order.
pub proof fn law_tables_are_pictures(p: PictureInfo, i: int)
    ensures
        lut_in(p) is Some <==> p.colour == RGBA && p.depth == 8 && 4 * (p.width * p.height)
            <= p.pixels.len(),
        lut_in(p) matches Some(t) ==> {
            &&& t.width == p.width && t.height == p.height
            &&& t.rgba.len() == 4 * (p.width * p.height)
            &&& 0 <= i < t.rgba.len() ==> t.rgba[i] == p.pixels[i]
        },
{
    assert(p.width * p.height >= 0) by (nonlinear_arith);
}

/// A file is a table only where it is a picture that fits, and that picture is one.
pub proof fn law_files_with_tables(bytes: Seq<u8>)
    ensures
        png_size(bytes) is None || png_picture(bytes) is None ==> lut_loaded(bytes) is None,
        png_size(bytes) is Some && png_size(bytes)->Some_0 > PIXELS_MAX ==> lut_loaded(bytes) is None,
        png_size(bytes) is Some && png_size(bytes)->Some_0 <= PIXELS_MAX && png_picture(
            bytes,
        ) is Some ==> lut_loaded(bytes) == lut_in(png_picture(bytes)->Some_0),
{
}

} // verus!
