//! The TGA binary codec: decoding a run-length-encoded true-color
//! file into a pixel buffer, and encoding a framebuffer as a raw
//! (uncompressed) true-color file.
//!
//! The 18-byte header is little-endian with no padding. Decoding
//! supports exactly the run-length-encoded 24-bit true-color form
//! (data type code 10); encoding always writes the raw form (code 2).
//! The image identification field and color map are not consulted:
//! the payload is taken to start right after the header.

use vstd::prelude::*;
use vstd::arithmetic::div_mod::lemma_fundamental_div_mod;
use vstd::arithmetic::div_mod::lemma_fundamental_div_mod_converse_div;
use vstd::arithmetic::div_mod::lemma_fundamental_div_mod_converse_mod;
use crate::image::Color;
use crate::image::Image;
use crate::image::ImageV;

verus! {

/// The image type code of a TGA header.
#[derive(Clone, Copy, Debug, PartialEq, Eq, Structural)]
pub enum ImageType {
    NoImageData,
    RawColorMap,
    RawTrueColor,
    RawGrayScale,
    RunColorMap,
    RunTrueColor,
    RunGrayScale,
    Unknown,
}

/// The image type a data type code denotes: 0 through 3 are raw
/// forms, 9 through 11 their run-length-encoded counterparts.
pub open spec fn spec_image_type(code: u8) -> ImageType {
    if code == 0 {
        ImageType::NoImageData
    } else if code == 1 {
        ImageType::RawColorMap
    } else if code == 2 {
        ImageType::RawTrueColor
    } else if code == 3 {
        ImageType::RawGrayScale
    } else if code == 9 {
        ImageType::RunColorMap
    } else if code == 10 {
        ImageType::RunTrueColor
    } else if code == 11 {
        ImageType::RunGrayScale
    } else {
        ImageType::Unknown
    }
}

impl ImageType {
    pub fn new(img_type: u8) -> (r: ImageType)
        ensures
            r == spec_image_type(img_type),
    {
        match img_type {
            0 => ImageType::NoImageData,
            1 => ImageType::RawColorMap,
            2 => ImageType::RawTrueColor,
            3 => ImageType::RawGrayScale,
            9 => ImageType::RunColorMap,
            10 => ImageType::RunTrueColor,
            11 => ImageType::RunGrayScale,
            _ => ImageType::Unknown,
        }
    }

    /// Whether the type carries color data.
    pub fn is_color(&self) -> (r: bool)
        ensures
            r == (*self == ImageType::RawColorMap || *self == ImageType::RawTrueColor || *self
                == ImageType::RunTrueColor || *self == ImageType::RunColorMap),
    {
        match *self {
            ImageType::RawColorMap | ImageType::RawTrueColor | ImageType::RunTrueColor
            | ImageType::RunColorMap => true,
            _ => false,
        }
    }

    /// Whether the type uses a color map.
    pub fn is_color_mapped(&self) -> (r: bool)
        ensures
            r == (*self == ImageType::RawColorMap || *self == ImageType::RunColorMap),
    {
        match *self {
            ImageType::RawColorMap | ImageType::RunColorMap => true,
            _ => false,
        }
    }

    /// Whether the type is run-length encoded.
    pub fn is_encoded(&self) -> (r: bool)
        ensures
            r == (*self == ImageType::RunColorMap || *self == ImageType::RunTrueColor || *self
                == ImageType::RunGrayScale),
    {
        match *self {
            ImageType::RunColorMap | ImageType::RunTrueColor | ImageType::RunGrayScale => true,
            _ => false,
        }
    }
}

/// The value of a little-endian 16-bit field with the given bytes.
pub open spec fn le16(lo: u8, hi: u8) -> int {
    lo + 256 * hi
}

/// The 18-byte TGA header, fields in wire order; multi-byte fields are
/// little-endian.
#[derive(Clone, Copy, Debug, PartialEq, Eq, Structural)]
pub struct TGAHeader {
    pub id_length: u8,
    pub color_map_type: u8,
    pub data_type_code: u8,
    pub color_map_origin: u16,
    pub color_map_length: u16,
    pub color_map_depth: u8,
    pub x_origin: u16,
    pub y_origin: u16,
    pub width: u16,
    pub height: u16,
    pub bits_per_pixel: u8,
    pub image_descriptor: u8,
}

/// The header encoded in the first 18 bytes of a buffer.
pub open spec fn spec_header(b: Seq<u8>) -> TGAHeader {
    TGAHeader {
        id_length: b[0],
        color_map_type: b[1],
        data_type_code: b[2],
        color_map_origin: le16(b[3], b[4]) as u16,
        color_map_length: le16(b[5], b[6]) as u16,
        color_map_depth: b[7],
        x_origin: le16(b[8], b[9]) as u16,
        y_origin: le16(b[10], b[11]) as u16,
        width: le16(b[12], b[13]) as u16,
        height: le16(b[14], b[15]) as u16,
        bits_per_pixel: b[16],
        image_descriptor: b[17],
    }
}

/// Reads a little-endian 16-bit field.
fn le_u16(lo: u8, hi: u8) -> (r: u16)
    ensures
        r as int == le16(lo, hi),
{
    (lo as u16) + (hi as u16) * 256
}

impl TGAHeader {
    /// Parses the fixed 18-byte header from the front of a buffer;
    /// `None` exactly when the buffer is shorter than the header.
    pub fn from_bytes(bytes: &Vec<u8>) -> (r: Option<TGAHeader>)
        ensures
            r is Some <==> bytes@.len() >= 18,
            r matches Some(h) ==> h == spec_header(bytes@),
    {
        if bytes.len() < 18 {
            return None;
        }
        Some(
            TGAHeader {
                id_length: bytes[0],
                color_map_type: bytes[1],
                data_type_code: bytes[2],
                color_map_origin: le_u16(bytes[3], bytes[4]),
                color_map_length: le_u16(bytes[5], bytes[6]),
                color_map_depth: bytes[7],
                x_origin: le_u16(bytes[8], bytes[9]),
                y_origin: le_u16(bytes[10], bytes[11]),
                width: le_u16(bytes[12], bytes[13]),
                height: le_u16(bytes[14], bytes[15]),
                bits_per_pixel: bytes[16],
                image_descriptor: bytes[17],
            },
        )
    }
}

/// An error of the codec. File system failures stay outside this
/// core and are reported by the caller that reads or writes the file.
#[derive(Clone, Copy, Debug, PartialEq, Eq, Structural)]
pub enum TgaError {
    /// The buffer ends before the header or the pixel data is
    /// complete.
    ParseError,
    /// The header's data type code or pixel depth is not the form
    /// this decoder supports.
    UnsupportedFormat,
}

/// A pixel value repeated `count` times.
pub open spec fn repeat_seq(pix: Seq<u8>, count: int) -> Seq<u8>
    decreases count,
{
    if count <= 0 {
        Seq::empty()
    } else {
        repeat_seq(pix, count - 1) + pix
    }
}

/// The run-length decoded payload of `data` starting at `pos`,
/// decoding packets until at least `needed` bytes are produced (the
/// final packet may overshoot), with 3-byte pixels; `None` when the
/// buffer ends first. A packet whose leading byte has the top bit set
/// repeats the following pixel (low 7 bits + 1) times; otherwise that
/// many distinct pixels follow verbatim.
pub open spec fn spec_rle(data: Seq<u8>, pos: int, needed: int) -> Option<Seq<u8>>
    decreases needed,
{
    if needed <= 0 {
        Some(Seq::empty())
    } else if !(0 <= pos < data.len()) {
        None
    } else {
        let packet = data[pos];
        if packet >= 128 {
            let count = packet - 127;
            let needed2 = if needed - 3 * count > 0 {
                needed - 3 * count
            } else {
                0
            };
            if pos + 4 <= data.len() {
                match spec_rle(data, pos + 4, needed2) {
                    Some(rest) => Some(repeat_seq(data.subrange(pos + 1, pos + 4), count)
                        + rest),
                    None => None,
                }
            } else {
                None
            }
        } else {
            let count = packet + 1;
            let needed2 = if needed - 3 * count > 0 {
                needed - 3 * count
            } else {
                0
            };
            if pos + 1 + 3 * count <= data.len() {
                match spec_rle(data, pos + 1 + 3 * count, needed2) {
                    Some(rest) => Some(data.subrange(pos + 1, pos + 1 + 3 * count) + rest),
                    None => None,
                }
            } else {
                None
            }
        }
    }
}

/// The first `n` 3-byte groups of a payload as colors, in file order.
pub open spec fn group_colors(payload: Seq<u8>, n: nat) -> Seq<Color> {
    Seq::new(n, |i: int| Color(payload[3 * i], payload[3 * i + 1], payload[3 * i + 2]))
}

/// The 18-byte header of an encoded file: raw true color, 24 bits per
/// pixel, every other field zero except the dimensions.
pub open spec fn spec_encode_header(width: int, height: int) -> Seq<u8> {
    seq![
        0u8,
        0u8,
        2u8,
        0u8,
        0u8,
        0u8,
        0u8,
        0u8,
        0u8,
        0u8,
        0u8,
        0u8,
        (width % 256) as u8,
        (width / 256) as u8,
        (height % 256) as u8,
        (height / 256) as u8,
        24u8,
        0u8,
    ]
}

/// A whole encoded file: the header followed by the pixel buffer
/// verbatim, three bytes per pixel in (blue, green, red) order.
pub open spec fn spec_encode(v: ImageV) -> Seq<u8> {
    spec_encode_header(v.width, v.height) + Seq::new(
        (3 * v.colors.len()) as nat,
        |i: int|
            {
                let c = v.colors[i / 3];
                if i % 3 == 0 {
                    c.0
                } else if i % 3 == 1 {
                    c.1
                } else {
                    c.2
                }
            },
    )
}

/// The length of a repeated pixel run.
pub proof fn lemma_repeat_len(pix: Seq<u8>, count: int)
    ensures
        repeat_seq(pix, count).len() == (if count <= 0 {
            0int
        } else {
            count * pix.len()
        }),
    decreases count,
{
    if count > 0 {
        lemma_repeat_len(pix, count - 1);
        assert((count - 1) * pix.len() + pix.len() == count * pix.len()) by (nonlinear_arith);
    }
}

/// Serializes a framebuffer to the TGA wire format: always the raw
/// (uncompressed) 24-bit true-color form with zeroed origin and map
/// fields, whatever the pixel buffer's provenance; the payload is the
/// pixel buffer verbatim in (blue, green, red) order.
pub fn encode_tga(image: &Image) -> (r: Vec<u8>)
    requires
        image.wf(),
    ensures
        r@ == spec_encode(image@),
        r@.len() == 18 + 3 * image@.colors.len(),
{
    let mut out: Vec<u8> = Vec::new();
    out.push(0);
    out.push(0);
    out.push(2);
    out.push(0);
    out.push(0);
    out.push(0);
    out.push(0);
    out.push(0);
    out.push(0);
    out.push(0);
    out.push(0);
    out.push(0);
    out.push((image.width % 256) as u8);
    out.push((image.width / 256) as u8);
    out.push((image.height % 256) as u8);
    out.push((image.height / 256) as u8);
    out.push(24);
    out.push(0);
    proof {
        assert(out@ =~= spec_encode_header(image@.width, image@.height));
    }
    let n: usize = image.data.len();
    let mut i: usize = 0;
    while i < n
        invariant
            n == image@.colors.len(),
            image.wf(),
            i <= n,
            out@.len() == 18 + 3 * i,
            forall|k: int|
                0 <= k < 18 ==> out@[k] == spec_encode_header(
                    image@.width, image@.height)[k],
            forall|j: int|
                0 <= j < 3 * i ==> #[trigger] out@[18 + j] == ({
                    let c = image@.colors[j / 3];
                    if j % 3 == 0 {
                        c.0
                    } else if j % 3 == 1 {
                        c.1
                    } else {
                        c.2
                    }
                }),
        decreases n - i,
    {
        let c = image.data[i];
        out.push(c.0);
        out.push(c.1);
        out.push(c.2);
        proof {
            lemma_fundamental_div_mod_converse_div(3 * (i as int), 3, i as int, 0);
            lemma_fundamental_div_mod_converse_mod(3 * (i as int), 3, i as int, 0);
            lemma_fundamental_div_mod_converse_div(3 * (i as int) + 1, 3, i as int, 1);
            lemma_fundamental_div_mod_converse_mod(3 * (i as int) + 1, 3, i as int, 1);
            lemma_fundamental_div_mod_converse_div(3 * (i as int) + 2, 3, i as int, 2);
            lemma_fundamental_div_mod_converse_mod(3 * (i as int) + 2, 3, i as int, 2);
        }
        i = i + 1;
    }
    proof {
        assert forall|k: int| 0 <= k < out@.len() implies out@[k] == spec_encode(
            image@)[k] by {
            if k >= 18 {
                let j = k - 18;
                assert(out@[18 + j] == ({
                    let c = image@.colors[j / 3];
                    if j % 3 == 0 {
                        c.0
                    } else if j % 3 == 1 {
                        c.1
                    } else {
                        c.2
                    }
                }));
            }
        }
        assert(out@ =~= spec_encode(image@));
    }
    out
}

/// Decodes a raw (uncompressed) 24-bit true-color TGA file: the pixel
/// buffer is the payload verbatim. Any other data type code or pixel
/// depth is rejected; a buffer shorter than the header plus the full
/// payload is rejected.
pub fn decode_raw_tga(bytes: &Vec<u8>) -> (r: Result<Image, TgaError>)
    ensures
        bytes@.len() < 18 ==> r == Err::<Image, TgaError>(TgaError::ParseError),
        bytes@.len() >= 18 ==> ({
            let h = spec_header(bytes@);
            &&& (h.data_type_code != 2 || h.bits_per_pixel != 24) ==> r == Err::<
                Image, TgaError>(TgaError::UnsupportedFormat)
            &&& (h.data_type_code == 2 && h.bits_per_pixel == 24 && bytes@.len() < 18 + 3 * (
            h.width * h.height)) ==> r == Err::<Image, TgaError>(TgaError::ParseError)
            &&& (h.data_type_code == 2 && h.bits_per_pixel == 24 && bytes@.len() >= 18 + 3 * (
            h.width * h.height)) ==> (r matches Ok(img) && img.wf() && img@.width == h.width
                && img@.height == h.height && img@.colors == group_colors(
                bytes@.skip(18), (h.width * h.height) as nat) && (forall|i: int|
                0 <= i < img@.depths.len() ==> img@.depths[i] == i64::MIN))
        }),
{
    let header = match TGAHeader::from_bytes(bytes) {
        Some(h) => h,
        None => {
            return Err(TgaError::ParseError);
        },
    };
    if header.data_type_code != 2 || header.bits_per_pixel != 24 {
        return Err(TgaError::UnsupportedFormat);
    }
    proof {
        assert((header.width as int) * (header.height as int) <= 0xFFFF * 0xFFFF)
            by (nonlinear_arith)
            requires
                0 <= header.width <= 0xFFFF,
                0 <= header.height <= 0xFFFF,
        ;
    }
    let width: usize = header.width as usize;
    let height: usize = header.height as usize;
    let count_px: usize = width * height;
    let num_bytes: u64 = 3 * (count_px as u64);
    if (bytes.len() as u64) < 18 + num_bytes {
        return Err(TgaError::ParseError);
    }
    let mut colors: Vec<Color> = Vec::new();
    let mut i: usize = 0;
    while i < count_px
        invariant
            i <= count_px,
            colors@.len() == i,
            count_px == (spec_header(bytes@).width as int) * (spec_header(bytes@).height
                as int),
            bytes@.len() >= 18 + 3 * count_px,
            bytes@.len() <= usize::MAX,
            forall|k: int|
                0 <= k < i ==> #[trigger] colors@[k] == (Color(
                    bytes@[18 + 3 * k],
                    bytes@[18 + 3 * k + 1],
                    bytes@[18 + 3 * k + 2],
                )),
        decreases count_px - i,
    {
        let base: usize = 18 + 3 * i;
        let c = Color(bytes[base], bytes[base + 1], bytes[base + 2]);
        colors.push(c);
        i = i + 1;
    }
    let mut image = Image::new(header.width as i32, header.height as i32);
    image.set_data_buffer(colors);
    proof {
        assert(image@.colors =~= group_colors(
            bytes@.skip(18),
            ((header.width as int) * (header.height as int)) as nat,
        ));
    }
    Ok(image)
}

/// Decodes a run-length-encoded 24-bit true-color TGA file (data type
/// code 10), the one encoded form this codec reads: packets are
/// decoded until the payload holds one 3-byte color per pixel, the
/// byte stream is grouped into colors in file order, and the result
/// becomes the pixel buffer of a fresh framebuffer. Any other data
/// type code or pixel depth is rejected; a buffer that ends inside
/// the header or inside the pixel data is rejected.
#[verifier::loop_isolation(false)]
#[verifier::rlimit(100)]
pub fn decode_tga(bytes: &Vec<u8>) -> (r: Result<Image, TgaError>)
    ensures
        bytes@.len() < 18 ==> r == Err::<Image, TgaError>(TgaError::ParseError),
        bytes@.len() >= 18 ==> ({
            let h = spec_header(bytes@);
            &&& (h.data_type_code != 10 || h.bits_per_pixel != 24) ==> r == Err::<
                Image, TgaError>(TgaError::UnsupportedFormat)
            &&& (h.data_type_code == 10 && h.bits_per_pixel == 24) ==> match spec_rle(
                bytes@, 18, 3 * (h.width * h.height)) {
                None => r == Err::<Image, TgaError>(TgaError::ParseError),
                Some(payload) => r matches Ok(img) && img.wf() && img@.width == h.width
                    && img@.height == h.height && img@.colors == group_colors(
                    payload, (h.width * h.height) as nat) && (forall|i: int|
                    0 <= i < img@.depths.len() ==> img@.depths[i] == i64::MIN),
            }
        }),
{
    let header = match TGAHeader::from_bytes(bytes) {
        Some(h) => h,
        None => {
            return Err(TgaError::ParseError);
        },
    };
    let image_type = ImageType::new(header.data_type_code);
    let ok_type: bool = match image_type {
        ImageType::RunTrueColor => true,
        _ => false,
    };
    if !ok_type || header.bits_per_pixel != 24 {
        return Err(TgaError::UnsupportedFormat);
    }
    proof {
        assert((header.width as int) * (header.height as int) <= 0xFFFF * 0xFFFF)
            by (nonlinear_arith)
            requires
                0 <= header.width <= 0xFFFF,
                0 <= header.height <= 0xFFFF,
        ;
    }
    let width: usize = header.width as usize;
    let height: usize = header.height as usize;
    let count_px: usize = width * height;
    let num_bytes: u64 = 3 * (count_px as u64);
    let ghost needed0: int = 3 * ((header.width as int) * (header.height as int));

    let mut buf: Vec<u8> = Vec::new();
    let mut pos: usize = 18;
    while (buf.len() as u64) < num_bytes
        invariant
            18 <= pos,
            pos <= bytes@.len(),
            (buf@.len() as int) < needed0 ==> spec_rle(bytes@, 18, needed0) == (
            match spec_rle(bytes@, pos as int, needed0 - buf@.len()) {
                Some(rest) => Some(buf@ + rest),
                None => None::<Seq<u8>>,
            }),
            (buf@.len() as int) >= needed0 ==> spec_rle(bytes@, 18, needed0) == Some(buf@),
        decreases bytes@.len() - pos,
    {
        if pos >= bytes.len() {
            return Err(TgaError::ParseError);
        }
        let packet: u8 = bytes[pos];
        let ghost rem: int = needed0 - buf@.len();
        let ghost buf0: Seq<u8> = buf@;
        let ghost pos0: int = pos as int;
        if packet >= 128 {
            // Run packet: one pixel, repeated.
            let count: usize = ((packet - 128) as usize) + 1;
            if bytes.len() - pos < 4 {
                return Err(TgaError::ParseError);
            }
            let b0 = bytes[pos + 1];
            let b1 = bytes[pos + 2];
            let b2 = bytes[pos + 3];
            let ghost pix: Seq<u8> = bytes@.subrange(pos0 + 1, pos0 + 4);
            let mut j: usize = 0;
            while j < count
                invariant
                    j <= count,
                    buf@ == buf0 + repeat_seq(pix, j as int),
                decreases count - j,
            {
                buf.push(b0);
                buf.push(b1);
                buf.push(b2);
                proof {
                    assert(pix.len() == 3);
                    assert(pix[0] == b0 && pix[1] == b1 && pix[2] == b2);
                    assert(repeat_seq(pix, j as int + 1) == repeat_seq(pix, j as int) + pix);
                    assert(buf@ =~= buf0 + repeat_seq(pix, j as int + 1));
                }
                j = j + 1;
            }
            pos = pos + 4;
            proof {
                lemma_repeat_len(pix, count as int);
                let chunk = repeat_seq(pix, count as int);
                assert(chunk.len() == 3 * count);
                let needed2: int = if rem - 3 * (count as int) > 0 {
                    rem - 3 * (count as int)
                } else {
                    0
                };
                assert(spec_rle(bytes@, pos0, rem) == (match spec_rle(
                    bytes@, pos0 + 4, needed2) {
                    Some(rest) => Some(chunk + rest),
                    None => None::<Seq<u8>>,
                }));
                if (buf@.len() as int) >= needed0 {
                    assert(needed2 == 0);
                    assert(spec_rle(bytes@, pos0 + 4, 0) == Some(Seq::<u8>::empty()));
                    assert(chunk + Seq::<u8>::empty() =~= chunk);
                    assert(spec_rle(bytes@, 18, needed0) == Some(buf0 + chunk));
                } else {
                    assert(needed2 == needed0 - buf@.len());
                    match spec_rle(bytes@, pos as int, needed2) {
                        Some(rest) => {
                            assert(buf0 + (chunk + rest) =~= (buf0 + chunk) + rest);
                        },
                        None => {},
                    }
                }
            }
        } else {
            // Raw packet: distinct pixels, copied verbatim.
            let count: usize = (packet as usize) + 1;
            let nb: usize = 3 * count;
            if bytes.len() - pos < 1 + nb {
                return Err(TgaError::ParseError);
            }
            let mut j: usize = 0;
            while j < nb
                invariant
                    j <= nb,
                    buf@ == buf0 + bytes@.subrange(pos0 + 1, pos0 + 1 + j),
                decreases nb - j,
            {
                buf.push(bytes[pos + 1 + j]);
                proof {
                    assert(buf@ =~= buf0 + bytes@.subrange(pos0 + 1, pos0 + 1 + j + 1));
                }
                j = j + 1;
            }
            pos = pos + 1 + nb;
            proof {
                let chunk = bytes@.subrange(pos0 + 1, pos0 + 1 + nb);
                assert(chunk.len() == 3 * count);
                let needed2: int = if rem - 3 * (count as int) > 0 {
                    rem - 3 * (count as int)
                } else {
                    0
                };
                assert(spec_rle(bytes@, pos0, rem) == (match spec_rle(
                    bytes@, pos0 + 1 + 3 * (count as int), needed2) {
                    Some(rest) => Some(chunk + rest),
                    None => None::<Seq<u8>>,
                }));
                if (buf@.len() as int) >= needed0 {
                    assert(needed2 == 0);
                    assert(spec_rle(bytes@, pos as int, 0) == Some(Seq::<u8>::empty()));
                    assert(chunk + Seq::<u8>::empty() =~= chunk);
                    assert(spec_rle(bytes@, 18, needed0) == Some(buf0 + chunk));
                } else {
                    assert(needed2 == needed0 - buf@.len());
                    match spec_rle(bytes@, pos as int, needed2) {
                        Some(rest) => {
                            assert(buf0 + (chunk + rest) =~= (buf0 + chunk) + rest);
                        },
                        None => {},
                    }
                }
            }
        }
    }
    proof {
        assert(spec_rle(bytes@, 18, needed0) == Some(buf@));
    }

    // Group the payload into 3-byte colors, in file order.
    let mut colors: Vec<Color> = Vec::new();
    let mut i: usize = 0;
    while i < count_px
        invariant
            i <= count_px,
            colors@.len() == i,
            forall|k: int|
                0 <= k < i ==> #[trigger] colors@[k] == (Color(
                    buf@[3 * k],
                    buf@[3 * k + 1],
                    buf@[3 * k + 2],
                )),
        decreases count_px - i,
    {
        let base: usize = 3 * i;
        let c = Color(buf[base], buf[base + 1], buf[base + 2]);
        colors.push(c);
        i = i + 1;
    }
    let mut image = Image::new(header.width as i32, header.height as i32);
    image.set_data_buffer(colors);
    proof {
        assert(image@.colors =~= group_colors(
            buf@,
            ((header.width as int) * (header.height as int)) as nat,
        ));
    }
    Ok(image)
}

/// The TGA round trip: re-encoding any decoded framebuffer in the raw
/// form yields a file whose header describes the same dimensions in
/// the raw 24-bit true-color form and whose payload, decoded as raw,
/// is the identical pixel buffer.
pub proof fn lemma_tga_round_trip(v: ImageV)
    requires
        v.wf(),
    ensures
        ({
            let b = spec_encode(v);
            let h = spec_header(b);
            &&& b.len() == 18 + 3 * v.colors.len()
            &&& h.data_type_code == 2
            &&& h.bits_per_pixel == 24
            &&& h.width == v.width
            &&& h.height == v.height
            &&& b.len() >= 18 + 3 * (h.width * h.height)
            &&& group_colors(b.skip(18), (h.width * h.height) as nat) == v.colors
        }),
{
    let b = spec_encode(v);
    let h = spec_header(b);
    lemma_fundamental_div_mod(v.width, 256);
    lemma_fundamental_div_mod(v.height, 256);
    assert(h.width == v.width);
    assert(h.height == v.height);
    assert forall|k: int| 0 <= k < v.colors.len() implies group_colors(
        b.skip(18), (h.width * h.height) as nat)[k] == v.colors[k] by {
        lemma_fundamental_div_mod_converse_div(3 * k, 3, k, 0);
        lemma_fundamental_div_mod_converse_mod(3 * k, 3, k, 0);
        lemma_fundamental_div_mod_converse_div(3 * k + 1, 3, k, 1);
        lemma_fundamental_div_mod_converse_mod(3 * k + 1, 3, k, 1);
        lemma_fundamental_div_mod_converse_div(3 * k + 2, 3, k, 2);
        lemma_fundamental_div_mod_converse_mod(3 * k + 2, 3, k, 2);
    }
    assert(group_colors(b.skip(18), (h.width * h.height) as nat) =~= v.colors);
}

} // verus!
