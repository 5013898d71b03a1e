//! Texture files: the header, the pixel formats, and the conversion to an image file.

use vstd::prelude::*;
use vstd::slice::slice_subrange;

use crate::config::{OutputFormat, WEBP_QUALITY};
use crate::text::{push_digits, push_padded};

verus! {

/// The number of bytes that the header takes up.
pub const HEADER_SIZE: usize = 0x50;

/// Four channels of eight bits, stored blue first, with alpha.
pub const FORMAT_BGRA8: u32 = 0x1450;

/// Four channels of eight bits, stored blue first, the fourth unused.
pub const FORMAT_BGRX8: u32 = 0x1451;

/// Four channels of four bits in sixteen, blue lowest.
pub const FORMAT_BGRA4: u32 = 0x1440;

/// Three channels of five bits and one bit of alpha in sixteen, blue lowest.
pub const FORMAT_BGR5A1: u32 = 0x1441;

/// Block compression 1.
pub const FORMAT_BC1: u32 = 0x3420;

/// Block compression 3.
pub const FORMAT_BC3: u32 = 0x3431;

/// Block compression 7.
pub const FORMAT_BC7: u32 = 0x6432;

/// Why a texture could not be converted.
#[derive(Debug)]
pub enum TextureError {
    /// The buffer does not hold a header.
    TooShort { len: usize },
    /// The pixel data overlaps the header or runs over the end of the buffer.
    OutOfBounds { start: u64, end: u64, len: usize },
    /// The pixel format is not one that is decoded here.
    UnsupportedFormat(u32),
    /// The block decoder gave up, for this reason.
    Decode(&'static str),
    /// The WebP encoder did not accept the image.
    EncoderRefused,
    /// The image would have to be encoded as AVIF, for which there is no encoder.
    NoAvifEncoder,
}

/// The mathematical form of a [`TextureError`].
#[verifier::ext_equal]
pub enum TextureFault {
    TooShort { len: nat },
    OutOfBounds { start: nat, end: nat, len: nat },
    UnsupportedFormat(u32),
    Decode(Seq<char>),
    EncoderRefused,
    NoAvifEncoder,
}

impl View for TextureError {
    type V = TextureFault;

    open spec fn view(&self) -> TextureFault {
        match self {
            TextureError::TooShort { len } => TextureFault::TooShort { len: *len as nat },
            TextureError::OutOfBounds { start, end, len } => TextureFault::OutOfBounds {
                start: *start as nat,
                end: *end as nat,
                len: *len as nat,
            },
            TextureError::UnsupportedFormat(code) => TextureFault::UnsupportedFormat(*code),
            TextureError::Decode(reason) => TextureFault::Decode(reason@),
            TextureError::EncoderRefused => TextureFault::EncoderRefused,
            TextureError::NoAvifEncoder => TextureFault::NoAvifEncoder,
        }
    }
}

impl TextureFault {
    /// What the user is told.
    pub open spec fn message(self) -> Seq<char> {
        match self {
            TextureFault::TooShort { len } => "invalid texture buffer: expected at least "@
                + crate::text::decimal(HEADER_SIZE as nat) + " bytes, got "@
                + crate::text::decimal(len),
            TextureFault::OutOfBounds { start, end, len } => "texture pixel data out of bounds: "@
                + crate::text::decimal(start) + ".."@ + crate::text::decimal(end) + " of "@
                + crate::text::decimal(len),
            TextureFault::UnsupportedFormat(code) => "unsupported texture format 0x"@
                + crate::text::padded(code as nat, 16, 4),
            TextureFault::Decode(reason) => "texture decode failed: "@ + reason,
            TextureFault::EncoderRefused => "webp encoding failed"@,
            TextureFault::NoAvifEncoder => "avif encoding is not available"@,
        }
    }
}

impl TextureError {
    /// What the user is told.
    pub fn message(&self) -> (r: String)
        ensures
            r@ == self@.message(),
    {
        match self {
            TextureError::TooShort { len } => {
                let mut out = "invalid texture buffer: expected at least ".to_owned();
                push_digits(&mut out, HEADER_SIZE as u64, 10);
                out.append(" bytes, got ");
                push_digits(&mut out, *len as u64, 10);
                out
            },
            TextureError::OutOfBounds { start, end, len } => {
                let mut out = "texture pixel data out of bounds: ".to_owned();
                push_digits(&mut out, *start, 10);
                out.append("..");
                push_digits(&mut out, *end, 10);
                out.append(" of ");
                push_digits(&mut out, *len as u64, 10);
                out
            },
            TextureError::UnsupportedFormat(code) => {
                let mut out = "unsupported texture format 0x".to_owned();
                push_padded(&mut out, *code as u64, 16, 4);
                out
            },
            TextureError::Decode(reason) => {
                let mut out = "texture decode failed: ".to_owned();
                out.append(reason);
                out
            },
            TextureError::EncoderRefused => "webp encoding failed".to_owned(),
            TextureError::NoAvifEncoder => "avif encoding is not available".to_owned(),
        }
    }
}

/// The header of a texture file.
#[derive(Debug, Clone, Copy)]
pub struct TextureHeader {
    pub attribute: u32,
    pub format: u32,
    pub width: u16,
    pub height: u16,
    pub depth: u16,
    pub mip_levels: u8,
    pub array_size: u8,
    pub lod_offsets: [u32; 3],
    pub surface_offsets: [u32; 13],
}

/// The mathematical form of a [`TextureHeader`].
#[verifier::ext_equal]
pub struct Header {
    pub attribute: u32,
    pub format: u32,
    pub width: u16,
    pub height: u16,
    pub depth: u16,
    pub mip_levels: u8,
    pub array_size: u8,
    pub lod_offsets: Seq<u32>,
    pub surface_offsets: Seq<u32>,
}

impl View for TextureHeader {
    type V = Header;

    open spec fn view(&self) -> Header {
        Header {
            attribute: self.attribute,
            format: self.format,
            width: self.width,
            height: self.height,
            depth: self.depth,
            mip_levels: self.mip_levels,
            array_size: self.array_size,
            lod_offsets: self.lod_offsets@,
            surface_offsets: self.surface_offsets@,
        }
    }
}

/// The sixteen-bit number at `at`, low byte first.
pub open spec fn le16(data: Seq<u8>, at: int) -> u16 {
    (data[at] + 0x100 * data[at + 1]) as u16
}

/// The thirty-two-bit number at `at`, low byte first.
pub open spec fn le32(data: Seq<u8>, at: int) -> u32 {
    (data[at] + 0x100 * data[at + 1] + 0x1_0000 * data[at + 2] + 0x100_0000 * data[at + 3]) as u32
}

/// The header at the start of `data`.
pub open spec fn header_of(data: Seq<u8>) -> Header
    recommends
        data.len() >= HEADER_SIZE,
{
    Header {
        attribute: le32(data, 0),
        format: le32(data, 4),
        width: le16(data, 8),
        height: le16(data, 10),
        depth: le16(data, 12),
        mip_levels: data[14],
        array_size: data[15],
        lod_offsets: Seq::new(3, |i: int| le32(data, 16 + 4 * i)),
        surface_offsets: Seq::new(13, |i: int| le32(data, 28 + 4 * i)),
    }
}

fn read_u16(data: &[u8], at: usize) -> (r: u16)
    requires
        at + 2 <= data@.len(),
    ensures
        r == le16(data@, at as int),
{
    data[at] as u16 + 0x100 * data[at + 1] as u16
}

fn read_u32(data: &[u8], at: usize) -> (r: u32)
    requires
        at + 4 <= data@.len(),
    ensures
        r == le32(data@, at as int),
{
    data[at] as u32 + 0x100 * data[at + 1] as u32 + 0x1_0000 * data[at + 2] as u32 + 0x100_0000
        * data[at + 3] as u32
}

impl TextureHeader {
    /// Reads the header at the start of a texture file.
    pub fn parse(data: &[u8]) -> (r: Result<Self, TextureError>)
        ensures
            match r {
                Ok(header) => data@.len() >= HEADER_SIZE && header@ == header_of(data@),
                Err(error) => data@.len() < HEADER_SIZE && error@ == (TextureFault::TooShort {
                    len: data@.len(),
                }),
            },
    {
        if data.len() < HEADER_SIZE {
            return Err(TextureError::TooShort { len: data.len() });
        }
        let lod_offsets: [u32; 3] = [read_u32(data, 16), read_u32(data, 20), read_u32(data, 24)];
        let surface_offsets: [u32; 13] = [
            read_u32(data, 28),
            read_u32(data, 32),
            read_u32(data, 36),
            read_u32(data, 40),
            read_u32(data, 44),
            read_u32(data, 48),
            read_u32(data, 52),
            read_u32(data, 56),
            read_u32(data, 60),
            read_u32(data, 64),
            read_u32(data, 68),
            read_u32(data, 72),
            read_u32(data, 76),
        ];
        let header = TextureHeader {
            attribute: read_u32(data, 0),
            format: read_u32(data, 4),
            width: read_u16(data, 8),
            height: read_u16(data, 10),
            depth: read_u16(data, 12),
            mip_levels: data[14],
            array_size: data[15],
            lod_offsets,
            surface_offsets,
        };
        assert(header@.lod_offsets == header_of(data@).lod_offsets);
        assert(header@.surface_offsets == header_of(data@).surface_offsets);
        Ok(header)
    }
}

/// The number of pixels of the top surface.
pub open spec fn pixel_count(header: Header) -> nat {
    header.width as nat * header.height as nat
}

/// The `length` bytes of pixel data of the top surface, or the reason why they are not there.
pub open spec fn surface(data: Seq<u8>, header: Header, length: nat) -> Result<
    Seq<u8>,
    TextureFault,
> {
    let start = header.surface_offsets[0] as nat;
    let end = start + length;
    if start < HEADER_SIZE || end > data.len() {
        Err(TextureFault::OutOfBounds { start, end, len: data.len() })
    } else {
        Ok(data.subrange(start as int, end as int))
    }
}

/// Finds the `length` bytes of pixel data of the top surface.
pub fn pixel_data<'a>(data: &'a [u8], header: TextureHeader, length: u64) -> (r: Result<
    &'a [u8],
    TextureError,
>)
    requires
        header.surface_offsets@[0] + length <= u64::MAX,
    ensures
        match r {
            Ok(source) => surface(data@, header@, length as nat) == Ok::<_, TextureFault>(source@),
            Err(error) => surface(data@, header@, length as nat) == Err::<Seq<u8>, _>(error@),
        },
{
    let start: u64 = header.surface_offsets[0] as u64;
    let end: u64 = start + length;
    if start < HEADER_SIZE as u64 || end > data.len() as u64 {
        return Err(TextureError::OutOfBounds { start, end, len: data.len() });
    }
    Ok(slice_subrange(data, start as usize, end as usize))
}

/// Channel `channel` (red, green, blue, alpha) of pixel `pixel`, of four bytes stored blue first.
/// Where `alpha` is not kept, the pixel is opaque.
pub open spec fn bgra8_channel(source: Seq<u8>, pixel: int, channel: int, keep_alpha: bool) -> u8 {
    if channel == 3 {
        if keep_alpha {
            source[4 * pixel + 3]
        } else {
            0xff
        }
    } else {
        source[4 * pixel + 2 - channel]
    }
}

/// The pixels of `source`, as four bytes each, red first.
pub open spec fn bgra8_to_rgba(source: Seq<u8>, keep_alpha: bool) -> Seq<u8> {
    Seq::new(
        4 * (source.len() / 4),
        |k: int| bgra8_channel(source, k / 4, k % 4, keep_alpha),
    )
}

/// A four-bit channel value stretched to eight bits.
pub open spec fn stretch4(value: int) -> u8 {
    (17 * value) as u8
}

/// A five-bit channel value stretched to eight bits.
pub open spec fn stretch5(value: int) -> u8 {
    (8 * value + value / 4) as u8
}

/// Channel `channel` of pixel `pixel`, of four bits each, blue lowest and alpha highest.
pub open spec fn bgra4_channel(source: Seq<u8>, pixel: int, channel: int) -> u8 {
    let packed = le16(source, 2 * pixel) as int;
    if channel == 0 {
        stretch4((packed / 0x100) % 16)
    } else if channel == 1 {
        stretch4((packed / 0x10) % 16)
    } else if channel == 2 {
        stretch4(packed % 16)
    } else {
        stretch4(packed / 0x1000)
    }
}

/// The pixels of `source`, as four bytes each, red first.
pub open spec fn bgra4_to_rgba(source: Seq<u8>) -> Seq<u8> {
    Seq::new(4 * (source.len() / 2), |k: int| bgra4_channel(source, k / 4, k % 4))
}

/// Channel `channel` of pixel `pixel`, of five bits each, blue lowest; alpha is the highest bit.
pub open spec fn bgr5a1_channel(source: Seq<u8>, pixel: int, channel: int) -> u8 {
    let packed = le16(source, 2 * pixel) as int;
    if channel == 0 {
        stretch5((packed / 0x400) % 32)
    } else if channel == 1 {
        stretch5((packed / 0x20) % 32)
    } else if channel == 2 {
        stretch5(packed % 32)
    } else if packed >= 0x8000 {
        0xff
    } else {
        0
    }
}

/// The pixels of `source`, as four bytes each, red first.
pub open spec fn bgr5a1_to_rgba(source: Seq<u8>) -> Seq<u8> {
    Seq::new(4 * (source.len() / 2), |k: int| bgr5a1_channel(source, k / 4, k % 4))
}

/// Channel `channel` of a pixel in one number, blue lowest and alpha highest.
pub open spec fn packed_channel(pixel: u32, channel: int) -> u8 {
    if channel == 0 {
        ((pixel / 0x1_0000) % 0x100) as u8
    } else if channel == 1 {
        ((pixel / 0x100) % 0x100) as u8
    } else if channel == 2 {
        (pixel % 0x100) as u8
    } else {
        (pixel / 0x100_0000) as u8
    }
}

/// The pixels, as four bytes each, red first.
pub open spec fn packed_to_rgba(pixels: Seq<u32>) -> Seq<u8> {
    Seq::new(4 * pixels.len(), |k: int| packed_channel(pixels[k / 4], k % 4))
}

/// Stretches a four-bit channel value to eight bits.
pub fn scale_4bit(value: u8) -> (r: u8)
    ensures
        r == (value << 4) | value,
        value < 16 ==> r == stretch4(value as int),
{
    proof {
        assert(value < 16 ==> (value << 4) | value == 17 * value) by (bit_vector);
    }
    (value << 4) | value
}

/// Stretches a five-bit channel value to eight bits.
pub fn scale_5bit(value: u8) -> (r: u8)
    ensures
        r == (value << 3) | (value >> 2),
        value < 32 ==> r == stretch5(value as int),
{
    proof {
        assert(value < 32 ==> (value << 3) | (value >> 2) == 8 * value + value / 4) by (bit_vector);
    }
    (value << 3) | (value >> 2)
}

/// Whether the first `pixels` pixels of `expected` were written.
spec fn written(rgba: Seq<u8>, expected: Seq<u8>, pixels: int) -> bool {
    rgba == expected.take(4 * pixels)
}

/// Writing one more pixel.
proof fn lemma_pixel_written(rgba: Seq<u8>, expected: Seq<u8>, pixels: int)
    requires
        0 <= pixels,
        4 * pixels + 4 <= expected.len(),
        written(rgba, expected, pixels),
    ensures
        written(
            rgba.push(expected[4 * pixels]).push(expected[4 * pixels + 1]).push(
                expected[4 * pixels + 2],
            ).push(expected[4 * pixels + 3]),
            expected,
            pixels + 1,
        ),
{
    assert(rgba.push(expected[4 * pixels]).push(expected[4 * pixels + 1]).push(
        expected[4 * pixels + 2],
    ).push(expected[4 * pixels + 3]) =~= expected.take(4 * (pixels + 1)));
}

/// Nothing was written yet, and everything was.
proof fn lemma_written(expected: Seq<u8>, pixels: int)
    requires
        expected.len() == 4 * pixels,
    ensures
        written(seq![], expected, 0),
        forall|rgba: Seq<u8>| #[trigger] written(rgba, expected, pixels) ==> rgba == expected,
{
    assert(expected.take(0) =~= seq![]);
    assert(expected.take(4 * pixels) =~= expected);
}

proof fn lemma_bgra8_pixel(source: Seq<u8>, keep_alpha: bool, pixel: int)
    requires
        0 <= pixel,
        4 * pixel + 4 <= source.len(),
    ensures
        bgra8_to_rgba(source, keep_alpha)[4 * pixel] == source[4 * pixel + 2],
        bgra8_to_rgba(source, keep_alpha)[4 * pixel + 1] == source[4 * pixel + 1],
        bgra8_to_rgba(source, keep_alpha)[4 * pixel + 2] == source[4 * pixel],
        bgra8_to_rgba(source, keep_alpha)[4 * pixel + 3] == if keep_alpha {
            source[4 * pixel + 3]
        } else {
            0xff
        },
{
}

/// Decodes pixels of eight bits per channel.
pub fn decode_bgra8(data: &[u8], header: TextureHeader, preserve_alpha: bool) -> (r: Result<
    Vec<u8>,
    TextureError,
>)
    ensures
        match r {
            Ok(rgba) => surface(data@, header@, 4 * pixel_count(header@)) matches Ok(source)
                && rgba@ == bgra8_to_rgba(source, preserve_alpha),
            Err(error) => surface(data@, header@, 4 * pixel_count(header@)) == Err::<Seq<u8>, _>(
                error@,
            ),
        },
        r matches Ok(rgba) ==> rgba@.len() == 4 * pixel_count(header@),
{
    let pixels: u64 = count_pixels(header);
    let source = match pixel_data(data, header, pixels * 4) {
        Ok(source) => source,
        Err(error) => {
            return Err(error);
        },
    };
    let mut rgba: Vec<u8> = Vec::new();
    let count: usize = source.len() / 4;
    let mut i: usize = 0;
    let ghost expected = bgra8_to_rgba(source@, preserve_alpha);
    proof {
        lemma_written(expected, count as int);
    }
    while i < count
        invariant
            i <= count,
            source.len() == 4 * count,
            expected.len() == 4 * count,
            expected == bgra8_to_rgba(source@, preserve_alpha),
            written(rgba@, expected, i as int),
        decreases count - i,
    {
        proof {
            lemma_bgra8_pixel(source@, preserve_alpha, i as int);
            lemma_pixel_written(rgba@, expected, i as int);
        }
        rgba.push(source[4 * i + 2]);
        rgba.push(source[4 * i + 1]);
        rgba.push(source[4 * i]);
        rgba.push(if preserve_alpha { source[4 * i + 3] } else { 0xff });
        i = i + 1;
    }
    proof {
        lemma_written(expected, count as int);
    }
    Ok(rgba)
}

fn count_pixels(header: TextureHeader) -> (r: u64)
    ensures
        r == pixel_count(header@),
        r <= 0xffff * 0xffff,
{
    proof {
        assert(0 <= header.width * header.height <= 0xffff * 0xffff) by (nonlinear_arith)
            requires
                0 <= header.width <= 0xffff,
                0 <= header.height <= 0xffff,
        ;
    }
    header.width as u64 * header.height as u64
}

proof fn lemma_bgra4_pixel(source: Seq<u8>, pixel: int)
    requires
        0 <= pixel,
        2 * pixel + 2 <= source.len(),
    ensures
        bgra4_to_rgba(source)[4 * pixel] == bgra4_channel(source, pixel, 0),
        bgra4_to_rgba(source)[4 * pixel + 1] == bgra4_channel(source, pixel, 1),
        bgra4_to_rgba(source)[4 * pixel + 2] == bgra4_channel(source, pixel, 2),
        bgra4_to_rgba(source)[4 * pixel + 3] == bgra4_channel(source, pixel, 3),
{
}

fn split_bgra4(packed: u16) -> (r: (u8, u8, u8, u8))
    ensures
        r.0 == stretch4((packed as int / 0x100) % 16),
        r.1 == stretch4((packed as int / 0x10) % 16),
        r.2 == stretch4(packed as int % 16),
        r.3 == stretch4(packed as int / 0x1000),
{
    proof {
        assert((packed >> 8) & 0x0f == (packed / 0x100) % 16 && (packed >> 4) & 0x0f == (packed
            / 0x10) % 16 && packed & 0x0f == packed % 16 && (packed >> 12) & 0x0f == packed
            / 0x1000 && (packed / 0x1000) < 16) by (bit_vector);
    }
    (
        scale_4bit(((packed >> 8) & 0x0f) as u8),
        scale_4bit(((packed >> 4) & 0x0f) as u8),
        scale_4bit((packed & 0x0f) as u8),
        scale_4bit(((packed >> 12) & 0x0f) as u8),
    )
}

/// Decodes pixels of four bits per channel.
pub fn decode_bgra4(data: &[u8], header: TextureHeader) -> (r: Result<Vec<u8>, TextureError>)
    ensures
        match r {
            Ok(rgba) => surface(data@, header@, 2 * pixel_count(header@)) matches Ok(source)
                && rgba@ == bgra4_to_rgba(source),
            Err(error) => surface(data@, header@, 2 * pixel_count(header@)) == Err::<Seq<u8>, _>(
                error@,
            ),
        },
        r matches Ok(rgba) ==> rgba@.len() == 4 * pixel_count(header@),
{
    let pixels: u64 = count_pixels(header);
    let source = match pixel_data(data, header, pixels * 2) {
        Ok(source) => source,
        Err(error) => {
            return Err(error);
        },
    };
    let mut rgba: Vec<u8> = Vec::new();
    let count: usize = source.len() / 2;
    let mut i: usize = 0;
    let ghost expected = bgra4_to_rgba(source@);
    proof {
        lemma_written(expected, count as int);
    }
    while i < count
        invariant
            i <= count,
            source.len() == 2 * count,
            expected.len() == 4 * count,
            expected == bgra4_to_rgba(source@),
            written(rgba@, expected, i as int),
        decreases count - i,
    {
        let (red, green, blue, alpha) = split_bgra4(read_u16(source, 2 * i));
        proof {
            lemma_bgra4_pixel(source@, i as int);
            lemma_pixel_written(rgba@, expected, i as int);
        }
        rgba.push(red);
        rgba.push(green);
        rgba.push(blue);
        rgba.push(alpha);
        i = i + 1;
    }
    proof {
        lemma_written(expected, count as int);
    }
    Ok(rgba)
}

proof fn lemma_bgr5a1_pixel(source: Seq<u8>, pixel: int)
    requires
        0 <= pixel,
        2 * pixel + 2 <= source.len(),
    ensures
        bgr5a1_to_rgba(source)[4 * pixel] == bgr5a1_channel(source, pixel, 0),
        bgr5a1_to_rgba(source)[4 * pixel + 1] == bgr5a1_channel(source, pixel, 1),
        bgr5a1_to_rgba(source)[4 * pixel + 2] == bgr5a1_channel(source, pixel, 2),
        bgr5a1_to_rgba(source)[4 * pixel + 3] == bgr5a1_channel(source, pixel, 3),
{
}

fn split_bgr5a1(packed: u16) -> (r: (u8, u8, u8, u8))
    ensures
        r.0 == stretch5((packed as int / 0x400) % 32),
        r.1 == stretch5((packed as int / 0x20) % 32),
        r.2 == stretch5(packed as int % 32),
        r.3 == if packed >= 0x8000 {
            0xffu8
        } else {
            0u8
        },
{
    proof {
        assert((packed >> 10) & 0x1f == (packed / 0x400) % 32 && (packed >> 5) & 0x1f == (packed
            / 0x20) % 32 && packed & 0x1f == packed % 32 && (packed & 0x8000 != 0 <==> packed
            >= 0x8000)) by (bit_vector);
    }
    (
        scale_5bit(((packed >> 10) & 0x1f) as u8),
        scale_5bit(((packed >> 5) & 0x1f) as u8),
        scale_5bit((packed & 0x1f) as u8),
        if (packed & 0x8000) != 0 {
            0xff
        } else {
            0x00
        },
    )
}

/// Decodes pixels of five bits per colour channel and one bit of alpha.
pub fn decode_bgr5a1(data: &[u8], header: TextureHeader) -> (r: Result<Vec<u8>, TextureError>)
    ensures
        match r {
            Ok(rgba) => surface(data@, header@, 2 * pixel_count(header@)) matches Ok(source)
                && rgba@ == bgr5a1_to_rgba(source),
            Err(error) => surface(data@, header@, 2 * pixel_count(header@)) == Err::<Seq<u8>, _>(
                error@,
            ),
        },
        r matches Ok(rgba) ==> rgba@.len() == 4 * pixel_count(header@),
{
    let pixels: u64 = count_pixels(header);
    let source = match pixel_data(data, header, pixels * 2) {
        Ok(source) => source,
        Err(error) => {
            return Err(error);
        },
    };
    let mut rgba: Vec<u8> = Vec::new();
    let count: usize = source.len() / 2;
    let mut i: usize = 0;
    let ghost expected = bgr5a1_to_rgba(source@);
    proof {
        lemma_written(expected, count as int);
    }
    while i < count
        invariant
            i <= count,
            source.len() == 2 * count,
            expected.len() == 4 * count,
            expected == bgr5a1_to_rgba(source@),
            written(rgba@, expected, i as int),
        decreases count - i,
    {
        let (red, green, blue, alpha) = split_bgr5a1(read_u16(source, 2 * i));
        proof {
            lemma_bgr5a1_pixel(source@, i as int);
            lemma_pixel_written(rgba@, expected, i as int);
        }
        rgba.push(red);
        rgba.push(green);
        rgba.push(blue);
        rgba.push(alpha);
        i = i + 1;
    }
    proof {
        lemma_written(expected, count as int);
    }
    Ok(rgba)
}

pub proof fn lemma_packed_pixel(pixels: Seq<u32>, pixel: int)
    requires
        0 <= pixel < pixels.len(),
    ensures
        packed_to_rgba(pixels)[4 * pixel] == packed_channel(pixels[pixel], 0),
        packed_to_rgba(pixels)[4 * pixel + 1] == packed_channel(pixels[pixel], 1),
        packed_to_rgba(pixels)[4 * pixel + 2] == packed_channel(pixels[pixel], 2),
        packed_to_rgba(pixels)[4 * pixel + 3] == packed_channel(pixels[pixel], 3),
{
}

/// Spreads pixels in one number each, blue lowest, to four bytes each, red first.
pub fn unpack_pixels(pixels: &Vec<u32>) -> (r: Vec<u8>)
    ensures
        r@ == packed_to_rgba(pixels@),
{
    let mut rgba: Vec<u8> = Vec::new();
    let mut i: usize = 0;
    let ghost expected = packed_to_rgba(pixels@);
    proof {
        lemma_written(expected, pixels@.len() as int);
    }
    while i < pixels.len()
        invariant
            i <= pixels@.len(),
            expected.len() == 4 * pixels@.len(),
            expected == packed_to_rgba(pixels@),
            written(rgba@, expected, i as int),
        decreases pixels@.len() - i,
    {
        let pixel: u32 = pixels[i];
        proof {
            lemma_packed_pixel(pixels@, i as int);
            lemma_pixel_written(rgba@, expected, i as int);
        }
        rgba.push(((pixel / 0x1_0000) % 0x100) as u8);
        rgba.push(((pixel / 0x100) % 0x100) as u8);
        rgba.push((pixel % 0x100) as u8);
        rgba.push((pixel / 0x100_0000) as u8);
        i = i + 1;
    }
    proof {
        lemma_written(expected, pixels@.len() as int);
    }
    rgba
}

/// A block compression: every block is a square of sixteen pixels.
#[derive(Debug, Clone, Copy, PartialEq, Eq, Structural)]
pub enum BlockCodec {
    Bc1,
    Bc3,
    Bc7,
}

impl BlockCodec {
    /// The pixel format of the surfaces that are compressed that way.
    pub open spec fn format_code(self) -> u32 {
        match self {
            BlockCodec::Bc1 => FORMAT_BC1,
            BlockCodec::Bc3 => FORMAT_BC3,
            BlockCodec::Bc7 => FORMAT_BC7,
        }
    }

    /// The number of bytes that a block is stored in.
    pub open spec fn block_bytes(self) -> nat {
        match self {
            BlockCodec::Bc1 => 8,
            BlockCodec::Bc3 => 16,
            BlockCodec::Bc7 => 16,
        }
    }
}

/// The number of blocks that cover `pixels` pixels in one direction.
pub open spec fn blocks_across(pixels: nat) -> nat {
    (pixels + 3) / 4
}

/// The number of bytes that a decoder reads for an image of that size.
pub open spec fn compressed_size(codec: BlockCodec, width: nat, height: nat) -> nat {
    blocks_across(width) * blocks_across(height) * codec.block_bytes()
}

/// What `texture2ddecoder::decode_bc1` leaves in an image that held `before`.
pub uninterp spec fn bc1_image(
    data: Seq<u8>,
    width: usize,
    height: usize,
    before: Seq<u32>,
) -> Seq<u32>;

/// What `texture2ddecoder::decode_bc3` leaves in an image that held `before`, on a machine whose
/// words have `word_bits` bits: the decoder keeps the alpha indices of a block in one word, which
/// drops the last of them if it is too narrow.
pub uninterp spec fn bc3_image(
    data: Seq<u8>,
    width: usize,
    height: usize,
    before: Seq<u32>,
    word_bits: u32,
) -> Seq<u32>;

/// What `texture2ddecoder::decode_bc7` leaves in an image that held `before`.
pub uninterp spec fn bc7_image(
    data: Seq<u8>,
    width: usize,
    height: usize,
    before: Seq<u32>,
) -> Seq<u32>;

/// What a decoder leaves in an image that held `before`.
pub open spec fn decoded_image(
    codec: BlockCodec,
    data: Seq<u8>,
    width: usize,
    height: usize,
    before: Seq<u32>,
) -> Seq<u32> {
    match codec {
        BlockCodec::Bc1 => bc1_image(data, width, height, before),
        BlockCodec::Bc3 => bc3_image(data, width, height, before, usize::BITS),
        BlockCodec::Bc7 => bc7_image(data, width, height, before),
    }
}

/// Why a decoder gives up, if it does: there are fewer bytes than the blocks need, or the image
/// has fewer places than there are pixels.
pub open spec fn decoder_fault(
    codec: BlockCodec,
    data: Seq<u8>,
    width: usize,
    height: usize,
    before: Seq<u32>,
) -> Option<Seq<char>> {
    if data.len() < compressed_size(codec, width as nat, height as nat) {
        Some("Not enough data to decode image!"@)
    } else if before.len() < width * height {
        Some("Image buffer is too small!"@)
    } else {
        None
    }
}

/// Block number `block` of a compressed surface, of `bytes` bytes.
pub open spec fn block_of(source: Seq<u8>, block: int, bytes: nat) -> Seq<u8> {
    source.subrange(block * bytes, block * bytes + bytes)
}

/// The pixel in that column and row of a block, as it comes out where the block is decoded alone.
pub open spec fn texel(codec: BlockCodec, block: Seq<u8>, column: int, row: int) -> u32 {
    decoded_image(codec, block, 4, 4, blank(16))[4 * row + column]
}

/// The pixel in column `x` and row `y` of an image of that width.
pub open spec fn pixel_at(image: Seq<u32>, width: int, x: int, y: int) -> u32 {
    image[y * width + x]
}

/// Whether every pixel of an image is the one that its block alone decodes to. Blocks are stored
/// row by row.
pub open spec fn blockwise(
    codec: BlockCodec,
    data: Seq<u8>,
    width: nat,
    height: nat,
    image: Seq<u32>,
) -> bool {
    forall|x: int, y: int|
        0 <= x < width && 0 <= y < height ==> #[trigger] pixel_at(image, width as int, x, y)
            == texel(
            codec,
            block_of(data, (y / 4) * blocks_across(width) + x / 4, codec.block_bytes()),
            x % 4,
            y % 4,
        )
}

/// `texture2ddecoder::decode_bc1`: fails on too few bytes or too small an image, which it leaves
/// as it was; else fills the image, whose size stays as it is, in a way that the arguments alone
/// decide. Each pixel comes from the block that covers it, and from no other.
#[verifier::external_body]
fn decode_bc1(data: &[u8], width: usize, height: usize, image: &mut Vec<u32>) -> (r: Result<
    (),
    &'static str,
>)
    requires
        width * height <= usize::MAX,
        compressed_size(BlockCodec::Bc1, width as nat, height as nat) <= usize::MAX,
    ensures
        match r {
            Ok(()) => decoder_fault(BlockCodec::Bc1, data@, width, height, old(image)@) is None
                && final(image)@ == bc1_image(data@, width, height, old(image)@),
            Err(reason) => decoder_fault(BlockCodec::Bc1, data@, width, height, old(image)@)
                == Some(reason@) && final(image)@ == old(image)@,
        },
        r is Ok ==> blockwise(
            BlockCodec::Bc1,
            data@,
            width as nat,
            height as nat,
            final(image)@,
        ),
        final(image)@.len() == old(image)@.len(),
{
    texture2ddecoder::decode_bc1(data, width, height, image)
}

/// `texture2ddecoder::decode_bc3`: fails on too few bytes or too small an image, which it leaves
/// as it was; else fills the image, whose size stays as it is, in a way that the arguments and the
/// width of a machine word decide. Each pixel comes from the block that covers it, and from no
/// other.
#[verifier::external_body]
fn decode_bc3(data: &[u8], width: usize, height: usize, image: &mut Vec<u32>) -> (r: Result<
    (),
    &'static str,
>)
    requires
        width * height <= usize::MAX,
        compressed_size(BlockCodec::Bc3, width as nat, height as nat) <= usize::MAX,
    ensures
        match r {
            Ok(()) => decoder_fault(BlockCodec::Bc3, data@, width, height, old(image)@) is None
                && final(image)@ == bc3_image(data@, width, height, old(image)@, usize::BITS),
            Err(reason) => decoder_fault(BlockCodec::Bc3, data@, width, height, old(image)@)
                == Some(reason@) && final(image)@ == old(image)@,
        },
        r is Ok ==> blockwise(
            BlockCodec::Bc3,
            data@,
            width as nat,
            height as nat,
            final(image)@,
        ),
        final(image)@.len() == old(image)@.len(),
{
    texture2ddecoder::decode_bc3(data, width, height, image)
}

/// `texture2ddecoder::decode_bc7`: fails on too few bytes or too small an image, which it leaves
/// as it was; else fills the image, whose size stays as it is, in a way that the arguments alone
/// decide. Each pixel comes from the block that covers it, and from no other.
#[verifier::external_body]
fn decode_bc7(data: &[u8], width: usize, height: usize, image: &mut Vec<u32>) -> (r: Result<
    (),
    &'static str,
>)
    requires
        width * height <= usize::MAX,
        compressed_size(BlockCodec::Bc7, width as nat, height as nat) <= usize::MAX,
    ensures
        match r {
            Ok(()) => decoder_fault(BlockCodec::Bc7, data@, width, height, old(image)@) is None
                && final(image)@ == bc7_image(data@, width, height, old(image)@),
            Err(reason) => decoder_fault(BlockCodec::Bc7, data@, width, height, old(image)@)
                == Some(reason@) && final(image)@ == old(image)@,
        },
        r is Ok ==> blockwise(
            BlockCodec::Bc7,
            data@,
            width as nat,
            height as nat,
            final(image)@,
        ),
        final(image)@.len() == old(image)@.len(),
{
    texture2ddecoder::decode_bc7(data, width, height, image)
}

/// The number of blocks of a compressed surface; there is at least one in each direction.
pub open spec fn block_count(header: Header) -> nat {
    let across = blocks_across(header.width as nat);
    let down = blocks_across(header.height as nat);
    (if across < 1 {
        1
    } else {
        across
    }) * (if down < 1 {
        1
    } else {
        down
    })
}

/// An image of `pixels` pixels that nothing was drawn on.
pub open spec fn blank(pixels: nat) -> Seq<u32> {
    Seq::new(pixels, |i: int| 0u32)
}

/// What a compressed surface decodes to.
pub open spec fn blocks_to_rgba(
    data: Seq<u8>,
    header: Header,
    bytes_per_block: nat,
    codec: BlockCodec,
) -> Result<Seq<u8>, TextureFault> {
    let width = header.width as usize;
    let height = header.height as usize;
    let before = blank(pixel_count(header));
    match surface(data, header, block_count(header) * bytes_per_block) {
        Ok(source) => match decoder_fault(codec, source, width, height, before) {
            Some(reason) => Err(TextureFault::Decode(reason)),
            None => Ok(packed_to_rgba(decoded_image(codec, source, width, height, before))),
        },
        Err(fault) => Err(fault),
    }
}

/// A surface has at least the blocks that cover it, and not too many to count.
pub proof fn lemma_block_count(header: Header)
    ensures
        blocks_across(header.width as nat) * blocks_across(header.height as nat) <= block_count(
            header,
        ) <= 0x4000 * 0x4000,
{
    let across = blocks_across(header.width as nat);
    let down = blocks_across(header.height as nat);
    let across_at_least = if across < 1 {
        1
    } else {
        across
    };
    let down_at_least = if down < 1 {
        1
    } else {
        down
    };
    assert(across * down <= across_at_least * down_at_least <= 0x4000 * 0x4000)
        by (nonlinear_arith)
        requires
            0 <= across <= across_at_least <= 0x4000,
            0 <= down <= down_at_least <= 0x4000,
    ;
}

/// The end of a compressed surface can be counted.
proof fn lemma_blocks_end(header: TextureHeader, bytes_per_block: int)
    requires
        0 <= bytes_per_block <= 16,
    ensures
        header.surface_offsets@[0] + block_count(header@) * bytes_per_block <= u64::MAX,
{
    lemma_block_count(header@);
    let blocks = block_count(header@) as int;
    assert(blocks * bytes_per_block <= 0x4000 * 0x4000 * 16) by (nonlinear_arith)
        requires
            0 <= blocks <= 0x4000 * 0x4000,
            0 <= bytes_per_block <= 16,
    ;
}

fn count_blocks(header: TextureHeader) -> (r: u64)
    ensures
        r == block_count(header@),
{
    proof {
        lemma_block_count(header@);
    }
    let across: u64 = (header.width as u64 + 3) / 4;
    let down: u64 = (header.height as u64 + 3) / 4;
    let across_at_least: u64 = if across < 1 { 1 } else { across };
    let down_at_least: u64 = if down < 1 { 1 } else { down };
    across_at_least * down_at_least
}

/// The four bytes of the pixel in column `x` and row `y` of an image of that width, in one number:
/// blue lowest, then green, red and alpha.
pub open spec fn packed_at(rgba: Seq<u8>, width: int, x: int, y: int) -> int {
    let at = 4 * (y * width + x);
    rgba[at + 2] + 0x100 * rgba[at + 1] + 0x1_0000 * rgba[at] + 0x100_0000 * rgba[at + 3]
}

/// Whether an image is made of the squares that the blocks of a compressed surface decode to. The
/// pixel in column `x` and row `y` comes from block `x / 4` of the row of blocks `y / 4`, each of
/// which has as many blocks as it takes to cover the width, and stands in that block in column
/// `x % 4` and row `y % 4`.
pub open spec fn squares(
    codec: BlockCodec,
    source: Seq<u8>,
    width: int,
    height: int,
    rgba: Seq<u8>,
) -> bool {
    forall|x: int, y: int|
        0 <= x < width && 0 <= y < height ==> {
            let block = (y / 4) * ((width + 3) / 4) + x / 4;
            let bytes = codec.block_bytes() as int;
            #[trigger] packed_at(rgba, width, x, y) == decoded_image(
                codec,
                source.subrange(block * bytes, block * bytes + bytes),
                4,
                4,
                blank(16),
            )[4 * (y % 4) + x % 4]
        }
}

pub proof fn lemma_packed_number(pixel: u32)
    ensures
        packed_channel(pixel, 2) + 0x100 * packed_channel(pixel, 1) + 0x1_0000 * packed_channel(
            pixel,
            0,
        ) + 0x100_0000 * packed_channel(pixel, 3) == pixel,
{
    let p = pixel as int;
    lemma_byte_parts(p);
    assert(packed_channel(pixel, 2) == p % 0x100);
    assert(packed_channel(pixel, 1) == (p / 0x100) % 0x100);
    assert(packed_channel(pixel, 0) == (p / 0x1_0000) % 0x100);
    assert(packed_channel(pixel, 3) == p / 0x100_0000);
}

proof fn lemma_byte_parts(p: int)
    requires
        0 <= p < 0x1_0000_0000,
    ensures
        p == p % 0x100 + 0x100 * ((p / 0x100) % 0x100) + 0x1_0000 * ((p / 0x1_0000) % 0x100)
            + 0x100_0000 * (p / 0x100_0000),
        p / 0x100_0000 < 0x100,
{
    let second = p / 0x100;
    let third = second / 0x100;
    assert(p / 0x1_0000 == third);
    assert(p / 0x100_0000 == third / 0x100);
    assert(p == 0x100 * second + p % 0x100);
    assert(second == 0x100 * third + second % 0x100);
    assert(third == 0x100 * (third / 0x100) + third % 0x100);
}

proof fn lemma_pixel_inside(x: int, y: int, width: int, height: int)
    requires
        0 <= x < width,
        0 <= y < height,
    ensures
        0 <= y * width + x < width * height,
{
    assert(0 <= y * width && (y + 1) * width <= width * height) by (nonlinear_arith)
        requires
            0 <= y,
            y + 1 <= height,
            0 <= width,
    ;
    assert((y + 1) * width == y * width + width) by (nonlinear_arith);
}

pub proof fn lemma_block_inside(x: int, y: int, width: nat, height: nat, bytes: int)
    requires
        0 <= x < width,
        0 <= y < height,
        0 <= bytes,
    ensures
        ({
            let block = (y / 4) * blocks_across(width) + x / 4;
            &&& 0 <= block * bytes
            &&& block * bytes + bytes <= blocks_across(width) * blocks_across(height) * bytes
        }),
{
    let across = blocks_across(width) as int;
    let down = blocks_across(height) as int;
    let block = (y / 4) * across + x / 4;
    assert(0 <= x / 4 < across && 0 <= y / 4 < down);
    lemma_pixel_inside(x / 4, y / 4, across, down);
    assert(0 <= block * bytes && block * bytes + bytes <= across * down * bytes)
        by (nonlinear_arith)
        requires
            0 <= block,
            block + 1 <= across * down,
            0 <= bytes,
    ;
}

/// An image that came out block by block is made of squares.
pub proof fn lemma_squares(
    codec: BlockCodec,
    data: Seq<u8>,
    offset: int,
    length: int,
    width: nat,
    height: nat,
    image: Seq<u32>,
)
    requires
        0 <= offset,
        0 <= length,
        offset + length <= data.len(),
        compressed_size(codec, width, height) <= length,
        image.len() == width * height,
        blockwise(codec, data.subrange(offset, offset + length), width, height, image),
    ensures
        squares(codec, data.skip(offset), width as int, height as int, packed_to_rgba(image)),
{
    let source = data.subrange(offset, offset + length);
    let rest = data.skip(offset);
    let rgba = packed_to_rgba(image);
    let w = width as int;
    assert forall|x: int, y: int| 0 <= x < width && 0 <= y < height implies {
        let block = (y / 4) * ((w + 3) / 4) + x / 4;
        let bytes = codec.block_bytes() as int;
        #[trigger] packed_at(rgba, w, x, y) == decoded_image(
            codec,
            rest.subrange(block * bytes, block * bytes + bytes),
            4,
            4,
            blank(16),
        )[4 * (y % 4) + x % 4]
    } by {
        let bytes = codec.block_bytes() as int;
        let block = (y / 4) * ((w + 3) / 4) + x / 4;
        lemma_pixel_inside(x, y, w, height as int);
        lemma_block_inside(x, y, width, height, bytes);
        lemma_packed_pixel(image, y * w + x);
        lemma_packed_number(image[y * w + x]);
        assert(pixel_at(image, w, x, y) == image[y * w + x]);
        assert(source.subrange(block * bytes, block * bytes + bytes) =~= rest.subrange(
            block * bytes,
            block * bytes + bytes,
        ));
    }
}

/// Decodes a block-compressed surface. `bytes_per_block` is the size of a block in the file.
pub fn decode_block_compressed(
    data: &[u8],
    header: TextureHeader,
    bytes_per_block: u64,
    codec: BlockCodec,
) -> (r: Result<Vec<u8>, TextureError>)
    requires
        header.surface_offsets@[0] + block_count(header@) * bytes_per_block <= u64::MAX,
        bytes_per_block >= codec.block_bytes() || compressed_size(
            codec,
            header.width as nat,
            header.height as nat,
        ) <= usize::MAX,
    ensures
        match r {
            Ok(rgba) => blocks_to_rgba(data@, header@, bytes_per_block as nat, codec) == Ok::<
                _,
                TextureFault,
            >(rgba@),
            Err(error) => blocks_to_rgba(data@, header@, bytes_per_block as nat, codec) == Err::<
                Seq<u8>,
                _,
            >(error@),
        },
        r matches Ok(rgba) ==> squares(
            codec,
            data@.skip(header.surface_offsets@[0] as int),
            header.width as int,
            header.height as int,
            rgba@,
        ),
        r matches Ok(rgba) ==> rgba@.len() == 4 * pixel_count(header@),
{
    let width: usize = header.width as usize;
    let height: usize = header.height as usize;
    let pixels: u64 = count_pixels(header);
    let blocks: u64 = count_blocks(header);
    assert(blocks * bytes_per_block == block_count(header@) * bytes_per_block);
    let source = match pixel_data(data, header, blocks * bytes_per_block) {
        Ok(source) => source,
        Err(error) => {
            return Err(error);
        },
    };
    proof {
        lemma_block_count(header@);
        let needed = blocks_across(header.width as nat) * blocks_across(header.height as nat);
        if bytes_per_block >= codec.block_bytes() {
            let per_block = codec.block_bytes();
            assert(needed * per_block <= blocks * bytes_per_block) by (nonlinear_arith)
                requires
                    0 <= needed <= blocks,
                    0 <= per_block <= bytes_per_block,
            ;
            assert(source.len() == blocks * bytes_per_block);
        }
        assert(compressed_size(codec, width as nat, height as nat) == needed * codec.block_bytes());
        assert(compressed_size(codec, width as nat, height as nat) <= usize::MAX);
        assert(width * height == pixel_count(header@));
    }
    let mut image: Vec<u32> = vec![0u32; pixels as usize];
    assert(image@ == blank(pixel_count(header@)));
    let decoded = match codec {
        BlockCodec::Bc1 => decode_bc1(source, width, height, &mut image),
        BlockCodec::Bc3 => decode_bc3(source, width, height, &mut image),
        BlockCodec::Bc7 => decode_bc7(source, width, height, &mut image),
    };
    match decoded {
        Ok(()) => {
            proof {
                lemma_squares(
                    codec,
                    data@,
                    header.surface_offsets@[0] as int,
                    blocks * bytes_per_block,
                    width as nat,
                    height as nat,
                    image@,
                );
            }
            Ok(unpack_pixels(&image))
        },
        Err(reason) => Err(TextureError::Decode(reason)),
    }
}

/// What the top surface decodes to: four bytes per pixel, red first, row by row.
pub open spec fn surface_to_rgba(data: Seq<u8>, header: Header) -> Result<Seq<u8>, TextureFault> {
    if header.format == FORMAT_BGRA8 || header.format == FORMAT_BGRX8 {
        match surface(data, header, 4 * pixel_count(header)) {
            Ok(source) => Ok(bgra8_to_rgba(source, header.format == FORMAT_BGRA8)),
            Err(fault) => Err(fault),
        }
    } else if header.format == FORMAT_BGRA4 {
        match surface(data, header, 2 * pixel_count(header)) {
            Ok(source) => Ok(bgra4_to_rgba(source)),
            Err(fault) => Err(fault),
        }
    } else if header.format == FORMAT_BGR5A1 {
        match surface(data, header, 2 * pixel_count(header)) {
            Ok(source) => Ok(bgr5a1_to_rgba(source)),
            Err(fault) => Err(fault),
        }
    } else if header.format == FORMAT_BC1 {
        blocks_to_rgba(data, header, 8, BlockCodec::Bc1)
    } else if header.format == FORMAT_BC3 {
        blocks_to_rgba(data, header, 16, BlockCodec::Bc3)
    } else if header.format == FORMAT_BC7 {
        blocks_to_rgba(data, header, 16, BlockCodec::Bc7)
    } else {
        Err(TextureFault::UnsupportedFormat(header.format))
    }
}

/// Decodes the top surface to four bytes per pixel, red first, row by row.
pub fn decode_tex_rgba(data: &[u8], header: TextureHeader) -> (r: Result<Vec<u8>, TextureError>)
    ensures
        match r {
            Ok(rgba) => surface_to_rgba(data@, header@) == Ok::<_, TextureFault>(rgba@),
            Err(error) => surface_to_rgba(data@, header@) == Err::<Seq<u8>, _>(error@),
        },
        r matches Ok(rgba) ==> forall|codec: BlockCodec|
            header.format == codec.format_code() ==> #[trigger] squares(
                codec,
                data@.skip(header.surface_offsets@[0] as int),
                header.width as int,
                header.height as int,
                rgba@,
            ),
        r matches Ok(rgba) ==> rgba@.len() == 4 * pixel_count(header@),
{
    if header.format == FORMAT_BGRA8 {
        decode_bgra8(data, header, true)
    } else if header.format == FORMAT_BGRX8 {
        decode_bgra8(data, header, false)
    } else if header.format == FORMAT_BGRA4 {
        decode_bgra4(data, header)
    } else if header.format == FORMAT_BGR5A1 {
        decode_bgr5a1(data, header)
    } else if header.format == FORMAT_BC1 {
        proof {
            lemma_blocks_end(header, 8);
        }
        decode_block_compressed(data, header, 8, BlockCodec::Bc1)
    } else if header.format == FORMAT_BC3 {
        proof {
            lemma_blocks_end(header, 16);
        }
        decode_block_compressed(data, header, 16, BlockCodec::Bc3)
    } else if header.format == FORMAT_BC7 {
        proof {
            lemma_blocks_end(header, 16);
        }
        decode_block_compressed(data, header, 16, BlockCodec::Bc7)
    } else {
        Err(TextureError::UnsupportedFormat(header.format))
    }
}

/// The file that the WebP encoder makes of an image, if it makes one.
pub uninterp spec fn webp_file(
    rgba: Seq<u8>,
    width: u32,
    height: u32,
    quality: u8,
) -> Option<Seq<u8>>;

/// `webp::Encoder::from_rgba` and, on what it returns, `encode_simple` for a lossy image; of
/// these, `encode` is the variant that panics where no file comes out. The image and the quality
/// alone decide what comes out. Nothing does if a side is 0 or over 16383, if the quality is over
/// 100, or if a part of the file would be larger than the format allows. Where memory runs out,
/// the call does not return, as with any allocation.
#[verifier::external_body]
fn encode_webp(rgba: &[u8], width: u32, height: u32, quality: u8) -> (r: Option<Vec<u8>>)
    requires
        width <= 0xffff,
        height <= 0xffff,
        rgba@.len() >= 4 * (width * height),
    ensures
        match r {
            Some(file) => webp_file(rgba@, width, height, quality) == Some(file@),
            None => webp_file(rgba@, width, height, quality) is None,
        },
        (width == 0 || height == 0 || width > 16383 || height > 16383) ==> r is None,
        quality > 100 ==> r is None,
{
    match webp::Encoder::from_rgba(rgba, width, height).encode_simple(false, quality.into()) {
        Err(webp::WebPEncodingError::VP8_ENC_ERROR_INVALID_CONFIGURATION) => None,
        Err(webp::WebPEncodingError::VP8_ENC_ERROR_BAD_DIMENSION) => None,
        Err(webp::WebPEncodingError::VP8_ENC_ERROR_PARTITION0_OVERFLOW) => None,
        Err(webp::WebPEncodingError::VP8_ENC_ERROR_PARTITION_OVERFLOW) => None,
        Err(webp::WebPEncodingError::VP8_ENC_ERROR_FILE_TOO_BIG) => None,
        result => Some(result.unwrap().to_vec()),
    }
}

/// The result of a conversion, by what the encoder came up with.
pub open spec fn encoded(file: Option<Seq<u8>>) -> Result<Seq<u8>, TextureFault> {
    match file {
        Some(file) => Ok(file),
        None => Err(TextureFault::EncoderRefused),
    }
}

/// The result of a conversion, by what the encoder came up with.
pub fn encoder_result(file: Option<Vec<u8>>) -> (r: Result<Vec<u8>, TextureError>)
    ensures
        match file {
            Some(file) => r == Ok::<_, TextureError>(file),
            None => r matches Err(error) && error@ == TextureFault::EncoderRefused,
        },
{
    match file {
        Some(file) => Ok(file),
        None => Err(TextureError::EncoderRefused),
    }
}

/// What the texture file `data` is converted to.
pub open spec fn converted(data: Seq<u8>, output_format: OutputFormat) -> Result<
    Seq<u8>,
    TextureFault,
> {
    if data.len() < HEADER_SIZE {
        Err(TextureFault::TooShort { len: data.len() })
    } else {
        let header = header_of(data);
        match surface_to_rgba(data, header) {
            Ok(rgba) => match output_format {
                OutputFormat::Webp => encoded(
                    webp_file(rgba, header.width as u32, header.height as u32, WEBP_QUALITY),
                ),
                OutputFormat::Avif => Err(TextureFault::NoAvifEncoder),
            },
            Err(fault) => Err(fault),
        }
    }
}

/// Converts a texture file to a WebP file.
pub fn convert_tex_to_webp(data: &[u8]) -> (r: Result<Vec<u8>, TextureError>)
    ensures
        match r {
            Ok(file) => converted(data@, OutputFormat::Webp) == Ok::<_, TextureFault>(file@),
            Err(error) => converted(data@, OutputFormat::Webp) == Err::<Seq<u8>, _>(error@),
        },
        data@.len() >= HEADER_SIZE && surface_to_rgba(data@, header_of(data@)) is Ok ==> forall|
            codec: BlockCodec,
        |
            header_of(data@).format == codec.format_code() ==> #[trigger] squares(
                codec,
                data@.skip(header_of(data@).surface_offsets[0] as int),
                header_of(data@).width as int,
                header_of(data@).height as int,
                surface_to_rgba(data@, header_of(data@))->Ok_0,
            ),
{
    let header = match TextureHeader::parse(data) {
        Ok(header) => header,
        Err(error) => {
            return Err(error);
        },
    };
    let rgba = match decode_tex_rgba(data, header) {
        Ok(rgba) => rgba,
        Err(error) => {
            return Err(error);
        },
    };
    encoder_result(
        encode_webp(rgba.as_slice(), header.width as u32, header.height as u32, WEBP_QUALITY),
    )
}

/// Converts a texture file to the output format. There is no AVIF encoder: a texture that decodes
/// is then refused for that reason.
pub fn convert_tex(data: &[u8], output_format: OutputFormat) -> (r: Result<Vec<u8>, TextureError>)
    ensures
        match r {
            Ok(file) => converted(data@, output_format) == Ok::<_, TextureFault>(file@),
            Err(error) => converted(data@, output_format) == Err::<Seq<u8>, _>(error@),
        },
{
    match output_format {
        OutputFormat::Webp => convert_tex_to_webp(data),
        OutputFormat::Avif => {
            let header = match TextureHeader::parse(data) {
                Ok(header) => header,
                Err(error) => {
                    return Err(error);
                },
            };
            match decode_tex_rgba(data, header) {
                Ok(_rgba) => Err(TextureError::NoAvifEncoder),
                Err(error) => Err(error),
            }
        },
    }
}

} // verus!
