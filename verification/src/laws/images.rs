//! Laws of the images that texture files become, told by the bytes of the files.

use vstd::prelude::*;

use crate::config::OutputFormat;

verus! {

use crate::tex::{
    bgr5a1_to_rgba, bgra4_to_rgba, bgra8_to_rgba, blank, block_count, blocks_across,
    blocks_to_rgba, blockwise, converted, decoded_image, header_of,
    lemma_block_count, packed_to_rgba, pixel_count, squares, surface, surface_to_rgba, webp_file,
    BlockCodec, Header, TextureFault,
};

/// The number in the two bytes at `at`, low byte first.
pub open spec fn two_bytes(data: Seq<u8>, at: int) -> int {
    data[at] + 0x100 * data[at + 1]
}

/// The number in the four bytes at `at`, low byte first.
pub open spec fn four_bytes(data: Seq<u8>, at: int) -> int {
    two_bytes(data, at) + 0x1_0000 * two_bytes(data, at + 2)
}

/// Where the fields of a header stand in a file.
pub proof fn law_header_fields(data: Seq<u8>, i: int)
    requires
        data.len() >= 80,
    ensures
        header_of(data).attribute == four_bytes(data, 0),
        header_of(data).format == four_bytes(data, 4),
        header_of(data).width == two_bytes(data, 8),
        header_of(data).height == two_bytes(data, 10),
        header_of(data).depth == two_bytes(data, 12),
        header_of(data).mip_levels == data[14],
        header_of(data).array_size == data[15],
        header_of(data).lod_offsets.len() == 3,
        0 <= i < 3 ==> header_of(data).lod_offsets[i] == four_bytes(data, 16 + 4 * i),
        header_of(data).surface_offsets.len() == 13,
        0 <= i < 13 ==> header_of(data).surface_offsets[i] == four_bytes(data, 28 + 4 * i),
{
}

/// The bytes of a surface are those from its offset on; it is there exactly if it starts behind
/// the header and ends inside the file.
pub proof fn law_surface_bytes(data: Seq<u8>, header: Header, length: nat, i: int)
    ensures
        ({
            let start = header.surface_offsets[0] as nat;
            let found = surface(data, header, length);
            if start >= 80 && start + length <= data.len() {
                &&& found matches Ok(bytes) && bytes.len() == length
                &&& 0 <= i < length ==> found->Ok_0[i] == data[start + i]
            } else {
                found == Err::<Seq<u8>, _>(
                    TextureFault::OutOfBounds { start, end: start + length, len: data.len() },
                )
            }
        }),
{
}

/// Whether `image` is as large as the surface, at four bytes a pixel.
pub open spec fn fits(header: Header, image: Seq<u8>) -> bool {
    image.len() == 4 * (header.width * header.height)
}

/// Whether the file has `length` bytes from the offset of the surface on, behind the header.
pub open spec fn is_there(data: Seq<u8>, header: Header, length: int) -> bool {
    80 <= header.surface_offsets[0] && header.surface_offsets[0] + length <= data.len()
}

/// Byte number `i` of the surface.
pub open spec fn byte(data: Seq<u8>, header: Header, i: int) -> u8 {
    data[header.surface_offsets[0] + i]
}

/// Whether the four bytes of pixel `i` of an image are these.
pub open spec fn pixel_is(image: Seq<u8>, i: int, red: int, green: int, blue: int, alpha: int)
 -> bool {
    &&& image[4 * i] == red
    &&& image[4 * i + 1] == green
    &&& image[4 * i + 2] == blue
    &&& image[4 * i + 3] == alpha
}

/// Whether pixel `i` of the image is that of a surface with eight bits for blue, green, red and
/// alpha each; in the format 0x1451 there is no alpha, and the pixel is opaque.
pub open spec fn eight_bit_pixel(data: Seq<u8>, header: Header, image: Seq<u8>, i: int) -> bool {
    pixel_is(
        image,
        i,
        byte(data, header, 4 * i + 2) as int,
        byte(data, header, 4 * i + 1) as int,
        byte(data, header, 4 * i) as int,
        if header.format == 0x1450 {
            byte(data, header, 4 * i + 3) as int
        } else {
            255
        },
    )
}

/// Whether pixel `i` of the image is that of a surface with four bits for blue, green, red and
/// alpha each. Fifteen stands for 255, and the values between in proportion.
pub open spec fn four_bit_pixel(data: Seq<u8>, header: Header, image: Seq<u8>, i: int) -> bool {
    let low = byte(data, header, 2 * i) as int;
    let high = byte(data, header, 2 * i + 1) as int;
    pixel_is(image, i, 17 * (high % 16), 17 * (low / 16), 17 * (low % 16), 17 * (high / 16))
}

/// A value of five bits in eight: the upper three bits are repeated behind it.
pub open spec fn widened(value: int) -> int {
    8 * value + value / 4
}

/// Whether pixel `i` of the image is that of a surface with five bits for blue, green and red each
/// and one for alpha.
pub open spec fn five_bit_pixel(data: Seq<u8>, header: Header, image: Seq<u8>, i: int) -> bool {
    let low = byte(data, header, 2 * i) as int;
    let high = byte(data, header, 2 * i + 1) as int;
    pixel_is(
        image,
        i,
        widened((high / 4) % 32),
        widened(8 * (high % 4) + low / 32),
        widened(low % 32),
        if high >= 128 {
            255
        } else {
            0
        },
    )
}

proof fn lemma_same_pixels(a: Seq<u8>, b: Seq<u8>, pixels: int)
    requires
        a.len() == 4 * pixels,
        b.len() == 4 * pixels,
        forall|i: int|
            0 <= i < pixels ==> #[trigger] pixel_is(
                a,
                i,
                b[4 * i] as int,
                b[4 * i + 1] as int,
                b[4 * i + 2] as int,
                b[4 * i + 3] as int,
            ),
    ensures
        a == b,
{
    assert forall|k: int| 0 <= k < a.len() implies a[k] == b[k] by {
        let i = k / 4;
        assert(pixel_is(
            a,
            i,
            b[4 * i] as int,
            b[4 * i + 1] as int,
            b[4 * i + 2] as int,
            b[4 * i + 3] as int,
        ));
        assert(k == 4 * i || k == 4 * i + 1 || k == 4 * i + 2 || k == 4 * i + 3);
    }
    assert(a =~= b);
}

/// What a surface with eight bits per channel decodes to: of each pixel the red, green and blue
/// of its bytes, and its alpha, or 255 where it has none.
pub proof fn law_eight_bit_pixels(data: Seq<u8>, header: Header, image: Seq<u8>)
    requires
        header.format == 0x1450 || header.format == 0x1451,
        is_there(data, header, 4 * (header.width * header.height)),
        fits(header, image),
        forall|i: int|
            0 <= i < header.width * header.height ==> #[trigger] eight_bit_pixel(
                data,
                header,
                image,
                i,
            ),
    ensures
        surface_to_rgba(data, header) == Ok::<Seq<u8>, TextureFault>(image),
{
    let pixels = header.width * header.height;
    assert(pixel_count(header) == pixels);
    assert(surface(data, header, 4 * pixel_count(header)) is Ok);
    let source = surface(data, header, 4 * pixel_count(header))->Ok_0;
    let keep = header.format == 0x1450;
    let rgba = bgra8_to_rgba(source, keep);
    assert(rgba.len() == 4 * pixels);
    assert forall|i: int| 0 <= i < pixels implies #[trigger] pixel_is(
        image,
        i,
        rgba[4 * i] as int,
        rgba[4 * i + 1] as int,
        rgba[4 * i + 2] as int,
        rgba[4 * i + 3] as int,
    ) by {
        assert(eight_bit_pixel(data, header, image, i));
        assert(source[4 * i] == byte(data, header, 4 * i));
        assert(source[4 * i + 1] == byte(data, header, 4 * i + 1));
        assert(source[4 * i + 2] == byte(data, header, 4 * i + 2));
        assert(source[4 * i + 3] == byte(data, header, 4 * i + 3));
        assert((4 * i + 1) / 4 == i && (4 * i + 2) / 4 == i && (4 * i + 3) / 4 == i);
    }
    lemma_same_pixels(image, rgba, pixels);
}

/// What a surface with four bits per channel decodes to.
pub proof fn law_four_bit_pixels(data: Seq<u8>, header: Header, image: Seq<u8>)
    requires
        header.format == 0x1440,
        is_there(data, header, 2 * (header.width * header.height)),
        fits(header, image),
        forall|i: int|
            0 <= i < header.width * header.height ==> #[trigger] four_bit_pixel(
                data,
                header,
                image,
                i,
            ),
    ensures
        surface_to_rgba(data, header) == Ok::<Seq<u8>, TextureFault>(image),
{
    let pixels = header.width * header.height;
    assert(pixel_count(header) == pixels);
    assert(surface(data, header, 2 * pixel_count(header)) is Ok);
    let source = surface(data, header, 2 * pixel_count(header))->Ok_0;
    let rgba = bgra4_to_rgba(source);
    assert(rgba.len() == 4 * pixels);
    assert forall|i: int| 0 <= i < pixels implies #[trigger] pixel_is(
        image,
        i,
        rgba[4 * i] as int,
        rgba[4 * i + 1] as int,
        rgba[4 * i + 2] as int,
        rgba[4 * i + 3] as int,
    ) by {
        assert(four_bit_pixel(data, header, image, i));
        assert(source[2 * i] == byte(data, header, 2 * i));
        assert(source[2 * i + 1] == byte(data, header, 2 * i + 1));
        lemma_four_bit_pixel(source, i);
    }
    lemma_same_pixels(image, rgba, pixels);
}

proof fn lemma_four_bit_pixel(source: Seq<u8>, i: int)
    requires
        0 <= i < source.len() / 2,
    ensures
        ({
            let (low, high) = (source[2 * i] as int, source[2 * i + 1] as int);
            pixel_is(
                bgra4_to_rgba(source),
                i,
                17 * (high % 16),
                17 * (low / 16),
                17 * (low % 16),
                17 * (high / 16),
            )
        }),
{
    let (low, high) = (source[2 * i] as int, source[2 * i + 1] as int);
    let packed = low + 0x100 * high;
    assert(crate::tex::le16(source, 2 * i) == packed);
    assert((packed / 0x100) % 16 == high % 16);
    assert((packed / 0x10) % 16 == low / 16);
    assert(packed % 16 == low % 16);
    assert(packed / 0x1000 == high / 16);
    let rgba = bgra4_to_rgba(source);
    assert(rgba[4 * i] == crate::tex::bgra4_channel(source, i, 0));
    assert(rgba[4 * i + 1] == crate::tex::bgra4_channel(source, i, 1));
    assert(rgba[4 * i + 2] == crate::tex::bgra4_channel(source, i, 2));
    assert(rgba[4 * i + 3] == crate::tex::bgra4_channel(source, i, 3));
}

/// What a surface with five bits per colour channel and one bit of alpha decodes to.
pub proof fn law_five_bit_pixels(data: Seq<u8>, header: Header, image: Seq<u8>)
    requires
        header.format == 0x1441,
        is_there(data, header, 2 * (header.width * header.height)),
        fits(header, image),
        forall|i: int|
            0 <= i < header.width * header.height ==> #[trigger] five_bit_pixel(
                data,
                header,
                image,
                i,
            ),
    ensures
        surface_to_rgba(data, header) == Ok::<Seq<u8>, TextureFault>(image),
{
    let pixels = header.width * header.height;
    assert(pixel_count(header) == pixels);
    assert(surface(data, header, 2 * pixel_count(header)) is Ok);
    let source = surface(data, header, 2 * pixel_count(header))->Ok_0;
    let rgba = bgr5a1_to_rgba(source);
    assert(rgba.len() == 4 * pixels);
    assert forall|i: int| 0 <= i < pixels implies #[trigger] pixel_is(
        image,
        i,
        rgba[4 * i] as int,
        rgba[4 * i + 1] as int,
        rgba[4 * i + 2] as int,
        rgba[4 * i + 3] as int,
    ) by {
        assert(five_bit_pixel(data, header, image, i));
        assert(source[2 * i] == byte(data, header, 2 * i));
        assert(source[2 * i + 1] == byte(data, header, 2 * i + 1));
        lemma_five_bit_pixel(source, i);
    }
    lemma_same_pixels(image, rgba, pixels);
}

proof fn lemma_five_bit_pixel(source: Seq<u8>, i: int)
    requires
        0 <= i < source.len() / 2,
    ensures
        ({
            let (low, high) = (source[2 * i] as int, source[2 * i + 1] as int);
            pixel_is(
                bgr5a1_to_rgba(source),
                i,
                widened((high / 4) % 32),
                widened(8 * (high % 4) + low / 32),
                widened(low % 32),
                if high >= 128 {
                    255
                } else {
                    0
                },
            )
        }),
{
    let (low, high) = (source[2 * i] as int, source[2 * i + 1] as int);
    let packed = low + 0x100 * high;
    assert(crate::tex::le16(source, 2 * i) == packed);
    lemma_five_bit_numbers(low, high);
    let rgba = bgr5a1_to_rgba(source);
    assert(rgba[4 * i] == crate::tex::bgr5a1_channel(source, i, 0));
    assert(rgba[4 * i + 1] == crate::tex::bgr5a1_channel(source, i, 1));
    assert(rgba[4 * i + 2] == crate::tex::bgr5a1_channel(source, i, 2));
    assert(rgba[4 * i + 3] == crate::tex::bgr5a1_channel(source, i, 3));
}

proof fn lemma_five_bit_numbers(low: int, high: int)
    requires
        0 <= low < 256,
        0 <= high < 256,
    ensures
        ((low + 0x100 * high) / 0x400) % 32 == (high / 4) % 32,
        ((low + 0x100 * high) / 0x20) % 32 == 8 * (high % 4) + low / 32,
        (low + 0x100 * high) % 32 == low % 32,
        low + 0x100 * high >= 0x8000 <==> high >= 128,
{
    let packed = low + 0x100 * high;
    assert(packed / 0x400 == high / 4);
    assert(packed / 0x20 == low / 32 + 8 * high);
    assert(high == 4 * (high / 4) + high % 4);
}

/// The compression of a pixel format.
pub open spec fn compression(format: u32) -> Option<BlockCodec> {
    if format == 0x3420 {
        Some(BlockCodec::Bc1)
    } else if format == 0x3431 {
        Some(BlockCodec::Bc3)
    } else if format == 0x6432 {
        Some(BlockCodec::Bc7)
    } else {
        None
    }
}

/// The number of bytes of a block.
pub open spec fn bytes_of_block(format: u32) -> int {
    if format == 0x3420 {
        8
    } else {
        16
    }
}

/// Whether `blocks` blocks of four cover `pixels` pixels, and one fewer does not. There is always
/// one.
pub open spec fn covers(blocks: int, pixels: int) -> bool {
    blocks >= 1 && 4 * blocks >= pixels && (blocks == 1 || 4 * (blocks - 1) < pixels)
}

/// The pixel in column `x` and row `y` of a compressed surface: the one in column `x % 4` and row
/// `y % 4` of what the block that covers it decodes to alone. Blocks are stored row by row, `across`
/// in each row.
pub open spec fn compressed_pixel(
    data: Seq<u8>,
    header: Header,
    across: int,
    x: int,
    y: int,
) -> u32 {
    let bytes = bytes_of_block(header.format);
    let start = header.surface_offsets[0] + ((y / 4) * across + x / 4) * bytes;
    decoded_image(
        compression(header.format)->0,
        data.subrange(start, start + bytes),
        4,
        4,
        blank(16),
    )[4 * (y % 4) + x % 4]
}

/// Whether the pixel in column `x` and row `y` of an image is the number `pixel`, whose bytes are,
/// from the lowest on, blue, green, red and alpha.
pub open spec fn shows(image: Seq<u8>, header: Header, x: int, y: int, pixel: u32) -> bool {
    let at = 4 * (y * header.width + x);
    image[at + 2] + 0x100 * image[at + 1] + 0x1_0000 * image[at] + 0x100_0000 * image[at + 3]
        == pixel
}

/// Whether the decoder of the surface's compression goes by the blocks of the surface, as its
/// contract says.
pub open spec fn goes_by_blocks(data: Seq<u8>, header: Header, length: int) -> bool {
    let codec = compression(header.format)->0;
    let start = header.surface_offsets[0] as int;
    let source = data.subrange(start, start + length);
    let width = header.width as usize;
    let height = header.height as usize;
    let image = decoded_image(codec, source, width, height, blank(pixel_count(header)));
    &&& image.len() == pixel_count(header)
    &&& blockwise(codec, source, header.width as nat, header.height as nat, image)
}

proof fn lemma_blocks(header: Header, across: int, down: int)
    requires
        covers(across, header.width as int),
        covers(down, header.height as int),
    ensures
        block_count(header) == across * down,
        blocks_across(header.width as nat) <= across,
        header.width > 0 ==> blocks_across(header.width as nat) == across,
{
    assert(across == if blocks_across(header.width as nat) < 1 {
        1
    } else {
        blocks_across(header.width as nat) as int
    });
    assert(down == if blocks_across(header.height as nat) < 1 {
        1
    } else {
        blocks_across(header.height as nat) as int
    });
}

/// What a compressed surface decodes to: each pixel is that of the block that covers it, in a file
/// whose blocks are all there.
pub proof fn law_compressed_pixels(
    data: Seq<u8>,
    header: Header,
    across: int,
    down: int,
    x: int,
    y: int,
)
    requires
        compression(header.format) is Some,
        covers(across, header.width as int),
        covers(down, header.height as int),
        is_there(data, header, across * down * bytes_of_block(header.format)),
        goes_by_blocks(data, header, across * down * bytes_of_block(header.format)),
    ensures
        surface_to_rgba(data, header) is Ok,
        fits(header, surface_to_rgba(data, header)->Ok_0),
        0 <= x < header.width && 0 <= y < header.height ==> shows(
            surface_to_rgba(data, header)->Ok_0,
            header,
            x,
            y,
            compressed_pixel(data, header, across, x, y),
        ),
{
    let codec = compression(header.format)->0;
    let bytes = bytes_of_block(header.format);
    let start = header.surface_offsets[0] as int;
    let length = across * down * bytes;
    lemma_blocks(header, across, down);
    lemma_block_count(header);
    assert(codec.block_bytes() == bytes);
    let needed = blocks_across(header.width as nat) * blocks_across(header.height as nat);
    assert(0 <= needed * bytes <= length) by (nonlinear_arith)
        requires
            0 <= needed <= across * down,
            0 <= bytes,
            length == across * down * bytes,
    ;
    assert(surface(data, header, length as nat) == Ok::<Seq<u8>, TextureFault>(
        data.subrange(start, start + length),
    ));
    let image = decoded_image(
        codec,
        data.subrange(start, start + length),
        header.width as usize,
        header.height as usize,
        blank(pixel_count(header)),
    );
    assert(surface_to_rgba(data, header) == blocks_to_rgba(data, header, bytes as nat, codec));
    assert(surface_to_rgba(data, header) == Ok::<Seq<u8>, TextureFault>(packed_to_rgba(image)));
    crate::tex::lemma_squares(
        codec,
        data,
        start,
        length,
        header.width as nat,
        header.height as nat,
        image,
    );
    let rgba = packed_to_rgba(image);
    if 0 <= x < header.width && 0 <= y < header.height {
        assert(squares(
            codec,
            data.skip(start),
            header.width as int,
            header.height as int,
            rgba,
        ));
        crate::tex::lemma_block_inside(x, y, header.width as nat, header.height as nat, bytes);
        let block = (y / 4) * across + x / 4;
        assert(data.skip(start).subrange(block * bytes, block * bytes + bytes) =~= data.subrange(
            start + block * bytes,
            start + block * bytes + bytes,
        ));
        let packed = crate::tex::packed_at(rgba, header.width as int, x, y);
        assert(packed == compressed_pixel(data, header, across, x, y));
    }
}

/// How many bytes a surface takes up: four or two for each pixel, or those of its blocks.
pub open spec fn bytes_needed(header: Header, across: int, down: int) -> int {
    if header.format == 0x1450 || header.format == 0x1451 {
        4 * (header.width * header.height)
    } else if header.format == 0x1440 || header.format == 0x1441 {
        2 * (header.width * header.height)
    } else {
        across * down * bytes_of_block(header.format)
    }
}

/// Whether surfaces of that pixel format are decoded.
pub open spec fn is_supported(format: u32) -> bool {
    format == 0x1450 || format == 0x1451 || format == 0x1440 || format == 0x1441 || format
        == 0x3420 || format == 0x3431 || format == 0x6432
}

/// A surface is refused exactly if its format is not one of seven, or its bytes are not all there
/// behind the header; the fault says so.
pub proof fn law_refused_surfaces(data: Seq<u8>, header: Header, across: int, down: int)
    requires
        covers(across, header.width as int),
        covers(down, header.height as int),
    ensures
        ({
            let length = bytes_needed(header, across, down);
            let start = header.surface_offsets[0] as nat;
            let result = surface_to_rgba(data, header);
            if !is_supported(header.format) {
                result == Err::<Seq<u8>, _>(TextureFault::UnsupportedFormat(header.format))
            } else if !is_there(data, header, length) {
                result == Err::<Seq<u8>, _>(
                    TextureFault::OutOfBounds {
                        start,
                        end: (start + length) as nat,
                        len: data.len(),
                    },
                )
            } else {
                result is Ok
            }
        }),
{
    lemma_blocks(header, across, down);
    let blocks = block_count(header);
    assert(across * down * bytes_of_block(header.format) == blocks * bytes_of_block(
        header.format,
    ));
    assert(across * down >= 0) by (nonlinear_arith)
        requires
            across >= 1,
            down >= 1,
    ;
    if compression(header.format) is Some {
        let codec = compression(header.format)->0;
        if is_there(data, header, bytes_needed(header, across, down)) {
            crate::laws::textures::law_complete_blocks_decode(data, header, codec);
        }
    }
}

/// What becomes of a file that holds no header, or whose surface is refused: the fault is passed
/// on, whatever the output format.
pub proof fn law_refused_files(data: Seq<u8>, output_format: OutputFormat)
    ensures
        data.len() < 80 ==> converted(data, output_format) == Err::<Seq<u8>, _>(
            TextureFault::TooShort { len: data.len() },
        ),
        data.len() >= 80 ==> (surface_to_rgba(data, header_of(data)) matches Err(fault)
            ==> converted(data, output_format) == Err::<Seq<u8>, _>(fault)),
{
}

/// What the encoder is given: the decoded surface as it is, its width and height, and the quality
/// of 50. The file that it makes is the result; where it makes none, that is the fault. There are
/// no AVIF files.
pub proof fn law_encoded_image(data: Seq<u8>, image: Seq<u8>)
    requires
        data.len() >= 80,
        surface_to_rgba(data, header_of(data)) == Ok::<Seq<u8>, TextureFault>(image),
    ensures
        ({
            let file = webp_file(
                image,
                two_bytes(data, 8) as u32,
                two_bytes(data, 10) as u32,
                50,
            );
            &&& file matches Some(bytes) ==> converted(data, OutputFormat::Webp) == Ok::<
                Seq<u8>,
                TextureFault,
            >(bytes)
            &&& file is None ==> converted(data, OutputFormat::Webp) == Err::<Seq<u8>, _>(
                TextureFault::EncoderRefused,
            )
            &&& converted(data, OutputFormat::Avif) == Err::<Seq<u8>, _>(
                TextureFault::NoAvifEncoder,
            )
        }),
{
    law_header_fields(data, 0);
}

/// The image that the encoder is given of a file with eight bits for each channel has the four
/// channels of every pixel of the file: the alpha of pixel `i` is byte `4 * i + 3` of the surface.
pub proof fn law_transparency_kept(data: Seq<u8>, image: Seq<u8>)
    requires
        data.len() >= 80,
        four_bytes(data, 4) == 0x1450,
        80 <= four_bytes(data, 28),
        four_bytes(data, 28) + 4 * (two_bytes(data, 8) * two_bytes(data, 10)) <= data.len(),
        image.len() == 4 * (two_bytes(data, 8) * two_bytes(data, 10)),
        forall|i: int|
            0 <= i < two_bytes(data, 8) * two_bytes(data, 10) ==> #[trigger] pixel_is(
                image,
                i,
                data[four_bytes(data, 28) + 4 * i + 2] as int,
                data[four_bytes(data, 28) + 4 * i + 1] as int,
                data[four_bytes(data, 28) + 4 * i] as int,
                data[four_bytes(data, 28) + 4 * i + 3] as int,
            ),
    ensures
        ({
            let file = webp_file(
                image,
                two_bytes(data, 8) as u32,
                two_bytes(data, 10) as u32,
                50,
            );
            converted(data, OutputFormat::Webp) == match file {
                Some(bytes) => Ok::<Seq<u8>, TextureFault>(bytes),
                None => Err::<Seq<u8>, TextureFault>(TextureFault::EncoderRefused),
            }
        }),
{
    let header = header_of(data);
    law_header_fields(data, 0);
    assert(two_bytes(data, 8) * two_bytes(data, 10) == header.width * header.height);
    assert forall|i: int| 0 <= i < header.width * header.height implies #[trigger] eight_bit_pixel(
        data,
        header,
        image,
        i,
    ) by {
        assert(pixel_is(
            image,
            i,
            data[four_bytes(data, 28) + 4 * i + 2] as int,
            data[four_bytes(data, 28) + 4 * i + 1] as int,
            data[four_bytes(data, 28) + 4 * i] as int,
            data[four_bytes(data, 28) + 4 * i + 3] as int,
        ));
    }
    law_eight_bit_pixels(data, header, image);
    law_encoded_image(data, image);
}

/// Two files whose surfaces differ in one pixel are not given to the encoder as the same image.
pub proof fn law_eight_bit_images_differ(a: Seq<u8>, b: Seq<u8>, header: Header)
    requires
        header.format == 0x1450,
        surface_to_rgba(a, header) is Ok,
        surface_to_rgba(a, header) == surface_to_rgba(b, header),
    ensures
        forall|i: int|
            0 <= i < 4 * (header.width * header.height) ==> #[trigger] byte(a, header, i) == byte(
                b,
                header,
                i,
            ),
{
    let length = 4 * pixel_count(header);
    assert(pixel_count(header) == header.width * header.height);
    let (x, y) = (surface(a, header, length)->Ok_0, surface(b, header, length)->Ok_0);
    assert(length % 4 == 0);
    crate::laws::textures::law_reorder_twice(x);
    crate::laws::textures::law_reorder_twice(y);
    assert(x == y);
    assert forall|i: int| 0 <= i < length implies #[trigger] byte(a, header, i) == byte(
        b,
        header,
        i,
    ) by {
        assert(x[i] == byte(a, header, i) && y[i] == byte(b, header, i));
    }
}

/// What the user is told of each fault in a texture.
pub proof fn law_texture_messages(start: nat, end: nat, len: nat, code: u32, reason: Seq<char>)
    ensures
        (TextureFault::TooShort { len }).message()
            == "invalid texture buffer: expected at least 80 bytes, got "@ + crate::text::decimal(
            len,
        ),
        (TextureFault::OutOfBounds { start, end, len }).message()
            == "texture pixel data out of bounds: "@ + crate::text::decimal(start) + ".."@
            + crate::text::decimal(end) + " of "@ + crate::text::decimal(len),
        TextureFault::UnsupportedFormat(code).message() == "unsupported texture format 0x"@
            + crate::text::padded(code as nat, 16, 4),
        TextureFault::Decode(reason).message() == "texture decode failed: "@ + reason,
        TextureFault::EncoderRefused.message() == "webp encoding failed"@,
        TextureFault::NoAvifEncoder.message() == "avif encoding is not available"@,
{
    reveal_with_fuel(crate::text::digits, 3);
    reveal_strlit("invalid texture buffer: expected at least ");
    reveal_strlit(" bytes, got ");
    reveal_strlit("invalid texture buffer: expected at least 80 bytes, got ");
    assert(crate::text::decimal(80) =~= seq!['8', '0']);
    assert((TextureFault::TooShort { len }).message()
        =~= "invalid texture buffer: expected at least 80 bytes, got "@ + crate::text::decimal(
        len,
    ));
}

/// Pixels in one number each are spread to four bytes each: red, green, blue and alpha, of which
/// blue is the lowest byte of the number and alpha the highest.
pub proof fn law_spread_pixels(pixels: Seq<u32>, i: int)
    requires
        0 <= i < pixels.len(),
    ensures
        ({
            let rgba = packed_to_rgba(pixels);
            &&& rgba.len() == 4 * pixels.len()
            &&& rgba[4 * i + 2] + 0x100 * rgba[4 * i + 1] + 0x1_0000 * rgba[4 * i] + 0x100_0000
                * rgba[4 * i + 3] == pixels[i]
        }),
{
    crate::tex::lemma_packed_pixel(pixels, i);
    crate::tex::lemma_packed_number(pixels[i]);
}

/// Blocks of any size are refused if they are not all there, or if together they are fewer bytes
/// than the decoder of the compression needs; else they are decoded.
pub proof fn law_refused_blocks(
    data: Seq<u8>,
    header: Header,
    bytes_per_block: nat,
    codec: BlockCodec,
    across: int,
    down: int,
)
    requires
        covers(across, header.width as int),
        covers(down, header.height as int),
    ensures
        ({
            let length = across * down * bytes_per_block;
            let start = header.surface_offsets[0] as nat;
            let result = blocks_to_rgba(data, header, bytes_per_block, codec);
            let needed = ((header.width + 3) / 4) * ((header.height + 3) / 4) * (if codec
                == BlockCodec::Bc1 {
                8int
            } else {
                16int
            });
            if !is_there(data, header, length) {
                result == Err::<Seq<u8>, _>(
                    TextureFault::OutOfBounds {
                        start,
                        end: (start + length) as nat,
                        len: data.len(),
                    },
                )
            } else if length < needed {
                result == Err::<Seq<u8>, _>(
                    TextureFault::Decode("Not enough data to decode image!"@),
                )
            } else {
                result is Ok
            }
        }),
{
    lemma_blocks(header, across, down);
    let blocks = block_count(header);
    assert(across * down * bytes_per_block == blocks * bytes_per_block);
    assert(blank(pixel_count(header)).len() == header.width * header.height);
}

} // verus!
