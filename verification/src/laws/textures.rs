//! Laws of texture decoding.

use vstd::prelude::*;

use crate::config::OutputFormat;

verus! {

use crate::tex::{
    bgr5a1_channel, bgr5a1_to_rgba, bgra4_channel, bgra4_to_rgba, bgra8_channel, bgra8_to_rgba,
    blocks_to_rgba, converted, header_of, le16, le32, pixel_count, stretch4, stretch5, surface,
    surface_to_rgba, Header, FORMAT_BGR5A1, FORMAT_BGRA4, FORMAT_BGRA8, FORMAT_BGRX8,
    HEADER_SIZE,
};

/// A header is read from the header bytes alone.
pub proof fn law_header_from_header_bytes(a: Seq<u8>, b: Seq<u8>)
    requires
        a.len() >= HEADER_SIZE,
        b.len() >= HEADER_SIZE,
        a.take(HEADER_SIZE as int) == b.take(HEADER_SIZE as int),
    ensures
        header_of(a) == header_of(b),
{
    assert forall|i: int| 0 <= i < HEADER_SIZE implies a[i] == b[i] by {
        assert(a.take(HEADER_SIZE as int)[i] == a[i]);
        assert(b.take(HEADER_SIZE as int)[i] == b[i]);
    }
    assert(header_of(a).lod_offsets =~= header_of(b).lod_offsets);
    assert(header_of(a).surface_offsets =~= header_of(b).surface_offsets);
}

proof fn lemma_le32_bytes(a: Seq<u8>, b: Seq<u8>, at: int)
    requires
        le32(a, at) == le32(b, at),
    ensures
        a[at] == b[at],
        a[at + 1] == b[at + 1],
        a[at + 2] == b[at + 2],
        a[at + 3] == b[at + 3],
{
    let (p, q) = (le32(a, at) as int, le32(b, at) as int);
    let (x, y) = (
        a[at + 1] + 0x100 * a[at + 2] + 0x1_0000 * a[at + 3],
        b[at + 1] + 0x100 * b[at + 2] + 0x1_0000 * b[at + 3],
    );
    assert(p == a[at] + 0x100 * x && q == b[at] + 0x100 * y);
    lemma_low_byte(a[at], x, b[at], y);
    let (v, w) = (a[at + 2] + 0x100 * a[at + 3], b[at + 2] + 0x100 * b[at + 3]);
    lemma_low_byte(a[at + 1], v, b[at + 1], w);
    lemma_low_byte(a[at + 2], a[at + 3] as int, b[at + 2], b[at + 3] as int);
}

/// A number tells its low byte and the rest.
proof fn lemma_low_byte(low_a: u8, rest_a: int, low_b: u8, rest_b: int)
    requires
        low_a + 0x100 * rest_a == low_b + 0x100 * rest_b,
    ensures
        low_a == low_b,
        rest_a == rest_b,
{
}

proof fn lemma_le16_bytes(a: Seq<u8>, b: Seq<u8>, at: int)
    requires
        le16(a, at) == le16(b, at),
    ensures
        a[at] == b[at],
        a[at + 1] == b[at + 1],
{
}

/// Reading a header loses nothing: from the header every byte of it can be told.
pub proof fn law_header_loses_nothing(a: Seq<u8>, b: Seq<u8>)
    requires
        a.len() >= HEADER_SIZE,
        b.len() >= HEADER_SIZE,
        header_of(a) == header_of(b),
    ensures
        a.take(HEADER_SIZE as int) == b.take(HEADER_SIZE as int),
{
    let (x, y) = (header_of(a), header_of(b));
    lemma_le32_bytes(a, b, 0);
    lemma_le32_bytes(a, b, 4);
    lemma_le16_bytes(a, b, 8);
    lemma_le16_bytes(a, b, 10);
    lemma_le16_bytes(a, b, 12);
    assert forall|i: int| 16 <= i < HEADER_SIZE implies a[i] == b[i] by {
        if i < 28 {
            let n = (i - 16) / 4;
            assert(x.lod_offsets[n] == y.lod_offsets[n]);
            lemma_le32_bytes(a, b, 16 + 4 * n);
        } else {
            let n = (i - 28) / 4;
            assert(x.surface_offsets[n] == y.surface_offsets[n]);
            lemma_le32_bytes(a, b, 28 + 4 * n);
        }
    }
    assert forall|i: int| 0 <= i < HEADER_SIZE implies a[i] == b[i] by {
        assert(i == 0 || i == 1 || i == 2 || i == 3 || i == 4 || i == 5 || i == 6 || i == 7 || i
            == 8 || i == 9 || i == 10 || i == 11 || i == 12 || i == 13 || i == 14 || i == 15
            || i >= 16);
    }
    assert(a.take(HEADER_SIZE as int) =~= b.take(HEADER_SIZE as int));
}

/// Pixels come from behind the header and from inside the file.
pub proof fn law_pixels_behind_header(data: Seq<u8>, header: Header, length: nat)
    requires
        surface(data, header, length) is Ok,
    ensures
        HEADER_SIZE <= header.surface_offsets[0],
        header.surface_offsets[0] + length <= data.len(),
        surface(data, header, length)->Ok_0.len() == length,
{
}

/// Four bytes come out per pixel of a surface that is not compressed.
pub proof fn law_four_bytes_per_pixel(data: Seq<u8>, header: Header)
    requires
        header.format == FORMAT_BGRA8 || header.format == FORMAT_BGRX8 || header.format
            == FORMAT_BGRA4 || header.format == FORMAT_BGR5A1,
        surface_to_rgba(data, header) is Ok,
    ensures
        surface_to_rgba(data, header)->Ok_0.len() == 4 * pixel_count(header),
{
}

/// Reordering the channels twice gives the pixels back.
pub proof fn law_reorder_twice(source: Seq<u8>)
    requires
        source.len() % 4 == 0,
    ensures
        bgra8_to_rgba(bgra8_to_rgba(source, true), true) == source,
{
    let once = bgra8_to_rgba(source, true);
    let twice = bgra8_to_rgba(once, true);
    assert forall|k: int| 0 <= k < source.len() implies twice[k] == source[k] by {
        let (pixel, channel) = (k / 4, k % 4);
        assert(twice[k] == bgra8_channel(once, pixel, channel, true));
        if channel == 3 {
            assert(once[4 * pixel + 3] == bgra8_channel(source, pixel, 3, true));
        } else {
            let from = 4 * pixel + 2 - channel;
            assert(from / 4 == pixel && from % 4 == 2 - channel);
            assert(once[from] == bgra8_channel(source, pixel, 2 - channel, true));
        }
    }
    assert(twice =~= source);
}

/// Without an alpha channel every pixel is opaque.
pub proof fn law_opaque_without_alpha(source: Seq<u8>, pixel: int)
    requires
        0 <= pixel < source.len() / 4,
    ensures
        bgra8_to_rgba(source, false)[4 * pixel + 3] == 0xff,
{
}

/// Stretching a channel keeps the order of its values and reaches both ends of the range.
pub proof fn law_stretch(a: int, b: int)
    requires
        0 <= a < b,
    ensures
        b < 16 ==> stretch4(a) < stretch4(b),
        b < 32 ==> stretch5(a) < stretch5(b),
        stretch4(0) == 0,
        stretch4(15) == 255,
        stretch5(0) == 0,
        stretch5(31) == 255,
{
}

proof fn lemma_stretch4_one_to_one(a: int, b: int)
    requires
        0 <= a < 16,
        0 <= b < 16,
        stretch4(a) == stretch4(b),
    ensures
        a == b,
{
}

proof fn lemma_four_bit_parts(x: u16, y: u16)
    requires
        (x as int / 0x100) % 16 == (y as int / 0x100) % 16,
        (x as int / 0x10) % 16 == (y as int / 0x10) % 16,
        x as int % 16 == y as int % 16,
        x as int / 0x1000 == y as int / 0x1000,
    ensures
        x == y,
{
    assert(x == y) by (bit_vector)
        requires
            (x / 0x100) % 16 == (y / 0x100) % 16,
            (x / 0x10) % 16 == (y / 0x10) % 16,
            x % 16 == y % 16,
            x / 0x1000 == y / 0x1000,
    ;
}

proof fn lemma_bgra4_bytes(a: Seq<u8>, b: Seq<u8>, pixel: int)
    requires
        bgra4_channel(a, pixel, 0) == bgra4_channel(b, pixel, 0),
        bgra4_channel(a, pixel, 1) == bgra4_channel(b, pixel, 1),
        bgra4_channel(a, pixel, 2) == bgra4_channel(b, pixel, 2),
        bgra4_channel(a, pixel, 3) == bgra4_channel(b, pixel, 3),
    ensures
        a[2 * pixel] == b[2 * pixel],
        a[2 * pixel + 1] == b[2 * pixel + 1],
{
    let (p, q) = (le16(a, 2 * pixel), le16(b, 2 * pixel));
    let (x, y) = (p as int, q as int);
    lemma_stretch4_one_to_one((x / 0x100) % 16, (y / 0x100) % 16);
    lemma_stretch4_one_to_one((x / 0x10) % 16, (y / 0x10) % 16);
    lemma_stretch4_one_to_one(x % 16, y % 16);
    lemma_stretch4_one_to_one(x / 0x1000, y / 0x1000);
    lemma_four_bit_parts(p, q);
    lemma_le16_bytes(a, b, 2 * pixel);
}

proof fn lemma_bgra4_at(source: Seq<u8>, pixel: int, channel: int)
    requires
        0 <= pixel < source.len() / 2,
        0 <= channel < 4,
    ensures
        bgra4_to_rgba(source)[4 * pixel + channel] == bgra4_channel(source, pixel, channel),
{
    let k = 4 * pixel + channel;
    assert(k / 4 == pixel && k % 4 == channel);
}

proof fn lemma_bgra4_same(a: Seq<u8>, b: Seq<u8>, pixel: int, channel: int)
    requires
        0 <= pixel < a.len() / 2,
        0 <= pixel < b.len() / 2,
        0 <= channel < 4,
        bgra4_to_rgba(a) == bgra4_to_rgba(b),
    ensures
        bgra4_channel(a, pixel, channel) == bgra4_channel(b, pixel, channel),
{
    lemma_bgra4_at(a, pixel, channel);
    lemma_bgra4_at(b, pixel, channel);
}

proof fn lemma_bgra4_pixel(a: Seq<u8>, b: Seq<u8>, pixel: int)
    requires
        0 <= pixel < a.len() / 2,
        0 <= pixel < b.len() / 2,
        bgra4_to_rgba(a) == bgra4_to_rgba(b),
    ensures
        a[2 * pixel] == b[2 * pixel],
        a[2 * pixel + 1] == b[2 * pixel + 1],
{
    lemma_bgra4_same(a, b, pixel, 0);
    lemma_bgra4_same(a, b, pixel, 1);
    lemma_bgra4_same(a, b, pixel, 2);
    lemma_bgra4_same(a, b, pixel, 3);
    lemma_bgra4_bytes(a, b, pixel);
}

/// Decoding four-bit channels loses nothing.
pub proof fn law_bgra4_loses_nothing(a: Seq<u8>, b: Seq<u8>)
    requires
        a.len() % 2 == 0,
        b.len() % 2 == 0,
        bgra4_to_rgba(a) == bgra4_to_rgba(b),
    ensures
        a == b,
{
    assert(bgra4_to_rgba(a).len() == 4 * (a.len() / 2));
    assert(bgra4_to_rgba(b).len() == 4 * (b.len() / 2));
    assert(a.len() == b.len());
    assert forall|i: int| 0 <= i < a.len() implies a[i] == b[i] by {
        lemma_bgra4_pixel(a, b, i / 2);
    }
    assert(a =~= b);
}

proof fn lemma_stretch5_one_to_one(a: int, b: int)
    requires
        0 <= a < 32,
        0 <= b < 32,
        stretch5(a) == stretch5(b),
    ensures
        a == b,
{
}

proof fn lemma_five_bit_parts(x: u16, y: u16)
    requires
        (x as int / 0x400) % 32 == (y as int / 0x400) % 32,
        (x as int / 0x20) % 32 == (y as int / 0x20) % 32,
        x as int % 32 == y as int % 32,
        x >= 0x8000 <==> y >= 0x8000,
    ensures
        x == y,
{
    assert(x == y) by (bit_vector)
        requires
            (x / 0x400) % 32 == (y / 0x400) % 32,
            (x / 0x20) % 32 == (y / 0x20) % 32,
            x % 32 == y % 32,
            x >= 0x8000 <==> y >= 0x8000,
    ;
}

proof fn lemma_bgr5a1_bytes(a: Seq<u8>, b: Seq<u8>, pixel: int)
    requires
        bgr5a1_channel(a, pixel, 0) == bgr5a1_channel(b, pixel, 0),
        bgr5a1_channel(a, pixel, 1) == bgr5a1_channel(b, pixel, 1),
        bgr5a1_channel(a, pixel, 2) == bgr5a1_channel(b, pixel, 2),
        bgr5a1_channel(a, pixel, 3) == bgr5a1_channel(b, pixel, 3),
    ensures
        a[2 * pixel] == b[2 * pixel],
        a[2 * pixel + 1] == b[2 * pixel + 1],
{
    let (p, q) = (le16(a, 2 * pixel), le16(b, 2 * pixel));
    let (x, y) = (p as int, q as int);
    lemma_stretch5_one_to_one((x / 0x400) % 32, (y / 0x400) % 32);
    lemma_stretch5_one_to_one((x / 0x20) % 32, (y / 0x20) % 32);
    lemma_stretch5_one_to_one(x % 32, y % 32);
    lemma_five_bit_parts(p, q);
    lemma_le16_bytes(a, b, 2 * pixel);
}

proof fn lemma_bgr5a1_at(source: Seq<u8>, pixel: int, channel: int)
    requires
        0 <= pixel < source.len() / 2,
        0 <= channel < 4,
    ensures
        bgr5a1_to_rgba(source)[4 * pixel + channel] == bgr5a1_channel(source, pixel, channel),
{
    let k = 4 * pixel + channel;
    assert(k / 4 == pixel && k % 4 == channel);
}

proof fn lemma_bgr5a1_same(a: Seq<u8>, b: Seq<u8>, pixel: int, channel: int)
    requires
        0 <= pixel < a.len() / 2,
        0 <= pixel < b.len() / 2,
        0 <= channel < 4,
        bgr5a1_to_rgba(a) == bgr5a1_to_rgba(b),
    ensures
        bgr5a1_channel(a, pixel, channel) == bgr5a1_channel(b, pixel, channel),
{
    lemma_bgr5a1_at(a, pixel, channel);
    lemma_bgr5a1_at(b, pixel, channel);
}

proof fn lemma_bgr5a1_pixel(a: Seq<u8>, b: Seq<u8>, pixel: int)
    requires
        0 <= pixel < a.len() / 2,
        0 <= pixel < b.len() / 2,
        bgr5a1_to_rgba(a) == bgr5a1_to_rgba(b),
    ensures
        a[2 * pixel] == b[2 * pixel],
        a[2 * pixel + 1] == b[2 * pixel + 1],
{
    lemma_bgr5a1_same(a, b, pixel, 0);
    lemma_bgr5a1_same(a, b, pixel, 1);
    lemma_bgr5a1_same(a, b, pixel, 2);
    lemma_bgr5a1_same(a, b, pixel, 3);
    lemma_bgr5a1_bytes(a, b, pixel);
}

/// Decoding five-bit channels and one bit of alpha loses nothing.
pub proof fn law_bgr5a1_loses_nothing(a: Seq<u8>, b: Seq<u8>)
    requires
        a.len() % 2 == 0,
        b.len() % 2 == 0,
        bgr5a1_to_rgba(a) == bgr5a1_to_rgba(b),
    ensures
        a == b,
{
    assert(bgr5a1_to_rgba(a).len() == 4 * (a.len() / 2));
    assert(bgr5a1_to_rgba(b).len() == 4 * (b.len() / 2));
    assert(a.len() == b.len());
    assert forall|i: int| 0 <= i < a.len() implies a[i] == b[i] by {
        lemma_bgr5a1_pixel(a, b, i / 2);
    }
    assert(a =~= b);
}

proof fn lemma_surface_of_longer(data: Seq<u8>, more: Seq<u8>, header: Header, length: nat)
    requires
        surface(data, header, length) is Ok,
    ensures
        surface(data + more, header, length) == surface(data, header, length),
{
    let start = header.surface_offsets[0] as int;
    assert((data + more).subrange(start, start + length) =~= data.subrange(start, start + length));
}

/// What follows the top surface in a file that can be converted makes no difference.
pub proof fn law_rest_of_file_ignored(data: Seq<u8>, more: Seq<u8>, output_format: OutputFormat)
    requires
        converted(data, output_format) is Ok,
    ensures
        converted(data + more, output_format) == converted(data, output_format),
{
    let header = header_of(data);
    assert((data + more).take(HEADER_SIZE as int) =~= data.take(HEADER_SIZE as int));
    law_header_from_header_bytes(data, data + more);
    let pixels = pixel_count(header);
    let blocks = crate::tex::block_count(header);
    if header.format == FORMAT_BGRA8 || header.format == FORMAT_BGRX8 {
        lemma_surface_of_longer(data, more, header, 4 * pixels);
    } else if header.format == FORMAT_BGRA4 || header.format == FORMAT_BGR5A1 {
        lemma_surface_of_longer(data, more, header, 2 * pixels);
    } else if header.format == crate::tex::FORMAT_BC1 {
        lemma_surface_of_longer(data, more, header, blocks * 8);
    } else {
        lemma_surface_of_longer(data, more, header, blocks * 16);
    }
}

/// Where the bytes of all blocks are there, block decoding succeeds.
pub proof fn law_complete_blocks_decode(
    data: Seq<u8>,
    header: Header,
    codec: crate::tex::BlockCodec,
)
    requires
        surface(data, header, crate::tex::block_count(header) * codec.block_bytes()) is Ok,
    ensures
        blocks_to_rgba(data, header, codec.block_bytes(), codec) is Ok,
{
    crate::tex::lemma_block_count(header);
    let needed = crate::tex::blocks_across(header.width as nat) * crate::tex::blocks_across(
        header.height as nat,
    );
    let blocks = crate::tex::block_count(header);
    let bytes = codec.block_bytes();
    assert(needed * bytes <= blocks * bytes) by (nonlinear_arith)
        requires
            0 <= needed <= blocks,
            0 <= bytes,
    ;
}

} // verus!
