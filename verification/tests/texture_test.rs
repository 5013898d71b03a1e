use icon_export::config::OutputFormat;
use icon_export::tex::{
    convert_tex, convert_tex_to_webp, decode_bgr5a1, decode_bgra4, decode_bgra8,
    decode_block_compressed, decode_tex_rgba, encoder_result, pixel_data, scale_4bit, scale_5bit,
    unpack_pixels, BlockCodec, TextureError, TextureHeader, FORMAT_BC1, FORMAT_BC3, FORMAT_BC7,
    FORMAT_BGR5A1, FORMAT_BGRA4, FORMAT_BGRA8, FORMAT_BGRX8, HEADER_SIZE,
};
use ironworks::file::tex::Format;

fn texture(format: u32, width: u16, height: u16, pixels: &[u8]) -> Vec<u8> {
    let mut data = vec![0u8; HEADER_SIZE];
    data[4..8].copy_from_slice(&format.to_le_bytes());
    data[8..10].copy_from_slice(&width.to_le_bytes());
    data[10..12].copy_from_slice(&height.to_le_bytes());
    data[28..32].copy_from_slice(&80u32.to_le_bytes());
    data.extend_from_slice(pixels);
    data
}

fn decode(data: &[u8]) -> Result<Vec<u8>, TextureError> {
    decode_tex_rgba(data, TextureHeader::parse(data).unwrap())
}

const RED_BC1: [u8; 8] = [0x00, 0xf8, 0, 0, 0, 0, 0, 0];

#[test]
fn header_fields() {
    let data: Vec<u8> = (0u8..80).collect();
    let header = TextureHeader::parse(&data).unwrap();
    assert_eq!(header.attribute, 0x03020100);
    assert_eq!(header.format, 0x07060504);
    assert_eq!(header.width, 0x0908);
    assert_eq!(header.height, 0x0b0a);
    assert_eq!(header.depth, 0x0d0c);
    assert_eq!(header.mip_levels, 14);
    assert_eq!(header.array_size, 15);
    assert_eq!(header.lod_offsets, [0x13121110, 0x17161514, 0x1b1a1918]);
    assert_eq!(header.surface_offsets[0], 0x1f1e1d1c);
    assert_eq!(header.surface_offsets[12], 0x4f4e4d4c);
}

#[test]
fn header_does_not_depend_on_the_pixels() {
    let short = texture(FORMAT_BGRA8, 3, 5, &[]);
    let long = texture(FORMAT_BGRA8, 3, 5, &[1, 2, 3]);
    let (a, b) = (TextureHeader::parse(&short).unwrap(), TextureHeader::parse(&long).unwrap());
    assert_eq!((a.format, a.width, a.height), (b.format, b.width, b.height));
    assert_eq!(a.surface_offsets, b.surface_offsets);
}

#[test]
fn too_short_for_a_header() {
    let error = TextureHeader::parse(&[0; 79]).unwrap_err();
    assert!(matches!(error, TextureError::TooShort { len: 79 }));
    assert_eq!(error.message(), "invalid texture buffer: expected at least 80 bytes, got 79");
    assert!(matches!(convert_tex_to_webp(&[]), Err(TextureError::TooShort { len: 0 })));
    assert!(matches!(
        convert_tex(&[], OutputFormat::Avif),
        Err(TextureError::TooShort { len: 0 })
    ));
}

#[test]
fn pixel_data_in_and_out_of_bounds() {
    let data = texture(FORMAT_BGRA8, 1, 1, &[1, 2, 3, 4]);
    let mut header = TextureHeader::parse(&data).unwrap();
    assert_eq!(pixel_data(&data, header, 4).unwrap(), &[1, 2, 3, 4]);
    assert_eq!(pixel_data(&data, header, 0).unwrap(), &[] as &[u8]);
    let error = pixel_data(&data, header, 5).unwrap_err();
    assert_eq!(error.message(), "texture pixel data out of bounds: 80..85 of 84");
    header.surface_offsets[0] = 79;
    let error = pixel_data(&data, header, 4).unwrap_err();
    assert!(matches!(error, TextureError::OutOfBounds { start: 79, end: 83, len: 84 }));
    header.surface_offsets[0] = 82;
    assert_eq!(pixel_data(&data, header, 2).unwrap(), &[3, 4]);
}

#[test]
fn format_codes() {
    assert_eq!(FORMAT_BGRA8, Format::Argb8 as u32);
    assert_eq!(FORMAT_BGRX8, Format::Rgbx8 as u32);
    assert_eq!(FORMAT_BGRA4, Format::Rgba4 as u32);
    assert_eq!(FORMAT_BGR5A1, Format::Rgb5a1 as u32);
    assert_eq!(FORMAT_BC1, Format::Dxt1 as u32);
    assert_eq!(FORMAT_BC3, Format::Dxt5 as u32);
    assert_eq!(FORMAT_BC7, 0x6432);
}

#[test]
fn unsupported_texture_formats() {
    let error = decode(&texture(0x1130, 1, 1, &[0; 16])).unwrap_err();
    assert!(matches!(error, TextureError::UnsupportedFormat(0x1130)));
    assert_eq!(error.message(), "unsupported texture format 0x1130");
    let error = decode(&texture(0xab, 1, 1, &[0; 16])).unwrap_err();
    assert_eq!(error.message(), "unsupported texture format 0x00ab");
    let error = decode(&texture(0x12345, 1, 1, &[0; 16])).unwrap_err();
    assert_eq!(error.message(), "unsupported texture format 0x12345");
}

#[test]
fn eight_bit_channels() {
    let pixels = [1, 2, 3, 4, 5, 6, 7, 8];
    assert_eq!(decode(&texture(FORMAT_BGRA8, 2, 1, &pixels)).unwrap(), [3, 2, 1, 4, 7, 6, 5, 8]);
    assert_eq!(
        decode(&texture(FORMAT_BGRX8, 1, 2, &pixels)).unwrap(),
        [3, 2, 1, 255, 7, 6, 5, 255]
    );
    let data = texture(FORMAT_BGRA8, 2, 1, &pixels);
    let header = TextureHeader::parse(&data).unwrap();
    assert_eq!(decode_bgra8(&data, header, false).unwrap(), [3, 2, 1, 255, 7, 6, 5, 255]);
    let error = decode(&texture(FORMAT_BGRA8, 2, 2, &pixels)).unwrap_err();
    assert!(matches!(error, TextureError::OutOfBounds { start: 80, end: 96, len: 88 }));
}

#[test]
fn reordering_twice_gives_the_pixels_back() {
    let pixels = [10, 20, 30, 40, 50, 60, 70, 80];
    let once = decode(&texture(FORMAT_BGRA8, 2, 1, &pixels)).unwrap();
    assert_eq!(decode(&texture(FORMAT_BGRA8, 2, 1, &once)).unwrap(), pixels);
}

#[test]
fn four_bit_channels() {
    let data = texture(FORMAT_BGRA4, 2, 1, &[0x21, 0x43, 0xf0, 0x0f]);
    assert_eq!(decode(&data).unwrap(), [0x33, 0x22, 0x11, 0x44, 0xff, 0xff, 0x00, 0x00]);
    let header = TextureHeader::parse(&data).unwrap();
    assert_eq!(decode_bgra4(&data, header).unwrap(), decode(&data).unwrap());
    assert!(matches!(
        decode_bgra4(&data[..83], header),
        Err(TextureError::OutOfBounds { start: 80, end: 84, len: 83 })
    ));
}

#[test]
fn five_bit_channels() {
    let red = (0x7c00u16).to_le_bytes();
    let mixed = (0x8000u16 | (1 << 10) | (16 << 5) | 31).to_le_bytes();
    let data = texture(FORMAT_BGR5A1, 1, 2, &[red[0], red[1], mixed[0], mixed[1]]);
    assert_eq!(decode(&data).unwrap(), [255, 0, 0, 0, 8, 132, 255, 255]);
    let header = TextureHeader::parse(&data).unwrap();
    assert_eq!(decode_bgr5a1(&data, header).unwrap(), decode(&data).unwrap());
    assert!(matches!(
        decode_bgr5a1(&data[..80], header),
        Err(TextureError::OutOfBounds { start: 80, end: 84, len: 80 })
    ));
}

#[test]
fn channels_are_stretched() {
    assert_eq!((scale_4bit(0), scale_4bit(1), scale_4bit(15)), (0, 17, 255));
    assert_eq!((scale_5bit(0), scale_5bit(1), scale_5bit(16), scale_5bit(31)), (0, 8, 132, 255));
    assert_eq!(scale_4bit(0xab), 0xbb);
    assert_eq!(scale_5bit(0xff), 0xff);
}

#[test]
fn packed_pixels() {
    assert_eq!(unpack_pixels(&vec![0x44332211, 0xff0080c0]), [0x33, 0x22, 0x11, 0x44, 0, 128, 192, 255]);
}

#[test]
fn block_compression_1() {
    let rgba = decode(&texture(FORMAT_BC1, 4, 4, &RED_BC1)).unwrap();
    assert_eq!(rgba, [255, 0, 0, 255].repeat(16));
    let blue_in_one_pixel = [0x1f, 0x00, 0xe0, 0x07, 0x54, 0x55, 0x55, 0x55];
    let rgba = decode(&texture(FORMAT_BC1, 2, 1, &blue_in_one_pixel)).unwrap();
    assert_eq!(rgba, [0, 0, 255, 255, 0, 255, 0, 255]);
}

#[test]
fn block_compression_3() {
    let mut block = vec![0x80, 0x80, 0, 0, 0, 0, 0, 0];
    block.extend_from_slice(&RED_BC1);
    let rgba = decode(&texture(FORMAT_BC3, 4, 4, &block)).unwrap();
    assert_eq!(rgba, [255, 0, 0, 128].repeat(16));
}

#[test]
fn block_compression_7() {
    let block: u128 = (1 << 6) | (127 << 7) | (127 << 49) | (1 << 63);
    let rgba = decode(&texture(FORMAT_BC7, 4, 4, &block.to_le_bytes())).unwrap();
    assert_eq!(rgba, [255, 1, 1, 255].repeat(16));
}

#[test]
fn blocks_are_counted_up() {
    let blocks = RED_BC1.repeat(4);
    let rgba = decode(&texture(FORMAT_BC1, 5, 5, &blocks)).unwrap();
    assert_eq!(rgba, [255, 0, 0, 255].repeat(25));
    let error = decode(&texture(FORMAT_BC1, 5, 5, &blocks[..31])).unwrap_err();
    assert!(matches!(error, TextureError::OutOfBounds { start: 80, end: 112, len: 111 }));
}

#[test]
fn an_empty_surface_takes_a_block() {
    let error = decode(&texture(FORMAT_BC1, 0, 0, &[])).unwrap_err();
    assert!(matches!(error, TextureError::OutOfBounds { start: 80, end: 88, len: 80 }));
    assert_eq!(decode(&texture(FORMAT_BC1, 0, 0, &RED_BC1)).unwrap(), []);
}

#[test]
fn block_decoder_gives_up() {
    let data = texture(FORMAT_BC1, 4, 4, &RED_BC1);
    let header = TextureHeader::parse(&data).unwrap();
    for codec in [BlockCodec::Bc1, BlockCodec::Bc3, BlockCodec::Bc7] {
        let error = decode_block_compressed(&data, header, 4, codec).unwrap_err();
        assert!(matches!(error, TextureError::Decode(_)));
        assert_eq!(
            error.message(),
            "texture decode failed: Not enough data to decode image!"
        );
    }
}

#[test]
fn webp_files() {
    let file = convert_tex_to_webp(&texture(FORMAT_BC1, 8, 4, &RED_BC1.repeat(2))).unwrap();
    assert_eq!(&file[..4], b"RIFF");
    assert_eq!(&file[8..12], b"WEBP");
    let image = webp::Decoder::new(&file).decode().unwrap();
    assert_eq!((image.width(), image.height()), (8, 4));
    assert!(image[0] > 200 && image[1] < 60 && image[2] < 60);
}

#[test]
fn webp_quality_is_50() {
    let pixels: Vec<u8> = (0..16 * 16 * 4).map(|i: u32| (i * 37 % 251) as u8).collect();
    let data = texture(FORMAT_BGRX8, 16, 16, &pixels);
    let rgba = decode(&data).unwrap();
    let expected = webp::Encoder::from_rgba(&rgba, 16, 16).encode(50.0).to_vec();
    assert_eq!(convert_tex_to_webp(&data).unwrap(), expected);
    assert_eq!(convert_tex(&data, OutputFormat::Webp).unwrap(), expected);
}

#[test]
fn what_follows_the_surface_does_not_matter() {
    let data = texture(FORMAT_BGRA8, 1, 1, &[1, 2, 3, 255]);
    let mut longer = data.clone();
    longer.extend_from_slice(&[9, 9, 9]);
    assert_eq!(convert_tex_to_webp(&data).unwrap(), convert_tex_to_webp(&longer).unwrap());
}

#[test]
fn encoder_refuses_an_empty_image() {
    let error = convert_tex_to_webp(&texture(FORMAT_BGRA8, 0, 0, &[])).unwrap_err();
    assert!(matches!(error, TextureError::EncoderRefused));
    assert_eq!(error.message(), "webp encoding failed");
    let wide = texture(FORMAT_BGRA8, 16384, 1, &[255; 65536]);
    assert!(matches!(convert_tex_to_webp(&wide), Err(TextureError::EncoderRefused)));
    let widest = texture(FORMAT_BGRA8, 16383, 1, &[255; 65536]);
    assert!(convert_tex_to_webp(&widest).is_ok());
}

#[test]
fn encoder_results() {
    assert_eq!(encoder_result(Some(vec![1, 2])).unwrap(), [1, 2]);
    assert!(matches!(encoder_result(None), Err(TextureError::EncoderRefused)));
}

#[test]
fn no_avif_files() {
    let error = convert_tex(&texture(FORMAT_BC1, 4, 4, &RED_BC1), OutputFormat::Avif).unwrap_err();
    assert!(matches!(error, TextureError::NoAvifEncoder));
    assert_eq!(error.message(), "avif encoding is not available");
    let error = convert_tex(&texture(0, 4, 4, &RED_BC1), OutputFormat::Avif).unwrap_err();
    assert!(matches!(error, TextureError::UnsupportedFormat(0)));
}
