use bin_img_conv::{
    ceil_sqrt_u128, decode, encode, pack, samples_to_be_bytes, unpack, unpack_stream, Bin, CodecError, Img,
    LowMemoryReadableVec, PackLayout, PackedImage, PixelFormat, WritableRcRefCellVec,
};

fn all_formats() -> Vec<PixelFormat> {
    let mut v = Vec::new();
    for depth in [8u8, 16] {
        for channels in 1u8..=4 {
            v.push(PixelFormat::new(depth, channels).unwrap());
        }
    }
    v
}

fn pseudo_random(n: usize, seed: u32) -> Vec<u8> {
    let mut x = seed;
    let mut v = Vec::with_capacity(n);
    for _ in 0..n {
        x = x.wrapping_mul(1_103_515_245).wrapping_add(12_345);
        v.push((x >> 16) as u8);
    }
    v
}

fn filler_for(layout: &PackLayout) -> Vec<u8> {
    pseudo_random(layout.padding, 7)
}

#[test]
fn format_rejects_depth_four_and_five_channels() {
    assert_eq!(PixelFormat::new(4, 3), Err(CodecError::UnsupportedFormat));
    assert_eq!(PixelFormat::new(8, 5), Err(CodecError::UnsupportedFormat));
    assert_eq!(PixelFormat::new(8, 0), Err(CodecError::UnsupportedFormat));
    let bad = PixelFormat { bit_depth: 4, color_channels: 3 };
    assert_eq!(bad.encode_metadata(), Err(CodecError::UnsupportedFormat));
    let bad = PixelFormat { bit_depth: 8, color_channels: 5 };
    assert_eq!(bad.encode_metadata(), Err(CodecError::UnsupportedFormat));
}

#[test]
fn plan_rejects_format_before_geometry() {
    let bad = PixelFormat { bit_depth: 4, color_channels: 3 };
    assert_eq!(PackLayout::plan(usize::MAX, bad), Err(CodecError::UnsupportedFormat));
    let bad = PixelFormat { bit_depth: 16, color_channels: 5 };
    assert_eq!(PackLayout::plan(0, bad), Err(CodecError::UnsupportedFormat));
    let bin = Bin { compressed: vec![1, 2, 3], format: bad };
    assert!(matches!(bin.to_packed(), Err(CodecError::UnsupportedFormat)));
    assert!(matches!(bin.to_img(), Err(CodecError::UnsupportedFormat)));
}

#[test]
fn metadata_bytes_follow_the_wire_codes() {
    let f = |d, c| PixelFormat::new(d, c).unwrap().encode_metadata().unwrap();
    assert_eq!(f(8, 1), 64);
    assert_eq!(f(8, 3), 66);
    assert_eq!(f(8, 2), 68);
    assert_eq!(f(8, 4), 70);
    assert_eq!(f(16, 1), 128);
    assert_eq!(f(16, 3), 130);
    assert_eq!(f(16, 2), 132);
    assert_eq!(f(16, 4), 134);
}

#[test]
fn metadata_round_trips_for_every_format() {
    for f in all_formats() {
        let b = f.encode_metadata().unwrap();
        assert_eq!(PixelFormat::decode_metadata(b), Ok(f));
    }
}

#[test]
fn metadata_decoding_rejects_unknown_codes() {
    assert_eq!(PixelFormat::decode_metadata(65), Err(CodecError::UnsupportedFormat));
    assert_eq!(PixelFormat::decode_metadata(71), Err(CodecError::UnsupportedFormat));
    assert_eq!(PixelFormat::decode_metadata(2), Err(CodecError::UnsupportedFormat));
    assert_eq!(PixelFormat::decode_metadata(0), Err(CodecError::UnsupportedFormat));
    assert_eq!(PixelFormat::decode_metadata(255), Err(CodecError::UnsupportedFormat));
}

#[test]
fn format_sizes() {
    let rgb16 = PixelFormat::new(16, 3).unwrap();
    assert_eq!(rgb16.bytes_per_pixel(), 6);
    assert_eq!(rgb16.bytes_per_channel(), 2);
    let ga8 = PixelFormat::new(8, 2).unwrap();
    assert_eq!(ga8.bytes_per_pixel(), 2);
    assert_eq!(ga8.colors_per_pixel_except_alpha(), Ok(1));
    assert_eq!(ga8.color_type_code(), Ok(4));
}

#[test]
fn metadata_pixel_layout() {
    let rgba16 = PixelFormat::new(16, 4).unwrap();
    assert_eq!(rgba16.metadata_pixel_bytes(), vec![134, 134, 134, 134, 134, 134, 255, 255]);
    let gray8 = PixelFormat::new(8, 1).unwrap();
    assert_eq!(gray8.metadata_pixel_bytes(), vec![64]);
    let ga8 = PixelFormat::new(8, 2).unwrap();
    assert_eq!(ga8.metadata_pixel_bytes(), vec![68, 255]);
    let rgb16 = PixelFormat::new(16, 3).unwrap();
    assert_eq!(rgb16.metadata_pixel_bytes(), vec![130; 6]);
}

#[test]
fn ceil_sqrt_exact_values() {
    assert_eq!(ceil_sqrt_u128(0), 0);
    assert_eq!(ceil_sqrt_u128(1), 1);
    assert_eq!(ceil_sqrt_u128(2), 2);
    assert_eq!(ceil_sqrt_u128(4), 2);
    assert_eq!(ceil_sqrt_u128(5), 3);
    assert_eq!(ceil_sqrt_u128(340), 19);
    let r: u128 = (1 << 53) + 1;
    assert_eq!(ceil_sqrt_u128(r * r), r);
    assert_eq!(ceil_sqrt_u128(r * r + 1), r + 1);
    assert_eq!(ceil_sqrt_u128(u128::MAX), 1 << 64);
}

#[test]
fn scenario_empty_payload_rgba16() {
    let rgba16 = PixelFormat::new(16, 4).unwrap();
    let layout = PackLayout::plan(0, rgba16).unwrap();
    // 8 bytes per pixel: 16 bytes of length field fill 2 pixels, plus the metadata
    // pixel make 3, and the least square holding 3 is 2 by 2.
    assert_eq!(layout.side, 2);
    assert_eq!(layout.padding, 8);
    let payload: Vec<u8> = Vec::new();
    let packed = pack(&payload, &layout, &filler_for(&layout));
    assert_eq!(packed.pixels.len(), 32);
    assert_eq!(unpack(&packed.pixels, rgba16), Ok(Vec::new()));

    let bin = Bin::new(&Vec::new()).unwrap();
    assert!(bin.compressed.len() >= 13);
    let packed = bin.to_packed().unwrap();
    let back = Bin::from_stream(&packed.pixels).unwrap();
    assert_eq!(back.decompress(), Ok(Vec::new()));
}

#[test]
fn scenario_thousand_bytes_rgb8() {
    let rgb8 = PixelFormat::new(8, 3).unwrap();
    let layout = PackLayout::plan(1000, rgb8).unwrap();
    let pre = layout.padding % 3;
    assert!(pre <= 2);
    assert_eq!((1000 + 16 + pre) % 3, 0);
    assert_eq!(pre, 1);
    assert_eq!(layout.side, 19);
    assert_eq!(layout.padding, 64);

    let payload = pseudo_random(1000, 42);
    let packed = pack(&payload, &layout, &filler_for(&layout));
    assert_eq!(packed.pixels.len(), 19 * 19 * 3);
    assert_eq!(unpack(&packed.pixels, rgb8), Ok(payload.clone()));

    let mut bin = Bin::new(&payload).unwrap();
    bin.format = rgb8;
    let img = bin.to_img().unwrap();
    let back = img.to_bin().unwrap();
    assert_eq!(back.format, PixelFormat::new(16, 4).unwrap());
    assert_eq!(back.decompress(), Ok(payload));
}

#[test]
fn scenario_no_pre_padding_still_reserves_metadata_pixel() {
    let rgb8 = PixelFormat::new(8, 3).unwrap();
    // 2 + 16 = 18 bytes fill 6 pixels exactly; with the metadata pixel 7, so the
    // square is 3 by 3 and two more pixels of padding are added.
    let layout = PackLayout::plan(2, rgb8).unwrap();
    assert_eq!(layout.side, 3);
    assert_eq!(layout.padding, 6);
    let rgba8 = PixelFormat::new(8, 4).unwrap();
    // 20 + 16 = 36 bytes fill 9 pixels; with the metadata pixel 10, so 4 by 4.
    let layout = PackLayout::plan(20, rgba8).unwrap();
    assert_eq!(layout.side, 4);
    assert_eq!(layout.padding, 24);
}

#[test]
fn plan_fills_the_square_exactly() {
    for f in all_formats() {
        let bpp = f.bytes_per_pixel() as u128;
        for len in [0usize, 1, 7, 100, 1000, 65_537, 1 << 40] {
            let l = PackLayout::plan(len, f).unwrap();
            let side = l.side as u128;
            assert_eq!(side * side * bpp, bpp + 16 + len as u128 + l.padding as u128);
            let pre = (l.padding as u128) % bpp;
            assert_eq!((len as u128 + 16 + pre) % bpp, 0);
            let min = (len as u128 + 16 + pre) / bpp + 1;
            assert!(side * side >= min);
            assert!((side - 1) * (side - 1) < min);
        }
    }
}

#[test]
fn plan_reports_overflow_for_huge_payloads() {
    let gray8 = PixelFormat::new(8, 1).unwrap();
    assert_eq!(PackLayout::plan(usize::MAX, gray8), Err(CodecError::ArithmeticOverflow));
}

#[test]
fn packed_stream_layout() {
    let gray8 = PixelFormat::new(8, 1).unwrap();
    let payload = vec![9u8, 8, 7];
    let layout = PackLayout::plan(payload.len(), gray8).unwrap();
    // 3 + 16 = 19 bytes, plus one metadata pixel: 20, so a 5 by 5 square.
    assert_eq!(layout.side, 5);
    assert_eq!(layout.padding, 5);
    let filler = vec![0xEE; 5];
    let packed = pack(&payload, &layout, &filler);
    let mut expected = vec![64u8];
    expected.extend_from_slice(&[0; 15]);
    expected.push(5);
    expected.extend_from_slice(&payload);
    expected.extend_from_slice(&filler);
    assert_eq!(packed.pixels, expected);
    assert_eq!(unpack_stream(&packed.pixels), Ok(payload));
}

#[test]
fn round_trip_every_format() {
    for f in all_formats() {
        for n in [0usize, 1, 5, 300] {
            let data = pseudo_random(n, n as u32 + 3);
            let mut bin = Bin::new(&data).unwrap();
            bin.format = f;
            let packed = bin.to_packed().unwrap();
            assert_eq!(packed.side as usize * packed.side as usize * f.bytes_per_pixel() as usize, packed.pixels.len());
            let back = Bin::from_stream(&packed.pixels).unwrap();
            assert_eq!(back.format, PixelFormat::new(16, 4).unwrap());
            assert_eq!(back.compressed, bin.compressed);
            assert_eq!(back.decompress(), Ok(data));
        }
    }
}

#[test]
fn round_trip_through_png_every_format() {
    for f in all_formats() {
        let data = pseudo_random(777, 11);
        let mut bin = Bin::new(&data).unwrap();
        bin.format = f;
        let img = bin.to_img().unwrap();
        assert_eq!(&img.as_bytes()[0..8], &[137u8, 80, 78, 71, 13, 10, 26, 10]);
        let back = img.to_bin().unwrap();
        assert_eq!(back.format, PixelFormat::new(16, 4).unwrap());
        assert_eq!(back.decompress(), Ok(data));
    }
}

#[test]
fn truncated_streams_are_rejected() {
    for f in all_formats() {
        let bin = Bin { compressed: pseudo_random(40, 5), format: f };
        let packed = bin.to_packed().unwrap();
        let bpp = f.bytes_per_pixel() as usize;
        for n in 0..=(bpp + 16) {
            let cut = packed.pixels[0..n].to_vec();
            assert_eq!(unpack(&cut, f), Err(CodecError::TruncatedData));
            assert_eq!(unpack_stream(&cut), Err(CodecError::TruncatedData));
        }
    }
}

#[test]
fn padding_longer_than_stream_is_truncated_data() {
    let gray8 = PixelFormat::new(8, 1).unwrap();
    let mut pixels = vec![64u8];
    pixels.extend_from_slice(&[0; 15]);
    pixels.push(10);
    pixels.extend_from_slice(&[1, 2, 3]);
    assert_eq!(unpack(&pixels, gray8), Err(CodecError::TruncatedData));
    pixels[16] = 3;
    assert_eq!(unpack(&pixels, gray8), Ok(Vec::new()));
    pixels[16] = 1;
    assert_eq!(unpack(&pixels, gray8), Ok(vec![1, 2]));
}

#[test]
fn empty_payload_without_padding_reads_as_truncated() {
    // Two bytes per pixel: 16 bytes are 8 pixels, with the metadata pixel 9 = 3 by 3,
    // so no padding at all and the stream is exactly one pixel and sixteen bytes.
    let gray16 = PixelFormat::new(16, 1).unwrap();
    let layout = PackLayout::plan(0, gray16).unwrap();
    assert_eq!(layout.side, 3);
    assert_eq!(layout.padding, 0);
    let packed = pack(&Vec::new(), &layout, &Vec::new());
    assert_eq!(unpack(&packed.pixels, gray16), Err(CodecError::TruncatedData));
}

#[test]
fn unpack_with_invalid_format_is_unsupported() {
    let bad = PixelFormat { bit_depth: 16, color_channels: 7 };
    assert_eq!(unpack(&vec![0; 100], bad), Err(CodecError::UnsupportedFormat));
    let mut pixels = vec![0x41u8];
    pixels.extend_from_slice(&[0; 40]);
    assert_eq!(unpack_stream(&pixels), Err(CodecError::UnsupportedFormat));
}

#[test]
fn sixteen_bit_samples_are_big_endian() {
    assert_eq!(samples_to_be_bytes(&vec![0x1234, 0xABCD, 0x00FF]), vec![0x12, 0x34, 0xAB, 0xCD, 0x00, 0xFF]);
    assert_eq!(samples_to_be_bytes(&Vec::new()), Vec::<u8>::new());
}

#[test]
fn compression_changes_the_bytes_and_restores_them() {
    let data = vec![5u8; 4000];
    let bin = Bin::new(&data).unwrap();
    assert_ne!(bin.compressed, data);
    assert!(bin.compressed.len() >= 13);
    assert_eq!(bin.decompress(), Ok(data));
}

#[test]
fn malformed_compressed_payload_is_compression_error() {
    let bin = Bin::new_raw(vec![0xFF; 4]);
    assert_eq!(bin.decompress(), Err(CodecError::CompressionError));
}

#[test]
fn non_image_bytes_are_image_error() {
    let img = Img::new(vec![1, 2, 3, 4, 5]);
    assert!(matches!(img.to_bin(), Err(CodecError::ImageError)));
}

#[test]
fn image_with_unknown_metadata_is_unsupported() {
    let gray8 = PixelFormat::new(8, 1).unwrap();
    let packed = PackedImage { side: 1, format: gray8, pixels: vec![0] };
    let img = packed.to_img().unwrap();
    assert!(matches!(img.to_bin(), Err(CodecError::UnsupportedFormat)));
}

#[test]
fn image_with_too_few_pixels_is_truncated() {
    let gray8 = PixelFormat::new(8, 1).unwrap();
    let packed = PackedImage { side: 2, format: gray8, pixels: vec![64, 0, 0, 0] };
    let img = packed.to_img().unwrap();
    assert!(matches!(img.to_bin(), Err(CodecError::TruncatedData)));
}

#[test]
fn png_encoding_rejects_wrong_pixel_count() {
    let gray8 = PixelFormat::new(8, 1).unwrap();
    let packed = PackedImage { side: 2, format: gray8, pixels: vec![64, 0, 0] };
    assert!(matches!(packed.to_img(), Err(CodecError::ImageError)));
}

#[test]
fn img_accessors() {
    let img = Img::new(vec![1, 2, 3]);
    assert_eq!(img.as_bytes(), &vec![1, 2, 3]);
    assert_eq!(img.into_inner(), vec![1, 2, 3]);
    let bin = Bin::new_raw(vec![4, 5]);
    assert_eq!(bin.format, PixelFormat::new(16, 4).unwrap());
    assert_eq!(bin.compressed, vec![4, 5]);
}

#[test]
fn readable_vec_hands_out_bytes_in_order() {
    let mut src = LowMemoryReadableVec::from_vec(vec![1, 2, 3, 4, 5]);
    assert_eq!(src.remaining(), 5);
    let mut buf = vec![0u8; 2];
    assert_eq!(src.read(&mut buf), 2);
    assert_eq!(buf, vec![1, 2]);
    let mut buf = vec![9u8; 5];
    assert_eq!(src.read(&mut buf), 3);
    assert_eq!(buf, vec![3, 4, 5, 9, 9]);
    assert_eq!(src.remaining(), 0);
    assert_eq!(src.read(&mut buf), 0);
}

#[test]
fn writable_vec_appends() {
    let mut sink = WritableRcRefCellVec::new();
    assert_eq!(sink.write(&vec![1, 2]), 2);
    assert_eq!(sink.write(&vec![]), 0);
    assert_eq!(sink.write(&vec![3]), 1);
    sink.flush();
    assert_eq!(sink.into_inner(), vec![1, 2, 3]);
}

#[test]
fn packed_image_with_invalid_format_is_unsupported() {
    let bad = PixelFormat { bit_depth: 4, color_channels: 1 };
    let packed = PackedImage { side: 1, format: bad, pixels: vec![0] };
    assert!(matches!(packed.to_img(), Err(CodecError::UnsupportedFormat)));
}

#[test]
fn facade_round_trips_every_format() {
    for f in all_formats() {
        for n in [0usize, 1, 1000] {
            let data = pseudo_random(n, 99);
            let image = encode(&data, f).unwrap();
            assert_eq!(decode(&image), Ok(data));
        }
    }
}

#[test]
fn facade_errors() {
    let bad = PixelFormat { bit_depth: 4, color_channels: 3 };
    assert_eq!(encode(&vec![1, 2, 3], bad), Err(CodecError::UnsupportedFormat));
    assert_eq!(decode(&vec![1, 2, 3]), Err(CodecError::ImageError));
}

#[test]
fn format_from_color_code() {
    assert_eq!(PixelFormat::from_code(8, 0), PixelFormat::new(8, 1));
    assert_eq!(PixelFormat::from_code(16, 4), PixelFormat::new(16, 2));
    assert_eq!(PixelFormat::from_code(8, 2), PixelFormat::new(8, 3));
    assert_eq!(PixelFormat::from_code(16, 6), PixelFormat::new(16, 4));
    assert_eq!(PixelFormat::from_code(8, 3), Err(CodecError::UnsupportedFormat));
    assert_eq!(PixelFormat::from_code(4, 0), Err(CodecError::UnsupportedFormat));
}

#[test]
fn packed_image_with_mismatched_size_is_image_error() {
    let rgba16 = PixelFormat::new(16, 4).unwrap();
    let huge = PackedImage { side: u32::MAX, format: rgba16, pixels: Vec::new() };
    assert!(matches!(huge.to_img(), Err(CodecError::ImageError)));
    let empty = PackedImage { side: 0, format: rgba16, pixels: Vec::new() };
    assert!(matches!(empty.to_img(), Err(CodecError::ImageError)));
}

#[test]
fn short_compressed_payload_fails_to_decompress() {
    let bin = Bin::new_raw(vec![0x5D, 0, 0]);
    assert_eq!(bin.decompress(), Err(CodecError::CompressionError));
}
