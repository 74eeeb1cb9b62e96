use image_resize::{Image, ImageBufferError, InnerImage, InvalidBufferSizeError, PixelType};

fn all_pixel_types() -> Vec<PixelType> {
    vec![
        PixelType::U8,
        PixelType::U16,
        PixelType::U8x3,
        PixelType::U16x3,
        PixelType::U8x4,
        PixelType::I32,
        PixelType::F32,
    ]
}

#[test]
fn new_image_is_zero_filled() {
    let img = Image::new(3, 2, PixelType::U8x3);
    assert_eq!(img.width(), 3);
    assert_eq!(img.height(), 2);
    assert_eq!(img.pixel_type(), PixelType::U8x3);
    let bytes = img.buffer();
    assert_eq!(bytes.len(), 3 * 2 * 3);
    assert!(bytes.iter().all(|&b| b == 0));
}

#[test]
fn from_vec_u8_accepts_exact_size() {
    let img = Image::from_vec_u8(2, 2, vec![1, 2, 3, 4], PixelType::U8).unwrap();
    assert_eq!(img.buffer(), vec![1, 2, 3, 4]);
    assert_eq!(img.view().rows.len(), 2);
    assert_eq!(img.view().rows[0], vec![1, 2]);
    assert_eq!(img.view().rows[1], vec![3, 4]);
}

#[test]
fn from_vec_u8_wrong_size_fails_for_every_pixel_type() {
    for &pt in all_pixel_types().iter() {
        for &(w, h) in [(1u32, 1u32), (1, 5), (5, 5), (5, 100), (100, 100)].iter() {
            let exact = (w * h * pt.size()) as usize;
            for delta in [-1isize, 1, 7] {
                let len = exact as isize + delta;
                if len < 0 {
                    continue;
                }
                let r = Image::from_vec_u8(w, h, vec![0u8; len as usize], pt);
                assert!(matches!(r, Err(ImageBufferError::InvalidBufferSize)));
            }
        }
    }
}

#[test]
fn from_slice_u16_and_u32_wrong_size_fail_for_every_pixel_type() {
    for &pt in all_pixel_types().iter() {
        for &(w, h) in [(1u32, 1u32), (5, 5), (100, 1)].iter() {
            let byte_size = (w * h * pt.size()) as usize;
            // One element too many in each typed unit.
            let r16 = Image::from_slice_u16(w, h, &vec![0u16; byte_size / 2 + 1], pt);
            assert!(matches!(r16, Err(InvalidBufferSizeError)));
            let r32 = Image::from_slice_u32(w, h, &vec![0u32; byte_size / 4 + 1], pt);
            assert!(matches!(r32, Err(InvalidBufferSizeError)));
        }
    }
}

#[test]
fn from_vec_u32_round_trips_bytes() {
    // One u32 per U8x4 pixel, little-endian byte order.
    let img = Image::from_vec_u32(2, 1, vec![0x0403_0201, 0x0807_0605], PixelType::U8x4).unwrap();
    assert_eq!(img.buffer(), vec![1, 2, 3, 4, 5, 6, 7, 8]);
    let r = Image::from_vec_u32(2, 1, vec![0, 1, 2], PixelType::U8x4);
    assert!(matches!(r, Err(InvalidBufferSizeError)));
}

#[test]
fn from_slice_u16_decodes_u16_samples() {
    let img = Image::from_slice_u16(2, 2, &[10, 20, 30, 65535], PixelType::U16).unwrap();
    assert_eq!(img.view().rows[0], vec![10, 20]);
    assert_eq!(img.view().rows[1], vec![30, 65535]);
    assert_eq!(img.buffer(), vec![10, 0, 20, 0, 30, 0, 255, 255]);
}

#[test]
fn i32_samples_decode_signed() {
    let img = Image::from_vec_u8(1, 1, vec![0xFF, 0xFF, 0xFF, 0xFF], PixelType::I32).unwrap();
    assert_eq!(img.view().rows[0], vec![-1]);
    assert_eq!(img.buffer(), vec![0xFF, 0xFF, 0xFF, 0xFF]);
}

#[test]
fn alignment_exactly_one_of_two_consecutive_offsets_works_for_u16() {
    // Two byte windows, one byte apart, over the same storage: their base
    // addresses differ by one, so exactly one of them is 2-aligned.
    let n: usize = 4 * 3 * 2;
    let storage = vec![0u8; n + 1];
    let a = Image::from_slice_u8(4, 3, &storage[0..n], PixelType::U16);
    let b = Image::from_slice_u8(4, 3, &storage[1..n + 1], PixelType::U16);
    let ok = [a.is_ok(), b.is_ok()];
    let misaligned = [
        matches!(a, Err(ImageBufferError::InvalidBufferAlignment)),
        matches!(b, Err(ImageBufferError::InvalidBufferAlignment)),
    ];
    assert_eq!(ok.iter().filter(|&&x| x).count(), 1);
    assert_eq!(misaligned.iter().filter(|&&x| x).count(), 1);
}

#[test]
fn alignment_exactly_one_of_four_consecutive_offsets_works_for_i32() {
    let n: usize = 2 * 2 * 4;
    let storage = vec![0u8; n + 3];
    let mut ok_count = 0;
    let mut misaligned_count = 0;
    for off in 0..4 {
        match Image::from_slice_u8(2, 2, &storage[off..off + n], PixelType::I32) {
            Ok(_) => ok_count += 1,
            Err(ImageBufferError::InvalidBufferAlignment) => misaligned_count += 1,
            Err(e) => panic!("unexpected error {:?}", e),
        }
    }
    assert_eq!(ok_count, 1);
    assert_eq!(misaligned_count, 3);
}

#[test]
fn single_byte_pixel_types_never_misaligned() {
    let n: usize = 3 * 3;
    let storage = vec![7u8; n + 1];
    for off in 0..2 {
        let r = Image::from_slice_u8(3, 3, &storage[off..off + n], PixelType::U8);
        assert!(r.is_ok());
    }
}

#[test]
fn set_row_leaves_other_rows_byte_for_byte_unchanged() {
    let samples: Vec<i64> = (0..12).collect();
    let mut img = Image::from_vec_u8(
        4,
        3,
        samples.iter().map(|&s| s as u8).collect(),
        PixelType::U8,
    )
    .unwrap();
    let before = img.buffer();
    img.view_mut().set_row(1, vec![90, 91, 92, 93]);
    let after = img.buffer();
    // Row 1 fully overwritten...
    assert_eq!(&after[4..8], &[90, 91, 92, 93]);
    // ...and every byte of rows 0 and 2 unchanged.
    assert_eq!(&after[0..4], &before[0..4]);
    assert_eq!(&after[8..12], &before[8..12]);
}

#[test]
fn inner_image_rows_are_disjoint() {
    let mut inner = InnerImage::new(2, 3, PixelType::U16, vec![1, 2, 3, 4, 5, 6]);
    inner.set_row(0, vec![100, 200]);
    assert_eq!(inner.row(0), &vec![100, 200]);
    assert_eq!(inner.row(1), &vec![3, 4]);
    assert_eq!(inner.row(2), &vec![5, 6]);
}

#[test]
fn error_messages_distinguish_the_two_errors() {
    let size = ImageBufferError::InvalidBufferSize;
    let align = ImageBufferError::InvalidBufferAlignment;
    assert_eq!(size.message(), "invalid buffer size");
    assert_eq!(align.message(), "invalid buffer alignment");
    assert_ne!(size, align);
}

#[test]
fn f32_bit_patterns_survive_the_container() {
    let bits = 1.5f32.to_bits();
    let img = Image::from_vec_u32(1, 1, vec![bits], PixelType::F32).unwrap();
    assert_eq!(img.view().rows[0][0] as u32, bits);
    assert_eq!(f32::from_bits(img.view().rows[0][0] as u32), 1.5f32);
}
