use image_resize::coefficients::{Coefficients, CoefficientsChunk, WEIGHT_ONE};
use image_resize::convolution::{horiz_convolution, vert_convolution};
use image_resize::{CpuExtensions, InnerImage, PixelType};

fn identity_coefficients(n: u32) -> Coefficients {
    let mut chunks = Vec::new();
    for d in 0..n {
        chunks.push(CoefficientsChunk { start: d, values: vec![WEIGHT_ONE] });
    }
    Coefficients { chunks }
}

fn box3_coefficients(src_len: u32) -> Coefficients {
    // A 3-tap uniform box filter, truncated against the source borders.
    let third = WEIGHT_ONE / 3;
    let mut chunks = Vec::new();
    for d in 0..src_len {
        let start = d.saturating_sub(1);
        let stop = (d + 2).min(src_len);
        let values = vec![third; (stop - start) as usize];
        chunks.push(CoefficientsChunk { start, values });
    }
    Coefficients { chunks }
}

fn image_from(width: u32, height: u32, pt: PixelType, samples: Vec<i64>) -> InnerImage {
    InnerImage::new(width, height, pt, samples)
}

#[test]
fn identity_resize_reproduces_integer_images_exactly() {
    let samples: Vec<i64> = vec![0, 255, 17, 3, 128, 200];
    let src = image_from(3, 2, PixelType::U8, samples.clone());
    let mut dst = image_from(3, 2, PixelType::U8, vec![0; 6]);
    horiz_convolution(&src, &mut dst, 0, &identity_coefficients(3), CpuExtensions::Scalar);
    assert_eq!(dst.rows, src.rows);

    let mut dst_v = image_from(3, 2, PixelType::U8, vec![0; 6]);
    vert_convolution(&src, &mut dst_v, &identity_coefficients(2), CpuExtensions::Scalar);
    assert_eq!(dst_v.rows, src.rows);
}

#[test]
fn identity_resize_is_exact_for_signed_samples() {
    let samples: Vec<i64> = vec![-5, 2_000_000_000, -2_000_000_000, 0];
    let src = image_from(2, 2, PixelType::I32, samples);
    let mut dst = image_from(2, 2, PixelType::I32, vec![0; 4]);
    horiz_convolution(&src, &mut dst, 0, &identity_coefficients(2), CpuExtensions::Scalar);
    assert_eq!(dst.rows, src.rows);
}

#[test]
fn box_filter_interior_tap_averages_neighbours() {
    // Source row [0, 3, 6, 9, 12]; at interior destination index 2 the box
    // window starts at source index 1 and averages (3 + 6 + 9) / 3 = 6.
    let src = image_from(5, 1, PixelType::I32, vec![0, 3, 6, 9, 12]);
    let coeffs = box3_coefficients(5);
    assert_eq!(coeffs.chunks[2].start, 1);
    let mut dst = image_from(5, 1, PixelType::I32, vec![0; 5]);
    horiz_convolution(&src, &mut dst, 0, &coeffs, CpuExtensions::Scalar);
    assert_eq!(dst.rows[0][2], 6);
}

#[test]
fn acceleration_preference_never_changes_the_result() {
    let src = image_from(5, 2, PixelType::U16, vec![9, 1, 4, 60000, 17, 2, 8, 16, 32, 64]);
    let coeffs = box3_coefficients(5);
    let mut scalar = image_from(5, 2, PixelType::U16, vec![0; 10]);
    horiz_convolution(&src, &mut scalar, 0, &coeffs, CpuExtensions::Scalar);
    for cpu in [CpuExtensions::Sse4_1, CpuExtensions::Avx2] {
        let mut other = image_from(5, 2, PixelType::U16, vec![0; 10]);
        horiz_convolution(&src, &mut other, 0, &coeffs, cpu);
        assert_eq!(other.rows, scalar.rows);
    }
}

#[test]
fn horizontal_offset_selects_source_rows() {
    let src = image_from(2, 3, PixelType::U8, vec![1, 2, 3, 4, 5, 6]);
    let mut dst = image_from(2, 2, PixelType::U8, vec![0; 4]);
    horiz_convolution(&src, &mut dst, 1, &identity_coefficients(2), CpuExtensions::Scalar);
    assert_eq!(dst.rows[0], vec![3, 4]);
    assert_eq!(dst.rows[1], vec![5, 6]);
}

fn transpose(img: &InnerImage, pt: PixelType, ch: usize) -> InnerImage {
    let w = img.width as usize;
    let h = img.height as usize;
    let mut samples: Vec<i64> = Vec::with_capacity(w * h * ch);
    for j in 0..w {
        for i in 0..h {
            for c in 0..ch {
                samples.push(img.rows[i][j * ch + c]);
            }
        }
    }
    InnerImage::new(img.height, img.width, pt, samples)
}

#[test]
fn vertical_on_transposed_equals_horizontal() {
    let pt = PixelType::U8;
    let src = image_from(
        4,
        3,
        pt,
        vec![10, 20, 30, 40, 50, 60, 70, 80, 90, 100, 110, 120],
    );
    let coeffs = box3_coefficients(4);

    let mut direct = image_from(4, 3, pt, vec![0; 12]);
    horiz_convolution(&src, &mut direct, 0, &coeffs, CpuExtensions::Scalar);

    let transposed = transpose(&src, pt, 1);
    let mut vert = image_from(3, 4, pt, vec![0; 12]);
    vert_convolution(&transposed, &mut vert, &coeffs, CpuExtensions::Scalar);
    let back = transpose(&vert, pt, 1);

    assert_eq!(back.rows, direct.rows);
}

#[test]
fn vertical_on_transposed_equals_horizontal_multichannel() {
    let pt = PixelType::U8x3;
    let samples: Vec<i64> = (0..2 * 2 * 3).map(|v| (v * 17) % 256).collect();
    let src = image_from(2, 2, pt, samples);
    let coeffs = box3_coefficients(2);

    let mut direct = image_from(2, 2, pt, vec![0; 12]);
    horiz_convolution(&src, &mut direct, 0, &coeffs, CpuExtensions::Scalar);

    let transposed = transpose(&src, pt, 3);
    let mut vert = image_from(2, 2, pt, vec![0; 12]);
    vert_convolution(&transposed, &mut vert, &coeffs, CpuExtensions::Scalar);
    let back = transpose(&vert, pt, 3);

    assert_eq!(back.rows, direct.rows);
}

fn extract_channel(img: &InnerImage, ch: usize, c: usize, single: PixelType) -> InnerImage {
    let mut samples = Vec::new();
    for row in img.rows.iter() {
        for d in 0..(row.len() / ch) {
            samples.push(row[d * ch + c]);
        }
    }
    InnerImage::new(img.width, img.height, single, samples)
}

#[test]
fn three_channel_resize_is_channel_independent() {
    let pt = PixelType::U8x3;
    let samples: Vec<i64> = (0..4 * 2 * 3).map(|v| (v * 31) % 256).collect();
    let src = image_from(4, 2, pt, samples);
    let coeffs = box3_coefficients(4);

    let mut full = image_from(4, 2, pt, vec![0; 24]);
    horiz_convolution(&src, &mut full, 0, &coeffs, CpuExtensions::Scalar);

    // Resize each channel on its own and recompose.
    let mut recomposed = vec![vec![0i64; 12]; 2];
    for c in 0..3 {
        let single = extract_channel(&src, 3, c, PixelType::U8);
        let mut single_dst = image_from(4, 2, PixelType::U8, vec![0; 8]);
        horiz_convolution(&single, &mut single_dst, 0, &coeffs, CpuExtensions::Scalar);
        for r in 0..2 {
            for d in 0..4 {
                recomposed[r][d * 3 + c] = single_dst.rows[r][d];
            }
        }
    }
    assert_eq!(full.rows, recomposed);
}

#[test]
fn four_channel_resize_is_channel_independent() {
    let pt = PixelType::U8x4;
    let samples: Vec<i64> = (0..3 * 1 * 4).map(|v| (v * 53) % 256).collect();
    let src = image_from(3, 1, pt, samples);
    let coeffs = box3_coefficients(3);

    let mut full = image_from(3, 1, pt, vec![0; 12]);
    horiz_convolution(&src, &mut full, 0, &coeffs, CpuExtensions::Scalar);

    let mut recomposed = vec![vec![0i64; 12]; 1];
    for c in 0..4 {
        let single = extract_channel(&src, 4, c, PixelType::U8);
        let mut single_dst = image_from(3, 1, PixelType::U8, vec![0; 3]);
        horiz_convolution(&single, &mut single_dst, 0, &coeffs, CpuExtensions::Scalar);
        for d in 0..3 {
            recomposed[0][d * 4 + c] = single_dst.rows[0][d];
        }
    }
    assert_eq!(full.rows, recomposed);
}

#[test]
fn integer_output_rounds_to_nearest() {
    // One destination pixel, weights [1/2, 1/2] over samples [1, 2]:
    // the exact value 1.5 rounds away from zero to 2.
    let half = WEIGHT_ONE / 2;
    let src = image_from(2, 1, PixelType::U8, vec![1, 2]);
    let coeffs = Coefficients {
        chunks: vec![CoefficientsChunk { start: 0, values: vec![half, half] }],
    };
    let mut dst = image_from(1, 1, PixelType::U8, vec![0]);
    horiz_convolution(&src, &mut dst, 0, &coeffs, CpuExtensions::Scalar);
    assert_eq!(dst.rows[0][0], 2);
}

#[test]
fn integer_output_clamps_to_the_encoding_range() {
    // A weight of 2.0 on a large sample overflows a u8: the result clamps.
    let src = image_from(1, 1, PixelType::U8, vec![200]);
    let coeffs = Coefficients {
        chunks: vec![CoefficientsChunk { start: 0, values: vec![2 * WEIGHT_ONE] }],
    };
    let mut dst = image_from(1, 1, PixelType::U8, vec![0]);
    horiz_convolution(&src, &mut dst, 0, &coeffs, CpuExtensions::Scalar);
    assert_eq!(dst.rows[0][0], 255);

    // A negative weight underflows: the result clamps to zero.
    let coeffs_neg = Coefficients {
        chunks: vec![CoefficientsChunk { start: 0, values: vec![-WEIGHT_ONE] }],
    };
    let mut dst2 = image_from(1, 1, PixelType::U8, vec![0]);
    horiz_convolution(&src, &mut dst2, 0, &coeffs_neg, CpuExtensions::Scalar);
    assert_eq!(dst2.rows[0][0], 0);
}

#[test]
fn coefficients_fit_checks_every_window() {
    let coeffs = box3_coefficients(5);
    assert!(coeffs.fits(5));
    assert!(!coeffs.fits(4));
    assert_eq!(coeffs.get_chunks().len(), 5);
    let out_of_range = Coefficients {
        chunks: vec![CoefficientsChunk { start: 3, values: vec![WEIGHT_ONE, WEIGHT_ONE] }],
    };
    assert!(!out_of_range.fits(4));
    assert!(out_of_range.fits(5));
}

#[test]
fn vertical_box_filter_on_a_column() {
    // One column [0, 3, 6, 9, 12]; destination row 2's window starts at
    // source row 1 and averages (3 + 6 + 9) / 3 = 6.
    let src = image_from(1, 5, PixelType::I32, vec![0, 3, 6, 9, 12]);
    let coeffs = box3_coefficients(5);
    let mut dst = image_from(1, 5, PixelType::I32, vec![0; 5]);
    vert_convolution(&src, &mut dst, &coeffs, CpuExtensions::Scalar);
    assert_eq!(dst.rows[2][0], 6);
}
