use govee::frame::CapturedFrame;

/// A frame whose pixels are given row by row as (r, g, b).
fn frame(width: u32, height: u32, pixel: impl Fn(u32, u32) -> (u8, u8, u8)) -> CapturedFrame {
    let stride = width * 4;
    let mut data = Vec::new();
    for row in 0..height {
        for col in 0..width {
            let (r, g, b) = pixel(row, col);
            data.extend_from_slice(&[b, g, r, 0]);
        }
    }
    CapturedFrame { width, height, stride, data }
}

#[test]
fn uniform_halves() {
    let f = frame(8, 4, |_, col| if col < 4 { (200, 10, 10) } else { (10, 10, 200) });
    assert!(f.sampling_fits_check(2));
    assert_eq!(f.extract_segment_colors(2), vec![(200, 10, 10), (10, 10, 200)]);
}

#[test]
fn zero_segments_means_one() {
    let f = frame(8, 8, |_, _| (50, 60, 70));
    assert_eq!(f.extract_segment_colors(0), vec![(50, 60, 70)]);
}

#[test]
fn too_narrow_strips_are_black() {
    let f = frame(3, 4, |_, _| (255, 255, 255));
    assert_eq!(f.extract_segment_colors(4), vec![(0, 0, 0); 4]);
}

#[test]
fn brightest_fifth_wins() {
    // One sampled row (row 0) with five samples at columns 0, 4, ..., 16:
    // four dark and one bright; the brightest fifth is the bright one.
    let f = frame(20, 1, |_, col| if col == 8 { (250, 250, 250) } else { (5, 5, 5) });
    assert_eq!(f.extract_segment_colors(1), vec![(250, 250, 250)]);
}

#[test]
fn last_strip_takes_the_remainder() {
    // Width 10 into 3 strips of 3 columns; sampled columns 0, 4, 8 fall in
    // strips 0, 1 and 2 (the last also covers column 9).
    let f = frame(10, 1, |_, col| match col {
        0 => (10, 0, 0),
        4 => (0, 20, 0),
        8 => (0, 0, 30),
        _ => (0, 0, 0),
    });
    assert_eq!(f.extract_segment_colors(3), vec![(10, 0, 0), (0, 20, 0), (0, 0, 30)]);
}

#[test]
fn short_data_skips_missing_pixels() {
    let mut f = frame(8, 1, |_, _| (100, 100, 100));
    f.data.truncate(16);
    assert_eq!(f.extract_segment_colors(2), vec![(100, 100, 100), (0, 0, 0)]);
}

#[test]
fn oversized_frames_fail_the_size_check() {
    let wide = CapturedFrame { width: u32::MAX - 3, height: 1, stride: 0, data: Vec::new() };
    assert!(!wide.sampling_fits_check(1));
    let far = CapturedFrame { width: 1, height: 70_000, stride: 70_000, data: Vec::new() };
    assert!(!far.sampling_fits_check(1));
    let edge = CapturedFrame { width: 16, height: 16, stride: 64, data: Vec::new() };
    assert!(edge.sampling_fits_check(3));
}
