use wie_jni::screen::{blit_frame, Rgb};

fn px(v: u8) -> Rgb {
    Rgb { r: v, g: v + 1, b: v + 2 }
}

#[test]
fn frame_fits_the_buffer() {
    let pixels = vec![px(10), px(20), px(30), px(40)];
    let mut dst = vec![0u8; 3 * 2 * 4];
    blit_frame(&mut dst, 3, 3, 2, &pixels, 2, 2);
    assert_eq!(
        dst,
        vec![
            10, 11, 12, 255, 20, 21, 22, 255, 0, 0, 0, 0, //
            30, 31, 32, 255, 40, 41, 42, 255, 0, 0, 0, 0,
        ]
    );
}

#[test]
fn frame_larger_than_buffer_is_cropped() {
    let pixels: Vec<Rgb> = (0..9).map(|i| px(i * 10)).collect();
    let mut dst = vec![7u8; 2 * 2 * 4];
    blit_frame(&mut dst, 2, 2, 2, &pixels, 3, 3);
    assert_eq!(
        dst,
        vec![0, 1, 2, 255, 10, 11, 12, 255, 30, 31, 32, 255, 40, 41, 42, 255]
    );
}

#[test]
fn pixels_past_the_end_are_skipped() {
    let pixels = vec![px(1), px(2), px(3), px(4)];
    let mut dst = vec![9u8; 10];
    blit_frame(&mut dst, 2, 2, 2, &pixels, 2, 2);
    assert_eq!(dst, vec![1, 2, 3, 255, 2, 3, 4, 255, 9, 9]);
}

#[test]
fn overlapping_lines_keep_the_lower_line() {
    let pixels = vec![px(1), px(2), px(3), px(4)];
    let mut dst = vec![0u8; 12];
    blit_frame(&mut dst, 1, 2, 2, &pixels, 2, 2);
    assert_eq!(dst, vec![1, 2, 3, 255, 3, 4, 5, 255, 4, 5, 6, 255]);
}
