use streamio::yuv::{chroma_u_of, chroma_v_of, luma_of, Yuv420Buffer};

fn solid(width: usize, height: usize, r: u8, g: u8, b: u8) -> Vec<u8> {
    let mut frame = Vec::new();
    for _ in 0..width * height {
        frame.push(r);
        frame.push(g);
        frame.push(b);
        frame.push(255);
    }
    frame
}

fn reference_luma(r: u8, g: u8, b: u8) -> u8 {
    let (r, g, b) = (r as i32, g as i32, b as i32);
    (((66 * r + 129 * g + 25 * b + 128) >> 8) + 16).clamp(0, 255) as u8
}

fn reference_u(r: u8, g: u8, b: u8) -> u8 {
    let (r, g, b) = (r as i32, g as i32, b as i32);
    (((-38 * r - 74 * g + 112 * b + 128) >> 8) + 128).clamp(0, 255) as u8
}

fn reference_v(r: u8, g: u8, b: u8) -> u8 {
    let (r, g, b) = (r as i32, g as i32, b as i32);
    (((112 * r - 94 * g - 18 * b + 128) >> 8) + 128).clamp(0, 255) as u8
}

#[test]
fn new_buffer_is_black_with_neutral_chroma() {
    let buf = Yuv420Buffer::new(4, 2);
    assert_eq!(buf.dimensions(), (4, 2));
    assert_eq!(buf.strides(), (4, 2, 2));
    assert_eq!(buf.y(), &[0u8; 8][..]);
    assert_eq!(buf.u(), &[128u8; 2][..]);
    assert_eq!(buf.v(), &[128u8; 2][..]);
}

#[test]
fn new_buffer_of_no_pixels_is_empty() {
    let buf = Yuv420Buffer::new(0, 0);
    assert_eq!(buf.dimensions(), (0, 0));
    assert!(buf.y().is_empty());
    assert!(buf.u().is_empty());
    assert!(buf.v().is_empty());
}

#[test]
fn new_buffer_with_odd_size_rounds_chroma_down() {
    let buf = Yuv420Buffer::new(3, 3);
    assert_eq!(buf.y().len(), 9);
    assert_eq!(buf.u().len(), 2);
    assert_eq!(buf.v().len(), 2);
    assert_eq!(buf.strides(), (3, 1, 1));
}

#[test]
fn white_frame_converts_to_studio_white() {
    let buf = Yuv420Buffer::from_rgba(&solid(2, 2, 255, 255, 255), 2, 2);
    assert_eq!(buf.y(), &[235u8; 4][..]);
    assert_eq!(buf.u(), &[128u8][..]);
    assert_eq!(buf.v(), &[128u8][..]);
}

#[test]
fn black_frame_converts_to_studio_black() {
    let buf = Yuv420Buffer::from_rgba(&solid(2, 2, 0, 0, 0), 2, 2);
    assert_eq!(buf.y(), &[16u8; 4][..]);
    assert_eq!(buf.u(), &[128u8][..]);
    assert_eq!(buf.v(), &[128u8][..]);
}

#[test]
fn primary_colours_convert_by_the_bt601_formulas() {
    let red = Yuv420Buffer::from_rgba(&solid(2, 2, 255, 0, 0), 2, 2);
    assert_eq!((red.y()[0], red.u()[0], red.v()[0]), (82, 90, 240));
    let green = Yuv420Buffer::from_rgba(&solid(2, 2, 0, 255, 0), 2, 2);
    assert_eq!((green.y()[0], green.u()[0], green.v()[0]), (144, 54, 34));
    let blue = Yuv420Buffer::from_rgba(&solid(2, 2, 0, 0, 255), 2, 2);
    assert_eq!((blue.y()[0], blue.u()[0], blue.v()[0]), (41, 240, 110));
}

#[test]
fn single_pixel_functions_match_the_shift_formulas_everywhere() {
    let mut r: u32 = 0;
    while r < 256 {
        let mut g: u32 = 0;
        while g < 256 {
            let mut b: u32 = 0;
            while b < 256 {
                let (r8, g8, b8) = (r as u8, g as u8, b as u8);
                assert_eq!(luma_of(r8, g8, b8), reference_luma(r8, g8, b8));
                assert_eq!(chroma_u_of(r8, g8, b8), reference_u(r8, g8, b8));
                assert_eq!(chroma_v_of(r8, g8, b8), reference_v(r8, g8, b8));
                b += 5;
            }
            g += 3;
        }
        r += 1;
    }
}

#[test]
fn plane_sizes_for_even_dimensions() {
    for (w, h) in [(2usize, 2usize), (4, 2), (2, 4), (6, 4), (16, 10), (64, 48)] {
        let buf = Yuv420Buffer::from_rgba(&solid(w, h, 1, 2, 3), w, h);
        assert_eq!(buf.dimensions(), (w, h));
        assert_eq!(buf.y().len(), w * h);
        assert_eq!(buf.u().len(), w * h / 4);
        assert_eq!(buf.v().len(), w * h / 4);
        assert_eq!(buf.strides(), (w, w / 2, w / 2));
    }
}

#[test]
fn empty_frame_converts_to_empty_planes() {
    let buf = Yuv420Buffer::from_rgba(&[], 0, 0);
    assert!(buf.y().is_empty());
    assert!(buf.u().is_empty());
    assert!(buf.v().is_empty());
    let flat = Yuv420Buffer::from_rgba(&[], 0, 4);
    assert_eq!(flat.dimensions(), (0, 4));
    assert!(flat.y().is_empty());
}

#[test]
fn chroma_is_sampled_from_the_top_left_pixel_of_each_block() {
    // 4x2 frame: the left block is red at its top-left and green elsewhere,
    // the right block is blue at its top-left and white elsewhere.
    let red = [255u8, 0, 0, 255];
    let green = [0u8, 255, 0, 255];
    let blue = [0u8, 0, 255, 255];
    let white = [255u8, 255, 255, 255];
    let mut frame = Vec::new();
    for px in [red, green, blue, white, green, green, white, white] {
        frame.extend_from_slice(&px);
    }
    let buf = Yuv420Buffer::from_rgba(&frame, 4, 2);
    assert_eq!(buf.y(), &[82u8, 144, 41, 235, 144, 144, 235, 235][..]);
    assert_eq!(buf.u(), &[90u8, 240][..]);
    assert_eq!(buf.v(), &[240u8, 110][..]);
}

#[test]
fn conversion_matches_a_pixel_by_pixel_reference() {
    let (w, h) = (8usize, 6usize);
    let mut frame = Vec::new();
    let mut seed: u32 = 12345;
    for _ in 0..w * h * 4 {
        seed = seed.wrapping_mul(1103515245).wrapping_add(12345);
        frame.push((seed >> 16) as u8);
    }
    let buf = Yuv420Buffer::from_rgba(&frame, w, h);
    for row in 0..h {
        for col in 0..w {
            let i = (row * w + col) * 4;
            let (r, g, b) = (frame[i], frame[i + 1], frame[i + 2]);
            assert_eq!(buf.y()[row * w + col], reference_luma(r, g, b));
            if row % 2 == 0 && col % 2 == 0 {
                let c = (row / 2) * (w / 2) + col / 2;
                assert_eq!(buf.u()[c], reference_u(r, g, b));
                assert_eq!(buf.v()[c], reference_v(r, g, b));
            }
        }
    }
}

#[test]
fn bytes_beyond_the_frame_and_alpha_are_ignored() {
    let mut frame = solid(2, 2, 10, 20, 30);
    let plain = Yuv420Buffer::from_rgba(&frame, 2, 2);
    for i in 0..4 {
        frame[4 * i + 3] = 7;
    }
    frame.extend_from_slice(&[1, 2, 3, 4, 5]);
    let noisy = Yuv420Buffer::from_rgba(&frame, 2, 2);
    assert_eq!(plain.y(), noisy.y());
    assert_eq!(plain.u(), noisy.u());
    assert_eq!(plain.v(), noisy.v());
}
