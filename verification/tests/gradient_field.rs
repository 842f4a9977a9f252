use ascim::glyph::GRAY_ONE;
use ascim::gradient::get_sobel;
use ascim::image_processing::{make_grayscale, ImageData};

fn noise(seed: &mut u64) -> u32 {
    *seed = seed.wrapping_mul(6364136223846793005).wrapping_add(1442695040888963407);
    ((*seed >> 33) % (GRAY_ONE as u64 + 1)) as u32
}

fn noisy_field(width: usize, height: usize, seed: u64) -> Vec<u32> {
    let mut state = seed;
    (0..width * height).map(|_| noise(&mut state)).collect()
}

#[test]
fn grey_levels_weigh_the_channels() {
    let image = ImageData {
        width: 2,
        height: 2,
        data: vec![255, 255, 255, 255, 0, 0, 0, 255, 255, 0, 0, 7, 10, 20, 30, 0],
    };
    let gray = make_grayscale(&image);
    assert_eq!(gray, vec![2_550_000, 0, 2126 * 255, 2126 * 10 + 7152 * 20 + 722 * 30]);
}

#[test]
fn grey_levels_of_the_pure_colours() {
    let image = ImageData {
        width: 3,
        height: 1,
        data: vec![255, 0, 0, 255, 0, 255, 0, 255, 0, 0, 255, 255],
    };
    assert_eq!(make_grayscale(&image), vec![542_130, 1_823_760, 184_110]);
}

#[test]
fn grey_field_of_an_image_without_pixels_is_empty() {
    let image = ImageData { width: 0, height: 5, data: vec![] };
    assert!(image.is_well_formed());
    assert_eq!(make_grayscale(&image), Vec::<u32>::new());
}

#[test]
fn well_formed_buffers_hold_four_bytes_for_each_pixel() {
    assert!(ImageData { width: 2, height: 3, data: vec![0; 24] }.is_well_formed());
    assert!(!ImageData { width: 2, height: 3, data: vec![0; 23] }.is_well_formed());
    assert!(!ImageData { width: 2, height: 3, data: vec![0; 25] }.is_well_formed());
    assert!(!ImageData { width: usize::MAX, height: 2, data: vec![] }.is_well_formed());
    assert!(!ImageData { width: usize::MAX / 4 + 1, height: 1, data: vec![] }.is_well_formed());
}

#[test]
fn border_cells_are_zero_for_any_field() {
    for (width, height) in [(3, 3), (4, 3), (3, 5), (7, 6), (16, 9)] {
        let field = noisy_field(width, height, (width * 31 + height) as u64);
        let (gx, gy) = get_sobel(&field, width, height);
        assert_eq!(gx.len(), width * height);
        assert_eq!(gy.len(), width * height);
        for y in 0..height {
            for x in 0..width {
                if x == 0 || y == 0 || x == width - 1 || y == height - 1 {
                    assert_eq!(gx[y * width + x], 0);
                    assert_eq!(gy[y * width + x], 0);
                }
            }
        }
    }
}

#[test]
fn fields_without_an_interior_are_all_zero() {
    for (width, height) in [(0, 0), (0, 4), (4, 0), (1, 1), (1, 7), (7, 1), (2, 2), (2, 9), (9, 2)]
    {
        let field = noisy_field(width, height, 5);
        let (gx, gy) = get_sobel(&field, width, height);
        assert_eq!(gx, vec![0; width * height]);
        assert_eq!(gy, vec![0; width * height]);
    }
}

#[test]
fn kernels_on_a_three_by_three_field() {
    let field = vec![1, 2, 3, 4, 5, 6, 7, 8, 10];
    let (gx, gy) = get_sobel(&field, 3, 3);
    // Right column minus left column, the middle row twice.
    let x = (3 + 2 * 6 + 10) - (1 + 2 * 4 + 7);
    // Top row minus bottom row, the middle column twice.
    let y = (1 + 2 * 2 + 3) - (7 + 2 * 8 + 10);
    assert_eq!(gx, vec![0, 0, 0, 0, x, 0, 0, 0, 0]);
    assert_eq!(gy, vec![0, 0, 0, 0, y, 0, 0, 0, 0]);
}

#[test]
fn a_vertical_step_has_a_horizontal_gradient_of_four() {
    let one = GRAY_ONE;
    let field = vec![0, 0, one, one, 0, 0, one, one, 0, 0, one, one];
    let (gx, gy) = get_sobel(&field, 4, 3);
    let four = 4 * one as i32;
    assert_eq!(gx, vec![0, 0, 0, 0, 0, four, four, 0, 0, 0, 0, 0]);
    assert_eq!(gy, vec![0; 12]);
}

#[test]
fn a_horizontal_step_has_a_vertical_gradient_of_four() {
    let one = GRAY_ONE;
    let field = vec![one, one, one, one, one, one, 0, 0, 0, 0, 0, 0];
    let (gx, gy) = get_sobel(&field, 3, 4);
    let four = 4 * one as i32;
    assert_eq!(gy, vec![0, 0, 0, 0, four, 0, 0, four, 0, 0, 0, 0]);
    assert_eq!(gx, vec![0; 12]);
}

#[test]
fn interior_cells_agree_with_the_nine_tap_sum() {
    let kernel_x = [-1i64, 0, 1, -2, 0, 2, -1, 0, 1];
    let kernel_y = [1i64, 2, 1, 0, 0, 0, -1, -2, -1];
    let (width, height) = (9usize, 7usize);
    let field = noisy_field(width, height, 99);
    let (gx, gy) = get_sobel(&field, width, height);
    for y in 1..height - 1 {
        for x in 1..width - 1 {
            let mut sum_x = 0i64;
            let mut sum_y = 0i64;
            for j in 0..3 {
                for i in 0..3 {
                    let level = field[(y + j - 1) * width + (x + i - 1)] as i64;
                    sum_x += kernel_x[j * 3 + i] * level;
                    sum_y += kernel_y[j * 3 + i] * level;
                }
            }
            assert_eq!(gx[y * width + x] as i64, sum_x);
            assert_eq!(gy[y * width + x] as i64, sum_y);
        }
    }
}
