use ascim::ascii_image::{detects_edges, AsciImage, RGBColor};
use ascim::error::AsciiError;
use ascim::image_processing::ImageData;
use ascim::ratio::Ratio;

const RAMP: &str = " .-=+*x#$&X@";

fn noisy_image(width: usize, height: usize, seed: u64) -> ImageData {
    let mut state = seed;
    let mut data = Vec::new();
    for _ in 0..width * height * 4 {
        state = state.wrapping_mul(6364136223846793005).wrapping_add(1442695040888963407);
        data.push((state >> 56) as u8);
    }
    ImageData { width, height, data }
}

fn float_stroke(sobel_angle: f64) -> char {
    if (22.5..=67.5).contains(&sobel_angle) || (-157.5..=-112.5).contains(&sobel_angle) {
        '\\'
    } else if (67.5..=112.5).contains(&sobel_angle) || (-112.5..=-67.5).contains(&sobel_angle) {
        '_'
    } else if (112.5..=157.5).contains(&sobel_angle) || (-67.5..=-22.5).contains(&sobel_angle) {
        '/'
    } else {
        '|'
    }
}

fn float_ramp(grayscale: f64) -> char {
    let index = (grayscale * (RAMP.len() - 1) as f64) as usize;
    RAMP.chars().nth(index.min(RAMP.len() - 1)).unwrap()
}

/// The frame computed in floating point, each channel divided by 255 once.
fn float_glyphs(image: &ImageData, threshold: f64) -> Vec<Vec<char>> {
    let (width, height) = (image.width, image.height);
    let gray: Vec<f64> = (0..width * height)
        .map(|i| {
            let r = image.data[4 * i] as f64 / 255.0;
            let g = image.data[4 * i + 1] as f64 / 255.0;
            let b = image.data[4 * i + 2] as f64 / 255.0;
            0.2126 * r + 0.7152 * g + 0.0722 * b
        })
        .collect();
    let kernel_x = [-1.0, 0.0, 1.0, -2.0, 0.0, 2.0, -1.0, 0.0, 1.0];
    let kernel_y = [1.0, 2.0, 1.0, 0.0, 0.0, 0.0, -1.0, -2.0, -1.0];
    let mut gx = vec![0.0; width * height];
    let mut gy = vec![0.0; width * height];
    if threshold < 4.0 && width >= 3 && height >= 3 {
        for y in 1..height - 1 {
            for x in 1..width - 1 {
                for j in 0..3 {
                    for i in 0..3 {
                        let level = gray[(y + j - 1) * width + (x + i - 1)];
                        gx[y * width + x] += kernel_x[j * 3 + i] * level;
                        gy[y * width + x] += kernel_y[j * 3 + i] * level;
                    }
                }
            }
        }
    }
    let mut rows = Vec::new();
    for y in 0..height {
        let mut row = Vec::new();
        for x in 0..width {
            let i = y * width + x;
            let r = image.data[4 * i] as f64 / 255.0;
            let g = image.data[4 * i + 1] as f64 / 255.0;
            let b = image.data[4 * i + 2] as f64 / 255.0;
            let value = r.max(g).max(b);
            let (sx, sy) = (gx[i], gy[i]);
            if sx * sx + sy * sy >= threshold * threshold {
                row.push(float_stroke(sy.atan2(sx) * 180.0 / std::f64::consts::PI));
            } else {
                row.push(float_ramp(value * value));
            }
        }
        rows.push(row);
    }
    rows
}

fn glyphs(grid: &Vec<Vec<(RGBColor, char)>>) -> Vec<Vec<char>> {
    grid.iter().map(|row| row.iter().map(|cell| cell.1).collect()).collect()
}

#[test]
fn one_white_pixel_among_black_ones() {
    let image = ImageData {
        width: 2,
        height: 2,
        data: vec![0, 0, 0, 255, 255, 255, 255, 255, 0, 0, 0, 255, 0, 0, 0, 255],
    };
    let grid = AsciImage::convert_to_ascii(&image, &Ratio::whole(4)).unwrap();
    assert_eq!(glyphs(&grid), vec![vec![' ', '@'], vec![' ', ' ']]);
    assert_eq!(grid[0][1].0, RGBColor { r: 255, g: 255, b: 255 });
    assert_eq!(grid[0][0].0, RGBColor { r: 0, g: 0, b: 0 });
    assert_eq!(grid[1][1].0, RGBColor { r: 0, g: 0, b: 0 });
}

#[test]
fn cells_keep_the_colour_of_their_pixel() {
    let image = noisy_image(5, 4, 11);
    let grid = AsciImage::convert_to_ascii(&image, &Ratio::of(1, 2)).unwrap();
    assert_eq!(grid.len(), 4);
    for y in 0..4 {
        assert_eq!(grid[y].len(), 5);
        for x in 0..5 {
            let at = (y * 5 + x) * 4;
            let color =
                RGBColor { r: image.data[at], g: image.data[at + 1], b: image.data[at + 2] };
            assert_eq!(grid[y][x].0, color);
        }
    }
}

#[test]
fn without_edges_every_glyph_is_the_ramp_glyph_of_its_luminance() {
    let image = noisy_image(9, 6, 3);
    for threshold in [Ratio::whole(4), Ratio::of(9, 2), Ratio::whole(100)] {
        let grid = AsciImage::convert_to_ascii(&image, &threshold).unwrap();
        for y in 0..6 {
            for x in 0..9 {
                let at = (y * 9 + x) * 4;
                let top = image.data[at].max(image.data[at + 1]).max(image.data[at + 2]) as usize;
                let place = (top * top * 11 / 65025).min(11);
                assert_eq!(grid[y][x].1, RAMP.chars().nth(place).unwrap());
            }
        }
    }
}

#[test]
fn glyphs_agree_with_the_frame_computed_in_floating_point() {
    for (seed, width, height) in [(1u64, 7usize, 5usize), (2, 12, 9), (3, 3, 3), (4, 20, 4)] {
        let image = noisy_image(width, height, seed);
        for (threshold, float) in [
            (Ratio::of(1, 4), 0.25),
            (Ratio::of(1, 2), 0.5),
            (Ratio::whole(1), 1.0),
            (Ratio::of(3, 2), 1.5),
            (Ratio::whole(2), 2.0),
            (Ratio::of(39, 10), 3.9),
            (Ratio::whole(4), 4.0),
        ] {
            let grid = AsciImage::convert_to_ascii(&image, &threshold).unwrap();
            assert_eq!(glyphs(&grid), float_glyphs(&image, float));
        }
    }
}

#[test]
fn a_vertical_step_is_drawn_with_upright_strokes() {
    let mut data = Vec::new();
    for _y in 0..4 {
        for x in 0..6 {
            let level = if x < 3 { 0 } else { 255 };
            data.extend_from_slice(&[level, level, level, 255]);
        }
    }
    let image = ImageData { width: 6, height: 4, data };
    let grid = AsciImage::convert_to_ascii(&image, &Ratio::whole(1)).unwrap();
    assert_eq!(
        glyphs(&grid),
        vec![
            vec![' ', ' ', ' ', '@', '@', '@'],
            vec![' ', ' ', '|', '|', '@', '@'],
            vec![' ', ' ', '|', '|', '@', '@'],
            vec![' ', ' ', ' ', '@', '@', '@'],
        ]
    );
}

#[test]
fn a_horizontal_step_is_drawn_with_flat_strokes() {
    let mut data = Vec::new();
    for y in 0..6 {
        for _x in 0..4 {
            let level = if y < 3 { 255 } else { 0 };
            data.extend_from_slice(&[level, level, level, 255]);
        }
    }
    let image = ImageData { width: 4, height: 6, data };
    let grid = AsciImage::convert_to_ascii(&image, &Ratio::whole(1)).unwrap();
    assert_eq!(
        glyphs(&grid),
        vec![
            vec!['@', '@', '@', '@'],
            vec!['@', '@', '@', '@'],
            vec!['@', '_', '_', '@'],
            vec![' ', '_', '_', ' '],
            vec![' ', ' ', ' ', ' '],
            vec![' ', ' ', ' ', ' '],
        ]
    );
}

#[test]
fn a_threshold_of_zero_makes_every_cell_an_edge() {
    let image = ImageData { width: 3, height: 3, data: vec![90; 36] };
    let grid = AsciImage::convert_to_ascii(&image, &Ratio::whole(0)).unwrap();
    assert_eq!(glyphs(&grid), vec![vec!['|'; 3]; 3]);
}

#[test]
fn images_without_pixels_are_refused() {
    for (width, height) in [(0, 0), (0, 3), (3, 0)] {
        let image = ImageData { width, height, data: vec![] };
        let result = AsciImage::convert_to_ascii(&image, &Ratio::whole(4));
        assert!(matches!(result, Err(AsciiError::InvalidDimensions)));
    }
}

#[test]
fn buffers_of_the_wrong_length_are_refused() {
    for len in [0, 15, 17, 64] {
        let image = ImageData { width: 2, height: 2, data: vec![0; len] };
        let result = AsciImage::convert_to_ascii(&image, &Ratio::whole(1));
        assert!(matches!(result, Err(AsciiError::InvalidDimensions)));
    }
    let image = ImageData { width: usize::MAX, height: usize::MAX, data: vec![0; 16] };
    let result = AsciImage::convert_to_ascii(&image, &Ratio::whole(1));
    assert!(matches!(result, Err(AsciiError::InvalidDimensions)));
}

#[test]
fn alpha_has_no_say() {
    let mut image = noisy_image(6, 5, 8);
    let before = AsciImage::convert_to_ascii(&image, &Ratio::of(1, 2)).unwrap();
    for i in 0..30 {
        image.data[4 * i + 3] = !image.data[4 * i + 3];
    }
    let after = AsciImage::convert_to_ascii(&image, &Ratio::of(1, 2)).unwrap();
    assert_eq!(before, after);
}

#[test]
fn a_threshold_of_four_or_more_switches_edges_off() {
    assert!(detects_edges(&Ratio::whole(0)));
    assert!(detects_edges(&Ratio::of(3999, 1000)));
    assert!(!detects_edges(&Ratio::whole(4)));
    assert!(!detects_edges(&Ratio::of(9, 2)));
    assert!(detects_edges(&Ratio::whole(-5)));
}
