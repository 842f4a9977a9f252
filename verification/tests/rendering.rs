use ascim::ascii_image::{AsciImage, RGBColor};
use ascim::error::AsciiError;
use ascim::glyph_grid::glyph_grid;
use ascim::image_processing::ImageData;
use ascim::print_image::{print_image, render, RenderMode};
use ascim::ratio::Ratio;

fn picture(cells: Vec<Vec<(RGBColor, char)>>) -> AsciImage {
    AsciImage {
        height: cells.len(),
        width: if cells.is_empty() { 0 } else { cells[0].len() },
        threshold: Ratio::whole(4),
        character_ratio: Ratio::whole(2),
        converted_image: cells,
    }
}

fn noisy_image(width: usize, height: usize, seed: u64) -> ImageData {
    let mut state = seed;
    let mut data = Vec::new();
    for _ in 0..width * height * 4 {
        state = state.wrapping_mul(6364136223846793005).wrapping_add(1442695040888963407);
        data.push((state >> 56) as u8);
    }
    ImageData { width, height, data }
}

#[test]
fn true_colour_text_of_a_small_picture() {
    let cells = vec![
        vec![(RGBColor { r: 255, g: 0, b: 10 }, '@'), (RGBColor { r: 1, g: 2, b: 3 }, ' ')],
        vec![(RGBColor { r: 99, g: 100, b: 9 }, '/'), (RGBColor { r: 0, g: 0, b: 0 }, '\\')],
    ];
    let text = picture(cells).print();
    assert_eq!(
        text,
        "\x1b[38;2;255;0;10m@\x1b[0m\x1b[38;2;1;2;3m \x1b[0m\n\
         \x1b[38;2;99;100;9m/\x1b[0m\x1b[38;2;0;0;0m\\\x1b[0m\n\
         \x1b[0m"
    );
}

#[test]
fn categorical_text_of_a_small_picture() {
    let cells = vec![
        vec![(RGBColor { r: 255, g: 0, b: 10 }, '@'), (RGBColor { r: 1, g: 2, b: 3 }, ' ')],
        vec![(RGBColor { r: 90, g: 100, b: 95 }, '/'), (RGBColor { r: 0, g: 200, b: 0 }, '|')],
    ];
    let text = picture(cells).render(RenderMode::CategoricalAnsi);
    assert_eq!(text, "\x1b[31m@\x1b[34m \n\x1b[37m/\x1b[32m|\n\x1b[0m");
}

#[test]
fn print_is_the_true_colour_mode() {
    let grid = AsciImage::convert_to_ascii(&noisy_image(4, 3, 17), &Ratio::whole(1)).unwrap();
    let image = picture(grid);
    assert_eq!(image.print(), image.render(RenderMode::TrueColor));
    assert_eq!(image.print(), render(&image.converted_image, RenderMode::TrueColor));
}

#[test]
fn every_byte_is_written_in_decimal() {
    for byte in 0..=255u8 {
        let cells = vec![vec![(RGBColor { r: byte, g: 255 - byte, b: byte / 2 }, 'x')]];
        let text = picture(cells).print();
        let expected =
            format!("\x1b[38;2;{};{};{}mx\x1b[0m\n\x1b[0m", byte, 255 - byte, byte / 2);
        assert_eq!(text, expected);
    }
}

#[test]
fn text_of_a_picture_without_rows_is_a_reset() {
    assert_eq!(picture(vec![]).print(), "\x1b[0m");
    assert_eq!(picture(vec![]).render(RenderMode::CategoricalAnsi), "\x1b[0m");
    assert_eq!(glyph_grid("\x1b[0m"), Vec::<Vec<char>>::new());
}

#[test]
fn print_image_writes_the_frame_in_categories() {
    let image = ImageData {
        width: 2,
        height: 2,
        data: vec![0, 0, 0, 255, 255, 255, 255, 255, 255, 0, 0, 255, 0, 0, 128, 255],
    };
    let text = print_image(&image, &Ratio::whole(4)).unwrap();
    assert_eq!(text, "\x1b[37m \x1b[37m@\n\x1b[31m@\x1b[34m-\n\x1b[0m");
}

#[test]
fn print_image_refuses_what_cannot_be_drawn() {
    let image = ImageData { width: 2, height: 2, data: vec![0; 15] };
    assert!(matches!(print_image(&image, &Ratio::whole(4)), Err(AsciiError::InvalidDimensions)));
    let image = ImageData { width: 0, height: 0, data: vec![] };
    assert!(matches!(print_image(&image, &Ratio::whole(4)), Err(AsciiError::InvalidDimensions)));
}

#[test]
fn reading_the_text_gives_back_the_glyphs() {
    for (seed, width, height) in [(5u64, 1usize, 1usize), (6, 8, 3), (7, 3, 8), (8, 16, 12)] {
        let image = noisy_image(width, height, seed);
        for threshold in [Ratio::of(1, 2), Ratio::whole(4)] {
            let grid = AsciImage::convert_to_ascii(&image, &threshold).unwrap();
            let glyphs: Vec<Vec<char>> =
                grid.iter().map(|row| row.iter().map(|cell| cell.1).collect()).collect();
            for mode in [RenderMode::TrueColor, RenderMode::CategoricalAnsi] {
                let read = glyph_grid(&render(&grid, mode));
                assert_eq!(read.len(), height);
                for row in &read {
                    assert_eq!(row.len(), width);
                }
                assert_eq!(read, glyphs);
            }
        }
    }
}

#[test]
fn glyphs_of_a_text_without_escapes() {
    assert_eq!(glyph_grid("ab\ncd\n"), vec![vec!['a', 'b'], vec!['c', 'd']]);
    assert_eq!(glyph_grid("ab\ncd"), vec![vec!['a', 'b'], vec!['c', 'd']]);
    assert_eq!(glyph_grid("\n\nx"), vec![vec![], vec![], vec!['x']]);
    assert_eq!(glyph_grid(""), Vec::<Vec<char>>::new());
}

#[test]
fn escape_sequences_run_to_the_next_m() {
    assert_eq!(glyph_grid("\x1b[38;2;1;2;3mm\x1b[0m\n"), vec![vec!['m']]);
    assert_eq!(glyph_grid("a\x1b[31"), vec![vec!['a']]);
    assert_eq!(glyph_grid("a\x1b\nb\nmc\n"), vec![vec!['a', 'c']]);
}
