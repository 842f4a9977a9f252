//! The text of a picture for a terminal, in true colour or in the seven
//! colour categories of a plain terminal.
//!
//! A cell is written as an escape sequence that sets its colour, followed by
//! its glyph; in true colour a reset follows each glyph.  A line feed ends
//! each row and a reset ends the text.

use vstd::prelude::*;
use crate::ascii_image::{cells_of, frame_of, AsciImage, RGBColor};
use crate::color::{color_category, rgb_to_hsv, ColorCategory, HsvView};
use crate::error::AsciiError;
use crate::image_processing::ImageData;
use crate::ratio::Ratio;

verus! {

/// How the colour of a cell is written.
#[derive(Clone, Copy, Debug, PartialEq, Eq, Structural)]
pub enum RenderMode {
    /// The red, green and blue bytes of each cell.
    TrueColor,
    /// The colour category of each cell.
    CategoricalAnsi,
}

/// The text that ends a colour.
pub open spec fn reset_text() -> Seq<char> {
    seq!['\x1B', '[', '0', 'm']
}

/// The text that opens a true colour, up to its first number.
pub open spec fn true_color_prefix() -> Seq<char> {
    seq!['\x1B', '[', '3', '8', ';', '2', ';']
}

/// The ten digits.
pub open spec fn digits() -> Seq<char> {
    seq!['0', '1', '2', '3', '4', '5', '6', '7', '8', '9']
}

/// A byte in decimal digits, without leading zeros.
pub open spec fn decimal(n: int) -> Seq<char> {
    if n >= 100 {
        seq![digits()[n / 100], digits()[(n / 10) % 10], digits()[n % 10]]
    } else if n >= 10 {
        seq![digits()[n / 10], digits()[n % 10]]
    } else {
        seq![digits()[n]]
    }
}

/// The escape sequence that sets a true colour.
pub open spec fn true_color_text(color: RGBColor) -> Seq<char> {
    true_color_prefix() + decimal(color.r as int) + seq![';'] + decimal(color.g as int) + seq![';']
        + decimal(color.b as int) + seq!['m']
}

/// The colour category of a colour.
pub open spec fn category_of(color: RGBColor) -> ColorCategory {
    HsvView::of_rgb(color.r as int, color.g as int, color.b as int).category()
}

/// The text of a cell.
pub open spec fn cell_text(cell: (RGBColor, char), mode: RenderMode) -> Seq<char> {
    match mode {
        RenderMode::TrueColor => true_color_text(cell.0) + seq![cell.1] + reset_text(),
        RenderMode::CategoricalAnsi => category_of(cell.0).escape_spec() + seq![cell.1],
    }
}

/// The text of the cells of a row, without the line feed.
pub open spec fn row_text(row: Seq<(RGBColor, char)>, mode: RenderMode) -> Seq<char>
    decreases row.len(),
{
    if row.len() == 0 {
        Seq::empty()
    } else {
        row_text(row.drop_last(), mode) + cell_text(row.last(), mode)
    }
}

/// The text of rows, each ended by a line feed.
pub open spec fn rows_text(rows: Seq<Seq<(RGBColor, char)>>, mode: RenderMode) -> Seq<char>
    decreases rows.len(),
{
    if rows.len() == 0 {
        Seq::empty()
    } else {
        rows_text(rows.drop_last(), mode) + row_text(rows.last(), mode) + seq!['\n']
    }
}

/// The text of a picture: its rows, and a reset at the end.
pub open spec fn frame_text(rows: Seq<Seq<(RGBColor, char)>>, mode: RenderMode) -> Seq<char> {
    rows_text(rows, mode) + reset_text()
}

/// `String::push` appends one character.
pub assume_specification[ String::push ](text: &mut String, ch: char)
    ensures
        final(text)@ == old(text)@.push(ch),
;

/// Appends a byte in decimal digits.
fn push_decimal(text: &mut String, n: u8)
    ensures
        final(text)@ == old(text)@ + decimal(n as int),
{
    let all = "0123456789";
    proof {
        reveal_strlit("0123456789");
    }
    assert(all@ =~= digits());
    let ghost before = text@;
    if n >= 100 {
        text.push(all.get_char((n / 100) as usize));
        text.push(all.get_char(((n / 10) % 10) as usize));
        text.push(all.get_char((n % 10) as usize));
    } else if n >= 10 {
        text.push(all.get_char((n / 10) as usize));
        text.push(all.get_char((n % 10) as usize));
    } else {
        text.push(all.get_char(n as usize));
    }
    assert(text@ =~= before + decimal(n as int));
}

/// Appends the text of a cell.
fn push_cell(text: &mut String, cell: (RGBColor, char), mode: RenderMode)
    ensures
        final(text)@ == old(text)@ + cell_text(cell, mode),
{
    let ghost before = text@;
    let color = cell.0;
    match mode {
        RenderMode::TrueColor => {
            proof {
                reveal_strlit("\x1B[38;2;");
                reveal_strlit("\x1B[0m");
            }
            text.append("\x1B[38;2;");
            assert(text@ =~= before + true_color_prefix());
            push_decimal(text, color.r);
            text.push(';');
            push_decimal(text, color.g);
            text.push(';');
            push_decimal(text, color.b);
            text.push('m');
            assert(text@ =~= before + true_color_text(color));
            text.push(cell.1);
            text.append("\x1B[0m");
            assert(text@ =~= before + cell_text(cell, mode));
        },
        RenderMode::CategoricalAnsi => {
            let hsv = rgb_to_hsv(color.r, color.g, color.b);
            let category = color_category(&hsv);
            text.append(category.escape());
            text.push(cell.1);
            assert(text@ =~= before + cell_text(cell, mode));
        },
    }
}

/// The text of a picture, row by row.
pub fn render(grid: &Vec<Vec<(RGBColor, char)>>, mode: RenderMode) -> (text: String)
    ensures
        text@ == frame_text(cells_of(grid@), mode),
{
    let mut text = String::new();
    let mut y: usize = 0;
    let ghost cells = cells_of(grid@);
    assert(cells.take(0) =~= Seq::empty());
    while y < grid.len()
        invariant
            y <= grid@.len(),
            cells == cells_of(grid@),
            text@ == rows_text(cells.take(y as int), mode),
        decreases grid@.len() - y,
    {
        let row = &grid[y];
        let ghost before = text@;
        let mut x: usize = 0;
        assert(row@.take(0) =~= Seq::empty());
        while x < row.len()
            invariant
                x <= row@.len(),
                text@ == before + row_text(row@.take(x as int), mode),
            decreases row@.len() - x,
        {
            push_cell(&mut text, row[x], mode);
            proof {
                let next = row@.take(x + 1);
                assert(next.drop_last() =~= row@.take(x as int));
                assert(next.last() == row@[x as int]);
                assert(text@ =~= before + row_text(next, mode));
            }
            x += 1;
        }
        text.push('\n');
        proof {
            let next = cells.take(y + 1);
            assert(row@.take(x as int) =~= row@);
            assert(next.drop_last() =~= cells.take(y as int));
            assert(next.last() == row@);
            assert(text@ =~= rows_text(next, mode));
        }
        y += 1;
    }
    proof {
        reveal_strlit("\x1B[0m");
        assert(cells.take(y as int) =~= cells);
    }
    text.append("\x1B[0m");
    assert(text@ =~= frame_text(cells, mode));
    text
}

impl AsciImage {
    /// The text of the picture in the given mode.
    pub fn render(&self, mode: RenderMode) -> (text: String)
        ensures
            text@ == frame_text(self@, mode),
    {
        render(&self.converted_image, mode)
    }

    /// The text that shows the picture in true colour: for each cell the
    /// bytes of its colour, its glyph and a reset.
    pub fn print(&self) -> (text: String)
        ensures
            text@ == frame_text(self@, RenderMode::TrueColor),
    {
        render(&self.converted_image, RenderMode::TrueColor)
    }
}

/// The text that shows an image in the colours of a plain terminal: the
/// frame of the image, each cell in the colour of its category.
pub fn print_image(image: &ImageData, edge_threshold: &Ratio) -> (result: Result<
    String,
    AsciiError,
>)
    ensures
        result is Ok <==> image.drawable(),
        result matches Err(e) ==> e is InvalidDimensions,
        result matches Ok(text) ==> text@ == frame_text(
            frame_of(image@, edge_threshold@),
            RenderMode::CategoricalAnsi,
        ),
{
    match AsciImage::convert_to_ascii(image, edge_threshold) {
        Err(e) => Err(e),
        Ok(grid) => Ok(render(&grid, RenderMode::CategoricalAnsi)),
    }
}

} // verus!
