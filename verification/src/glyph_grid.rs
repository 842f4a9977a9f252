//! Reading the glyphs back from the text of a picture.
//!
//! The text is read character by character.  An escape character opens an
//! escape sequence, which runs up to and including the next `m` and yields no
//! glyph; a line feed ends a row; every other character is a glyph of the
//! current row.

use vstd::prelude::*;
use crate::ascii_image::{has_glyphs, has_shape, RGBColor};
use crate::color::ColorCategory;
use crate::glyph::{is_glyph, is_stroke, ramp};
use crate::print_image::{
    category_of,
    cell_text,
    decimal,
    digits,
    frame_text,
    reset_text,
    row_text,
    rows_text,
    true_color_prefix,
    true_color_text,
    RenderMode,
};

verus! {

/// What has been read of a text: the rows that a line feed has ended, the
/// glyphs of the row that is still open, and whether an escape sequence is
/// open.
pub struct Scan {
    pub rows: Seq<Seq<char>>,
    pub line: Seq<char>,
    pub in_escape: bool,
}

/// Nothing read yet.
pub open spec fn scan_start() -> Scan {
    Scan { rows: Seq::empty(), line: Seq::empty(), in_escape: false }
}

/// Reading one character.
pub open spec fn scan_step(state: Scan, c: char) -> Scan {
    if state.in_escape {
        Scan { rows: state.rows, line: state.line, in_escape: c != 'm' }
    } else if c == '\x1B' {
        Scan { rows: state.rows, line: state.line, in_escape: true }
    } else if c == '\n' {
        Scan { rows: state.rows.push(state.line), line: Seq::empty(), in_escape: false }
    } else {
        Scan { rows: state.rows, line: state.line.push(c), in_escape: false }
    }
}

/// Reading a text from a given state.
pub open spec fn scan_from(state: Scan, text: Seq<char>) -> Scan
    decreases text.len(),
{
    if text.len() == 0 {
        state
    } else {
        scan_step(scan_from(state, text.drop_last()), text.last())
    }
}

/// The rows of glyphs of a text; a last row without a line feed counts where
/// it holds a glyph.
pub open spec fn glyph_rows(text: Seq<char>) -> Seq<Seq<char>> {
    let end = scan_from(scan_start(), text);
    if end.line.len() == 0 {
        end.rows
    } else {
        end.rows.push(end.line)
    }
}

/// The glyphs of a row of cells.
pub open spec fn glyph_line(row: Seq<(RGBColor, char)>) -> Seq<char> {
    Seq::new(row.len(), |x: int| row[x].1)
}

/// The glyphs of the cells of a picture, row by row.
pub open spec fn glyphs_of(cells: Seq<Seq<(RGBColor, char)>>) -> Seq<Seq<char>> {
    Seq::new(cells.len(), |y: int| glyph_line(cells[y]))
}

/// The rows of a grid of glyphs.
pub open spec fn lines_of(grid: Seq<Vec<char>>) -> Seq<Seq<char>> {
    Seq::new(grid.len(), |y: int| grid[y]@)
}

/// Whether no character of `text` is an `m`.
pub open spec fn no_terminator(text: Seq<char>) -> bool {
    forall|i: int| 0 <= i < text.len() ==> text[i] != 'm'
}

/// The characters of a string, one by one.
pub(crate) fn chars_of(text: &str) -> (chars: Vec<char>)
    ensures
        chars@ == text@,
{
    let mut chars: Vec<char> = Vec::new();
    for c in it: text.chars()
        invariant
            it.seq() == text@,
            chars@ == it.seq().take(it.index() as int),
    {
        chars.push(c);
        assert(chars@ =~= it.seq().take(it.index() + 1));
    }
    assert(chars@ =~= text@);
    chars
}

/// The glyphs of a text, row by row, without its escape sequences.
pub fn glyph_grid(text: &str) -> (grid: Vec<Vec<char>>)
    ensures
        lines_of(grid@) == glyph_rows(text@),
{
    let chars = chars_of(text);
    let mut rows: Vec<Vec<char>> = Vec::new();
    let mut line: Vec<char> = Vec::new();
    let mut in_escape: bool = false;
    let mut i: usize = 0;
    assert(chars@.take(0) =~= Seq::empty());
    assert(lines_of(rows@) =~= Seq::empty());
    while i < chars.len()
        invariant
            i <= chars@.len(),
            scan_from(scan_start(), chars@.take(i as int)) == (Scan {
                rows: lines_of(rows@),
                line: line@,
                in_escape,
            }),
        decreases chars@.len() - i,
    {
        let c: char = chars[i];
        let ghost before = lines_of(rows@);
        let ghost open = line@;
        proof {
            let next = chars@.take(i + 1);
            assert(next.drop_last() =~= chars@.take(i as int));
            assert(next.last() == c);
        }
        if in_escape {
            in_escape = c != 'm';
        } else if c == '\x1B' {
            in_escape = true;
        } else if c == '\n' {
            rows.push(line);
            line = Vec::new();
            assert(lines_of(rows@) =~= before.push(open));
        } else {
            line.push(c);
        }
        i += 1;
    }
    assert(chars@.take(i as int) =~= chars@);
    if line.len() > 0 {
        let ghost before = lines_of(rows@);
        let ghost open = line@;
        rows.push(line);
        assert(lines_of(rows@) =~= before.push(open));
    }
    rows
}

/// Reading two texts one after the other is reading them joined.
proof fn lemma_scan_concat(state: Scan, first: Seq<char>, second: Seq<char>)
    ensures
        scan_from(state, first + second) == scan_from(scan_from(state, first), second),
    decreases second.len(),
{
    if second.len() == 0 {
        assert(first + second =~= first);
    } else {
        lemma_scan_concat(state, first, second.drop_last());
        assert((first + second).drop_last() =~= first + second.drop_last());
        assert((first + second).last() == second.last());
    }
}

/// Reading a text of one character is one step.
proof fn lemma_scan_one(state: Scan, c: char)
    ensures
        scan_from(state, seq![c]) == scan_step(state, c),
{
    assert(seq![c].drop_last() =~= Seq::<char>::empty());
    assert(seq![c].last() == c);
    assert(scan_from(state, Seq::<char>::empty()) == state);
}

/// Inside an escape sequence, characters other than `m` change nothing.
proof fn lemma_inside_escape(state: Scan, body: Seq<char>)
    requires
        state.in_escape,
        no_terminator(body),
    ensures
        scan_from(state, body) == state,
    decreases body.len(),
{
    if body.len() > 0 {
        assert(no_terminator(body.drop_last())) by {
            assert forall|i: int| 0 <= i < body.drop_last().len() implies body.drop_last()[i]
                != 'm' by {
                assert(body.drop_last()[i] == body[i]);
            }
        }
        lemma_inside_escape(state, body.drop_last());
        assert(body.last() == body[body.len() - 1]);
    }
}

/// A whole escape sequence yields no glyph and changes nothing.
proof fn lemma_escape_sequence(state: Scan, body: Seq<char>)
    requires
        !state.in_escape,
        no_terminator(body),
    ensures
        scan_from(state, seq!['\x1B'] + body + seq!['m']) == state,
{
    let opened = Scan { rows: state.rows, line: state.line, in_escape: true };
    lemma_scan_one(state, '\x1B');
    lemma_inside_escape(opened, body);
    lemma_scan_one(opened, 'm');
    lemma_scan_concat(state, seq!['\x1B'], body);
    lemma_scan_concat(state, seq!['\x1B'] + body, seq!['m']);
}

/// A glyph is neither the escape character nor a line feed.
proof fn lemma_glyph_is_plain(c: char)
    requires
        is_glyph(c),
    ensures
        c != '\x1B',
        c != '\n',
{
    if !is_stroke(c) {
        let i = choose|i: int| 0 <= i < ramp().len() && ramp()[i] == c;
        assert(0 <= i < 12);
    }
}

/// Joining two texts without an `m` gives a text without an `m`.
proof fn lemma_no_terminator_concat(first: Seq<char>, second: Seq<char>)
    requires
        no_terminator(first),
        no_terminator(second),
    ensures
        no_terminator(first + second),
{
    assert forall|i: int| 0 <= i < (first + second).len() implies (first + second)[i] != 'm' by {
        if i < first.len() {
            assert((first + second)[i] == first[i]);
        } else {
            assert((first + second)[i] == second[i - first.len()]);
        }
    }
}

/// The digits of a byte hold no `m`.
proof fn lemma_decimal_plain(n: int)
    requires
        0 <= n <= 255,
    ensures
        no_terminator(decimal(n)),
{
    assert forall|d: int| 0 <= d <= 9 implies #[trigger] digits()[d] != 'm' by {}
    assert(0 <= n / 100 <= 9 && 0 <= (n / 10) % 10 <= 9 && 0 <= n % 10 <= 9);
    if n < 100 {
        assert(0 <= n / 10 <= 9);
    }
}

/// The text that sets a true colour is one escape sequence.
proof fn lemma_scan_true_color(state: Scan, color: RGBColor)
    requires
        !state.in_escape,
    ensures
        scan_from(state, true_color_text(color)) == state,
{
    let red = decimal(color.r as int);
    let green = decimal(color.g as int);
    let blue = decimal(color.b as int);
    lemma_decimal_plain(color.r as int);
    lemma_decimal_plain(color.g as int);
    lemma_decimal_plain(color.b as int);
    let opening = seq!['[', '3', '8', ';', '2', ';'];
    assert(no_terminator(opening));
    assert(no_terminator(seq![';']));
    lemma_no_terminator_concat(opening, red);
    lemma_no_terminator_concat(opening + red, seq![';']);
    lemma_no_terminator_concat(opening + red + seq![';'], green);
    lemma_no_terminator_concat(opening + red + seq![';'] + green, seq![';']);
    lemma_no_terminator_concat(opening + red + seq![';'] + green + seq![';'], blue);
    let body = opening + red + seq![';'] + green + seq![';'] + blue;
    assert(true_color_prefix() =~= seq!['\x1B'] + opening);
    assert(true_color_text(color) =~= seq!['\x1B'] + body + seq!['m']);
    lemma_escape_sequence(state, body);
}

/// The text that ends a colour is one escape sequence.
proof fn lemma_scan_reset(state: Scan)
    requires
        !state.in_escape,
    ensures
        scan_from(state, reset_text()) == state,
{
    assert(no_terminator(seq!['[', '0']));
    assert(reset_text() =~= seq!['\x1B'] + seq!['[', '0'] + seq!['m']);
    lemma_escape_sequence(state, seq!['[', '0']);
}

/// The text that sets the colour of a category is one escape sequence.
proof fn lemma_scan_category(state: Scan, category: ColorCategory)
    requires
        !state.in_escape,
    ensures
        scan_from(state, category.escape_spec()) == state,
{
    let code = category.escape_spec();
    let body = code.subrange(1, 4);
    assert(no_terminator(body));
    assert(code =~= seq!['\x1B'] + body + seq!['m']);
    lemma_escape_sequence(state, body);
}

/// The text of a cell yields its glyph and nothing else.
proof fn lemma_scan_cell(state: Scan, cell: (RGBColor, char), mode: RenderMode)
    requires
        !state.in_escape,
        is_glyph(cell.1),
    ensures
        scan_from(state, cell_text(cell, mode)) == (Scan {
            rows: state.rows,
            line: state.line.push(cell.1),
            in_escape: false,
        }),
{
    lemma_glyph_is_plain(cell.1);
    let drawn = Scan { rows: state.rows, line: state.line.push(cell.1), in_escape: false };
    lemma_scan_one(state, cell.1);
    match mode {
        RenderMode::TrueColor => {
            let color = true_color_text(cell.0);
            lemma_scan_true_color(state, cell.0);
            lemma_scan_reset(drawn);
            lemma_scan_concat(state, color, seq![cell.1]);
            lemma_scan_concat(state, color + seq![cell.1], reset_text());
        },
        RenderMode::CategoricalAnsi => {
            let code = category_of(cell.0).escape_spec();
            lemma_scan_category(state, category_of(cell.0));
            lemma_scan_concat(state, code, seq![cell.1]);
        },
    }
}

/// The text of a row of cells yields the glyphs of the row.
proof fn lemma_scan_row(state: Scan, row: Seq<(RGBColor, char)>, mode: RenderMode)
    requires
        !state.in_escape,
        forall|x: int| 0 <= x < row.len() ==> is_glyph((#[trigger] row[x]).1),
    ensures
        scan_from(state, row_text(row, mode)) == (Scan {
            rows: state.rows,
            line: state.line + glyph_line(row),
            in_escape: false,
        }),
    decreases row.len(),
{
    if row.len() == 0 {
        assert(state.line + glyph_line(row) =~= state.line);
    } else {
        let front = row.drop_last();
        assert forall|x: int| 0 <= x < front.len() implies is_glyph((#[trigger] front[x]).1) by {
            assert(front[x] == row[x]);
        }
        lemma_scan_row(state, front, mode);
        let middle = Scan {
            rows: state.rows,
            line: state.line + glyph_line(front),
            in_escape: false,
        };
        assert(is_glyph(row[row.len() - 1].1));
        lemma_scan_cell(middle, row.last(), mode);
        lemma_scan_concat(state, row_text(front, mode), cell_text(row.last(), mode));
        assert((state.line + glyph_line(front)).push(row.last().1) =~= state.line + glyph_line(
            row,
        ));
    }
}

/// The text of rows of cells yields their glyphs, row by row, and leaves no
/// row open.
proof fn lemma_scan_rows(cells: Seq<Seq<(RGBColor, char)>>, mode: RenderMode)
    requires
        has_glyphs(cells),
    ensures
        scan_from(scan_start(), rows_text(cells, mode)) == (Scan {
            rows: glyphs_of(cells),
            line: Seq::empty(),
            in_escape: false,
        }),
    decreases cells.len(),
{
    if cells.len() == 0 {
        assert(glyphs_of(cells) =~= Seq::empty());
    } else {
        let front = cells.drop_last();
        let row = cells.last();
        assert(has_glyphs(front)) by {
            assert forall|y: int, x: int|
                0 <= y < front.len() && 0 <= x < front[y].len() implies is_glyph(
                (#[trigger] front[y][x]).1,
            ) by {
                assert(front[y][x] == cells[y][x]);
            }
        }
        lemma_scan_rows(front, mode);
        let closed = Scan { rows: glyphs_of(front), line: Seq::empty(), in_escape: false };
        assert forall|x: int| 0 <= x < row.len() implies is_glyph((#[trigger] row[x]).1) by {
            assert(row[x] == cells[cells.len() - 1][x]);
        }
        lemma_scan_row(closed, row, mode);
        let filled = Scan {
            rows: glyphs_of(front),
            line: Seq::<char>::empty() + glyph_line(row),
            in_escape: false,
        };
        assert(Seq::<char>::empty() + glyph_line(row) =~= glyph_line(row));
        lemma_scan_one(filled, '\n');
        lemma_scan_concat(scan_start(), rows_text(front, mode), row_text(row, mode));
        lemma_scan_concat(
            scan_start(),
            rows_text(front, mode) + row_text(row, mode),
            seq!['\n'],
        );
        assert(glyphs_of(front).push(glyph_line(row)) =~= glyphs_of(cells));
    }
}

/// Reading the text of a picture gives back its glyphs, in either mode: the
/// same number of rows, and in each row the same glyphs.
pub proof fn lemma_round_trip(cells: Seq<Seq<(RGBColor, char)>>, mode: RenderMode)
    requires
        has_glyphs(cells),
    ensures
        glyph_rows(frame_text(cells, mode)) == glyphs_of(cells),
{
    lemma_scan_rows(cells, mode);
    let closed = Scan { rows: glyphs_of(cells), line: Seq::empty(), in_escape: false };
    lemma_scan_reset(closed);
    lemma_scan_concat(scan_start(), rows_text(cells, mode), reset_text());
}

/// Reading the text of a picture of `height` rows of `width` cells gives
/// `height` rows of `width` glyphs.
pub proof fn lemma_round_trip_shape(
    cells: Seq<Seq<(RGBColor, char)>>,
    mode: RenderMode,
    width: int,
    height: int,
)
    requires
        has_glyphs(cells),
        has_shape(cells, width, height),
    ensures
        glyph_rows(frame_text(cells, mode)).len() == height,
        forall|y: int|
            0 <= y < height ==> (#[trigger] glyph_rows(frame_text(cells, mode))[y]).len() == width,
{
    lemma_round_trip(cells, mode);
}

} // verus!
