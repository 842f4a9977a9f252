//! The gradient field: the Sobel operator over a grey field.
//!
//! A field of `width * height` cells is stored row by row; the cell in column
//! `x` of row `y` has the index `y * width + x`.  The two kernels are
//!
//! ```text
//!      -1  0  1          1  2  1
//!      -2  0  2          0  0  0
//!      -1  0  1         -1 -2 -1
//! ```
//!
//! and they are applied to the cells that have all eight neighbours.  A cell
//! on the border of the field has the gradient zero.

use vstd::prelude::*;
use vstd::arithmetic::div_mod::lemma_fundamental_div_mod_converse;
use crate::glyph::GRAY_ONE;
use crate::image_processing::gray_levels;

verus! {

/// The index of the cell in column `x` of row `y`.
pub open spec fn cell_index(width: int, x: int, y: int) -> int {
    y * width + x
}

/// Whether the cell in column `x` of row `y` has all eight neighbours.
pub open spec fn is_interior(width: int, height: int, x: int, y: int) -> bool {
    1 <= x < width - 1 && 1 <= y < height - 1
}

/// The grey level of the cell in column `x` of row `y`.
pub open spec fn gray_at(field: Seq<u32>, width: int, x: int, y: int) -> int {
    field[cell_index(width, x, y)] as int
}

/// The horizontal kernel at an interior cell: the column to the right minus
/// the column to the left, the middle row counted twice.
pub open spec fn sobel_x(field: Seq<u32>, width: int, x: int, y: int) -> int {
    (gray_at(field, width, x + 1, y - 1) + 2 * gray_at(field, width, x + 1, y) + gray_at(
        field,
        width,
        x + 1,
        y + 1,
    )) - (gray_at(field, width, x - 1, y - 1) + 2 * gray_at(field, width, x - 1, y) + gray_at(
        field,
        width,
        x - 1,
        y + 1,
    ))
}

/// The vertical kernel at an interior cell: the row above minus the row
/// below, the middle column counted twice.
pub open spec fn sobel_y(field: Seq<u32>, width: int, x: int, y: int) -> int {
    (gray_at(field, width, x - 1, y - 1) + 2 * gray_at(field, width, x, y - 1) + gray_at(
        field,
        width,
        x + 1,
        y - 1,
    )) - (gray_at(field, width, x - 1, y + 1) + 2 * gray_at(field, width, x, y + 1) + gray_at(
        field,
        width,
        x + 1,
        y + 1,
    ))
}

/// The horizontal gradient of a cell: the kernel in the interior, zero on the
/// border.
pub open spec fn gradient_x(field: Seq<u32>, width: int, height: int, x: int, y: int) -> int {
    if is_interior(width, height, x, y) {
        sobel_x(field, width, x, y)
    } else {
        0
    }
}

/// The vertical gradient of a cell: the kernel in the interior, zero on the
/// border.
pub open spec fn gradient_y(field: Seq<u32>, width: int, height: int, x: int, y: int) -> int {
    if is_interior(width, height, x, y) {
        sobel_y(field, width, x, y)
    } else {
        0
    }
}

/// The field of horizontal gradients.
pub open spec fn gradient_x_field(field: Seq<u32>, width: int, height: int) -> Seq<i32> {
    Seq::new(
        (width * height) as nat,
        |k: int| gradient_x(field, width, height, k % width, k / width) as i32,
    )
}

/// The field of vertical gradients.
pub open spec fn gradient_y_field(field: Seq<u32>, width: int, height: int) -> Seq<i32> {
    Seq::new(
        (width * height) as nat,
        |k: int| gradient_y(field, width, height, k % width, k / width) as i32,
    )
}

/// The index of a cell of the field lies in the field, and gives back its
/// column and its row.
pub proof fn lemma_cell_index(width: int, height: int, x: int, y: int)
    requires
        0 <= x < width,
        0 <= y < height,
    ensures
        0 <= cell_index(width, x, y) < width * height,
        cell_index(width, x, y) % width == x,
        cell_index(width, x, y) / width == y,
{
    assert(0 <= y * width && (y + 1) * width <= height * width && (y + 1) * width == y * width
        + width && height * width == width * height) by (nonlinear_arith)
        requires
            0 <= y < height,
            0 < width,
    ;
    lemma_fundamental_div_mod_converse(cell_index(width, x, y), width, y, x);
}

/// Where every grey level is at most one, a gradient is at most four.
pub proof fn lemma_gradient_bound(field: Seq<u32>, width: int, height: int, x: int, y: int)
    requires
        field.len() == width * height,
        gray_levels(field),
        0 <= x < width,
        0 <= y < height,
    ensures
        -4 * GRAY_ONE <= gradient_x(field, width, height, x, y) <= 4 * GRAY_ONE,
        -4 * GRAY_ONE <= gradient_y(field, width, height, x, y) <= 4 * GRAY_ONE,
{
    if is_interior(width, height, x, y) {
        lemma_cell_index(width, height, x - 1, y - 1);
        lemma_cell_index(width, height, x, y - 1);
        lemma_cell_index(width, height, x + 1, y - 1);
        lemma_cell_index(width, height, x - 1, y);
        lemma_cell_index(width, height, x + 1, y);
        lemma_cell_index(width, height, x - 1, y + 1);
        lemma_cell_index(width, height, x, y + 1);
        lemma_cell_index(width, height, x + 1, y + 1);
    }
}

/// The gradient of a cell on the border of the field is zero, whatever the
/// field holds and whatever its size.
pub proof fn lemma_border_is_zero(field: Seq<u32>, width: int, height: int, x: int, y: int)
    requires
        0 <= x < width,
        0 <= y < height,
        x == 0 || x == width - 1 || y == 0 || y == height - 1,
    ensures
        gradient_x_field(field, width, height)[cell_index(width, x, y)] == 0,
        gradient_y_field(field, width, height)[cell_index(width, x, y)] == 0,
{
    lemma_cell_index(width, height, x, y);
}

/// The value of the gradient fields at the cell in column `x` of row `y`.
pub proof fn lemma_gradient_at(field: Seq<u32>, width: int, height: int, x: int, y: int)
    requires
        field.len() == width * height,
        gray_levels(field),
        0 <= x < width,
        0 <= y < height,
    ensures
        gradient_x_field(field, width, height)[cell_index(width, x, y)] == gradient_x(
            field,
            width,
            height,
            x,
            y,
        ),
        gradient_y_field(field, width, height)[cell_index(width, x, y)] == gradient_y(
            field,
            width,
            height,
            x,
            y,
        ),
{
    lemma_cell_index(width, height, x, y);
    lemma_gradient_bound(field, width, height, x, y);
}

/// The gradient fields of a grey field of `width * height` cells whose levels
/// are at most one: the Sobel kernels in the interior, zero on the border.
pub fn get_sobel(grayscale: &[u32], width: usize, height: usize) -> (sobel: (Vec<i32>, Vec<i32>))
    requires
        grayscale@.len() == width * height,
        gray_levels(grayscale@),
    ensures
        sobel.0@ == gradient_x_field(grayscale@, width as int, height as int),
        sobel.1@ == gradient_y_field(grayscale@, width as int, height as int),
{
    let cells: usize = grayscale.len();
    let mut sobel_x_field: Vec<i32> = Vec::with_capacity(cells);
    let mut sobel_y_field: Vec<i32> = Vec::with_capacity(cells);
    let ghost field = grayscale@;
    let ghost w = width as int;
    let ghost h = height as int;
    let mut y: usize = 0;
    let mut row: usize = 0;
    while y < height
        invariant
            y <= height,
            row == y * width,
            cells == width * height,
            field == grayscale@,
            field.len() == cells,
            gray_levels(field),
            w == width,
            h == height,
            sobel_x_field@.len() == row,
            sobel_y_field@.len() == row,
            forall|k: int|
                0 <= k < row ==> #[trigger] sobel_x_field@[k] == gradient_x(
                    field,
                    w,
                    h,
                    k % w,
                    k / w,
                ),
            forall|k: int|
                0 <= k < row ==> #[trigger] sobel_y_field@[k] == gradient_y(
                    field,
                    w,
                    h,
                    k % w,
                    k / w,
                ),
        decreases height - y,
    {
        let mut x: usize = 0;
        assert(row + width <= cells && (y + 1) * width == row + width) by (nonlinear_arith)
            requires
                y < height,
                row == y * width,
                cells == width * height,
        ;
        while x < width
            invariant
                x <= width,
                y < height,
                row == y * width,
                row + width <= cells,
                cells == width * height,
                field == grayscale@,
                field.len() == cells,
                gray_levels(field),
                w == width,
                h == height,
                sobel_x_field@.len() == row + x,
                sobel_y_field@.len() == row + x,
                forall|k: int|
                    0 <= k < row + x ==> #[trigger] sobel_x_field@[k] == gradient_x(
                        field,
                        w,
                        h,
                        k % w,
                        k / w,
                    ),
                forall|k: int|
                    0 <= k < row + x ==> #[trigger] sobel_y_field@[k] == gradient_y(
                        field,
                        w,
                        h,
                        k % w,
                        k / w,
                    ),
            decreases width - x,
        {
            proof {
                lemma_cell_index(w, h, x as int, y as int);
                lemma_gradient_bound(field, w, h, x as int, y as int);
            }
            let mut sum_x: i32 = 0;
            let mut sum_y: i32 = 0;
            if 1 <= x && x + 1 < width && 1 <= y && y + 1 < height {
                proof {
                    lemma_cell_index(w, h, x - 1, y - 1);
                    lemma_cell_index(w, h, x as int, y - 1);
                    lemma_cell_index(w, h, x + 1, y - 1);
                    lemma_cell_index(w, h, x - 1, y as int);
                    lemma_cell_index(w, h, x + 1, y as int);
                    lemma_cell_index(w, h, x - 1, y + 1);
                    lemma_cell_index(w, h, x as int, y + 1);
                    lemma_cell_index(w, h, x + 1, y + 1);
                    assert((y - 1) * w == row - w && (y + 1) * w == row + w) by (nonlinear_arith)
                        requires
                            row == y * w,
                    ;
                }
                let above: usize = row - width + x;
                let here: usize = row + x;
                let below: usize = row + width + x;
                let nw: i32 = grayscale[above - 1] as i32;
                let n: i32 = grayscale[above] as i32;
                let ne: i32 = grayscale[above + 1] as i32;
                let west: i32 = grayscale[here - 1] as i32;
                let east: i32 = grayscale[here + 1] as i32;
                let sw: i32 = grayscale[below - 1] as i32;
                let s: i32 = grayscale[below] as i32;
                let se: i32 = grayscale[below + 1] as i32;
                sum_x = (ne + 2 * east + se) - (nw + 2 * west + sw);
                sum_y = (nw + 2 * n + ne) - (sw + 2 * s + se);
            }
            sobel_x_field.push(sum_x);
            sobel_y_field.push(sum_y);
            x += 1;
        }
        row += width;
        y += 1;
    }
    proof {
        assert(row == cells) by (nonlinear_arith)
            requires
                row == y * width,
                y == height,
                cells == width * height,
        ;
        assert(sobel_x_field@ =~= gradient_x_field(field, w, h));
        assert(sobel_y_field@ =~= gradient_y_field(field, w, h));
    }
    (sobel_x_field, sobel_y_field)
}

} // verus!
