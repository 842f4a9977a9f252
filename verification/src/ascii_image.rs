//! The frame: a grid of coloured glyphs, one for each pixel of an image.

use vstd::prelude::*;
use crate::color::{rgb_to_hsv, HsvView};
use crate::error::AsciiError;
use crate::glyph::{
    get_ascii_char,
    get_gradient_char,
    is_edge,
    is_edge_spec,
    is_glyph,
    ramp_glyph,
    stroke_of_gradient,
    GRAY_ONE,
};
use crate::gradient::{
    cell_index,
    get_sobel,
    gradient_x,
    gradient_y,
    lemma_cell_index,
    lemma_gradient_at,
};
use crate::argparse::Args;
use crate::image_processing::{
    load_and_resize_image,
    make_grayscale,
    planned_size,
    resized_pixels,
    ImageData,
    Pixels,
};
use crate::ratio::{Frac, Ratio};

verus! {

/// The colour of a cell: the red, green and blue bytes of its pixel, each
/// standing for `byte / 255`.
#[derive(Clone, Copy, Debug, PartialEq, Eq, Structural)]
pub struct RGBColor {
    pub r: u8,
    pub g: u8,
    pub b: u8,
}

/// What to draw and how large.
pub struct Arguments {
    /// Where the image was read from.
    pub file_path: String,
    /// The largest width of the picture, in characters.
    pub max_width: usize,
    /// The largest height of the picture, in characters.
    pub max_height: usize,
    /// How many times a character is taller than it is wide.
    pub character_ratio: Ratio,
    /// The length of gradient from which a cell is drawn as an edge; four or
    /// more switches edges off.
    pub edge_threshold: Ratio,
}

/// Whether edges are looked for at all: the threshold is below four.
pub open spec fn edges_enabled(threshold: Frac) -> bool {
    threshold.lt(Frac::whole(4))
}

/// Whether edges are looked for at all under the given threshold: the
/// switch that a threshold of four or more turns off.
pub fn detects_edges(threshold: &Ratio) -> (enabled: bool)
    ensures
        enabled == edges_enabled(threshold@),
{
    threshold.lt(&Ratio::whole(4))
}

/// The colour of the cell in column `x` of row `y`.
pub open spec fn cell_color(image: Pixels, x: int, y: int) -> RGBColor {
    let i = cell_index(image.width, x, y);
    RGBColor { r: image.red(i), g: image.green(i), b: image.blue(i) }
}

/// The luminance of the cell in column `x` of row `y`: the square of the
/// value of its pixel.
pub open spec fn cell_luminance(image: Pixels, x: int, y: int) -> Frac {
    let color = cell_color(image, x, y);
    HsvView::of_rgb(color.r as int, color.g as int, color.b as int).luminance()
}

/// The horizontal gradient that decides on the cell in column `x` of row `y`:
/// zero where edges are switched off.
pub open spec fn cell_gradient_x(image: Pixels, threshold: Frac, x: int, y: int) -> int {
    if edges_enabled(threshold) {
        gradient_x(image.gray_field(), image.width, image.height, x, y)
    } else {
        0
    }
}

/// The vertical gradient that decides on the cell in column `x` of row `y`:
/// zero where edges are switched off.
pub open spec fn cell_gradient_y(image: Pixels, threshold: Frac, x: int, y: int) -> int {
    if edges_enabled(threshold) {
        gradient_y(image.gray_field(), image.width, image.height, x, y)
    } else {
        0
    }
}

/// The glyph of the cell in column `x` of row `y`: a stroke where the
/// gradient marks an edge, and the ramp glyph of the luminance elsewhere.
pub open spec fn cell_glyph(image: Pixels, threshold: Frac, x: int, y: int) -> char {
    let sx = cell_gradient_x(image, threshold, x, y);
    let sy = cell_gradient_y(image, threshold, x, y);
    if is_edge_spec(sx, sy, threshold) {
        stroke_of_gradient(sx, sy)
    } else {
        ramp_glyph(cell_luminance(image, x, y))
    }
}

/// The cells of a grid, row by row.
pub open spec fn cells_of(grid: Seq<Vec<(RGBColor, char)>>) -> Seq<Seq<(RGBColor, char)>> {
    Seq::new(grid.len(), |y: int| grid[y]@)
}

/// Whether `cells` has `height` rows of `width` cells.
pub open spec fn has_shape(cells: Seq<Seq<(RGBColor, char)>>, width: int, height: int) -> bool {
    &&& cells.len() == height
    &&& forall|y: int| 0 <= y < height ==> (#[trigger] cells[y]).len() == width
}

/// Whether every cell holds a character of the ramp or a stroke.
pub open spec fn has_glyphs(cells: Seq<Seq<(RGBColor, char)>>) -> bool {
    forall|y: int, x: int|
        0 <= y < cells.len() && 0 <= x < cells[y].len() ==> is_glyph((#[trigger] cells[y][x]).1)
}

/// The frame of `image` under `threshold`: one row for each row of pixels,
/// and in each cell the colour of its pixel and its glyph.
pub open spec fn frame_of(image: Pixels, threshold: Frac) -> Seq<Seq<(RGBColor, char)>> {
    Seq::new(
        image.height as nat,
        |y: int|
            Seq::new(
                image.width as nat,
                |x: int| (cell_color(image, x, y), cell_glyph(image, threshold, x, y)),
            ),
    )
}

/// A picture in characters.
#[derive(Debug)]
pub struct AsciImage {
    /// The number of rows.
    pub height: usize,
    /// The number of cells in a row.
    pub width: usize,
    /// The edge threshold that the picture was made with.
    pub threshold: Ratio,
    /// The aspect ratio of a character that the picture was sized for.
    pub character_ratio: Ratio,
    /// The cells, row by row: the colour and the glyph of each.
    pub converted_image: Vec<Vec<(RGBColor, char)>>,
}

impl View for AsciImage {
    type V = Seq<Seq<(RGBColor, char)>>;

    /// The cells of the picture, row by row.
    open spec fn view(&self) -> Seq<Seq<(RGBColor, char)>> {
        cells_of(self.converted_image@)
    }
}

impl AsciImage {
    /// The picture has `height` rows of `width` cells, and each cell holds a
    /// character of the ramp or a stroke.
    pub open spec fn well_formed(&self) -> bool {
        &&& has_shape(self@, self.width as int, self.height as int)
        &&& has_glyphs(self@)
    }

    /// The picture of an image, from what opening and decoding the image
    /// gave.
    ///
    /// A failure to open or decode is handed on with its reason, unchanged.
    /// An image that was decoded is resized to fit the limits of `args`, and
    /// the picture is the frame of the resized image; where no size fits,
    /// the image is refused.
    pub fn from_args(args: &Arguments, decoded: Result<ImageData, String>) -> (result: Result<
        AsciImage,
        AsciiError,
    >)
        ensures
            match decoded {
                Err(reason) => result matches Err(AsciiError::DecodeFailure(text)) && text
                    == reason,
                Ok(source) => {
                    let plan = planned_size(
                        source@,
                        args.max_width as int,
                        args.max_height as int,
                        args.character_ratio@,
                    );
                    &&& result is Ok <==> plan is Some
                    &&& result matches Err(e) ==> e is InvalidDimensions
                    &&& result matches Ok(picture) ==> {
                        &&& plan == Some((picture.width as int, picture.height as int))
                        &&& picture@ == frame_of(
                            resized_pixels(source@, picture.width as int, picture.height as int),
                            args.edge_threshold@,
                        )
                        &&& picture.well_formed()
                        &&& picture.threshold@ == args.edge_threshold@
                        &&& picture.character_ratio@ == args.character_ratio@
                    }
                },
            },
    {
        let sizing = Args {
            file_path: args.file_path.clone(),
            max_width: args.max_width,
            max_height: args.max_height,
            character_ratio: args.character_ratio,
            edge_threshold: args.edge_threshold,
        };
        let img_data = match load_and_resize_image(decoded, &sizing) {
            Err(e) => {
                return Err(e);
            },
            Ok(img_data) => img_data,
        };
        match Self::convert_to_ascii(&img_data, &args.edge_threshold) {
            Err(e) => Err(e),
            Ok(converted_image) => Ok(
                AsciImage {
                    height: img_data.height,
                    width: img_data.width,
                    threshold: args.edge_threshold,
                    character_ratio: args.character_ratio,
                    converted_image,
                },
            ),
        }
    }

    /// The frame of an image: for each pixel its colour and its glyph.
    ///
    /// An image without pixels, or whose buffer does not hold four bytes for
    /// each pixel, is refused.
    pub fn convert_to_ascii(image_data: &ImageData, threshold: &Ratio) -> (result: Result<
        Vec<Vec<(RGBColor, char)>>,
        AsciiError,
    >)
        ensures
            result is Ok <==> image_data.drawable(),
            result matches Err(e) ==> e is InvalidDimensions,
            result matches Ok(grid) ==> {
                &&& cells_of(grid@) == frame_of(image_data@, threshold@)
                &&& has_shape(cells_of(grid@), image_data.width as int, image_data.height as int)
                &&& has_glyphs(cells_of(grid@))
            },
    {
        if image_data.width == 0 || image_data.height == 0 || !image_data.is_well_formed() {
            return Err(AsciiError::InvalidDimensions);
        }
        let width: usize = image_data.width;
        let height: usize = image_data.height;
        let cells: usize = image_data.data.len() / 4;
        let grayscale = make_grayscale(image_data);
        let enabled: bool = detects_edges(threshold);
        let (sobel_x, sobel_y) = if enabled {
            get_sobel(grayscale.as_slice(), width, height)
        } else {
            (vec![0i32; cells], vec![0i32; cells])
        };
        let ghost field = image_data@.gray_field();
        let ghost pixels = image_data@;
        let ghost w = width as int;
        let ghost h = height as int;
        let ghost t = threshold@;
        assert forall|x: int, y: int| 0 <= x < w && 0 <= y < h implies #[trigger] sobel_x@[cell_index(
            w,
            x,
            y,
        )] == cell_gradient_x(pixels, t, x, y) && sobel_y@[cell_index(w, x, y)]
            == cell_gradient_y(pixels, t, x, y) by {
            lemma_cell_index(w, h, x, y);
            if enabled {
                lemma_gradient_at(field, w, h, x, y);
            }
        }
        let mut ascii_image: Vec<Vec<(RGBColor, char)>> = Vec::with_capacity(height);
        let mut y: usize = 0;
        let mut start: usize = 0;
        while y < height
            invariant
                y <= height,
                start == y * width,
                width == image_data.width,
                height == image_data.height,
                w == width,
                h == height,
                t == threshold@,
                pixels == image_data@,
                image_data.drawable(),
                cells == width * height,
                image_data.data@.len() == cells * 4,
                cells * 4 <= usize::MAX,
                sobel_x@.len() == cells,
                sobel_y@.len() == cells,
                forall|x: int, y: int|
                    0 <= x < w && 0 <= y < h ==> #[trigger] sobel_x@[cell_index(w, x, y)]
                        == cell_gradient_x(pixels, t, x, y) && sobel_y@[cell_index(w, x, y)]
                        == cell_gradient_y(pixels, t, x, y),
                ascii_image@.len() == y,
                forall|j: int| 0 <= j < y ==> (#[trigger] ascii_image@[j])@.len() == width,
                forall|j: int, i: int|
                    0 <= j < y && 0 <= i < width ==> #[trigger] ascii_image@[j]@[i] == (
                        cell_color(pixels, i, j),
                        cell_glyph(pixels, t, i, j),
                    ),
                forall|j: int, i: int|
                    0 <= j < y && 0 <= i < width ==> is_glyph((#[trigger] ascii_image@[j]@[i]).1),
            decreases height - y,
        {
            let mut row: Vec<(RGBColor, char)> = Vec::with_capacity(width);
            let mut x: usize = 0;
            while x < width
                invariant
                    x <= width,
                    y < height,
                    start == y * width,
                    width == image_data.width,
                    height == image_data.height,
                    w == width,
                    h == height,
                    t == threshold@,
                    pixels == image_data@,
                    image_data.drawable(),
                    cells == width * height,
                    image_data.data@.len() == cells * 4,
                cells * 4 <= usize::MAX,
                    sobel_x@.len() == cells,
                    sobel_y@.len() == cells,
                    forall|x: int, y: int|
                        0 <= x < w && 0 <= y < h ==> #[trigger] sobel_x@[cell_index(w, x, y)]
                            == cell_gradient_x(pixels, t, x, y) && sobel_y@[cell_index(
                            w,
                            x,
                            y,
                        )] == cell_gradient_y(pixels, t, x, y),
                    row@.len() == x,
                    forall|i: int|
                        0 <= i < x ==> #[trigger] row@[i] == (
                            cell_color(pixels, i, y as int),
                            cell_glyph(pixels, t, i, y as int),
                        ),
                    forall|i: int| 0 <= i < x ==> is_glyph((#[trigger] row@[i]).1),
                decreases width - x,
            {
                proof {
                    lemma_cell_index(w, h, x as int, y as int);
                    assert(sobel_x@[cell_index(w, x as int, y as int)] == cell_gradient_x(
                        pixels,
                        t,
                        x as int,
                        y as int,
                    ));
                }
                let idx: usize = start + x;
                let pixel_idx: usize = idx * 4;
                let r: u8 = image_data.data[pixel_idx];
                let g: u8 = image_data.data[pixel_idx + 1];
                let b: u8 = image_data.data[pixel_idx + 2];
                let sx: i32 = sobel_x[idx];
                let sy: i32 = sobel_y[idx];
                let ascii_char = if is_edge(sx, sy, threshold) {
                    get_gradient_char(sx, sy)
                } else {
                    get_ascii_char(rgb_to_hsv(r, g, b).luminance())
                };
                row.push((RGBColor { r, g, b }, ascii_char));
                x += 1;
            }
            ascii_image.push(row);
            assert((y + 1) * width == start + width) by (nonlinear_arith)
                requires
                    start == y * width,
            ;
            assert(start + width <= cells) by (nonlinear_arith)
                requires
                    start == y * width,
                    y < height,
                    cells == width * height,
            ;
            start += width;
            y += 1;
        }
        assert(cells_of(ascii_image@) =~~= frame_of(pixels, t));
        Ok(ascii_image)
    }
}

/// With a threshold of four or more, every glyph is the ramp glyph of the
/// luminance of its pixel: the gradient has no say.
pub proof fn lemma_flat_without_edges(image: Pixels, threshold: Frac, x: int, y: int)
    requires
        threshold.wf(),
        threshold.ge(Frac::whole(4)),
    ensures
        cell_glyph(image, threshold, x, y) == ramp_glyph(cell_luminance(image, x, y)),
{
    assert(!edges_enabled(threshold));
    assert((threshold.num * threshold.num) * (GRAY_ONE * GRAY_ONE) > 0) by (nonlinear_arith)
        requires
            threshold.num >= 4 * threshold.den,
            threshold.den > 0,
            GRAY_ONE == 2_550_000,
    ;
    assert((0 * 0 + 0 * 0) * (threshold.den * threshold.den) == 0) by (nonlinear_arith);
}

} // verus!
