//! Pixel buffers and the grey field that is derived from one.

use vstd::prelude::*;
use crate::argparse::Args;
use crate::error::AsciiError;
use crate::glyph::GRAY_ONE;
use crate::ratio::{Frac, Ratio};

verus! {

/// A decoded image: four bytes for each pixel (red, green, blue, alpha), row
/// by row from the top left.
pub struct ImageData {
    pub width: usize,
    pub height: usize,
    pub data: Vec<u8>,
}

/// What an [`ImageData`] stands for: a width, a height and the bytes of the
/// pixels.
pub struct Pixels {
    pub width: int,
    pub height: int,
    pub data: Seq<u8>,
}

impl Pixels {
    /// The buffer holds exactly four bytes for each pixel.
    pub open spec fn well_formed(self) -> bool {
        self.width >= 0 && self.height >= 0 && self.data.len() == self.width * self.height * 4
    }

    /// The buffer is well formed and holds at least one pixel.
    pub open spec fn drawable(self) -> bool {
        self.well_formed() && self.width > 0 && self.height > 0
    }

    /// The red byte of the pixel with the given index.
    pub open spec fn red(self, index: int) -> u8 {
        self.data[4 * index]
    }

    /// The green byte of the pixel with the given index.
    pub open spec fn green(self, index: int) -> u8 {
        self.data[4 * index + 1]
    }

    /// The blue byte of the pixel with the given index.
    pub open spec fn blue(self, index: int) -> u8 {
        self.data[4 * index + 2]
    }

    /// The grey field of the image: the grey level of each pixel.
    pub open spec fn gray_field(self) -> Seq<u32> {
        Seq::new(
            (self.width * self.height) as nat,
            |i: int| luma(self.red(i) as int, self.green(i) as int, self.blue(i) as int) as u32,
        )
    }
}

impl View for ImageData {
    type V = Pixels;

    open spec fn view(&self) -> Pixels {
        Pixels { width: self.width as int, height: self.height as int, data: self.data@ }
    }
}

impl ImageData {
    /// The buffer holds exactly four bytes for each pixel.
    pub open spec fn well_formed(&self) -> bool {
        self@.well_formed()
    }

    /// The buffer is well formed and holds at least one pixel.
    pub open spec fn drawable(&self) -> bool {
        self@.drawable()
    }

    /// Whether the buffer holds exactly four bytes for each pixel.
    pub fn is_well_formed(&self) -> (ok: bool)
        ensures
            ok == self.well_formed(),
    {
        let len: usize = self.data.len();
        match self.width.checked_mul(self.height) {
            None => {
                assert(self.width * self.height * 4 > usize::MAX) by (nonlinear_arith)
                    requires
                        self.width * self.height > usize::MAX,
                ;
                false
            },
            Some(pixels) => match pixels.checked_mul(4) {
                None => false,
                Some(bytes) => bytes == len,
            },
        }
    }
}

/// The grey level of a pixel, in units of `1 / GRAY_ONE`: the channels
/// weighted by 0.2126, 0.7152 and 0.0722.
pub open spec fn luma(red: int, green: int, blue: int) -> int {
    2126 * red + 7152 * green + 722 * blue
}

/// Whether every grey level of a field is at most one.
pub open spec fn gray_levels(field: Seq<u32>) -> bool {
    forall|i: int| 0 <= i < field.len() ==> #[trigger] field[i] <= GRAY_ONE
}

/// The grey field of an image: for each pixel its grey level, from zero for
/// black to `GRAY_ONE` for white.
pub fn make_grayscale(image: &ImageData) -> (grayscale: Vec<u32>)
    requires
        image.well_formed(),
    ensures
        grayscale@ == image@.gray_field(),
        gray_levels(grayscale@),
{
    let bytes: usize = image.data.len();
    let pixels: usize = bytes / 4;
    assert(pixels == image.width * image.height);
    let mut grayscale: Vec<u32> = Vec::with_capacity(pixels);
    let mut i: usize = 0;
    while i < pixels
        invariant
            i <= pixels,
            pixels == image.width * image.height,
            image.data@.len() == pixels * 4,
            pixels * 4 <= usize::MAX,
            grayscale@.len() == i,
            forall|k: int|
                0 <= k < i ==> #[trigger] grayscale@[k] == luma(
                    image@.red(k) as int,
                    image@.green(k) as int,
                    image@.blue(k) as int,
                ),
            forall|k: int| 0 <= k < i ==> #[trigger] grayscale@[k] <= GRAY_ONE,
        decreases pixels - i,
    {
        let at: usize = i * 4;
        let red: u32 = image.data[at] as u32;
        let green: u32 = image.data[at + 1] as u32;
        let blue: u32 = image.data[at + 2] as u32;
        let gray: u32 = 2126 * red + 7152 * green + 722 * blue;
        grayscale.push(gray);
        i += 1;
    }
    assert(grayscale@ =~= image@.gray_field());
    grayscale
}

/// The height that keeps the proportions of an image of `image_w` by `image_h`
/// pixels at a width of `max_w` characters, each `ratio` times taller than
/// wide: `image_h * max_w / (ratio * image_w)`, as a fraction.
pub open spec fn proposed_height(image_w: int, image_h: int, max_w: int, ratio: Frac) -> Frac {
    Frac::new(image_h * max_w * ratio.den, ratio.num * image_w)
}

/// The width that keeps the proportions at a height of `max_h` characters:
/// `ratio * image_w * max_h / image_h`, as a fraction.
pub open spec fn proposed_width(image_w: int, image_h: int, max_h: int, ratio: Frac) -> Frac {
    Frac::new(ratio.num * image_w * max_h, ratio.den * image_h)
}

/// The size of the picture: the full width where the proposed height fits
/// under `max_h`, else the full height; the other side is rounded down.
pub open spec fn fitted_size(image_w: int, image_h: int, max_w: int, max_h: int, ratio: Frac) -> (
    int,
    int,
) {
    let tall = proposed_height(image_w, image_h, max_w, ratio);
    if tall.le(Frac::whole(max_h)) {
        (max_w, tall.floor())
    } else {
        (proposed_width(image_w, image_h, max_h, ratio).floor(), max_h)
    }
}

/// Whether a picture can be sized: the image has pixels, both limits are
/// positive and fit in 32 bits, the ratio is positive, and the fitted size
/// has at least one cell.
pub open spec fn can_fit(image_w: int, image_h: int, max_w: int, max_h: int, ratio: Frac) -> bool {
    &&& image_w > 0
    &&& image_h > 0
    &&& 0 < max_w <= u32::MAX
    &&& 0 < max_h <= u32::MAX
    &&& ratio.num > 0
    &&& fitted_size(image_w, image_h, max_w, max_h, ratio).0 > 0
    &&& fitted_size(image_w, image_h, max_w, max_h, ratio).1 > 0
}

/// The size in characters of the picture of an image of `image_w` by `image_h`
/// pixels, within `max_width` by `max_height` characters.
pub fn target_size(
    image_w: u32,
    image_h: u32,
    max_width: usize,
    max_height: usize,
    ratio: &Ratio,
) -> (result: Result<(u32, u32), AsciiError>)
    ensures
        result is Ok <==> can_fit(
            image_w as int,
            image_h as int,
            max_width as int,
            max_height as int,
            ratio@,
        ),
        result matches Err(e) ==> e is InvalidDimensions,
        result matches Ok(size) ==> {
            &&& (size.0 as int, size.1 as int) == fitted_size(
                image_w as int,
                image_h as int,
                max_width as int,
                max_height as int,
                ratio@,
            )
            &&& 0 < size.0 <= max_width
            &&& 0 < size.1 <= max_height
            &&& size.0 == max_width || size.1 == max_height
        },
{
    let num: i32 = ratio.num();
    let den: u32 = ratio.den();
    if image_w == 0 || image_h == 0 || max_width == 0 || max_height == 0 || num <= 0 {
        return Err(AsciiError::InvalidDimensions);
    }
    if max_width > u32::MAX as usize || max_height > u32::MAX as usize {
        return Err(AsciiError::InvalidDimensions);
    }
    let ow: u128 = image_w as u128;
    let oh: u128 = image_h as u128;
    let mw: u128 = max_width as u128;
    let mh: u128 = max_height as u128;
    let rn: u128 = num as u128;
    let rd: u128 = den as u128;
    proof {
        lemma_triple_fits(oh as int, mw as int, rd as int);
        lemma_triple_fits(rn as int, ow as int, mh as int);
        lemma_triple_fits(mh as int, rn as int, ow as int);
        lemma_triple_fits(rn as int, ow as int, 1);
        lemma_triple_fits(rd as int, oh as int, 1);
        assert(mh * (rn * ow) == rn * ow * mh) by (nonlinear_arith);
        assert(rn * ow > 0 && rd * oh > 0) by (nonlinear_arith)
            requires
                rn > 0,
                ow > 0,
                rd > 0,
                oh > 0,
        ;
    }
    let tall_num: u128 = oh * mw * rd;
    let tall_den: u128 = rn * ow;
    let size: (u128, u128) = if tall_num <= mh * tall_den {
        let tall: u128 = tall_num / tall_den;
        assert(tall <= mh) by (nonlinear_arith)
            requires
                tall == tall_num as int / tall_den as int,
                tall_num <= mh * tall_den,
                tall_den > 0,
        ;
        (mw, tall)
    } else {
        let wide_num: u128 = rn * ow * mh;
        let wide_den: u128 = rd * oh;
        let wide: u128 = wide_num / wide_den;
        assert(wide < mw) by (nonlinear_arith)
            requires
                wide == wide_num as int / wide_den as int,
                wide_num == rn * ow * mh,
                wide_den == rd * oh,
                oh * mw * rd > mh * (rn * ow),
                wide_den > 0,
        ;
        (wide, mh)
    };
    if size.0 == 0 || size.1 == 0 {
        return Err(AsciiError::InvalidDimensions);
    }
    Ok((size.0 as u32, size.1 as u32))
}

/// The product of three numbers below two to the 32nd is below two to the
/// 96th.
proof fn lemma_triple_fits(a: int, b: int, c: int)
    requires
        0 <= a <= 0xffff_ffff,
        0 <= b <= 0xffff_ffff,
        0 <= c <= 0xffff_ffff,
    ensures
        0 <= a * b <= 0xffff_ffff * 0xffff_ffff,
        0 <= a * b * c <= 0xffff_ffff * 0xffff_ffff * 0xffff_ffff,
{
    assert(0 <= a * b <= 0xffff_ffff * 0xffff_ffff) by (nonlinear_arith)
        requires
            0 <= a <= 0xffff_ffff,
            0 <= b <= 0xffff_ffff,
    ;
    assert(0 <= (a * b) * c <= (0xffff_ffff * 0xffff_ffff) * 0xffff_ffff) by (nonlinear_arith)
        requires
            0 <= a * b <= 0xffff_ffff * 0xffff_ffff,
            0 <= c <= 0xffff_ffff,
    ;
}

/// The pixels of an image of `width` by `height` pixels after it was resized
/// to `new_width` by `new_height` pixels with the triangle filter: four bytes
/// for each pixel, as in `data`.
pub uninterp spec fn triangle_resized(
    data: Seq<u8>,
    width: u32,
    height: u32,
    new_width: u32,
    new_height: u32,
) -> Seq<u8>;

/// The longest side, in pixels, of an image that is resized, before and
/// after: two to the twentieth.
pub const MAX_SIDE: u32 = 1_048_576;

/// `image::imageops::resize` with the triangle filter, on a buffer of four
/// bytes for each pixel.  The result has exactly the size asked for, and so
/// four bytes for each of its pixels.
///
/// The call panics on three kinds of input, which the `requires` leaves out.
/// The filter works through a buffer of four numbers for each pixel of
/// `new_height` rows of the old width, and panics where that count or the
/// length of the result does not fit in `usize`.  And it places each pixel of
/// the result among the pixels of the source in 32-bit floating point: the
/// place comes out of three rounded operations, so it is off by at most
/// three parts in two to the 24th of the length of the side, and the ends of
/// the window that is looked at by at most four.  With sides up to
/// [`MAX_SIDE`] that is less than a fifth and at most a quarter of a pixel,
/// so the source pixel nearest to the true place, which is at most half a
/// pixel from it, lies within the window and less than one pixel from the
/// computed place: its weight is positive.  On longer sides every weight of
/// a pixel can come out as zero; the weights are divided by their sum, and
/// the conversion of what is not a number panics.
#[verifier::external_body]
fn resize_rgba(data: &[u8], width: u32, height: u32, new_width: u32, new_height: u32) -> (resized:
    Vec<u8>)
    requires
        data@.len() == 4 * width * height,
        0 < width <= MAX_SIDE,
        0 < height <= MAX_SIDE,
        0 < new_width <= MAX_SIDE,
        0 < new_height <= MAX_SIDE,
        4 * width * new_height <= usize::MAX,
        4 * new_width * new_height <= usize::MAX,
    ensures
        resized@ == triangle_resized(data@, width, height, new_width, new_height),
        resized@.len() == 4 * new_width * new_height,
{
    let source = image::ImageBuffer::<image::Rgba<u8>, &[u8]>::from_raw(width, height, data).unwrap();
    let filter = image::imageops::FilterType::Triangle;
    image::imageops::resize(&source, new_width, new_height, filter).into_raw()
}

/// Whether resizing an image `image_w` pixels wide to `width` by `height`
/// pixels needs no buffer that is larger than the machine can index.
pub open spec fn buffers_fit(image_w: int, width: int, height: int) -> bool {
    4 * image_w * height <= usize::MAX && 4 * width * height <= usize::MAX
}

/// Whether no side of the image or of its resized picture is longer than
/// [`MAX_SIDE`], beyond which the filter cannot place its samples.
pub open spec fn sides_fit(image_w: int, image_h: int, width: int, height: int) -> bool {
    image_w <= MAX_SIDE && image_h <= MAX_SIDE && width <= MAX_SIDE && height <= MAX_SIDE
}

/// The size that an image is resized to within `max_w` by `max_h`
/// characters, where there is one: the image is well formed, a picture can
/// be sized, no side is too long for the filter, and the buffers fit.
pub open spec fn planned_size(source: Pixels, max_w: int, max_h: int, ratio: Frac) -> Option<
    (int, int),
> {
    let size = fitted_size(source.width, source.height, max_w, max_h, ratio);
    if source.well_formed() && can_fit(source.width, source.height, max_w, max_h, ratio)
        && sides_fit(source.width, source.height, size.0, size.1) && buffers_fit(
        source.width,
        size.0,
        size.1,
    ) {
        Some(size)
    } else {
        None
    }
}

/// An image resized to `width` by `height` pixels.
pub open spec fn resized_pixels(source: Pixels, width: int, height: int) -> Pixels {
    Pixels {
        width,
        height,
        data: triangle_resized(
            source.data,
            source.width as u32,
            source.height as u32,
            width as u32,
            height as u32,
        ),
    }
}

/// An image, resized to the size that fits the limits of `args`.
///
/// The image is refused where no size fits: see [`planned_size`].
pub fn resize_image(source: &ImageData, args: &Args) -> (result: Result<ImageData, AsciiError>)
    ensures
        result is Ok <==> planned_size(
            source@,
            args.max_width as int,
            args.max_height as int,
            args.character_ratio@,
        ) is Some,
        result matches Err(e) ==> e is InvalidDimensions,
        result matches Ok(resized) ==> {
            &&& planned_size(
                source@,
                args.max_width as int,
                args.max_height as int,
                args.character_ratio@,
            ) == Some((resized.width as int, resized.height as int))
            &&& resized@ == resized_pixels(source@, resized.width as int, resized.height as int)
            &&& resized.drawable()
            &&& resized.width <= args.max_width
            &&& resized.height <= args.max_height
        },
{
    if !source.is_well_formed() || source.width > MAX_SIDE as usize || source.height
        > MAX_SIDE as usize {
        return Err(AsciiError::InvalidDimensions);
    }
    let image_w: u32 = source.width as u32;
    let image_h: u32 = source.height as u32;
    match target_size(image_w, image_h, args.max_width, args.max_height, &args.character_ratio) {
        Err(e) => Err(e),
        Ok((width, height)) => {
            proof {
                lemma_triple_fits(4, image_w as int, height as int);
                lemma_triple_fits(4, width as int, height as int);
                assert(width * height * 4 == 4 * width * height) by (nonlinear_arith);
                assert(image_w * image_h * 4 == 4 * image_w * image_h) by (nonlinear_arith);
            }
            let limit: u128 = usize::MAX as u128;
            let scratch: u128 = 4 * (image_w as u128) * (height as u128);
            let bytes: u128 = 4 * (width as u128) * (height as u128);
            if width > MAX_SIDE || height > MAX_SIDE || scratch > limit || bytes > limit {
                return Err(AsciiError::InvalidDimensions);
            }
            let data = resize_rgba(source.data.as_slice(), image_w, image_h, width, height);
            Ok(ImageData { width: width as usize, height: height as usize, data })
        },
    }
}

/// The pixels to draw, from what opening and decoding the image gave.
///
/// A failure to open or decode is handed on with its reason, unchanged; an
/// image that was decoded is resized as [`resize_image`] says.
pub fn load_and_resize_image(decoded: Result<ImageData, String>, args: &Args) -> (result: Result<
    ImageData,
    AsciiError,
>)
    ensures
        match decoded {
            Err(reason) => result == Err::<ImageData, AsciiError>(
                AsciiError::DecodeFailure(reason),
            ),
            Ok(source) => {
                let plan = planned_size(
                    source@,
                    args.max_width as int,
                    args.max_height as int,
                    args.character_ratio@,
                );
                &&& result is Ok <==> plan is Some
                &&& result matches Err(e) ==> e is InvalidDimensions
                &&& result matches Ok(resized) ==> {
                    &&& plan == Some((resized.width as int, resized.height as int))
                    &&& resized@ == resized_pixels(
                        source@,
                        resized.width as int,
                        resized.height as int,
                    )
                    &&& resized.drawable()
                }
            },
        },
{
    match decoded {
        Err(reason) => Err(AsciiError::DecodeFailure(reason)),
        Ok(source) => resize_image(&source, args),
    }
}

/// The fitted size never exceeds the limits, and reaches one of them.
pub proof fn lemma_fitted_within(image_w: int, image_h: int, max_w: int, max_h: int, ratio: Frac)
    requires
        image_w > 0,
        image_h > 0,
        max_w > 0,
        max_h > 0,
        ratio.wf(),
        ratio.num > 0,
    ensures
        0 <= fitted_size(image_w, image_h, max_w, max_h, ratio).0 <= max_w,
        0 <= fitted_size(image_w, image_h, max_w, max_h, ratio).1 <= max_h,
        fitted_size(image_w, image_h, max_w, max_h, ratio).0 == max_w || fitted_size(
            image_w,
            image_h,
            max_w,
            max_h,
            ratio,
        ).1 == max_h,
{
    let tall = proposed_height(image_w, image_h, max_w, ratio);
    let wide = proposed_width(image_w, image_h, max_h, ratio);
    assert(tall.den > 0 && wide.den > 0 && tall.num >= 0 && wide.num >= 0) by (nonlinear_arith)
        requires
            tall.num == image_h * max_w * ratio.den,
            tall.den == ratio.num * image_w,
            wide.num == ratio.num * image_w * max_h,
            wide.den == ratio.den * image_h,
            image_w > 0,
            image_h > 0,
            max_w > 0,
            max_h > 0,
            ratio.den > 0,
            ratio.num > 0,
    ;
    if tall.le(Frac::whole(max_h)) {
        assert(0 <= tall.num / tall.den <= max_h) by (nonlinear_arith)
            requires
                tall.num * 1 <= max_h * tall.den,
                tall.den > 0,
                tall.num >= 0,
        ;
    } else {
        assert(0 <= wide.num / wide.den < max_w) by (nonlinear_arith)
            requires
                wide.num == ratio.num * image_w * max_h,
                wide.den == ratio.den * image_h,
                image_h * max_w * ratio.den * 1 > max_h * (ratio.num * image_w),
                wide.den > 0,
                wide.num >= 0,
        ;
    }
}

} // verus!
