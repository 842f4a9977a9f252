//! Colour space: hue, saturation and value of a pixel, and the colour
//! category that a terminal without true colour shows for it.
//!
//! A channel is a byte that stands for the fraction `byte / 255`.  Hue,
//! saturation and value are exact fractions of the three channel bytes.

use vstd::prelude::*;
use crate::ratio::{Frac, Ratio};

verus! {

/// The byte that stands for a channel intensity of one.
pub const CHANNEL_MAX: u8 = 255;

/// The largest of three numbers.
pub open spec fn max3(a: int, b: int, c: int) -> int {
    if a >= b && a >= c {
        a
    } else if b >= c {
        b
    } else {
        c
    }
}

/// The smallest of three numbers.
pub open spec fn min3(a: int, b: int, c: int) -> int {
    if a <= b && a <= c {
        a
    } else if b <= c {
        b
    } else {
        c
    }
}

/// Whether a channel difference of `n` bytes, that is `n / 255`, is below the
/// tolerance of one ten-thousandth under which it counts as zero.
pub open spec fn negligible(n: int) -> bool {
    10_000 * n < CHANNEL_MAX as int
}

/// Chroma of a pixel in bytes: the largest channel minus the smallest.
pub open spec fn chroma(red: int, green: int, blue: int) -> int {
    max3(red, green, blue) - min3(red, green, blue)
}

/// Hue in degrees, multiplied by the chroma in bytes.
///
/// The channel that holds the maximum selects one of three sectors of sixty
/// degrees each way; where two channels tie for the maximum, red is asked
/// before green and green before blue.  A negative angle in the red sector is
/// folded into the circle by adding a full turn.
pub open spec fn hue_times_chroma(red: int, green: int, blue: int) -> int {
    let top = max3(red, green, blue);
    let c = chroma(red, green, blue);
    if negligible(c) {
        0
    } else if top == red {
        if green >= blue {
            60 * (green - blue)
        } else {
            60 * (green - blue) + 360 * c
        }
    } else if top == green {
        60 * (2 * c + (blue - red))
    } else {
        60 * (4 * c + (red - green))
    }
}

/// Value: the largest channel.
pub open spec fn value_of(red: int, green: int, blue: int) -> Frac {
    Frac::new(max3(red, green, blue), CHANNEL_MAX as int)
}

/// Saturation: chroma over value, and zero where the value is negligible.
pub open spec fn saturation_of(red: int, green: int, blue: int) -> Frac {
    let top = max3(red, green, blue);
    if negligible(top) {
        Frac::whole(0)
    } else {
        Frac::new(chroma(red, green, blue), top)
    }
}

/// Hue in degrees, and zero where the chroma is negligible.
pub open spec fn hue_of(red: int, green: int, blue: int) -> Frac {
    let c = chroma(red, green, blue);
    if negligible(c) {
        Frac::whole(0)
    } else {
        Frac::new(hue_times_chroma(red, green, blue), c)
    }
}

/// What an [`Hsv`] stands for: three fractions.
pub struct HsvView {
    /// Hue in degrees.
    pub hue: Frac,
    /// Saturation, from zero to one.
    pub saturation: Frac,
    /// Value, from zero to one.
    pub value: Frac,
}

impl HsvView {
    /// The three fractions of the pixel with the given channel bytes.
    pub open spec fn of_rgb(red: int, green: int, blue: int) -> HsvView {
        HsvView {
            hue: hue_of(red, green, blue),
            saturation: saturation_of(red, green, blue),
            value: value_of(red, green, blue),
        }
    }

    /// Hue lies in `[0, 360)`, saturation and value in `[0, 1]`, and the value
    /// counts whole bytes.
    pub open spec fn normalized(self) -> bool {
        &&& self.hue.wf()
        &&& self.saturation.wf()
        &&& self.value.den == CHANNEL_MAX as int
        &&& self.hue.ge(Frac::whole(0))
        &&& self.hue.lt(Frac::whole(360))
        &&& self.saturation.in_unit_interval()
        &&& self.value.in_unit_interval()
    }

    /// Perceived luminance: the square of the value.
    pub open spec fn luminance(self) -> Frac {
        Frac::new(self.value.num * self.value.num, self.value.den * self.value.den)
    }

    /// The colour category of these three fractions: neutral below a quarter
    /// of saturation, else the sector of sixty degrees that holds the hue,
    /// the sectors starting at thirty degrees.
    pub open spec fn category(self) -> ColorCategory {
        if self.saturation.lt(Frac::new(1, 4)) {
            ColorCategory::Neutral
        } else if self.hue.ge(Frac::whole(30)) && self.hue.lt(Frac::whole(90)) {
            ColorCategory::Yellow
        } else if self.hue.ge(Frac::whole(90)) && self.hue.lt(Frac::whole(150)) {
            ColorCategory::Green
        } else if self.hue.ge(Frac::whole(150)) && self.hue.lt(Frac::whole(210)) {
            ColorCategory::Cyan
        } else if self.hue.ge(Frac::whole(210)) && self.hue.lt(Frac::whole(270)) {
            ColorCategory::Blue
        } else if self.hue.ge(Frac::whole(270)) && self.hue.lt(Frac::whole(330)) {
            ColorCategory::Magenta
        } else {
            ColorCategory::Red
        }
    }
}

/// Hue, saturation and value of a pixel.
#[derive(Clone, Copy, Debug)]
pub struct Hsv {
    hue: Ratio,
    saturation: Ratio,
    value: Ratio,
}

impl View for Hsv {
    type V = HsvView;

    closed spec fn view(&self) -> HsvView {
        HsvView { hue: self.hue@, saturation: self.saturation@, value: self.value@ }
    }
}

impl Hsv {
    #[verifier::type_invariant]
    spec fn inv(self) -> bool {
        self@.normalized()
    }

    /// Hue in degrees, in `[0, 360)`.
    pub fn hue(&self) -> (h: Ratio)
        ensures
            h@ == self@.hue,
            self@.normalized(),
    {
        proof {
            use_type_invariant(self);
        }
        self.hue
    }

    /// Saturation, in `[0, 1]`.
    pub fn saturation(&self) -> (s: Ratio)
        ensures
            s@ == self@.saturation,
            self@.normalized(),
    {
        proof {
            use_type_invariant(self);
        }
        self.saturation
    }

    /// Value, in `[0, 1]`.
    pub fn value(&self) -> (v: Ratio)
        ensures
            v@ == self@.value,
            self@.normalized(),
    {
        proof {
            use_type_invariant(self);
        }
        self.value
    }

    /// Perceived luminance, the square of the value: mid-tones come out
    /// darker than the value itself.
    pub fn luminance(&self) -> (l: Ratio)
        ensures
            l@ == self@.luminance(),
            l@.wf(),
            l@.in_unit_interval(),
            self@.normalized(),
    {
        proof {
            use_type_invariant(self);
        }
        let v: i32 = self.value.num();
        let d: u32 = self.value.den();
        assert(0 <= v * v <= d * d && d * d == 65025) by (nonlinear_arith)
            requires
                0 <= v <= d,
                d == 255,
        ;
        Ratio::of(v * v, d * d)
    }
}

/// The colour categories of a terminal without true colour.
#[derive(Clone, Copy, Debug, PartialEq, Eq, Structural)]
pub enum ColorCategory {
    Neutral,
    Yellow,
    Green,
    Cyan,
    Blue,
    Magenta,
    Red,
}

impl ColorCategory {
    /// The escape sequence that selects this category's foreground colour.
    pub open spec fn escape_spec(self) -> Seq<char> {
        match self {
            ColorCategory::Neutral => seq!['\x1B', '[', '3', '7', 'm'],
            ColorCategory::Yellow => seq!['\x1B', '[', '3', '3', 'm'],
            ColorCategory::Green => seq!['\x1B', '[', '3', '2', 'm'],
            ColorCategory::Cyan => seq!['\x1B', '[', '3', '6', 'm'],
            ColorCategory::Blue => seq!['\x1B', '[', '3', '4', 'm'],
            ColorCategory::Magenta => seq!['\x1B', '[', '3', '5', 'm'],
            ColorCategory::Red => seq!['\x1B', '[', '3', '1', 'm'],
        }
    }

    /// The escape sequence that selects this category's foreground colour.
    pub fn escape(&self) -> (code: &'static str)
        ensures
            code@ == self.escape_spec(),
    {
        proof {
            reveal_strlit("\x1B[37m");
            reveal_strlit("\x1B[33m");
            reveal_strlit("\x1B[32m");
            reveal_strlit("\x1B[36m");
            reveal_strlit("\x1B[34m");
            reveal_strlit("\x1B[35m");
            reveal_strlit("\x1B[31m");
        }
        let code = match self {
            ColorCategory::Neutral => "\x1B[37m",
            ColorCategory::Yellow => "\x1B[33m",
            ColorCategory::Green => "\x1B[32m",
            ColorCategory::Cyan => "\x1B[36m",
            ColorCategory::Blue => "\x1B[34m",
            ColorCategory::Magenta => "\x1B[35m",
            ColorCategory::Red => "\x1B[31m",
        };
        assert(code@ =~= self.escape_spec());
        code
    }
}

/// Hue, saturation and value of the pixel with the given channel bytes, each
/// byte standing for `byte / 255`.
///
/// The value is the largest channel; the saturation is chroma over value, and
/// zero for black; the hue is zero for a grey pixel and otherwise lies in the
/// sector of the largest channel.  The result is normalized whatever the
/// bytes are.
pub fn rgb_to_hsv(red: u8, green: u8, blue: u8) -> (hsv: Hsv)
    ensures
        hsv@ == HsvView::of_rgb(red as int, green as int, blue as int),
        hsv@.normalized(),
{
    let r: i32 = red as i32;
    let g: i32 = green as i32;
    let b: i32 = blue as i32;
    let top: i32 = if r >= g && r >= b {
        r
    } else if g >= b {
        g
    } else {
        b
    };
    let low: i32 = if r <= g && r <= b {
        r
    } else if g <= b {
        g
    } else {
        b
    };
    let c: i32 = top - low;
    let value = Ratio::of(top, CHANNEL_MAX as u32);
    let saturation = if 10_000 * top < CHANNEL_MAX as i32 {
        Ratio::whole(0)
    } else {
        Ratio::of(c, top as u32)
    };
    let hue = if 10_000 * c < CHANNEL_MAX as i32 {
        Ratio::whole(0)
    } else if top == r {
        if g >= b {
            Ratio::of(60 * (g - b), c as u32)
        } else {
            Ratio::of(60 * (g - b) + 360 * c, c as u32)
        }
    } else if top == g {
        Ratio::of(60 * (2 * c + (b - r)), c as u32)
    } else {
        Ratio::of(60 * (4 * c + (r - g)), c as u32)
    };
    Hsv { hue, saturation, value }
}

/// The colour category of a pixel: neutral where the saturation is below a
/// quarter, else one of six sectors of hue.
pub fn color_category(hsv: &Hsv) -> (category: ColorCategory)
    ensures
        category == hsv@.category(),
{
    let hue = hsv.hue();
    let saturation = hsv.saturation();
    if saturation.lt(&Ratio::of(1, 4)) {
        ColorCategory::Neutral
    } else if hue.ge(&Ratio::whole(30)) && hue.lt(&Ratio::whole(90)) {
        ColorCategory::Yellow
    } else if hue.ge(&Ratio::whole(90)) && hue.lt(&Ratio::whole(150)) {
        ColorCategory::Green
    } else if hue.ge(&Ratio::whole(150)) && hue.lt(&Ratio::whole(210)) {
        ColorCategory::Cyan
    } else if hue.ge(&Ratio::whole(210)) && hue.lt(&Ratio::whole(270)) {
        ColorCategory::Blue
    } else if hue.ge(&Ratio::whole(270)) && hue.lt(&Ratio::whole(330)) {
        ColorCategory::Magenta
    } else {
        ColorCategory::Red
    }
}

/// The escape sequence of the colour category of a pixel.
pub fn get_color_code(hsv: &Hsv) -> (code: &'static str)
    ensures
        code@ == hsv@.category().escape_spec(),
{
    color_category(hsv).escape()
}

/// A grey pixel has no saturation and no hue.
pub proof fn lemma_achromatic(level: int)
    requires
        0 <= level <= CHANNEL_MAX,
    ensures
        HsvView::of_rgb(level, level, level).saturation.num == 0,
        HsvView::of_rgb(level, level, level).hue.num == 0,
        HsvView::of_rgb(level, level, level).category() == ColorCategory::Neutral,
{
}

/// Whatever the three channel bytes are, the hue lies in `[0, 360)` and
/// saturation and value lie in `[0, 1]`.
pub proof fn lemma_hsv_normalized(red: int, green: int, blue: int)
    requires
        0 <= red <= CHANNEL_MAX,
        0 <= green <= CHANNEL_MAX,
        0 <= blue <= CHANNEL_MAX,
    ensures
        HsvView::of_rgb(red, green, blue).normalized(),
{
}

} // verus!
