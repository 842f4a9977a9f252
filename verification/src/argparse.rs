//! The options of the command line.
//!
//! The first word is the name of the program and the second the path of the
//! image.  Options follow, each a flag and its value: `-mw` and `-mh` for the
//! largest width and height in characters, `-et` for the edge threshold and
//! `-cr` for the aspect ratio of a character.  A value that cannot be read
//! leaves the option as it was; a word that is no flag, or a flag that is the
//! last word, is passed over.
//!
//! A width or a height is written in decimal digits.  A threshold or a ratio
//! is a decimal fraction, read exactly: an optional sign, then digits with at
//! most one point among them, at most nine of them after the point, which
//! without the point write a number of at most 2147483647.  Every other word
//! is a value that cannot be read: among them a number with an exponent
//! (`1e-1`), `inf` and `nan`, a fraction with ten digits or more after the
//! point, and a number beyond that limit.

use vstd::prelude::*;
use crate::glyph_grid::chars_of;
use crate::numbers::{fraction_of_word, parse_fraction, parse_size, size_of_word};
use crate::ratio::{Frac, Ratio};

verus! {

/// The width that is used where none is given and no terminal is found.
pub const DEFAULT_MAX_WIDTH: usize = 64;

/// The height that is used where none is given and no terminal is found.
pub const DEFAULT_MAX_HEIGHT: usize = 48;

/// The options of one run.
pub struct Args {
    /// The path of the image; empty where none was given or help was asked
    /// for.
    pub file_path: String,
    /// The largest width of the picture, in characters.
    pub max_width: usize,
    /// The largest height of the picture, in characters.
    pub max_height: usize,
    /// How many times a character is taller than it is wide.  The value of
    /// `-cr` is taken where it is a decimal fraction that can be read
    /// exactly (see [`fraction_of_word`]); a value in another form, such as
    /// `1e-1`, leaves the ratio as it was.
    pub character_ratio: Ratio,
    /// The length of gradient from which a cell is drawn as an edge; four or
    /// more switches edges off.  The value of `-et` is taken where it is a
    /// decimal fraction that can be read exactly (see [`fraction_of_word`]);
    /// a value in another form, such as `1e-1`, leaves the threshold as it
    /// was.
    pub edge_threshold: Ratio,
}

/// What an [`Args`] stands for.
pub struct Options {
    pub file_path: Seq<char>,
    pub max_width: int,
    pub max_height: int,
    pub character_ratio: Frac,
    pub edge_threshold: Frac,
}

impl View for Args {
    type V = Options;

    open spec fn view(&self) -> Options {
        Options {
            file_path: self.file_path@,
            max_width: self.max_width as int,
            max_height: self.max_height as int,
            character_ratio: self.character_ratio@,
            edge_threshold: self.edge_threshold@,
        }
    }
}

/// The flag of the largest width.
pub open spec fn flag_max_width() -> Seq<char> {
    seq!['-', 'm', 'w']
}

/// The flag of the largest height.
pub open spec fn flag_max_height() -> Seq<char> {
    seq!['-', 'm', 'h']
}

/// The flag of the edge threshold.
pub open spec fn flag_edge_threshold() -> Seq<char> {
    seq!['-', 'e', 't']
}

/// The flag of the aspect ratio of a character.
pub open spec fn flag_character_ratio() -> Seq<char> {
    seq!['-', 'c', 'r']
}

/// The short flag that asks for help.
pub open spec fn flag_help_short() -> Seq<char> {
    seq!['-', 'h']
}

/// The long flag that asks for help.
pub open spec fn flag_help_long() -> Seq<char> {
    seq!['-', '-', 'h', 'e', 'l', 'p']
}

/// The words of a command line.
pub open spec fn words_of(args: Seq<String>) -> Seq<Seq<char>> {
    Seq::new(args.len(), |i: int| args[i]@)
}

/// Whether the words ask for help: no path is given, or the word in its
/// place is a help flag.
pub open spec fn asks_for_help(words: Seq<Seq<char>>) -> bool {
    words.len() < 2 || words[1] == flag_help_short() || words[1] == flag_help_long()
}

/// The options with no path: a width of 64, a height of 48, an aspect ratio
/// of two and an edge threshold of four, which switches edges off.
pub open spec fn default_options() -> Options {
    Options {
        file_path: Seq::empty(),
        max_width: DEFAULT_MAX_WIDTH as int,
        max_height: DEFAULT_MAX_HEIGHT as int,
        character_ratio: Frac::whole(2),
        edge_threshold: Frac::whole(4),
    }
}

/// `value` where there is one, else `fallback`.
pub open spec fn size_or(value: Option<usize>, fallback: int) -> int {
    match value {
        Some(n) => n as int,
        None => fallback,
    }
}

/// The options before any flag is read: the path, the size of the terminal
/// where one was found, and the defaults for the rest.
pub open spec fn initial_options(
    path: Seq<char>,
    terminal_width: Option<usize>,
    terminal_height: Option<usize>,
) -> Options {
    Options {
        file_path: path,
        max_width: size_or(terminal_width, DEFAULT_MAX_WIDTH as int),
        max_height: size_or(terminal_height, DEFAULT_MAX_HEIGHT as int),
        character_ratio: Frac::whole(2),
        edge_threshold: Frac::whole(4),
    }
}

/// The options after the flag `flag` was read with the value `value`.
pub open spec fn with_option(options: Options, flag: Seq<char>, value: Seq<char>) -> Options {
    if flag == flag_max_width() {
        match size_of_word(value) {
            Some(n) => Options { max_width: n, ..options },
            None => options,
        }
    } else if flag == flag_max_height() {
        match size_of_word(value) {
            Some(n) => Options { max_height: n, ..options },
            None => options,
        }
    } else if flag == flag_edge_threshold() {
        match fraction_of_word(value) {
            Some(t) => Options { edge_threshold: t, ..options },
            None => options,
        }
    } else {
        match fraction_of_word(value) {
            Some(r) => Options { character_ratio: r, ..options },
            None => options,
        }
    }
}

/// Whether `word` is one of the four flags that take a value.
pub open spec fn is_flag(word: Seq<char>) -> bool {
    word == flag_max_width() || word == flag_max_height() || word == flag_edge_threshold() || word
        == flag_character_ratio()
}

/// The options after the words from place `from` on were read.
pub open spec fn read_options(words: Seq<Seq<char>>, from: int, options: Options) -> Options
    decreases words.len() - from,
{
    if from < 0 || from >= words.len() {
        options
    } else if from + 1 < words.len() && is_flag(words[from]) {
        read_options(words, from + 2, with_option(options, words[from], words[from + 1]))
    } else {
        read_options(words, from + 1, options)
    }
}

/// The options that the words of a command line give, with the size of the
/// terminal where one was found.
pub open spec fn parsed_options(
    words: Seq<Seq<char>>,
    terminal_width: Option<usize>,
    terminal_height: Option<usize>,
) -> Options {
    if asks_for_help(words) {
        default_options()
    } else {
        read_options(words, 2, initial_options(words[1], terminal_width, terminal_height))
    }
}

/// The help of the program `exec_name`.
pub open spec fn help_text_of(exec_name: Seq<char>) -> Seq<char> {
    "USAGE:\n\t"@ + exec_name + " <path/to/image> [OPTIONS]\n\n"@ + "ARGUMENTS:\n"@
        + "\t<path/to/image>\t\tPath to image file\n\n"@ + "OPTIONS:\n"@
        + "\t-mw <width>\t\tMaximum width in characters (default: terminal width OR 64)\n"@
        + "\t-mh <height>\t\tMaximum height in characters (default: terminal height OR 48)\n"@
        + "\t-et <threshold>\t\tEdge detection threshold, range: 0.0 - 4.0 (default: 4.0, disabled)\n"@
        + "\t-cr <ratio>\t\tHeight-to-width ratio for characters (default: 2.0)\n"@
}

/// `term_size::dimensions`: the columns and rows of the terminal that the
/// process writes to or reads from, or `None` where it has none.  Nothing is
/// claimed of the numbers.
#[verifier::external_body]
fn terminal_dimensions() -> (size: Option<(usize, usize)>) {
    term_size::dimensions()
}

/// Whether the characters of `word` are those of `text`.
fn is_word(word: &Vec<char>, text: &str) -> (same: bool)
    ensures
        same == (word@ == text@),
{
    let len: usize = text.unicode_len();
    if word.len() != len {
        return false;
    }
    let mut i: usize = 0;
    while i < len
        invariant
            i <= len,
            len == text@.len(),
            len == word@.len(),
            forall|j: int| 0 <= j < i ==> word@[j] == text@[j],
        decreases len - i,
    {
        if word[i] != text.get_char(i) {
            return false;
        }
        i += 1;
    }
    assert(word@ =~= text@);
    true
}

impl Args {
    /// The options with no path and every default.
    pub fn defaults() -> (args: Args)
        ensures
            args@ == default_options(),
    {
        Args {
            file_path: String::new(),
            max_width: DEFAULT_MAX_WIDTH,
            max_height: DEFAULT_MAX_HEIGHT,
            character_ratio: Ratio::whole(2),
            edge_threshold: Ratio::whole(4),
        }
    }

    /// The help of the program `exec_name`: how it is called, and its
    /// options with their defaults.
    pub fn help_text(exec_name: &str) -> (text: String)
        ensures
            text@ == help_text_of(exec_name@),
    {
        let mut text = String::new();
        text.append("USAGE:\n\t");
        text.append(exec_name);
        text.append(" <path/to/image> [OPTIONS]\n\n");
        text.append("ARGUMENTS:\n");
        text.append("\t<path/to/image>\t\tPath to image file\n\n");
        text.append("OPTIONS:\n");
        text.append(
            "\t-mw <width>\t\tMaximum width in characters (default: terminal width OR 64)\n",
        );
        text.append(
            "\t-mh <height>\t\tMaximum height in characters (default: terminal height OR 48)\n",
        );
        text.append(
            "\t-et <threshold>\t\tEdge detection threshold, range: 0.0 - 4.0 (default: 4.0, disabled)\n",
        );
        text.append("\t-cr <ratio>\t\tHeight-to-width ratio for characters (default: 2.0)\n");
        assert(text@ =~= help_text_of(exec_name@));
        text
    }

    /// Whether the words ask for help, so that no picture is to be made.
    pub fn wants_help(args: &Vec<String>) -> (help: bool)
        ensures
            help == asks_for_help(words_of(args@)),
    {
        if args.len() < 2 {
            return true;
        }
        let word = chars_of(args[1].as_str());
        proof {
            reveal_strlit("-h");
            reveal_strlit("--help");
            assert("-h"@ =~= flag_help_short());
            assert("--help"@ =~= flag_help_long());
        }
        is_word(&word, "-h") || is_word(&word, "--help")
    }

    /// The options that the words of a command line give, with the size of
    /// the terminal where one was found.
    ///
    /// Where the words ask for help the options are the defaults, with an
    /// empty path.
    pub fn parse_with_terminal(
        args: &Vec<String>,
        terminal_width: Option<usize>,
        terminal_height: Option<usize>,
    ) -> (parsed: Args)
        ensures
            parsed@ == parsed_options(words_of(args@), terminal_width, terminal_height),
    {
        if Self::wants_help(args) {
            return Self::defaults();
        }
        let ghost words = words_of(args@);
        let mut parsed_args = Args {
            file_path: args[1].clone(),
            max_width: match terminal_width {
                Some(w) => w,
                None => DEFAULT_MAX_WIDTH,
            },
            max_height: match terminal_height {
                Some(h) => h,
                None => DEFAULT_MAX_HEIGHT,
            },
            character_ratio: Ratio::whole(2),
            edge_threshold: Ratio::whole(4),
        };
        let ghost target = parsed_options(words, terminal_width, terminal_height);
        proof {
            reveal_strlit("-mw");
            reveal_strlit("-mh");
            reveal_strlit("-et");
            reveal_strlit("-cr");
            assert("-mw"@ =~= flag_max_width());
            assert("-mh"@ =~= flag_max_height());
            assert("-et"@ =~= flag_edge_threshold());
            assert("-cr"@ =~= flag_character_ratio());
        }
        let mut i: usize = 2;
        while i < args.len()
            invariant
                2 <= i <= args@.len() + 1,
                words == words_of(args@),
                "-mw"@ == flag_max_width(),
                "-mh"@ == flag_max_height(),
                "-et"@ == flag_edge_threshold(),
                "-cr"@ == flag_character_ratio(),
                read_options(words, i as int, parsed_args@) == target,
            decreases args@.len() + 1 - i,
        {
            let flag = chars_of(args[i].as_str());
            assert(flag@ == words[i as int]);
            if i + 1 < args.len() {
                let value = chars_of(args[i + 1].as_str());
                assert(value@ == words[i + 1]);
                if is_word(&flag, "-mw") {
                    if let Some(width) = parse_size(&value) {
                        parsed_args.max_width = width;
                    }
                    i += 2;
                } else if is_word(&flag, "-mh") {
                    if let Some(height) = parse_size(&value) {
                        parsed_args.max_height = height;
                    }
                    i += 2;
                } else if is_word(&flag, "-et") {
                    if let Some(threshold) = parse_fraction(&value) {
                        parsed_args.edge_threshold = threshold;
                    }
                    i += 2;
                } else if is_word(&flag, "-cr") {
                    if let Some(ratio) = parse_fraction(&value) {
                        parsed_args.character_ratio = ratio;
                    }
                    i += 2;
                } else {
                    i += 1;
                }
            } else {
                i += 1;
            }
        }
        parsed_args
    }

    /// The width that the terminal reports at this moment: see [`Args::width_of_terminal`].
    fn get_terminal_width() -> (width: Option<usize>) {
        let size = terminal_dimensions();
        Self::width_of_terminal(size)
    }

    /// The height that the terminal reports at this moment: see
    /// [`Args::height_of_terminal`].  What a terminal reports may change from
    /// one call to the next, so nothing is promised of either number.
    fn get_terminal_height() -> (height: Option<usize>) {
        let size = terminal_dimensions();
        Self::height_of_terminal(size)
    }

    /// The width in characters of a terminal of the given size, columns
    /// first; none where there is no terminal.
    pub fn width_of_terminal(size: Option<(usize, usize)>) -> (width: Option<usize>)
        ensures
            width == match size {
                Some(columns_and_rows) => Some(columns_and_rows.0),
                None => None,
            },
    {
        match size {
            Some((w, _)) => Some(w),
            None => None,
        }
    }

    /// The height in characters of a terminal of the given size, columns
    /// first; none where there is no terminal.
    pub fn height_of_terminal(size: Option<(usize, usize)>) -> (height: Option<usize>)
        ensures
            height == match size {
                Some(columns_and_rows) => Some(columns_and_rows.1),
                None => None,
            },
    {
        match size {
            Some((_, h)) => Some(h),
            None => None,
        }
    }

    /// The options that the words of a command line give.  Where the
    /// process has a terminal, its size stands in for the default width and
    /// height; the terminal is not asked where the words ask for help.
    pub fn parse(args: &Vec<String>) -> (parsed: Args)
        ensures
            asks_for_help(words_of(args@)) ==> parsed@ == default_options(),
            exists|width: Option<usize>, height: Option<usize>|
                parsed@ == #[trigger] parsed_options(words_of(args@), width, height),
    {
        if Self::wants_help(args) {
            let parsed = Self::defaults();
            assert(parsed@ == parsed_options(words_of(args@), None, None));
            return parsed;
        }
        let width = Self::get_terminal_width();
        let height = Self::get_terminal_height();
        Self::parse_with_terminal(args, width, height)
    }
}

} // verus!
