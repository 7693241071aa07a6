use vstd::prelude::*;

use crate::strutil::{
    chars_of, first_index_of, is_usize_string, lemma_first_index_of_absent, lemma_first_index_of_at,
    parse_usize_range, str_eq, unsigned_body, digits_val,
};

verus! {

/// The knobs the plotting core honours.  Reading them from the command line
/// is the shell's business; the core only consumes the plain values.
#[derive(Debug, Clone, Copy)]
pub struct Config {
    /// Swap the coordinates of every pair before storage.
    pub flip_xy: bool,
    /// Draw one chart per blank-line-delimited block instead of one per run.
    pub stream_mode: bool,
    /// The first numeric token of each line is an explicit x value.
    pub x_column: bool,
    /// Map the x axis through the natural logarithm.
    pub log_x: bool,
    /// Map the y axis through the natural logarithm.
    pub log_y: bool,
    /// Size of the drawing grid.
    pub dimensions: Dimensions,
    /// Rendering style.
    pub mode: PlotType,
    /// Renderer choice.
    pub output_type: OutputType,
    /// Overlay the axis lines.
    pub axis: bool,
    /// Palette used for axis lines and series marks.
    pub color_scheme: ColorScheme,
    /// Overlay a least-squares trend line per series.
    pub regression: bool,
    /// Density radii use the natural logarithm of the count.
    pub log_count: bool,
}

impl Default for Config {
    /// Every flag off, the default grid size, dot marks on the text
    /// renderer, and the default palette.
    fn default() -> (r: Config)
        ensures
            r.flip_xy == false,
            r.stream_mode == false,
            r.x_column == false,
            r.log_x == false,
            r.log_y == false,
            r.dimensions.width == 72,
            r.dimensions.height == 40,
            r.mode == PlotType::Dot,
            r.output_type == OutputType::Ascii,
            r.axis == false,
            r.color_scheme == ColorScheme::BankWong,
            r.regression == false,
            r.log_count == false,
    {
        Config {
            flip_xy: false,
            stream_mode: false,
            x_column: false,
            log_x: false,
            log_y: false,
            dimensions: Dimensions::default(),
            mode: PlotType::Dot,
            output_type: OutputType::Ascii,
            axis: false,
            color_scheme: ColorScheme::BankWong,
            regression: false,
            log_count: false,
        }
    }
}

/// Width and height of the drawing grid, in cells.
#[derive(Debug, Clone, Copy, PartialEq, Eq, Structural)]
pub struct Dimensions {
    pub width: usize,
    pub height: usize,
}

impl Default for Dimensions {
    fn default() -> (r: Dimensions)
        ensures
            r.width == 72,
            r.height == 40,
    {
        Dimensions { width: 72, height: 40 }
    }
}

/// Rendering style: one mark per sample, connected lines, or a density
/// symbol per cell.
#[derive(Debug, Clone, Copy, PartialEq, Eq, Structural)]
pub enum PlotType {
    Dot,
    Line,
    Count,
}

/// Renderer choice.
#[derive(Debug, Clone, Copy, PartialEq, Eq, Structural)]
pub enum OutputType {
    Ascii,
    Braille,
    Svg,
}

/// Colour palette, a small closed set of schemes.  Each scheme fixes the
/// axis colour and a cycle of series colours, so the colour of a series is a
/// pure function of the scheme and the series index.
#[derive(Debug, Clone, Copy, PartialEq, Eq, Structural)]
pub enum ColorScheme {
    BankWong,
    MonoLight,
    MonoDark,
}

/// The colour the Bank-Wong palette assigns to residue `i` of the series
/// index modulo its cycle of eight.
pub open spec fn bank_wong_color(i: int) -> (u8, u8, u8) {
    if i == 0 {
        (0, 114, 178)
    } else if i == 1 {
        (230, 159, 0)
    } else if i == 2 {
        (86, 180, 233)
    } else if i == 3 {
        (0, 158, 115)
    } else if i == 4 {
        (240, 228, 66)
    } else if i == 5 {
        (0, 0, 0)
    } else if i == 6 {
        (213, 94, 0)
    } else {
        (204, 121, 167)
    }
}

/// The colour a scheme assigns to series index `col`: the palette repeats
/// when the series index runs past the end of the cycle.
pub open spec fn series_color_spec(scheme: ColorScheme, col: u8) -> (u8, u8, u8) {
    match scheme {
        ColorScheme::BankWong => bank_wong_color(col as int % 8),
        ColorScheme::MonoLight => (255, 255, 255),
        ColorScheme::MonoDark => (0, 0, 0),
    }
}

/// The colour a scheme draws axis lines with.
pub open spec fn axis_color_spec(scheme: ColorScheme) -> (u8, u8, u8) {
    match scheme {
        ColorScheme::BankWong => (123, 123, 125),
        ColorScheme::MonoLight => (255, 255, 255),
        ColorScheme::MonoDark => (0, 0, 0),
    }
}

impl ColorScheme {
    /// The colour for series `col`, cycling through the scheme's palette.
    pub fn series_color(&self, col: u8) -> (r: (u8, u8, u8))
        ensures
            r == series_color_spec(*self, col),
    {
        match self {
            ColorScheme::BankWong => {
                let i = col % 8;
                if i == 0 {
                    (0, 114, 178)
                } else if i == 1 {
                    (230, 159, 0)
                } else if i == 2 {
                    (86, 180, 233)
                } else if i == 3 {
                    (0, 158, 115)
                } else if i == 4 {
                    (240, 228, 66)
                } else if i == 5 {
                    (0, 0, 0)
                } else if i == 6 {
                    (213, 94, 0)
                } else {
                    (204, 121, 167)
                }
            },
            ColorScheme::MonoLight => (255, 255, 255),
            ColorScheme::MonoDark => (0, 0, 0),
        }
    }

    /// The colour for axis lines.
    pub fn axis_color(&self) -> (r: (u8, u8, u8))
        ensures
            r == axis_color_spec(*self),
    {
        match self {
            ColorScheme::BankWong => (123, 123, 125),
            ColorScheme::MonoLight => (255, 255, 255),
            ColorScheme::MonoDark => (0, 0, 0),
        }
    }
}

impl Default for ColorScheme {
    fn default() -> (r: ColorScheme)
        ensures
            r == ColorScheme::BankWong,
    {
        ColorScheme::BankWong
    }
}


/// The dimensions a string of the shape `<width>x<height>` denotes, when
/// both sides of the first `x` are well-formed platform-word decimals.
pub open spec fn dimensions_spec(s: Seq<char>) -> Option<Dimensions> {
    let i = first_index_of(s, 'x');
    if i == -1 {
        Option::None
    } else if is_usize_string(s.take(i)) && is_usize_string(s.skip(i + 1)) {
        Option::Some(
            Dimensions {
                width: digits_val(unsigned_body(s.take(i))) as usize,
                height: digits_val(unsigned_body(s.skip(i + 1))) as usize,
            },
        )
    } else {
        Option::None
    }
}

impl Dimensions {
    /// Reads `<width>x<height>`, cut at the first `x`; fails when the `x`
    /// is missing or either side is no well-formed decimal.
    pub fn from_str(s: &str) -> (r: Option<Dimensions>)
        ensures
            r == dimensions_spec(s@),
    {
        let chars = chars_of(s);
        let n = chars.len();
        let mut i: usize = 0;
        while i < n && chars[i] != 'x'
            invariant
                n == s@.len(),
                chars@ == s@,
                i <= n,
                forall|j: int| 0 <= j < i ==> s@[j] != 'x',
            decreases n - i,
        {
            i += 1;
        }
        if i == n {
            proof {
                lemma_first_index_of_absent(s@, 'x');
            }
            return Option::None;
        }
        proof {
            lemma_first_index_of_at(s@, 'x', i as int);
        }
        let w = parse_usize_range(&chars, 0, i);
        let h = parse_usize_range(&chars, i + 1, n);
        proof {
            assert(s@.subrange(0, i as int) =~= s@.take(i as int));
            assert(s@.subrange(i + 1, n as int) =~= s@.skip(i + 1));
        }
        match (w, h) {
            (Option::Some(width), Option::Some(height)) => Option::Some(
                Dimensions { width, height },
            ),
            _ => Option::None,
        }
    }
}

impl PlotType {
    /// Reads a rendering style name: `dot`, `line` or `count`.
    pub fn from_str(s: &str) -> (r: Option<PlotType>)
        ensures
            r == (if s@ == "dot"@ {
                Option::Some(PlotType::Dot)
            } else if s@ == "line"@ {
                Option::Some(PlotType::Line)
            } else if s@ == "count"@ {
                Option::Some(PlotType::Count)
            } else {
                Option::<PlotType>::None
            }),
    {
        if str_eq(s, "dot") {
            Option::Some(PlotType::Dot)
        } else if str_eq(s, "line") {
            Option::Some(PlotType::Line)
        } else if str_eq(s, "count") {
            Option::Some(PlotType::Count)
        } else {
            Option::None
        }
    }
}

impl OutputType {
    /// Reads a renderer name: `ascii`, `braille` or `svg`.
    pub fn from_str(s: &str) -> (r: Option<OutputType>)
        ensures
            r == (if s@ == "ascii"@ {
                Option::Some(OutputType::Ascii)
            } else if s@ == "braille"@ {
                Option::Some(OutputType::Braille)
            } else if s@ == "svg"@ {
                Option::Some(OutputType::Svg)
            } else {
                Option::<OutputType>::None
            }),
    {
        if str_eq(s, "ascii") {
            Option::Some(OutputType::Ascii)
        } else if str_eq(s, "braille") {
            Option::Some(OutputType::Braille)
        } else if str_eq(s, "svg") {
            Option::Some(OutputType::Svg)
        } else {
            Option::None
        }
    }
}

impl ColorScheme {
    /// Reads a palette name: `bank-wong`, `mono-light` or `mono-dark`.
    pub fn from_str(s: &str) -> (r: Option<ColorScheme>)
        ensures
            r == (if s@ == "bank-wong"@ {
                Option::Some(ColorScheme::BankWong)
            } else if s@ == "mono-light"@ {
                Option::Some(ColorScheme::MonoLight)
            } else if s@ == "mono-dark"@ {
                Option::Some(ColorScheme::MonoDark)
            } else {
                Option::<ColorScheme>::None
            }),
    {
        if str_eq(s, "bank-wong") {
            Option::Some(ColorScheme::BankWong)
        } else if str_eq(s, "mono-light") {
            Option::Some(ColorScheme::MonoLight)
        } else if str_eq(s, "mono-dark") {
            Option::Some(ColorScheme::MonoDark)
        } else {
            Option::None
        }
    }
}

} // verus!
