//! Render options.
//!
//! [`MermansiOptions`] controls charset, color mode, output detail, and dimensions. It is
//! validated before use; invalid values produce [`MermansiError::InvalidOption`] or a
//! [`MermansiError::RenderLimit`] for the canvas cell budget.

use vstd::prelude::*;
use crate::error::{MermansiError, Result};

verus! {

/// The glyph repertoire used for strokes and markers.
#[non_exhaustive]
#[derive(Debug, Clone, Copy, PartialEq, Eq, Structural)]
pub enum Charset {
    Unicode,
    Ascii,
}

impl Default for Charset {
    fn default() -> (r: Self)
        ensures r == Charset::Unicode,
    {
        Charset::Unicode
    }
}

/// How colour roles are encoded in the output.
#[non_exhaustive]
#[derive(Debug, Clone, Copy, PartialEq, Eq, Structural)]
pub enum ColorMode {
    Plain,
    Ansi16,
    TrueColor,
}

impl Default for ColorMode {
    fn default() -> (r: Self)
        ensures r == ColorMode::Plain,
    {
        ColorMode::Plain
    }
}

/// Controls whether rendered previews include the canonical semantic model.
#[non_exhaustive]
#[derive(Debug, Clone, Copy, PartialEq, Eq, Structural)]
pub enum OutputMode {
    /// Append the canonical semantic model after the readable terminal preview.
    Complete,
    /// Return only the readable preview, falling back to the semantic model when needed.
    Concise,
}

impl Default for OutputMode {
    fn default() -> (r: Self)
        ensures r == OutputMode::Complete,
    {
        OutputMode::Complete
    }
}

/// Maximum output width in terminal display columns.
pub const DEFAULT_MAX_WIDTH: usize = 200;
/// Maximum output height (rows).
pub const DEFAULT_MAX_HEIGHT: usize = 500;
/// Maximum total canvas cells (width * height).
pub const MAX_CANVAS_CELLS: usize = 250_000;
/// Maximum source text length in bytes.
pub const MAX_SOURCE_BYTES: usize = 4 * 1024 * 1024;
/// Maximum rendered output length in bytes.
pub const MAX_OUTPUT_BYTES: usize = 4 * 1024 * 1024;

/// All switches that shape a rendering.
#[derive(Debug, Clone, Copy, PartialEq, Eq, Structural)]
pub struct MermansiOptions {
    pub charset: Charset,
    pub color_mode: ColorMode,
    pub output_mode: OutputMode,
    pub max_width: usize,
    pub max_height: usize,
}

/// The options every constructor starts from: Unicode, plain, complete, default bounds.
pub open spec fn default_options() -> MermansiOptions {
    MermansiOptions {
        charset: Charset::Unicode,
        color_mode: ColorMode::Plain,
        output_mode: OutputMode::Complete,
        max_width: DEFAULT_MAX_WIDTH,
        max_height: DEFAULT_MAX_HEIGHT,
    }
}

/// The error that validation reports for `o`, or `None` when `o` is usable.
pub open spec fn options_error(o: MermansiOptions) -> Option<MermansiError> {
    if o.max_width == 0 {
        Some(MermansiError::InvalidOption { field: "max_width", message: "must be greater than 0" })
    } else if o.max_height == 0 {
        Some(MermansiError::InvalidOption { field: "max_height", message: "must be greater than 0" })
    } else if o.max_width * o.max_height > MAX_CANVAS_CELLS {
        Some(MermansiError::RenderLimit {
            context: "canvas cells",
            requested: saturating_product(o.max_width, o.max_height),
            limit: MAX_CANVAS_CELLS,
        })
    } else {
        None
    }
}

/// `a * b`, clamped to `usize::MAX`.
pub open spec fn saturating_product(a: usize, b: usize) -> usize {
    if a * b > usize::MAX { usize::MAX } else { (a * b) as usize }
}

/// Options that pass validation.
pub open spec fn options_valid(o: MermansiOptions) -> bool {
    options_error(o) is None
}

impl Default for MermansiOptions {
    fn default() -> (r: Self)
        ensures r == default_options(),
    {
        MermansiOptions {
            charset: Charset::Unicode,
            color_mode: ColorMode::Plain,
            output_mode: OutputMode::Complete,
            max_width: DEFAULT_MAX_WIDTH,
            max_height: DEFAULT_MAX_HEIGHT,
        }
    }
}

impl MermansiOptions {
    /// Unicode output with every other switch at its default.
    pub fn unicode() -> (r: Self)
        ensures r == default_options(),
    {
        Self::default()
    }

    /// ASCII output with every other switch at its default.
    pub fn ascii() -> (r: Self)
        ensures r == (MermansiOptions { charset: Charset::Ascii, ..default_options() }),
    {
        let base = Self::default();
        MermansiOptions { charset: Charset::Ascii, ..base }
    }

    pub fn with_color(self, color_mode: ColorMode) -> (r: Self)
        ensures r == (MermansiOptions { color_mode, ..self }),
    {
        let mut this = self;
        this.color_mode = color_mode;
        this
    }

    pub fn with_output_mode(self, output_mode: OutputMode) -> (r: Self)
        ensures r == (MermansiOptions { output_mode, ..self }),
    {
        let mut this = self;
        this.output_mode = output_mode;
        this
    }

    pub fn with_max_width(self, width: usize) -> (r: Self)
        ensures r == (MermansiOptions { max_width: width, ..self }),
    {
        let mut this = self;
        this.max_width = width;
        this
    }

    pub fn with_max_height(self, height: usize) -> (r: Self)
        ensures r == (MermansiOptions { max_height: height, ..self }),
    {
        let mut this = self;
        this.max_height = height;
        this
    }

    /// Rejects zero dimensions and a width-by-height product above [`MAX_CANVAS_CELLS`].
    pub fn validate(&self) -> (r: Result<()>)
        ensures
            match options_error(*self) {
                Some(e) => r == Err::<(), MermansiError>(e),
                None => r is Ok,
            },
    {
        if self.max_width == 0 {
            return Err(MermansiError::InvalidOption { field: "max_width", message: "must be greater than 0" });
        }
        if self.max_height == 0 {
            return Err(MermansiError::InvalidOption { field: "max_height", message: "must be greater than 0" });
        }
        let cells = match self.max_width.checked_mul(self.max_height) {
            Some(product) => product,
            None => usize::MAX,
        };
        if cells > MAX_CANVAS_CELLS {
            return Err(MermansiError::RenderLimit {
                context: "canvas cells",
                requested: cells,
                limit: MAX_CANVAS_CELLS,
            });
        }
        Ok(())
    }
}

} // verus!
