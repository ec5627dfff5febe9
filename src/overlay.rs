//! What an overlay is: its text, its window geometry and flags, and the
//! errors that overlay operations report.
use vstd::prelude::*;

verus! {

/// The handle of an overlay: an opaque token fixed when the overlay is made.
pub type OverlayId = String;

/// A font size in pixels, held as the bit pattern of an `f32`
/// (`f32::to_bits` / `f32::from_bits`). The library only carries it to the
/// window, so it never computes with the number itself.
#[derive(Clone, Copy, Debug, PartialEq, Eq, Structural)]
pub struct FontSize {
    pub bits: u32,
}

/// The bit pattern of `f32::MAX`: patterns from 1 to this one are the
/// positive finite sizes.
pub const MAX_FINITE_F32_BITS: u32 = 0x7F7F_FFFF;

/// The bit pattern of `24.0_f32`, the size of quick text overlays.
pub const DEFAULT_FONT_SIZE_BITS: u32 = 0x41C0_0000;

/// The text shown by an overlay.
#[derive(Debug)]
pub struct TextConfig {
    /// Text content to display.
    pub content: String,
    /// Font size in pixels.
    pub font_size: FontSize,
    /// Text color as `#AARRGGBB`, `#RRGGBB` or a shorter hex form.
    pub color: String,
    /// Position (x, y) on screen.
    pub position: (i32, i32),
}

/// The whole configuration of an overlay window.
#[derive(Debug)]
pub struct OverlayConfig {
    /// Text configuration.
    pub text: TextConfig,
    /// Window width in pixels.
    pub width: i32,
    /// Window height in pixels.
    pub height: i32,
    /// Whether the window is see-through.
    pub transparent: bool,
    /// Whether the window stays above all others.
    pub always_on_top: bool,
    /// Whether mouse and keyboard input pass through to what lies beneath.
    pub ignore_input: bool,
}

impl Clone for TextConfig {
    fn clone(&self) -> (r: Self)
        ensures
            r == *self,
    {
        TextConfig {
            content: self.content.clone(),
            font_size: self.font_size,
            color: self.color.clone(),
            position: self.position,
        }
    }
}

impl Clone for OverlayConfig {
    fn clone(&self) -> (r: Self)
        ensures
            r == *self,
    {
        OverlayConfig {
            text: self.text.clone(),
            width: self.width,
            height: self.height,
            transparent: self.transparent,
            always_on_top: self.always_on_top,
            ignore_input: self.ignore_input,
        }
    }
}

/// The first out-of-range value of an overlay configuration.
#[derive(Clone, Copy, Debug, PartialEq, Eq, Structural)]
pub enum InputProblem {
    /// The width is not positive.
    Width(i32),
    /// The height is not positive.
    Height(i32),
    /// The font size is not a positive finite number.
    FontSize(FontSize),
}

/// A positive finite font size.
pub open spec fn font_size_ok(f: FontSize) -> bool {
    1 <= f.bits <= MAX_FINITE_F32_BITS
}

/// The first value of `c` that is out of range: width, height and font size
/// must be positive, the font size finite too.
pub open spec fn input_problem(c: OverlayConfig) -> Option<InputProblem> {
    if c.width <= 0 {
        Some(InputProblem::Width(c.width))
    } else if c.height <= 0 {
        Some(InputProblem::Height(c.height))
    } else if !font_size_ok(c.text.font_size) {
        Some(InputProblem::FontSize(c.text.font_size))
    } else {
        None
    }
}

impl OverlayConfig {
    /// The first value of the configuration that is out of range.
    pub fn check_input(&self) -> (r: Option<InputProblem>)
        ensures
            r == input_problem(*self),
    {
        if self.width <= 0 {
            Some(InputProblem::Width(self.width))
        } else if self.height <= 0 {
            Some(InputProblem::Height(self.height))
        } else if !(1 <= self.text.font_size.bits && self.text.font_size.bits <= MAX_FINITE_F32_BITS) {
            Some(InputProblem::FontSize(self.text.font_size))
        } else {
            None
        }
    }
}

/// Why an overlay operation failed.
#[derive(Debug)]
pub enum OverlayError {
    /// The color string is not a valid hex color.
    InvalidColor(String),
    /// A dimension or the font size is out of range.
    InvalidInput(InputProblem),
    /// No overlay has this id.
    OverlayNotFound(OverlayId),
    /// A new overlay was to get an id that is already in use.
    DuplicateId(OverlayId),
    /// The lock around the manager was poisoned.
    LockFailure,
    /// The GUI toolkit or the windowing system refused an operation, or does
    /// not support it on this platform.
    PlatformError(String),
    /// A command could not be handed to the GUI thread.
    EventQueueError(String),
}

} // verus!
