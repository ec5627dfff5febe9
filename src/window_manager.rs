//! Native window style for an overlay: which extended-style bits it needs,
//! its layer alpha and its z-order.
//!
//! The bits are those of the Win32 extended window style; the program around
//! the library reads the current style from the window, passes it through
//! [`extended_style`], and writes the result back. Elsewhere the style is not
//! applied.
use vstd::prelude::*;

verus! {

/// `WS_EX_TRANSPARENT`: input passes through to the windows beneath.
pub const WS_EX_TRANSPARENT: u32 = 0x0000_0020;

/// `WS_EX_LAYERED`: the window is layered, as transparency requires.
pub const WS_EX_LAYERED: u32 = 0x0008_0000;

/// The layer alpha of a transparent overlay (0 is invisible, 255 opaque).
pub const OVERLAY_ALPHA: u8 = 200;

/// What the windowing system has to be told about an overlay window.
#[derive(Clone, Copy, Debug, PartialEq, Eq, Structural)]
pub struct WindowStyle {
    /// Add the layered bit.
    pub layered: bool,
    /// Add the click-through bit.
    pub click_through: bool,
    /// Set this layer alpha.
    pub alpha: Option<u8>,
    /// Put the window above all others.
    pub topmost: bool,
}

/// The style of an overlay with these flags: layered when it is transparent
/// or ignores input, click-through when it ignores input, the overlay alpha
/// when transparent, and topmost when always on top.
pub open spec fn style_for(transparent: bool, always_on_top: bool, ignore_input: bool) -> WindowStyle {
    WindowStyle {
        layered: transparent || ignore_input,
        click_through: ignore_input,
        alpha: if transparent {
            Some(OVERLAY_ALPHA)
        } else {
            None
        },
        topmost: always_on_top,
    }
}

/// The bits that `style` adds to an extended window style.
pub open spec fn added_bits(style: WindowStyle) -> u32 {
    (if style.layered {
        WS_EX_LAYERED
    } else {
        0u32
    }) | (if style.click_through {
        WS_EX_TRANSPARENT
    } else {
        0u32
    })
}

/// The style of an overlay with these flags.
pub fn window_style(transparent: bool, always_on_top: bool, ignore_input: bool) -> (r: WindowStyle)
    ensures
        r == style_for(transparent, always_on_top, ignore_input),
{
    WindowStyle {
        layered: transparent || ignore_input,
        click_through: ignore_input,
        alpha: if transparent {
            Some(OVERLAY_ALPHA)
        } else {
            None
        },
        topmost: always_on_top,
    }
}

/// The extended window style `current` with the bits that `style` needs
/// added; no bit is taken away.
pub fn extended_style(current: u32, style: &WindowStyle) -> (r: u32)
    ensures
        r == current | added_bits(*style),
        style.layered ==> r & WS_EX_LAYERED == WS_EX_LAYERED,
        style.click_through ==> r & WS_EX_TRANSPARENT == WS_EX_TRANSPARENT,
        r & current == current,
{
    let l: u32 = if style.layered {
        WS_EX_LAYERED
    } else {
        0
    };
    let t: u32 = if style.click_through {
        WS_EX_TRANSPARENT
    } else {
        0
    };
    let r = current | l | t;
    proof {
        assert(r == current | (l | t)) by (bit_vector)
            requires
                r == (current | l) | t,
        ;
        assert((current | (l | t)) & current == current) by (bit_vector);
        assert(l == 0x0008_0000u32 ==> (current | (l | t)) & 0x0008_0000u32 == 0x0008_0000u32)
            by (bit_vector);
        assert(t == 0x20u32 ==> (current | (l | t)) & 0x20u32 == 0x20u32) by (bit_vector);
    }
    r
}

} // verus!
