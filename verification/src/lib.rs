//! Software buffering for a native window: an off-screen pixel buffer that a
//! caller fills with 32-bit BGRX values and then copies, whole or in damage
//! rectangles, onto the window's visible surface.
//!
//! The surface, its off-screen buffer and the visible plane are held as plain
//! values, so the entire presentation pipeline — resize, pixel access, damage
//! copies, the presented-freshness hint, and read-back — is verified. The
//! operating-system glue that realizes the visible plane on an actual window
//! lives outside this crate and drives these types as its single source of
//! truth.

use vstd::prelude::*;

pub mod damage;
pub mod laws;
pub mod win32;

verus! {

/// Largest coordinate value of the signed 32-bit coordinate domain.
pub const COORD_MAX: u32 = 0x7fff_ffff;

/// A rectangular damage region in buffer coordinates: offset `(x, y)` and
/// extent `width x height`. Carries no validation of its own against any
/// buffer's bounds.
#[derive(Clone, Copy, Debug, PartialEq, Eq, Structural)]
pub struct Rect {
    pub x: u32,
    pub y: u32,
    pub width: u32,
    pub height: u32,
}

/// A native window reference, held as its plain integer handle value.
/// A value of zero stands for a null window reference.
#[derive(Clone, Copy, Debug, PartialEq, Eq, Structural)]
pub struct WindowHandle {
    pub hwnd: isize,
}

/// The recoverable errors of the presentation pipeline.
#[derive(Clone, Copy, Debug, PartialEq, Eq, Structural)]
pub enum SoftBufferError {
    /// The window reference was null.
    IncompleteWindowHandle,
    /// The operating system failed to hand out a drawable surface;
    /// carries the underlying OS error code.
    PlatformError { code: i32 },
    /// A requested buffer dimension was zero or above [`COORD_MAX`].
    SizeOutOfRange { width: u32, height: u32 },
    /// A damage rectangle had a field above [`COORD_MAX`].
    DamageOutOfRange { rect: Rect },
}

/// A buffer dimension is valid when it is strictly positive and representable
/// in the signed 32-bit coordinate domain.
pub open spec fn dim_in_range(v: u32) -> bool {
    1 <= v && v <= COORD_MAX
}

/// Both dimensions of a buffer are valid.
pub open spec fn dims_in_range(width: u32, height: u32) -> bool {
    dim_in_range(width) && dim_in_range(height)
}

/// Every field of a damage rectangle is representable in the signed 32-bit
/// coordinate domain.
pub open spec fn rect_in_range(r: Rect) -> bool {
    r.x <= COORD_MAX && r.y <= COORD_MAX && r.width <= COORD_MAX && r.height <= COORD_MAX
}

/// Runtime check matching [`dims_in_range`].
pub fn check_dims(width: u32, height: u32) -> (r: bool)
    ensures
        r == dims_in_range(width, height),
{
    1 <= width && width <= COORD_MAX && 1 <= height && height <= COORD_MAX
}

/// Runtime check matching [`rect_in_range`].
pub fn check_rect(rect: &Rect) -> (r: bool)
    ensures
        r == rect_in_range(*rect),
{
    rect.x <= COORD_MAX && rect.y <= COORD_MAX && rect.width <= COORD_MAX
        && rect.height <= COORD_MAX
}

} // verus!
