use vstd::prelude::*;

verus! {

/// Why acquiring the next surface image failed.
#[derive(Debug, Clone, Copy, PartialEq, Eq, Structural)]
pub enum SurfaceErrorKind {
    Timeout,
    Outdated,
    Lost,
    OutOfMemory,
}

/// Errors reported by the painter.
#[derive(Debug, Clone, Copy, PartialEq, Eq, Structural)]
pub enum PainterError {
    /// `restore` was called with no saved transform.
    TransformUnderflow,
    /// The font data could not be parsed.
    FontDecodeFailed,
    /// The font lacks a glyph or a metric that the text needs.
    MissingFontData,
    /// The tessellator rejected the shape.
    TessellationFailed,
    /// An argument is outside the range that the operation accepts.
    InvalidArgument,
    /// The next surface image could not be acquired.
    SurfaceAcquireFailed(SurfaceErrorKind),
}

} // verus!
