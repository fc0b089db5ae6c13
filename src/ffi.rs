use crate::error::{PainterError, SurfaceErrorKind};
use crate::geometry::{LineCap, LineJoin};
use vstd::prelude::*;

verus! {

/// Line cap as exposed to C callers.
#[derive(Debug, Clone, Copy, PartialEq, Eq, Structural, Hash)]
pub enum BufroLineCap {
    BufroLineCapButt,
    BufroLineCapSquare,
    BufroLineCapRound,
}

impl BufroLineCap {
    pub open spec fn spec_line_cap(self) -> LineCap {
        match self {
            BufroLineCap::BufroLineCapButt => LineCap::Butt,
            BufroLineCap::BufroLineCapSquare => LineCap::Square,
            BufroLineCap::BufroLineCapRound => LineCap::Round,
        }
    }

    /// The line cap this value stands for.
    pub fn to_line_cap(self) -> (r: LineCap)
        ensures
            r == self.spec_line_cap(),
    {
        match self {
            BufroLineCap::BufroLineCapButt => LineCap::Butt,
            BufroLineCap::BufroLineCapSquare => LineCap::Square,
            BufroLineCap::BufroLineCapRound => LineCap::Round,
        }
    }
}

/// Line join as exposed to C callers.
#[derive(Debug, Clone, Copy, PartialEq, Eq, Structural, Hash)]
pub enum BufroLineJoin {
    BufroLineJoinMiter,
    BufroLineJoinMiterClip,
    BufroLineJoinRound,
    BufroLineJoinBevel,
}

impl BufroLineJoin {
    pub open spec fn spec_line_join(self) -> LineJoin {
        match self {
            BufroLineJoin::BufroLineJoinMiter => LineJoin::Miter,
            BufroLineJoin::BufroLineJoinMiterClip => LineJoin::MiterClip,
            BufroLineJoin::BufroLineJoinRound => LineJoin::Round,
            BufroLineJoin::BufroLineJoinBevel => LineJoin::Bevel,
        }
    }

    /// The line join this value stands for.
    pub fn to_line_join(self) -> (r: LineJoin)
        ensures
            r == self.spec_line_join(),
    {
        match self {
            BufroLineJoin::BufroLineJoinMiter => LineJoin::Miter,
            BufroLineJoin::BufroLineJoinMiterClip => LineJoin::MiterClip,
            BufroLineJoin::BufroLineJoinRound => LineJoin::Round,
            BufroLineJoin::BufroLineJoinBevel => LineJoin::Bevel,
        }
    }
}

/// Outcome of a flush as exposed to C callers.
#[derive(Debug, Clone, Copy, PartialEq, Eq, Structural, Hash)]
pub enum BufroFlushResult {
    BufroFlushResultTimeout,
    BufroFlushResultOutdated,
    BufroFlushResultLost,
    BufroFlushResultOutOfMemory,
    BufroFlushResultOk,
}

pub open spec fn flush_result_of(kind: SurfaceErrorKind) -> BufroFlushResult {
    match kind {
        SurfaceErrorKind::Timeout => BufroFlushResult::BufroFlushResultTimeout,
        SurfaceErrorKind::Outdated => BufroFlushResult::BufroFlushResultOutdated,
        SurfaceErrorKind::Lost => BufroFlushResult::BufroFlushResultLost,
        SurfaceErrorKind::OutOfMemory => BufroFlushResult::BufroFlushResultOutOfMemory,
    }
}

impl From<SurfaceErrorKind> for BufroFlushResult {
    fn from(kind: SurfaceErrorKind) -> (r: BufroFlushResult) {
        match kind {
            SurfaceErrorKind::Timeout => BufroFlushResult::BufroFlushResultTimeout,
            SurfaceErrorKind::Outdated => BufroFlushResult::BufroFlushResultOutdated,
            SurfaceErrorKind::Lost => BufroFlushResult::BufroFlushResultLost,
            SurfaceErrorKind::OutOfMemory => BufroFlushResult::BufroFlushResultOutOfMemory,
        }
    }
}

impl vstd::std_specs::convert::FromSpecImpl<SurfaceErrorKind> for BufroFlushResult {
    open spec fn obeys_from_spec() -> bool {
        true
    }

    open spec fn from_spec(kind: SurfaceErrorKind) -> BufroFlushResult {
        flush_result_of(kind)
    }
}

impl BufroFlushResult {
    /// The code for the outcome of a flush: `Ok`, or the kind of surface error.
    pub fn from_outcome(r: Result<(), PainterError>) -> (code: BufroFlushResult)
        requires
            r matches Err(e) ==> e is SurfaceAcquireFailed,
        ensures
            r is Ok ==> code == BufroFlushResult::BufroFlushResultOk,
            r matches Err(PainterError::SurfaceAcquireFailed(kind)) ==> code == flush_result_of(kind),
    {
        match r {
            Ok(()) => BufroFlushResult::BufroFlushResultOk,
            Err(PainterError::SurfaceAcquireFailed(kind)) => BufroFlushResult::from(kind),
            Err(_) => BufroFlushResult::BufroFlushResultLost,
        }
    }
}

} // verus!
