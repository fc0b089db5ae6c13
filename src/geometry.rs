use crate::error::PainterError;
use std::sync::Arc;
use vstd::prelude::*;

verus! {

/// A color whose components are the IEEE-754 bit patterns of normalized `f32`
/// values; two colors are the same when their bits are.
#[derive(Debug, Clone, Copy, PartialEq, Eq, Structural, Hash)]
pub struct Color {
    pub r: u32,
    pub g: u32,
    pub b: u32,
    pub a: u32,
}

impl Color {
    /// A color from the bit patterns of its four components.
    pub fn from_bits(r: u32, g: u32, b: u32, a: u32) -> (c: Color)
        ensures
            c == (Color { r, g, b, a }),
    {
        Color { r, g, b, a }
    }

    /// The component bit patterns in the order red, green, blue, alpha.
    pub fn as_array(&self) -> (r: [u32; 4])
        ensures
            r@ == seq![self.r, self.g, self.b, self.a],
    {
        let r = [self.r, self.g, self.b, self.a];
        assert(r@ =~= seq![self.r, self.g, self.b, self.a]);
        r
    }
}

/// A point whose coordinates are the bit patterns of `f32` values.
#[derive(Debug, Clone, Copy, PartialEq, Eq, Structural, Hash)]
pub struct Point {
    pub x: u32,
    pub y: u32,
}

impl Point {
    pub fn new(x: u32, y: u32) -> (p: Point)
        ensures
            p == (Point { x, y }),
    {
        Point { x, y }
    }
}

/// One entry of a path's instruction log.
#[derive(Debug, Clone, Copy, PartialEq, Eq, Structural, Hash)]
pub enum PathInstruction {
    MoveTo(Point),
    Close,
    LineTo(Point),
    QuadTo(Point, Point),
    CurveTo(Point, Point, Point),
}

/// An immutable path: its instruction log, shared by reference between the
/// path and the cache keys made from it.
#[derive(Debug, Clone)]
pub struct Path {
    instructions: Arc<Vec<PathInstruction>>,
}

impl View for Path {
    type V = Seq<PathInstruction>;

    closed spec fn view(&self) -> Seq<PathInstruction> {
        self.instructions@
    }
}

impl Path {
    pub fn from_instructions(instructions: Vec<PathInstruction>) -> (p: Path)
        ensures
            p@ == instructions@,
    {
        Path { instructions: Arc::new(instructions) }
    }

    /// The instruction log, in the order it was recorded.
    pub fn instructions(&self) -> (r: &Vec<PathInstruction>)
        ensures
            r@ == self@,
    {
        &self.instructions
    }

    /// A new reference to the same instruction log.
    pub fn shared_log(&self) -> (r: Arc<Vec<PathInstruction>>)
        ensures
            r@ == self@,
    {
        self.instructions.clone()
    }
}

/// How the stroke ends at the start or end of each sub-path.
#[derive(Debug, Clone, Copy, PartialEq, Eq, Structural, Hash)]
pub enum LineCap {
    /// The stroke does not extend beyond the sub-path's endpoints.
    Butt,
    /// The stroke is extended by half its width with a square end.
    Square,
    /// The stroke is extended by a half circle.
    Round,
}

/// How two stroked segments are joined.
#[derive(Debug, Clone, Copy, PartialEq, Eq, Structural, Hash)]
pub enum LineJoin {
    /// A sharp corner.
    Miter,
    /// A sharp corner clipped at the miter limit.
    MiterClip,
    /// A round corner.
    Round,
    /// A bevelled corner.
    Bevel,
}

/// Bit pattern of the `f32` value 1.0.
pub const ONE_BITS: u32 = 0x3f80_0000;

/// Bit pattern of the `f32` value 4.0.
pub const FOUR_BITS: u32 = 0x4080_0000;

/// The bits are those of a NaN.
pub open spec fn is_nan_bits(b: u32) -> bool {
    b & 0x7f80_0000 == 0x7f80_0000 && b & 0x007f_ffff != 0
}

/// The `f32` with bits `b` is at least 1.0 in the total order in which NaN is the
/// greatest value: a NaN, or a positive value whose bits are at least those of 1.0
/// (positive floats are ordered as their bits are).
pub open spec fn at_least_one_bits(b: u32) -> bool {
    is_nan_bits(b) || (b < 0x8000_0000 && b >= ONE_BITS)
}

/// Options of a stroke; widths and limits are bit patterns of `f32` values.
#[derive(Debug, Clone, Copy, PartialEq, Eq, Structural, Hash)]
pub struct StrokeOptions {
    /// Cap at the start of each sub-path.
    pub start_cap: LineCap,
    /// Cap at the end of each sub-path.
    pub end_cap: LineCap,
    pub line_join: LineJoin,
    pub line_width: u32,
    /// At least 1.0.
    pub miter_limit: u32,
}

/// Smallest accepted miter limit, 1.0.
pub const MINIMUM_MITER_LIMIT: u32 = ONE_BITS;

/// Default miter limit, 4.0.
pub const DEFAULT_MITER_LIMIT: u32 = FOUR_BITS;

/// Default line width, 1.0.
pub const DEFAULT_LINE_WIDTH: u32 = ONE_BITS;

pub open spec fn default_stroke_options() -> StrokeOptions {
    StrokeOptions {
        start_cap: LineCap::Butt,
        end_cap: LineCap::Butt,
        line_join: LineJoin::Miter,
        line_width: DEFAULT_LINE_WIDTH,
        miter_limit: DEFAULT_MITER_LIMIT,
    }
}

impl Default for StrokeOptions {
    fn default() -> (r: Self)
        ensures
            r == default_stroke_options(),
    {
        StrokeOptions {
            start_cap: LineCap::Butt,
            end_cap: LineCap::Butt,
            line_join: LineJoin::Miter,
            line_width: DEFAULT_LINE_WIDTH,
            miter_limit: DEFAULT_MITER_LIMIT,
        }
    }
}

impl StrokeOptions {
    pub fn with_line_cap(self, cap: LineCap) -> (r: Self)
        ensures
            r == (StrokeOptions { start_cap: cap, end_cap: cap, ..self }),
    {
        let mut r = self;
        r.start_cap = cap;
        r.end_cap = cap;
        r
    }

    pub fn with_start_cap(self, cap: LineCap) -> (r: Self)
        ensures
            r == (StrokeOptions { start_cap: cap, ..self }),
    {
        let mut r = self;
        r.start_cap = cap;
        r
    }

    pub fn with_end_cap(self, cap: LineCap) -> (r: Self)
        ensures
            r == (StrokeOptions { end_cap: cap, ..self }),
    {
        let mut r = self;
        r.end_cap = cap;
        r
    }

    pub fn with_line_join(self, join: LineJoin) -> (r: Self)
        ensures
            r == (StrokeOptions { line_join: join, ..self }),
    {
        let mut r = self;
        r.line_join = join;
        r
    }

    /// Sets the line width from the bits of an `f32`.
    pub fn with_line_width(self, width: u32) -> (r: Self)
        ensures
            r == (StrokeOptions { line_width: width, ..self }),
    {
        let mut r = self;
        r.line_width = width;
        r
    }

    /// Sets the miter limit from the bits of an `f32`; a limit below 1.0 is refused.
    pub fn with_miter_limit(self, limit: u32) -> (r: Result<Self, PainterError>)
        ensures
            at_least_one_bits(limit) ==> r == Ok::<Self, PainterError>(
                (StrokeOptions { miter_limit: limit, ..self }),
            ),
            !at_least_one_bits(limit) ==> r == Err::<Self, PainterError>(
                PainterError::InvalidArgument,
            ),
    {
        let nan = limit & 0x7f80_0000 == 0x7f80_0000 && limit & 0x007f_ffff != 0;
        if nan || (limit < 0x8000_0000 && limit >= ONE_BITS) {
            let mut r = self;
            r.miter_limit = limit;
            Ok(r)
        } else {
            Err(PainterError::InvalidArgument)
        }
    }
}

/// Abstract value of a cache key, with each path log as a sequence.
pub enum KeyView {
    Rectangle(u32, u32, u32, u32, Color),
    Circle(u32, u32, u32, Color),
    StrokedPath(Seq<PathInstruction>, Color, StrokeOptions),
    Path(Seq<PathInstruction>, Color),
}

/// Identity of a cacheable shape: two draws with equal keys share one tessellation.
/// Coordinates and sizes are bit patterns of `f32` values.
#[derive(Debug, Clone)]
pub enum UniqueGeometry {
    Rectangle(u32, u32, u32, u32, Color),
    Circle(u32, u32, u32, Color),
    StrokedPath(Arc<Vec<PathInstruction>>, Color, StrokeOptions),
    Path(Arc<Vec<PathInstruction>>, Color),
}

impl View for UniqueGeometry {
    type V = KeyView;

    open spec fn view(&self) -> KeyView {
        match self {
            UniqueGeometry::Rectangle(x, y, w, h, c) => KeyView::Rectangle(*x, *y, *w, *h, *c),
            UniqueGeometry::Circle(x, y, r, c) => KeyView::Circle(*x, *y, *r, *c),
            UniqueGeometry::StrokedPath(log, c, o) => KeyView::StrokedPath(log@, *c, *o),
            UniqueGeometry::Path(log, c) => KeyView::Path(log@, *c),
        }
    }
}

/// Whether two instruction logs hold the same instructions in the same order.
pub fn same_log(a: &Vec<PathInstruction>, b: &Vec<PathInstruction>) -> (r: bool)
    ensures
        r == (a@ == b@),
{
    if a.len() != b.len() {
        return false;
    }
    let mut i: usize = 0;
    while i < a.len()
        invariant
            a.len() == b.len(),
            i <= a.len(),
            forall|j: int| 0 <= j < i ==> a@[j] == b@[j],
        decreases a.len() - i,
    {
        if a[i] != b[i] {
            return false;
        }
        i = i + 1;
    }
    assert(a@ =~= b@);
    true
}

impl UniqueGeometry {
    /// Whether two keys are structurally equal.
    pub fn same_as(&self, other: &UniqueGeometry) -> (r: bool)
        ensures
            r == (self@ == other@),
    {
        match (self, other) {
            (
                UniqueGeometry::Rectangle(x, y, w, h, c),
                UniqueGeometry::Rectangle(x2, y2, w2, h2, c2),
            ) => *x == *x2 && *y == *y2 && *w == *w2 && *h == *h2 && *c == *c2,
            (UniqueGeometry::Circle(x, y, r, c), UniqueGeometry::Circle(x2, y2, r2, c2)) => *x
                == *x2 && *y == *y2 && *r == *r2 && *c == *c2,
            (
                UniqueGeometry::StrokedPath(log, c, o),
                UniqueGeometry::StrokedPath(log2, c2, o2),
            ) => *c == *c2 && *o == *o2 && same_log(log, log2),
            (UniqueGeometry::Path(log, c), UniqueGeometry::Path(log2, c2)) => *c == *c2
                && same_log(log, log2),
            _ => false,
        }
    }

    /// A copy of the key that shares its path log.
    pub fn duplicate(&self) -> (r: UniqueGeometry)
        ensures
            r@ == self@,
    {
        match self {
            UniqueGeometry::Rectangle(x, y, w, h, c) => UniqueGeometry::Rectangle(*x, *y, *w, *h, *c),
            UniqueGeometry::Circle(x, y, r, c) => UniqueGeometry::Circle(*x, *y, *r, *c),
            UniqueGeometry::StrokedPath(log, c, o) => UniqueGeometry::StrokedPath(log.clone(), *c, *o),
            UniqueGeometry::Path(log, c) => UniqueGeometry::Path(log.clone(), *c),
        }
    }

    /// The key of a filled path.
    pub fn of_fill(path: &Path, color: Color) -> (k: UniqueGeometry)
        ensures
            k@ == KeyView::Path(path@, color),
    {
        UniqueGeometry::Path(path.shared_log(), color)
    }

    /// The key of a stroked path.
    pub fn of_stroke(path: &Path, color: Color, options: StrokeOptions) -> (k: UniqueGeometry)
        ensures
            k@ == KeyView::StrokedPath(path@, color, options),
    {
        UniqueGeometry::StrokedPath(path.shared_log(), color, options)
    }
}

} // verus!
