use crate::error::PainterError;
use crate::geometry::{Path, PathInstruction, Point};
use crate::transform::{step, TransformOp, TransformStack, TransformState};
use vstd::prelude::*;

verus! {

/// Abstract state of a path builder: the instructions recorded so far, whether the
/// current sub-path has a segment (a line or curve since the last `MoveTo` or
/// `Close`), and the builder's own transform stack.
pub struct BuilderState<M> {
    pub log: Seq<PathInstruction>,
    pub drawn: bool,
    pub transforms: TransformState<M>,
}

/// A line or curve segment.
pub open spec fn is_segment(ins: PathInstruction) -> bool {
    !(ins is MoveTo) && !(ins is Close)
}

/// The effect of recording one instruction. A `MoveTo` first closes the current
/// sub-path when it has a segment (closing an empty or closed sub-path is a no-op);
/// `MoveTo` and `Close` leave a sub-path without segment, and a segment gives it one.
pub open spec fn record_step<M>(st: BuilderState<M>, ins: PathInstruction) -> BuilderState<M> {
    match ins {
        PathInstruction::MoveTo(p) => BuilderState {
            log: if st.drawn {
                st.log.push(PathInstruction::Close).push(ins)
            } else {
                st.log.push(ins)
            },
            drawn: false,
            ..st
        },
        PathInstruction::Close => BuilderState { log: st.log.push(ins), drawn: false, ..st },
        _ => BuilderState { log: st.log.push(ins), drawn: true, ..st },
    }
}

/// Recording each instruction of `log` in order.
pub open spec fn record_all<M>(st: BuilderState<M>, log: Seq<PathInstruction>) -> BuilderState<M>
    decreases log.len(),
{
    if log.len() == 0 {
        st
    } else {
        record_step(record_all(st, log.drop_last()), log.last())
    }
}

/// Whether the current sub-path has a segment after `log`: its last instruction is
/// a line or a curve.
pub open spec fn drawn_after(log: Seq<PathInstruction>) -> bool {
    log.len() > 0 && is_segment(log.last())
}

/// No `MoveTo` of `log` directly follows a segment: every sub-path with a segment is
/// closed before the next `MoveTo`, as in every log that a builder records.
pub open spec fn closes_before_moves(log: Seq<PathInstruction>) -> bool {
    forall|k: int| 0 < k < log.len() && #[trigger] log[k] is MoveTo ==> !is_segment(log[k - 1])
}

impl<M> BuilderState<M> {
    /// The log is one that a builder records, and `drawn` matches it.
    pub open spec fn wf(self) -> bool {
        closes_before_moves(self.log) && self.drawn == drawn_after(self.log)
    }
}

/// Recording an instruction keeps a builder's state well formed.
proof fn lemma_record_step_wf<M>(st: BuilderState<M>, ins: PathInstruction)
    requires
        st.wf(),
    ensures
        record_step(st, ins).wf(),
{
    let n = record_step(st, ins);
    assert forall|k: int| 0 < k < n.log.len() && #[trigger] n.log[k] is MoveTo implies !is_segment(
        n.log[k - 1],
    ) by {
        if k < st.log.len() {
            assert(n.log[k] == st.log[k]);
            assert(n.log[k - 1] == st.log[k - 1]);
        }
    }
}

/// Records a path while keeping a transform stack of its own. Points are given
/// already mapped through `current_transform()`, so the log holds output coordinates.
pub struct PathBuilder<M> {
    instructions: Vec<PathInstruction>,
    drawn: bool,
    transforms: TransformStack<M>,
}

impl<M> View for PathBuilder<M> {
    type V = BuilderState<M>;

    closed spec fn view(&self) -> BuilderState<M> {
        BuilderState { log: self.instructions@, drawn: self.drawn, transforms: self.transforms@ }
    }
}

impl<M: Copy> PathBuilder<M> {
    /// An empty builder whose transform is `identity`.
    pub fn new(identity: M) -> (r: Self)
        ensures
            r@.wf(),
            r@.log.len() == 0,
            !r@.drawn,
            r@.transforms == (TransformState {
                current: identity,
                saved: Seq::<M>::empty(),
                identity,
            }),
    {
        PathBuilder { instructions: Vec::new(), drawn: false, transforms: TransformStack::new(identity) }
    }

    /// Finishes the path.
    pub fn build(self) -> (r: Path)
        requires
            self@.wf(),
        ensures
            r@ == self@.log,
            closes_before_moves(r@),
    {
        Path::from_instructions(self.instructions)
    }

    pub fn current_transform(&self) -> (r: M)
        ensures
            r == self@.transforms.current,
    {
        self.transforms.current()
    }

    /// Replaces the current transform (by its product with a local transform).
    pub fn set_transform(&mut self, m: M)
        ensures
            final(self)@ == (BuilderState {
                transforms: step(old(self)@.transforms, TransformOp::Replace(m)),
                ..old(self)@
            }),
    {
        self.transforms.set_current(m);
    }

    pub fn save(&mut self)
        ensures
            final(self)@ == (BuilderState {
                transforms: step(old(self)@.transforms, TransformOp::Save),
                ..old(self)@
            }),
    {
        self.transforms.save();
    }

    pub fn restore(&mut self) -> (r: Result<(), PainterError>)
        ensures
            final(self)@ == (BuilderState {
                transforms: step(old(self)@.transforms, TransformOp::Restore),
                ..old(self)@
            }),
            r is Err <==> old(self)@.transforms.saved.len() == 0,
            r is Err ==> r == Err::<(), PainterError>(PainterError::TransformUnderflow),
    {
        self.transforms.restore()
    }

    pub fn reset(&mut self)
        ensures
            final(self)@ == (BuilderState {
                transforms: step(old(self)@.transforms, TransformOp::Reset),
                ..old(self)@
            }),
    {
        self.transforms.reset();
    }

    /// Closes the path
    pub fn close(&mut self)
        requires
            old(self)@.wf(),
        ensures
            final(self)@ == record_step(old(self)@, PathInstruction::Close),
            final(self)@.wf(),
    {
        proof {
            lemma_record_step_wf(self@, PathInstruction::Close);
        }
        self.instructions.push(PathInstruction::Close);
        self.drawn = false;
    }

    /// Moves the current point to `p`, first closing the current sub-path when it has
    /// a segment.
    pub fn move_to(&mut self, p: Point)
        requires
            old(self)@.wf(),
        ensures
            final(self)@ == record_step(old(self)@, PathInstruction::MoveTo(p)),
            final(self)@.wf(),
    {
        proof {
            lemma_record_step_wf(self@, PathInstruction::MoveTo(p));
        }
        if self.drawn {
            self.instructions.push(PathInstruction::Close);
        }
        self.instructions.push(PathInstruction::MoveTo(p));
        self.drawn = false;
    }

    /// Adds a line to `p`.
    pub fn line_to(&mut self, p: Point)
        requires
            old(self)@.wf(),
        ensures
            final(self)@ == record_step(old(self)@, PathInstruction::LineTo(p)),
            final(self)@.wf(),
    {
        proof {
            lemma_record_step_wf(self@, PathInstruction::LineTo(p));
        }
        self.instructions.push(PathInstruction::LineTo(p));
        self.drawn = true;
    }

    /// Adds a quadratic bezier through control point `c` to `p`.
    pub fn quad_to(&mut self, c: Point, p: Point)
        requires
            old(self)@.wf(),
        ensures
            final(self)@ == record_step(old(self)@, PathInstruction::QuadTo(c, p)),
            final(self)@.wf(),
    {
        proof {
            lemma_record_step_wf(self@, PathInstruction::QuadTo(c, p));
        }
        self.instructions.push(PathInstruction::QuadTo(c, p));
        self.drawn = true;
    }

    /// Adds a cubic bezier through control points `c1`, `c2` to `p`.
    pub fn curve_to(&mut self, c1: Point, c2: Point, p: Point)
        requires
            old(self)@.wf(),
        ensures
            final(self)@ == record_step(old(self)@, PathInstruction::CurveTo(c1, c2, p)),
            final(self)@.wf(),
    {
        proof {
            lemma_record_step_wf(self@, PathInstruction::CurveTo(c1, c2, p));
        }
        self.instructions.push(PathInstruction::CurveTo(c1, c2, p));
        self.drawn = true;
    }

    /// Records one instruction through the matching method.
    pub fn record(&mut self, ins: PathInstruction)
        requires
            old(self)@.wf(),
        ensures
            final(self)@ == record_step(old(self)@, ins),
            final(self)@.wf(),
    {
        match ins {
            PathInstruction::MoveTo(p) => self.move_to(p),
            PathInstruction::Close => self.close(),
            PathInstruction::LineTo(p) => self.line_to(p),
            PathInstruction::QuadTo(c, p) => self.quad_to(c, p),
            PathInstruction::CurveTo(c1, c2, p) => self.curve_to(c1, c2, p),
        }
    }
}

/// Recording a log into a fresh builder yields that log, with a segment pending
/// exactly when the log ends with one.
proof fn lemma_record_fresh<M>(st: BuilderState<M>, log: Seq<PathInstruction>)
    requires
        st.log.len() == 0,
        !st.drawn,
        closes_before_moves(log),
    ensures
        record_all(st, log).log == log,
        record_all(st, log).drawn == drawn_after(log),
        record_all(st, log).transforms == st.transforms,
    decreases log.len(),
{
    if log.len() > 0 {
        let prev = log.drop_last();
        assert forall|k: int| 0 < k < prev.len() && #[trigger] prev[k] is MoveTo implies !is_segment(
            prev[k - 1],
        ) by {
            assert(prev[k] == log[k]);
            assert(prev[k - 1] == log[k - 1]);
        }
        lemma_record_fresh(st, prev);
        let n = log.len() - 1;
        assert(log[n] == log.last());
        if n > 0 {
            assert(prev.last() == log[n - 1]);
        }
        assert(prev.push(log.last()) =~= log);
    }
}

/// Path round trip: recording the log of a path into a fresh builder and building
/// gives back the same log, for every log in which no `MoveTo` directly follows a
/// segment; `PathBuilder::build` only makes such logs.
pub proof fn lemma_path_round_trip<M>(identity: M, log: Seq<PathInstruction>)
    requires
        closes_before_moves(log),
    ensures
        record_all(
            BuilderState {
                log: Seq::empty(),
                drawn: false,
                transforms: TransformState { current: identity, saved: Seq::empty(), identity },
            },
            log,
        ).log == log,
{
    lemma_record_fresh(
        BuilderState {
            log: Seq::empty(),
            drawn: false,
            transforms: TransformState { current: identity, saved: Seq::empty(), identity },
        },
        log,
    );
}

/// Every path a builder records round-trips: recording its log into a fresh builder
/// gives back the same log.
pub proof fn lemma_built_path_round_trip<M>(identity: M, st: BuilderState<M>)
    requires
        st.wf(),
    ensures
        record_all(
            BuilderState {
                log: Seq::empty(),
                drawn: false,
                transforms: TransformState { current: identity, saved: Seq::empty(), identity },
            },
            st.log,
        ).log == st.log,
{
    lemma_path_round_trip(identity, st.log);
}

} // verus!
