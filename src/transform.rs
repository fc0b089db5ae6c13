use crate::error::PainterError;
use vstd::prelude::*;

verus! {

/// Abstract state of a transform stack: the current transform, the saved ones
/// (last saved at the end) and the transform that `reset` goes back to.
pub struct TransformState<M> {
    pub current: M,
    pub saved: Seq<M>,
    pub identity: M,
}

/// One operation on a transform stack; `Replace` stands for any change of the current
/// transform (a translation, a scaling, a rotation).
pub enum TransformOp<M> {
    Save,
    Restore,
    Reset,
    Replace(M),
}

/// The effect of one operation. A `Restore` with nothing saved fails and changes nothing.
pub open spec fn step<M>(st: TransformState<M>, op: TransformOp<M>) -> TransformState<M> {
    match op {
        TransformOp::Save => TransformState { saved: st.saved.push(st.current), ..st },
        TransformOp::Restore => if st.saved.len() > 0 {
            TransformState { current: st.saved.last(), saved: st.saved.drop_last(), ..st }
        } else {
            st
        },
        TransformOp::Reset => TransformState { current: st.identity, ..st },
        TransformOp::Replace(m) => TransformState { current: m, ..st },
    }
}

/// The effect of a sequence of operations, applied in order.
pub open spec fn apply_ops<M>(st: TransformState<M>, ops: Seq<TransformOp<M>>) -> TransformState<M>
    decreases ops.len(),
{
    if ops.len() == 0 {
        st
    } else {
        step(apply_ops(st, ops.drop_last()), ops.last())
    }
}

/// Saves minus restores in `ops`.
pub open spec fn depth<M>(ops: Seq<TransformOp<M>>) -> int
    decreases ops.len(),
{
    if ops.len() == 0 {
        0
    } else {
        depth(ops.drop_last()) + match ops.last() {
            TransformOp::Save => 1int,
            TransformOp::Restore => -1int,
            _ => 0int,
        }
    }
}

/// Every `Restore` in `ops` matches an earlier `Save` of `ops`, every change of the
/// current transform happens between a `Save` and its `Restore`, and every `Save`
/// is restored by the end.
pub open spec fn enclosed<M>(ops: Seq<TransformOp<M>>) -> bool {
    &&& forall|k: int| 0 <= k <= ops.len() ==> depth(#[trigger] ops.take(k)) >= 0
    &&& forall|k: int|
        0 <= k < ops.len() && !(#[trigger] ops[k] is Save) && !(ops[k] is Restore) ==> depth(
            ops.take(k),
        ) >= 1
    &&& depth(ops) == 0
}

/// A current transform together with a stack of saved ones.
pub struct TransformStack<M> {
    current: M,
    saved: Vec<M>,
    identity: M,
}

impl<M> View for TransformStack<M> {
    type V = TransformState<M>;

    closed spec fn view(&self) -> TransformState<M> {
        TransformState { current: self.current, saved: self.saved@, identity: self.identity }
    }
}

impl<M: Copy> TransformStack<M> {
    /// A stack whose current transform is `identity`, with nothing saved.
    pub fn new(identity: M) -> (r: Self)
        ensures
            r@ == (TransformState { current: identity, saved: Seq::<M>::empty(), identity }),
    {
        TransformStack { current: identity, saved: Vec::new(), identity }
    }

    pub fn current(&self) -> (r: M)
        ensures
            r == self@.current,
    {
        self.current
    }

    /// Number of saved transforms.
    pub fn depth(&self) -> (r: usize)
        ensures
            r == self@.saved.len(),
    {
        self.saved.len()
    }

    /// Replaces the current transform (by its product with a local transform).
    pub fn set_current(&mut self, m: M)
        ensures
            final(self)@ == step(old(self)@, TransformOp::Replace(m)),
    {
        self.current = m;
    }

    /// Pushes a copy of the current transform.
    pub fn save(&mut self)
        ensures
            final(self)@ == step(old(self)@, TransformOp::Save),
    {
        self.saved.push(self.current);
    }

    /// Pops the last saved transform into the current one.
    pub fn restore(&mut self) -> (r: Result<(), PainterError>)
        ensures
            final(self)@ == step(old(self)@, TransformOp::Restore),
            r is Err <==> old(self)@.saved.len() == 0,
            r is Err ==> r == Err::<(), PainterError>(PainterError::TransformUnderflow),
    {
        match self.saved.pop() {
            Some(m) => {
                self.current = m;
                Ok(())
            },
            None => Err(PainterError::TransformUnderflow),
        }
    }

    /// Sets the current transform back to the identity; the saved ones stay.
    pub fn reset(&mut self)
        ensures
            final(self)@ == step(old(self)@, TransformOp::Reset),
    {
        self.current = self.identity;
    }

    /// Drops every saved transform and resets the current one.
    pub fn clear(&mut self)
        ensures
            final(self)@ == (TransformState {
                current: old(self)@.identity,
                saved: Seq::<M>::empty(),
                identity: old(self)@.identity,
            }),
    {
        self.saved.clear();
        self.current = self.identity;
    }
}

/// What holds after each prefix of an enclosed sequence: the saved stack keeps what was
/// there below the prefix's depth, with the starting transform first above it, and at
/// depth zero the starting transform is current.
proof fn lemma_enclosed_prefix<M>(st: TransformState<M>, ops: Seq<TransformOp<M>>)
    requires
        forall|k: int| 0 <= k <= ops.len() ==> depth(#[trigger] ops.take(k)) >= 0,
        forall|k: int|
            0 <= k < ops.len() && !(#[trigger] ops[k] is Save) && !(ops[k] is Restore) ==> depth(
                ops.take(k),
            ) >= 1,
    ensures
        apply_ops(st, ops).saved.len() == st.saved.len() + depth(ops),
        apply_ops(st, ops).saved.subrange(0, st.saved.len() as int) == st.saved,
        apply_ops(st, ops).identity == st.identity,
        depth(ops) == 0 ==> apply_ops(st, ops).current == st.current,
        depth(ops) >= 1 ==> apply_ops(st, ops).saved[st.saved.len() as int] == st.current,
    decreases ops.len(),
{
    assert(ops.take(ops.len() as int) =~= ops);
    if ops.len() > 0 {
        let prev = ops.drop_last();
        assert forall|k: int| 0 <= k <= prev.len() implies depth(#[trigger] prev.take(k)) >= 0 by {
            assert(prev.take(k) =~= ops.take(k));
        }
        assert forall|k: int|
            0 <= k < prev.len() && !(#[trigger] prev[k] is Save) && !(
            prev[k] is Restore) implies depth(prev.take(k)) >= 1 by {
            assert(prev.take(k) =~= ops.take(k));
            assert(prev[k] == ops[k]);
        }
        lemma_enclosed_prefix(st, prev);
        assert(prev =~= ops.take(ops.len() - 1));
        let before = apply_ops(st, prev);
        let after = apply_ops(st, ops);
        let n = st.saved.len() as int;
        match ops.last() {
            TransformOp::Save => {
                assert(after.saved.subrange(0, n) =~= before.saved.subrange(0, n));
            },
            TransformOp::Restore => {
                assert(after.saved.subrange(0, n) =~= before.saved.subrange(0, n));
            },
            _ => {
                assert(ops[ops.len() - 1] == ops.last());
            },
        }
    }
}

/// Transform round trip: a sequence of operations in which every change of the
/// current transform is enclosed in a save/restore pair, and every save is restored,
/// leaves the transform state as it was.
pub proof fn lemma_enclosed_round_trip<M>(st: TransformState<M>, ops: Seq<TransformOp<M>>)
    requires
        enclosed(ops),
    ensures
        apply_ops(st, ops) == st,
{
    lemma_enclosed_prefix(st, ops);
    let r = apply_ops(st, ops);
    assert(r.saved =~= r.saved.subrange(0, st.saved.len() as int));
}

/// `save; set m; restore` leaves the transform state as it was.
pub proof fn lemma_save_set_restore<M>(st: TransformState<M>, m: M)
    ensures
        step(step(step(st, TransformOp::Save), TransformOp::Replace(m)), TransformOp::Restore) == st,
{
    let s1 = step(st, TransformOp::Save);
    assert(s1.saved.drop_last() =~= st.saved);
}

} // verus!
