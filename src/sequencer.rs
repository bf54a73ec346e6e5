use vstd::prelude::*;

use crate::commands::{frames_view, KeyFrame, KeyView};

verus! {

/// Time a frame stays on screen before the next one, in milliseconds.
pub const FRAME_DURATION_MS: u64 = 500;

/// Index and elapsed time after one tick of `delta` milliseconds over `len`
/// frames: the elapsed time grows (saturating); once it reaches the frame
/// duration on a non-empty sequence, the index moves on by one, wrapping,
/// and the elapsed time restarts from zero.
pub open spec fn after_tick(len: nat, index: nat, elapsed: nat, delta: nat) -> (nat, nat) {
    let sum = elapsed + delta;
    let e: nat = if sum > u64::MAX { u64::MAX as nat } else { sum };
    if len > 0 && e >= FRAME_DURATION_MS {
        (((index + 1) % len) as nat, 0)
    } else {
        (index, e)
    }
}

/// Index and elapsed time after the ticks `deltas`, in order.
pub open spec fn after_ticks(len: nat, index: nat, elapsed: nat, deltas: Seq<u64>) -> (nat, nat)
    decreases deltas.len(),
{
    if deltas.len() == 0 {
        (index, elapsed)
    } else {
        let next = after_tick(len, index, elapsed, deltas[0] as nat);
        after_ticks(len, next.0, next.1, deltas.drop_first())
    }
}

/// Sum of tick lengths.
pub open spec fn total_ms(deltas: Seq<u64>) -> nat
    decreases deltas.len(),
{
    if deltas.len() == 0 {
        0
    } else {
        deltas[0] as nat + total_ms(deltas.drop_first())
    }
}

/// A run of ticks that reaches the frame duration at its last tick and not
/// before.
pub open spec fn reaches_duration_at_end(deltas: Seq<u64>) -> bool {
    &&& deltas.len() > 0
    &&& total_ms(deltas.drop_last()) < FRAME_DURATION_MS
    &&& total_ms(deltas) >= FRAME_DURATION_MS
}

proof fn lemma_total_drop_last(deltas: Seq<u64>)
    requires
        deltas.len() > 0,
    ensures
        total_ms(deltas) == total_ms(deltas.drop_last()) + deltas.last(),
    decreases deltas.len(),
{
    if deltas.len() == 1 {
        assert(deltas.drop_first().len() == 0);
        assert(deltas.drop_last().len() == 0);
        assert(total_ms(deltas) == deltas[0] + total_ms(deltas.drop_first()));
    } else {
        lemma_total_drop_last(deltas.drop_first());
        assert(deltas.drop_first().drop_last() =~= deltas.drop_last().drop_first());
        assert(deltas.drop_last()[0] == deltas[0]);
        assert(deltas.drop_first().last() == deltas.last());
        assert(total_ms(deltas.drop_last()) == deltas[0] + total_ms(
            deltas.drop_last().drop_first(),
        ));
        assert(total_ms(deltas) == deltas[0] + total_ms(deltas.drop_first()));
    }
}

proof fn lemma_ticks_concat(len: nat, index: nat, elapsed: nat, a: Seq<u64>, b: Seq<u64>)
    ensures
        after_ticks(len, index, elapsed, a + b) == after_ticks(
            len,
            after_ticks(len, index, elapsed, a).0,
            after_ticks(len, index, elapsed, a).1,
            b,
        ),
    decreases a.len(),
{
    if a.len() == 0 {
        assert(a + b =~= b);
    } else {
        let next = after_tick(len, index, elapsed, a[0] as nat);
        assert((a + b).drop_first() =~= a.drop_first() + b);
        lemma_ticks_concat(len, next.0, next.1, a.drop_first(), b);
    }
}

/// Ticks that keep the elapsed time under the frame duration until their last
/// one, where it is reached, advance the frame exactly once.
pub proof fn lemma_ticks_advance_once(len: nat, index: nat, elapsed: nat, deltas: Seq<u64>)
    requires
        len > 0,
        deltas.len() > 0,
        elapsed + total_ms(deltas.drop_last()) < FRAME_DURATION_MS,
        elapsed + total_ms(deltas) >= FRAME_DURATION_MS,
    ensures
        after_ticks(len, index, elapsed, deltas) == (((index + 1) % len) as nat, 0nat),
    decreases deltas.len(),
{
    lemma_total_drop_last(deltas);
    if deltas.len() == 1 {
        assert(deltas.drop_first().len() == 0);
        assert(deltas.drop_last().len() == 0);
        assert(total_ms(deltas) == deltas[0]);
        assert(after_ticks(len, index, elapsed, deltas) == after_ticks(
            len,
            after_tick(len, index, elapsed, deltas[0] as nat).0,
            after_tick(len, index, elapsed, deltas[0] as nat).1,
            deltas.drop_first(),
        ));
    } else {
        let rest = deltas.drop_first();
        lemma_total_drop_last(rest);
        assert(rest.drop_last() =~= deltas.drop_last().drop_first());
        assert(total_ms(deltas.drop_last()) == deltas[0] + total_ms(rest.drop_last()));
        assert(total_ms(deltas) == deltas[0] + total_ms(rest));
        lemma_ticks_advance_once(len, index, elapsed + deltas[0] as nat, rest);
    }
}

/// On a two-frame sequence freshly selected (frame 0, nothing elapsed), a run
/// of ticks that first reaches the frame duration at its end shows frame 1,
/// and a second such run shows frame 0 again.
pub proof fn lemma_two_frame_cycle(first: Seq<u64>, second: Seq<u64>)
    requires
        reaches_duration_at_end(first),
        reaches_duration_at_end(second),
    ensures
        after_ticks(2, 0, 0, first) == (1nat, 0nat),
        after_ticks(2, 0, 0, first + second) == (0nat, 0nat),
{
    lemma_ticks_advance_once(2, 0, 0, first);
    lemma_ticks_advance_once(2, 1, 0, second);
    lemma_ticks_concat(2, 0, 0, first, second);
}

/// The frames of the selected shortcut and the one shown now.
pub struct FrameSequencer {
    frames: Vec<KeyFrame>,
    frame_index: usize,
    elapsed_ms: u64,
}

impl FrameSequencer {
    /// The frames being shown.
    pub closed spec fn frames_spec(&self) -> Seq<Seq<KeyView>> {
        frames_view(self.frames@)
    }

    /// Index of the frame shown now.
    pub closed spec fn index_spec(&self) -> nat {
        self.frame_index as nat
    }

    /// Milliseconds since the shown frame came up.
    pub closed spec fn elapsed_spec(&self) -> nat {
        self.elapsed_ms as nat
    }

    #[verifier::type_invariant]
    spec fn inv(&self) -> bool {
        if self.frames@.len() == 0 {
            self.frame_index == 0
        } else {
            self.frame_index < self.frames@.len()
        }
    }

    /// A sequencer with no frames.
    pub fn new() -> (s: Self)
        ensures
            s.frames_spec().len() == 0,
            s.index_spec() == 0,
            s.elapsed_spec() == 0,
    {
        let s = FrameSequencer { frames: Vec::new(), frame_index: 0, elapsed_ms: 0 };
        assert(s.frames_spec() =~= Seq::<Seq<KeyView>>::empty());
        s
    }

    /// Starts over on a newly selected shortcut: first frame, nothing elapsed.
    pub fn on_selection_changed(&mut self, frames: Vec<KeyFrame>)
        ensures
            final(self).frames_spec() == frames_view(frames@),
            final(self).index_spec() == 0,
            final(self).elapsed_spec() == 0,
    {
        *self = FrameSequencer { frames, frame_index: 0, elapsed_ms: 0 };
    }

    /// Lets `delta_ms` milliseconds pass; moves on by at most one frame.
    pub fn on_tick(&mut self, delta_ms: u64)
        ensures
            final(self).frames_spec() == old(self).frames_spec(),
            (final(self).index_spec(), final(self).elapsed_spec()) == after_tick(
                old(self).frames_spec().len(),
                old(self).index_spec(),
                old(self).elapsed_spec(),
                delta_ms as nat,
            ),
    {
        proof {
            use_type_invariant(&*self);
        }
        self.elapsed_ms = self.elapsed_ms.saturating_add(delta_ms);
        if self.frames.len() > 0 && self.elapsed_ms >= FRAME_DURATION_MS {
            self.frame_index = (self.frame_index + 1) % self.frames.len();
            self.elapsed_ms = 0;
        }
    }

    /// Index of the frame shown now.
    pub fn frame_index(&self) -> (i: usize)
        ensures
            i == self.index_spec(),
            self.frames_spec().len() > 0 ==> i < self.frames_spec().len(),
            self.frames_spec().len() == 0 ==> i == 0,
    {
        proof {
            use_type_invariant(self);
        }
        self.frame_index
    }

    /// The frames being shown.
    pub fn frames(&self) -> (f: &Vec<KeyFrame>)
        ensures
            frames_view(f@) == self.frames_spec(),
    {
        &self.frames
    }

    /// The frame shown now, if there is any.
    pub fn current_frame(&self) -> (f: Option<&KeyFrame>)
        ensures
            self.frames_spec().len() == 0 ==> f is None,
            self.frames_spec().len() > 0 ==> f is Some && f->0@ == self.frames_spec()[self.index_spec() as int],
    {
        proof {
            use_type_invariant(self);
        }
        if self.frames.len() == 0 {
            None
        } else {
            Some(&self.frames[self.frame_index])
        }
    }
}

} // verus!
