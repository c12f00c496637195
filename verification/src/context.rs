use vstd::prelude::*;

use crate::path::PathSlice;

verus! {

/// The stack of drawing states of a context: the last one is current,
/// `save` pushes a copy of it and `restore` pops it, never the last one.
pub struct StateStack<S> {
    pub states: Vec<S>,
}

impl<S> StateStack<S> {
    /// The stack is never empty, so a current state always exists.
    pub open spec fn wf(&self) -> bool {
        self.states@.len() >= 1
    }

    /// The current state.
    pub open spec fn current(&self) -> S {
        self.states@.last()
    }

    /// A stack holding only `initial`.
    pub fn new(initial: S) -> (r: Self)
        ensures
            r.wf(),
            r.states@ == seq![initial],
    {
        let mut states = Vec::new();
        states.push(initial);
        StateStack { states }
    }

    /// Starts a frame: the stack holds only `initial` again.
    pub fn begin_frame(&mut self, initial: S)
        ensures
            final(self).wf(),
            final(self).states@ == seq![initial],
    {
        self.states.clear();
        self.states.push(initial);
    }

    /// Pops the current state unless it is the only one.
    pub fn restore(&mut self)
        requires
            old(self).wf(),
        ensures
            final(self).wf(),
            final(self).states@ == spec_restore(old(self).states@),
    {
        if self.states.len() <= 1 {
            return;
        }
        self.states.pop();
    }

    /// The current state.
    pub fn state(&self) -> (r: &S)
        requires
            self.wf(),
        ensures
            *r == self.current(),
    {
        let n = self.states.len();
        &self.states[n - 1]
    }

    /// Replaces the current state.
    pub fn set_state(&mut self, state: S)
        requires
            old(self).wf(),
        ensures
            final(self).wf(),
            final(self).states@ == old(self).states@.update(old(self).states@.len() - 1, state),
    {
        let n = self.states.len();
        self.states.set(n - 1, state);
    }
}

impl<S: Clone> StateStack<S> {
    /// Pushes a copy of the current state.
    pub fn save(&mut self)
        requires
            old(self).wf(),
        ensures
            final(self).wf(),
            final(self).states@.len() == old(self).states@.len() + 1,
            final(self).states@.drop_last() == old(self).states@,
            cloned(old(self).current(), final(self).current()),
    {
        let n = self.states.len();
        let last = self.states[n - 1].clone();
        self.states.push(last);
        assert(self.states@.drop_last() =~= old(self).states@);
    }
}

/// The stack after `restore`.
pub open spec fn spec_restore<S>(states: Seq<S>) -> Seq<S> {
    if states.len() <= 1 { states } else { states.drop_last() }
}

/// Restoring right after saving gives back the stack as it was, whatever
/// copy of the current state was pushed.
pub proof fn lemma_restore_undoes_save<S>(states: Seq<S>, pushed: S)
    requires
        states.len() >= 1,
    ensures
        spec_restore(states.push(pushed)) == states,
{
    assert(states.push(pushed).drop_last() =~= states);
}

/// The stack after `set_state` was called with each of `sets` in turn.
pub open spec fn spec_set_states<S>(states: Seq<S>, sets: Seq<S>) -> Seq<S>
    decreases sets.len(),
{
    if sets.len() == 0 {
        states
    } else {
        let s = spec_set_states(states, sets.drop_last());
        s.update(s.len() - 1, sets.last())
    }
}

proof fn lemma_set_states_top<S>(states: Seq<S>, sets: Seq<S>)
    requires
        states.len() >= 1,
    ensures
        spec_set_states(states, sets).len() == states.len(),
        spec_set_states(states, sets).drop_last() == states.drop_last(),
    decreases sets.len(),
{
    if sets.len() > 0 {
        lemma_set_states_top(states, sets.drop_last());
        let s = spec_set_states(states, sets.drop_last());
        assert(s.update(s.len() - 1, sets.last()).drop_last() =~= s.drop_last());
    }
}

/// Saving, then replacing the current state any number of times, then
/// restoring gives back the stack as it was before the save.
pub proof fn lemma_restore_after_setters<S>(states: Seq<S>, pushed: S, sets: Seq<S>)
    requires
        states.len() >= 1,
    ensures
        spec_restore(spec_set_states(states.push(pushed), sets)) == states,
{
    lemma_set_states_top(states.push(pushed), sets);
    assert(states.push(pushed).drop_last() =~= states);
}

/// Restoring never removes the first state: a stack of one state stays.
pub proof fn lemma_restore_keeps_base<S>(states: Seq<S>)
    requires
        states.len() >= 1,
    ensures
        spec_restore(states).len() >= 1,
        spec_restore(states)[0] == states[0],
{
}

/// Draw statistics of a frame.
#[derive(Debug, Clone, Copy, PartialEq, Eq, Structural)]
pub struct FrameStats {
    pub draw_call_count: usize,
    pub fill_triangles_count: usize,
    pub stroke_triangles_count: usize,
    pub text_triangles_count: usize,
}

/// Triangles of a fill: those of each fan and strip with more than two
/// vertices.
pub open spec fn fill_triangles(slices: Seq<PathSlice>) -> nat
    decreases slices.len(),
{
    if slices.len() == 0 {
        0
    } else {
        let s = slices.last();
        fill_triangles(slices.drop_last())
            + (if s.num_fill > 2 { (s.num_fill - 2) as nat } else { 0nat })
            + (if s.num_stroke > 2 { (s.num_stroke - 2) as nat } else { 0nat })
    }
}

/// Triangles of a stroke: those of each strip, none for a strip of fewer
/// than three vertices.
pub open spec fn stroke_triangles(slices: Seq<PathSlice>) -> nat
    decreases slices.len(),
{
    if slices.len() == 0 {
        0
    } else {
        let s = slices.last();
        stroke_triangles(slices.drop_last()) + (if s.num_stroke > 2 { (s.num_stroke - 2) as nat } else { 0nat })
    }
}

proof fn lemma_fill_triangles_prefix(s: Seq<PathSlice>, i: int)
    requires
        0 <= i <= s.len(),
    ensures
        fill_triangles(s.take(i)) <= fill_triangles(s),
    decreases s.len() - i,
{
    if i < s.len() {
        assert(s.take(i + 1).drop_last() == s.take(i));
        lemma_fill_triangles_prefix(s, i + 1);
    } else {
        assert(s.take(i) == s);
    }
}

proof fn lemma_stroke_triangles_prefix(s: Seq<PathSlice>, i: int)
    requires
        0 <= i <= s.len(),
    ensures
        stroke_triangles(s.take(i)) <= stroke_triangles(s),
    decreases s.len() - i,
{
    if i < s.len() {
        assert(s.take(i + 1).drop_last() == s.take(i));
        lemma_stroke_triangles_prefix(s, i + 1);
    } else {
        assert(s.take(i) == s);
    }
}

impl FrameStats {
    /// All counts zero, as at the start of a frame.
    pub fn new() -> (r: Self)
        ensures
            r.draw_call_count == 0,
            r.fill_triangles_count == 0,
            r.stroke_triangles_count == 0,
            r.text_triangles_count == 0,
    {
        FrameStats { draw_call_count: 0, fill_triangles_count: 0, stroke_triangles_count: 0, text_triangles_count: 0 }
    }

    /// Whether a fill of the slices can be counted without overflow.
    pub fn can_record_fill(&self, slices: &[PathSlice]) -> (r: bool)
        ensures
            r == (self.draw_call_count + slices@.len() <= usize::MAX
                && self.fill_triangles_count + fill_triangles(slices@) <= usize::MAX),
    {
        if self.draw_call_count.checked_add(slices.len()).is_none() {
            return false;
        }
        let mut acc: usize = self.fill_triangles_count;
        let mut i: usize = 0;
        while i < slices.len()
            invariant
                i <= slices@.len(),
                acc == self.fill_triangles_count + fill_triangles(slices@.take(i as int)),
            decreases slices@.len() - i,
        {
            proof {
                assert(slices@.take(i + 1).drop_last() == slices@.take(i as int));
                assert(slices@.take(i + 1).last() == slices@[i as int]);
                lemma_fill_triangles_prefix(slices@, i + 1);
            }
            let s = &slices[i];
            if s.num_fill > 2 {
                acc = match acc.checked_add(s.num_fill - 2) {
                    Some(a) => a,
                    None => return false,
                };
            }
            if s.num_stroke > 2 {
                acc = match acc.checked_add(s.num_stroke - 2) {
                    Some(a) => a,
                    None => return false,
                };
            }
            i = i + 1;
        }
        assert(slices@.take(slices@.len() as int) == slices@);
        true
    }

    /// Whether a stroke of the slices can be counted without overflow.
    pub fn can_record_stroke(&self, slices: &[PathSlice]) -> (r: bool)
        ensures
            r == (self.draw_call_count + slices@.len() <= usize::MAX
                && self.fill_triangles_count + stroke_triangles(slices@) <= usize::MAX),
    {
        if self.draw_call_count.checked_add(slices.len()).is_none() {
            return false;
        }
        let mut acc: usize = self.fill_triangles_count;
        let mut i: usize = 0;
        while i < slices.len()
            invariant
                i <= slices@.len(),
                acc == self.fill_triangles_count + stroke_triangles(slices@.take(i as int)),
            decreases slices@.len() - i,
        {
            proof {
                assert(slices@.take(i + 1).drop_last() == slices@.take(i as int));
                assert(slices@.take(i + 1).last() == slices@[i as int]);
                lemma_stroke_triangles_prefix(slices@, i + 1);
            }
            let s = &slices[i];
            if s.num_stroke > 2 {
                acc = match acc.checked_add(s.num_stroke - 2) {
                    Some(a) => a,
                    None => return false,
                };
            }
            i = i + 1;
        }
        assert(slices@.take(slices@.len() as int) == slices@);
        true
    }

    /// Whether the wire lines of the slices can be counted without overflow.
    pub fn can_record_lines(&self, slices: &[PathSlice]) -> (r: bool)
        ensures
            r == (self.draw_call_count + slices@.len() <= usize::MAX),
    {
        self.draw_call_count.checked_add(slices.len()).is_some()
    }

    /// Counts a fill of the slices: one draw call per path, and the
    /// triangles of its fans and strips.
    pub fn record_fill(&mut self, slices: &[PathSlice])
        requires
            old(self).draw_call_count + slices@.len() <= usize::MAX,
            old(self).fill_triangles_count + fill_triangles(slices@) <= usize::MAX,
        ensures
            final(self).draw_call_count == old(self).draw_call_count + slices@.len(),
            final(self).fill_triangles_count == old(self).fill_triangles_count + fill_triangles(slices@),
            final(self).stroke_triangles_count == old(self).stroke_triangles_count,
            final(self).text_triangles_count == old(self).text_triangles_count,
    {
        let mut acc: usize = 0;
        let mut i: usize = 0;
        while i < slices.len()
            invariant
                i <= slices@.len(),
                acc == fill_triangles(slices@.take(i as int)),
                old(self).fill_triangles_count + fill_triangles(slices@) <= usize::MAX,
            decreases slices@.len() - i,
        {
            proof {
                assert(slices@.take(i + 1).drop_last() == slices@.take(i as int));
                assert(slices@.take(i + 1).last() == slices@[i as int]);
                lemma_fill_triangles_prefix(slices@, i + 1);
            }
            let s = &slices[i];
            if s.num_fill > 2 {
                acc = acc + (s.num_fill - 2);
            }
            if s.num_stroke > 2 {
                acc = acc + (s.num_stroke - 2);
            }
            i = i + 1;
        }
        assert(slices@.take(slices@.len() as int) == slices@);
        self.draw_call_count = self.draw_call_count + slices.len();
        self.fill_triangles_count = self.fill_triangles_count + acc;
    }

    /// Counts a stroke of the slices: one draw call per path, and the
    /// triangles of its strip, counted with the fill triangles.
    pub fn record_stroke(&mut self, slices: &[PathSlice])
        requires
            old(self).draw_call_count + slices@.len() <= usize::MAX,
            old(self).fill_triangles_count + stroke_triangles(slices@) <= usize::MAX,
        ensures
            final(self).draw_call_count == old(self).draw_call_count + slices@.len(),
            final(self).fill_triangles_count == old(self).fill_triangles_count + stroke_triangles(slices@),
            final(self).stroke_triangles_count == old(self).stroke_triangles_count,
            final(self).text_triangles_count == old(self).text_triangles_count,
    {
        let mut acc: usize = 0;
        let mut i: usize = 0;
        while i < slices.len()
            invariant
                i <= slices@.len(),
                acc == stroke_triangles(slices@.take(i as int)),
                old(self).fill_triangles_count + stroke_triangles(slices@) <= usize::MAX,
            decreases slices@.len() - i,
        {
            proof {
                assert(slices@.take(i + 1).drop_last() == slices@.take(i as int));
                assert(slices@.take(i + 1).last() == slices@[i as int]);
                lemma_stroke_triangles_prefix(slices@, i + 1);
            }
            let s = &slices[i];
            if s.num_stroke > 2 {
                acc = acc + (s.num_stroke - 2);
            }
            i = i + 1;
        }
        assert(slices@.take(slices@.len() as int) == slices@);
        self.draw_call_count = self.draw_call_count + slices.len();
        self.fill_triangles_count = self.fill_triangles_count + acc;
    }

    /// Counts the wire lines of the slices: one draw call per path.
    pub fn record_lines(&mut self, slices: &[PathSlice])
        requires
            old(self).draw_call_count + slices@.len() <= usize::MAX,
        ensures
            final(self).draw_call_count == old(self).draw_call_count + slices@.len(),
            final(self).fill_triangles_count == old(self).fill_triangles_count,
            final(self).stroke_triangles_count == old(self).stroke_triangles_count,
            final(self).text_triangles_count == old(self).text_triangles_count,
    {
        self.draw_call_count = self.draw_call_count + slices.len();
    }
}

} // verus!
