//! The game-mode stack and the transitions that are the only way to change it.
use crate::modes::DispatchMode;
use vstd::prelude::*;

verus! {

/// How the mode stack changes after an update.
pub enum Transition<M> {
    /// Do nothing.
    Stay,
    /// Pop the top mode off and replace it with this one.
    Swap(M),
    /// Push this mode onto the stack.
    Push(M),
    /// Pop the top mode off the stack.
    Pop,
    /// Pop N entries off the stack, then push some new ones.
    /// The last entry of the vector becomes the top of the stack.
    PopNAndPush(usize, Vec<M>),
}

/// The modes after `t` is applied to `s`, as a sequence of modes.
pub open spec fn apply_spec<M>(t: Transition<M>, s: Seq<M>) -> Seq<M> {
    match t {
        Transition::Stay => s,
        Transition::Swap(m) => if s.len() > 0 {
            s.drop_last().push(m)
        } else {
            s.push(m)
        },
        Transition::Push(m) => s.push(m),
        Transition::Pop => if s.len() >= 2 {
            s.drop_last()
        } else {
            s
        },
        Transition::PopNAndPush(n, news) => {
            let floor: int = if news@.len() == 0 { 1 } else { 0 };
            let keep = if s.len() - n > floor { s.len() - n } else { floor };
            let kept = if keep < s.len() { s.take(keep) } else { s };
            kept + news@
        },
    }
}

/// Whether applying `t` to a stack of `depth` modes reveals a mode that must be resumed.
pub open spec fn resumes_spec<M>(t: Transition<M>, depth: int) -> bool {
    match t {
        Transition::Pop => depth >= 2,
        Transition::PopNAndPush(_, news) => news@.len() == 0,
        _ => false,
    }
}

impl<M> Transition<M> {
    /// Applies the transition to `stack`. Returns whether the mode now on top was
    /// revealed by popping and must be resumed.
    ///
    /// Popping is clamped: a non-empty stack never becomes empty.
    pub fn apply(self, stack: &mut Vec<M>) -> (resume: bool)
        requires
            old(stack)@.len() + 1 <= usize::MAX,
            self is PopNAndPush ==> old(stack)@.len() + self->PopNAndPush_1@.len() <= usize::MAX,
        ensures
            final(stack)@ == apply_spec(self, old(stack)@),
            resume == resumes_spec(self, old(stack)@.len() as int),
    {
        let ghost t = self;
        match self {
            Transition::Stay => false,
            Transition::Swap(new) => {
                if stack.len() > 0 {
                    stack.pop();
                }
                stack.push(new);
                false
            },
            Transition::Push(new) => {
                stack.push(new);
                false
            },
            Transition::Pop => {
                if stack.len() >= 2 {
                    stack.pop();
                    true
                } else {
                    false
                }
            },
            Transition::PopNAndPush(count, news) => {
                let mut news = news;
                let floor: usize = if news.len() == 0 { 1 } else { 0 };
                let left: usize = if stack.len() > count { stack.len() - count } else { 0 };
                let keep: usize = if left > floor { left } else { floor };
                if keep < stack.len() {
                    stack.truncate(keep);
                }
                let resume = news.len() == 0;
                stack.append(&mut news);
                proof {
                    assert(final(stack)@ =~= apply_spec(t, old(stack)@));
                }
                resume
            },
        }
    }
}

/// An ordered, never-empty stack of modes; the last one is active.
pub struct GamemodeStack<M> {
    modes: Vec<M>,
}

impl<M> GamemodeStack<M> {
    /// The modes, bottom first.
    pub closed spec fn view(&self) -> Seq<M> {
        self.modes@
    }

    /// The stack holds at least one mode.
    pub open spec fn wf(&self) -> bool {
        self@.len() >= 1
    }

    /// A stack holding only `initial`.
    pub fn new(initial: M) -> (r: Self)
        ensures
            r@ == seq![initial],
            r.wf(),
    {
        let mut modes = Vec::new();
        modes.push(initial);
        proof {
            assert(modes@ =~= seq![initial]);
        }
        GamemodeStack { modes }
    }

    /// Number of modes on the stack.
    pub fn depth(&self) -> (r: usize)
        ensures
            r == self@.len(),
    {
        self.modes.len()
    }

    /// The active mode.
    pub fn top(&self) -> (r: &M)
        requires
            self.wf(),
        ensures
            *r == self@.last(),
    {
        let n = self.modes.len();
        &self.modes[n - 1]
    }

    /// The active mode, to update it in place.
    pub fn top_mut(&mut self) -> (r: &mut M)
        requires
            old(self).wf(),
        ensures
            *r == old(self)@.last(),
            final(self)@ == old(self)@.update(old(self)@.len() - 1, *final(r)),
    {
        let n = self.modes.len();
        &mut self.modes[n - 1]
    }

    /// Applies `t`, then tells `resume` whether the revealed mode must be resumed.
    pub fn apply(&mut self, t: Transition<M>) -> (resume: bool)
        requires
            old(self).wf(),
            old(self)@.len() + 1 <= usize::MAX,
            t is PopNAndPush ==> old(self)@.len() + t->PopNAndPush_1@.len() <= usize::MAX,
        ensures
            final(self).wf(),
            final(self)@ == apply_spec(t, old(self)@),
            resume == resumes_spec(t, old(self)@.len() as int),
    {
        let r = t.apply(&mut self.modes);
        proof {
            lemma_apply_keeps_nonempty(t, old(self)@);
        }
        r
    }
}

impl GamemodeStack<DispatchMode> {
    /// Applies `t` and, where it revealed a mode by popping, resumes that mode.
    /// Returns whether a mode was resumed.
    pub fn advance(&mut self, t: Transition<DispatchMode>) -> (resumed: bool)
        requires
            old(self).wf(),
            old(self)@.len() + 1 <= usize::MAX,
            t is PopNAndPush ==> old(self)@.len() + t->PopNAndPush_1@.len() <= usize::MAX,
        ensures
            final(self).wf(),
            final(self)@ == apply_spec(t, old(self)@),
            resumed == resumes_spec(t, old(self)@.len() as int),
    {
        let resumed = self.apply(t);
        if resumed {
            let top = self.top_mut();
            top.on_resume();
        }
        proof {
            assert(self@ =~= apply_spec(t, old(self)@));
        }
        resumed
    }
}

/// The stack after each transition of `ts` in turn.
pub open spec fn apply_all<M>(ts: Seq<Transition<M>>, s: Seq<M>) -> Seq<M>
    decreases ts.len(),
{
    if ts.len() == 0 {
        s
    } else {
        apply_all(ts.drop_first(), apply_spec(ts[0], s))
    }
}

/// No sequence of transitions empties a non-empty stack.
pub proof fn lemma_apply_all_keeps_nonempty<M>(ts: Seq<Transition<M>>, s: Seq<M>)
    requires
        s.len() >= 1,
    ensures
        apply_all(ts, s).len() >= 1,
    decreases ts.len(),
{
    if ts.len() > 0 {
        lemma_apply_keeps_nonempty(ts[0], s);
        lemma_apply_all_keeps_nonempty(ts.drop_first(), apply_spec(ts[0], s));
    }
}

/// A swap replaces the active mode and keeps the depth of a non-empty stack.
pub proof fn lemma_swap_keeps_depth<M>(s: Seq<M>, m: M)
    requires
        s.len() >= 1,
    ensures
        apply_spec(Transition::Swap(m), s).len() == s.len(),
        apply_spec(Transition::Swap(m), s).last() == m,
        apply_spec(Transition::Swap(m), s).drop_last() == s.drop_last(),
{
}

/// Popping `n` and pushing nothing leaves `max(1, depth - n)` modes and resumes the
/// new top; pushing modes leaves `max(0, depth - n)` plus their number, with the last
/// one on top, and resumes nothing.
pub proof fn lemma_pop_n_and_push<M>(s: Seq<M>, n: usize, news: Vec<M>)
    requires
        s.len() >= 1,
    ensures
        news@.len() == 0 ==> apply_spec(Transition::PopNAndPush(n, news), s).len() == (if s.len()
            - n >= 1 {
            s.len() - n
        } else {
            1
        }),
        news@.len() == 0 ==> resumes_spec(Transition::PopNAndPush(n, news), s.len() as int),
        news@.len() > 0 ==> apply_spec(Transition::PopNAndPush(n, news), s).len() == (if s.len()
            - n >= 0 {
            s.len() - n
        } else {
            0
        }) + news@.len(),
        news@.len() > 0 ==> apply_spec(Transition::PopNAndPush(n, news), s).last()
            == news@.last(),
        news@.len() > 0 ==> !resumes_spec(Transition::PopNAndPush(n, news), s.len() as int),
{
}

/// Applying any transition to a non-empty stack leaves it non-empty.
pub proof fn lemma_apply_keeps_nonempty<M>(t: Transition<M>, s: Seq<M>)
    requires
        s.len() >= 1,
    ensures
        apply_spec(t, s).len() >= 1,
{
}

} // verus!
