//! A stack of drawing targets: each entry is a camera and, where it draws off
//! screen, the surface it draws to. The bottom entry is the final compositing target
//! and the top one is active.
use vstd::prelude::*;

verus! {

pub struct RenderTargetStack<C, S> {
    targets: Vec<(C, Option<S>)>,
}

impl<C, S> RenderTargetStack<C, S> {
    /// The targets, bottom first.
    pub closed spec fn view(&self) -> Seq<(C, Option<S>)> {
        self.targets@
    }

    /// Never popped below one target.
    pub open spec fn wf(&self) -> bool {
        self@.len() >= 1
    }

    /// A stack holding only the default target.
    pub fn new(camera: C, surface: Option<S>) -> (r: Self)
        ensures
            r@ == seq![(camera, surface)],
            r.wf(),
    {
        let mut targets = Vec::new();
        targets.push((camera, surface));
        proof {
            assert(targets@ =~= seq![(camera, surface)]);
        }
        RenderTargetStack { targets }
    }

    /// Number of targets.
    pub fn depth(&self) -> (r: usize)
        ensures
            r == self@.len(),
    {
        self.targets.len()
    }

    /// The active target.
    pub fn active(&self) -> (r: &(C, Option<S>))
        requires
            self.wf(),
        ensures
            *r == self@.last(),
    {
        let n = self.targets.len();
        &self.targets[n - 1]
    }

    /// Activates a new target above the others.
    pub fn push(&mut self, camera: C, surface: Option<S>)
        ensures
            final(self)@ == old(self)@.push((camera, surface)),
    {
        self.targets.push((camera, surface));
    }

    /// Removes the active target, activating the one beneath, and returns the
    /// surface the removed target drew to, if it had one.
    pub fn pop(&mut self) -> (r: Option<S>)
        requires
            old(self)@.len() >= 2,
        ensures
            final(self)@ == old(self)@.drop_last(),
            final(self).wf(),
            r == old(self)@.last().1,
    {
        match self.targets.pop() {
            Some((_camera, surface)) => surface,
            None => None,
        }
    }

    /// The surface of the final target, once every nested target has been popped.
    pub fn drawn_texture(self) -> (r: Option<S>)
        requires
            self@.len() == 1,
        ensures
            r == self@[0].1,
    {
        let mut targets = self.targets;
        match targets.pop() {
            Some((_camera, surface)) => surface,
            None => None,
        }
    }
}

} // verus!
