//! The bounded-depth light-transport loop: what becomes of a ray after each
//! query of the scene, and when the loop stops.
use vstd::prelude::*;

verus! {

/// What happened to a ray that was sent into the scene.
#[derive(Clone, Copy, Debug, PartialEq, Eq, Structural)]
pub enum Bounce {
    /// The ray hit nothing.
    Miss,
    /// The ray hit a surface whose material absorbed it.
    Absorbed,
    /// The ray hit a surface whose material sent out a new ray.
    Scattered,
}

/// What the renderer does after a query of the scene.
#[derive(Clone, Copy, Debug, PartialEq, Eq, Structural)]
pub enum Step {
    /// The path contributes black.
    Black,
    /// The path ends in the sky: its colour is the sky seen along the ray,
    /// times the attenuations gathered so far.
    Sky,
    /// The scattered ray is traced next, its attenuation gathered.
    Continue,
}

/// How a whole path ends.
pub enum PathEnd {
    Black,
    /// The sky, reached after this many scatterings.
    Sky(nat),
}

pub open spec fn step_of(b: Bounce) -> Step {
    match b {
        Bounce::Miss => Step::Sky,
        Bounce::Absorbed => Step::Black,
        Bounce::Scattered => Step::Continue,
    }
}

/// The end of a path traced with a budget of `depth` queries, where the
/// query made at position `i` has the outcome `events(i)`. A path whose budget
/// runs out contributes black.
pub open spec fn path_end(depth: nat, events: spec_fn(nat) -> Bounce, start: nat) -> PathEnd
    decreases depth,
{
    if depth == 0 {
        PathEnd::Black
    } else {
        match step_of(events(start)) {
            Step::Sky => PathEnd::Sky(0),
            Step::Black => PathEnd::Black,
            Step::Continue => match path_end((depth - 1) as nat, events, start + 1) {
                PathEnd::Sky(k) => PathEnd::Sky(k + 1),
                PathEnd::Black => PathEnd::Black,
            },
        }
    }
}

/// The state of one path: how many more queries of the scene it may make.
pub struct Path {
    depth: u32,
}

impl Path {
    pub closed spec fn remaining_spec(&self) -> nat {
        self.depth as nat
    }

    /// A path that may query the scene `max_depth` times.
    pub fn new(max_depth: u32) -> (r: Path)
        ensures
            r.remaining_spec() == max_depth,
    {
        Path { depth: max_depth }
    }

    pub fn remaining(&self) -> (r: u32)
        ensures
            r == self.remaining_spec(),
    {
        self.depth
    }

    /// Whether the ray may be sent into the scene; where it may not, the path
    /// contributes black.
    pub fn can_continue(&self) -> (r: bool)
        ensures
            r == (self.remaining_spec() > 0),
    {
        self.depth > 0
    }

    /// Takes the outcome of one query of the scene and spends one unit of
    /// the budget on it.
    pub fn advance(&mut self, b: Bounce) -> (r: Step)
        requires
            old(self).remaining_spec() > 0,
        ensures
            r == step_of(b),
            final(self).remaining_spec() == old(self).remaining_spec() - 1,
    {
        self.depth = self.depth - 1;
        match b {
            Bounce::Miss => Step::Sky,
            Bounce::Absorbed => Step::Black,
            Bounce::Scattered => Step::Continue,
        }
    }
}

/// A path with no budget is black, whatever the scene would have done.
pub proof fn lemma_no_depth_is_black(events: spec_fn(nat) -> Bounce, start: nat)
    ensures
        path_end(0, events, start) == PathEnd::Black,
{
}

/// A path scatters fewer times than its budget allows queries, so the
/// recursion never goes deeper than the budget.
pub proof fn lemma_scatterings_below_depth(depth: nat, events: spec_fn(nat) -> Bounce, start: nat)
    ensures
        path_end(depth, events, start) matches PathEnd::Sky(k) ==> k < depth,
    decreases depth,
{
    if depth > 0 {
        lemma_scatterings_below_depth((depth - 1) as nat, events, start + 1);
    }
}

} // verus!
