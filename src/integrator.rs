//! The termination policy of the recursive radiance estimate.
//!
//! A path starts with a bounce budget. While it is being traced, each scene
//! query yields an interaction; the path either ends (the ray escaped to the
//! background, was absorbed, or the budget ran out) or continues with the
//! scattered ray and one bounce less.
use vstd::prelude::*;

verus! {

/// What the scene did to a traced ray.
#[derive(Clone, Copy, Debug, PartialEq, Eq, Structural)]
pub enum Interaction {
    /// Nothing was hit: the ray sees the background.
    Missed,
    /// A surface was hit and its material declined to scatter.
    Absorbed,
    /// A surface was hit and its material produced a scattered ray.
    Scattered,
}

/// How a path ended.
#[derive(Clone, Copy, Debug, PartialEq, Eq, Structural)]
pub enum PathEnd {
    /// The bounce budget ran out: contributes black.
    Exhausted,
    /// The ray left the scene: contributes the background gradient.
    Escaped,
    /// The ray was absorbed: contributes black.
    Absorbed,
}

/// State of a path being traced.
#[derive(Clone, Copy, Debug, PartialEq, Eq, Structural)]
pub enum PathState {
    /// The current ray is to be tested against the scene, with `remaining`
    /// bounces left (always positive).
    Tracing { remaining: i32 },
    /// The path is over.
    Done(PathEnd),
}

/// The state in which a path with budget `depth` starts.
pub open spec fn start_state(depth: int) -> PathState {
    if depth <= 0 {
        PathState::Done(PathEnd::Exhausted)
    } else {
        PathState::Tracing { remaining: depth as i32 }
    }
}

/// The state after a traced ray with `remaining` bounces left meets `event`.
pub open spec fn next_state(remaining: int, event: Interaction) -> PathState {
    match event {
        Interaction::Missed => PathState::Done(PathEnd::Escaped),
        Interaction::Absorbed => PathState::Done(PathEnd::Absorbed),
        Interaction::Scattered => start_state(remaining - 1),
    }
}

/// The state reached from `s` when the scene answers with `events`, one per
/// query, for as long as the path is traced.
pub open spec fn run(s: PathState, events: Seq<Interaction>) -> PathState
    decreases events.len(),
{
    match s {
        PathState::Done(_) => s,
        PathState::Tracing { remaining } => {
            if events.len() == 0 {
                s
            } else {
                run(next_state(remaining as int, events[0]), events.drop_first())
            }
        },
    }
}

/// The black-or-background contribution of a finished path: true when the
/// path contributes black.
pub open spec fn ends_black(end: PathEnd) -> bool {
    end != PathEnd::Escaped
}

impl PathEnd {
    /// Whether a path that ended this way contributes black rather than the
    /// background.
    pub fn contributes_black(self) -> (r: bool)
        ensures
            r == ends_black(self),
    {
        match self {
            PathEnd::Escaped => false,
            PathEnd::Exhausted | PathEnd::Absorbed => true,
        }
    }
}

impl PathState {
    /// The state of a path that may bounce at most `depth` times.
    pub fn start(depth: i32) -> (r: PathState)
        ensures
            r == start_state(depth as int),
    {
        if depth <= 0 {
            PathState::Done(PathEnd::Exhausted)
        } else {
            PathState::Tracing { remaining: depth }
        }
    }

    /// Well-formed: a path being traced has a positive budget.
    pub open spec fn wf(self) -> bool {
        match self {
            PathState::Tracing { remaining } => remaining > 0,
            PathState::Done(_) => true,
        }
    }

    /// Moves a path being traced on, given what the scene did to its ray.
    /// A scattered ray continues with one bounce less, or ends the path when
    /// no bounce is left.
    pub fn advance(self, event: Interaction) -> (r: PathState)
        requires
            self.wf(),
            self is Tracing,
        ensures
            r == next_state(self->remaining as int, event),
            r.wf(),
    {
        let remaining = match self {
            PathState::Tracing { remaining } => remaining,
            PathState::Done(_) => 1,
        };
        match event {
            Interaction::Missed => PathState::Done(PathEnd::Escaped),
            Interaction::Absorbed => PathState::Done(PathEnd::Absorbed),
            Interaction::Scattered => PathState::start(remaining - 1),
        }
    }
}

/// A path whose budget is zero or less is over before the scene is queried,
/// and contributes black whatever the scene would have answered.
pub proof fn lemma_no_budget_is_black(depth: int, events: Seq<Interaction>)
    requires
        depth <= 0,
    ensures
        run(start_state(depth), events) == PathState::Done(PathEnd::Exhausted),
        ends_black(PathEnd::Exhausted),
{
}

/// A path with budget `depth` ends after at most `depth` scene queries:
/// whatever the scene answers, the recursion is bounded.
pub proof fn lemma_budget_bounds_queries(depth: i32, events: Seq<Interaction>)
    requires
        events.len() >= depth,
    ensures
        run(start_state(depth as int), events) is Done,
    decreases events.len(),
{
    if depth > 0 {
        let next = next_state(depth as int, events[0]);
        assert(run(start_state(depth as int), events) == run(next, events.drop_first()));
        if events[0] == Interaction::Scattered {
            lemma_budget_bounds_queries((depth - 1) as i32, events.drop_first());
        }
    }
}

} // verus!
