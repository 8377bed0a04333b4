//! Control of the radiance estimate along one light path.
//!
//! A path starts at a camera ray. Each ray is traced against the scene and
//! either escapes to the sky, is absorbed by the surface it meets, or is
//! scattered into a new ray that the path follows in turn. The colour of the
//! path is the product of the attenuations met along the way times the sky
//! colour where the last ray escapes, or black where the path is absorbed or
//! gives up after its maximum number of bounces. The colour arithmetic is the
//! caller's; this module decides, event by event, what the path does next.
use vstd::prelude::*;

use crate::nearest::no_hit;

verus! {

/// The number of bounces that a path follows unless configured otherwise.
pub const DEFAULT_MAX_DEPTH: u32 = 50;

/// What happened to the ray that a path currently follows.
#[derive(Clone, Copy, Debug, PartialEq, Eq, Structural)]
pub enum Event {
    /// The ray meets no sphere.
    Miss,
    /// The ray meets a sphere whose material absorbs it.
    Absorbed,
    /// The ray meets a sphere whose material scatters it.
    Scattered,
}

/// What the path does after an event.
#[derive(Clone, Copy, Debug, PartialEq, Eq, Structural)]
pub enum Step {
    /// The path ends: its colour is the attenuations so far times the sky
    /// colour in the direction of the ray.
    Sky,
    /// The path ends and contributes black.
    Black,
    /// The path takes on the attenuation of the scattering and follows the
    /// scattered ray.
    Bounce,
}

/// The event of a traced ray: a miss when the scene reports no hit,
/// otherwise what the material of the hit sphere did with it.
pub open spec fn event_of(nearest: Option<usize>, scattered: bool) -> Event {
    if nearest is None {
        Event::Miss
    } else if scattered {
        Event::Scattered
    } else {
        Event::Absorbed
    }
}

/// The step after event `e` met by the ray at `depth` bounces: a scattered
/// ray is followed only while fewer than `max_depth` bounces lie behind.
pub open spec fn step_of(depth: nat, max_depth: nat, e: Event) -> Step {
    match e {
        Event::Miss => Step::Sky,
        Event::Absorbed => Step::Black,
        Event::Scattered => if depth < max_depth {
            Step::Bounce
        } else {
            Step::Black
        },
    }
}

/// How a path at `depth` bounces ends when its rays meet `events` in turn:
/// the final step and the number of rays traced, or `None` when the events
/// run out before the path ends.
pub open spec fn path_end(depth: nat, max_depth: nat, events: Seq<Event>) -> Option<(Step, nat)>
    decreases events.len(),
{
    if events.len() == 0 {
        None
    } else {
        match step_of(depth, max_depth, events[0]) {
            Step::Bounce => match path_end(depth + 1, max_depth, events.drop_first()) {
                Some((s, n)) => Some((s, n + 1)),
                None => None,
            },
            s => Some((s, 1)),
        }
    }
}

/// Classifies a traced ray from the scene's nearest hit and from whether
/// the hit material scattered it.
pub fn hit_event(nearest: Option<usize>, scattered: bool) -> (e: Event)
    ensures
        e == event_of(nearest, scattered),
{
    match nearest {
        None => Event::Miss,
        Some(_) => if scattered {
            Event::Scattered
        } else {
            Event::Absorbed
        },
    }
}

/// The step after `event` at `depth` bounces, with at most `max_depth`
/// bounces allowed.
pub fn next_step(depth: u32, max_depth: u32, event: Event) -> (s: Step)
    ensures
        s == step_of(depth as nat, max_depth as nat, event),
{
    match event {
        Event::Miss => Step::Sky,
        Event::Absorbed => Step::Black,
        Event::Scattered => if depth < max_depth {
            Step::Bounce
        } else {
            Step::Black
        },
    }
}

/// One light path in progress.
pub struct Path {
    /// Bounces followed so far.
    pub depth: u32,
    /// Bounces allowed.
    pub max_depth: u32,
    /// Whether the path has ended.
    pub finished: bool,
}

impl Path {
    /// A path never has more bounces behind it than it allows.
    pub open spec fn wf(&self) -> bool {
        self.depth <= self.max_depth
    }

    /// A path at its camera ray, allowed `max_depth` bounces.
    pub fn new(max_depth: u32) -> (p: Path)
        ensures
            p.wf(),
            p.depth == 0,
            p.max_depth == max_depth,
            !p.finished,
    {
        Path { depth: 0, max_depth, finished: false }
    }

    /// Records what happened to the current ray and says what to do next.
    /// The path ends at any step but a bounce.
    pub fn advance(&mut self, event: Event) -> (s: Step)
        requires
            old(self).wf(),
            !old(self).finished,
        ensures
            s == step_of(old(self).depth as nat, old(self).max_depth as nat, event),
            final(self).wf(),
            final(self).max_depth == old(self).max_depth,
            final(self).depth == if s is Bounce {
                old(self).depth + 1
            } else {
                old(self).depth as int
            },
            final(self).finished == !(s is Bounce),
    {
        let s = next_step(self.depth, self.max_depth, event);
        match s {
            Step::Bounce => {
                self.depth = self.depth + 1;
            },
            _ => {
                self.finished = true;
            },
        }
        s
    }
}

/// A path always ends: whatever its rays meet, it ends in sky or black after
/// tracing at most one ray more than the bounces it allows.
pub proof fn lemma_path_ends(depth: nat, max_depth: nat, events: Seq<Event>)
    requires
        depth <= max_depth,
        events.len() > max_depth - depth,
    ensures
        path_end(depth, max_depth, events) matches Some((s, n)) && !(s is Bounce) && 1 <= n
            <= max_depth - depth + 1,
    decreases events.len(),
{
    if step_of(depth, max_depth, events[0]) is Bounce {
        lemma_path_ends(depth + 1, max_depth, events.drop_first());
    }
}

/// A path whose every ray is scattered, as inside a closed cavity of
/// mirrors, ends in black after tracing exactly one ray more than the
/// bounces it allows.
pub proof fn lemma_mirror_cavity_ends_black(depth: nat, max_depth: nat, events: Seq<Event>)
    requires
        depth <= max_depth,
        events.len() > max_depth - depth,
        forall|i: int| 0 <= i < events.len() ==> events[i] == Event::Scattered,
    ensures
        path_end(depth, max_depth, events) == Some((Step::Black, (max_depth - depth + 1) as nat)),
    decreases events.len(),
{
    if depth < max_depth {
        let rest = events.drop_first();
        assert forall|i: int| 0 <= i < rest.len() implies rest[i] == Event::Scattered by {
            assert(rest[i] == events[i + 1]);
        }
        lemma_mirror_cavity_ends_black(depth + 1, max_depth, rest);
    }
}

/// In an empty scene the camera ray meets nothing, and its path ends at once
/// in the sky colour, whatever would have followed.
pub proof fn lemma_empty_scene_shows_sky(
    hits: Seq<Option<u64>>,
    nearest: Option<usize>,
    scattered: bool,
    max_depth: nat,
    rest: Seq<Event>,
)
    requires
        hits.len() == 0,
        nearest is None <==> no_hit(hits),
    ensures
        path_end(0, max_depth, seq![event_of(nearest, scattered)] + rest) == Some(
            (Step::Sky, 1nat),
        ),
{
    let events = seq![event_of(nearest, scattered)] + rest;
    assert(events[0] == Event::Miss);
}

} // verus!
