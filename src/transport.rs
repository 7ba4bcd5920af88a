//! How deep a light path may go, and what the integrator does after each
//! bounce.
use vstd::prelude::*;

verus! {

/// Number of scattering generations after which a path is cut off (black).
pub const MAX_DEPTH: usize = 64;

/// Scattering generation of a ray: 0 for a ray emitted by the camera, one
/// more for each scatter event since.
#[derive(Clone, Copy, Debug, PartialEq, Eq, Structural)]
pub struct Depth {
    generation: usize,
}

impl View for Depth {
    type V = nat;

    closed spec fn view(&self) -> nat {
        self.generation as nat
    }
}

impl Depth {
    /// The depth of a ray that leaves the camera.
    pub fn new() -> (r: Depth)
        ensures
            r@ == 0,
    {
        Depth { generation: 0 }
    }

    /// Number of scatter events since emission.
    pub fn generation(&self) -> (r: usize)
        ensures
            r == self@,
    {
        self.generation
    }

    /// Whether a ray of this depth may still be scattered.
    pub fn is_active(&self) -> (r: bool)
        ensures
            r == (self@ < MAX_DEPTH),
    {
        self.generation < MAX_DEPTH
    }

    /// The depth of the ray that a scatter event emits from a ray of this depth.
    pub fn next(&self) -> (r: Depth)
        requires
            self@ < MAX_DEPTH,
        ensures
            r@ == self@ + 1,
    {
        Depth { generation: self.generation + 1 }
    }
}

/// What happened to a ray at one bounce.
#[derive(Clone, Copy, Debug, PartialEq, Eq, Structural)]
pub enum Event {
    /// The ray hit no surface.
    Missed,
    /// The ray hit a surface and no new ray leaves it: the material absorbed
    /// it, or the ray had reached `MAX_DEPTH` and was not offered to the
    /// material.
    Absorbed,
    /// The ray hit a surface whose material emitted a new ray.
    Scattered,
}

/// What the integrator does next.
#[derive(Clone, Copy, Debug, PartialEq, Eq, Structural)]
pub enum Step {
    /// Return the sky gradient for the ray's direction; no recursion.
    Background,
    /// Return black; no recursion.
    Black,
    /// Multiply the attenuation by the color of the scattered ray, which
    /// carries this depth.
    Continue(Depth),
}

/// Whether a bounce with `event` at depth `depth` leads to a further bounce.
pub open spec fn continues(depth: nat, event: Event) -> bool {
    event is Scattered && depth < MAX_DEPTH
}

/// The recursion policy of the integrator: a ray that misses everything
/// shows the background, a ray that is absorbed or has reached
/// `MAX_DEPTH` turns black, and a scattered ray is followed one level deeper.
pub fn step(depth: Depth, event: Event) -> (s: Step)
    ensures
        (s is Background) <==> (event is Missed),
        (s is Continue) <==> continues(depth@, event),
        s is Continue ==> s->0@ == depth@ + 1,
{
    match event {
        Event::Missed => Step::Background,
        Event::Absorbed => Step::Black,
        Event::Scattered => {
            if depth.is_active() {
                Step::Continue(depth.next())
            } else {
                Step::Black
            }
        },
    }
}

/// Number of bounces that a path starting at depth `depth` goes on for,
/// when its successive bounces meet `events`.
pub open spec fn bounces(depth: nat, events: Seq<Event>) -> nat
    decreases events.len(),
{
    if events.len() == 0 || !continues(depth, events[0]) {
        0
    } else {
        1 + bounces(depth + 1, events.drop_first())
    }
}

/// Whatever the surfaces do to a path, its depth never exceeds `MAX_DEPTH`:
/// from depth `depth`, at most `MAX_DEPTH - depth` bounces follow.
pub proof fn lemma_depth_bounded(depth: nat, events: Seq<Event>)
    requires
        depth <= MAX_DEPTH,
    ensures
        depth + bounces(depth, events) <= MAX_DEPTH,
    decreases events.len(),
{
    if events.len() > 0 && continues(depth, events[0]) {
        lemma_depth_bounded(depth + 1, events.drop_first());
    }
}

/// Between two facing mirrors every bounce scatters; a camera ray there is
/// followed exactly `MAX_DEPTH` times, and its next bounce ends the path in
/// black rather than looping on.
pub proof fn lemma_facing_mirrors(events: Seq<Event>)
    requires
        events.len() > MAX_DEPTH,
        forall|i: int| 0 <= i < events.len() ==> events[i] is Scattered,
    ensures
        bounces(0, events) == MAX_DEPTH,
        !continues(MAX_DEPTH as nat, events[MAX_DEPTH as int]),
{
    lemma_scattering_run(0, events);
}

proof fn lemma_scattering_run(depth: nat, events: Seq<Event>)
    requires
        depth <= MAX_DEPTH,
        events.len() > MAX_DEPTH - depth,
        forall|i: int| 0 <= i < events.len() ==> events[i] is Scattered,
    ensures
        bounces(depth, events) == MAX_DEPTH - depth,
    decreases MAX_DEPTH - depth,
{
    if depth < MAX_DEPTH {
        let rest = events.drop_first();
        assert forall|i: int| 0 <= i < rest.len() implies rest[i] is Scattered by {
            assert(rest[i] == events[i + 1]);
        }
        lemma_scattering_run(depth + 1, rest);
    }
}

} // verus!
