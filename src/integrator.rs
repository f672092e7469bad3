use vstd::prelude::*;

verus! {

/// Bounce depth at which a light path is cut off.
pub const MAX_DEPTH: u32 = 50;

/// What happened to a ray after it was cast into the scene.
#[derive(Clone, Copy, Debug, PartialEq, Eq, Structural)]
pub enum Event {
    /// The ray hit nothing.
    Miss,
    /// The ray hit a surface whose material absorbed it.
    Absorbed,
    /// The ray hit a surface whose material sent out a new ray.
    Scattered,
}

/// What the integrator does next.
#[derive(Clone, Copy, Debug, PartialEq, Eq, Structural)]
pub enum Step {
    /// The path ends with the sky's color.
    Sky,
    /// The path ends with no light.
    Black,
    /// The scattered ray is traced at the given depth, and its color is
    /// attenuated by the material.
    Bounce(u32),
}

pub open spec fn step_spec(depth: nat, max_depth: nat, event: Event) -> Step {
    match event {
        Event::Miss => Step::Sky,
        Event::Absorbed => Step::Black,
        Event::Scattered => if depth < max_depth {
            Step::Bounce((depth + 1) as u32)
        } else {
            Step::Black
        },
    }
}

/// Decides how a path at `depth` goes on after `event`: a miss shows the
/// sky, an absorbed ray is black, a scattered ray is followed one level
/// deeper while `depth < max_depth` and is black after that.
pub fn next_step(depth: u32, max_depth: u32, event: Event) -> (r: Step)
    ensures
        r == step_spec(depth as nat, max_depth as nat, event),
        r matches Step::Bounce(d) ==> d == depth + 1 && d <= max_depth,
{
    match event {
        Event::Miss => Step::Sky,
        Event::Absorbed => Step::Black,
        Event::Scattered => if depth < max_depth {
            Step::Bounce(depth + 1)
        } else {
            Step::Black
        },
    }
}

/// How a path that starts at `depth` ends when its rays meet `events` in
/// turn: the final step, and how many events it took. `None` when the
/// events run out first.
pub open spec fn trace(depth: nat, max_depth: nat, events: Seq<Event>) -> Option<(Step, nat)>
    decreases events.len(),
{
    if events.len() == 0 {
        None
    } else {
        match step_spec(depth, max_depth, events[0]) {
            Step::Bounce(d) => match trace(d as nat, max_depth, events.drop_first()) {
                Some((s, n)) => Some((s, n + 1)),
                None => None,
            },
            s => Some((s, 1)),
        }
    }
}

/// A path never takes more than `max_depth - depth + 1` rays: given at
/// least that many events it has ended, on the sky or on black.
pub proof fn lemma_path_ends(depth: nat, max_depth: nat, events: Seq<Event>)
    requires
        depth <= max_depth <= u32::MAX,
        events.len() >= max_depth - depth + 1,
    ensures
        trace(depth, max_depth, events) matches Some((s, n))
            && s !is Bounce
            && 1 <= n <= max_depth - depth + 1,
    decreases max_depth - depth,
{
    match step_spec(depth, max_depth, events[0]) {
        Step::Bounce(d) => {
            lemma_path_ends(d as nat, max_depth, events.drop_first());
        },
        _ => {},
    }
}

/// A ray that meets nothing shows the sky, at every depth.
pub proof fn lemma_miss_shows_sky(depth: nat, max_depth: nat)
    ensures
        step_spec(depth, max_depth, Event::Miss) == Step::Sky,
{
}

/// With no bounce allowed, every ray that hits a surface resolves to
/// black, and every ray that misses shows the sky.
pub proof fn lemma_no_bounce_allowed(event: Event)
    ensures
        step_spec(0, 0, event) == (if event == Event::Miss {
            Step::Sky
        } else {
            Step::Black
        }),
{
}

} // verus!
