use raytracer::{next_step, Event, Step, MAX_DEPTH};

#[test]
fn miss_shows_sky_at_any_depth() {
    assert_eq!(next_step(0, MAX_DEPTH, Event::Miss), Step::Sky);
    assert_eq!(next_step(MAX_DEPTH, MAX_DEPTH, Event::Miss), Step::Sky);
    assert_eq!(next_step(7, 0, Event::Miss), Step::Sky);
}

#[test]
fn absorbed_ray_is_black() {
    assert_eq!(next_step(0, MAX_DEPTH, Event::Absorbed), Step::Black);
    assert_eq!(next_step(49, MAX_DEPTH, Event::Absorbed), Step::Black);
}

#[test]
fn scattered_ray_goes_one_level_deeper() {
    assert_eq!(next_step(0, MAX_DEPTH, Event::Scattered), Step::Bounce(1));
    assert_eq!(next_step(49, MAX_DEPTH, Event::Scattered), Step::Bounce(50));
}

#[test]
fn scattered_ray_at_depth_bound_is_black() {
    assert_eq!(next_step(50, MAX_DEPTH, Event::Scattered), Step::Black);
    assert_eq!(next_step(u32::MAX, u32::MAX, Event::Scattered), Step::Black);
}

#[test]
fn no_bounce_allowed_hit_is_black_miss_is_sky() {
    assert_eq!(next_step(0, 0, Event::Scattered), Step::Black);
    assert_eq!(next_step(0, 0, Event::Absorbed), Step::Black);
    assert_eq!(next_step(0, 0, Event::Miss), Step::Sky);
}

#[test]
fn path_of_scatters_ends_within_bound() {
    let mut depth: u32 = 0;
    let mut rays: u32 = 0;
    loop {
        rays += 1;
        match next_step(depth, MAX_DEPTH, Event::Scattered) {
            Step::Bounce(d) => depth = d,
            Step::Black => break,
            Step::Sky => unreachable!(),
        }
    }
    assert_eq!(rays, MAX_DEPTH + 1);
}

#[test]
fn fixed_events_give_identical_paths() {
    let events = [Event::Scattered, Event::Scattered, Event::Absorbed, Event::Miss];
    let run = || {
        let mut out = Vec::new();
        let mut depth: u32 = 0;
        for e in events.iter() {
            let s = next_step(depth, 2, *e);
            out.push(s);
            match s {
                Step::Bounce(d) => depth = d,
                _ => break,
            }
        }
        out
    };
    assert_eq!(run(), run());
    assert_eq!(run(), vec![Step::Bounce(1), Step::Bounce(2), Step::Black]);
}
