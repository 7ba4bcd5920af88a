use weekend_tracer::{Depth, Event, Step, MAX_DEPTH};

#[test]
fn camera_ray_starts_at_depth_zero() {
    let d = Depth::new();
    assert_eq!(d.generation(), 0);
    assert!(d.is_active());
}

#[test]
fn next_adds_one_generation() {
    let d = Depth::new().next().next();
    assert_eq!(d.generation(), 2);
}

#[test]
fn missed_ray_shows_background() {
    assert_eq!(step(Depth::new(), Event::Missed), Step::Background);
    let mut d = Depth::new();
    while d.is_active() {
        d = d.next();
    }
    assert_eq!(step(d, Event::Missed), Step::Background);
}

fn step(d: Depth, e: Event) -> Step {
    weekend_tracer::transport::step(d, e)
}

#[test]
fn absorbed_ray_turns_black() {
    assert_eq!(step(Depth::new(), Event::Absorbed), Step::Black);
}

#[test]
fn scattered_ray_goes_one_level_deeper() {
    let d = Depth::new().next();
    match step(d, Event::Scattered) {
        Step::Continue(n) => assert_eq!(n.generation(), 2),
        other => panic!("unexpected step {:?}", other),
    }
}

#[test]
fn facing_mirrors_end_in_black_at_max_depth() {
    let mut d = Depth::new();
    let mut bounces = 0usize;
    loop {
        match step(d, Event::Scattered) {
            Step::Continue(n) => {
                d = n;
                bounces += 1;
                assert!(bounces <= MAX_DEPTH);
            }
            Step::Black => break,
            Step::Background => panic!("a mirror never shows the sky"),
        }
    }
    assert_eq!(bounces, MAX_DEPTH);
    assert_eq!(d.generation(), 64);
    assert!(!d.is_active());
}
