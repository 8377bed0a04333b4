use raytracer::integrator::{hit_event, next_step, Event, Path, Step, DEFAULT_MAX_DEPTH};
use raytracer::nearest::nearest_hit;

fn key(t: f64) -> Option<u64> {
    Some(t.to_bits())
}

#[test]
fn nearest_of_two_overlapping_spheres_in_either_order() {
    // Two spheres on one ray: the near one is met at t = 4, the far one at t = 5.
    let near_first = vec![key(4.0), key(5.0)];
    let far_first = vec![key(5.0), key(4.0)];
    assert_eq!(nearest_hit(&near_first), Some(0));
    assert_eq!(nearest_hit(&far_first), Some(1));
}

#[test]
fn nearest_skips_missed_spheres() {
    let hits = vec![None, key(7.5), None, key(2.25), key(3.0)];
    assert_eq!(nearest_hit(&hits), Some(3));
}

#[test]
fn nearest_of_empty_scene_is_none() {
    assert_eq!(nearest_hit(&Vec::new()), None);
    assert_eq!(nearest_hit(&vec![None, None]), None);
}

#[test]
fn nearest_first_of_equal_hits_wins() {
    let hits = vec![None, key(1.5), key(1.5)];
    assert_eq!(nearest_hit(&hits), Some(1));
}

#[test]
fn float_keys_order_as_distances() {
    let ts = [0.001, 0.5, 1.0, 3.75, 1.0e6, f64::MAX];
    for w in ts.windows(2) {
        assert!(w[0].to_bits() < w[1].to_bits());
    }
}

#[test]
fn empty_scene_path_ends_in_sky_at_once() {
    let scene: Vec<Option<u64>> = Vec::new();
    let mut path = Path::new(DEFAULT_MAX_DEPTH);
    let step = path.advance(hit_event(nearest_hit(&scene), true));
    assert_eq!(step, Step::Sky);
    assert!(path.finished);
    assert_eq!(path.depth, 0);
}

#[test]
fn mirror_cavity_path_ends_black_after_bounded_calls() {
    let mut path = Path::new(DEFAULT_MAX_DEPTH);
    let mut calls: u32 = 0;
    let mut last = Step::Bounce;
    while !path.finished {
        calls += 1;
        assert!(calls <= 1000);
        last = path.advance(Event::Scattered);
    }
    assert_eq!(last, Step::Black);
    assert_eq!(calls, 51);
    assert_eq!(path.depth, 50);
}

#[test]
fn absorbed_ray_ends_black() {
    let mut path = Path::new(DEFAULT_MAX_DEPTH);
    assert_eq!(path.advance(Event::Scattered), Step::Bounce);
    assert_eq!(path.advance(Event::Absorbed), Step::Black);
    assert!(path.finished);
    assert_eq!(path.depth, 1);
}

#[test]
fn scattered_ray_after_bounces_then_sky() {
    let mut path = Path::new(3);
    assert_eq!(path.advance(Event::Scattered), Step::Bounce);
    assert_eq!(path.advance(Event::Scattered), Step::Bounce);
    assert_eq!(path.advance(Event::Miss), Step::Sky);
    assert_eq!(path.depth, 2);
}

#[test]
fn zero_depth_path_never_bounces() {
    let mut path = Path::new(0);
    assert_eq!(path.advance(Event::Scattered), Step::Black);
    assert_eq!(next_step(0, 0, Event::Miss), Step::Sky);
}

#[test]
fn next_step_at_the_depth_limit() {
    assert_eq!(next_step(49, 50, Event::Scattered), Step::Bounce);
    assert_eq!(next_step(50, 50, Event::Scattered), Step::Black);
    assert_eq!(next_step(50, 50, Event::Miss), Step::Sky);
    assert_eq!(next_step(0, 50, Event::Absorbed), Step::Black);
}

#[test]
fn hit_event_classifies_rays() {
    assert_eq!(hit_event(None, false), Event::Miss);
    assert_eq!(hit_event(Some(2), true), Event::Scattered);
    assert_eq!(hit_event(Some(0), false), Event::Absorbed);
}
