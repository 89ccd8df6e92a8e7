use particle_field::{Particle, Phase};

#[test]
fn time() {
    let mut particle = Particle::<f64, 5>::new();
    assert_eq!(particle.age(), 0);

    particle.push((1.0, 1.0));
    particle.push((2.0, 2.0));
    particle.push((3.0, 3.0));
    assert_eq!(particle.age(), 3);

    particle.push((4.0, 4.0));
    particle.push((5.0, 5.0));
    particle.push((6.0, 6.0));
    assert_eq!(particle.age(), 6);
}

#[test]
fn size() {
    let mut particle = Particle::<f64, 5>::new();
    assert_eq!(particle.len(), 0);

    particle.push((1.0, 1.0));
    particle.push((2.0, 2.0));
    particle.push((3.0, 3.0));
    assert_eq!(particle.len(), 3);

    particle.push((4.0, 4.0));
    particle.push((5.0, 5.0));
    particle.push((6.0, 6.0));
    assert_eq!(particle.len(), 5);
}

#[test]
fn last() {
    let mut particle = Particle::<f64, 5>::new();
    assert_eq!(particle.last(), None);

    particle.push((1.0, 1.0));
    particle.push((2.0, 2.0));
    particle.push((3.0, 3.0));
    assert_eq!(particle.last(), Some(&(3.0, 3.0)));

    particle.push((4.0, 4.0));
    particle.push((5.0, 5.0));
    particle.push((6.0, 6.0));
    assert_eq!(particle.last(), Some(&(6.0, 6.0)));
}

#[test]
fn at() {
    let mut particle = Particle::<f64, 5>::new();
    assert_eq!(particle.at(0), None);
    assert_eq!(particle.at(4), None);

    particle.push((1.0, 1.0));
    particle.push((2.0, 2.0));
    particle.push((3.0, 3.0));
    assert_eq!(particle.at(0), Some((1.0, 1.0)));
    assert_eq!(particle.at(4), None);

    particle.push((4.0, 4.0));
    particle.push((5.0, 5.0));
    particle.push((6.0, 6.0));
    assert_eq!(particle.at(0), Some((2.0, 2.0)));
    assert_eq!(particle.at(4), Some((6.0, 6.0)));
}

#[test]
fn capacity_three_keeps_the_last_three() {
    let mut p = Particle::<i32, 3>::new();
    p.push((0, 0));
    p.push((1, 1));
    p.push((2, 2));
    p.push((3, 3));
    assert_eq!(p.len(), 3);
    assert_eq!(p.at(0), Some((1, 1)));
    assert_eq!(p.at(1), Some((2, 2)));
    assert_eq!(p.at(2), Some((3, 3)));
    assert_eq!(p.age(), 4);
}

#[test]
fn random_seeds_one_position() {
    let p = Particle::<f64, 4>::random((0.5, -1.25));
    assert_eq!(p.len(), 1);
    assert_eq!(p.age(), 1);
    assert_eq!(p.phase(), Phase::Growing);
    assert_eq!(p.at(0), Some((0.5, -1.25)));
    assert_eq!(p.last(), Some(&(0.5, -1.25)));
}

#[test]
fn new_trail_is_empty_and_growing() {
    let p = Particle::<u8, 2>::new();
    assert_eq!(p.len(), 0);
    assert_eq!(p.age(), 0);
    assert_eq!(p.phase(), Phase::Growing);
    assert_eq!(p.at(1), None);
}

#[test]
fn window_keeps_push_order_up_to_capacity() {
    let mut p = Particle::<i32, 4>::new();
    let vals = [(7, 1), (8, 2), (9, 3), (10, 4)];
    for v in vals {
        p.push(v);
    }
    for (j, v) in vals.iter().enumerate() {
        assert_eq!(p.at(j), Some(*v));
    }
    assert_eq!(p.age(), 4);
}

#[test]
fn length_never_exceeds_capacity() {
    let mut p = Particle::<i32, 3>::new();
    for k in 0..20 {
        p.push((k, k));
        assert!(p.len() <= 3);
    }
    p.deactivate();
    for k in 0..5 {
        p.push((k, k));
        assert!(p.len() <= 3);
    }
}

#[test]
fn draining_drops_one_per_push_then_stays_empty() {
    let mut p = Particle::<i32, 5>::new();
    for k in 0..4 {
        p.push((k, 0));
    }
    p.deactivate();
    assert_eq!(p.phase(), Phase::Draining);
    for expected in [3usize, 2, 1, 0, 0, 0] {
        p.push((100, 100));
        assert_eq!(p.len(), expected);
        assert_eq!(p.age(), 4);
    }
    assert_eq!(p.last(), None);
}

#[test]
fn draining_ignores_the_pushed_value() {
    let mut p = Particle::<i32, 3>::new();
    p.push((1, 1));
    p.push((2, 2));
    p.deactivate();
    p.push((9, 9));
    assert_eq!(p.at(0), Some((2, 2)));
    assert_eq!(p.last(), Some(&(2, 2)));
}

#[test]
fn deactivate_twice_equals_once() {
    let mut once = Particle::<i32, 3>::new();
    let mut twice = Particle::<i32, 3>::new();
    once.push((1, 2));
    twice.push((1, 2));
    once.deactivate();
    twice.deactivate();
    twice.deactivate();
    assert_eq!(once.phase(), twice.phase());
    assert_eq!(once.age(), twice.age());
    assert_eq!(once.len(), twice.len());
    assert_eq!(once.at(0), twice.at(0));
}

#[test]
fn age_grows_then_freezes() {
    let mut p = Particle::<i32, 2>::new();
    let mut prev = p.age();
    for k in 0..5 {
        p.push((k, k));
        assert!(p.age() >= prev);
        prev = p.age();
    }
    assert_eq!(prev, 5);
    p.deactivate();
    p.push((0, 0));
    p.push((0, 0));
    p.push((0, 0));
    assert_eq!(p.age(), 5);
}
