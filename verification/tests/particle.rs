use physics_rs::jitter::JitterSource;
use physics_rs::particle::{new, Particle};

fn at(x: i64, y: i64) -> Particle {
    Particle { x_pos: x, y_pos: y, x_momentum: 0, y_momentum: 0 }
}

fn moving(x: i64, y: i64, vx: i64, vy: i64) -> Particle {
    Particle { x_pos: x, y_pos: y, x_momentum: vx, y_momentum: vy }
}

#[test]
fn new_particle_is_at_rest_in_the_corner() {
    assert_eq!(new(), moving(0, 0, 0, 0));
}

#[test]
fn particles_are_copied_by_value() {
    let p = moving(1, 2, 3, 4);
    let mut q = p;
    q.x_pos = 9;
    assert_eq!(p, moving(1, 2, 3, 4));
    assert_eq!(q, moving(9, 2, 3, 4));
}

#[test]
fn touches_includes_the_radius_itself() {
    let p = at(0, 0);
    assert!(p.touches(&at(3_000_000, 4_000_000), 5_000_000));
    assert!(!p.touches(&at(3_000_000, 4_000_001), 5_000_000));
    assert!(p.touches(&at(-3_000_000, -4_000_000), 5_000_000));
    assert!(p.touches(&at(1_000_000, 0), 1_500_000));
    assert!(!p.touches(&at(1_500_001, 0), 1_500_000));
}

#[test]
fn touches_with_radius_zero_needs_the_same_place() {
    let p = at(7, 7);
    assert!(p.touches(&at(7, 7), 0));
    assert!(!p.touches(&at(7, 8), 0));
}

#[test]
fn touches_never_holds_for_a_negative_radius() {
    let p = at(7, 7);
    assert!(!p.touches(&at(7, 7), -1));
    assert!(!p.touches(&at(7, 7), i64::MIN));
}

#[test]
fn overlaps_excludes_the_radius_itself() {
    let p = at(0, 0);
    assert!(!p.overlaps(&at(3_000_000, 4_000_000), 5_000_000));
    assert!(p.overlaps(&at(3_000_000, 3_999_999), 5_000_000));
    assert!(p.overlaps(&at(0, 0), 1));
    assert!(!p.overlaps(&at(0, 0), 0));
    assert!(!p.overlaps(&at(0, 0), -5));
}

#[test]
fn distance_tests_hold_at_the_ends_of_the_range() {
    let low = at(i64::MIN, i64::MIN);
    let high = at(i64::MAX, i64::MAX);
    assert!(!low.touches(&high, i64::MAX));
    assert!(!low.overlaps(&high, i64::MAX));
    assert!(low.touches(&low, i64::MAX));
    assert!(high.touches(&at(i64::MAX, 0), i64::MAX));
    assert!(!high.overlaps(&at(i64::MAX, 0), i64::MAX));
    assert!(high.overlaps(&at(i64::MAX, 1), i64::MAX));
    assert!(at(0, 0).touches(&at(i64::MAX, 0), i64::MAX));
    assert!(!at(0, 0).overlaps(&at(i64::MAX, 0), i64::MAX));
    assert!(!at(0, 0).touches(&at(i64::MAX, 1), i64::MAX));
}

#[test]
fn collide_shifted_exchanges_the_other_momentum() {
    let mut p = moving(1, 2, 3, 4);
    p.collide_shifted(moving(10, 20, 30, 40), 1, -1);
    assert_eq!(p, moving(1_000_001, -999_998, 40, 30));
}

#[test]
fn collide_shifted_without_shift_keeps_the_place() {
    let mut p = moving(5_000_000, 6_000_000, 1, 2);
    p.collide_shifted(moving(0, 0, -7, 9), 0, 0);
    assert_eq!(p, moving(5_000_000, 6_000_000, 9, -7));
}

#[test]
fn collide_shifted_saturates_the_position() {
    let mut p = at(i64::MAX, i64::MIN);
    p.collide_shifted(moving(0, 0, 5, 6), 1, -1);
    assert_eq!(p, moving(i64::MAX, i64::MIN, 6, 5));
    let mut q = at(0, 0);
    q.collide_shifted(at(0, 0), i64::MAX, i64::MIN);
    assert_eq!(q, at(i64::MAX, i64::MIN));
}

#[test]
fn collide_with_without_jitter_keeps_the_place() {
    let mut jitter = JitterSource::seeded(11, 0);
    let mut p = moving(5_000_000, 6_000_000, 1, 2);
    p.collide_with(moving(0, 0, -7, 9), &mut jitter);
    assert_eq!(p, moving(5_000_000, 6_000_000, 9, -7));
}

#[test]
fn collide_with_shifts_by_whole_pixels_within_the_range() {
    let mut jitter = JitterSource::seeded(3, 1);
    let mut seen_x = [false; 3];
    let mut seen_y = [false; 3];
    for _ in 0..400 {
        let mut p = moving(50_000_000, 60_000_000, 1, 2);
        p.collide_with(moving(0, 0, 30, 40), &mut jitter);
        assert_eq!(p.x_momentum, 40);
        assert_eq!(p.y_momentum, 30);
        let dx = p.x_pos - 50_000_000;
        let dy = p.y_pos - 60_000_000;
        assert!(dx == -1_000_000 || dx == 0 || dx == 1_000_000);
        assert!(dy == -1_000_000 || dy == 0 || dy == 1_000_000);
        seen_x[(dx / 1_000_000 + 1) as usize] = true;
        seen_y[(dy / 1_000_000 + 1) as usize] = true;
    }
    assert_eq!(seen_x, [true; 3]);
    assert_eq!(seen_y, [true; 3]);
}

#[test]
fn update_moves_and_drags() {
    let mut p = moving(10_000_000, 20_000_000, 1_000_000, -500_000);
    p.update(0, 0, 2_000, 200_000, 400, 400, 0);
    assert_eq!(p, moving(11_000_000, 19_500_000, 998_000, -499_000));
}

#[test]
fn update_without_drag_keeps_the_momentum() {
    let mut p = moving(10_000_000, 20_000_000, 1_234_567, -7);
    p.update(0, 0, 0, 200_000, 400, 400, 0);
    assert_eq!(p, moving(11_234_567, 19_999_993, 1_234_567, -7));
}

#[test]
fn update_drag_never_grows_the_momentum() {
    let drags: [i64; 6] = [0, 1, 2_000, 500_000, 1_000_000, 2_000_000];
    let momenta: [i64; 7] = [0, 1, -1, 999, -123_456_789, 40_000_000, -40_000_000];
    for drag in drags.iter() {
        for momentum in momenta.iter() {
            let mut p = moving(200_000_000, 200_000_000, *momentum, *momentum);
            p.update(0, 0, *drag, 200_000, 400, 400, 0);
            assert!(p.x_momentum.abs() <= momentum.abs());
            assert!(p.y_momentum.abs() <= momentum.abs());
            let exact = ((*momentum as i128) * (1_000_000 - *drag) as i128) / 1_000_000;
            assert_eq!(p.x_momentum as i128, exact);
            assert_eq!(p.y_momentum as i128, exact);
        }
    }
}

#[test]
fn update_bounces_off_the_left_wall() {
    let mut p = moving(500_000, 50_000_000, -2_000_000, 0);
    p.update(0, 0, 0, 200_000, 400, 300, 0);
    assert_eq!(p, moving(0, 50_000_000, 400_000, 0));
}

#[test]
fn update_bounces_off_the_right_wall() {
    let mut p = moving(399_500_000, 50_000_000, 2_000_000, 0);
    p.update(0, 0, 0, 200_000, 400, 300, 0);
    assert_eq!(p, moving(400_000_000, 50_000_000, -400_000, 0));
}

#[test]
fn update_bounces_off_the_top_wall() {
    let mut p = moving(50_000_000, 500_000, 0, -2_000_000);
    p.update(0, 0, 0, 200_000, 400, 300, 0);
    assert_eq!(p, moving(50_000_000, 0, 0, 400_000));
}

#[test]
fn update_stops_at_the_bottom_wall_of_its_own_axis() {
    let mut p = moving(50_000_000, 299_500_000, 0, 2_000_000);
    p.update(0, 0, 0, 200_000, 400, 300, 0);
    assert_eq!(p, moving(50_000_000, 300_000_000, 0, -400_000));
}

#[test]
fn update_drags_before_it_bounces() {
    let mut p = moving(50_000_000, 299_500_000, 0, 2_000_000);
    p.update(0, 0, 100_000, 200_000, 400, 300, 0);
    assert_eq!(p, moving(50_000_000, 300_000_000, 0, -360_000));
}

#[test]
fn update_on_the_wall_itself_is_no_contact() {
    let mut p = moving(399_000_000, 1_000_000, 1_000_000, -1_000_000);
    p.update(0, 0, 0, 200_000, 400, 300, 0);
    assert_eq!(p, moving(400_000_000, 0, 1_000_000, -1_000_000));
}

#[test]
fn update_brings_a_particle_from_outside_onto_the_canvas() {
    let mut p = at(-5_000_000, 900_000_000);
    p.update(0, 0, 0, 0, 400, 300, 0);
    assert_eq!(p, at(0, 300_000_000));
    let mut q = moving(i64::MIN, i64::MAX, i64::MIN, i64::MAX);
    q.update(0, 0, 0, 1_000_000, 400, 300, 0);
    assert_eq!(q, moving(0, 300_000_000, i64::MAX, -i64::MAX));
}

#[test]
fn update_pulls_towards_the_pointer() {
    let mut p = at(103_000_000, 104_000_000);
    p.update(100, 100, 0, 0, 400, 400, 200_000);
    assert_eq!(p, moving(103_000_000, 104_000_000, -120_000, -160_000));
    let mut q = at(97_000_000, 96_000_000);
    q.update(100, 100, 0, 0, 400, 400, 200_000);
    assert_eq!(q, moving(97_000_000, 96_000_000, 120_000, 160_000));
}

#[test]
fn update_pull_does_not_depend_on_the_distance() {
    let mut near = at(103_000_000, 104_000_000);
    near.update(100, 100, 0, 0, 400, 400, 200_000);
    let mut far = at(130_000_000, 140_000_000);
    far.update(100, 100, 0, 0, 400, 400, 200_000);
    assert_eq!(near.x_momentum, far.x_momentum);
    assert_eq!(near.y_momentum, far.y_momentum);
}

#[test]
fn update_pull_along_the_diagonal() {
    let mut p = at(101_000_000, 101_000_000);
    p.update(100, 100, 0, 0, 400, 400, 200_000);
    assert_eq!(p, moving(101_000_000, 101_000_000, -141_421, -141_421));
}

#[test]
fn update_at_the_pointer_feels_no_pull() {
    let mut p = at(100_000_000, 100_000_000);
    p.update(100, 100, 2_000, 0, 400, 400, 200_000);
    assert_eq!(p, at(100_000_000, 100_000_000));
}

#[test]
fn update_arriving_at_the_pointer_feels_no_pull() {
    let mut p = moving(99_000_000, 100_000_000, 1_000_000, 0);
    p.update(100, 100, 2_000, 0, 400, 400, 200_000);
    assert_eq!(p, moving(100_000_000, 100_000_000, 998_000, 0));
}

#[test]
fn update_with_an_empty_canvas_pins_the_particle() {
    let mut p = moving(5_000_000, 6_000_000, 1_000_000, 1_000_000);
    p.update(0, 0, 0, 500_000, 0, 0, 0);
    assert_eq!(p, moving(0, 0, -500_000, -500_000));
}
