use sierpinski::expander::{curve_segments, Expander};
use sierpinski::grammar::{Bend, Planar, Spatial, Spin};
use sierpinski::planar::{generate_planar, Point, Walker};

fn pts(v: &[(i64, i64)]) -> Vec<Point> {
    v.iter().map(|&(a, b)| Point { a, b }).collect()
}

#[test]
fn planar_counts_are_powers_of_three_plus_one() {
    let mut expected: usize = 1;
    for d in 0..9 {
        assert_eq!(generate_planar(d).len(), expected + 1);
        expected *= 3;
    }
}

#[test]
fn spatial_segment_counts_are_powers_of_three() {
    let mut expected: usize = 1;
    for d in 0..9 {
        assert_eq!(curve_segments::<Spatial>(d).len(), expected);
        expected *= 3;
    }
}

#[test]
fn depth_zero_starts_at_origin_and_takes_one_step() {
    let p = generate_planar(0);
    assert_eq!(p[0], Point { a: 0, b: 0 });
    assert_eq!(p, pts(&[(0, 0), (0, 1)]));
    assert_eq!(curve_segments::<Spatial>(0), vec![Spin::A]);
}

#[test]
fn every_curve_starts_at_origin() {
    for d in 0..7 {
        assert_eq!(generate_planar(d)[0], Point { a: 0, b: 0 });
    }
}

#[test]
fn planar_depth_one_fixture() {
    assert_eq!(generate_planar(1), pts(&[(0, 0), (0, 1), (-1, 2), (-2, 2)]));
    assert_eq!(curve_segments::<Planar>(1), vec![Bend::Left, Bend::Left, Bend::Left]);
}

#[test]
fn planar_depth_two_fixture() {
    let p = generate_planar(2);
    assert_eq!(p.len(), 10);
    assert_eq!(
        p,
        pts(&[(0, 0), (0, 1), (1, 1), (2, 0), (3, 0), (3, 1), (2, 2), (1, 2), (0, 3), (0, 4)])
    );
    assert_eq!(p[0], Point { a: 0, b: 0 });
    assert_eq!(p[9], Point { a: 0, b: 4 });
}

#[test]
fn planar_depth_three_ends_where_expected() {
    let p = generate_planar(3);
    assert_eq!(p.len(), 28);
    assert_eq!(p[27], Point { a: -8, b: 8 });
}

#[test]
fn spatial_depth_one_and_two_fixtures() {
    assert_eq!(curve_segments::<Spatial>(1), vec![Spin::A, Spin::B, Spin::B]);
    let s = curve_segments::<Spatial>(2);
    assert_eq!(s.len(), 9);
    assert_eq!(s, vec![
            Spin::A, Spin::C, Spin::C, Spin::B, Spin::A, Spin::A, Spin::B, Spin::C, Spin::C,
        ]);
}

#[test]
fn generation_is_deterministic() {
    for d in 0..7 {
        assert_eq!(generate_planar(d), generate_planar(d));
        assert_eq!(curve_segments::<Spatial>(d), curve_segments::<Spatial>(d));
    }
}

#[test]
fn work_stack_stays_within_twice_depth_plus_one() {
    for d in 0..8usize {
        let mut e = Expander::<Planar>::new(d);
        let mut highest = e.frames();
        let mut popped: usize = 0;
        while e.next_turn().is_some() {
            popped += 1;
            highest = highest.max(e.frames());
            assert!(e.frames() <= 2 * d + 1);
        }
        assert_eq!(highest, 2 * d + 1);
        assert_eq!(popped, (3usize.pow(d as u32 + 1) - 1) / 2);
        assert!(e.next_turn().is_none());
    }
}

#[test]
fn expander_yields_holds_between_moves() {
    let mut e = Expander::<Spatial>::new(1);
    let mut turns = Vec::new();
    while let Some(t) = e.next_turn() {
        turns.push(t);
    }
    assert_eq!(turns, vec![Spin::A, Spin::Hold, Spin::B, Spin::B]);
}

#[test]
fn walker_turns_wrap_around_six_headings() {
    let mut w = Walker::new();
    assert!(!w.apply(Bend::Straight));
    assert_eq!((w.heading, w.pos), (0, Point { a: 0, b: 0 }));
    assert!(w.apply(Bend::Right));
    assert_eq!((w.heading, w.pos), (5, Point { a: 1, b: -1 }));
    assert!(w.apply(Bend::Left));
    assert_eq!((w.heading, w.pos), (0, Point { a: 2, b: -1 }));
    for _ in 0..6 {
        w.apply(Bend::Left);
    }
    assert_eq!((w.heading, w.pos), (0, Point { a: 2, b: -1 }));
}
