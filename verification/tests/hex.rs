use openstratcore::hex::Axial;

#[test]
fn distance_is_symmetric_and_zero_on_self() {
    let a = Axial::new(0, 0);
    let b = Axial::new(2, -1);
    assert_eq!(a.distance(&b), b.distance(&a));
    assert_eq!(a.distance(&a), 0);
    assert_eq!(a.distance(&Axial::new(1, 0)), 1);
}

#[test]
fn line_endpoints_inclusive() {
    let a = Axial::new(0, 0);
    let b = Axial::new(3, 0);
    let line = a.line_to(&b);
    assert_eq!(line.first(), Some(&a));
    assert_eq!(line.last(), Some(&b));
    assert_eq!(line.len() as i32, a.distance(&b) + 1);
}

#[test]
fn line_to_is_symmetric() {
    for aq in -6..=6 {
        for ar in -6..=6 {
            for bq in -6..=6 {
                for br in -6..=6 {
                    let a = Axial::new(aq, ar);
                    let b = Axial::new(bq, br);
                    let fwd = a.line_to(&b);
                    let mut rev = b.line_to(&a);
                    rev.reverse();
                    assert_eq!(
                        fwd, rev,
                        "line_to({a:?},{b:?}) must be the reverse of line_to({b:?},{a:?})"
                    );
                }
            }
        }
    }
    let a = Axial::new(0, 0);
    let b = Axial::new(11, 11);
    let mut rev = b.line_to(&a);
    rev.reverse();
    assert_eq!(a.line_to(&b), rev);
}

#[test]
fn far_hexes_saturate_the_distance() {
    let a = Axial::new(i32::MIN, i32::MIN);
    let b = Axial::new(i32::MAX, i32::MAX);
    assert_eq!(a.distance(&b), i32::MAX);
}

#[test]
fn neighbors_are_one_step_away() {
    let a = Axial::new(3, -2);
    let expected = [(4, -2), (4, -3), (3, -3), (2, -2), (2, -1), (3, -1)];
    for (i, n) in a.neighbors().iter().enumerate() {
        assert_eq!(a.distance(n), 1);
        assert_eq!(*n, a.neighbor(i));
        assert_eq!((n.q, n.r), expected[i]);
        assert_eq!((n.q - a.q, n.r - a.r), Axial::DIRECTIONS[i]);
    }
    assert_eq!(a.neighbor(7), a.neighbor(1));
    assert_eq!(a.s(), -1);
}

#[test]
fn a_line_rounds_to_the_nearest_hex() {
    let line = Axial::new(0, 0).line_to(&Axial::new(2, 1));
    assert_eq!(
        line,
        vec![
            Axial::new(0, 0),
            Axial::new(1, 0),
            Axial::new(1, 1),
            Axial::new(2, 1)
        ]
    );
}

#[test]
fn a_detour_is_no_shorter() {
    let (a, b, c) = (Axial::new(0, 0), Axial::new(5, -7), Axial::new(2, 3));
    assert_eq!(a.distance(&b), 7);
    assert_eq!(a.distance(&c), 5);
    assert_eq!(c.distance(&b), 10);
    assert!(a.distance(&b) <= a.distance(&c) + c.distance(&b));
}

#[test]
fn a_line_goes_one_step_after_the_other() {
    let a = Axial::new(1, -2);
    for b in [Axial::new(5, -7), Axial::new(-3, 4), Axial::new(2, -2), Axial::new(1, 6), a] {
        let n = a.distance(&b);
        let line = a.line_to(&b);
        for i in 0..line.len() {
            assert_eq!(a.distance(&line[i]), i as i32);
            assert_eq!(line[i].distance(&b), n - i as i32);
            if i > 0 {
                assert_eq!(line[i - 1].distance(&line[i]), 1);
            }
        }
    }
}
