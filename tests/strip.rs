use sierpinski::planar::generate_planar;
use sierpinski::strip::line_strip_indices;

#[test]
fn no_segments_below_two_vertices() {
    assert!(line_strip_indices(0).is_empty());
    assert!(line_strip_indices(1).is_empty());
}

#[test]
fn two_vertices_give_one_segment() {
    assert_eq!(line_strip_indices(2), vec![0, 1]);
}

#[test]
fn indices_pair_consecutive_vertices() {
    assert_eq!(line_strip_indices(5), vec![0, 1, 1, 2, 2, 3, 3, 4]);
    for n in 2..50usize {
        let r = line_strip_indices(n);
        assert_eq!(r.len(), 2 * (n - 1));
        for (k, &v) in r.iter().enumerate() {
            assert_eq!(v as usize, (k + 1) / 2);
        }
    }
}

#[test]
fn buffers_are_reproducible() {
    for d in 0..6 {
        let p1 = generate_planar(d);
        let i1 = line_strip_indices(p1.len());
        let p2 = generate_planar(d);
        let i2 = line_strip_indices(p2.len());
        assert_eq!(p1, p2);
        assert_eq!(i1, i2);
        assert_eq!(i1.len(), 2 * (p1.len() - 1));
    }
}
