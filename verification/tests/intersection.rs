use ray_tracer::intersection::{Intersection, Intersections, T_NAN, T_ZERO};

/// Order-preserving encoding of a ray distance, as the host renderer
/// computes it: negative zero folds onto zero, an undefined distance maps to
/// the largest key.
fn t_key(t: f64) -> u64 {
    if t.is_nan() {
        return u64::MAX;
    }
    let t = if t == 0.0 { 0.0 } else { t };
    let bits = t.to_bits();
    if bits & 0x8000_0000_0000_0000 != 0 {
        !bits
    } else {
        bits | 0x8000_0000_0000_0000
    }
}

#[test]
fn hit_when_all_intersections_have_positive_t() {
    let s = 0;
    let i1 = Intersection::new(t_key(1.0), s);
    let i2 = Intersection::new(t_key(2.0), s);
    let xs = Intersections::new().with_intersections(vec![i1, i2]);
    assert_eq!(xs.hit(), Some(i1));
}

#[test]
fn hit_when_some_intersections_have_negative_t() {
    let s = 0;
    let i1 = Intersection::new(t_key(-1.0), s);
    let i2 = Intersection::new(t_key(1.0), s);
    let xs = Intersections::new().with_intersections(vec![i1, i2]);
    assert_eq!(xs.hit(), Some(i2));
}

#[test]
fn hit_when_all_intersections_have_negative_t() {
    let s = 0;
    let i1 = Intersection::new(t_key(-2.0), s);
    let i2 = Intersection::new(t_key(-1.0), s);
    let xs = Intersections::new().with_intersections(vec![i1, i2]);
    assert_eq!(xs.hit(), None);
}

#[test]
fn hit_is_always_lowest_nonnegative_intersection() {
    let s = 0;
    let i1 = Intersection::new(t_key(5.0), s);
    let i2 = Intersection::new(t_key(7.0), s);
    let i3 = Intersection::new(t_key(-3.0), s);
    let i4 = Intersection::new(t_key(2.0), s);
    let xs = Intersections::new().with_intersections(vec![i1, i2, i3, i4]).sort();
    assert_eq!(xs.hit(), Some(i4));
}

#[test]
fn hit_at_the_ray_origin_counts() {
    let xs = Intersections::new().with_intersections(vec![Intersection::new(t_key(0.0), 3)]);
    assert_eq!(xs.hit(), Some(Intersection::new(T_ZERO, 3)));
}

#[test]
fn hit_skips_undefined_distances() {
    let nan = Intersection::new(t_key(f64::NAN), 1);
    let good = Intersection::new(t_key(4.0), 2);
    assert_eq!(nan.t(), T_NAN);
    let xs = Intersections::new().with_intersections(vec![nan, good]);
    assert_eq!(xs.hit(), Some(good));
}

#[test]
fn sort_orders_by_distance_and_keeps_duplicates() {
    let mut xs = Intersections::new();
    xs.push(1, t_key(3.0));
    xs.push(2, t_key(-1.0));
    xs.push(3, t_key(3.0));
    xs.push(4, t_key(f64::NAN));
    xs.push(5, t_key(0.5));
    let sorted = xs.sort();
    assert_eq!(sorted.count(), 5);
    let ts: Vec<u64> = (0..5).map(|i| sorted.get(i).t()).collect();
    assert_eq!(ts[0], t_key(-1.0));
    assert_eq!(ts[1], t_key(0.5));
    assert_eq!(ts[2], t_key(3.0));
    assert_eq!(ts[3], t_key(3.0));
    assert_eq!(ts[4], t_key(f64::NAN));
    let objs: Vec<usize> = (0..5).map(|i| sorted.get(i).object()).collect();
    assert_eq!(objs[0], 2);
    assert_eq!(objs[1], 5);
    assert!(objs[2] == 1 && objs[3] == 3 || objs[2] == 3 && objs[3] == 1);
    assert_eq!(objs[4], 4);
}

#[test]
fn extend_concatenates_collections() {
    let mut xs = Intersections::new();
    xs.push(0, t_key(1.0));
    let mut ys = Intersections::new();
    ys.push(1, t_key(2.0));
    ys.push(2, t_key(3.0));
    xs.extend(ys);
    assert_eq!(xs.count(), 3);
    assert_eq!(xs.get(1).object(), 1);
    assert_eq!(xs.get(2).t(), t_key(3.0));
}

#[test]
fn distance_keys_preserve_order() {
    let samples = [
        f64::NEG_INFINITY,
        -3.5,
        -1.0,
        -1e-300,
        -0.0,
        0.0,
        1e-300,
        0.5,
        1.0,
        2.0_f64.sqrt(),
        1e300,
        f64::INFINITY,
    ];
    for i in 0..samples.len() {
        for j in 0..samples.len() {
            let (a, b) = (samples[i], samples[j]);
            assert_eq!(a < b, t_key(a) < t_key(b), "order of {a} and {b}");
            assert_eq!(a >= 0.0, t_key(a) >= T_ZERO, "sign of {a}");
        }
    }
}
