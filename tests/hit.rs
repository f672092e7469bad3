use raytracer::{bits_of_key, choose_root, nearest_hit, order_key, Nearest, Root};

fn key(t: f32) -> u32 {
    order_key(t.to_bits())
}

#[test]
fn near_root_inside_is_chosen() {
    assert_eq!(choose_root(key(0.001), key(100.0), key(1.0), key(3.0)), Some(Root::Near));
}

#[test]
fn far_root_when_near_is_behind() {
    assert_eq!(choose_root(key(0.001), key(100.0), key(0.0), key(2.0)), Some(Root::Far));
    assert_eq!(choose_root(10, 20, 10, 19), Some(Root::Far));
}

#[test]
fn no_root_inside_interval() {
    assert_eq!(choose_root(key(0.001), key(1.0), key(2.0), key(3.0)), None);
    assert_eq!(choose_root(10, 20, 20, 25), None);
    assert_eq!(choose_root(10, 20, 5, 10), None);
}

#[test]
fn empty_or_reversed_interval_has_no_hit() {
    assert_eq!(choose_root(10, 10, 10, 10), None);
    assert_eq!(choose_root(30, 10, 15, 20), None);
    assert_eq!(choose_root(key(5.0), key(1.0), key(2.0), key(3.0)), None);
}

#[test]
fn nearest_of_several_hits() {
    let keys = vec![None, Some(key(5.0)), Some(key(3.0)), None, Some(key(4.0))];
    assert_eq!(nearest_hit(&keys), Some(2));
}

#[test]
fn nearest_on_equal_distances_is_first() {
    let keys = vec![Some(key(3.0)), Some(key(2.0)), Some(key(2.0))];
    assert_eq!(nearest_hit(&keys), Some(1));
}

#[test]
fn nearest_of_all_misses_is_none() {
    assert_eq!(nearest_hit(&vec![None, None]), None);
    assert_eq!(nearest_hit(&Vec::new()), None);
}

#[test]
fn nearest_primitive_alone_gives_same_hit() {
    let keys = vec![Some(key(9.0)), Some(key(1.5)), Some(key(2.5))];
    let i = nearest_hit(&keys).unwrap();
    let alone: Vec<Option<u32>> =
        (0..keys.len()).map(|j| if j == i { keys[j] } else { None }).collect();
    assert_eq!(nearest_hit(&alone), Some(i));
    assert_eq!(i, 1);
}

#[test]
fn accumulator_tightens_bound() {
    let mut n = Nearest::new();
    assert_eq!(n.bound(), None);
    assert_eq!(n.index(), None);
    n.offer(0, 40);
    assert_eq!(n.bound(), Some(40));
    n.offer(1, 50);
    assert_eq!(n.bound(), Some(40));
    assert_eq!(n.index(), Some(0));
    n.offer(2, 40);
    assert_eq!(n.index(), Some(0));
    n.offer(3, 12);
    assert_eq!(n.bound(), Some(12));
    assert_eq!(n.index(), Some(3));
}

#[test]
fn bounded_scan_finds_same_hit_as_full_tests() {
    // Roots of three spheres along one ray; the second line misses.
    let roots = [Some((40u32, 60u32)), None, Some((20, 30)), Some((5, 25))];
    let (t_min, t_max) = (10u32, 1000u32);
    let mut acc = Nearest::new();
    for (i, r) in roots.iter().enumerate() {
        if let Some((near, far)) = r {
            let bound = acc.bound().unwrap_or(t_max);
            if let Some(root) = choose_root(t_min, bound, *near, *far) {
                let t = if root == Root::Near { *near } else { *far };
                acc.offer(i, t);
            }
        }
    }
    let full: Vec<Option<u32>> = roots
        .iter()
        .map(|r| match r {
            Some((near, far)) => match choose_root(t_min, t_max, *near, *far) {
                Some(Root::Near) => Some(*near),
                Some(Root::Far) => Some(*far),
                None => None,
            },
            None => None,
        })
        .collect();
    assert_eq!(full, vec![Some(40), None, Some(20), Some(25)]);
    assert_eq!(acc.index(), nearest_hit(&full));
    assert_eq!(acc.index(), Some(2));
    assert_eq!(acc.bound(), Some(20));
}

#[test]
fn order_keys_follow_float_order() {
    let values = [
        f32::NEG_INFINITY,
        -1000.0,
        -1.5,
        -f32::MIN_POSITIVE,
        0.0,
        1e-30,
        0.001,
        1.0,
        f32::MAX,
        f32::INFINITY,
    ];
    for a in values.iter() {
        for b in values.iter() {
            assert_eq!(a < b, order_key(a.to_bits()) < order_key(b.to_bits()));
        }
        assert_eq!(f32::from_bits(bits_of_key(order_key(a.to_bits()))), *a);
    }
}

#[test]
fn both_zeros_share_a_key() {
    assert_eq!(order_key((-0.0f32).to_bits()), order_key(0.0f32.to_bits()));
    assert_eq!(order_key(0.0f32.to_bits()), 0x8000_0000);
    assert_eq!(bits_of_key(0x8000_0000), 0);
    assert_eq!(order_key(1.0f32.to_bits()), 0x8000_0000 + 0x3f80_0000);
    assert_eq!(order_key((-1.0f32).to_bits()), 0x8000_0000 - 0x3f80_0000);
}
