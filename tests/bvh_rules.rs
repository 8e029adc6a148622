use rusty_raytracer::bvh::{bvh_split, right_probe_bound, select_child_hit, BvhSplit};

#[test]
fn right_hit_wins() {
    assert_eq!(select_child_hit(Some(1), Some(2)), Some(2));
    assert_eq!(select_child_hit(Some(1), None), Some(1));
    assert_eq!(select_child_hit(None, Some(2)), Some(2));
    assert_eq!(select_child_hit::<i32>(None, None), None);
}

#[test]
fn right_probe_is_clipped_at_left_hit() {
    assert_eq!(right_probe_bound(Some(0.5f32), 10.0), 0.5);
    assert_eq!(right_probe_bound(None, 10.0f32), 10.0);
    assert_eq!(right_probe_bound(None, f32::INFINITY), f32::INFINITY);
}

#[test]
fn splits_of_ranges() {
    assert_eq!(bvh_split(0, 1), BvhSplit::Single(0));
    assert_eq!(bvh_split(3, 5), BvhSplit::Pair(3, 4));
    assert_eq!(bvh_split(0, 3), BvhSplit::Halves(1));
    assert_eq!(bvh_split(0, 7), BvhSplit::Halves(3));
    assert_eq!(bvh_split(10, 20), BvhSplit::Halves(15));
}

// A primitive seen by one ray: the parameters at which the ray meets it.
fn primitive_hit(ts: &[f32], lo: f32, hi: f32) -> Option<f32> {
    ts.iter().copied().filter(|&t| lo < t && t < hi).fold(None, |b: Option<f32>, t| match b {
        Some(x) if x <= t => Some(x),
        _ => Some(t),
    })
}

fn traverse(objs: &[Vec<f32>], start: usize, end: usize, lo: f32, hi: f32) -> Option<f32> {
    let (l, r): (Option<f32>, Option<f32>) = match bvh_split(start, end) {
        BvhSplit::Single(i) => {
            let l = primitive_hit(&objs[i], lo, hi);
            (l, primitive_hit(&objs[i], lo, right_probe_bound(l, hi)))
        }
        BvhSplit::Pair(i, j) => {
            let l = primitive_hit(&objs[i], lo, hi);
            (l, primitive_hit(&objs[j], lo, right_probe_bound(l, hi)))
        }
        BvhSplit::Halves(mid) => {
            let l = traverse(objs, start, mid, lo, hi);
            (l, traverse(objs, mid, end, lo, right_probe_bound(l, hi)))
        }
    };
    select_child_hit(l, r)
}

fn linear_scan(objs: &[Vec<f32>], lo: f32, hi: f32) -> Option<f32> {
    let mut so_far = None;
    for o in objs {
        so_far = select_child_hit(so_far, primitive_hit(o, lo, right_probe_bound(so_far, hi)));
    }
    so_far
}

#[test]
fn traversal_matches_linear_scan() {
    // a small deterministic generator for parameter lists
    let mut state: u64 = 0x2545_f491_4f6c_dd1d;
    let mut next = || {
        state ^= state << 13;
        state ^= state >> 7;
        state ^= state << 17;
        ((state >> 40) as f32) / ((1u64 << 24) as f32) * 20.0 - 5.0
    };
    for _ray in 0..500 {
        let objs: Vec<Vec<f32>> = (0..50).map(|_| vec![next(), next()]).collect();
        let lo = 0.001f32;
        let hi = 10.0f32;
        let expected = objs.iter().flat_map(|o| o.iter().copied()).filter(|&t| lo < t && t < hi).fold(None, |b: Option<f32>, t| match b {
            Some(x) if x <= t => Some(x),
            _ => Some(t),
        });
        assert_eq!(traverse(&objs, 0, objs.len(), lo, hi), expected);
        assert_eq!(linear_scan(&objs, lo, hi), expected);
    }
}
