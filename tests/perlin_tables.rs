use rusty_raytracer::perlin::{perlin_generate_perm, permutation_from_draws, PerlinPerms, POINT_COUNT};

fn identity_draws() -> Vec<usize> {
    (0..POINT_COUNT - 1).map(|k| POINT_COUNT - 1 - k).collect()
}

fn is_permutation_of_range(p: &[usize], n: usize) -> bool {
    let mut sorted = p.to_vec();
    sorted.sort();
    sorted == (0..n).collect::<Vec<usize>>()
}

#[test]
fn shuffle_with_zero_draws() {
    // slot 3 <-> 0, slot 2 <-> 0, slot 1 <-> 0
    assert_eq!(permutation_from_draws(4, &vec![0, 0, 0]), vec![1, 2, 3, 0]);
}

#[test]
fn shuffle_with_self_draws_is_identity() {
    assert_eq!(permutation_from_draws(4, &vec![3, 2, 1]), vec![0, 1, 2, 3]);
}

#[test]
fn shuffle_of_nothing_and_of_one() {
    assert_eq!(permutation_from_draws(0, &vec![]), Vec::<usize>::new());
    assert_eq!(permutation_from_draws(1, &vec![]), vec![0]);
}

#[test]
fn shuffle_mixed_draws() {
    // slot 4 <-> 1: [0,4,2,3,1]; slot 3 <-> 3; slot 2 <-> 0: [2,4,0,3,1]; slot 1 <-> 1
    assert_eq!(permutation_from_draws(5, &vec![1, 3, 0, 1]), vec![2, 4, 0, 3, 1]);
}

#[test]
fn generated_perm_is_permutation() {
    for n in [0usize, 1, 2, 17, POINT_COUNT] {
        let p = perlin_generate_perm(n);
        assert!(is_permutation_of_range(&p, n));
    }
}

#[test]
fn generated_perms_are_shuffled() {
    let identity: Vec<usize> = (0..POINT_COUNT).collect();
    let shuffled = (0..4).any(|_| perlin_generate_perm(POINT_COUNT) != identity);
    assert!(shuffled);
}

#[test]
fn new_tables_are_permutations() {
    let t = PerlinPerms::new();
    assert!(is_permutation_of_range(&t.perm_x, POINT_COUNT));
    assert!(is_permutation_of_range(&t.perm_y, POINT_COUNT));
    assert!(is_permutation_of_range(&t.perm_z, POINT_COUNT));
}

#[test]
fn hash_with_identity_tables() {
    let d = identity_draws();
    let t = PerlinPerms::from_draws(&d, &d, &d);
    assert_eq!(t.perm_x, (0..POINT_COUNT).collect::<Vec<usize>>());
    assert_eq!(t.hash(1, 2, 4), 7);
    assert_eq!(t.hash(-1, 0, 0), 255);
    assert_eq!(t.hash(256, 257, -256), 1);
    assert_eq!(t.hash(-257, 0, 3), 255 ^ 3);
}

#[test]
fn corner_hashes_follow_lattice_order() {
    let d = identity_draws();
    let t = PerlinPerms::from_draws(&d, &d, &d);
    assert_eq!(t.corner_hashes(0, 0, 0), vec![0, 1, 1, 0, 1, 0, 0, 1]);
    let c = t.corner_hashes(-1, 5, i32::MAX);
    for di in 0..2i64 {
        for dj in 0..2i64 {
            for dk in 0..2i64 {
                let n = (4 * di + 2 * dj + dk) as usize;
                assert_eq!(c[n], t.hash(-1 + di, 5 + dj, i32::MAX as i64 + dk));
            }
        }
    }
}

#[test]
fn hash_with_shuffled_tables() {
    let mut dx = identity_draws();
    dx[0] = 0; // slot 255 <-> slot 0
    let d = identity_draws();
    let t = PerlinPerms::from_draws(&dx, &d, &d);
    assert_eq!(t.perm_x[0], 255);
    assert_eq!(t.perm_x[255], 0);
    assert_eq!(t.hash(0, 0, 0), 255);
    assert_eq!(t.hash(-1, 0, 0), 0);
}
