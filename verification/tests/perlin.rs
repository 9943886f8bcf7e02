use raytracer::perlin::{apply_swaps, Perlin, PERLIN_POINT_COUNT};

fn is_permutation_of_range(p: &Vec<i32>) -> bool {
    let mut seen = vec![false; PERLIN_POINT_COUNT];
    for v in p {
        if *v < 0 || *v as usize >= PERLIN_POINT_COUNT || seen[*v as usize] {
            return false;
        }
        seen[*v as usize] = true;
    }
    p.len() == PERLIN_POINT_COUNT
}

#[test]
fn generate_perm_is_a_permutation_of_0_to_255() {
    for _ in 0..20 {
        let p = Perlin::<u32>::generate_perm();
        assert!(is_permutation_of_range(&p));
    }
}

#[test]
fn random_permutation_keeps_values_and_the_tail() {
    let p: Vec<i32> = vec![7, 7, 3, 9, 100, 200];
    let r = Perlin::<u32>::random_permutation(p.clone(), 4);
    assert_eq!(r.len(), 6);
    assert_eq!(&r[4..], &[100, 200]);
    let mut head: Vec<i32> = r[..4].to_vec();
    head.sort();
    assert_eq!(head, vec![3, 7, 7, 9]);
}

#[test]
fn random_permutation_of_one_entry_is_identity() {
    let r = Perlin::<u32>::random_permutation(vec![5, 6, 7], 1);
    assert_eq!(r, vec![5, 6, 7]);
}

#[test]
fn lattice_corners_pick_gradients_from_the_table() {
    let gradients: Vec<u32> = (0..PERLIN_POINT_COUNT as u32).map(|g| g * 10).collect();
    let perlin = Perlin::new(gradients);
    for (i, j, k) in [(0, 0, 0), (-3, 7, 255), (1000, -1000, 12), (-1, -1, -1)] {
        let c = perlin.lattice_corners(i, j, k);
        assert_eq!(c.len(), 2);
        for di in 0..2 {
            assert_eq!(c[di].len(), 2);
            for dj in 0..2 {
                assert_eq!(c[di][dj].len(), 2);
                for dk in 0..2 {
                    let g = c[di][dj][dk];
                    assert_eq!(g % 10, 0);
                    assert!(((g / 10) as usize) < PERLIN_POINT_COUNT);
                }
            }
        }
    }
}

#[test]
fn lattice_corners_repeat_with_period_256() {
    let gradients: Vec<u32> = (0..PERLIN_POINT_COUNT as u32).collect();
    let perlin = Perlin::new(gradients);
    assert_eq!(perlin.lattice_corners(3, 4, 5), perlin.lattice_corners(3 + 256, 4 - 512, 5 + 1024));
}

#[test]
fn new_lattice_uses_the_given_gradients() {
    let gradients: Vec<u32> = vec![42; PERLIN_POINT_COUNT];
    let perlin = Perlin::new(gradients);
    let c = perlin.lattice_corners(-17, 3, 99);
    for di in 0..2 {
        for dj in 0..2 {
            for dk in 0..2 {
                assert_eq!(c[di][dj][dk], 42);
            }
        }
    }
}

#[test]
fn apply_swaps_swaps_each_position_with_its_target_from_the_back() {
    let r = apply_swaps(vec![10, 20, 30, 40], 4, &vec![0, 0, 1, 1]);
    assert_eq!(r, vec![30, 10, 40, 20]);
    let r = apply_swaps(vec![10, 20, 30, 40, 50], 3, &vec![0, 0, 0]);
    assert_eq!(r, vec![20, 30, 10, 40, 50]);
}

#[test]
fn apply_swaps_with_self_targets_keeps_the_order() {
    let r = apply_swaps(vec![5, 6, 7, 8], 4, &vec![0, 1, 2, 3]);
    assert_eq!(r, vec![5, 6, 7, 8]);
}
