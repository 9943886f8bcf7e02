use raytracer::bvh::{split_range, BvhSplit};
use raytracer::material::DefaultMaterial;
use raytracer::shader::{choose_shader_texture, triangle_vertex_indices, ShaderKind};
use raytracer::texture::checker_cell_is_even;
use raytracer::utility::{is_ci, rand_range_int};

#[test]
fn rand_range_int_stays_in_closed_range() {
    let mut seen_low = false;
    let mut seen_high = false;
    for _ in 0..2000 {
        let r = rand_range_int(-2, 2);
        assert!((-2..=2).contains(&r));
        seen_low |= r == -2;
        seen_high |= r == 2;
    }
    assert!(seen_low && seen_high);
    assert_eq!(rand_range_int(7, 7), 7);
}

#[test]
fn is_ci_only_for_true() {
    assert!(is_ci(Some("true")));
    assert!(!is_ci(Some("TRUE")));
    assert!(!is_ci(Some("1")));
    assert!(!is_ci(Some("")));
    assert!(!is_ci(None));
}

#[test]
fn default_material_never_scatters() {
    let m = DefaultMaterial::new();
    assert!(!m.scatters());
}

#[test]
fn checker_parity() {
    assert!(checker_cell_is_even(0, 0, 0));
    assert!(!checker_cell_is_even(1, 0, 0));
    assert!(checker_cell_is_even(-1, 1, 2));
    assert!(!checker_cell_is_even(-1, -1, -1));
    assert!(checker_cell_is_even(-3, 0, -1));
}

#[test]
fn bvh_split_cases() {
    assert!(matches!(split_range(4, 5), BvhSplit::Single(4)));
    assert!(matches!(split_range(4, 6), BvhSplit::Pair(4, 5)));
    assert!(matches!(split_range(0, 3), BvhSplit::Halves(1)));
    assert!(matches!(split_range(2, 9), BvhSplit::Halves(5)));
}

fn leaves(start: usize, end: usize, out: &mut Vec<usize>) {
    match split_range(start, end) {
        BvhSplit::Single(a) => out.push(a),
        BvhSplit::Pair(a, b) => {
            out.push(a);
            out.push(b);
        }
        BvhSplit::Halves(mid) => {
            leaves(start, mid, out);
            leaves(mid, end, out);
        }
    }
}

#[test]
fn bvh_leaves_cover_range() {
    for n in 1..40 {
        let mut out = Vec::new();
        leaves(0, n, &mut out);
        out.sort();
        assert_eq!(out, (0..n).collect::<Vec<_>>());
    }
}

#[test]
fn shader_choice_by_name() {
    let (k, t) = choose_shader_texture("normal", "models/spot/");
    assert!(k == ShaderKind::Normal && t.is_none());
    let (k, t) = choose_shader_texture("texture", "models/spot/");
    assert!(k == ShaderKind::Texture);
    assert_eq!(t.as_deref(), Some("models/spot/spot_texture.png"));
    let (k, _) = choose_shader_texture("bump", "");
    assert!(k == ShaderKind::Bump);
    let (k, _) = choose_shader_texture("displacement", "");
    assert!(k == ShaderKind::Displacement);
    let (k, t) = choose_shader_texture("phong", "");
    assert!(k == ShaderKind::Phong && t.is_none());
    let (k, t) = choose_shader_texture("unknown", "");
    assert!(k == ShaderKind::Phong && t.is_none());
}

#[test]
fn triangle_vertex_indices_groups_by_three() {
    let faces = triangle_vertex_indices(&vec![0, 1, 2, 2, 3, 0, 9]);
    assert_eq!(faces, vec![[0, 1, 2], [2, 3, 0]]);
    assert!(triangle_vertex_indices(&vec![]).is_empty());
}

#[test]
fn checker_neighbors_alternate() {
    for (x, y, z) in [(0, 0, 0), (-5, 3, 2), (7, -7, 1), (100, 200, -301)] {
        let e = checker_cell_is_even(x, y, z);
        assert_eq!(checker_cell_is_even(x + 1, y, z), !e);
        assert_eq!(checker_cell_is_even(x, y + 1, z), !e);
        assert_eq!(checker_cell_is_even(x, y, z + 1), !e);
    }
}
