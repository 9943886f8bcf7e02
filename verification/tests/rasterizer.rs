use raytracer::rasterizer::{AntiAliasing, Buffer, Rasterizer, ANTIALIASING_METHOD};

type Color = [f64; 3];

const BLACK: Color = [0.0, 0.0, 0.0];

fn all_equal<T: PartialEq + Copy>(v: &Vec<T>, x: T) -> bool {
    v.iter().all(|e| *e == x)
}

#[test]
fn new_sizes_frame_buffer_by_pixels() {
    let r: Rasterizer<Color, f64> = Rasterizer::new(4, 3, BLACK, f64::MAX);
    assert_eq!(r.frame_buffer().len(), 12);
    assert!(all_equal(r.frame_buffer(), BLACK));
    assert!(matches!(ANTIALIASING_METHOD, AntiAliasing::NoAA));
}

#[test]
fn get_index_counts_rows_from_the_top() {
    let r: Rasterizer<Color, f64> = Rasterizer::new(4, 3, BLACK, f64::MAX);
    // Row h - 1 = 2 comes first.
    assert_eq!(r.get_index(0, 2), 0);
    assert_eq!(r.get_index(3, 2), 3);
    assert_eq!(r.get_index(0, 1), 4);
    assert_eq!(r.get_index(1, 0), 9);
    assert_eq!(r.get_index(3, 0), 11);
}

#[test]
fn get_index_is_one_to_one_on_the_frame() {
    let (w, h) = (5usize, 4usize);
    let r: Rasterizer<Color, f64> = Rasterizer::new(w as u64, h as u64, BLACK, f64::MAX);
    let mut seen = vec![false; w * h];
    for x in 0..w {
        for y in 0..h {
            let i = r.get_index(x, y);
            assert!(i < w * h);
            assert!(!seen[i]);
            seen[i] = true;
        }
    }
    assert!(seen.iter().all(|b| *b));
}

#[test]
fn get_index_msaa_has_four_slots_per_pixel() {
    let r: Rasterizer<Color, f64> = Rasterizer::with_antialiasing(2, 2, AntiAliasing::MSAA, BLACK, f64::MAX);
    assert_eq!(r.get_index_MSAA(0, 1, 0), 0);
    assert_eq!(r.get_index_MSAA(0, 1, 3), 3);
    assert_eq!(r.get_index_MSAA(1, 1, 0), 4);
    assert_eq!(r.get_index_MSAA(1, 0, 2), 14);
}

#[test]
fn load_returns_distinct_handles_and_draw_reads_them_back() {
    let mut r: Rasterizer<Color, f64> = Rasterizer::new(8, 8, BLACK, f64::MAX);
    let pos = r.load_position(&vec![[1.0, 0.0, 0.0], [0.0, 1.0, 0.0], [0.0, 0.0, 1.0]]);
    let ind = r.load_indices(&vec![[0, 1, 2], [2, 1, 0]]);
    let col = r.load_colors(&vec![[0.5, 0.5, 0.5], [0.25, 0.0, 0.0], [0.0, 0.0, 0.75]]);
    let tris = r.draw_inputs(pos, ind, col).expect("all buffers are loaded");
    assert_eq!(tris.len(), 2);
    assert_eq!(tris[0].vertices, [[1.0, 0.0, 0.0], [0.0, 1.0, 0.0], [0.0, 0.0, 1.0]]);
    assert_eq!(tris[1].vertices, [[0.0, 0.0, 1.0], [0.0, 1.0, 0.0], [1.0, 0.0, 0.0]]);
    assert_eq!(tris[0].colors[2], [0.0, 0.0, 0.75]);
    assert_eq!(tris[1].colors[0], [0.0, 0.0, 0.75]);
}

#[test]
fn draw_inputs_refuses_an_index_past_the_end() {
    let mut r: Rasterizer<Color, f64> = Rasterizer::new(8, 8, BLACK, f64::MAX);
    let pos = r.load_position(&vec![[1.0, 0.0, 0.0], [0.0, 1.0, 0.0]]);
    let ind = r.load_indices(&vec![[0, 1, 2]]);
    let col = r.load_colors(&vec![BLACK, BLACK, BLACK]);
    assert!(r.draw_inputs(pos, ind, col).is_none());
}

#[test]
fn clear_both_resets_frame_and_depth() {
    let mut r: Rasterizer<Color, f64> = Rasterizer::new(3, 2, BLACK, f64::MAX);
    r.clear(Buffer::Both);
    assert_eq!(r.frame_buffer().len(), 6);
    assert!(all_equal(r.frame_buffer(), BLACK));
    r.clear(Buffer::Color);
    assert!(all_equal(r.frame_buffer(), BLACK));
    r.clear(Buffer::Depth);
    assert_eq!(r.frame_buffer().len(), 6);
}

#[test]
fn clear_color_under_taa_keeps_frame_size() {
    let mut r: Rasterizer<Color, f64> = Rasterizer::with_antialiasing(3, 3, AntiAliasing::TAA, BLACK, f64::MAX);
    r.clear(Buffer::Color);
    assert_eq!(r.frame_buffer().len(), 9);
    r.clear(Buffer::Both);
    assert_eq!(r.frame_buffer().len(), 9);
}

#[test]
fn buffers_keep_their_size_through_clears() {
    for method in [AntiAliasing::NoAA, AntiAliasing::MSAA, AntiAliasing::TAA] {
        let mut r: Rasterizer<Color, f64> = Rasterizer::with_antialiasing(6, 5, method, BLACK, f64::MAX);
        for buff in [Buffer::Color, Buffer::Depth, Buffer::Both, Buffer::Color, Buffer::Both] {
            r.clear(buff);
            assert_eq!(r.frame_buffer().len(), 30);
            assert!(all_equal(r.frame_buffer(), BLACK));
        }
    }
}

#[test]
fn get_index_msaa_is_one_to_one_on_the_sample_buffer() {
    let (w, h) = (3usize, 4usize);
    let r: Rasterizer<Color, f64> = Rasterizer::with_antialiasing(w as u64, h as u64, AntiAliasing::MSAA, BLACK, f64::MAX);
    let mut seen = vec![false; 4 * w * h];
    for x in 0..w {
        for y in 0..h {
            for s in 0..4 {
                let i = r.get_index_MSAA(x, y, s);
                assert!(i < 4 * w * h);
                assert!(!seen[i]);
                seen[i] = true;
            }
        }
    }
    assert!(seen.iter().all(|b| *b));
}

#[test]
fn handles_of_later_loads_do_not_disturb_earlier_buffers() {
    let mut r: Rasterizer<Color, f64> = Rasterizer::new(2, 2, BLACK, f64::MAX);
    let p1 = r.load_position(&vec![[1.0, 1.0, 1.0]]);
    let i1 = r.load_indices(&vec![[0, 0, 0]]);
    let c1 = r.load_colors(&vec![[0.1, 0.2, 0.3]]);
    let _p2 = r.load_position(&vec![[9.0, 9.0, 9.0]]);
    let _c2 = r.load_colors(&vec![[0.9, 0.9, 0.9]]);
    let tris = r.draw_inputs(p1, i1, c1).expect("loaded");
    assert_eq!(tris.len(), 1);
    assert_eq!(tris[0].vertices, [[1.0, 1.0, 1.0]; 3]);
    assert_eq!(tris[0].colors, [[0.1, 0.2, 0.3]; 3]);
}
