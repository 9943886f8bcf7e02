use raytracer::camera::{render_sub_bounds, render_tiles, HEIGHT_PARTITION, THREAD_LIMIT, WIDTH_PARTITION};

fn coverage(w: usize, h: usize) -> Vec<usize> {
    let tiles = render_tiles(w, h);
    assert_eq!(tiles.len(), HEIGHT_PARTITION * WIDTH_PARTITION);
    let mut count = vec![0usize; w * h];
    for t in &tiles {
        assert!(t.x_min <= t.x_max && t.x_max <= w);
        assert!(t.y_min <= t.y_max && t.y_max <= h);
        for y in t.y_min..t.y_max {
            for x in t.x_min..t.x_max {
                count[y * w + x] += 1;
            }
        }
    }
    count
}

#[test]
fn tiles_cover_every_pixel_once() {
    for (w, h) in [(1200, 675), (400, 225), (100, 100), (91, 95), (0, 0), (10, 10), (19, 81)] {
        assert!(coverage(w, h).iter().all(|c| *c == 1), "{}x{}", w, h);
    }
}

#[test]
fn tiles_are_listed_row_by_row() {
    let tiles = render_tiles(1200, 675);
    // chunk width 120, chunk height 68
    assert_eq!((tiles[0].x_min, tiles[0].x_max, tiles[0].y_min, tiles[0].y_max), (0, 120, 0, 68));
    assert_eq!((tiles[1].x_min, tiles[1].x_max), (120, 240));
    assert_eq!((tiles[10].y_min, tiles[10].y_max), (68, 136));
    assert_eq!((tiles[99].x_min, tiles[99].x_max, tiles[99].y_min, tiles[99].y_max), (1080, 1200, 612, 675));
}

#[test]
fn render_sub_bounds_cuts_at_the_image_edge() {
    let t = render_sub_bounds(100, 50, 90, 110, 40, 60);
    assert_eq!((t.x_min, t.x_max, t.y_min, t.y_max), (90, 100, 40, 50));
    let t = render_sub_bounds(100, 50, 0, 10, 0, 5);
    assert_eq!((t.x_min, t.x_max, t.y_min, t.y_max), (0, 10, 0, 5));
}

#[test]
fn thread_limit_value() {
    assert_eq!(THREAD_LIMIT, 16);
}
