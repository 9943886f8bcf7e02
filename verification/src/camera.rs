use vstd::prelude::*;

verus! {

/// Number of tile rows the image is cut into for rendering.
pub const HEIGHT_PARTITION: usize = 10;

/// Number of tile columns the image is cut into for rendering.
pub const WIDTH_PARTITION: usize = 10;

/// Largest number of render threads that may run at the same time.
pub const THREAD_LIMIT: usize = 16;

/// A rectangle of pixels `x_min..x_max` by `y_min..y_max` that one render
/// task fills.
#[derive(Clone, Copy)]
pub struct Tile {
    pub x_min: usize,
    pub x_max: usize,
    pub y_min: usize,
    pub y_max: usize,
}

/// Side of a tile along an image side of `n` pixels cut into ten parts,
/// rounded up.
pub open spec fn chunk(n: int) -> int {
    (n + 9) / 10
}

/// First pixel of part `i` along a side of `n` pixels.
pub open spec fn span_start(n: int, i: int) -> int {
    i * chunk(n)
}

/// One past the last pixel of part `i` along a side of `n` pixels.
pub open spec fn span_end(n: int, i: int) -> int {
    if (i + 1) * chunk(n) < n {
        (i + 1) * chunk(n)
    } else {
        n
    }
}

/// Every one of the ten parts starts inside the side, so that no part is
/// reversed once it is cut off at the side's end.
pub open spec fn parts_fit(n: int) -> bool {
    9 * chunk(n) <= n
}

/// `(x, y)` lies in tile `t`.
pub open spec fn tile_contains(t: Tile, x: int, y: int) -> bool {
    t.x_min <= x < t.x_max && t.y_min <= y < t.y_max
}

/// The part of `x_min..x_max` by `y_min..y_max` that lies inside a
/// `image_width` by `image_height` image.
pub fn render_sub_bounds(
    image_width: usize,
    image_height: usize,
    x_min: usize,
    x_max: usize,
    y_min: usize,
    y_max: usize,
) -> (t: Tile)
    requires
        x_min <= x_max && x_min <= image_width,
        y_min <= y_max && y_min <= image_height,
    ensures
        t.x_min == x_min,
        t.y_min == y_min,
        t.x_max == if x_max < image_width { x_max } else { image_width },
        t.y_max == if y_max < image_height { y_max } else { image_height },
        t.x_min <= t.x_max <= image_width,
        t.y_min <= t.y_max <= image_height,
{
    let x_max = if x_max < image_width { x_max } else { image_width };
    let y_max = if y_max < image_height { y_max } else { image_height };
    Tile { x_min, x_max, y_min, y_max }
}

/// The render tasks for an `image_width` by `image_height` image: ten rows
/// of ten tiles, row by row, each cut off at the image's edges. Entry
/// `10 * j + i` is tile column `i` of tile row `j`.
pub fn render_tiles(image_width: usize, image_height: usize) -> (tiles: Vec<Tile>)
    requires
        image_width + WIDTH_PARTITION <= usize::MAX,
        image_height + HEIGHT_PARTITION <= usize::MAX,
        parts_fit(image_width as int),
        parts_fit(image_height as int),
    ensures
        tiles@.len() == HEIGHT_PARTITION * WIDTH_PARTITION,
        forall|k: int|
            0 <= k < tiles@.len() ==> {
                &&& #[trigger] tiles@[k].x_min <= tiles@[k].x_max <= image_width
                &&& tiles@[k].y_min <= tiles@[k].y_max <= image_height
            },
        forall|i: int, j: int|
            0 <= i < 10 && 0 <= j < 10 ==> {
                let t = #[trigger] tiles@[10 * j + i];
                &&& t.x_min == span_start(image_width as int, i)
                &&& t.x_max == span_end(image_width as int, i)
                &&& t.y_min == span_start(image_height as int, j)
                &&& t.y_max == span_end(image_height as int, j)
            },
{
    let chunk_height = (image_height + HEIGHT_PARTITION - 1) / HEIGHT_PARTITION;
    let chunk_width = (image_width + WIDTH_PARTITION - 1) / WIDTH_PARTITION;
    assert(chunk_width * 10 <= image_width + 9);
    assert(chunk_height * 10 <= image_height + 9);
    let mut tiles: Vec<Tile> = Vec::new();
    let mut j: usize = 0;
    while j < HEIGHT_PARTITION
        invariant
            j <= 10,
            chunk_width == chunk(image_width as int),
            chunk_height == chunk(image_height as int),
            chunk_width * 10 <= image_width + 9 <= usize::MAX,
            chunk_height * 10 <= image_height + 9 <= usize::MAX,
            parts_fit(image_width as int),
            parts_fit(image_height as int),
            tiles@.len() == 10 * j,
            forall|k: int|
                0 <= k < tiles@.len() ==> {
                    &&& #[trigger] tiles@[k].x_min <= tiles@[k].x_max <= image_width
                    &&& tiles@[k].y_min <= tiles@[k].y_max <= image_height
                },
            forall|i2: int, j2: int|
                0 <= i2 < 10 && 0 <= j2 < j ==> {
                    let t = #[trigger] tiles@[10 * j2 + i2];
                    &&& t.x_min == span_start(image_width as int, i2)
                    &&& t.x_max == span_end(image_width as int, i2)
                    &&& t.y_min == span_start(image_height as int, j2)
                    &&& t.y_max == span_end(image_height as int, j2)
                },
        decreases 10 - j,
    {
        let mut i: usize = 0;
        while i < WIDTH_PARTITION
            invariant
                i <= 10,
                j < 10,
                chunk_width == chunk(image_width as int),
                chunk_height == chunk(image_height as int),
                chunk_width * 10 <= image_width + 9 <= usize::MAX,
                chunk_height * 10 <= image_height + 9 <= usize::MAX,
                parts_fit(image_width as int),
                parts_fit(image_height as int),
                tiles@.len() == 10 * j + i,
                forall|k: int|
                    0 <= k < tiles@.len() ==> {
                        &&& #[trigger] tiles@[k].x_min <= tiles@[k].x_max <= image_width
                        &&& tiles@[k].y_min <= tiles@[k].y_max <= image_height
                    },
                forall|i2: int, j2: int|
                    0 <= i2 < 10 && 0 <= j2 < 10 && 10 * j2 + i2 < 10 * j + i ==> {
                        let t = #[trigger] tiles@[10 * j2 + i2];
                        &&& t.x_min == span_start(image_width as int, i2)
                        &&& t.x_max == span_end(image_width as int, i2)
                        &&& t.y_min == span_start(image_height as int, j2)
                        &&& t.y_max == span_end(image_height as int, j2)
                    },
            decreases 10 - i,
        {
            proof {
                assert(i * chunk_width <= 9 * chunk_width) by (nonlinear_arith)
                    requires
                        i < 10,
                        chunk_width >= 0,
                ;
                assert(i * chunk_width <= (i + 1) * chunk_width) by (nonlinear_arith)
                    requires
                        chunk_width >= 0,
                ;
                assert(j * chunk_height <= (j + 1) * chunk_height) by (nonlinear_arith)
                    requires
                        chunk_height >= 0,
                ;
                assert((i + 1) * chunk_width <= 10 * chunk_width) by (nonlinear_arith)
                    requires
                        i < 10,
                        chunk_width >= 0,
                ;
                assert(j * chunk_height <= 9 * chunk_height) by (nonlinear_arith)
                    requires
                        j < 10,
                        chunk_height >= 0,
                ;
                assert((j + 1) * chunk_height <= 10 * chunk_height) by (nonlinear_arith)
                    requires
                        j < 10,
                        chunk_height >= 0,
                ;
            }
            let t = render_sub_bounds(
                image_width,
                image_height,
                i * chunk_width,
                (i + 1) * chunk_width,
                j * chunk_height,
                (j + 1) * chunk_height,
            );
            tiles.push(t);
            proof {
                assert forall|i2: int, j2: int|
                    0 <= i2 < 10 && 0 <= j2 < 10 && 10 * j2 + i2 < 10 * j + i + 1 implies {
                        let t = #[trigger] tiles@[10 * j2 + i2];
                        &&& t.x_min == span_start(image_width as int, i2)
                        &&& t.x_max == span_end(image_width as int, i2)
                        &&& t.y_min == span_start(image_height as int, j2)
                        &&& t.y_max == span_end(image_height as int, j2)
                    } by {
                    if 10 * j2 + i2 == 10 * j + i {
                        assert(j2 == j && i2 == i);
                    }
                }
            }
            i = i + 1;
        }
        j = j + 1;
    }
    tiles
}

/// Along a side of `n` pixels, pixel `p` lies in part `p / chunk(n)` of the
/// ten parts, and in no other.
pub proof fn lemma_pixel_in_one_part(n: int, p: int)
    requires
        0 <= p < n,
    ensures
        0 <= p / chunk(n) < 10,
        span_start(n, p / chunk(n)) <= p < span_end(n, p / chunk(n)),
        forall|i: int| 0 <= i < 10 && #[trigger] span_start(n, i) <= p < span_end(n, i) ==> i == p / chunk(n),
{
    let c = chunk(n);
    assert(c >= 1);
    assert(10 * c >= n);
    let q = p / c;
    assert(q * c <= p < q * c + c) by (nonlinear_arith)
        requires
            c >= 1,
            q == p / c,
            p >= 0,
    ;
    assert((q + 1) * c == q * c + c) by (nonlinear_arith);
    assert(0 <= q < 10) by (nonlinear_arith)
        requires
            c >= 1,
            q * c <= p,
            p < n,
            n <= 10 * c,
            p >= 0,
            q * c + c > p,
    ;
    assert forall|i: int| 0 <= i < 10 && #[trigger] span_start(n, i) <= p < span_end(n, i) implies i == q by {
        assert((i + 1) * c == i * c + c) by (nonlinear_arith);
        assert(i * c <= p < i * c + c);
        assert(i == q) by (nonlinear_arith)
            requires
                i * c <= p < i * c + c,
                q * c <= p < q * c + c,
                c >= 1,
        {
            if i < q {
                assert(i * c + c <= q * c);
            } else if q < i {
                assert(q * c + c <= i * c);
            }
        }
    }
}

/// The render tiles split the image: every pixel of an `w` by `h` image lies
/// in tile `10 * (y / chunk(h)) + x / chunk(w)` of `render_tiles`, and in
/// no other tile.
pub proof fn lemma_each_pixel_in_one_tile(w: int, h: int, tiles: Seq<Tile>, x: int, y: int)
    requires
        0 <= x < w,
        0 <= y < h,
        tiles.len() == 100,
        forall|i: int, j: int|
            0 <= i < 10 && 0 <= j < 10 ==> {
                let t = #[trigger] tiles[10 * j + i];
                &&& t.x_min == span_start(w, i)
                &&& t.x_max == span_end(w, i)
                &&& t.y_min == span_start(h, j)
                &&& t.y_max == span_end(h, j)
            },
    ensures
        0 <= 10 * (y / chunk(h)) + x / chunk(w) < 100,
        tile_contains(tiles[10 * (y / chunk(h)) + x / chunk(w)], x, y),
        forall|k: int| 0 <= k < 100 && tile_contains(#[trigger] tiles[k], x, y) ==> k == 10 * (y / chunk(h)) + x / chunk(w),
{
    lemma_pixel_in_one_part(w, x);
    lemma_pixel_in_one_part(h, y);
    let i = x / chunk(w);
    let j = y / chunk(h);
    assert(tiles[10 * j + i].x_min == span_start(w, i));
    assert forall|k: int| 0 <= k < 100 && tile_contains(#[trigger] tiles[k], x, y) implies k == 10 * j + i by {
        let i2 = k % 10;
        let j2 = k / 10;
        assert(k == 10 * j2 + i2);
        assert(0 <= i2 < 10 && 0 <= j2 < 10);
        assert(tiles[10 * j2 + i2].x_min == span_start(w, i2));
    }
}

} // verus!
