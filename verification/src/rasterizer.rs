use std::collections::HashMap;
use vstd::prelude::*;

verus! {

broadcast use vstd::std_specs::hash::group_hash_axioms;

/// Which buffers `Rasterizer::clear` resets.
pub enum Buffer {
    Color,
    Depth,
    Both,
}

/// The kind of primitive that a draw call rasterizes.
pub enum Primitive {
    Line,
    Triangle,
}

/// Handle of a position buffer loaded into a rasterizer.
#[derive(Clone, Copy)]
pub struct PosBufId(usize);

/// Handle of an index buffer loaded into a rasterizer.
#[derive(Clone, Copy)]
pub struct IndBufId(usize);

/// Handle of a color buffer loaded into a rasterizer.
#[derive(Clone, Copy)]
pub struct ColBufId(usize);

impl PosBufId {
    /// The key under which the buffer was stored.
    pub closed spec fn key(self) -> usize {
        self.0
    }
}

impl IndBufId {
    /// The key under which the buffer was stored.
    pub closed spec fn key(self) -> usize {
        self.0
    }
}

impl ColBufId {
    /// The key under which the buffer was stored.
    pub closed spec fn key(self) -> usize {
        self.0
    }
}

/// Anti-aliasing strategy of the rasterizer.
pub enum AntiAliasing {
    /// One sample at each pixel center.
    NoAA,
    /// Four samples per pixel, averaged.
    MSAA,
    /// One jittered sample per pixel, blended with the previous frame.
    TAA,
}

/// Number of entries per pixel in the sample buffers of a strategy that uses
/// them; the frame buffer itself always holds one entry per pixel.
pub open spec fn samples_per_pixel(method: AntiAliasing) -> int {
    if method is MSAA {
        4
    } else {
        1
    }
}

/// The strategy that `Rasterizer::new` selects.
pub const ANTIALIASING_METHOD: AntiAliasing = AntiAliasing::NoAA;

/// A sequence of `n` copies of `x`.
pub open spec fn filled<T>(n: nat, x: T) -> Seq<T> {
    Seq::new(n, |i: int| x)
}

/// Index, in a frame buffer of width `w` and height `h`, of pixel `(x, y)`;
/// row `h - 1` comes first.
pub open spec fn pixel_index(w: int, h: int, x: int, y: int) -> int {
    (h - 1 - y) * w + x
}

/// Index of sub-sample `s` of pixel `(x, y)` in a four-sample buffer.
pub open spec fn sample_index(w: int, h: int, x: int, y: int, s: int) -> int {
    4 * pixel_index(w, h, x, y) + s
}

/// Every index triple points into both the position and the color buffer.
pub open spec fn indices_in_bounds(ind: Seq<[usize; 3]>, npos: nat, ncol: nat) -> bool {
    forall|t: int, k: int|
        0 <= t < ind.len() && 0 <= k < 3 ==> #[trigger] ind[t]@[k] < npos && ind[t]@[k] < ncol
}

/// Every pixel of a `w` by `h` frame has an index inside the frame buffer.
pub proof fn lemma_pixel_index_in_frame(w: int, h: int, x: int, y: int)
    requires
        0 <= x < w,
        0 <= y < h,
    ensures
        0 <= pixel_index(w, h, x, y) < w * h,
{
    let r = h - 1 - y;
    assert(0 <= r * w <= (h - 1) * w) by (nonlinear_arith)
        requires
            0 <= r <= h - 1,
            0 < w,
    ;
    assert((h - 1) * w + w == w * h) by (nonlinear_arith);
}

/// Two pixels of a frame share an index only if they are the same pixel.
pub proof fn lemma_pixel_index_injective(w: int, h: int, x1: int, y1: int, x2: int, y2: int)
    requires
        0 <= x1 < w,
        0 <= y1 < h,
        0 <= x2 < w,
        0 <= y2 < h,
        pixel_index(w, h, x1, y1) == pixel_index(w, h, x2, y2),
    ensures
        x1 == x2,
        y1 == y2,
{
    let r1 = h - 1 - y1;
    let r2 = h - 1 - y2;
    assert(r1 == r2) by (nonlinear_arith)
        requires
            r1 * w + x1 == r2 * w + x2,
            0 <= x1 < w,
            0 <= x2 < w,
    {
        if r1 < r2 {
            assert(r1 * w + w <= r2 * w);
        } else if r2 < r1 {
            assert(r2 * w + w <= r1 * w);
        }
    }
}

/// Every sub-sample of every pixel has an index inside the sample buffers,
/// which hold four entries per pixel.
pub proof fn lemma_sample_index_in_buffer(w: int, h: int, x: int, y: int, s: int)
    requires
        0 <= x < w,
        0 <= y < h,
        0 <= s < 4,
    ensures
        0 <= sample_index(w, h, x, y, s) < 4 * (w * h),
{
    lemma_pixel_index_in_frame(w, h, x, y);
}

/// Two sub-samples share an index only if they are the same sub-sample of
/// the same pixel.
pub proof fn lemma_sample_index_injective(w: int, h: int, x1: int, y1: int, s1: int, x2: int, y2: int, s2: int)
    requires
        0 <= x1 < w,
        0 <= y1 < h,
        0 <= s1 < 4,
        0 <= x2 < w,
        0 <= y2 < h,
        0 <= s2 < 4,
        sample_index(w, h, x1, y1, s1) == sample_index(w, h, x2, y2, s2),
    ensures
        x1 == x2,
        y1 == y2,
        s1 == s2,
{
    let p1 = pixel_index(w, h, x1, y1);
    let p2 = pixel_index(w, h, x2, y2);
    assert(p1 == p2);
    lemma_pixel_index_injective(w, h, x1, y1, x2, y2);
}

/// The corners and corner colors of one triangle of a draw call.
pub struct TriangleInput<V> {
    pub vertices: [V; 3],
    pub colors: [V; 3],
}

/// Frame buffers and loaded vertex data of the rasterizer. `V` is the type of
/// a position or color, `D` that of a depth value.
pub struct Rasterizer<V, D> {
    pos_buf: HashMap<usize, Vec<V>>,
    ind_buf: HashMap<usize, Vec<[usize; 3]>>,
    col_buf: HashMap<usize, Vec<V>>,
    frame_buf: Vec<V>,
    depth_buf: Vec<D>,
    frame_sample: Vec<V>,
    depth_sample: Vec<D>,
    last_frame_buf: Vec<V>,
    first_render_flag: bool,
    width: u64,
    height: u64,
    next_id: usize,
    method: AntiAliasing,
    blank: V,
    far: D,
}

/// A vector of `n` copies of `x`.
fn filled_vec<T: Copy>(n: usize, x: T) -> (v: Vec<T>)
    ensures
        v@ == filled(n as nat, x),
{
    let mut v: Vec<T> = Vec::new();
    let mut i: usize = 0;
    while i < n
        invariant
            i <= n,
            v@ =~= filled(i as nat, x),
        decreases n - i,
    {
        v.push(x);
        i = i + 1;
    }
    v
}

/// Overwrites every entry of `v` with `x`.
fn fill_with<T: Copy>(v: &mut Vec<T>, x: T)
    ensures
        final(v)@ == filled(old(v)@.len(), x),
    no_unwind
{
    let n = v.len();
    let mut i: usize = 0;
    while i < n
        invariant
            i <= n,
            n == v@.len(),
            forall|k: int| 0 <= k < i ==> v@[k] == x,
        decreases n - i,
    {
        v[i] = x;
        i = i + 1;
    }
    assert(v@ =~= filled(n as nat, x));
}

/// A copy of `src`, element by element.
fn copy_vec<T: Copy>(src: &Vec<T>) -> (v: Vec<T>)
    ensures
        v@ == src@,
{
    let mut v: Vec<T> = Vec::new();
    let mut i: usize = 0;
    while i < src.len()
        invariant
            i <= src@.len(),
            v@ =~= src@.subrange(0, i as int),
        decreases src@.len() - i,
    {
        v.push(src[i]);
        i = i + 1;
    }
    v
}

impl<V, D> Rasterizer<V, D> {
    /// Buffer keys stay below the next key, and each buffer keeps the size
    /// its strategy gave it at creation.
    #[verifier::type_invariant]
    spec fn well_formed(self) -> bool {
        &&& forall|k: usize| #[trigger] self.pos_buf@.contains_key(k) ==> k < self.next_id
        &&& forall|k: usize| #[trigger] self.ind_buf@.contains_key(k) ==> k < self.next_id
        &&& forall|k: usize| #[trigger] self.col_buf@.contains_key(k) ==> k < self.next_id
        &&& self.buffers_sized()
    }

    pub closed spec fn width(&self) -> u64 {
        self.width
    }

    pub closed spec fn height(&self) -> u64 {
        self.height
    }

    /// The key that the next loaded buffer gets.
    pub closed spec fn next_key(&self) -> usize {
        self.next_id
    }

    pub closed spec fn method(&self) -> AntiAliasing {
        self.method
    }

    /// The value that clearing writes into color buffers.
    pub closed spec fn blank(&self) -> V {
        self.blank
    }

    /// The value that clearing writes into depth buffers.
    pub closed spec fn far(&self) -> D {
        self.far
    }

    pub closed spec fn positions(&self) -> Map<usize, Seq<V>> {
        self.pos_buf@.map_values(|b: Vec<V>| b@)
    }

    pub closed spec fn indices(&self) -> Map<usize, Seq<[usize; 3]>> {
        self.ind_buf@.map_values(|b: Vec<[usize; 3]>| b@)
    }

    pub closed spec fn colors(&self) -> Map<usize, Seq<V>> {
        self.col_buf@.map_values(|b: Vec<V>| b@)
    }

    pub closed spec fn frame(&self) -> Seq<V> {
        self.frame_buf@
    }

    pub closed spec fn depth(&self) -> Seq<D> {
        self.depth_buf@
    }

    pub closed spec fn frame_samples(&self) -> Seq<V> {
        self.frame_sample@
    }

    pub closed spec fn depth_samples(&self) -> Seq<D> {
        self.depth_sample@
    }

    pub closed spec fn last_frame(&self) -> Seq<V> {
        self.last_frame_buf@
    }

    pub closed spec fn first_render(&self) -> bool {
        self.first_render_flag
    }

    /// Each buffer has the size that its strategy gives it at creation: one
    /// entry per pixel, four per pixel for the sample buffers, none for a
    /// buffer that the strategy does not use.
    pub open spec fn buffers_sized(&self) -> bool {
        let n = self.width() * self.height();
        &&& self.frame().len() == n
        &&& match self.method() {
            AntiAliasing::MSAA => {
                &&& self.depth().len() == 0
                &&& self.frame_samples().len() == 4 * n
                &&& self.depth_samples().len() == 4 * n
                &&& self.last_frame().len() == 0
            },
            AntiAliasing::TAA => {
                &&& self.depth().len() == n
                &&& self.frame_samples().len() == 0
                &&& self.depth_samples().len() == 0
                &&& self.last_frame().len() == n
            },
            AntiAliasing::NoAA => {
                &&& self.depth().len() == n
                &&& self.frame_samples().len() == 0
                &&& self.depth_samples().len() == 0
                &&& self.last_frame().len() == 0
            },
        }
    }

    /// Every stored buffer has a key below the next key to be handed out.
    pub open spec fn keys_issued(&self) -> bool {
        &&& forall|k: usize| #[trigger] self.positions().contains_key(k) ==> k < self.next_key()
        &&& forall|k: usize| #[trigger] self.indices().contains_key(k) ==> k < self.next_key()
        &&& forall|k: usize| #[trigger] self.colors().contains_key(k) ==> k < self.next_key()
    }
}

/// The frame buffer after clearing `buff`.
pub open spec fn frame_after_clear<V>(method: AntiAliasing, buff: Buffer, frame: Seq<V>, last: Seq<V>, blank: V) -> Seq<V> {
    if buff is Depth {
        frame
    } else if method is TAA {
        filled(last.len(), blank)
    } else {
        filled(frame.len(), blank)
    }
}

/// The previous-frame buffer after clearing `buff`: the temporal method
/// keeps the frame that was on screen.
pub open spec fn last_frame_after_clear<V>(method: AntiAliasing, buff: Buffer, frame: Seq<V>, last: Seq<V>) -> Seq<V> {
    if !(buff is Depth) && method is TAA {
        frame
    } else {
        last
    }
}

/// The color sample buffer after clearing `buff`.
pub open spec fn frame_samples_after_clear<V>(method: AntiAliasing, buff: Buffer, samples: Seq<V>, blank: V) -> Seq<V> {
    if !(buff is Depth) && method is MSAA {
        filled(samples.len(), blank)
    } else {
        samples
    }
}

/// The depth buffer after clearing `buff`.
pub open spec fn depth_after_clear<D>(method: AntiAliasing, buff: Buffer, depth: Seq<D>, far: D) -> Seq<D> {
    if buff is Color || (buff is Both && method is MSAA) {
        depth
    } else {
        filled(depth.len(), far)
    }
}

/// The depth sample buffer after clearing `buff`.
pub open spec fn depth_samples_after_clear<D>(method: AntiAliasing, buff: Buffer, samples: Seq<D>, far: D) -> Seq<D> {
    if (buff is Depth && !(method is NoAA)) || (buff is Both && method is MSAA) {
        filled(samples.len(), far)
    } else {
        samples
    }
}

impl<V: Copy, D: Copy> Rasterizer<V, D> {
    /// A `w` by `h` rasterizer with the anti-aliasing strategy
    /// `ANTIALIASING_METHOD`, no loaded buffers, and frame and depth buffers
    /// filled with `blank` and `far`.
    pub fn new(w: u64, h: u64, blank: V, far: D) -> (r: Self)
        requires
            w * h * samples_per_pixel(ANTIALIASING_METHOD) <= usize::MAX,
        ensures
            r.method() == ANTIALIASING_METHOD,
            r.fresh(w, h, blank, far),
    {
        Self::with_antialiasing(w, h, ANTIALIASING_METHOD, blank, far)
    }

    /// The state of a rasterizer that was just created with the given size
    /// and fill values: the buffers that its strategy uses have one entry per
    /// pixel (four for the multi-sample buffers), the others are empty.
    pub open spec fn fresh(&self, w: u64, h: u64, blank: V, far: D) -> bool {
        let n = (w * h) as nat;
        &&& self.width() == w
        &&& self.height() == h
        &&& self.next_key() == 0
        &&& self.keys_issued()
        &&& self.buffers_sized()
        &&& self.blank() == blank
        &&& self.far() == far
        &&& self.positions() == Map::<usize, Seq<V>>::empty()
        &&& self.indices() == Map::<usize, Seq<[usize; 3]>>::empty()
        &&& self.colors() == Map::<usize, Seq<V>>::empty()
        &&& self.frame() == filled(n, blank)
        &&& match self.method() {
            AntiAliasing::MSAA => {
                &&& self.depth() == Seq::<D>::empty()
                &&& self.frame_samples() == filled(4 * n, blank)
                &&& self.depth_samples() == filled(4 * n, far)
                &&& self.last_frame() == Seq::<V>::empty()
                &&& !self.first_render()
            },
            AntiAliasing::TAA => {
                &&& self.depth() == filled(n, far)
                &&& self.frame_samples() == Seq::<V>::empty()
                &&& self.depth_samples() == Seq::<D>::empty()
                &&& self.last_frame() == filled(n, blank)
                &&& self.first_render()
            },
            AntiAliasing::NoAA => {
                &&& self.depth() == filled(n, far)
                &&& self.frame_samples() == Seq::<V>::empty()
                &&& self.depth_samples() == Seq::<D>::empty()
                &&& self.last_frame() == Seq::<V>::empty()
                &&& !self.first_render()
            },
        }
    }

    /// A `w` by `h` rasterizer with the given anti-aliasing strategy.
    pub fn with_antialiasing(w: u64, h: u64, method: AntiAliasing, blank: V, far: D) -> (r: Self)
        requires
            w * h * samples_per_pixel(method) <= usize::MAX,
        ensures
            r.method() == method,
            r.fresh(w, h, blank, far),
    {
        let n = (w * h) as usize;
        let (frame_sample, depth_sample, depth_buf, last_frame_buf, first_render_flag) = match method {
            AntiAliasing::MSAA => (filled_vec(4 * n, blank), filled_vec(4 * n, far), Vec::new(), Vec::new(), false),
            AntiAliasing::TAA => (Vec::new(), Vec::new(), filled_vec(n, far), filled_vec(n, blank), true),
            AntiAliasing::NoAA => (Vec::new(), Vec::new(), filled_vec(n, far), Vec::new(), false),
        };
        let r = Rasterizer {
            pos_buf: HashMap::new(),
            ind_buf: HashMap::new(),
            col_buf: HashMap::new(),
            frame_buf: filled_vec(n, blank),
            depth_buf,
            frame_sample,
            depth_sample,
            last_frame_buf,
            first_render_flag,
            width: w,
            height: h,
            next_id: 0,
            method,
            blank,
            far,
        };
        assert(r.positions() =~= Map::<usize, Seq<V>>::empty());
        assert(r.indices() =~= Map::<usize, Seq<[usize; 3]>>::empty());
        assert(r.colors() =~= Map::<usize, Seq<V>>::empty());
        r
    }

    /// Resets the color buffers, the depth buffers, or both, as the
    /// anti-aliasing strategy uses them; the temporal strategy first keeps
    /// the frame on screen as the previous frame.
    pub fn clear(&mut self, buff: Buffer)
        ensures
            final(self).width() == old(self).width(),
            final(self).height() == old(self).height(),
            final(self).next_key() == old(self).next_key(),
            final(self).method() == old(self).method(),
            final(self).blank() == old(self).blank(),
            final(self).far() == old(self).far(),
            final(self).positions() == old(self).positions(),
            final(self).indices() == old(self).indices(),
            final(self).colors() == old(self).colors(),
            final(self).first_render() == old(self).first_render(),
            final(self).buffers_sized(),
            final(self).keys_issued(),
            final(self).frame().len() == old(self).frame().len(),
            final(self).depth().len() == old(self).depth().len(),
            final(self).frame_samples().len() == old(self).frame_samples().len(),
            final(self).depth_samples().len() == old(self).depth_samples().len(),
            final(self).last_frame().len() == old(self).last_frame().len(),
            !(buff is Depth) ==> forall|k: int|
                0 <= k < final(self).frame().len() ==> #[trigger] final(self).frame()[k] == old(self).blank(),
            !(buff is Depth) && old(self).method() is MSAA ==> forall|k: int|
                0 <= k < final(self).frame_samples().len() ==> #[trigger] final(self).frame_samples()[k]
                    == old(self).blank(),
            !(buff is Depth) && old(self).method() is TAA ==> final(self).last_frame() == old(self).frame(),
            !(buff is Color) && !(old(self).method() is MSAA) ==> forall|k: int|
                0 <= k < final(self).depth().len() ==> #[trigger] final(self).depth()[k] == old(self).far(),
            !(buff is Color) && old(self).method() is MSAA ==> forall|k: int|
                0 <= k < final(self).depth_samples().len() ==> #[trigger] final(self).depth_samples()[k]
                    == old(self).far(),
            buff is Color ==> final(self).depth() == old(self).depth() && final(self).depth_samples()
                == old(self).depth_samples(),
            buff is Depth ==> final(self).frame() == old(self).frame() && final(self).frame_samples()
                == old(self).frame_samples() && final(self).last_frame() == old(self).last_frame(),
            final(self).frame() == frame_after_clear(
                old(self).method(),
                buff,
                old(self).frame(),
                old(self).last_frame(),
                old(self).blank(),
            ),
            final(self).last_frame() == last_frame_after_clear(
                old(self).method(),
                buff,
                old(self).frame(),
                old(self).last_frame(),
            ),
            final(self).frame_samples() == frame_samples_after_clear(
                old(self).method(),
                buff,
                old(self).frame_samples(),
                old(self).blank(),
            ),
            final(self).depth() == depth_after_clear(old(self).method(), buff, old(self).depth(), old(self).far()),
            final(self).depth_samples() == depth_samples_after_clear(
                old(self).method(),
                buff,
                old(self).depth_samples(),
                old(self).far(),
            ),
    {
        proof {
            use_type_invariant(&*self);
        }
        let blank = self.blank;
        let far = self.far;
        match buff {
            Buffer::Color => {
                match self.method {
                    AntiAliasing::MSAA => {
                        fill_with(&mut self.frame_buf, blank);
                        fill_with(&mut self.frame_sample, blank);
                    },
                    AntiAliasing::TAA => {
                        std::mem::swap(&mut self.last_frame_buf, &mut self.frame_buf);
                        fill_with(&mut self.frame_buf, blank);
                    },
                    AntiAliasing::NoAA => {
                        fill_with(&mut self.frame_buf, blank);
                    },
                }
            },
            Buffer::Depth => {
                fill_with(&mut self.depth_buf, far);
                match self.method {
                    AntiAliasing::MSAA => {
                        fill_with(&mut self.depth_sample, far);
                    },
                    AntiAliasing::TAA => {
                        fill_with(&mut self.depth_sample, far);
                    },
                    AntiAliasing::NoAA => {
                        fill_with(&mut self.depth_buf, far);
                    },
                }
            },
            Buffer::Both => {
                match self.method {
                    AntiAliasing::MSAA => {
                        fill_with(&mut self.frame_buf, blank);
                        fill_with(&mut self.frame_sample, blank);
                        fill_with(&mut self.depth_sample, far);
                    },
                    AntiAliasing::TAA => {
                        std::mem::swap(&mut self.last_frame_buf, &mut self.frame_buf);
                        fill_with(&mut self.frame_buf, blank);
                        fill_with(&mut self.depth_buf, far);
                    },
                    AntiAliasing::NoAA => {
                        fill_with(&mut self.frame_buf, blank);
                        fill_with(&mut self.depth_buf, far);
                    },
                }
            },
        }
        proof {
            use_type_invariant(&*self);
        }
    }

    /// Index of pixel `(x, y)` in the frame buffer.
    pub fn get_index(&self, x: usize, y: usize) -> (i: usize)
        requires
            y < self.height(),
            pixel_index(self.width() as int, self.height() as int, x as int, y as int) <= usize::MAX,
        ensures
            i == pixel_index(self.width() as int, self.height() as int, x as int, y as int),
    {
        let row = self.height - 1 - y as u64;
        proof {
            assert(0 <= row * self.width <= row * self.width + x) by (nonlinear_arith)
                requires
                    row >= 0,
                    self.width >= 0,
                    x >= 0,
            ;
        }
        (row * self.width + x as u64) as usize
    }

    /// Index of sub-sample `sub_index` of pixel `(x, y)` in the sample buffers.
    pub fn get_index_MSAA(&self, x: usize, y: usize, sub_index: usize) -> (i: usize)
        requires
            y < self.height(),
            sub_index < 4,
            sample_index(self.width() as int, self.height() as int, x as int, y as int, sub_index as int) <= usize::MAX,
        ensures
            i == sample_index(self.width() as int, self.height() as int, x as int, y as int, sub_index as int),
    {
        4 * self.get_index(x, y) + sub_index
    }

    /// Stores a copy of `positions` under a fresh key and returns its handle.
    pub fn load_position(&mut self, positions: &Vec<V>) -> (id: PosBufId)
        requires
            old(self).next_key() < usize::MAX,
        ensures
            final(self).keys_issued(),
            final(self).buffers_sized(),
            id.key() == old(self).next_key(),
            final(self).next_key() == old(self).next_key() + 1,
            forall|k: usize| #[trigger] old(self).positions().contains_key(k) ==> k < id.key(),
            forall|k: usize| #[trigger] old(self).indices().contains_key(k) ==> k < id.key(),
            forall|k: usize| #[trigger] old(self).colors().contains_key(k) ==> k < id.key(),
            final(self).positions() == old(self).positions().insert(id.key(), positions@),
            final(self).indices() == old(self).indices(),
            final(self).colors() == old(self).colors(),
            final(self).unchanged_frame(*old(self)),
    {
        proof {
            use_type_invariant(&*self);
        }
        let id = self.get_next_id();
        proof {
            use_type_invariant(&*self);
        }
        let copy = copy_vec(positions);
        let mut stored = HashMap::new();
        std::mem::swap(&mut stored, &mut self.pos_buf);
        stored.insert(id, copy);
        self.pos_buf = stored;
        assert(self.positions() =~= old(self).positions().insert(id, positions@));
        proof {
            use_type_invariant(&*self);
        }
        PosBufId(id)
    }

    /// Stores a copy of `indices` under a fresh key and returns its handle.
    pub fn load_indices(&mut self, indices: &Vec<[usize; 3]>) -> (id: IndBufId)
        requires
            old(self).next_key() < usize::MAX,
        ensures
            final(self).keys_issued(),
            final(self).buffers_sized(),
            id.key() == old(self).next_key(),
            final(self).next_key() == old(self).next_key() + 1,
            forall|k: usize| #[trigger] old(self).positions().contains_key(k) ==> k < id.key(),
            forall|k: usize| #[trigger] old(self).indices().contains_key(k) ==> k < id.key(),
            forall|k: usize| #[trigger] old(self).colors().contains_key(k) ==> k < id.key(),
            final(self).positions() == old(self).positions(),
            final(self).indices() == old(self).indices().insert(id.key(), indices@),
            final(self).colors() == old(self).colors(),
            final(self).unchanged_frame(*old(self)),
    {
        proof {
            use_type_invariant(&*self);
        }
        let id = self.get_next_id();
        proof {
            use_type_invariant(&*self);
        }
        let copy = copy_vec(indices);
        let mut stored = HashMap::new();
        std::mem::swap(&mut stored, &mut self.ind_buf);
        stored.insert(id, copy);
        self.ind_buf = stored;
        assert(self.indices() =~= old(self).indices().insert(id, indices@));
        proof {
            use_type_invariant(&*self);
        }
        IndBufId(id)
    }

    /// Stores a copy of `colors` under a fresh key and returns its handle.
    pub fn load_colors(&mut self, colors: &Vec<V>) -> (id: ColBufId)
        requires
            old(self).next_key() < usize::MAX,
        ensures
            final(self).keys_issued(),
            final(self).buffers_sized(),
            id.key() == old(self).next_key(),
            final(self).next_key() == old(self).next_key() + 1,
            forall|k: usize| #[trigger] old(self).positions().contains_key(k) ==> k < id.key(),
            forall|k: usize| #[trigger] old(self).indices().contains_key(k) ==> k < id.key(),
            forall|k: usize| #[trigger] old(self).colors().contains_key(k) ==> k < id.key(),
            final(self).positions() == old(self).positions(),
            final(self).indices() == old(self).indices(),
            final(self).colors() == old(self).colors().insert(id.key(), colors@),
            final(self).unchanged_frame(*old(self)),
    {
        proof {
            use_type_invariant(&*self);
        }
        let id = self.get_next_id();
        proof {
            use_type_invariant(&*self);
        }
        let copy = copy_vec(colors);
        let mut stored = HashMap::new();
        std::mem::swap(&mut stored, &mut self.col_buf);
        stored.insert(id, copy);
        self.col_buf = stored;
        assert(self.colors() =~= old(self).colors().insert(id, colors@));
        proof {
            use_type_invariant(&*self);
        }
        ColBufId(id)
    }

    /// Size, strategy, fill values and all frame, depth and sample buffers
    /// are those of `other`.
    pub open spec fn unchanged_frame(&self, other: Self) -> bool {
        &&& self.width() == other.width()
        &&& self.height() == other.height()
        &&& self.method() == other.method()
        &&& self.blank() == other.blank()
        &&& self.far() == other.far()
        &&& self.frame() == other.frame()
        &&& self.depth() == other.depth()
        &&& self.frame_samples() == other.frame_samples()
        &&& self.depth_samples() == other.depth_samples()
        &&& self.last_frame() == other.last_frame()
        &&& self.first_render() == other.first_render()
    }

    /// The handles name loaded buffers and every index triple points into
    /// both the position and the color buffer.
    pub open spec fn can_draw(&self, pos: PosBufId, ind: IndBufId, col: ColBufId) -> bool {
        &&& self.positions().contains_key(pos.key())
        &&& self.indices().contains_key(ind.key())
        &&& self.colors().contains_key(col.key())
        &&& indices_in_bounds(
            self.indices()[ind.key()],
            self.positions()[pos.key()].len(),
            self.colors()[col.key()].len(),
        )
    }

    /// The triangles that a draw call with these buffers rasterizes, in
    /// index-buffer order: for each index triple, the three positions and
    /// the three colors that it points to. `None` where a handle is unknown
    /// or an index points past the end of a buffer.
    pub fn draw_inputs(&self, pos_buffer: PosBufId, ind_buffer: IndBufId, col_buffer: ColBufId) -> (r: Option<Vec<TriangleInput<V>>>)
        ensures
            r is Some <==> self.can_draw(pos_buffer, ind_buffer, col_buffer),
            r matches Some(ts) ==> {
                let pos = self.positions()[pos_buffer.key()];
                let ind = self.indices()[ind_buffer.key()];
                let col = self.colors()[col_buffer.key()];
                &&& ts@.len() == ind.len()
                &&& forall|t: int, k: int|
                    0 <= t < ind.len() && 0 <= k < 3 ==> {
                        &&& #[trigger] ts@[t].vertices@[k] == pos[ind[t]@[k] as int]
                        &&& ts@[t].colors@[k] == col[ind[t]@[k] as int]
                    }
            },
    {
        let buf = match self.pos_buf.get(&pos_buffer.0) {
            Some(b) => b,
            None => return None,
        };
        let ind = match self.ind_buf.get(&ind_buffer.0) {
            Some(b) => b,
            None => return None,
        };
        let col = match self.col_buf.get(&col_buffer.0) {
            Some(b) => b,
            None => return None,
        };
        assert(buf@ == self.positions()[pos_buffer.key()]);
        assert(ind@ == self.indices()[ind_buffer.key()]);
        assert(col@ == self.colors()[col_buffer.key()]);
        let mut ts: Vec<TriangleInput<V>> = Vec::new();
        let mut t: usize = 0;
        while t < ind.len()
            invariant
                t <= ind@.len(),
                ts@.len() == t,
                self.positions().contains_key(pos_buffer.key()),
                self.indices().contains_key(ind_buffer.key()),
                self.colors().contains_key(col_buffer.key()),
                buf@ == self.positions()[pos_buffer.key()],
                ind@ == self.indices()[ind_buffer.key()],
                col@ == self.colors()[col_buffer.key()],
                indices_in_bounds(ind@.subrange(0, t as int), buf@.len(), col@.len()),
                forall|u: int, k: int|
                    0 <= u < t && 0 <= k < 3 ==> {
                        &&& #[trigger] ts@[u].vertices@[k] == buf@[ind@[u]@[k] as int]
                        &&& ts@[u].colors@[k] == col@[ind@[u]@[k] as int]
                    },
            decreases ind@.len() - t,
        {
            let tri = ind[t];
            if tri[0] >= buf.len() || tri[1] >= buf.len() || tri[2] >= buf.len() || tri[0] >= col.len()
                || tri[1] >= col.len() || tri[2] >= col.len() {
                assert(!indices_in_bounds(ind@, buf@.len(), col@.len())) by {
                    if tri[0] >= buf.len() || tri[0] >= col.len() {
                        assert(ind@[t as int]@[0] == tri[0]);
                    } else if tri[1] >= buf.len() || tri[1] >= col.len() {
                        assert(ind@[t as int]@[1] == tri[1]);
                    } else {
                        assert(ind@[t as int]@[2] == tri[2]);
                    }
                }
                return None;
            }
            let vertices = [buf[tri[0]], buf[tri[1]], buf[tri[2]]];
            let colors = [col[tri[0]], col[tri[1]], col[tri[2]]];
            ts.push(TriangleInput { vertices, colors });
            proof {
                assert forall|u: int, k: int|
                    0 <= u < t + 1 && 0 <= k < 3 implies #[trigger] ind@.subrange(0, t + 1)[u]@[k] < buf@.len()
                        && ind@.subrange(0, t + 1)[u]@[k] < col@.len() by {
                    if u < t {
                        assert(ind@.subrange(0, t as int)[u] == ind@.subrange(0, t + 1)[u]);
                    }
                }
            }
            t = t + 1;
        }
        assert(ind@.subrange(0, ind@.len() as int) =~= ind@);
        Some(ts)
    }

    /// The frame buffer.
    pub fn frame_buffer(&self) -> (f: &Vec<V>)
        ensures
            f@ == self.frame(),
    {
        &self.frame_buf
    }

    /// Hands out the next buffer key.
    fn get_next_id(&mut self) -> (id: usize)
        requires
            old(self).next_key() < usize::MAX,
        ensures
            id == old(self).next_key(),
            final(self).next_key() == old(self).next_key() + 1,
            final(self).width() == old(self).width(),
            final(self).height() == old(self).height(),
            final(self).method() == old(self).method(),
            final(self).blank() == old(self).blank(),
            final(self).far() == old(self).far(),
            final(self).positions() == old(self).positions(),
            final(self).indices() == old(self).indices(),
            final(self).colors() == old(self).colors(),
            final(self).frame() == old(self).frame(),
            final(self).depth() == old(self).depth(),
            final(self).frame_samples() == old(self).frame_samples(),
            final(self).depth_samples() == old(self).depth_samples(),
            final(self).last_frame() == old(self).last_frame(),
            final(self).first_render() == old(self).first_render(),
    {
        proof {
            use_type_invariant(&*self);
        }
        let res = self.next_id;
        self.next_id = self.next_id + 1;
        res
    }
}

} // verus!
