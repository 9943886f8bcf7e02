use crate::utility::rand_range_int;
use vstd::prelude::*;

verus! {

/// Number of lattice gradients, and length of each permutation table.
pub const PERLIN_POINT_COUNT: usize = 256;

/// The sequence `0, 1, ..., n - 1` as `i32` values.
pub open spec fn identity_seq(n: nat) -> Seq<i32> {
    Seq::new(n, |i: int| i as i32)
}

/// `a` holds the same values as `b`, each as often.
pub open spec fn same_elements(a: Seq<i32>, b: Seq<i32>) -> bool {
    a.to_multiset() == b.to_multiset()
}

/// A permutation table: a rearrangement of `0, 1, ..., 255`.
pub open spec fn is_perm_table(p: Seq<i32>) -> bool {
    &&& p.len() == PERLIN_POINT_COUNT
    &&& same_elements(p, identity_seq(PERLIN_POINT_COUNT as nat))
}

/// The lattice coordinate `x` reduced to a table slot, `x & 255`.
pub open spec fn slot(x: i32) -> int {
    (x & 255i32) as int
}

/// Index of the gradient at lattice point `(x, y, z)`: the three table
/// entries at the reduced coordinates, combined by exclusive or.
pub open spec fn lattice_hash(px: Seq<i32>, py: Seq<i32>, pz: Seq<i32>, x: i32, y: i32, z: i32) -> int {
    (px[slot(x)] ^ py[slot(y)] ^ pz[slot(z)]) as int
}

/// Swapping two entries keeps the multiset of a sequence.
proof fn lemma_swap_same_elements(s: Seq<i32>, i: int, j: int)
    requires
        0 <= i < s.len(),
        0 <= j < s.len(),
    ensures
        s.update(i, s[j]).update(j, s[i]).to_multiset() == s.to_multiset(),
{
    broadcast use vstd::seq_lib::to_multiset_update;
    broadcast use vstd::multiset::group_multiset_axioms;
    broadcast use vstd::seq_lib::group_to_multiset_ensures;

    let s1 = s.update(i, s[j]);
    if i == j {
        assert(s1 =~= s);
        assert(s1.update(j, s[i]) =~= s);
    } else {
        assert(s1[j] == s[j]);
        assert(s.to_multiset().count(s[i]) > 0);
        let m = s.to_multiset();
        let m1 = m.insert(s[j]).remove(s[i]);
        assert(s1.to_multiset() == m1);
        assert(s1.update(j, s[i]).to_multiset() == m1.insert(s[i]).remove(s[j]));
        assert(m1.insert(s[i]).remove(s[j]) =~= m);
    }
}

/// Every value of a sequence with the elements of `0..n` lies in `0..n`.
proof fn lemma_same_as_identity_in_range(p: Seq<i32>, n: nat)
    requires
        same_elements(p, identity_seq(n)),
        n <= i32::MAX,
    ensures
        forall|k: int| 0 <= k < p.len() ==> 0 <= #[trigger] p[k] < n,
{
    broadcast use vstd::seq_lib::to_multiset_contains;

    assert forall|k: int| 0 <= k < p.len() implies 0 <= #[trigger] p[k] < n by {
        assert(p.contains(p[k]));
        assert(p.to_multiset().count(p[k]) > 0);
        assert(identity_seq(n).to_multiset().count(p[k]) > 0);
        assert(identity_seq(n).contains(p[k]));
        let w = choose|w: int| 0 <= w < identity_seq(n).len() && identity_seq(n)[w] == p[k];
        assert(identity_seq(n)[w] == w as i32);
    }
}

/// A permutation table holds each of `0, 1, ..., 255` exactly once: every
/// entry is in range and no two entries are equal.
pub proof fn lemma_perm_table_entries(p: Seq<i32>)
    requires
        is_perm_table(p),
    ensures
        forall|k: int| 0 <= k < p.len() ==> 0 <= #[trigger] p[k] < PERLIN_POINT_COUNT,
        p.no_duplicates(),
{
    lemma_same_as_identity_in_range(p, PERLIN_POINT_COUNT as nat);
    let id = identity_seq(PERLIN_POINT_COUNT as nat);
    assert(id.no_duplicates());
    id.lemma_multiset_has_no_duplicates();
    p.lemma_multiset_has_no_duplicates_conv();
}

/// Every lattice point picks one of the 256 gradients when the three tables
/// are permutation tables.
pub proof fn lemma_lattice_hash_in_range(px: Seq<i32>, py: Seq<i32>, pz: Seq<i32>, x: i32, y: i32, z: i32)
    requires
        is_perm_table(px),
        is_perm_table(py),
        is_perm_table(pz),
    ensures
        0 <= slot(x) < PERLIN_POINT_COUNT,
        0 <= slot(y) < PERLIN_POINT_COUNT,
        0 <= slot(z) < PERLIN_POINT_COUNT,
        0 <= lattice_hash(px, py, pz, x, y, z) < PERLIN_POINT_COUNT,
{
    assert(0 <= x & 255i32 < 256 && 0 <= y & 255i32 < 256 && 0 <= z & 255i32 < 256) by (bit_vector);
    lemma_same_as_identity_in_range(px, 256);
    lemma_same_as_identity_in_range(py, 256);
    lemma_same_as_identity_in_range(pz, 256);
    let a = px[slot(x)];
    let b = py[slot(y)];
    let c = pz[slot(z)];
    assert(0 <= a ^ b ^ c < 256) by (bit_vector)
        requires
            0 <= a < 256,
            0 <= b < 256,
            0 <= c < 256,
    ;
}

/// Within one period every coordinate matters: for permutation tables,
/// moving a lattice point by `d` steps, `0 < d < 256`, along x, along y or
/// along z alone always picks a different gradient, where the gradient of
/// `(x, y, z)` is entry `x & 255` of the x table, `y & 255` of the y table
/// and `z & 255` of the z table, combined by exclusive or.
pub proof fn lemma_lattice_hash_each_axis_matters(
    px: Seq<i32>,
    py: Seq<i32>,
    pz: Seq<i32>,
    x: i32,
    y: i32,
    z: i32,
    d: i32,
)
    requires
        is_perm_table(px),
        is_perm_table(py),
        is_perm_table(pz),
        0 < d < 256,
        x + d <= i32::MAX,
        y + d <= i32::MAX,
        z + d <= i32::MAX,
    ensures
        lattice_hash(px, py, pz, x, y, z) == (px[(x & 255i32) as int] ^ py[(y & 255i32) as int] ^ pz[(z & 255i32) as int]) as int,
        lattice_hash(px, py, pz, (x + d) as i32, y, z) != lattice_hash(px, py, pz, x, y, z),
        lattice_hash(px, py, pz, x, (y + d) as i32, z) != lattice_hash(px, py, pz, x, y, z),
        lattice_hash(px, py, pz, x, y, (z + d) as i32) != lattice_hash(px, py, pz, x, y, z),
{
    lemma_perm_table_entries(px);
    lemma_perm_table_entries(py);
    lemma_perm_table_entries(pz);
    let x2 = (x + d) as i32;
    let y2 = (y + d) as i32;
    let z2 = (z + d) as i32;
    assert(x2 & 255i32 != x & 255i32 && 0 <= x & 255i32 < 256 && 0 <= x2 & 255i32 < 256) by (bit_vector)
        requires
            0 < d < 256,
            x + d <= i32::MAX,
            x2 == x + d,
    ;
    assert(y2 & 255i32 != y & 255i32 && 0 <= y & 255i32 < 256 && 0 <= y2 & 255i32 < 256) by (bit_vector)
        requires
            0 < d < 256,
            y + d <= i32::MAX,
            y2 == y + d,
    ;
    assert(z2 & 255i32 != z & 255i32 && 0 <= z & 255i32 < 256 && 0 <= z2 & 255i32 < 256) by (bit_vector)
        requires
            0 < d < 256,
            z + d <= i32::MAX,
            z2 == z + d,
    ;
    let a = px[(x & 255i32) as int];
    let a2 = px[(x2 & 255i32) as int];
    let b = py[(y & 255i32) as int];
    let b2 = py[(y2 & 255i32) as int];
    let c = pz[(z & 255i32) as int];
    let c2 = pz[(z2 & 255i32) as int];
    assert(a != a2);
    assert(b != b2);
    assert(c != c2);
    assert(a2 ^ b ^ c != a ^ b ^ c) by (bit_vector)
        requires
            a != a2,
    ;
    assert(a ^ b2 ^ c != a ^ b ^ c) by (bit_vector)
        requires
            b != b2,
    ;
    assert(a ^ b ^ c2 != a ^ b ^ c) by (bit_vector)
        requires
            c != c2,
    ;
}

/// The lattice repeats every 256 points along each axis: shifting a point
/// by 256 in x, y or z picks the same gradient.
pub proof fn lemma_lattice_hash_period(px: Seq<i32>, py: Seq<i32>, pz: Seq<i32>, x: i32, y: i32, z: i32)
    requires
        x + 256 <= i32::MAX,
        y + 256 <= i32::MAX,
        z + 256 <= i32::MAX,
    ensures
        lattice_hash(px, py, pz, (x + 256) as i32, y, z) == lattice_hash(px, py, pz, x, y, z),
        lattice_hash(px, py, pz, x, (y + 256) as i32, z) == lattice_hash(px, py, pz, x, y, z),
        lattice_hash(px, py, pz, x, y, (z + 256) as i32) == lattice_hash(px, py, pz, x, y, z),
{
    assert(((x + 256) as i32) & 255i32 == x & 255i32) by (bit_vector)
        requires
            x + 256 <= i32::MAX,
    ;
    assert(((y + 256) as i32) & 255i32 == y & 255i32) by (bit_vector)
        requires
            y + 256 <= i32::MAX,
    ;
    assert(((z + 256) as i32) & 255i32 == z & 255i32) by (bit_vector)
        requires
            z + 256 <= i32::MAX,
    ;
}

/// The Fisher-Yates shuffle of `s` with swap targets `t`, from position `i`
/// down to position 1: position `k` is swapped with position `t[k]`.
pub open spec fn fisher_yates(s: Seq<i32>, t: Seq<usize>, i: int) -> Seq<i32>
    decreases i,
{
    if i < 1 {
        s
    } else {
        fisher_yates(s.update(i, s[t[i] as int]).update(t[i] as int, s[i]), t, i - 1)
    }
}

/// Swap targets for a shuffle of the first `n` positions: one per position,
/// the target of position `k` at or before `k`.
pub open spec fn valid_targets(t: Seq<usize>, n: int) -> bool {
    &&& t.len() == n
    &&& forall|k: int| 0 <= k < n ==> #[trigger] t[k] <= k
}

/// `r` is what a Fisher-Yates shuffle of the first `n` positions of `p`
/// gives for some choice of swap targets.
pub open spec fn is_shuffle_of(r: Seq<i32>, p: Seq<i32>, n: int) -> bool {
    exists|t: Seq<usize>| valid_targets(t, n) && r == #[trigger] fisher_yates(p, t, n - 1)
}

/// A Fisher-Yates shuffle keeps the length and the multiset of the
/// sequence, and leaves every position after `i` in place.
pub proof fn lemma_fisher_yates_rearranges(s: Seq<i32>, t: Seq<usize>, i: int)
    requires
        i < s.len(),
        i < t.len(),
        forall|k: int| 0 <= k <= i ==> #[trigger] t[k] <= k,
    ensures
        fisher_yates(s, t, i).len() == s.len(),
        same_elements(fisher_yates(s, t, i), s),
        forall|k: int| i < k < s.len() ==> #[trigger] fisher_yates(s, t, i)[k] == s[k],
    decreases i,
{
    if i >= 1 {
        let s1 = s.update(i, s[t[i] as int]).update(t[i] as int, s[i]);
        assert(t[i] <= i);
        lemma_swap_same_elements(s, i, t[i] as int);
        lemma_fisher_yates_rearranges(s1, t, i - 1);
    }
}

/// Shuffles the first `n` entries of `p` with the given swap targets:
/// for `i` from `n - 1` down to 1, entry `i` is swapped with entry
/// `targets[i]`.
pub fn apply_swaps(p: Vec<i32>, n: usize, targets: &Vec<usize>) -> (r: Vec<i32>)
    requires
        1 <= n <= p@.len(),
        valid_targets(targets@, n as int),
    ensures
        r@ == fisher_yates(p@, targets@, n - 1),
{
    let mut p = p;
    let ghost p0 = p@;
    let mut i: usize = n - 1;
    while i >= 1
        invariant
            i < n <= p@.len(),
            valid_targets(targets@, n as int),
            fisher_yates(p@, targets@, i as int) == fisher_yates(p0, targets@, n - 1),
        decreases i,
    {
        let target = targets[i];
        assert(targets@[i as int] <= i);
        let swp = p[i];
        let other = p[target];
        p.set(i, other);
        p.set(target, swp);
        i = i - 1;
    }
    p
}

/// Perlin noise lattice: 256 gradients and three permutation tables that
/// pick, for every integer lattice point, one of the gradients.
pub struct Perlin<V> {
    randvec: Vec<V>,
    perm_x: Vec<i32>,
    perm_y: Vec<i32>,
    perm_z: Vec<i32>,
}

impl<V> Perlin<V> {
    #[verifier::type_invariant]
    spec fn well_formed(self) -> bool {
        &&& self.randvec@.len() == PERLIN_POINT_COUNT
        &&& is_perm_table(self.perm_x@)
        &&& is_perm_table(self.perm_y@)
        &&& is_perm_table(self.perm_z@)
    }

    /// The gradients, indexed by lattice hash.
    pub closed spec fn gradients(&self) -> Seq<V> {
        self.randvec@
    }

    /// The permutation table for the x coordinate.
    pub closed spec fn table_x(&self) -> Seq<i32> {
        self.perm_x@
    }

    /// The permutation table for the y coordinate.
    pub closed spec fn table_y(&self) -> Seq<i32> {
        self.perm_y@
    }

    /// The permutation table for the z coordinate.
    pub closed spec fn table_z(&self) -> Seq<i32> {
        self.perm_z@
    }
}

impl<V: Copy> Perlin<V> {
    /// Builds the lattice from the given gradients, with three freshly
    /// shuffled permutation tables.
    pub fn new(randvec: Vec<V>) -> (r: Self)
        requires
            randvec@.len() == PERLIN_POINT_COUNT,
        ensures
            r.gradients() == randvec@,
            is_perm_table(r.table_x()),
            is_perm_table(r.table_y()),
            is_perm_table(r.table_z()),
            is_shuffle_of(r.table_x(), identity_seq(PERLIN_POINT_COUNT as nat), PERLIN_POINT_COUNT as int),
            is_shuffle_of(r.table_y(), identity_seq(PERLIN_POINT_COUNT as nat), PERLIN_POINT_COUNT as int),
            is_shuffle_of(r.table_z(), identity_seq(PERLIN_POINT_COUNT as nat), PERLIN_POINT_COUNT as int),
    {
        let perm_x = Self::generate_perm();
        let perm_y = Self::generate_perm();
        let perm_z = Self::generate_perm();
        Perlin { randvec, perm_x, perm_y, perm_z }
    }

    /// A random rearrangement of `0, 1, ..., 255`.
    pub fn generate_perm() -> (p: Vec<i32>)
        ensures
            is_perm_table(p@),
            is_shuffle_of(p@, identity_seq(PERLIN_POINT_COUNT as nat), PERLIN_POINT_COUNT as int),
    {
        let mut p: Vec<i32> = Vec::new();
        let mut i: usize = 0;
        while i < PERLIN_POINT_COUNT
            invariant
                i <= PERLIN_POINT_COUNT,
                p@ =~= identity_seq(i as nat),
            decreases PERLIN_POINT_COUNT - i,
        {
            p.push(i as i32);
            i = i + 1;
        }
        Self::random_permutation(p, PERLIN_POINT_COUNT)
    }

    /// Shuffles the first `n` entries of `p` (Fisher-Yates, from the back),
    /// drawing the swap target of each position `i` from `0..=i`; the
    /// entries from `n` on stay where they are.
    pub fn random_permutation(p: Vec<i32>, n: usize) -> (r: Vec<i32>)
        requires
            1 <= n <= p@.len(),
            n - 1 <= i32::MAX,
        ensures
            r@.len() == p@.len(),
            same_elements(r@, p@),
            forall|k: int| n <= k < p@.len() ==> r@[k] == p@[k],
            is_shuffle_of(r@, p@, n as int),
    {
        let mut targets: Vec<usize> = Vec::new();
        let mut k: usize = 0;
        while k < n
            invariant
                k <= n,
                targets@.len() == k,
                forall|j: int| 0 <= j < k ==> #[trigger] targets@[j] == 0,
            decreases n - k,
        {
            targets.push(0);
            k = k + 1;
        }
        let mut i: usize = n - 1;
        while i >= 1
            invariant
                i < n,
                n - 1 <= i32::MAX,
                valid_targets(targets@, n as int),
            decreases i,
        {
            let target = rand_range_int(0, i as i32) as usize;
            targets.set(i, target);
            i = i - 1;
        }
        let ghost t = targets@;
        let r = apply_swaps(p, n, &targets);
        proof {
            lemma_fisher_yates_rearranges(p@, t, n - 1);
        }
        r
    }

    /// The gradient at lattice point `(x, y, z)`.
    fn gradient(&self, x: i32, y: i32, z: i32) -> (g: V)
        ensures
            0 <= lattice_hash(self.table_x(), self.table_y(), self.table_z(), x, y, z) < PERLIN_POINT_COUNT,
            g == self.gradients()[lattice_hash(self.table_x(), self.table_y(), self.table_z(), x, y, z)],
    {
        proof {
            use_type_invariant(self);
        }
        proof {
            lemma_lattice_hash_in_range(self.perm_x@, self.perm_y@, self.perm_z@, x, y, z);
        }
        let sx = x & 255;
        let sy = y & 255;
        let sz = z & 255;
        let h = self.perm_x[sx as usize] ^ self.perm_y[sy as usize] ^ self.perm_z[sz as usize];
        self.randvec[h as usize]
    }

    /// The gradients at the eight corners of the lattice cell whose lowest
    /// corner is `(i, j, k)`: entry `[di][dj][dk]` belongs to the corner
    /// `(i + di, j + dj, k + dk)`.
    pub fn lattice_corners(&self, i: i32, j: i32, k: i32) -> (c: Vec<Vec<Vec<V>>>)
        requires
            i < i32::MAX,
            j < i32::MAX,
            k < i32::MAX,
        ensures
            c@.len() == 2,
            forall|di: int| 0 <= di < 2 ==> #[trigger] c@[di]@.len() == 2,
            forall|di: int, dj: int| 0 <= di < 2 && 0 <= dj < 2 ==> #[trigger] c@[di]@[dj]@.len() == 2,
            forall|di: int, dj: int, dk: int|
                0 <= di < 2 && 0 <= dj < 2 && 0 <= dk < 2 ==> #[trigger] c@[di]@[dj]@[dk]
                    == self.gradients()[lattice_hash(
                    self.table_x(),
                    self.table_y(),
                    self.table_z(),
                    (i + di) as i32,
                    (j + dj) as i32,
                    (k + dk) as i32,
                )],
    {
        let g000 = self.gradient(i, j, k);
        let g001 = self.gradient(i, j, k + 1);
        let g010 = self.gradient(i, j + 1, k);
        let g011 = self.gradient(i, j + 1, k + 1);
        let g100 = self.gradient(i + 1, j, k);
        let g101 = self.gradient(i + 1, j, k + 1);
        let g110 = self.gradient(i + 1, j + 1, k);
        let g111 = self.gradient(i + 1, j + 1, k + 1);
        let c0 = vec![vec![g000, g001], vec![g010, g011]];
        let c1 = vec![vec![g100, g101], vec![g110, g111]];
        let c = vec![c0, c1];
        assert forall|di: int, dj: int, dk: int|
            0 <= di < 2 && 0 <= dj < 2 && 0 <= dk < 2 implies #[trigger] c@[di]@[dj]@[dk]
                == self.gradients()[lattice_hash(
                self.table_x(),
                self.table_y(),
                self.table_z(),
                (i + di) as i32,
                (j + dj) as i32,
                (k + dk) as i32,
            )] by {
            if di == 0 {
                if dj == 0 {
                    if dk == 0 {
                    } else {
                    }
                } else {
                    if dk == 0 {
                    } else {
                    }
                }
            } else {
                if dj == 0 {
                    if dk == 0 {
                    } else {
                    }
                } else {
                    if dk == 0 {
                    } else {
                    }
                }
            }
        }
        c
    }
}

} // verus!
