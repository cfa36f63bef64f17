//! Topology of subdivided meshes: which vertices each triangle uses, and which
//! two vertices each new vertex lies between.
use vstd::prelude::*;
use std::collections::HashMap;
use vstd::arithmetic::power::pow;

verus! {

broadcast use vstd::std_specs::hash::group_hash_axioms;

/// The two ends of an edge, smaller index first.
pub open spec fn edge(a: u32, b: u32) -> (u32, u32) {
    if a <= b { (a, b) } else { (b, a) }
}

/// The cache key of an edge.
pub open spec fn edge_key(e: (u32, u32)) -> u64 {
    (e.1 as int * 4294967296 + e.0 as int) as u64
}

proof fn lemma_edge_key_injective(e1: (u32, u32), e2: (u32, u32))
    ensures
        edge_key(e1) == edge_key(e2) ==> e1 == e2,
{
}

/// Position of the first occurrence of edge `e` in `mids`, if any.
pub open spec fn find_edge(mids: Seq<(u32, u32)>, e: (u32, u32)) -> Option<nat>
    decreases mids.len(),
{
    if mids.len() == 0 {
        None
    } else {
        match find_edge(mids.drop_last(), e) {
            Some(j) => Some(j),
            None => if mids.last() == e {
                Some((mids.len() - 1) as nat)
            } else {
                None
            },
        }
    }
}

/// What asking for the midpoint of `a` and `b` does to the split edges `mids` of a
/// mesh of `base` vertices: an edge split before gives its vertex back and changes
/// nothing; a new edge is appended and gets the next vertex.
pub open spec fn spec_middle(base: nat, mids: Seq<(u32, u32)>, a: u32, b: u32) -> (Seq<(u32, u32)>, u32) {
    match find_edge(mids, edge(a, b)) {
        Some(j) => (mids, (base + j) as u32),
        None => (mids.push(edge(a, b)), (base + mids.len()) as u32),
    }
}

proof fn lemma_find_edge(mids: Seq<(u32, u32)>, e: (u32, u32))
    ensures
        match find_edge(mids, e) {
            Some(j) => j < mids.len() && mids[j as int] == e,
            None => !mids.contains(e),
        },
    decreases mids.len(),
{
    if mids.len() > 0 {
        lemma_find_edge(mids.drop_last(), e);
        if find_edge(mids.drop_last(), e) is None && mids.last() != e {
            assert forall|j: int| 0 <= j < mids.len() implies mids[j] != e by {
                if j < mids.len() - 1 {
                    assert(mids.drop_last()[j] == mids[j]);
                }
            }
        }
    }
}

proof fn lemma_find_edge_at(mids: Seq<(u32, u32)>, j: int)
    requires
        0 <= j < mids.len(),
        forall|j1: int, j2: int| 0 <= j1 < j2 < mids.len() ==> mids[j1] != mids[j2],
    ensures
        find_edge(mids, mids[j]) == Some(j as nat),
{
    lemma_find_edge(mids, mids[j]);
    match find_edge(mids, mids[j]) {
        Some(k) => {
            assert(mids[k as int] == mids[j]);
        },
        None => {
            assert(mids.contains(mids[j]));
        },
    }
}

/// Vertices added by subdivision, each the midpoint of an edge. Vertex
/// `base + j` lies between the two vertices of `mids[j]`.
pub struct Subdivision {
    base: u32,
    mids: Vec<(u32, u32)>,
    cache: HashMap<u64, u32>,
}

impl Subdivision {
    /// Number of vertices before any subdivision.
    pub closed spec fn base(&self) -> nat {
        self.base as nat
    }

    /// The edges whose midpoints were added, in the order the vertices were added.
    pub closed spec fn mids(&self) -> Seq<(u32, u32)> {
        self.mids@
    }

    /// Total number of vertices.
    pub open spec fn spec_vertex_count(&self) -> nat {
        self.base() + self.mids().len()
    }

    /// Vertex `i` is the midpoint of the edge between `a` and `b`.
    pub open spec fn is_mid(&self, i: u32, a: u32, b: u32) -> bool {
        &&& self.base() <= i < self.spec_vertex_count()
        &&& self.mids()[i - self.base()] == edge(a, b)
    }

    /// Every new vertex lies between two earlier vertices, and no edge is split twice.
    pub open spec fn parents_ok(&self) -> bool {
        &&& self.spec_vertex_count() <= u32::MAX
        &&& forall|j: int| 0 <= j < self.mids().len() ==> {
            let e = #[trigger] self.mids()[j];
            e.0 <= e.1 && e.1 < self.base() + j
        }
        &&& forall|j1: int, j2: int|
            0 <= j1 < j2 < self.mids().len() ==> self.mids()[j1] != self.mids()[j2]
    }

    /// The cache maps exactly the split edges to their midpoints.
    pub closed spec fn wf(&self) -> bool {
        &&& self.parents_ok()
        &&& forall|j: int| 0 <= j < self.mids@.len() ==> {
            let k = edge_key(#[trigger] self.mids@[j]);
            &&& self.cache@.contains_key(k)
            &&& self.cache@[k] == self.base + j
        }
        &&& forall|k: u64| #[trigger] self.cache@.contains_key(k) ==> {
            let i = self.cache@[k];
            &&& self.base <= i < self.base + self.mids@.len()
            &&& edge_key(self.mids@[i - self.base]) == k
        }
    }

    /// No vertex added yet to a mesh of `base` vertices.
    pub fn new(base: u32) -> (s: Subdivision)
        ensures
            s.wf(),
            s.base() == base,
            s.mids().len() == 0,
    {
        Subdivision { base, mids: Vec::new(), cache: HashMap::new() }
    }

    /// Total number of vertices.
    pub fn vertex_count(&self) -> (n: u32)
        requires
            self.wf(),
        ensures
            n == self.spec_vertex_count(),
    {
        self.base + self.mids.len() as u32
    }

    /// The edges split so far, in the order their midpoints were added.
    pub fn midpoints(&self) -> (m: &Vec<(u32, u32)>)
        ensures
            m@ == self.mids(),
    {
        &self.mids
    }

    /// The midpoint of the edge between `a` and `b`: the vertex added for it
    /// before, or a new vertex appended now.
    pub fn middle(&mut self, a: u32, b: u32) -> (i: u32)
        requires
            old(self).wf(),
            a < old(self).spec_vertex_count(),
            b < old(self).spec_vertex_count(),
            old(self).spec_vertex_count() < u32::MAX,
        ensures
            final(self).wf(),
            final(self).base() == old(self).base(),
            old(self).mids().len() <= final(self).mids().len() <= old(self).mids().len() + 1,
            old(self).mids() == final(self).mids().take(old(self).mids().len() as int),
            final(self).is_mid(i, a, b),
            (final(self).mids(), i) == spec_middle(old(self).base(), old(self).mids(), a, b),
            old(self).mids().contains(edge(a, b)) ==> final(self).mids() == old(self).mids(),
            !old(self).mids().contains(edge(a, b)) ==> final(self).mids() == old(self).mids().push(edge(a, b))
                && i == old(self).spec_vertex_count(),
    {
        let less = if a <= b { a } else { b };
        let more = if a <= b { b } else { a };
        let key: u64 = (more as u64) * 4294967296 + (less as u64);
        assert(key == edge_key(edge(a, b)));
        match self.cache.get(&key) {
            Some(v) => {
                let i = *v;
                proof {
                    lemma_edge_key_injective(self.mids@[i - self.base], edge(a, b));
                    lemma_find_edge_at(self.mids@, i - self.base);
                    assert(self.mids@.contains(edge(a, b)));
                }
                assert(self.mids@.take(self.mids@.len() as int) =~= self.mids@);
                i
            },
            None => {
                let i: u32 = self.base + self.mids.len() as u32;
                let ghost old_mids = self.mids@;
                proof {
                    assert forall|j: int| 0 <= j < old_mids.len() implies old_mids[j] != edge(a, b) by {
                        assert(self.cache@.contains_key(edge_key(old_mids[j])));
                    }
                    lemma_find_edge(old_mids, edge(a, b));
                }
                self.mids.push((less, more));
                self.cache.insert(key, i);
                assert(self.mids@.take(old_mids.len() as int) =~= old_mids);
                assert forall|k: u64| #[trigger] self.cache@.contains_key(k) implies ({
                    let v = self.cache@[k];
                    &&& self.base <= v < self.base + self.mids@.len()
                    &&& edge_key(self.mids@[v - self.base]) == k
                }) by {
                    if k != key {
                        assert(old(self).cache@.contains_key(k));
                    }
                }
                assert forall|j: int| 0 <= j < self.mids@.len() implies ({
                    let k = edge_key(#[trigger] self.mids@[j]);
                    &&& self.cache@.contains_key(k)
                    &&& self.cache@[k] == self.base + j
                }) by {
                    if j < old_mids.len() {
                        lemma_edge_key_injective(old_mids[j], edge(a, b));
                    }
                }
                i
            },
        }
    }
}

/// Triangle `t` of `out` is the `t`-th triangle `(x, y, z)` split into four: the
/// three corner triangles `x a c`, `y b a`, `z c b` and the middle one `a b c`,
/// where `a`, `b`, `c` are the midpoints of `xy`, `yz` and `zx`.
pub open spec fn split_triangle(s: &Subdivision, out: Seq<u32>, t: int, x: u32, y: u32, z: u32) -> bool {
    let o = 12 * t;
    let a = out[o + 1];
    let c = out[o + 2];
    let b = out[o + 4];
    &&& out[o] == x
    &&& out[o + 3] == y
    &&& out[o + 5] == a
    &&& out[o + 6] == z
    &&& out[o + 7] == c
    &&& out[o + 8] == b
    &&& out[o + 9] == a
    &&& out[o + 10] == b
    &&& out[o + 11] == c
    &&& s.is_mid(a, x, y)
    &&& s.is_mid(b, y, z)
    &&& s.is_mid(c, z, x)
}

/// `s2` only added vertices to `s1`.
pub open spec fn extends(s1: &Subdivision, s2: &Subdivision) -> bool {
    &&& s2.base() == s1.base()
    &&& s1.mids().len() <= s2.mids().len()
    &&& s1.mids() == s2.mids().take(s1.mids().len() as int)
}

/// Once a vertex is a midpoint it stays one.
pub proof fn lemma_mid_stays(s1: &Subdivision, s2: &Subdivision, i: u32, a: u32, b: u32)
    requires
        extends(s1, s2),
        s1.is_mid(i, a, b),
    ensures
        s2.is_mid(i, a, b),
{
    assert(s2.mids().take(s1.mids().len() as int)[i - s1.base()] == s2.mids()[i - s1.base()]);
}

proof fn lemma_extends_trans(s1: &Subdivision, s2: &Subdivision, s3: &Subdivision)
    requires
        extends(s1, s2),
        extends(s2, s3),
    ensures
        extends(s1, s3),
{
    assert(s1.mids() =~= s3.mids().take(s1.mids().len() as int)) by {
        assert(s2.mids() =~= s3.mids().take(s2.mids().len() as int));
    }
}

proof fn lemma_splits_stay(s0: &Subdivision, s: &Subdivision, out0: Seq<u32>, out: Seq<u32>, t: int, indices: Seq<u32>)
    requires
        extends(s0, s),
        out0.len() == 12 * t,
        out0.len() <= out.len(),
        out0 == out.take(out0.len() as int),
        forall|u: int| 0 <= u < t ==> #[trigger] split_triangle(
            s0,
            out0,
            u,
            indices[3 * u],
            indices[3 * u + 1],
            indices[3 * u + 2],
        ),
    ensures
        forall|u: int| 0 <= u < t ==> #[trigger] split_triangle(
            s,
            out,
            u,
            indices[3 * u],
            indices[3 * u + 1],
            indices[3 * u + 2],
        ),
{
    assert forall|u: int| 0 <= u < t implies #[trigger] split_triangle(
        s,
        out,
        u,
        indices[3 * u],
        indices[3 * u + 1],
        indices[3 * u + 2],
    ) by {
        assert(split_triangle(s0, out0, u, indices[3 * u], indices[3 * u + 1], indices[3 * u + 2]));
        let o = 12 * u;
        assert forall|k: int| o <= k < o + 12 implies out[k] == out0[k] by {
            assert(out.take(out0.len() as int)[k] == out[k]);
        }
        lemma_mid_stays(s0, s, out0[o + 1], indices[3 * u], indices[3 * u + 1]);
        lemma_mid_stays(s0, s, out0[o + 4], indices[3 * u + 1], indices[3 * u + 2]);
        lemma_mid_stays(s0, s, out0[o + 2], indices[3 * u + 2], indices[3 * u]);
    }
}

/// Splitting triangle `(x, y, z)`: the midpoints `a`, `b`, `c` of `xy`, `yz`, `zx`
/// are asked for in that order, and the four triangles `x a c`, `y b a`, `z c b`,
/// `a b c` come out.
pub open spec fn spec_split_one(base: nat, mids: Seq<(u32, u32)>, x: u32, y: u32, z: u32) -> (Seq<(u32, u32)>, Seq<u32>) {
    let (m1, a) = spec_middle(base, mids, x, y);
    let (m2, b) = spec_middle(base, m1, y, z);
    let (m3, c) = spec_middle(base, m2, z, x);
    (m3, seq![x, a, c, y, b, a, z, c, b, a, b, c])
}

/// The split edges and the output indices after splitting the first `t`
/// triangles of `indices` in order.
pub open spec fn spec_subdivide(base: nat, mids: Seq<(u32, u32)>, indices: Seq<u32>, t: nat) -> (Seq<(u32, u32)>, Seq<u32>)
    decreases t,
{
    if t == 0 {
        (mids, Seq::empty())
    } else {
        let (m, out) = spec_subdivide(base, mids, indices, (t - 1) as nat);
        let u = 3 * (t - 1);
        let (m2, four) = spec_split_one(base, m, indices[u], indices[u + 1], indices[u + 2]);
        (m2, out + four)
    }
}

/// The split edges and the output indices after `level` rounds of splitting all
/// the triangles of `indices`.
pub open spec fn spec_levels(base: nat, mids: Seq<(u32, u32)>, indices: Seq<u32>, level: nat) -> (Seq<(u32, u32)>, Seq<u32>)
    decreases level,
{
    if level == 0 {
        (mids, indices)
    } else {
        let (m, out) = spec_subdivide(base, mids, indices, indices.len() / 3);
        spec_levels(base, m, out, (level - 1) as nat)
    }
}

/// No edge occurs twice in `m`.
pub open spec fn distinct_edges(m: Seq<(u32, u32)>) -> bool {
    forall|j1: int, j2: int| 0 <= j1 < j2 < m.len() ==> m[j1] != m[j2]
}

/// Side `k` (0, 1 or 2: `xy`, `yz`, `zx`) of triangle `u` of `indices`.
pub open spec fn tri_edge(indices: Seq<u32>, u: int, k: int) -> (u32, u32) {
    let x = indices[3 * u];
    let y = indices[3 * u + 1];
    let z = indices[3 * u + 2];
    if k == 0 {
        edge(x, y)
    } else if k == 1 {
        edge(y, z)
    } else {
        edge(z, x)
    }
}

proof fn lemma_middle_step(base: nat, m: Seq<(u32, u32)>, a: u32, b: u32)
    requires
        distinct_edges(m),
    ensures
        spec_middle(base, m, a, b).0 == if m.contains(edge(a, b)) { m } else { m.push(edge(a, b)) },
        distinct_edges(spec_middle(base, m, a, b).0),
        spec_middle(base, m, a, b).0.contains(edge(a, b)),
{
    lemma_find_edge(m, edge(a, b));
    match find_edge(m, edge(a, b)) {
        Some(j) => {
            assert(m.contains(edge(a, b)));
        },
        None => {
            let m2 = m.push(edge(a, b));
            assert(m2[m.len() as int] == edge(a, b));
            assert forall|j1: int, j2: int| 0 <= j1 < j2 < m2.len() implies m2[j1] != m2[j2] by {
                if j2 == m.len() {
                    assert(m2[j1] == m[j1]);
                    if m[j1] == edge(a, b) {
                        assert(m.contains(edge(a, b)));
                    }
                }
            }
        },
    }
}

/// A round of splitting the first `t` triangles of `indices`, starting from the
/// split edges `mids` (no edge twice), keeps `mids` as they are, appends each side
/// of those triangles that was not split yet, once, and appends nothing else.
pub proof fn law_subdivide_splits_each_missing_edge_once(base: nat, mids: Seq<(u32, u32)>, indices: Seq<u32>, t: nat)
    requires
        distinct_edges(mids),
        3 * t <= indices.len(),
    ensures
        ({
            let m = spec_subdivide(base, mids, indices, t).0;
            &&& mids.len() <= m.len()
            &&& m.take(mids.len() as int) == mids
            &&& distinct_edges(m)
            &&& forall|u: int, k: int| 0 <= u < t && 0 <= k < 3 ==> m.contains(#[trigger] tri_edge(indices, u, k))
            &&& forall|j: int| mids.len() <= j < m.len() ==> exists|u: int, k: int|
                0 <= u < t && 0 <= k < 3 && #[trigger] m[j] == tri_edge(indices, u, k)
        }),
    decreases t,
{
    if t == 0 {
        assert(mids.take(mids.len() as int) =~= mids);
    } else {
        law_subdivide_splits_each_missing_edge_once(base, mids, indices, (t - 1) as nat);
        let m = spec_subdivide(base, mids, indices, (t - 1) as nat).0;
        let u0 = 3 * (t - 1);
        let x = indices[u0];
        let y = indices[u0 + 1];
        let z = indices[u0 + 2];
        lemma_middle_step(base, m, x, y);
        let m1 = spec_middle(base, m, x, y).0;
        lemma_middle_step(base, m1, y, z);
        let m2 = spec_middle(base, m1, y, z).0;
        lemma_middle_step(base, m2, z, x);
        let m3 = spec_middle(base, m2, z, x).0;
        assert(m3 == spec_subdivide(base, mids, indices, t).0);
        // m is a prefix of m3
        assert(m.len() <= m3.len());
        assert forall|j: int| 0 <= j < m.len() implies m3[j] == m[j] by {
            assert(m1[j] == m[j]);
            assert(m2[j] == m1[j]);
            assert(m3[j] == m2[j]);
        }
        assert(m3.take(mids.len() as int) =~= mids) by {
            assert forall|j: int| 0 <= j < mids.len() implies m3[j] == mids[j] by {
                assert(m.take(mids.len() as int)[j] == m[j]);
            }
        }
        assert(tri_edge(indices, (t - 1) as int, 0) == edge(x, y));
        assert(tri_edge(indices, (t - 1) as int, 1) == edge(y, z));
        assert(tri_edge(indices, (t - 1) as int, 2) == edge(z, x));
        // sides of the earlier triangles stay split
        assert forall|u: int, k: int| 0 <= u < t && 0 <= k < 3 implies m3.contains(#[trigger] tri_edge(indices, u, k)) by {
            if u < t - 1 {
                assert(m.contains(tri_edge(indices, u, k)));
                let j = choose|j: int| 0 <= j < m.len() && m[j] == tri_edge(indices, u, k);
                assert(m3[j] == m[j]);
            } else if k == 0 {
                let j = choose|j: int| 0 <= j < m1.len() && m1[j] == edge(x, y);
                assert(m2[j] == m1[j]);
                assert(m3[j] == m2[j]);
            } else if k == 1 {
                let j = choose|j: int| 0 <= j < m2.len() && m2[j] == edge(y, z);
                assert(m3[j] == m2[j]);
            }
        }
        // what is appended comes from a side
        assert forall|j: int| mids.len() <= j < m3.len() implies exists|u: int, k: int|
            0 <= u < t && 0 <= k < 3 && #[trigger] m3[j] == tri_edge(indices, u, k) by {
            if j < m.len() {
                assert(m3[j] == m[j]);
                let (u, k) = choose|u: int, k: int| 0 <= u < t - 1 && 0 <= k < 3 && #[trigger] m[j] == tri_edge(indices, u, k);
                assert(m3[j] == tri_edge(indices, u, k));
            } else if j < m1.len() {
                assert(m1[j] == edge(x, y));
                assert(m2[j] == m1[j]);
                assert(m3[j] == tri_edge(indices, (t - 1) as int, 0));
            } else if j < m2.len() {
                assert(m2[j] == edge(y, z));
                assert(m3[j] == tri_edge(indices, (t - 1) as int, 1));
            } else {
                assert(m3[j] == tri_edge(indices, (t - 1) as int, 2));
            }
        }
    }
}

impl Subdivision {
    /// Split every triangle of `indices` (taken three at a time; a trailing partial
    /// triangle is ignored) into four, adding the edge midpoints that are missing.
    #[verifier::rlimit(40)]
    pub fn subdivide(&mut self, indices: &Vec<u32>) -> (out: Vec<u32>)
        requires
            old(self).wf(),
            forall|i: int| 0 <= i < indices.len() ==> indices@[i] < old(self).spec_vertex_count(),
            old(self).spec_vertex_count() + (indices.len() / 3) * 3 < u32::MAX,
        ensures
            final(self).wf(),
            extends(old(self), final(self)),
            final(self).spec_vertex_count() <= old(self).spec_vertex_count() + (indices.len() / 3) * 3,
            out.len() == (indices.len() / 3) * 12,
            forall|t: int| 0 <= t < indices.len() / 3 ==> #[trigger] split_triangle(
                final(self),
                out@,
                t,
                indices@[3 * t],
                indices@[3 * t + 1],
                indices@[3 * t + 2],
            ),
            forall|i: int| 0 <= i < out.len() ==> out@[i] < final(self).spec_vertex_count(),
            (final(self).mids(), out@) == spec_subdivide(old(self).base(), old(self).mids(), indices@, (indices.len() / 3) as nat),
    {
        let n = indices.len() / 3;
        let mut out: Vec<u32> = Vec::new();
        let mut t: usize = 0;
        assert(self.mids() =~= self.mids().take(self.mids().len() as int));
        while t < n
            invariant
                n == indices.len() / 3,
                t <= n,
                self.wf(),
                extends(old(self), self),
                forall|i: int| 0 <= i < indices.len() ==> indices@[i] < old(self).spec_vertex_count(),
                old(self).spec_vertex_count() + n * 3 < u32::MAX,
                self.spec_vertex_count() <= old(self).spec_vertex_count() + t * 3,
                out.len() == t * 12,
                forall|u: int| 0 <= u < t ==> #[trigger] split_triangle(
                    self,
                    out@,
                    u,
                    indices@[3 * u],
                    indices@[3 * u + 1],
                    indices@[3 * u + 2],
                ),
                forall|i: int| 0 <= i < out.len() ==> out@[i] < self.spec_vertex_count(),
                (self.mids(), out@) == spec_subdivide(old(self).base(), old(self).mids(), indices@, t as nat),
            decreases n - t,
        {
            let x = indices[3 * t];
            let y = indices[3 * t + 1];
            let z = indices[3 * t + 2];
            let ghost s0 = *self;
            let a = self.middle(x, y);
            let ghost s1 = *self;
            let b = self.middle(y, z);
            let ghost s2 = *self;
            let c = self.middle(z, x);
            let ghost out0 = out@;
            out.push(x);
            out.push(a);
            out.push(c);
            out.push(y);
            out.push(b);
            out.push(a);
            out.push(z);
            out.push(c);
            out.push(b);
            out.push(a);
            out.push(b);
            out.push(c);
            proof {
                lemma_extends_trans(&s0, &s1, &s2);
                lemma_extends_trans(&s0, &s2, self);
                lemma_extends_trans(old(self), &s0, self);
                lemma_extends_trans(&s1, &s2, self);
                lemma_mid_stays(&s1, self, a, x, y);
                lemma_mid_stays(&s2, self, b, y, z);
                assert(out@ =~= out0 + seq![x, a, c, y, b, a, z, c, b, a, b, c]);
                assert(out0 =~= out@.take(out0.len() as int));
                lemma_splits_stay(&s0, self, out0, out@, t as int, indices@);
                assert(split_triangle(self, out@, t as int, x, y, z));
                assert(out@ =~= spec_subdivide(old(self).base(), old(self).mids(), indices@, (t + 1) as nat).1);
            }
            t = t + 1;
        }
        out
    }
}

/// Index count after splitting `len` indices `level` times.
pub open spec fn split_len(len: nat, level: nat) -> nat
    decreases level,
{
    if level == 0 {
        len
    } else {
        split_len((len / 3) * 12, (level - 1) as nat)
    }
}

/// Splitting `len` indices `level` times, starting from `count` vertices, keeps
/// every vertex index below `u32::MAX` (each triangle adds at most three vertices).
pub open spec fn room(count: nat, len: nat, level: nat) -> bool
    decreases level,
{
    level == 0 || (count + (len / 3) * 3 < u32::MAX && room(
        count + (len / 3) * 3,
        (len / 3) * 12,
        (level - 1) as nat,
    ))
}

proof fn lemma_room_smaller(c1: nat, c2: nat, len: nat, level: nat)
    requires
        room(c2, len, level),
        c1 <= c2,
    ensures
        room(c1, len, level),
    decreases level,
{
    if level > 0 {
        lemma_room_smaller(c1 + (len / 3) * 3, c2 + (len / 3) * 3, (len / 3) * 12, (level - 1) as nat);
    }
}

/// Whether `level` rounds of splitting fit, as [`room`] states.
pub fn room_for(count: u32, len: u64, level: usize) -> (b: bool)
    ensures
        b == room(count as nat, len as nat, level as nat),
    decreases level,
{
    if level == 0 {
        return true;
    }
    let tris: u64 = (len / 3) as u64;
    if tris >= 4294967295 || (count as u64) + tris * 3 >= 4294967295 {
        return false;
    }
    room_for(count + (tris * 3) as u32, tris * 12, level - 1)
}

impl Subdivision {
    /// Split the triangles of `indices` `level` times over.
    pub fn subdivide_levels(&mut self, indices: Vec<u32>, level: usize) -> (out: Vec<u32>)
        requires
            old(self).wf(),
            forall|i: int| 0 <= i < indices.len() ==> indices@[i] < old(self).spec_vertex_count(),
            room(old(self).spec_vertex_count(), indices.len() as nat, level as nat),
        ensures
            final(self).wf(),
            extends(old(self), final(self)),
            out.len() == split_len(indices.len() as nat, level as nat),
            forall|i: int| 0 <= i < out.len() ==> out@[i] < final(self).spec_vertex_count(),
            (final(self).mids(), out@) == spec_levels(old(self).base(), old(self).mids(), indices@, level as nat),
        decreases level,
    {
        if level == 0 {
            assert(self.mids() =~= self.mids().take(self.mids().len() as int));
            return indices;
        }
        let ghost s0 = *self;
        let next = self.subdivide(&indices);
        proof {
            lemma_room_smaller(
                self.spec_vertex_count(),
                (s0.spec_vertex_count() + (indices.len() / 3) * 3) as nat,
                ((indices.len() / 3) * 12) as nat,
                (level - 1) as nat,
            );
        }
        let ghost s1 = *self;
        let out = self.subdivide_levels(next, level - 1);
        proof {
            lemma_extends_trans(&s0, &s1, self);
        }
        out
    }
}

/// The twenty faces of the icosahedron, three corner indices each.
pub open spec fn icosahedron() -> Seq<u32> {
    seq![
        0u32, 11, 5, 0, 5, 1, 0, 1, 7, 0, 7, 10, 0, 10, 11, 1, 5, 9, 5, 11, 4, 11, 10, 2, 10, 7,
        6, 7, 1, 8, 3, 9, 4, 3, 4, 2, 3, 2, 6, 3, 6, 8, 3, 8, 9, 4, 9, 5, 2, 4, 11, 6, 2, 10,
        8, 6, 7, 9, 8, 1,
    ]
}

/// The twenty faces of the icosahedron that spheres are subdivided from, as
/// indices into its twelve corners.
pub fn icosahedron_faces() -> (v: Vec<u32>)
    ensures
        v@ == icosahedron(),
        v.len() == 60,
        forall|i: int| 0 <= i < 60 ==> v@[i] < 12,
{
    let v: Vec<u32> = vec![
        0, 11, 5, 0, 5, 1, 0, 1, 7, 0, 7, 10, 0, 10, 11, 1, 5, 9, 5, 11, 4, 11, 10, 2, 10, 7,
        6, 7, 1, 8, 3, 9, 4, 3, 4, 2, 3, 2, 6, 3, 6, 8, 3, 8, 9, 4, 9, 5, 2, 4, 11, 6, 2, 10,
        8, 6, 7, 9, 8, 1,
    ];
    v
}

/// Asking for the midpoint of `a` and `b` is the same as asking for that of `b`
/// and `a`, in every state: the same vertex, and the same split edges after.
pub proof fn law_middle_symmetric(base: nat, mids: Seq<(u32, u32)>, a: u32, b: u32)
    ensures
        spec_middle(base, mids, a, b) == spec_middle(base, mids, b, a),
{
    assert(edge(a, b) == edge(b, a));
}

proof fn lemma_subdivide_len(base: nat, mids: Seq<(u32, u32)>, indices: Seq<u32>, t: nat)
    ensures
        spec_subdivide(base, mids, indices, t).1.len() == 12 * t,
    decreases t,
{
    if t > 0 {
        lemma_subdivide_len(base, mids, indices, (t - 1) as nat);
    }
}

proof fn lemma_levels_len(base: nat, mids: Seq<(u32, u32)>, indices: Seq<u32>, level: nat)
    ensures
        spec_levels(base, mids, indices, level).1.len() == split_len(indices.len(), level),
    decreases level,
{
    if level > 0 {
        let (m, out) = spec_subdivide(base, mids, indices, indices.len() / 3);
        lemma_subdivide_len(base, mids, indices, indices.len() / 3);
        lemma_levels_len(base, m, out, (level - 1) as nat);
    }
}

proof fn lemma_split_len_faces(faces: nat, level: nat)
    ensures
        split_len(3 * faces, level) == 3 * faces * pow(4, level),
    decreases level,
{
    if level > 0 {
        assert((3 * faces) / 3 == faces);
        assert((3 * faces / 3) * 12 == 3 * (4 * faces));
        lemma_split_len_faces(4 * faces, (level - 1) as nat);
        assert(pow(4, level) == 4 * pow(4, (level - 1) as nat)) by {
            reveal(pow);
        }
        let p = pow(4, (level - 1) as nat);
        assert(3 * (4 * faces) * p == 3 * faces * (4 * p)) by (nonlinear_arith);
    } else {
        assert(pow(4, 0) == 1) by {
            reveal(pow);
        }
    }
}

/// A sphere of `level` subdivisions has `20 * 4^level` faces: its index list,
/// three indices a face, is `60 * 4^level` long.
pub proof fn law_sphere_faces(base: nat, mids: Seq<(u32, u32)>, level: nat)
    ensures
        spec_levels(base, mids, icosahedron(), level).1.len() == 60 * pow(4, level),
{
    lemma_levels_len(base, mids, icosahedron(), level);
    lemma_split_len_faces(20, level);
}

/// The sides of the triangles of `indices`, three per triangle, in order.
pub open spec fn sides(indices: Seq<u32>) -> Seq<(u32, u32)> {
    Seq::new((indices.len() / 3) * 3, |i: int| tri_edge(indices, i / 3, i % 3))
}

/// How often `e` occurs in `s`.
pub open spec fn occurrences(s: Seq<(u32, u32)>, e: (u32, u32)) -> nat
    decreases s.len(),
{
    if s.len() == 0 {
        0
    } else {
        occurrences(s.drop_last(), e) + if s.last() == e { 1nat } else { 0nat }
    }
}

spec fn without(s: Seq<(u32, u32)>, e: (u32, u32)) -> Seq<(u32, u32)>
    decreases s.len(),
{
    if s.len() == 0 {
        s
    } else if s.last() == e {
        without(s.drop_last(), e)
    } else {
        without(s.drop_last(), e).push(s.last())
    }
}

proof fn lemma_occurs(s: Seq<(u32, u32)>, f: (u32, u32))
    ensures
        occurrences(s, f) > 0 <==> s.contains(f),
    decreases s.len(),
{
    if s.len() > 0 {
        lemma_occurs(s.drop_last(), f);
        if s.drop_last().contains(f) {
            let j = choose|j: int| 0 <= j < s.drop_last().len() && s.drop_last()[j] == f;
            assert(s[j] == f);
        }
        if s.contains(f) && s.last() != f {
            let j = choose|j: int| 0 <= j < s.len() && s[j] == f;
            assert(s.drop_last()[j] == f);
            assert(s.drop_last().contains(f));
        }
        if s.last() == f {
            assert(s[s.len() - 1] == f);
        }
    }
}

proof fn lemma_without_counts(s: Seq<(u32, u32)>, e: (u32, u32))
    ensures
        without(s, e).len() + occurrences(s, e) == s.len(),
        occurrences(without(s, e), e) == 0,
        forall|f: (u32, u32)| f != e ==> #[trigger] occurrences(without(s, e), f) == occurrences(s, f),
    decreases s.len(),
{
    if s.len() > 0 {
        let r = without(s.drop_last(), e);
        lemma_without_counts(s.drop_last(), e);
        if s.last() != e {
            assert(r.push(s.last()).drop_last() =~= r);
        }
        assert forall|f: (u32, u32)| f != e implies #[trigger] occurrences(without(s, e), f) == occurrences(s, f) by {
            assert(occurrences(r, f) == occurrences(s.drop_last(), f));
            if s.last() != e {
                assert(without(s, e) == r.push(s.last()));
                assert(without(s, e).drop_last() =~= r);
                assert(without(s, e).last() == s.last());
            }
        }
    }
}

proof fn lemma_without(s: Seq<(u32, u32)>, e: (u32, u32))
    ensures
        without(s, e).len() + occurrences(s, e) == s.len(),
        forall|f: (u32, u32)| #[trigger] without(s, e).contains(f) <==> (s.contains(f) && f != e),
        forall|f: (u32, u32)| f != e ==> #[trigger] occurrences(without(s, e), f) == occurrences(s, f),
{
    lemma_without_counts(s, e);
    assert forall|f: (u32, u32)| #[trigger] without(s, e).contains(f) <==> (s.contains(f) && f != e) by {
        lemma_occurs(s, f);
        lemma_occurs(without(s, e), f);
    }
}

/// A list without repeats that holds exactly the values of a list in which each
/// value occurs twice is half as long.
proof fn lemma_each_twice(distinct: Seq<(u32, u32)>, s: Seq<(u32, u32)>)
    requires
        distinct_edges(distinct),
        forall|f: (u32, u32)| #[trigger] distinct.contains(f) <==> s.contains(f),
        forall|f: (u32, u32)| #[trigger] s.contains(f) ==> occurrences(s, f) == 2,
    ensures
        2 * distinct.len() == s.len(),
    decreases distinct.len(),
{
    if distinct.len() == 0 {
        if s.len() > 0 {
            assert(s.contains(s[0]));
            assert(distinct.contains(s[0]));
            assert(false);
        }
    } else {
        let e = distinct.last();
        let rest = distinct.drop_last();
        assert(distinct.contains(e)) by {
            assert(distinct[distinct.len() - 1] == e);
        }
        lemma_without(s, e);
        let s2 = without(s, e);
        assert(s.contains(e));
        assert(occurrences(s, e) == 2);
        assert(s2.len() + 2 == s.len());
        assert forall|f: (u32, u32)| #[trigger] rest.contains(f) <==> s2.contains(f) by {
            if rest.contains(f) {
                let j = choose|j: int| 0 <= j < rest.len() && rest[j] == f;
                assert(distinct[j] == f);
                assert(distinct.contains(f));
            }
            if s2.contains(f) {
                assert(distinct.contains(f));
                let j = choose|j: int| 0 <= j < distinct.len() && distinct[j] == f;
                assert(j != distinct.len() - 1);
                assert(rest[j] == f);
            }
        }
        assert forall|f: (u32, u32)| #[trigger] s2.contains(f) implies occurrences(s2, f) == 2 by {
            assert(s.contains(f) && f != e);
        }
        lemma_each_twice(rest, s2);
        assert(2 * rest.len() == s2.len());
        assert(distinct.len() == rest.len() + 1);
    }
}

/// A round of splitting adds one vertex per edge of the mesh when every side of
/// its triangles is shared by exactly two triangles (a closed surface) and none of
/// its edges was split before: `3F / 2` vertices for `F` triangles.
pub proof fn law_round_adds_one_vertex_per_edge(base: nat, mids: Seq<(u32, u32)>, indices: Seq<u32>)
    requires
        distinct_edges(mids),
        indices.len() % 3 == 0,
        forall|e: (u32, u32)| #[trigger] sides(indices).contains(e) ==> occurrences(sides(indices), e) == 2,
        forall|e: (u32, u32)| #[trigger] sides(indices).contains(e) ==> !mids.contains(e),
    ensures
        2 * spec_subdivide(base, mids, indices, indices.len() / 3).0.len() == 2 * mids.len() + indices.len(),
{
    let t = (indices.len() / 3) as nat;
    law_subdivide_splits_each_missing_edge_once(base, mids, indices, t);
    let m = spec_subdivide(base, mids, indices, t).0;
    let fresh = m.skip(mids.len() as int);
    let sd = sides(indices);
    assert(distinct_edges(fresh)) by {
        assert forall|j1: int, j2: int| 0 <= j1 < j2 < fresh.len() implies fresh[j1] != fresh[j2] by {
            assert(fresh[j1] == m[j1 + mids.len()]);
            assert(fresh[j2] == m[j2 + mids.len()]);
        }
    }
    assert forall|f: (u32, u32)| #[trigger] fresh.contains(f) <==> sd.contains(f) by {
        if fresh.contains(f) {
            let j = choose|j: int| 0 <= j < fresh.len() && fresh[j] == f;
            assert(m[j + mids.len()] == f);
            let (u, k) = choose|u: int, k: int| 0 <= u < t && 0 <= k < 3 && #[trigger] m[j + mids.len()] == tri_edge(indices, u, k);
            assert((3 * u + k) / 3 == u && (3 * u + k) % 3 == k);
            assert(sd[3 * u + k] == f);
        }
        if sd.contains(f) {
            let i = choose|i: int| 0 <= i < sd.len() && sd[i] == f;
            let u = i / 3;
            let k = i % 3;
            assert(sd[i] == tri_edge(indices, u, k));
            assert(m.contains(tri_edge(indices, u, k)));
            let j = choose|j: int| 0 <= j < m.len() && m[j] == f;
            if j < mids.len() {
                assert(m.take(mids.len() as int)[j] == m[j]);
                assert(mids.contains(f));
            }
            assert(fresh[j - mids.len()] == f);
        }
    }
    lemma_each_twice(fresh, sd);
    assert(sd.len() == indices.len());
}

} // verus!
