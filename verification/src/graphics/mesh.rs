use vstd::prelude::*;

use crate::graphics::vertex::Vertex;
use vstd::set_lib::lemma_len_subset;
use vstd::set_lib::lemma_len_union;

verus! {

broadcast use vstd::seq_lib::group_seq_properties;

/// How a mesh's index list groups into primitives.
#[derive(Clone, Copy, Debug, PartialEq, Eq, Structural)]
pub enum PrimitiveType {
    Points,
    LinesList,
    LineStrip,
    TrianglesList,
    TriangleStrip,
    TriangleFan,
}

/// Why two meshes could not be combined. The rejected operands travel back to
/// the caller inside the error, so a failed combination consumes nothing and
/// the caller may retry against another mesh or discard them.
#[derive(Debug)]
pub enum MeshCombinationError {
    IncompatiblePrimitives(Mesh, Mesh),
}

/// An indexed-geometry container: an ordered vertex list, an index list whose
/// entries address the vertex list, and a primitive topology tag.
///
/// The GPU-side buffers that mirror this data live with the rendering
/// adapter, which rebuilds them whenever the vertex or index list changes;
/// the core keeps only the arrays themselves correct.
#[derive(Debug)]
pub struct Mesh {
    pub vertices: Vec<Vertex>,
    pub indices: Vec<u32>,
    pub primitive: PrimitiveType,
}

/// The mesh invariant over raw parts: every index addresses an existing
/// vertex, and a triangle list is made of whole triangles.
pub open spec fn valid_mesh_data(
    vertices: Seq<Vertex>,
    indices: Seq<u32>,
    primitive: PrimitiveType,
) -> bool {
    &&& forall|k: int| 0 <= k < indices.len() ==> (#[trigger] indices[k]) < vertices.len()
    &&& primitive == PrimitiveType::TrianglesList ==> indices.len() % 3 == 0
}

impl Mesh {
    /// The mesh invariant.
    pub open spec fn wf(self) -> bool {
        valid_mesh_data(self.vertices@, self.indices@, self.primitive)
    }

    /// The vertices the mesh's indices address, in index order.
    pub open spec fn addressed(self) -> Seq<Vertex> {
        self.indices@.map_values(|i: u32| self.vertices@[i as int])
    }
}

/// The position of the first vertex of `s` equal to `v`, or `s.len()` when
/// `s` does not contain `v`.
pub open spec fn first_position(s: Seq<Vertex>, v: Vertex) -> int
    decreases s.len(),
{
    if s.len() == 0 {
        0
    } else if s.first() == v {
        0
    } else {
        1 + first_position(s.drop_first(), v)
    }
}

/// The deduplicated vertex list of a traversal `t`: each distinct vertex of
/// `t` exactly once, in order of first occurrence.
pub open spec fn dedup_vertices(t: Seq<Vertex>) -> Seq<Vertex>
    decreases t.len(),
{
    if t.len() == 0 {
        Seq::empty()
    } else {
        let prefix = dedup_vertices(t.drop_last());
        if prefix.contains(t.last()) {
            prefix
        } else {
            prefix.push(t.last())
        }
    }
}

/// The remapped index list of a traversal `t`: entry `k` is the position that
/// the vertex `t[k]` occupies in the deduplicated vertex list.
pub open spec fn dedup_indices(t: Seq<Vertex>) -> Seq<u32>
    decreases t.len(),
{
    if t.len() == 0 {
        Seq::empty()
    } else {
        dedup_indices(t.drop_last()).push(
            first_position(dedup_vertices(t.drop_last()), t.last()) as u32,
        )
    }
}

/// `first_position` is characterised by what it says: it is in bounds and
/// finds `v` exactly when `s` contains `v`, and nothing before it equals `v`.
pub proof fn lemma_first_position_bounds(s: Seq<Vertex>, v: Vertex)
    ensures
        s.contains(v) ==> 0 <= first_position(s, v) < s.len() && s[first_position(s, v)] == v,
        !s.contains(v) ==> first_position(s, v) == s.len(),
    decreases s.len(),
{
    if s.len() > 0 && s.first() != v {
        lemma_first_position_bounds(s.drop_first(), v);
        assert(s.contains(v) ==> s.drop_first().contains(v)) by {
            if s.contains(v) {
                let i = choose|i: int| 0 <= i < s.len() && s[i] == v;
                assert(s.drop_first()[i - 1] == v);
            }
        }
        assert(s.drop_first().contains(v) ==> s.contains(v)) by {
            if s.drop_first().contains(v) {
                let i = choose|i: int| 0 <= i < s.drop_first().len() && s.drop_first()[i] == v;
                assert(s[i + 1] == v);
            }
        }
    }
}

/// A scan that rejects everything before `j` and accepts at `j` (or ran off
/// the end) has found `first_position`.
pub proof fn lemma_first_position_char(s: Seq<Vertex>, v: Vertex, j: int)
    requires
        0 <= j <= s.len(),
        forall|k: int| 0 <= k < j ==> s[k] != v,
        j < s.len() ==> s[j] == v,
    ensures
        first_position(s, v) == j,
        j < s.len() ==> s.contains(v),
        j == s.len() ==> !s.contains(v),
    decreases s.len(),
{
    if s.len() == 0 {
    } else if s.first() == v {
        assert(j == 0);
    } else {
        assert(forall|k: int| 0 <= k < j - 1 ==> s.drop_first()[k] == s[k + 1] && s[k + 1] != v);
        lemma_first_position_char(s.drop_first(), v, j - 1);
        if j == s.len() {
            assert(!s.contains(v)) by {
                if s.contains(v) {
                    let i = choose|i: int| 0 <= i < s.len() && s[i] == v;
                }
            }
        } else {
            assert(s.contains(v));
        }
    }
}

/// Deduplication keeps exactly the distinct vertices of the traversal: the
/// output has no duplicates, is never longer than the traversal, and contains
/// a vertex exactly when the traversal does.
pub proof fn lemma_dedup_elements(t: Seq<Vertex>)
    ensures
        dedup_vertices(t).no_duplicates(),
        forall|x: Vertex| dedup_vertices(t).contains(x) <==> t.contains(x),
        dedup_vertices(t).len() <= t.len(),
    decreases t.len(),
{
    if t.len() == 0 {
    } else {
        let prefix = t.drop_last();
        let last = t.last();
        lemma_dedup_elements(prefix);
        let d = dedup_vertices(t);
        let dp = dedup_vertices(prefix);
        assert(t =~= prefix.push(last));
        assert(forall|x: Vertex| t.contains(x) <==> (prefix.contains(x) || x == last));
        if dp.contains(last) {
            assert(forall|x: Vertex| d.contains(x) <==> t.contains(x));
        } else {
            assert(d == dp.push(last));
            assert(forall|x: Vertex| d.contains(x) <==> t.contains(x));
            assert forall|i: int, j: int| 0 <= i < j < d.len() implies d[i] != d[j] by {
                if j < dp.len() {
                    assert(dp[i] != dp[j]);
                } else {
                    assert(d[j] == last);
                    if d[i] == last {
                        assert(dp[i] == last);
                        assert(dp.contains(last));
                    }
                }
            }
        }
    }
}

/// The remapped indices are exactly as long as the traversal and every one of
/// them addresses a vertex of the deduplicated list.
pub proof fn lemma_dedup_indices_valid(t: Seq<Vertex>)
    ensures
        dedup_indices(t).len() == t.len(),
        forall|k: int|
            0 <= k < t.len() ==> (#[trigger] dedup_indices(t)[k]) < dedup_vertices(t).len(),
    decreases t.len(),
{
    if t.len() > 0 {
        let prefix = t.drop_last();
        let last = t.last();
        lemma_dedup_indices_valid(prefix);
        lemma_first_position_bounds(dedup_vertices(prefix), last);
        lemma_dedup_elements(prefix);
        assert(dedup_vertices(prefix).len() <= dedup_vertices(t).len());
        assert forall|k: int|
            0 <= k < t.len() implies (#[trigger] dedup_indices(t)[k])
            < dedup_vertices(t).len() by {
            if k < t.len() - 1 {
                assert(dedup_indices(t)[k] == dedup_indices(prefix)[k]);
            }
        }
    }
}

/// The deduplicated vertex list is never longer than the two operand vertex
/// lists together: every entry is a distinct vertex drawn from one of them.
pub proof fn lemma_combined_vertex_bound(a: Mesh, b: Mesh)
    requires
        a.wf(),
        b.wf(),
    ensures
        dedup_vertices(a.addressed() + b.addressed()).len() <= a.vertices@.len()
            + b.vertices@.len(),
{
    broadcast use vstd::seq_lib::seq_to_set_is_finite;
    broadcast use vstd::set_lib::group_set_properties;

    let t = a.addressed() + b.addressed();
    let d = dedup_vertices(t);
    lemma_dedup_elements(t);
    d.unique_seq_to_set();
    let avs = a.vertices@.to_set();
    let bvs = b.vertices@.to_set();
    assert forall|x: Vertex| d.to_set().contains(x) implies avs.union(bvs).contains(x) by {
        assert(t.contains(x));
        let i = choose|i: int| 0 <= i < t.len() && t[i] == x;
        if i < a.addressed().len() {
            assert(a.addressed()[i] == x);
            assert(a.vertices@[a.indices@[i] as int] == x);
            assert(a.vertices@.contains(x));
        } else {
            let j = i - a.addressed().len();
            assert(b.addressed()[j] == x);
            assert(b.vertices@[b.indices@[j] as int] == x);
            assert(b.vertices@.contains(x));
        }
    }
    lemma_len_subset(d.to_set(), avs.union(bvs));
    lemma_len_union(avs, bvs);
    a.vertices@.lemma_cardinality_of_set();
    b.vertices@.lemma_cardinality_of_set();
}

/// Finds the position of the first vertex of `vertices` equal to `v`, or the
/// list length when no vertex matches.
fn scan_first(vertices: &Vec<Vertex>, v: Vertex) -> (j: usize)
    ensures
        j == first_position(vertices@, v),
        j <= vertices@.len(),
        j < vertices@.len() ==> vertices@.contains(v),
        j == vertices@.len() ==> !vertices@.contains(v),
{
    let mut j: usize = 0;
    while j < vertices.len()
        invariant
            j <= vertices@.len(),
            forall|k: int| 0 <= k < j ==> vertices@[k] != v,
        decreases vertices@.len() - j,
    {
        if vertices[j] == v {
            proof {
                lemma_first_position_char(vertices@, v, j as int);
            }
            return j;
        }
        j = j + 1;
    }
    proof {
        lemma_first_position_char(vertices@, v, j as int);
    }
    j
}

/// Processes one traversal entry: appends the position of the first output
/// vertex equal to `v` to the output indices, appending `v` itself first when
/// it is new.
fn push_dedup(
    vertices: &mut Vec<Vertex>,
    indices: &mut Vec<u32>,
    v: Vertex,
    Ghost(prefix): Ghost<Seq<Vertex>>,
)
    requires
        old(vertices)@ == dedup_vertices(prefix),
        old(indices)@ == dedup_indices(prefix),
        old(vertices)@.len() < u32::MAX,
    ensures
        final(vertices)@ == dedup_vertices(prefix.push(v)),
        final(indices)@ == dedup_indices(prefix.push(v)),
        final(indices)@.len() == old(indices)@.len() + 1,
        old(vertices)@.len() <= final(vertices)@.len() <= old(vertices)@.len() + 1,
{
    proof {
        assert(prefix.push(v).drop_last() =~= prefix);
        assert(prefix.push(v).last() == v);
    }
    let j = scan_first(vertices, v);
    if j < vertices.len() {
        indices.push(j as u32);
    } else {
        indices.push(j as u32);
        vertices.push(v);
    }
}

impl Mesh {
    /// Builds a mesh after checking the invariant: `Some` exactly when every
    /// index addresses a vertex and a triangle list has whole triangles.
    pub fn new(vertices: Vec<Vertex>, indices: Vec<u32>, primitive: PrimitiveType) -> (r: Option<
        Mesh,
    >)
        ensures
            r is Some <==> valid_mesh_data(vertices@, indices@, primitive),
            r matches Some(m) ==> m.vertices@ == vertices@ && m.indices@ == indices@
                && m.primitive == primitive && m.wf(),
    {
        let mut k: usize = 0;
        while k < indices.len()
            invariant
                k <= indices@.len(),
                forall|q: int| 0 <= q < k ==> (#[trigger] indices@[q]) < vertices@.len(),
            decreases indices@.len() - k,
        {
            if indices[k] as usize >= vertices.len() {
                return None;
            }
            k = k + 1;
        }
        if primitive == PrimitiveType::TrianglesList && indices.len() % 3 != 0 {
            return None;
        }
        Some(Mesh { vertices, indices, primitive })
    }

    /// Reports whether the mesh invariant holds, so that unverified hosts can
    /// test it before calling operations that rely on it.
    pub fn is_well_formed(&self) -> (b: bool)
        ensures
            b == self.wf(),
    {
        let mut k: usize = 0;
        while k < self.indices.len()
            invariant
                k <= self.indices@.len(),
                forall|q: int| 0 <= q < k ==> (#[trigger] self.indices@[q]) < self.vertices@.len(),
            decreases self.indices@.len() - k,
        {
            if self.indices[k] as usize >= self.vertices.len() {
                return false;
            }
            k = k + 1;
        }
        if matches!(self.primitive, PrimitiveType::TrianglesList) && self.indices.len() % 3 != 0 {
            return false;
        }
        true
    }

    /// Merges two meshes that share a primitive topology into one mesh with a
    /// deduplicated vertex list: the traversal walks the vertices addressed
    /// by this mesh's indices and then those addressed by `other`'s, keeps
    /// the first occurrence of each distinct vertex, and remaps every index
    /// to the kept occurrence. Meshes of differing topology are rejected and
    /// handed back unchanged inside the error.
    #[verifier::rlimit(50)]
    pub fn combine_with(self, other: Mesh) -> (r: Result<Mesh, MeshCombinationError>)
        requires
            self.wf(),
            other.wf(),
            self.indices@.len() + other.indices@.len() <= u32::MAX,
        ensures
            r is Ok <==> self.primitive == other.primitive,
            (r matches Ok(m) ==> {
                &&& m.primitive == self.primitive
                &&& m.vertices@ == dedup_vertices(self.addressed() + other.addressed())
                &&& m.indices@ == dedup_indices(self.addressed() + other.addressed())
                &&& m.wf()
                &&& m.vertices@.len() <= self.vertices@.len() + other.vertices@.len()
            }),
            (r matches Err(e) ==> (e matches MeshCombinationError::IncompatiblePrimitives(a, b)
                && a == self && b == other)),
    {
        if self.primitive != other.primitive {
            return Err(MeshCombinationError::IncompatiblePrimitives(self, other));
        }
        let ghost t = self.addressed() + other.addressed();
        let mut vertices: Vec<Vertex> = Vec::new();
        let mut indices: Vec<u32> = Vec::new();
        proof {
            assert(t.take(0) =~= Seq::<Vertex>::empty());
        }
        let mut k: usize = 0;
        while k < self.indices.len()
            invariant
                self.wf(),
                other.wf(),
                k <= self.indices@.len(),
                t == self.addressed() + other.addressed(),
                self.indices@.len() + other.indices@.len() <= u32::MAX,
                vertices@ == dedup_vertices(t.take(k as int)),
                indices@ == dedup_indices(t.take(k as int)),
                indices@.len() == k,
                vertices@.len() <= k,
            decreases self.indices@.len() - k,
        {
            let idx = self.indices[k];
            let v = self.vertices[idx as usize];
            proof {
                assert(t[k as int] == self.addressed()[k as int]);
                assert(self.addressed()[k as int] == self.vertices@[
                    self.indices@[k as int] as int
                ]);
                assert(t.take(k as int).push(v) =~= t.take((k + 1) as int));
            }
            push_dedup(&mut vertices, &mut indices, v, Ghost(t.take(k as int)));
            k = k + 1;
        }
        let ghost off = self.indices@.len() as int;
        let mut k2: usize = 0;
        while k2 < other.indices.len()
            invariant
                self.wf(),
                other.wf(),
                k2 <= other.indices@.len(),
                t == self.addressed() + other.addressed(),
                off == self.indices@.len() as int,
                self.indices@.len() + other.indices@.len() <= u32::MAX,
                vertices@ == dedup_vertices(t.take(off + k2)),
                indices@ == dedup_indices(t.take(off + k2)),
                indices@.len() == off + k2,
                vertices@.len() <= off + k2,
            decreases other.indices@.len() - k2,
        {
            let idx = other.indices[k2];
            let v = other.vertices[idx as usize];
            proof {
                assert(t[off + k2] == other.addressed()[k2 as int]);
                assert(other.addressed()[k2 as int] == other.vertices@[
                    other.indices@[k2 as int] as int
                ]);
                assert(t.take(off + k2).push(v) =~= t.take(off + k2 + 1));
            }
            push_dedup(&mut vertices, &mut indices, v, Ghost(t.take(off + k2)));
            k2 = k2 + 1;
        }
        proof {
            assert(t.take(off + other.indices@.len() as int) =~= t);
            lemma_dedup_indices_valid(t);
            lemma_combined_vertex_bound(self, other);
        }
        Ok(Mesh { vertices, indices, primitive: self.primitive })
    }
}

/// Inclusion-exclusion for finite sets: union and intersection cardinalities
/// together count each element exactly twice.
proof fn lemma_union_cardinality(x: Set<Vertex>, y: Set<Vertex>)
    requires
        x.finite(),
        y.finite(),
    ensures
        x.union(y).len() + x.intersect(y).len() == x.len() + y.len(),
    decreases x.len(),
{
    broadcast use vstd::set_lib::group_set_properties;

    if x.len() == 0 {
        x.lemma_len0_is_empty();
        assert(x.union(y) =~= y);
        assert(x.intersect(y) =~= Set::<Vertex>::empty());
    } else {
        let e = x.choose();
        assert(x.contains(e));
        let xr = x.remove(e);
        lemma_union_cardinality(xr, y);
        if y.contains(e) {
            assert(xr.union(y) =~= x.union(y));
            assert(x.intersect(y) =~= xr.intersect(y).insert(e));
            assert(!xr.intersect(y).contains(e));
        } else {
            assert(x.union(y) =~= xr.union(y).insert(e));
            assert(!xr.union(y).contains(e));
            assert(x.intersect(y) =~= xr.intersect(y));
        }
    }
}

/// When every vertex of each operand is addressed by its own indices, the
/// combined vertex list reaches the summed length exactly when nothing
/// collapses: neither operand's vertex list repeats a vertex and no vertex of
/// one operand equals a vertex of the other.
pub proof fn lemma_combined_vertex_bound_tight(a: Mesh, b: Mesh)
    requires
        a.wf(),
        b.wf(),
        forall|k: int|
            0 <= k < a.vertices@.len() ==> a.addressed().contains(#[trigger] a.vertices@[k]),
        forall|k: int|
            0 <= k < b.vertices@.len() ==> b.addressed().contains(#[trigger] b.vertices@[k]),
    ensures
        dedup_vertices(a.addressed() + b.addressed()).len() == a.vertices@.len()
            + b.vertices@.len() <==> (a.vertices@.no_duplicates() && b.vertices@.no_duplicates()
            && a.vertices@.to_set().disjoint(b.vertices@.to_set())),
{
    broadcast use vstd::seq_lib::seq_to_set_is_finite;
    broadcast use vstd::set_lib::group_set_properties;

    let t = a.addressed() + b.addressed();
    let d = dedup_vertices(t);
    let avs = a.vertices@.to_set();
    let bvs = b.vertices@.to_set();
    lemma_dedup_elements(t);
    d.unique_seq_to_set();
    assert(d.to_set() =~= t.to_set());
    assert forall|x: Vertex| t.to_set().contains(x) implies avs.union(bvs).contains(x) by {
        assert(t.contains(x));
        let i = choose|i: int| 0 <= i < t.len() && t[i] == x;
        if i < a.addressed().len() {
            assert(a.addressed()[i] == x);
            assert(a.vertices@[a.indices@[i] as int] == x);
            assert(a.vertices@.contains(x));
        } else {
            let j = i - a.addressed().len();
            assert(b.addressed()[j] == x);
            assert(b.vertices@[b.indices@[j] as int] == x);
            assert(b.vertices@.contains(x));
        }
    }
    assert forall|x: Vertex| avs.union(bvs).contains(x) implies t.to_set().contains(x) by {
        if avs.contains(x) {
            let k = choose|k: int| 0 <= k < a.vertices@.len() && a.vertices@[k] == x;
            assert(a.addressed().contains(a.vertices@[k]));
        } else {
            assert(bvs.contains(x));
            let k = choose|k: int| 0 <= k < b.vertices@.len() && b.vertices@[k] == x;
            assert(b.addressed().contains(b.vertices@[k]));
        }
        assert(t.contains(x));
    }
    assert(t.to_set() =~= avs.union(bvs));
    lemma_union_cardinality(avs, bvs);
    a.vertices@.lemma_cardinality_of_set();
    b.vertices@.lemma_cardinality_of_set();
    let la = a.vertices@.len();
    let lb = b.vertices@.len();

    if a.vertices@.no_duplicates() && b.vertices@.no_duplicates() && avs.disjoint(bvs) {
        a.vertices@.unique_seq_to_set();
        b.vertices@.unique_seq_to_set();
        assert(avs.intersect(bvs) =~= Set::<Vertex>::empty());
        assert(d.len() == la + lb);
    }
    if d.len() == la + lb {
        assert(avs.union(bvs).len() + avs.intersect(bvs).len() == avs.len() + bvs.len());
        assert(avs.len() == la && bvs.len() == lb && avs.intersect(bvs).len() == 0);
        a.vertices@.lemma_no_dup_set_cardinality();
        b.vertices@.lemma_no_dup_set_cardinality();
        avs.intersect(bvs).lemma_len0_is_empty();
        assert(avs.disjoint(bvs)) by {
            assert forall|x: Vertex| avs.contains(x) implies !bvs.contains(x) by {
                if bvs.contains(x) {
                    assert(avs.intersect(bvs).contains(x));
                }
            }
        }
    }
}

/// Combination determinism: the combined vertex and index lists are a
/// function of the two operands alone, so combining the same operands twice
/// yields identical sequences.
pub proof fn lemma_combination_deterministic(a: Mesh, b: Mesh, m1: Mesh, m2: Mesh)
    requires
        m1.vertices@ == dedup_vertices(a.addressed() + b.addressed()),
        m1.indices@ == dedup_indices(a.addressed() + b.addressed()),
        m2.vertices@ == dedup_vertices(a.addressed() + b.addressed()),
        m2.indices@ == dedup_indices(a.addressed() + b.addressed()),
    ensures
        m1.vertices@ == m2.vertices@,
        m1.indices@ == m2.indices@,
{
}

} // verus!
