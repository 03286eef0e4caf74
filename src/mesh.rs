use vstd::prelude::*;

use crate::error::MeshError;

verus! {

/// `tris` is the flat index list `flat` read three at a time.
pub open spec fn grouped(tris: Seq<[usize; 3]>, flat: Seq<usize>) -> bool {
    &&& tris.len() * 3 == flat.len()
    &&& forall|k: int, j: int|
        0 <= k < tris.len() && 0 <= j < 3 ==> #[trigger] tris[k][j] == flat[3 * k + j]
}

/// Partitions a flat list of vertex indices into consecutive triples.
pub fn to_tris(verts: Vec<usize>) -> (tris: Vec<[usize; 3]>)
    requires
        verts.len() % 3 == 0,
    ensures
        grouped(tris@, verts@),
{
    let mut tris: Vec<[usize; 3]> = Vec::new();
    let mut i: usize = 0;
    while i < verts.len()
        invariant
            i % 3 == 0,
            i <= verts.len(),
            verts.len() % 3 == 0,
            grouped(tris@, verts@.take(i as int)),
        decreases verts.len() - i,
    {
        let t = [verts[i], verts[i + 1], verts[i + 2]];
        tris.push(t);
        i += 3;
    }
    assert(verts@.take(verts.len() as int) =~= verts@);
    tris
}

/// A triangle mesh: a vertex buffer and triangles given as triples of
/// indices into it. Vertex positions are carried as they are.
#[derive(Clone, Debug)]
pub struct Mesh<V> {
    pub vertices: Vec<V>,
    pub tris: Vec<[usize; 3]>,
}

/// Every index in `s` is below `n`.
pub open spec fn all_below(s: Seq<usize>, n: int) -> bool {
    forall|i: int| 0 <= i < s.len() ==> #[trigger] s[i] < n
}

/// Every index of every triangle in `tris` is below `n`.
pub open spec fn indices_below(tris: Seq<[usize; 3]>, n: int) -> bool {
    forall|t: int, j: int| 0 <= t < tris.len() && 0 <= j < 3 ==> #[trigger] tris[t][j] < n
}

/// `shifted` is `tris` with every index raised by `offset`.
pub open spec fn offset_by(shifted: Seq<[usize; 3]>, tris: Seq<[usize; 3]>, offset: int) -> bool {
    &&& shifted.len() == tris.len()
    &&& forall|t: int, j: int|
        0 <= t < tris.len() && 0 <= j < 3 ==> #[trigger] shifted[t][j] == tris[t][j] + offset
}

/// The positions of the corners of each triangle, in triangle order.
pub open spec fn corner_positions<V>(vertices: Seq<V>, tris: Seq<[usize; 3]>) -> Seq<[V; 3]> {
    Seq::new(
        tris.len(),
        |t: int|
            [
                vertices[tris[t][0] as int],
                vertices[tris[t][1] as int],
                vertices[tris[t][2] as int],
            ],
    )
}

impl<V: Copy> Mesh<V> {
    /// The triangles refer only to vertices that exist.
    pub open spec fn wf(&self) -> bool {
        indices_below(self.tris@, self.vertices@.len() as int)
    }

    /// The corners of every triangle, in triangle order.
    pub open spec fn corners(&self) -> Seq<[V; 3]> {
        corner_positions(self.vertices@, self.tris@)
    }

    /// Builds a mesh from a vertex list and a flat list of indices read three
    /// at a time.
    pub fn new(vertices: Vec<V>, triangles: Vec<usize>) -> (r: Result<Self, MeshError>)
        ensures
            triangles@.len() % 3 != 0 ==> r == Err::<Self, MeshError>(MeshError::IndexCountError),
            triangles@.len() % 3 == 0 && !all_below(triangles@, vertices@.len() as int)
                ==> r == Err::<Self, MeshError>(MeshError::IndexError),
            r is Ok <==> triangles@.len() % 3 == 0 && all_below(triangles@, vertices@.len() as int),
            r matches Ok(m) ==> m.wf() && m.vertices@ == vertices@ && grouped(m.tris@, triangles@),
    {
        if triangles.len() % 3 != 0 {
            return Err(MeshError::IndexCountError);
        }
        let n = vertices.len();
        let mut i: usize = 0;
        while i < triangles.len()
            invariant
                i <= triangles.len(),
                n == vertices@.len(),
                triangles@.len() % 3 == 0,
                forall|k: int| 0 <= k < i ==> triangles@[k] < n,
            decreases triangles.len() - i,
        {
            if triangles[i] >= n {
                return Err(MeshError::IndexError);
            }
            i += 1;
        }
        let tris = to_tris(triangles);
        let m = Mesh { vertices, tris };
        assert forall|t: int, j: int| 0 <= t < m.tris@.len() && 0 <= j < 3
            implies #[trigger] m.tris@[t][j] < n by {
            assert(m.tris@[t][j] == triangles@[3 * t + j]);
        }
        Ok(m)
    }

    /// A mesh with no vertices and no triangles.
    pub fn new_empty() -> (r: Self)
        ensures
            r.vertices@.len() == 0,
            r.tris@.len() == 0,
            r.wf(),
    {
        Mesh { vertices: Vec::new(), tris: Vec::new() }
    }

    /// Builds a mesh from triangles given by their corner positions: each
    /// triangle gets three fresh vertices of its own, and nothing is shared.
    pub fn from_facets(facets: Vec<[V; 3]>) -> (r: Self)
        requires
            3 * facets@.len() <= usize::MAX,
        ensures
            r.wf(),
            r.vertices@.len() == 3 * facets@.len(),
            r.tris@.len() == facets@.len(),
            forall|k: int|
                0 <= k < facets@.len() ==> #[trigger] r.tris@[k] == [
                    (3 * k) as usize,
                    (3 * k + 1) as usize,
                    (3 * k + 2) as usize,
                ],
            r.corners() == facets@,
    {
        let mut vertices: Vec<V> = Vec::new();
        let mut tris: Vec<[usize; 3]> = Vec::new();
        let mut n: usize = 0;
        let mut k: usize = 0;
        while k < facets.len()
            invariant
                3 * facets@.len() <= usize::MAX,
                k <= facets@.len(),
                n == 3 * k,
                vertices@.len() == n,
                tris@.len() == k,
                forall|i: int|
                    0 <= i < k ==> #[trigger] tris@[i] == [
                        (3 * i) as usize,
                        (3 * i + 1) as usize,
                        (3 * i + 2) as usize,
                    ],
                forall|i: int, j: int|
                    0 <= i < k && 0 <= j < 3 ==> vertices@[3 * i + j] == #[trigger] facets@[i][j],
            decreases facets@.len() - k,
        {
            let f = facets[k];
            vertices.push(f[0]);
            vertices.push(f[1]);
            vertices.push(f[2]);
            tris.push([n, n + 1, n + 2]);
            n += 3;
            k += 1;
        }
        let r = Mesh { vertices, tris };
        assert(r.corners() =~= facets@) by {
            assert forall|i: int| 0 <= i < facets@.len()
                implies #[trigger] r.corners()[i] == facets@[i] by {
                assert(r.corners()[i]@ =~= facets@[i]@);
            }
        }
        r
    }

    /// The corner positions of every triangle, in triangle order.
    pub fn facets(&self) -> (r: Vec<[V; 3]>)
        requires
            self.wf(),
        ensures
            r@ == self.corners(),
    {
        let mut r: Vec<[V; 3]> = Vec::new();
        let mut t: usize = 0;
        while t < self.tris.len()
            invariant
                self.wf(),
                t <= self.tris@.len(),
                r@ == self.corners().take(t as int),
            decreases self.tris@.len() - t,
        {
            let tri = self.tris[t];
            r.push([self.vertices[tri[0]], self.vertices[tri[1]], self.vertices[tri[2]]]);
            assert(r@ =~= self.corners().take(t + 1));
            t += 1;
        }
        assert(r@ =~= self.corners());
        r
    }

    /// Replaces every vertex `v` with `f(v)`; the triangles are untouched.
    pub fn map_vertices<F: Fn(V) -> V>(&mut self, f: F)
        requires
            forall|v: V| f.requires((v,)),
        ensures
            final(self).tris@ == old(self).tris@,
            final(self).vertices@.len() == old(self).vertices@.len(),
            forall|i: int|
                0 <= i < old(self).vertices@.len() ==> f.ensures(
                    (old(self).vertices@[i],),
                    #[trigger] final(self).vertices@[i],
                ),
    {
        let ghost before = self.vertices@;
        let mut i: usize = 0;
        while i < self.vertices.len()
            invariant
                forall|v: V| f.requires((v,)),
                self.tris@ == old(self).tris@,
                before == old(self).vertices@,
                self.vertices@.len() == before.len(),
                i <= before.len(),
                forall|k: int| 0 <= k < i ==> f.ensures((before[k],), #[trigger] self.vertices@[k]),
                forall|k: int| i <= k < before.len() ==> #[trigger] self.vertices@[k] == before[k],
            decreases before.len() - i,
        {
            let moved = f(self.vertices[i]);
            self.vertices.set(i, moved);
            i += 1;
        }
    }

    /// A copy of this mesh, vertex for vertex and triangle for triangle.
    fn snapshot(&self) -> (r: Self)
        ensures
            r.vertices@ == self.vertices@,
            r.tris@ == self.tris@,
    {
        Mesh { vertices: copy_all(&self.vertices), tris: copy_all(&self.tris) }
    }

    /// Adds a copy of this mesh: the mesh itself is moved by `shift` and a
    /// copy of it as it was before is merged in after it. The moved geometry
    /// takes the first vertex and triangle slots, the unmoved copy the rest.
    pub fn copy_to_point<F: Fn(V) -> V>(&mut self, shift: F)
        requires
            old(self).wf(),
            2 * old(self).vertices@.len() <= usize::MAX,
            forall|v: V| shift.requires((v,)),
        ensures
            final(self).wf(),
            final(self).vertices@.len() == 2 * old(self).vertices@.len(),
            forall|i: int|
                0 <= i < old(self).vertices@.len() ==> shift.ensures(
                    (old(self).vertices@[i],),
                    #[trigger] final(self).vertices@[i],
                ),
            final(self).vertices@.skip(old(self).vertices@.len() as int) == old(self).vertices@,
            final(self).tris@.len() == 2 * old(self).tris@.len(),
            final(self).tris@.take(old(self).tris@.len() as int) == old(self).tris@,
            offset_by(
                final(self).tris@.skip(old(self).tris@.len() as int),
                old(self).tris@,
                old(self).vertices@.len() as int,
            ),
    {
        let mut copied = self.snapshot();
        self.map_vertices(shift);
        self.merge(&mut copied);
        assert(self.vertices@.skip(old(self).vertices@.len() as int) =~= old(self).vertices@);
    }

    /// Whether every triangle refers only to vertices that exist.
    pub fn indices_valid(&self) -> (r: bool)
        ensures
            r == self.wf(),
    {
        let n = self.vertices.len();
        let mut t: usize = 0;
        while t < self.tris.len()
            invariant
                t <= self.tris@.len(),
                n == self.vertices@.len(),
                indices_below(self.tris@.take(t as int), n as int),
            decreases self.tris@.len() - t,
        {
            let tri = self.tris[t];
            if tri[0] >= n || tri[1] >= n || tri[2] >= n {
                assert(self.tris@[t as int] == tri);
                return false;
            }
            assert forall|i: int, j: int| 0 <= i < t + 1 && 0 <= j < 3
                implies #[trigger] self.tris@.take(t + 1)[i][j] < n by {
                if i < t {
                    assert(self.tris@.take(t + 1)[i] == self.tris@.take(t as int)[i]);
                }
            }
            t += 1;
        }
        assert(self.tris@.take(t as int) =~= self.tris@);
        true
    }

    /// The three corner positions of triangle `tri`.
    pub fn tri_coords(&self, tri: usize) -> (r: Vec<V>)
        requires
            self.wf(),
            tri < self.tris@.len(),
        ensures
            r@ == self.corners()[tri as int]@,
    {
        let t = self.tris[tri];
        let va = self.vertices[t[0]];
        let vb = self.vertices[t[1]];
        let vc = self.vertices[t[2]];
        let mut r: Vec<V> = Vec::new();
        r.push(va);
        r.push(vb);
        r.push(vc);
        assert(r@ =~= self.corners()[tri as int]@);
        r
    }

    /// Adds a triangle joining three existing vertices.
    pub fn triangle_from_verts(&mut self, x: usize, y: usize, z: usize) -> (r: Result<
        (),
        MeshError,
    >)
        requires
            old(self).wf(),
        ensures
            final(self).wf(),
            final(self).vertices@ == old(self).vertices@,
            r is Ok <==> x < old(self).vertices@.len() && y < old(self).vertices@.len()
                && z < old(self).vertices@.len(),
            r is Ok ==> final(self).tris@ == old(self).tris@.push([x, y, z]),
            r is Err ==> r == Err::<(), MeshError>(MeshError::IndexError) && final(self).tris@
                == old(self).tris@,
    {
        let n = self.vertices.len();
        if x >= n || y >= n || z >= n {
            return Err(MeshError::IndexError);
        }
        self.tris.push([x, y, z]);
        Ok(())
    }

    /// Moves the vertices and triangles of `other` into this mesh. The moved
    /// triangles have their indices raised by this mesh's former vertex
    /// count, so they join the same positions as before; `other` is left
    /// empty.
    pub fn merge(&mut self, other: &mut Mesh<V>)
        requires
            old(self).wf(),
            old(other).wf(),
            old(self).vertices@.len() + old(other).vertices@.len() <= usize::MAX,
        ensures
            final(self).wf(),
            final(self).vertices@ == old(self).vertices@ + old(other).vertices@,
            final(self).tris@.len() == old(self).tris@.len() + old(other).tris@.len(),
            final(self).tris@.take(old(self).tris@.len() as int) == old(self).tris@,
            offset_by(
                final(self).tris@.skip(old(self).tris@.len() as int),
                old(other).tris@,
                old(self).vertices@.len() as int,
            ),
            final(other).vertices@.len() == 0,
            final(other).tris@.len() == 0,
    {
        let vert_count = self.vertices.len();
        let ghost n_other = other.vertices@.len();
        let mut new_tris: Vec<[usize; 3]> = Vec::new();
        let mut i: usize = 0;
        while i < other.tris.len()
            invariant
                i <= other.tris@.len(),
                vert_count == self.vertices@.len(),
                vert_count + n_other <= usize::MAX,
                n_other == other.vertices@.len(),
                indices_below(other.tris@, n_other as int),
                offset_by(new_tris@, other.tris@.take(i as int), vert_count as int),
            decreases other.tris@.len() - i,
        {
            let t = other.tris[i];
            assert(t[0] < n_other && t[1] < n_other && t[2] < n_other) by {
                assert(t == other.tris@[i as int]);
            }
            new_tris.push([t[0] + vert_count, t[1] + vert_count, t[2] + vert_count]);
            i += 1;
        }
        assert(other.tris@.take(i as int) =~= other.tris@);
        let ghost old_tris = self.tris@;
        let ghost moved = new_tris@;
        self.vertices.append(&mut other.vertices);
        self.tris.append(&mut new_tris);
        other.tris.clear();
        assert(self.tris@.take(old_tris.len() as int) =~= old_tris);
        assert(self.tris@.skip(old_tris.len() as int) =~= moved);
        assert forall|t: int, j: int| 0 <= t < self.tris@.len() && 0 <= j < 3
            implies #[trigger] self.tris@[t][j] < self.vertices@.len() by {
            if t >= old_tris.len() {
                assert(self.tris@[t] == moved[t - old_tris.len()]);
            }
        }
    }
}


/// A copy of `v`, element for element.
fn copy_all<T: Copy>(v: &Vec<T>) -> (r: Vec<T>)
    ensures
        r@ == v@,
{
    let mut r: Vec<T> = Vec::new();
    let mut i: usize = 0;
    while i < v.len()
        invariant
            i <= v@.len(),
            r@ == v@.take(i as int),
        decreases v@.len() - i,
    {
        r.push(v[i]);
        assert(r@ =~= v@.take(i + 1));
        i += 1;
    }
    assert(r@ =~= v@);
    r
}

} // verus!
