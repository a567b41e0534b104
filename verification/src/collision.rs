//! Collision geometry of one surface, in physics units.

use vstd::prelude::*;
use crate::mesh::{MeshData, MeshModel};
use crate::scalar::{is_quarter_of, lemma_quartered, quartered, units_to_meters};

verus! {

/// What a collision mesh holds: its points, and its triangles as triples of
/// point indices.
pub struct CollisionModel {
    pub points: Seq<[u32; 3]>,
    pub triangles: Seq<[u32; 3]>,
}

impl CollisionModel {
    /// Every corner of every triangle names a point of this mesh.
    pub open spec fn triangles_in_range(self) -> bool {
        forall|t: int, c: int|
            0 <= t < self.triangles.len() && 0 <= c < 3 ==> (#[trigger] self.triangles[t][c])
                < self.points.len()
    }
}

/// The collision mesh that belongs to a render mesh: the same points with
/// each coordinate brought from map units to physics units, and the index
/// list cut into triples. Indices left over after the last whole triple
/// belong to no triangle.
pub open spec fn collider_of(mesh: MeshModel) -> CollisionModel {
    CollisionModel {
        points: Seq::new(
            mesh.vertices.len(),
            |i: int|
                [
                    quartered(mesh.vertices[i].position[0]),
                    quartered(mesh.vertices[i].position[1]),
                    quartered(mesh.vertices[i].position[2]),
                ],
        ),
        triangles: Seq::new(
            mesh.indices.len() / 3,
            |t: int| [mesh.indices[3 * t], mesh.indices[3 * t + 1], mesh.indices[3 * t + 2]],
        ),
    }
}

/// The collision geometry of one surface: points in physics units, as
/// binary32 bit patterns, and triangles as triples of point indices.
#[derive(Clone, Debug, PartialEq, Eq)]
pub struct CollisionMesh {
    pub points: Vec<[u32; 3]>,
    pub triangles: Vec<[u32; 3]>,
}

impl View for CollisionMesh {
    type V = CollisionModel;

    open spec fn view(&self) -> CollisionModel {
        CollisionModel { points: self.points@, triangles: self.triangles@ }
    }
}

impl CollisionMesh {
    /// Builds the collision mesh of a render mesh.
    pub fn from_mesh(mesh: &MeshData) -> (collider: CollisionMesh)
        ensures
            collider@ == collider_of(mesh@),
    {
        let mut points: Vec<[u32; 3]> = Vec::new();
        let mut i: usize = 0;
        while i < mesh.vertices.len()
            invariant
                i <= mesh.vertices@.len(),
                points@ == collider_of(mesh@).points.take(i as int),
            decreases mesh.vertices@.len() - i,
        {
            let v = &mesh.vertices[i];
            let point: [u32; 3] = [
                units_to_meters(v.position[0]),
                units_to_meters(v.position[1]),
                units_to_meters(v.position[2]),
            ];
            assert(point == collider_of(mesh@).points[i as int]);
            points.push(point);
            i += 1;
        }
        let count: usize = mesh.indices.len() / 3;
        let mut triangles: Vec<[u32; 3]> = Vec::new();
        let mut t: usize = 0;
        while t < count
            invariant
                t <= count,
                count == mesh.indices@.len() / 3,
                3 * count <= mesh.indices@.len() <= usize::MAX,
                triangles@ == collider_of(mesh@).triangles.take(t as int),
            decreases count - t,
        {
            let triangle: [u32; 3] = [
                mesh.indices[3 * t],
                mesh.indices[3 * t + 1],
                mesh.indices[3 * t + 2],
            ];
            assert(triangle == collider_of(mesh@).triangles[t as int]);
            triangles.push(triangle);
            t += 1;
        }
        assert(points@ == collider_of(mesh@).points);
        assert(triangles@ == collider_of(mesh@).triangles);
        CollisionMesh { points, triangles }
    }
}

/// A collision mesh has one point for each vertex of its render mesh, and
/// each coordinate of a point is the binary32 quotient of the vertex's
/// coordinate by the unit factor.
pub proof fn lemma_collision_points_scaled(mesh: MeshModel, i: int, axis: int)
    requires
        0 <= i < mesh.vertices.len(),
        0 <= axis < 3,
    ensures
        collider_of(mesh).points.len() == mesh.vertices.len(),
        is_quarter_of(collider_of(mesh).points[i][axis], mesh.vertices[i].position[axis]),
{
    lemma_quartered(mesh.vertices[i].position[axis]);
}

/// Where every index of a render mesh names one of its vertices, every
/// corner of every triangle of its collision mesh names one of its points.
pub proof fn lemma_collision_triangles_in_range(mesh: MeshModel)
    requires
        mesh.indices_in_range(),
    ensures
        collider_of(mesh).triangles_in_range(),
        collider_of(mesh).triangles.len() == mesh.triangle_count(),
{
    let c = collider_of(mesh);
    assert forall|t: int, k: int| 0 <= t < c.triangles.len() && 0 <= k < 3 implies (
    #[trigger] c.triangles[t][k]) < c.points.len() by {
        assert(c.triangles[t][k] == mesh.indices[3 * t + k]);
    }
}

} // verus!
