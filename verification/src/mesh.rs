use crate::vector::{Scalar, Vec3, MINUS_ONE_BITS, ONE_BITS};
use vstd::prelude::*;
use vstd::slice::slice_to_vec;

verus! {

/// Three vertices of a mesh, named by their places in its vertex list
/// counted from one, and the color of the face that they span.
#[derive(Debug, Clone, Copy)]
pub struct Face(pub usize, pub usize, pub usize, pub u32);

impl Face {
    /// Whether the three indices name vertices of a list of `vertex_count`.
    pub open spec fn in_range(&self, vertex_count: int) -> bool {
        1 <= self.0 <= vertex_count && 1 <= self.1 <= vertex_count && 1 <= self.2 <= vertex_count
    }

    pub fn color(&self) -> (color: u32)
        ensures
            color == self.3,
    {
        self.3
    }

    pub fn set_color(&mut self, color: u32)
        ensures
            *final(self) == Face(old(self).0, old(self).1, old(self).2, color),
    {
        self.3 = color;
    }

    /// Whether the three indices name vertices of a list of `vertex_count`.
    pub fn fits(&self, vertex_count: usize) -> (fits: bool)
        ensures
            fits == self.in_range(vertex_count as int),
    {
        1 <= self.0 && self.0 <= vertex_count && 1 <= self.1 && self.1 <= vertex_count && 1
            <= self.2 && self.2 <= vertex_count
    }
}

/// Three points in space and a color.
#[derive(Debug, Clone, Copy)]
pub struct Triangle(pub Vec3, pub Vec3, pub Vec3, pub u32);

impl Triangle {
    /// Whether two of the three points coincide, so that the triangle spans
    /// no plane and has no normal.
    pub open spec fn degenerate(&self) -> bool {
        self.0.same_point(&self.1) || self.1.same_point(&self.2) || self.0.same_point(&self.2)
    }

    /// The three points in order.
    pub open spec fn points(&self) -> Seq<Vec3> {
        seq![self.0, self.1, self.2]
    }

    /// Returns the first point of this triangle
    pub fn a(&self) -> (point: Vec3)
        ensures
            point == self.0,
    {
        self.0
    }

    /// Returns the second point of this triangle
    pub fn b(&self) -> (point: Vec3)
        ensures
            point == self.1,
    {
        self.1
    }

    /// Returns the third point of this triangle
    pub fn c(&self) -> (point: Vec3)
        ensures
            point == self.2,
    {
        self.2
    }

    pub fn color(&self) -> (color: u32)
        ensures
            color == self.3,
    {
        self.3
    }

    pub fn set_color(&mut self, color: u32)
        ensures
            *final(self) == Triangle(old(self).0, old(self).1, old(self).2, color),
    {
        self.3 = color;
    }

    /// Whether two of the three points coincide.
    pub fn is_degenerate(&self) -> (degenerate: bool)
        ensures
            degenerate == self.degenerate(),
    {
        self.0.equals(&self.1) || self.1.equals(&self.2) || self.0.equals(&self.2)
    }

    /// The triangle of the first three of `points`, colored `0xFFFFFFF`.
    pub fn from_points(points: &Vec<Vec3>) -> (triangle: Triangle)
        requires
            points@.len() >= 3,
        ensures
            triangle == Triangle(points@[0], points@[1], points@[2], 0xFFFFFFF),
    {
        Triangle(points[0], points[1], points[2], 0xFFFFFFF)
    }

    /// A walk over the three points, first to third.
    pub fn into_iter(self) -> (iter: TriangleIter)
        ensures
            iter.wf(),
            iter.rest() == self.points(),
    {
        let mut vertices: Vec<Vec3> = Vec::new();
        vertices.push(self.0);
        vertices.push(self.1);
        vertices.push(self.2);
        let iter = TriangleIter { current: 0, vertices };
        assert(iter.rest() =~= self.points());
        iter
    }
}

/// A walk over the three points of a triangle.
pub struct TriangleIter {
    current: usize,
    vertices: Vec<Vec3>,
}

impl TriangleIter {
    pub closed spec fn wf(&self) -> bool {
        self.vertices@.len() == 3 && self.current <= 3
    }

    /// The points still to come, next first.
    pub closed spec fn rest(&self) -> Seq<Vec3> {
        self.vertices@.skip(self.current as int)
    }

    /// The next point, or `None` when all three were given.
    pub fn next(&mut self) -> (point: Option<Vec3>)
        requires
            old(self).wf(),
        ensures
            final(self).wf(),
            old(self).rest().len() == 0 ==> point is None && final(self).rest() == old(self).rest(),
            old(self).rest().len() > 0 ==> point == Some(old(self).rest()[0]) && final(self).rest() == old(self).rest().skip(1),
    {
        if self.current < 3 {
            let vertex = self.vertices[self.current];
            self.current += 1;
            assert(self.rest() =~= old(self).rest().skip(1));
            return Some(vertex);
        }
        None
    }
}

/// Where a mesh stands in the world: an offset, three angles of rotation in
/// radians about the x, y and z axes, and a factor of scale for each axis.
pub struct Transform {
    pub position: Vec3,
    pub rotation: Vec3,
    pub scale: Vec3,
}

/// The transform that changes nothing: no offset, no rotation, unit scale.
pub open spec fn identity_transform() -> Transform {
    Transform {
        position: Vec3(Scalar { bits: 0 }, Scalar { bits: 0 }, Scalar { bits: 0 }),
        rotation: Vec3(Scalar { bits: 0 }, Scalar { bits: 0 }, Scalar { bits: 0 }),
        scale: Vec3(Scalar { bits: ONE_BITS }, Scalar { bits: ONE_BITS }, Scalar { bits: ONE_BITS }),
    }
}

impl Default for Transform {
    fn default() -> (transform: Self)
        ensures
            transform == identity_transform(),
    {
        Transform { position: Vec3::zero(), rotation: Vec3::zero(), scale: Vec3::one() }
    }
}

/// Why a vertex list and a face list make no mesh.
#[derive(Debug, Clone, Copy, PartialEq, Eq, Structural)]
pub enum MeshError {
    /// The face at this place in the face list names a vertex that the
    /// vertex list does not have.
    FaceOutOfRange(usize),
}

/// Whether every face of `faces` names vertices of a list of `vertex_count`.
pub open spec fn faces_in_range(faces: Seq<Face>, vertex_count: int) -> bool {
    forall|i: int| 0 <= i < faces.len() ==> (#[trigger] faces[i]).in_range(vertex_count)
}

/// The triangle that `face` spans over `vertices`.
pub open spec fn resolved(vertices: Seq<Vec3>, face: Face) -> Triangle {
    Triangle(vertices[face.0 - 1], vertices[face.1 - 1], vertices[face.2 - 1], face.3)
}

/// The point whose coordinates are plus or minus one: minus one where the
/// flag of the coordinate is set.
pub open spec fn corner(x_low: bool, y_low: bool, z_low: bool) -> Vec3 {
    Vec3(
        Scalar { bits: if x_low { MINUS_ONE_BITS } else { ONE_BITS } },
        Scalar { bits: if y_low { MINUS_ONE_BITS } else { ONE_BITS } },
        Scalar { bits: if z_low { MINUS_ONE_BITS } else { ONE_BITS } },
    )
}

/// The eight corners of the cube of side two about the origin.
pub open spec fn cube_vertices() -> Seq<Vec3> {
    seq![
        corner(true, true, true),
        corner(true, false, true),
        corner(false, false, true),
        corner(false, true, true),
        corner(false, false, false),
        corner(false, true, false),
        corner(true, false, false),
        corner(true, true, false),
    ]
}

/// The twelve faces of the cube, two for each side: front in red, right in
/// green, back in blue, left in yellow, top in cyan, bottom in magenta.
pub open spec fn cube_faces() -> Seq<Face> {
    seq![
        Face(1, 2, 3, 0xFFFF0000),
        Face(1, 3, 4, 0xFFFF0000),
        Face(4, 3, 5, 0xFF00FF00),
        Face(4, 5, 6, 0xFF00FF00),
        Face(6, 5, 7, 0xFF0000FF),
        Face(6, 7, 8, 0xFF0000FF),
        Face(8, 7, 2, 0xFFFFFF00),
        Face(8, 2, 1, 0xFFFFFF00),
        Face(2, 7, 5, 0xFF00FFFF),
        Face(2, 5, 3, 0xFF00FFFF),
        Face(6, 8, 1, 0xFFFF00FF),
        Face(6, 1, 4, 0xFFFF00FF),
    ]
}

/// Vertices, the faces spanned over them, and a transform.
pub struct Mesh {
    pub vertices: Vec<Vec3>,
    pub faces: Vec<Face>,
    pub transform: Transform,
}

impl Mesh {
    /// Every face names vertices that the mesh has.
    pub open spec fn wf(&self) -> bool {
        faces_in_range(self.faces@, self.vertices@.len() as int)
    }

    /// The triangles of the mesh, one for each face, in the order of the
    /// face list.
    pub open spec fn triangle_seq(&self) -> Seq<Triangle> {
        Seq::new(self.faces@.len(), |i: int| resolved(self.vertices@, self.faces@[i]))
    }

    /// The place in `faces` of the first face that names a vertex outside a
    /// list of `vertex_count`, if there is one.
    pub fn first_out_of_range(faces: &[Face], vertex_count: usize) -> (found: Option<usize>)
        ensures
            found is None <==> faces_in_range(faces@, vertex_count as int),
            found matches Some(at) ==> at < faces@.len() && !faces@[at as int].in_range(
                vertex_count as int,
            ) && faces_in_range(faces@.take(at as int), vertex_count as int),
    {
        let mut i: usize = 0;
        while i < faces.len()
            invariant
                i <= faces@.len(),
                faces_in_range(faces@.take(i as int), vertex_count as int),
            decreases faces@.len() - i,
        {
            if !faces[i].fits(vertex_count) {
                return Some(i);
            }
            assert forall|k: int| 0 <= k < i + 1 implies (#[trigger] faces@.take(
                i + 1,
            )[k]).in_range(vertex_count as int) by {
                if k < i {
                    assert(faces@.take(i as int)[k].in_range(vertex_count as int));
                }
            }
            i += 1;
        }
        assert(faces@.take(i as int) =~= faces@);
        None
    }

    /// The cube of side two about the origin, with the identity transform.
    pub fn cube() -> (mesh: Self)
        ensures
            mesh.wf(),
            mesh.vertices@ == cube_vertices(),
            mesh.faces@ == cube_faces(),
            mesh.transform == identity_transform(),
    {
        let low = Scalar::from_bits(MINUS_ONE_BITS);
        let high = Scalar::from_bits(ONE_BITS);
        let vertices: [Vec3; 8] = [
            Vec3(low, low, low),
            Vec3(low, high, low),
            Vec3(high, high, low),
            Vec3(high, low, low),
            Vec3(high, high, high),
            Vec3(high, low, high),
            Vec3(low, high, high),
            Vec3(low, low, high),
        ];
        let faces: [Face; 12] = [
            Face(1, 2, 3, 0xFFFF0000),
            Face(1, 3, 4, 0xFFFF0000),
            Face(4, 3, 5, 0xFF00FF00),
            Face(4, 5, 6, 0xFF00FF00),
            Face(6, 5, 7, 0xFF0000FF),
            Face(6, 7, 8, 0xFF0000FF),
            Face(8, 7, 2, 0xFFFFFF00),
            Face(8, 2, 1, 0xFFFFFF00),
            Face(2, 7, 5, 0xFF00FFFF),
            Face(2, 5, 3, 0xFF00FFFF),
            Face(6, 8, 1, 0xFFFF00FF),
            Face(6, 1, 4, 0xFFFF00FF),
        ];
        assert(vertices@ =~= cube_vertices());
        assert(faces@ =~= cube_faces());
        Self::new(vertices.as_slice(), faces.as_slice())
    }

    /// The transform, to be changed in place.
    pub fn transform(&mut self) -> (transform: &mut Transform)
        ensures
            *transform == old(self).transform,
            final(self).vertices == old(self).vertices,
            final(self).faces == old(self).faces,
            final(self).transform == *final(transform),
    {
        &mut self.transform
    }

    /// A mesh of copies of the given vertices and faces, with the identity
    /// transform.
    pub fn new(vertices: &[Vec3], faces: &[Face]) -> (mesh: Self)
        requires
            faces_in_range(faces@, vertices@.len() as int),
        ensures
            mesh.wf(),
            mesh.vertices@ == vertices@,
            mesh.faces@ == faces@,
            mesh.transform == identity_transform(),
    {
        Mesh {
            vertices: slice_to_vec(vertices),
            faces: slice_to_vec(faces),
            transform: Transform::default(),
        }
    }

    /// As `new`, for lists that were not checked yet: the mesh where every
    /// face names vertices of the list, else the place of the first face
    /// that does not.
    pub fn checked(vertices: &[Vec3], faces: &[Face]) -> (made: Result<Self, MeshError>)
        ensures
            made is Ok <==> faces_in_range(faces@, vertices@.len() as int),
            made matches Ok(mesh) ==> mesh.wf() && mesh.vertices@ == vertices@ && mesh.faces@
                == faces@ && mesh.transform == identity_transform(),
            made matches Err(MeshError::FaceOutOfRange(at)) ==> at < faces@.len()
                && !faces@[at as int].in_range(vertices@.len() as int) && faces_in_range(
                faces@.take(at as int),
                vertices@.len() as int,
            ),
    {
        match Mesh::first_out_of_range(faces, vertices.len()) {
            Some(at) => Err(MeshError::FaceOutOfRange(at)),
            None => Ok(Mesh::new(vertices, faces)),
        }
    }

    /// A walk over the triangles of the mesh.
    pub fn triangles(&self) -> (iter: MeshIter<'_>)
        requires
            self.wf(),
        ensures
            iter.wf(),
            iter.mesh() == self,
            iter.position() == 0,
    {
        MeshIter::new(self)
    }

    /// The triangle of the face at place `index` of the face list.
    pub fn triangle(&self, index: usize) -> (triangle: Triangle)
        requires
            self.wf(),
            index < self.faces@.len(),
        ensures
            triangle == self.triangle_seq()[index as int],
    {
        let face = self.faces[index];
        assert(self.faces@[index as int].in_range(self.vertices@.len() as int));
        let v1 = self.vertices[face.0 - 1];
        let v2 = self.vertices[face.1 - 1];
        let v3 = self.vertices[face.2 - 1];
        Triangle(v1, v2, v3, face.color())
    }
}

/// A walk over the triangles of a mesh, in the order of its face list. Each
/// triangle is looked up when it is asked for.
pub struct MeshIter<'a> {
    current: usize,
    mesh: &'a Mesh,
}

impl<'a> MeshIter<'a> {
    /// The mesh that is walked over.
    pub closed spec fn mesh(&self) -> &Mesh {
        self.mesh
    }

    /// How many triangles were given.
    pub closed spec fn position(&self) -> nat {
        self.current as nat
    }

    pub open spec fn wf(&self) -> bool {
        self.mesh().wf() && self.position() <= self.mesh().faces@.len()
    }

    pub fn new(mesh: &'a Mesh) -> (iter: Self)
        requires
            mesh.wf(),
        ensures
            iter.wf(),
            iter.mesh() == mesh,
            iter.position() == 0,
    {
        MeshIter { current: 0, mesh }
    }

    /// The next triangle, or `None` after the last face.
    pub fn next(&mut self) -> (triangle: Option<Triangle>)
        requires
            old(self).wf(),
        ensures
            final(self).wf(),
            final(self).mesh() == old(self).mesh(),
            old(self).position() < old(self).mesh().faces@.len() ==> triangle == Some(
                old(self).mesh().triangle_seq()[old(self).position() as int],
            ) && final(self).position() == old(self).position() + 1,
            old(self).position() >= old(self).mesh().faces@.len() ==> triangle is None && final(self).position() == old(self).position(),
    {
        if self.current < self.mesh.faces.len() {
            let triangle = self.mesh.triangle(self.current);
            self.current += 1;
            return Some(triangle);
        }
        None
    }
}

} // verus!
