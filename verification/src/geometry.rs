//! The mesh that every sprite is drawn with: named vertex attributes and a
//! triangle list, and the unit quad built from them.
//!
//! Component values of a vertex attribute are 32-bit floating point numbers.
//! They are stored and handed on as their IEEE 754 bit patterns and are never
//! computed with.

use vstd::prelude::*;
use crate::wireframe::{has_line, occurrences, outline, side, side_count, wireframe, wireframe_indices};

verus! {

/// Bit pattern of the component value `0.0`.
pub const ZERO: u32 = 0x0000_0000;

/// Bit pattern of the component value `1.0`.
pub const ONE: u32 = 0x3F80_0000;

/// Bit pattern of the component value `-1.0`.
pub const NEG_ONE: u32 = 0xBF80_0000;

/// Identity of the quad that a renderer builds for itself.
pub const QUAD_ID: u64 = 0;

/// A named vertex attribute: `item_size` components for each vertex, one
/// vertex after the other.
#[derive(Clone, Debug, PartialEq, Eq)]
pub struct Attribute {
    pub name: String,
    pub data: Vec<u32>,
    pub item_size: usize,
    pub normalized: bool,
}

pub struct AttributeView {
    pub name: Seq<char>,
    pub data: Seq<u32>,
    pub item_size: nat,
    pub normalized: bool,
}

impl View for Attribute {
    type V = AttributeView;

    open spec fn view(&self) -> AttributeView {
        AttributeView {
            name: self.name@,
            data: self.data@,
            item_size: self.item_size as nat,
            normalized: self.normalized,
        }
    }
}

impl Attribute {
    pub fn new(name: String, data: Vec<u32>, item_size: usize, normalized: bool) -> (attribute: Self)
        ensures
            attribute.name == name,
            attribute.data == data,
            attribute.item_size == item_size,
            attribute.normalized == normalized,
    {
        Attribute { name, data, item_size, normalized }
    }
}

/// What a geometry is: its identity, its vertex attributes in order, and its
/// triangle list.
pub struct GeometryView {
    pub id: u64,
    pub vertex_count: nat,
    pub attributes: Seq<AttributeView>,
    pub index: Seq<u32>,
}

impl GeometryView {
    /// Every attribute holds `item_size` components for each of the
    /// `vertex_count` vertices, and the triangle list is made of whole
    /// triangles between those vertices.
    pub open spec fn wf(self) -> bool {
        &&& forall|i: int|
            0 <= i < self.attributes.len() ==> {
                &&& (#[trigger] self.attributes[i]).item_size > 0
                &&& self.attributes[i].data.len() == self.vertex_count * self.attributes[i].item_size
            }
        &&& self.index.len() % 3 == 0
        &&& forall|k: int| 0 <= k < self.index.len() ==> #[trigger] self.index[k] < self.vertex_count
    }

    /// The line list that draws this geometry as a wireframe.
    pub open spec fn lines(self) -> Seq<u32> {
        wireframe(self.index)
    }

    /// The number of vertices and the lengths of the two index lists are
    /// lengths that a buffer can have.
    pub open spec fn fits(self) -> bool {
        &&& self.vertex_count <= usize::MAX
        &&& self.index.len() <= usize::MAX
        &&& self.lines().len() <= usize::MAX
    }
}

/// The positions of the quad's corners: the square from (-1, -1) to (1, 1)
/// in the plane z = 0, beginning at (-1, -1).
pub open spec fn quad_positions() -> Seq<u32> {
    seq![
        NEG_ONE, NEG_ONE, ZERO,
        NEG_ONE, ONE, ZERO,
        ONE, ONE, ZERO,
        ONE, NEG_ONE, ZERO,
    ]
}

/// The quad's normals: (0, 0, 1) at every corner.
pub open spec fn quad_normals() -> Seq<u32> {
    seq![ZERO, ZERO, ONE, ZERO, ZERO, ONE, ZERO, ZERO, ONE, ZERO, ZERO, ONE]
}

/// The quad's tangents: (0, 0, 1) with the sign 1 at every corner.
pub open spec fn quad_tangents() -> Seq<u32> {
    seq![
        ZERO, ZERO, ONE, ONE,
        ZERO, ZERO, ONE, ONE,
        ZERO, ZERO, ONE, ONE,
        ZERO, ZERO, ONE, ONE,
    ]
}

/// The quad's texture coordinates: (0, 0) at the corner (-1, -1) and (1, 1)
/// at the corner (1, 1).
pub open spec fn quad_uvs() -> Seq<u32> {
    seq![ZERO, ZERO, ZERO, ONE, ONE, ONE, ONE, ZERO]
}

/// The quad's two triangles.
pub open spec fn quad_index() -> Seq<u32> {
    seq![0u32, 2u32, 1u32, 0u32, 3u32, 2u32]
}

/// The quad's outline as a line list.
pub open spec fn quad_lines() -> Seq<u32> {
    seq![2u32, 1u32, 1u32, 0u32, 0u32, 3u32, 3u32, 2u32]
}

pub open spec fn quad_attributes() -> Seq<AttributeView> {
    seq![
        AttributeView { name: "position"@, data: quad_positions(), item_size: 3, normalized: false },
        AttributeView { name: "normal"@, data: quad_normals(), item_size: 3, normalized: false },
        AttributeView { name: "tangent"@, data: quad_tangents(), item_size: 4, normalized: false },
        AttributeView { name: "uv"@, data: quad_uvs(), item_size: 2, normalized: false },
        AttributeView { name: "uv2"@, data: quad_uvs(), item_size: 2, normalized: false },
    ]
}

/// The unit quad with the identity `id`.
pub open spec fn quad_view(id: u64) -> GeometryView {
    GeometryView { id, vertex_count: 4, attributes: quad_attributes(), index: quad_index() }
}

/// The corners `u` and `v` of the quad are neighbours on its perimeter.
pub open spec fn quad_perimeter(u: u32, v: u32) -> bool {
    u < 4 && v < 4 && (v == (u + 1) % 4 || u == (v + 1) % 4)
}

/// The quad has four vertices in every attribute, six triangle indices and
/// eight line indices, and its wireframe is exactly its perimeter: the
/// diagonal that the two triangles share is left out.
pub proof fn lemma_quad_shape(id: u64)
    ensures
        quad_view(id).wf(),
        quad_view(id).vertex_count == 4,
        forall|i: int|
            0 <= i < quad_view(id).attributes.len() ==> (#[trigger] quad_view(id).attributes[i]).data.len()
                == 4 * quad_view(id).attributes[i].item_size,
        quad_view(id).index.len() == 6,
        quad_view(id).lines() == quad_lines(),
        quad_view(id).lines().len() == 8,
        forall|u: u32, v: u32| #[trigger] has_line(quad_view(id).lines(), u, v) <==> quad_perimeter(u, v),
{
    let attributes = quad_attributes();
    assert(attributes.len() == 5);
    assert(attributes[0].data.len() == 12 && attributes[1].data.len() == 12);
    assert(attributes[2].data.len() == 16);
    assert(attributes[3].data.len() == 8 && attributes[4].data.len() == 8);
    let count = quad_view(id).vertex_count;
    assert forall|i: int| 0 <= i < attributes.len() implies (#[trigger] attributes[i]).data.len() == count
        * attributes[i].item_size by {
        assert(count * attributes[i].item_size == 4 * attributes[i].item_size);
    }
    let index = quad_index();
    assert(index.len() == 6);
    assert(index[0] < 4 && index[1] < 4 && index[2] < 4 && index[3] < 4 && index[4] < 4 && index[5] < 4);
    assert(side_count(index) == 6);
    assert(side(index, 0) == (0u32, 2u32));
    assert(side(index, 1) == (2u32, 1u32));
    assert(side(index, 2) == (1u32, 0u32));
    assert(side(index, 3) == (0u32, 3u32));
    assert(side(index, 4) == (3u32, 2u32));
    assert(side(index, 5) == (2u32, 0u32));
    assert(wireframe(index) =~= quad_lines()) by {
        reveal_with_fuel(occurrences, 7);
        reveal_with_fuel(outline, 7);
    }
    let lines = quad_lines();
    assert forall|u: u32, v: u32| #[trigger] has_line(lines, u, v) <==> quad_perimeter(u, v) by {
        if quad_perimeter(u, v) {
            let k: int = if (u == 2 && v == 1) || (u == 1 && v == 2) {
                0
            } else if (u == 1 && v == 0) || (u == 0 && v == 1) {
                1
            } else if (u == 0 && v == 3) || (u == 3 && v == 0) {
                2
            } else {
                3
            };
            assert(crate::wireframe::same_edge((lines[2 * k], lines[2 * k + 1]), (u, v)));
        }
        if has_line(lines, u, v) {
            let k = choose|k: int|
                0 <= k && 2 * k + 1 < lines.len() && crate::wireframe::same_edge(
                    (#[trigger] lines[2 * k], lines[2 * k + 1]),
                    (u, v),
                );
            assert(k == 0 || k == 1 || k == 2 || k == 3);
        }
    }
}

/// A mesh: vertex attributes that share one vertex count, and a triangle
/// list. It is not changed once it is built.
#[derive(Clone, Debug)]
pub struct Geometry {
    id: u64,
    vertex_count: usize,
    attributes: Vec<Attribute>,
    index: Vec<u32>,
}

impl View for Geometry {
    type V = GeometryView;

    closed spec fn view(&self) -> GeometryView {
        GeometryView {
            id: self.id,
            vertex_count: self.vertex_count as nat,
            attributes: self.attributes@.map_values(|a: Attribute| a@),
            index: self.index@,
        }
    }
}

impl Geometry {
    /// Builds the unit quad: four corners with position, normal, tangent and
    /// two sets of texture coordinates, and two triangles.
    pub fn quad(id: u64) -> (geometry: Self)
        ensures
            geometry@ == quad_view(id),
            geometry@.wf(),
    {
        let mut attributes: Vec<Attribute> = Vec::new();
        attributes.push(
            Attribute::new(
                "position".to_owned(),
                vec![NEG_ONE, NEG_ONE, ZERO, NEG_ONE, ONE, ZERO, ONE, ONE, ZERO, ONE, NEG_ONE, ZERO],
                3,
                false,
            ),
        );
        attributes.push(
            Attribute::new(
                "normal".to_owned(),
                vec![ZERO, ZERO, ONE, ZERO, ZERO, ONE, ZERO, ZERO, ONE, ZERO, ZERO, ONE],
                3,
                false,
            ),
        );
        attributes.push(
            Attribute::new(
                "tangent".to_owned(),
                vec![
                    ZERO, ZERO, ONE, ONE,
                    ZERO, ZERO, ONE, ONE,
                    ZERO, ZERO, ONE, ONE,
                    ZERO, ZERO, ONE, ONE,
                ],
                4,
                false,
            ),
        );
        attributes.push(
            Attribute::new("uv".to_owned(), vec![ZERO, ZERO, ZERO, ONE, ONE, ONE, ONE, ZERO], 2, false),
        );
        attributes.push(
            Attribute::new("uv2".to_owned(), vec![ZERO, ZERO, ZERO, ONE, ONE, ONE, ONE, ZERO], 2, false),
        );
        let index: Vec<u32> = vec![0, 2, 1, 0, 3, 2];
        let geometry = Geometry { id, vertex_count: 4, attributes, index };
        proof {
            assert(geometry@.attributes =~= quad_attributes());
            assert(geometry@.index =~= quad_index());
            lemma_quad_shape(id);
        }
        geometry
    }

    /// The identity by which the backend caches what it builds for this
    /// geometry. Two geometries with the same data and different identities
    /// are different geometries.
    pub fn id(&self) -> (id: u64)
        ensures
            id == self@.id,
    {
        self.id
    }

    /// The number of vertices that every attribute describes.
    pub fn vertex_count(&self) -> (count: usize)
        ensures
            count == self@.vertex_count,
    {
        self.vertex_count
    }

    /// The vertex attributes, in the order in which they were added.
    pub fn attributes(&self) -> (attributes: &Vec<Attribute>)
        ensures
            attributes@.map_values(|a: Attribute| a@) == self@.attributes,
    {
        &self.attributes
    }

    /// The triangle list.
    pub fn index(&self) -> (index: &Vec<u32>)
        ensures
            index@ == self@.index,
    {
        &self.index
    }

    /// The line list that draws this geometry as a wireframe, derived from
    /// the triangle list.
    pub fn line_index(&self) -> (lines: Vec<u32>)
        ensures
            lines@ == self@.lines(),
    {
        wireframe_indices(&self.index)
    }
}

} // verus!
