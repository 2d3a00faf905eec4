use sprite_gl_renderer::geometry::{Attribute, Geometry, NEG_ONE, ONE, QUAD_ID, ZERO};
use sprite_gl_renderer::wireframe::wireframe_indices;
use sprite_gl_renderer::SpriteGLRenderer;

fn floats(attribute: &Attribute) -> Vec<f32> {
    attribute.data.iter().map(|bits| f32::from_bits(*bits)).collect()
}

#[test]
fn component_constants_are_the_bit_patterns_of_their_values() {
    assert_eq!(ZERO, 0.0f32.to_bits());
    assert_eq!(ONE, 1.0f32.to_bits());
    assert_eq!(NEG_ONE, (-1.0f32).to_bits());
}

#[test]
fn quad_keeps_the_identity_it_was_given() {
    assert_eq!(Geometry::quad(17).id(), 17);
    assert_eq!(SpriteGLRenderer::new().geometry().id(), QUAD_ID);
}

#[test]
fn quad_has_five_attributes_in_order() {
    let quad = Geometry::quad(0);
    let names: Vec<&str> = quad.attributes().iter().map(|a| a.name.as_str()).collect();
    assert_eq!(names, vec!["position", "normal", "tangent", "uv", "uv2"]);
    let sizes: Vec<usize> = quad.attributes().iter().map(|a| a.item_size).collect();
    assert_eq!(sizes, vec![3, 3, 4, 2, 2]);
    assert!(quad.attributes().iter().all(|a| !a.normalized));
}

#[test]
fn every_attribute_of_the_quad_describes_four_vertices() {
    let quad = Geometry::quad(0);
    assert_eq!(quad.vertex_count(), 4);
    for attribute in quad.attributes() {
        assert_eq!(attribute.data.len() % attribute.item_size, 0);
        assert_eq!(attribute.data.len() / attribute.item_size, 4);
    }
}

#[test]
fn quad_positions_are_the_corners_of_the_unit_square() {
    let quad = Geometry::quad(0);
    assert_eq!(
        floats(&quad.attributes()[0]),
        vec![-1.0, -1.0, 0.0, -1.0, 1.0, 0.0, 1.0, 1.0, 0.0, 1.0, -1.0, 0.0]
    );
}

#[test]
fn quad_normals_point_along_positive_z() {
    let quad = Geometry::quad(0);
    assert_eq!(
        floats(&quad.attributes()[1]),
        vec![0.0, 0.0, 1.0, 0.0, 0.0, 1.0, 0.0, 0.0, 1.0, 0.0, 0.0, 1.0]
    );
}

#[test]
fn quad_tangents_point_along_positive_z_with_sign_one() {
    let quad = Geometry::quad(0);
    assert_eq!(
        floats(&quad.attributes()[2]),
        vec![0.0, 0.0, 1.0, 1.0, 0.0, 0.0, 1.0, 1.0, 0.0, 0.0, 1.0, 1.0, 0.0, 0.0, 1.0, 1.0]
    );
}

#[test]
fn quad_uv_origin_is_at_the_corner_minus_one_minus_one() {
    let quad = Geometry::quad(0);
    let positions = floats(&quad.attributes()[0]);
    let uv = floats(&quad.attributes()[3]);
    let uv2 = floats(&quad.attributes()[4]);
    assert_eq!(uv, vec![0.0, 0.0, 0.0, 1.0, 1.0, 1.0, 1.0, 0.0]);
    assert_eq!(uv2, uv);
    for vertex in 0..4 {
        let (x, y) = (positions[3 * vertex], positions[3 * vertex + 1]);
        assert_eq!(uv[2 * vertex], (x + 1.0) / 2.0);
        assert_eq!(uv[2 * vertex + 1], (y + 1.0) / 2.0);
    }
}

#[test]
fn quad_index_is_two_triangles() {
    let quad = Geometry::quad(0);
    assert_eq!(quad.index(), &vec![0u32, 2, 1, 0, 3, 2]);
}

#[test]
fn quad_line_index_is_the_perimeter() {
    let quad = Geometry::quad(0);
    let lines = quad.line_index();
    assert_eq!(lines, vec![2u32, 1, 1, 0, 0, 3, 3, 2]);
    assert_eq!(lines.len(), 8);
    let mut edges: Vec<(u32, u32)> = lines.chunks(2).map(|l| (l[0].min(l[1]), l[0].max(l[1]))).collect();
    edges.sort();
    assert_eq!(edges, vec![(0, 1), (0, 3), (1, 2), (2, 3)]);
}

#[test]
fn wireframe_of_one_triangle_is_its_three_sides() {
    assert_eq!(wireframe_indices(&vec![4, 5, 6]), vec![4u32, 5, 5, 6, 6, 4]);
}

#[test]
fn wireframe_of_an_empty_list_is_empty() {
    assert_eq!(wireframe_indices(&Vec::new()), Vec::<u32>::new());
}

#[test]
fn wireframe_passes_over_an_incomplete_triangle() {
    assert_eq!(wireframe_indices(&vec![0, 1, 2, 3, 4]), vec![0u32, 1, 1, 2, 2, 0]);
    assert_eq!(wireframe_indices(&vec![0, 1]), Vec::<u32>::new());
}

#[test]
fn wireframe_leaves_out_a_side_shared_in_the_same_direction() {
    assert_eq!(wireframe_indices(&vec![0, 1, 2, 0, 1, 3]), vec![1u32, 2, 2, 0, 1, 3, 3, 0]);
}

#[test]
fn wireframe_of_a_triangle_drawn_twice_is_empty() {
    assert_eq!(wireframe_indices(&vec![0, 1, 2, 2, 1, 0]), Vec::<u32>::new());
}

#[test]
fn wireframe_of_a_closed_tetrahedron_is_empty() {
    assert_eq!(wireframe_indices(&vec![0, 1, 2, 0, 3, 1, 1, 3, 2, 2, 3, 0]), Vec::<u32>::new());
}

#[test]
fn wireframe_of_a_fan_is_its_rim() {
    let lines = wireframe_indices(&vec![0, 1, 2, 0, 2, 3, 0, 3, 4]);
    assert_eq!(lines, vec![0u32, 1, 1, 2, 2, 3, 3, 4, 4, 0]);
}
