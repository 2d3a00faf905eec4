use sprite_gl_renderer::backend::{draw_mode, index_type};
use sprite_gl_renderer::context::{
    find_location, Buffer, BufferKind, Command, Context, PrimitiveMode, RenderError,
};
use sprite_gl_renderer::geometry::Geometry;
use sprite_gl_renderer::scene::{Shader, ShaderAttribute};

fn input(name: &str, location: u32) -> ShaderAttribute {
    ShaderAttribute { name: name.to_string(), location }
}

#[test]
fn new_context_is_current_and_empty() {
    let context = Context::new(16);
    assert!(context.is_current());
    assert_eq!(context.capacity(), 16);
    assert_eq!(context.allocated(), 0);
    assert_eq!(context.program(), None);
    assert_eq!(context.array_buffer(), None);
    assert_eq!(context.element_buffer(), None);
    assert_eq!(context.program_of(1), None);
    assert_eq!(context.buffer_of(0, BufferKind::Index), None);
    assert!(context.commands().is_empty());
}

#[test]
fn index_buffer_is_created_with_the_length_of_the_triangle_list() {
    let mut context = Context::new(16);
    let quad = Geometry::quad(5);
    let buffer = context.get_index_buffer(&quad);
    let expected = Buffer { id: 0, kind: BufferKind::Index, length: 6 };
    assert_eq!(buffer, Ok(expected));
    assert_eq!(context.commands(), &vec![Command::CreateBuffer { buffer: expected, geometry: 5 }]);
    assert_eq!(context.allocated(), 1);
    assert_eq!(context.buffer_of(5, BufferKind::Index), Some(expected));
}

#[test]
fn line_index_buffer_is_created_with_the_length_of_the_wireframe() {
    let mut context = Context::new(16);
    let quad = Geometry::quad(5);
    let expected = Buffer { id: 0, kind: BufferKind::LineIndex, length: 8 };
    assert_eq!(context.get_line_index_buffer(&quad), Ok(expected));
    assert_eq!(context.commands(), &vec![Command::CreateBuffer { buffer: expected, geometry: 5 }]);
}

#[test]
fn vertex_buffer_is_created_with_the_number_of_vertices() {
    let mut context = Context::new(16);
    let quad = Geometry::quad(5);
    let expected = Buffer { id: 0, kind: BufferKind::Vertex, length: 4 };
    assert_eq!(context.get_vertex_buffer(&quad), Ok(expected));
    assert_eq!(context.commands(), &vec![Command::CreateBuffer { buffer: expected, geometry: 5 }]);
}

#[test]
fn asking_twice_for_the_index_buffer_gives_the_same_buffer() {
    let mut context = Context::new(16);
    let quad = Geometry::quad(5);
    let first = context.get_index_buffer(&quad).unwrap();
    let second = context.get_index_buffer(&quad).unwrap();
    assert_eq!(first, second);
    assert_eq!(context.allocated(), 1);
    assert_eq!(context.commands().len(), 1);
}

#[test]
fn asking_twice_for_the_line_index_buffer_gives_the_same_buffer() {
    let mut context = Context::new(16);
    let quad = Geometry::quad(5);
    let first = context.get_line_index_buffer(&quad).unwrap();
    let second = context.get_line_index_buffer(&quad).unwrap();
    assert_eq!(first, second);
    assert_eq!(context.allocated(), 1);
    assert_eq!(context.commands().len(), 1);
}

#[test]
fn the_three_buffers_of_a_geometry_are_different_buffers() {
    let mut context = Context::new(16);
    let quad = Geometry::quad(5);
    let vertices = context.get_vertex_buffer(&quad).unwrap();
    let triangles = context.get_index_buffer(&quad).unwrap();
    let lines = context.get_line_index_buffer(&quad).unwrap();
    assert_eq!((vertices.id, triangles.id, lines.id), (0, 1, 2));
    assert_eq!(context.allocated(), 3);
}

#[test]
fn geometries_with_the_same_data_and_different_identities_get_different_buffers() {
    let mut context = Context::new(16);
    let one = Geometry::quad(1);
    let two = Geometry::quad(2);
    let first = context.get_index_buffer(&one).unwrap();
    let second = context.get_index_buffer(&two).unwrap();
    assert_ne!(first.id, second.id);
    assert_eq!(first.length, second.length);
    assert_eq!(context.get_index_buffer(&one), Ok(first));
    assert_eq!(context.get_index_buffer(&two), Ok(second));
    assert_eq!(context.allocated(), 2);
}

#[test]
fn a_geometry_is_known_by_its_identity_alone() {
    let mut context = Context::new(16);
    let first = context.get_index_buffer(&Geometry::quad(1)).unwrap();
    let again = context.get_index_buffer(&Geometry::quad(1)).unwrap();
    assert_eq!(first, again);
}

#[test]
fn program_is_created_once_for_each_material() {
    let mut context = Context::new(16);
    assert_eq!(context.get_program(40), Ok(0));
    assert_eq!(context.get_program(41), Ok(1));
    assert_eq!(context.get_program(40), Ok(0));
    assert_eq!(
        context.commands(),
        &vec![
            Command::CreateProgram { program: 0, material: 40 },
            Command::CreateProgram { program: 1, material: 41 },
        ]
    );
    assert_eq!(context.program_of(41), Some(1));
    assert_eq!(context.program(), None);
}

#[test]
fn requests_fail_in_a_context_that_is_not_current() {
    let mut context = Context::new(16);
    let quad = Geometry::quad(5);
    context.set_current(false);
    assert!(!context.is_current());
    assert_eq!(context.get_vertex_buffer(&quad), Err(RenderError::InvalidContext));
    assert_eq!(context.get_index_buffer(&quad), Err(RenderError::InvalidContext));
    assert_eq!(context.get_line_index_buffer(&quad), Err(RenderError::InvalidContext));
    assert_eq!(context.get_program(1), Err(RenderError::InvalidContext));
    assert_eq!(context.allocated(), 0);
    assert!(context.commands().is_empty());
}

#[test]
fn a_buffer_that_exists_is_not_handed_out_by_a_context_that_is_not_current() {
    let mut context = Context::new(16);
    let quad = Geometry::quad(5);
    let buffer = context.get_index_buffer(&quad).unwrap();
    context.set_current(false);
    assert_eq!(context.get_index_buffer(&quad), Err(RenderError::InvalidContext));
    context.set_current(true);
    assert_eq!(context.get_index_buffer(&quad), Ok(buffer));
}

#[test]
fn requests_fail_when_the_backend_is_full() {
    let mut context = Context::new(2);
    let quad = Geometry::quad(5);
    assert_eq!(context.get_program(1), Ok(0));
    assert!(context.get_index_buffer(&quad).is_ok());
    assert_eq!(context.get_line_index_buffer(&quad), Err(RenderError::ResourceExhausted));
    assert_eq!(context.get_program(2), Err(RenderError::ResourceExhausted));
    assert_eq!(context.allocated(), 2);
    assert_eq!(context.commands().len(), 2);
}

#[test]
fn what_exists_is_still_found_when_the_backend_is_full() {
    let mut context = Context::new(1);
    let quad = Geometry::quad(5);
    let buffer = context.get_index_buffer(&quad).unwrap();
    assert_eq!(context.get_index_buffer(&quad), Ok(buffer));
    assert_eq!(context.get_vertex_buffer(&quad), Err(RenderError::ResourceExhausted));
}

#[test]
fn a_backend_without_room_creates_nothing() {
    let mut context = Context::new(0);
    assert_eq!(context.get_program(1), Err(RenderError::ResourceExhausted));
    assert_eq!(context.get_index_buffer(&Geometry::quad(0)), Err(RenderError::ResourceExhausted));
}

#[test]
fn taking_the_commands_empties_the_list_and_keeps_the_rest() {
    let mut context = Context::new(16);
    let quad = Geometry::quad(5);
    let buffer = context.get_index_buffer(&quad).unwrap();
    let taken = context.take_commands();
    assert_eq!(taken, vec![Command::CreateBuffer { buffer, geometry: 5 }]);
    assert!(context.commands().is_empty());
    assert_eq!(context.allocated(), 1);
    assert_eq!(context.get_index_buffer(&quad), Ok(buffer));
    assert!(context.take_commands().is_empty());
}

#[test]
fn location_is_found_by_name() {
    let shader = Shader { attributes: vec![input("position", 0), input("normal", 3), input("uv", 7)] };
    assert_eq!(find_location(&shader, &"position".to_string()), Some(0));
    assert_eq!(find_location(&shader, &"normal".to_string()), Some(3));
    assert_eq!(find_location(&shader, &"uv".to_string()), Some(7));
}

#[test]
fn location_of_a_name_that_the_shader_does_not_read_is_none() {
    let shader = Shader { attributes: vec![input("position", 0), input("uv", 7)] };
    assert_eq!(find_location(&shader, &"uv2".to_string()), None);
    assert_eq!(find_location(&shader, &"Position".to_string()), None);
    assert_eq!(find_location(&Shader { attributes: Vec::new() }, &"position".to_string()), None);
}

#[test]
fn location_is_that_of_the_first_input_of_a_name() {
    let shader = Shader { attributes: vec![input("uv", 5), input("uv", 6)] };
    assert_eq!(find_location(&shader, &"uv".to_string()), Some(5));
}

#[test]
fn draw_modes_are_the_numbers_of_the_backend() {
    assert_eq!(draw_mode(PrimitiveMode::Triangles), gl::TRIANGLES);
    assert_eq!(draw_mode(PrimitiveMode::Lines), gl::LINES);
    assert_eq!(draw_mode(PrimitiveMode::Triangles), 4);
    assert_eq!(draw_mode(PrimitiveMode::Lines), 1);
}

#[test]
fn index_type_is_the_number_of_unsigned_int() {
    assert_eq!(index_type(), gl::UNSIGNED_INT);
    assert_eq!(index_type(), 0x1405);
}
