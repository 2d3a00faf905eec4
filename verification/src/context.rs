//! The backend context as the renderer drives it: what is bound, what has
//! been created for which geometry and material, and the commands that were
//! issued. The context is handed to every operation; nothing is kept behind
//! its back.
//!
//! A resource is created when it is first asked for and found again by the
//! identity of the geometry or material that it was created for. Every
//! operation changes the model of the backend's state and appends the
//! backend calls that bring the backend itself into that state.

use std::collections::HashMap;
use vstd::prelude::*;
use crate::camera::CameraSource;
use crate::geometry::{AttributeView, Geometry, GeometryView};
use crate::scene::{Shader, ShaderAttribute};
use crate::transform::TransformSource;

verus! {

broadcast use vstd::std_specs::hash::group_hash_axioms;

/// What a buffer holds: the vertices of a geometry, its triangle list, or
/// the line list of its wireframe.
#[derive(Clone, Copy, Debug, PartialEq, Eq)]
pub enum BufferKind {
    Vertex,
    Index,
    LineIndex,
}

/// A buffer of the backend. `length` counts vertices in a vertex buffer and
/// indices in the two others.
#[derive(Clone, Copy, Debug, PartialEq, Eq)]
pub struct Buffer {
    pub id: u64,
    pub kind: BufferKind,
    pub length: usize,
}

/// The primitive that a draw call assembles from the bound indices.
#[derive(Clone, Copy, Debug, PartialEq, Eq)]
pub enum PrimitiveMode {
    Triangles,
    Lines,
}

/// A call into the backend.
#[derive(Clone, Copy, Debug, PartialEq, Eq)]
pub enum Command {
    /// Compile and link the shader program of `material` as `program`.
    CreateProgram { program: u64, material: u64 },
    /// Make `program` the active program.
    UseProgram { program: u64 },
    /// Set the uniforms and textures that `material` declares.
    BindMaterial { program: u64, material: u64 },
    /// Set the projection, model-view, view and normal matrices: view and
    /// projection as `camera` gives them, model-view and normal as
    /// `transform` gives them under that view.
    BindUniforms { program: u64, camera: CameraSource, transform: TransformSource },
    /// Create `buffer` and fill it from the geometry `geometry`.
    CreateBuffer { buffer: Buffer, geometry: u64 },
    /// Bind `buffer` to the target of its kind.
    BindBuffer { buffer: Buffer },
    /// Let the program read its input at `location` from the attribute with
    /// the position `attribute` in the geometry behind the vertex buffer
    /// `buffer`.
    BindAttribute { buffer: Buffer, attribute: usize, location: u32 },
    /// Draw `count` indices of the bound index buffer, beginning at `offset`.
    DrawElements { mode: PrimitiveMode, count: usize, offset: usize },
}

/// Why the backend could not do what was asked of it.
#[derive(Clone, Copy, Debug, PartialEq, Eq)]
pub enum RenderError {
    /// The backend context is not current.
    InvalidContext,
    /// The backend has no room for another program or buffer.
    ResourceExhausted,
}

/// The state of a backend context.
#[verifier::ext_equal]
pub struct ContextView {
    /// The context is current: the backend can be called.
    pub current: bool,
    /// How many programs and buffers the backend can hold.
    pub capacity: u64,
    /// How many it holds. They are known by the numbers below `allocated`.
    pub allocated: u64,
    /// The active program.
    pub program: Option<u64>,
    /// The bound vertex buffer.
    pub array_buffer: Option<Buffer>,
    /// The bound index buffer.
    pub element_buffer: Option<Buffer>,
    /// The program of each material that has one.
    pub programs: Map<u64, u64>,
    /// The vertex buffer of each geometry that has one.
    pub vertex_buffers: Map<u64, Buffer>,
    /// The index buffer of each geometry that has one.
    pub index_buffers: Map<u64, Buffer>,
    /// The line index buffer of each geometry that has one.
    pub line_buffers: Map<u64, Buffer>,
    /// The backend calls issued so far and not yet taken.
    pub commands: Seq<Command>,
}

/// The number of elements that a buffer of the kind `kind` holds for
/// `geometry`.
pub open spec fn buffer_length(geometry: GeometryView, kind: BufferKind) -> nat {
    match kind {
        BufferKind::Vertex => geometry.vertex_count,
        BufferKind::Index => geometry.index.len(),
        BufferKind::LineIndex => geometry.lines().len(),
    }
}

/// The location at which a program with the vertex inputs `inputs` reads
/// the attribute `name`: that of the first of the first `n` inputs with this
/// name, if there is one.
pub open spec fn location_of(inputs: Seq<ShaderAttribute>, name: Seq<char>, n: int) -> Option<u32>
    decreases n,
{
    if n <= 0 {
        None
    } else {
        match location_of(inputs, name, n - 1) {
            Some(location) => Some(location),
            None => if inputs[n - 1].name@ == name {
                Some(inputs[n - 1].location)
            } else {
                None
            },
        }
    }
}

/// `commands`, followed by one `BindAttribute` for each of the first `n`
/// attributes whose name is the name of a vertex input, in the order of the
/// attributes. An attribute that the program does not read is passed over,
/// and so is an input that the geometry does not have.
pub open spec fn bind_attribute_commands(
    commands: Seq<Command>,
    attributes: Seq<AttributeView>,
    inputs: Seq<ShaderAttribute>,
    buffer: Buffer,
    n: int,
) -> Seq<Command>
    decreases n,
{
    if n <= 0 {
        commands
    } else {
        let before = bind_attribute_commands(commands, attributes, inputs, buffer, n - 1);
        match location_of(inputs, attributes[n - 1].name, inputs.len() as int) {
            Some(location) => before.push(
                Command::BindAttribute { buffer, attribute: (n - 1) as usize, location },
            ),
            None => before,
        }
    }
}

/// The number of draw calls among `commands`.
pub open spec fn draw_calls(commands: Seq<Command>) -> nat
    decreases commands.len(),
{
    if commands.len() == 0 {
        0
    } else if commands.last() is DrawElements {
        draw_calls(commands.drop_last()) + 1
    } else {
        draw_calls(commands.drop_last())
    }
}

impl ContextView {
    /// The buffers of one kind, by the identity of their geometry.
    pub open spec fn cache(self, kind: BufferKind) -> Map<u64, Buffer> {
        match kind {
            BufferKind::Vertex => self.vertex_buffers,
            BufferKind::Index => self.index_buffers,
            BufferKind::LineIndex => self.line_buffers,
        }
    }

    /// The context with `buffer` entered as the buffer of its kind for
    /// `geometry`.
    pub open spec fn with_buffer(self, geometry: u64, buffer: Buffer) -> Self {
        match buffer.kind {
            BufferKind::Vertex => ContextView {
                vertex_buffers: self.vertex_buffers.insert(geometry, buffer),
                ..self
            },
            BufferKind::Index => ContextView {
                index_buffers: self.index_buffers.insert(geometry, buffer),
                ..self
            },
            BufferKind::LineIndex => ContextView {
                line_buffers: self.line_buffers.insert(geometry, buffer),
                ..self
            },
        }
    }

    /// No more is held than there is room for, every resource that is found
    /// by an identity is one that was created, a buffer is of the kind under
    /// which it is found, and no two resources share a number.
    #[verifier::opaque]
    pub open spec fn wf(self) -> bool {
        &&& self.allocated <= self.capacity
        &&& forall|m: u64| #[trigger]
            self.programs.contains_key(m) ==> self.programs[m] < self.allocated
        &&& forall|kind: BufferKind, g: u64| #[trigger]
            self.cache(kind).contains_key(g) ==> self.cache(kind)[g].id < self.allocated
                && self.cache(kind)[g].kind == kind
        &&& forall|m: u64, n: u64|
            self.programs.contains_key(m) && self.programs.contains_key(n) && #[trigger] self.programs[m]
                == #[trigger] self.programs[n] ==> m == n
        &&& forall|j: BufferKind, g: u64, k: BufferKind, h: u64|
            self.cache(j).contains_key(g) && self.cache(k).contains_key(h) && (#[trigger] self.cache(
                j,
            )[g]).id == (#[trigger] self.cache(k)[h]).id ==> j == k && g == h
        &&& forall|m: u64, k: BufferKind, g: u64|
            self.programs.contains_key(m) && self.cache(k).contains_key(g) ==> #[trigger] self.programs[m]
                != (#[trigger] self.cache(k)[g]).id
    }

    /// The context after the backend call `command` was issued.
    pub open spec fn issue(self, command: Command) -> Self {
        ContextView { commands: self.commands.push(command), ..self }
    }

    /// Asks for the program of the material `material`. The program that the
    /// material has is found again; a material without one gets a new
    /// program, which is compiled once. Nothing is done in a context that
    /// is not current, nor for a new material when the backend is full.
    pub open spec fn get_program(self, material: u64) -> (Self, Result<u64, RenderError>) {
        if !self.current {
            (self, Err(RenderError::InvalidContext))
        } else if self.programs.contains_key(material) {
            (self, Ok(self.programs[material]))
        } else if self.allocated >= self.capacity {
            (self, Err(RenderError::ResourceExhausted))
        } else {
            let program = self.allocated;
            (
                ContextView {
                    allocated: (self.allocated + 1) as u64,
                    programs: self.programs.insert(material, program),
                    ..self
                }.issue(Command::CreateProgram { program, material }),
                Ok(program),
            )
        }
    }

    /// Asks for the buffer of the kind `kind` of `geometry`. The buffer that
    /// the geometry has is found again by the geometry's identity; a
    /// geometry without one gets a new buffer, which is filled once. Nothing
    /// is done in a context that is not current, nor for a new buffer when
    /// the backend is full.
    pub open spec fn get_buffer(self, geometry: GeometryView, kind: BufferKind) -> (
        Self,
        Result<Buffer, RenderError>,
    ) {
        if !self.current {
            (self, Err(RenderError::InvalidContext))
        } else if self.cache(kind).contains_key(geometry.id) {
            (self, Ok(self.cache(kind)[geometry.id]))
        } else if self.allocated >= self.capacity {
            (self, Err(RenderError::ResourceExhausted))
        } else {
            let buffer = Buffer {
                id: self.allocated,
                kind,
                length: buffer_length(geometry, kind) as usize,
            };
            (
                ContextView { allocated: (self.allocated + 1) as u64, ..self }.with_buffer(
                    geometry.id,
                    buffer,
                ).issue(Command::CreateBuffer { buffer, geometry: geometry.id }),
                Ok(buffer),
            )
        }
    }

    /// Makes `program` the active program. The backend is called only when
    /// another program, or none, was active.
    pub open spec fn set_program(self, program: u64) -> Self {
        if self.program == Some(program) {
            self
        } else {
            ContextView { program: Some(program), ..self }.issue(Command::UseProgram { program })
        }
    }

    /// Sets what the material declares for its program.
    pub open spec fn bind_material(self, program: u64, material: u64) -> Self {
        self.issue(Command::BindMaterial { program, material })
    }

    /// Sets the matrices of one draw call.
    pub open spec fn bind_uniforms(
        self,
        program: u64,
        camera: CameraSource,
        transform: TransformSource,
    ) -> Self {
        self.issue(Command::BindUniforms { program, camera, transform })
    }

    /// Binds the vertex buffer `buffer` of `geometry` and, one after the
    /// other, each attribute of the geometry that the program reads.
    pub open spec fn bind_attributes(
        self,
        geometry: GeometryView,
        inputs: Seq<ShaderAttribute>,
        buffer: Buffer,
    ) -> Self {
        let bound = ContextView { array_buffer: Some(buffer), ..self }.issue(Command::BindBuffer { buffer });
        ContextView {
            commands: bind_attribute_commands(
                bound.commands,
                geometry.attributes,
                inputs,
                buffer,
                geometry.attributes.len() as int,
            ),
            ..bound
        }
    }

    /// Binds `buffer` as the index buffer. The backend is called whatever was
    /// bound before.
    pub open spec fn set_buffer(self, buffer: Buffer) -> Self {
        ContextView { element_buffer: Some(buffer), ..self }.issue(Command::BindBuffer { buffer })
    }

    /// Draws `count` indices of the bound index buffer from its beginning.
    pub open spec fn draw_elements(self, mode: PrimitiveMode, count: usize) -> Self {
        self.issue(Command::DrawElements { mode, count, offset: 0 })
    }
}

/// The state of a context that was just made current: nothing is bound and
/// nothing has been created.
pub open spec fn fresh(capacity: u64) -> ContextView {
    ContextView {
        current: true,
        capacity,
        allocated: 0,
        program: None,
        array_buffer: None,
        element_buffer: None,
        programs: Map::empty(),
        vertex_buffers: Map::empty(),
        index_buffers: Map::empty(),
        line_buffers: Map::empty(),
        commands: Seq::empty(),
    }
}

/// A backend context. The renderer asks it for resources and issues its
/// backend calls through it; whoever owns the backend takes the calls and
/// makes them.
#[derive(Debug)]
pub struct Context {
    current: bool,
    capacity: u64,
    allocated: u64,
    program: Option<u64>,
    array_buffer: Option<Buffer>,
    element_buffer: Option<Buffer>,
    programs: HashMap<u64, u64>,
    vertex_buffers: HashMap<u64, Buffer>,
    index_buffers: HashMap<u64, Buffer>,
    line_buffers: HashMap<u64, Buffer>,
    commands: Vec<Command>,
}

impl View for Context {
    type V = ContextView;

    closed spec fn view(&self) -> ContextView {
        ContextView {
            current: self.current,
            capacity: self.capacity,
            allocated: self.allocated,
            program: self.program,
            array_buffer: self.array_buffer,
            element_buffer: self.element_buffer,
            programs: self.programs@,
            vertex_buffers: self.vertex_buffers@,
            index_buffers: self.index_buffers@,
            line_buffers: self.line_buffers@,
            commands: self.commands@,
        }
    }
}

impl Context {
    pub open spec fn wf(&self) -> bool {
        self@.wf()
    }

    /// A current context on a backend with room for `capacity` programs and
    /// buffers.
    pub fn new(capacity: u64) -> (context: Self)
        ensures
            context@ == fresh(capacity),
            context.wf(),
    {
        let context = Context {
            current: true,
            capacity,
            allocated: 0,
            program: None,
            array_buffer: None,
            element_buffer: None,
            programs: HashMap::new(),
            vertex_buffers: HashMap::new(),
            index_buffers: HashMap::new(),
            line_buffers: HashMap::new(),
            commands: Vec::new(),
        };
        proof {
            reveal(ContextView::wf);
            assert(context@ =~= fresh(capacity));
        }
        context
    }

    /// Whether the backend can be called.
    pub fn is_current(&self) -> (current: bool)
        ensures
            current == self@.current,
    {
        self.current
    }

    /// Records that the backend context was made current, or that it no
    /// longer is. What is bound and what was created is kept.
    pub fn set_current(&mut self, current: bool)
        ensures
            final(self)@ == (ContextView { current, ..old(self)@ }),
            old(self).wf() ==> final(self).wf(),
    {
        self.current = current;
        proof {
            lemma_same_resources_wf(old(self)@, self@);
        }
    }

    /// How many programs and buffers the backend can hold.
    pub fn capacity(&self) -> (capacity: u64)
        ensures
            capacity == self@.capacity,
    {
        self.capacity
    }

    /// How many programs and buffers were created.
    pub fn allocated(&self) -> (allocated: u64)
        ensures
            allocated == self@.allocated,
    {
        self.allocated
    }

    /// The active program.
    pub fn program(&self) -> (program: Option<u64>)
        ensures
            program == self@.program,
    {
        self.program
    }

    /// The bound vertex buffer.
    pub fn array_buffer(&self) -> (buffer: Option<Buffer>)
        ensures
            buffer == self@.array_buffer,
    {
        self.array_buffer
    }

    /// The bound index buffer.
    pub fn element_buffer(&self) -> (buffer: Option<Buffer>)
        ensures
            buffer == self@.element_buffer,
    {
        self.element_buffer
    }

    /// The backend calls that were issued and not yet taken, oldest first.
    pub fn commands(&self) -> (commands: &Vec<Command>)
        ensures
            commands@ == self@.commands,
    {
        &self.commands
    }

    /// Hands out the backend calls that were issued, oldest first, and
    /// forgets them. Nothing else changes.
    pub fn take_commands(&mut self) -> (commands: Vec<Command>)
        ensures
            commands@ == old(self)@.commands,
            final(self)@ == (ContextView { commands: Seq::empty(), ..old(self)@ }),
            old(self).wf() ==> final(self).wf(),
    {
        let mut commands: Vec<Command> = Vec::new();
        std::mem::swap(&mut commands, &mut self.commands);
        proof {
            lemma_same_resources_wf(old(self)@, self@);
        }
        commands
    }

    /// The program of `material`, if one was created.
    pub fn program_of(&self, material: u64) -> (program: Option<u64>)
        ensures
            program == if self@.programs.contains_key(material) {
                Some(self@.programs[material])
            } else {
                None
            },
    {
        match self.programs.get(&material) {
            Some(program) => Some(*program),
            None => None,
        }
    }

    /// The buffer of the kind `kind` of the geometry with the identity
    /// `geometry`, if one was created.
    pub fn buffer_of(&self, geometry: u64, kind: BufferKind) -> (buffer: Option<Buffer>)
        ensures
            buffer == if self@.cache(kind).contains_key(geometry) {
                Some(self@.cache(kind)[geometry])
            } else {
                None
            },
    {
        let found = match kind {
            BufferKind::Vertex => self.vertex_buffers.get(&geometry),
            BufferKind::Index => self.index_buffers.get(&geometry),
            BufferKind::LineIndex => self.line_buffers.get(&geometry),
        };
        match found {
            Some(buffer) => Some(*buffer),
            None => None,
        }
    }

    fn issue(&mut self, command: Command)
        ensures
            final(self)@ == old(self)@.issue(command),
    {
        self.commands.push(command);
    }

    /// Resolves the program of the material `material`, creating it when
    /// the material is seen for the first time.
    pub fn get_program(&mut self, material: u64) -> (result: Result<u64, RenderError>)
        requires
            old(self).wf(),
        ensures
            final(self).wf(),
            final(self)@ == old(self)@.get_program(material).0,
            result == old(self)@.get_program(material).1,
    {
        proof {
            lemma_get_program_wf(self@, material);
        }
        if !self.current {
            return Err(RenderError::InvalidContext);
        }
        if let Some(program) = self.program_of(material) {
            return Ok(program);
        }
        if self.allocated >= self.capacity {
            return Err(RenderError::ResourceExhausted);
        }
        let program = self.allocated;
        self.allocated = self.allocated + 1;
        self.programs.insert(material, program);
        self.issue(Command::CreateProgram { program, material });
        assert(self@ =~= old(self)@.get_program(material).0);
        Ok(program)
    }

    fn get_buffer(&mut self, geometry: &Geometry, kind: BufferKind) -> (result: Result<Buffer, RenderError>)
        requires
            old(self).wf(),
        ensures
            final(self).wf(),
            final(self)@ == old(self)@.get_buffer(geometry@, kind).0,
            result == old(self)@.get_buffer(geometry@, kind).1,
    {
        proof {
            lemma_get_buffer_wf(self@, geometry@, kind);
        }
        if !self.current {
            return Err(RenderError::InvalidContext);
        }
        let id = geometry.id();
        if let Some(buffer) = self.buffer_of(id, kind) {
            return Ok(buffer);
        }
        if self.allocated >= self.capacity {
            return Err(RenderError::ResourceExhausted);
        }
        let length = match kind {
            BufferKind::Vertex => geometry.vertex_count(),
            BufferKind::Index => geometry.index().len(),
            BufferKind::LineIndex => geometry.line_index().len(),
        };
        let buffer = Buffer { id: self.allocated, kind, length };
        self.allocated = self.allocated + 1;
        match kind {
            BufferKind::Vertex => {
                self.vertex_buffers.insert(id, buffer);
            },
            BufferKind::Index => {
                self.index_buffers.insert(id, buffer);
            },
            BufferKind::LineIndex => {
                self.line_buffers.insert(id, buffer);
            },
        }
        self.issue(Command::CreateBuffer { buffer, geometry: id });
        assert(self@ =~= old(self)@.get_buffer(geometry@, kind).0);
        Ok(buffer)
    }

    /// Resolves the vertex buffer of `geometry`, creating it when it is
    /// asked for the first time.
    pub fn get_vertex_buffer(&mut self, geometry: &Geometry) -> (result: Result<Buffer, RenderError>)
        requires
            old(self).wf(),
        ensures
            final(self).wf(),
            final(self)@ == old(self)@.get_buffer(geometry@, BufferKind::Vertex).0,
            result == old(self)@.get_buffer(geometry@, BufferKind::Vertex).1,
    {
        self.get_buffer(geometry, BufferKind::Vertex)
    }

    /// Resolves the buffer that holds the triangle list of `geometry`,
    /// creating it when it is asked for the first time.
    pub fn get_index_buffer(&mut self, geometry: &Geometry) -> (result: Result<Buffer, RenderError>)
        requires
            old(self).wf(),
        ensures
            final(self).wf(),
            final(self)@ == old(self)@.get_buffer(geometry@, BufferKind::Index).0,
            result == old(self)@.get_buffer(geometry@, BufferKind::Index).1,
    {
        self.get_buffer(geometry, BufferKind::Index)
    }

    /// Resolves the buffer that holds the wireframe of `geometry`. The line
    /// list is derived from the triangle list when the buffer is asked for
    /// the first time.
    pub fn get_line_index_buffer(&mut self, geometry: &Geometry) -> (result: Result<Buffer, RenderError>)
        requires
            old(self).wf(),
        ensures
            final(self).wf(),
            final(self)@ == old(self)@.get_buffer(geometry@, BufferKind::LineIndex).0,
            result == old(self)@.get_buffer(geometry@, BufferKind::LineIndex).1,
    {
        self.get_buffer(geometry, BufferKind::LineIndex)
    }

    pub(crate) fn set_program(&mut self, program: u64)
        ensures
            old(self).wf() ==> final(self).wf(),
            final(self)@ == old(self)@.set_program(program),
    {
        let active = match self.program {
            Some(active) => active == program,
            None => false,
        };
        if !active {
            self.program = Some(program);
            self.issue(Command::UseProgram { program });
        }
        proof {
            lemma_same_resources_wf(old(self)@, self@);
        }
    }

    pub(crate) fn bind_material(&mut self, program: u64, material: u64)
        ensures
            old(self).wf() ==> final(self).wf(),
            final(self)@ == old(self)@.bind_material(program, material),
    {
        self.issue(Command::BindMaterial { program, material });
        proof {
            lemma_same_resources_wf(old(self)@, self@);
        }
    }

    pub(crate) fn bind_uniforms(&mut self, program: u64, camera: CameraSource, transform: TransformSource)
        ensures
            old(self).wf() ==> final(self).wf(),
            final(self)@ == old(self)@.bind_uniforms(program, camera, transform),
    {
        self.issue(Command::BindUniforms { program, camera, transform });
        proof {
            lemma_same_resources_wf(old(self)@, self@);
        }
    }

    pub(crate) fn bind_attributes(&mut self, geometry: &Geometry, shader: &Shader, buffer: Buffer)
        ensures
            old(self).wf() ==> final(self).wf(),
            final(self)@ == old(self)@.bind_attributes(geometry@, shader.attributes@, buffer),
    {
        self.array_buffer = Some(buffer);
        self.issue(Command::BindBuffer { buffer });
        let ghost bound = self@;
        let attributes = geometry.attributes();
        let mut i: usize = 0;
        while i < attributes.len()
            invariant
                i <= attributes.len(),
                attributes@.map_values(|a: crate::geometry::Attribute| a@) == geometry@.attributes,
                self@ == (ContextView {
                    commands: bind_attribute_commands(
                        bound.commands,
                        geometry@.attributes,
                        shader.attributes@,
                        buffer,
                        i as int,
                    ),
                    ..bound
                }),
            decreases attributes.len() - i,
        {
            assert(attributes@[i as int]@ == geometry@.attributes[i as int]);
            match find_location(shader, &attributes[i].name) {
                Some(location) => {
                    self.issue(Command::BindAttribute { buffer, attribute: i, location });
                },
                None => {},
            }
            i = i + 1;
        }
        proof {
            lemma_same_resources_wf(old(self)@, self@);
        }
    }

    pub(crate) fn set_buffer(&mut self, buffer: Buffer)
        ensures
            old(self).wf() ==> final(self).wf(),
            final(self)@ == old(self)@.set_buffer(buffer),
    {
        self.element_buffer = Some(buffer);
        self.issue(Command::BindBuffer { buffer });
        proof {
            lemma_same_resources_wf(old(self)@, self@);
        }
    }

    pub(crate) fn draw_elements(&mut self, mode: PrimitiveMode, count: usize)
        ensures
            old(self).wf() ==> final(self).wf(),
            final(self)@ == old(self)@.draw_elements(mode, count),
    {
        self.issue(Command::DrawElements { mode, count, offset: 0 });
        proof {
            lemma_same_resources_wf(old(self)@, self@);
        }
    }
}

/// Finds the location at which a shader program reads the attribute `name`.
pub fn find_location(shader: &Shader, name: &String) -> (location: Option<u32>)
    ensures
        location == location_of(shader.attributes@, name@, shader.attributes@.len() as int),
{
    let mut location: Option<u32> = None;
    let mut j: usize = 0;
    while j < shader.attributes.len()
        invariant
            j <= shader.attributes.len(),
            location == location_of(shader.attributes@, name@, j as int),
        decreases shader.attributes.len() - j,
    {
        if location.is_none() && shader.attributes[j].name == *name {
            location = Some(shader.attributes[j].location);
        }
        j = j + 1;
    }
    location
}

/// Asking twice for the same buffer of the same geometry gives the same
/// buffer both times: the second request finds the buffer of the first,
/// creates nothing and issues no backend call.
pub proof fn lemma_get_buffer_twice(context: ContextView, geometry: GeometryView, kind: BufferKind)
    requires
        context.get_buffer(geometry, kind).1 is Ok,
    ensures
        ({
            let first = context.get_buffer(geometry, kind);
            first.0.get_buffer(geometry, kind) == first
        }),
{
}

/// Asking twice for the program of the same material gives the same program
/// both times, and the program is compiled once.
pub proof fn lemma_get_program_twice(context: ContextView, material: u64)
    requires
        context.get_program(material).1 is Ok,
    ensures
        ({
            let first = context.get_program(material);
            first.0.get_program(material) == first
        }),
{
}

/// Buffers are kept by the identity of their geometry, not by its data: two
/// geometries with different identities never get the same buffer, however
/// alike they are.
pub proof fn lemma_buffers_by_identity(
    context: ContextView,
    first: GeometryView,
    second: GeometryView,
    kind: BufferKind,
)
    requires
        context.wf(),
        first.id != second.id,
        context.get_buffer(first, kind).1 is Ok,
        context.get_buffer(first, kind).0.get_buffer(second, kind).1 is Ok,
    ensures
        ({
            let one = context.get_buffer(first, kind);
            let two = one.0.get_buffer(second, kind);
            one.1->Ok_0.id != two.1->Ok_0.id
        }),
{
    reveal(ContextView::wf);
    let one = context.get_buffer(first, kind);
    lemma_get_buffer_wf(context, first, kind);
    assert(one.0.cache(kind).contains_key(first.id));
    assert(one.0.cache(kind)[first.id] == one.1->Ok_0);
}

/// The input `j` is the first of `inputs` with the name `name`.
pub open spec fn first_named(inputs: Seq<ShaderAttribute>, name: Seq<char>, j: int) -> bool {
    &&& 0 <= j < inputs.len()
    &&& inputs[j].name@ == name
    &&& forall|k: int| 0 <= k < j ==> (#[trigger] inputs[k]).name@ != name
}

/// A name has the location of the first input that carries it, and no
/// location when no input carries it.
pub proof fn lemma_location_of(inputs: Seq<ShaderAttribute>, name: Seq<char>, n: int)
    requires
        0 <= n <= inputs.len(),
    ensures
        match location_of(inputs, name, n) {
            Some(location) => exists|j: int|
                j < n && #[trigger] first_named(inputs, name, j) && inputs[j].location == location,
            None => forall|j: int| 0 <= j < n ==> (#[trigger] inputs[j]).name@ != name,
        },
    decreases n,
{
    if n > 0 {
        lemma_location_of(inputs, name, n - 1);
        match location_of(inputs, name, n - 1) {
            Some(location) => {
                let j = choose|j: int|
                    j < n - 1 && #[trigger] first_named(inputs, name, j) && inputs[j].location == location;
                assert(j < n && first_named(inputs, name, j) && inputs[j].location == location);
            },
            None => {
                if inputs[n - 1].name@ == name {
                    assert(first_named(inputs, name, n - 1));
                }
            },
        }
    }
}

/// Binding attributes keeps what was issued before and adds nothing but the
/// binding of attributes. An attribute is bound exactly when the program
/// reads an input of its name, and then to the location of that input: an
/// attribute that the program does not read is passed over, and so is an
/// input for which the geometry has no attribute.
pub proof fn lemma_bind_attribute_commands(
    commands: Seq<Command>,
    attributes: Seq<AttributeView>,
    inputs: Seq<ShaderAttribute>,
    buffer: Buffer,
    n: int,
)
    requires
        0 <= n <= usize::MAX,
    ensures
        ({
            let after = bind_attribute_commands(commands, attributes, inputs, buffer, n);
            &&& commands.len() <= after.len() <= commands.len() + n
            &&& after.subrange(0, commands.len() as int) == commands
            &&& forall|i: int|
                commands.len() <= i < after.len() ==> {
                    &&& #[trigger] after[i] matches Command::BindAttribute { buffer: bound, attribute, location }
                    &&& bound == buffer
                    &&& attribute < n
                    &&& location_of(inputs, attributes[attribute as int].name, inputs.len() as int) == Some(
                        location,
                    )
                }
            &&& forall|a: int|
                0 <= a < n ==> (#[trigger] location_of(inputs, attributes[a].name, inputs.len() as int)
                    matches Some(location) ==> exists|i: int|
                    commands.len() <= i < after.len() && #[trigger] after[i] == (Command::BindAttribute {
                        buffer,
                        attribute: a as usize,
                        location,
                    }))
        }),
    decreases n,
{
    if n > 0 {
        lemma_bind_attribute_commands(commands, attributes, inputs, buffer, n - 1);
        let before = bind_attribute_commands(commands, attributes, inputs, buffer, n - 1);
        let after = bind_attribute_commands(commands, attributes, inputs, buffer, n);
        assert(after.subrange(0, commands.len() as int) =~= before.subrange(0, commands.len() as int));
        assert forall|a: int|
            0 <= a < n implies (#[trigger] location_of(inputs, attributes[a].name, inputs.len() as int)
            matches Some(location) ==> exists|i: int|
            commands.len() <= i < after.len() && #[trigger] after[i] == (Command::BindAttribute {
                buffer,
                attribute: a as usize,
                location,
            })) by {
            if let Some(location) = location_of(inputs, attributes[a].name, inputs.len() as int) {
                let command = Command::BindAttribute { buffer, attribute: a as usize, location };
                if a < n - 1 {
                    let i = choose|i: int| commands.len() <= i < before.len() && #[trigger] before[i] == command;
                    assert(after[i] == command);
                } else {
                    assert(after[before.len() as int] == command);
                }
            }
        }
    } else {
        assert(commands.subrange(0, commands.len() as int) =~= commands);
    }
}

/// Making the active program active again is no backend call and changes
/// nothing.
pub proof fn lemma_set_program_twice(context: ContextView, program: u64)
    ensures
        context.set_program(program).set_program(program) == context.set_program(program),
        context.program == Some(program) ==> context.set_program(program) == context,
{
}

/// One more command is one more draw call if it is a draw call, and none
/// otherwise.
pub proof fn lemma_draw_calls_issue(context: ContextView, command: Command)
    ensures
        draw_calls(context.issue(command).commands) == draw_calls(context.commands) + if command is DrawElements {
            1nat
        } else {
            0nat
        },
{
    assert(context.commands.push(command).drop_last() =~= context.commands);
}

/// Binding attributes draws nothing.
pub proof fn lemma_draw_calls_bind_attributes(
    commands: Seq<Command>,
    attributes: Seq<AttributeView>,
    inputs: Seq<ShaderAttribute>,
    buffer: Buffer,
    n: int,
)
    ensures
        draw_calls(bind_attribute_commands(commands, attributes, inputs, buffer, n)) == draw_calls(commands),
    decreases n,
{
    if n > 0 {
        lemma_draw_calls_bind_attributes(commands, attributes, inputs, buffer, n - 1);
        let before = bind_attribute_commands(commands, attributes, inputs, buffer, n - 1);
        match location_of(inputs, attributes[n - 1].name, inputs.len() as int) {
            Some(location) => {
                let command = Command::BindAttribute { buffer, attribute: (n - 1) as usize, location };
                assert(before.push(command).drop_last() =~= before);
            },
            None => {},
        }
    }
}

/// Of all that a context is asked to do, only `draw_elements` draws.
pub proof fn lemma_draw_calls_of_requests(
    context: ContextView,
    geometry: GeometryView,
    kind: BufferKind,
    id: u64,
)
    ensures
        draw_calls(context.get_program(id).0.commands) == draw_calls(context.commands),
        draw_calls(context.get_buffer(geometry, kind).0.commands) == draw_calls(context.commands),
        draw_calls(context.set_program(id).commands) == draw_calls(context.commands),
{
    let program = Command::CreateProgram { program: context.allocated, material: id };
    assert(context.commands.push(program).drop_last() =~= context.commands);
    let buffer = Buffer { id: context.allocated, kind, length: buffer_length(geometry, kind) as usize };
    let create = Command::CreateBuffer { buffer, geometry: geometry.id };
    assert(context.commands.push(create).drop_last() =~= context.commands);
    let activate = Command::UseProgram { program: id };
    assert(context.commands.push(activate).drop_last() =~= context.commands);
}

/// The buffers that `context` holds for the identity of `geometry` were
/// made for `geometry`: each has the length that the geometry gives it.
#[verifier::opaque]
pub open spec fn made_for(context: ContextView, geometry: GeometryView) -> bool {
    forall|kind: BufferKind| #[trigger]
        context.cache(kind).contains_key(geometry.id) ==> context.cache(kind)[geometry.id].length
            == buffer_length(geometry, kind)
}

/// Whether the buffers of a context were made for a geometry depends on the
/// buffers only.
pub proof fn lemma_same_buffers_made_for(before: ContextView, after: ContextView, geometry: GeometryView)
    requires
        after.vertex_buffers == before.vertex_buffers,
        after.index_buffers == before.index_buffers,
        after.line_buffers == before.line_buffers,
    ensures
        made_for(before, geometry) ==> made_for(after, geometry),
{
    reveal(made_for);
    assert forall|k: BufferKind| #[trigger] after.cache(k) == before.cache(k) by {}
}

/// A request for a buffer of a geometry gives a buffer of the length that
/// the geometry gives it, and keeps the buffers of that geometry as they
/// were made for it.
pub proof fn lemma_get_buffer_made_for(context: ContextView, geometry: GeometryView, kind: BufferKind)
    requires
        made_for(context, geometry),
        geometry.fits(),
    ensures
        made_for(context.get_buffer(geometry, kind).0, geometry),
        context.get_buffer(geometry, kind).1 matches Ok(buffer) ==> buffer.length == buffer_length(
            geometry,
            kind,
        ),
{
    reveal(made_for);
    let after = context.get_buffer(geometry, kind).0;
    assert forall|k: BufferKind| #[trigger] after.cache(k).contains_key(geometry.id) implies after.cache(
        k,
    )[geometry.id].length == buffer_length(geometry, k) by {
        if context.cache(k).contains_key(geometry.id) {
        }
    }
}

/// In a well-formed context a buffer is of the kind under which it is held,
/// and buffers that are held for different geometries, or under different
/// kinds, are different buffers.
pub proof fn lemma_buffers_differ(context: ContextView, j: BufferKind, g: u64, k: BufferKind, h: u64)
    requires
        context.wf(),
        context.cache(j).contains_key(g),
        context.cache(k).contains_key(h),
        j != k || g != h,
    ensures
        context.cache(j)[g].kind == j,
        context.cache(k)[h].kind == k,
        context.cache(j)[g].id != context.cache(k)[h].id,
{
    reveal(ContextView::wf);
}

/// Whether a context is well-formed depends on what it holds only, not on
/// what is bound or on the calls that were issued.
pub proof fn lemma_same_resources_wf(before: ContextView, after: ContextView)
    requires
        after.capacity == before.capacity,
        after.allocated == before.allocated,
        after.programs == before.programs,
        after.vertex_buffers == before.vertex_buffers,
        after.index_buffers == before.index_buffers,
        after.line_buffers == before.line_buffers,
    ensures
        before.wf() ==> after.wf(),
{
    reveal(ContextView::wf);
    assert forall|k: BufferKind| #[trigger] after.cache(k) == before.cache(k) by {}
}

/// A request for a buffer leaves a well-formed context well-formed.
pub proof fn lemma_get_buffer_wf(context: ContextView, geometry: GeometryView, kind: BufferKind)
    requires
        context.wf(),
    ensures
        context.get_buffer(geometry, kind).0.wf(),
{
    reveal(ContextView::wf);
    let after = context.get_buffer(geometry, kind).0;
    if after != context {
        let buffer = context.get_buffer(geometry, kind).1->Ok_0;
        assert forall|k: BufferKind, g: u64| #[trigger] after.cache(k).contains_key(g) implies (after.cache(k)[g]
            == buffer && k == kind && g == geometry.id) || (context.cache(k).contains_key(g)
            && context.cache(k)[g] == after.cache(k)[g]) by {}
        assert(after.programs == context.programs);
    }
}

/// A request for a program leaves a well-formed context well-formed.
pub proof fn lemma_get_program_wf(context: ContextView, material: u64)
    requires
        context.wf(),
    ensures
        context.get_program(material).0.wf(),
{
    reveal(ContextView::wf);
    let after = context.get_program(material).0;
    if after != context {
        assert forall|k: BufferKind| #[trigger] after.cache(k) == context.cache(k) by {}
    }
}

} // verus!
