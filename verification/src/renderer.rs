//! The sprite renderer: one shared quad, drawn once for every sprite of a
//! scene with the sprite's own transform and material.

use vstd::prelude::*;
use crate::camera::{camera_source, resolve_camera, CameraSource};
use crate::context::{
    buffer_length, draw_calls, lemma_bind_attribute_commands, lemma_buffers_differ,
    lemma_draw_calls_bind_attributes, lemma_draw_calls_issue, lemma_draw_calls_of_requests,
    lemma_get_buffer_made_for, lemma_get_buffer_wf, lemma_get_program_wf, lemma_same_buffers_made_for,
    lemma_same_resources_wf, made_for, BufferKind, Command, Context, ContextView, PrimitiveMode, RenderError,
};
use crate::geometry::{lemma_quad_shape, quad_view, Geometry, GeometryView, QUAD_ID};
use crate::scene::{Material, Scene, Sprite};
use crate::transform::{resolve_transform, transform_source, TransformSource};

verus! {

/// Where a renderer stands in its life.
#[derive(Clone, Copy, Debug, PartialEq, Eq)]
pub enum Lifecycle {
    Uninitialized,
    Initialized,
    Rendering,
    Cleared,
}

/// The index buffer that a material draws with: the line list for a
/// wireframe, else the triangle list.
pub open spec fn index_kind(wireframe: bool) -> BufferKind {
    if wireframe {
        BufferKind::LineIndex
    } else {
        BufferKind::Index
    }
}

/// The primitive that a material draws: lines for a wireframe, else
/// triangles.
pub open spec fn primitive_mode(wireframe: bool) -> PrimitiveMode {
    if wireframe {
        PrimitiveMode::Lines
    } else {
        PrimitiveMode::Triangles
    }
}

/// Binds `material` and `geometry` and draws once. In this order: the
/// material's program is resolved and made active, the material and the
/// matrices of this draw are set, the vertex buffer is resolved and the
/// attributes are bound, the index buffer that the material asks for is
/// resolved and bound, and all of its indices are drawn. The first request
/// that the backend cannot meet ends the sequence; what was done before it
/// stays done.
pub open spec fn draw(
    context: ContextView,
    geometry: GeometryView,
    material: Material,
    camera: CameraSource,
    transform: TransformSource,
) -> (ContextView, Result<(), RenderError>) {
    let (resolved, program) = context.get_program(material.id);
    match program {
        Err(error) => (resolved, Err(error)),
        Ok(program) => {
            let uniforms = resolved.set_program(program).bind_material(program, material.id).bind_uniforms(
                program,
                camera,
                transform,
            );
            let (filled, vertices) = uniforms.get_buffer(geometry, BufferKind::Vertex);
            match vertices {
                Err(error) => (filled, Err(error)),
                Ok(vertices) => {
                    let attributes = filled.bind_attributes(geometry, material.shader.attributes@, vertices);
                    let (indexed, indices) = attributes.get_buffer(geometry, index_kind(material.wireframe));
                    match indices {
                        Err(error) => (indexed, Err(error)),
                        Ok(indices) => (
                            indexed.set_buffer(indices).draw_elements(
                                primitive_mode(material.wireframe),
                                indices.length,
                            ),
                            Ok(()),
                        ),
                    }
                },
            }
        },
    }
}

/// Renders one sprite: a sprite whose entity has a transform is drawn, and
/// any other sprite is passed over without a call into the backend. The
/// result says whether the sprite was drawn.
pub open spec fn render_one(
    context: ContextView,
    geometry: GeometryView,
    camera: CameraSource,
    sprite: Sprite,
) -> (ContextView, Result<bool, RenderError>) {
    match transform_source(sprite.entity) {
        None => (context, Ok(false)),
        Some(transform) => {
            let (after, result) = draw(context, geometry, sprite.material, camera, transform);
            match result {
                Ok(_) => (after, Ok(true)),
                Err(error) => (after, Err(error)),
            }
        },
    }
}

/// How far a frame has come: the context, the number of sprites drawn, and
/// the last error, if a sprite could not be drawn.
#[verifier::ext_equal]
pub struct Frame {
    pub context: ContextView,
    pub draws: nat,
    pub error: Option<RenderError>,
}

impl Frame {
    /// What the frame reports when it ends.
    pub open spec fn result(self) -> Result<usize, RenderError> {
        match self.error {
            Some(error) => Err(error),
            None => Ok(self.draws as usize),
        }
    }
}

/// The frame after the first `n` of `sprites`, each rendered in its turn. A
/// sprite for which the backend is full is left out and the sprites after it
/// still get their turn; once the context is found not to be current the
/// frame is over.
pub open spec fn frame(
    context: ContextView,
    geometry: GeometryView,
    camera: CameraSource,
    sprites: Seq<Sprite>,
    n: int,
) -> Frame
    decreases n,
{
    if n <= 0 {
        Frame { context, draws: 0, error: None }
    } else {
        let before = frame(context, geometry, camera, sprites, n - 1);
        if before.error == Some(RenderError::InvalidContext) {
            before
        } else {
            let (after, result) = render_one(before.context, geometry, camera, sprites[n - 1]);
            match result {
                Ok(drawn) => Frame {
                    context: after,
                    draws: if drawn {
                        before.draws + 1
                    } else {
                        before.draws
                    },
                    error: before.error,
                },
                Err(error) => Frame { context: after, draws: before.draws, error: Some(error) },
            }
        }
    }
}

/// One frame of `scene`: the camera is chosen once, and every sprite is
/// rendered in the order in which the scene holds them. A scene without a
/// sprite manager gives an empty frame.
pub open spec fn render_frame(context: ContextView, geometry: GeometryView, scene: Scene) -> Frame {
    match scene.sprites {
        None => Frame { context, draws: 0, error: None },
        Some(sprites) => frame(context, geometry, camera_source(scene), sprites@, sprites@.len() as int),
    }
}

pub struct RendererView {
    pub geometry: GeometryView,
    pub lifecycle: Lifecycle,
}

/// Draws the sprites of a scene.
#[derive(Clone, Debug)]
pub struct SpriteGLRenderer {
    geometry: Geometry,
    lifecycle: Lifecycle,
}

impl View for SpriteGLRenderer {
    type V = RendererView;

    closed spec fn view(&self) -> RendererView {
        RendererView { geometry: self.geometry@, lifecycle: self.lifecycle }
    }
}

impl SpriteGLRenderer {
    /// A renderer with its quad. Nothing is created in the backend before
    /// the first sprite is drawn.
    pub fn new() -> (renderer: Self)
        ensures
            renderer@.geometry == quad_view(QUAD_ID),
            renderer@.geometry.wf(),
            renderer@.lifecycle == Lifecycle::Uninitialized,
    {
        SpriteGLRenderer { geometry: Geometry::quad(QUAD_ID), lifecycle: Lifecycle::Uninitialized }
    }

    /// The quad that every sprite is drawn with.
    pub fn geometry(&self) -> (geometry: &Geometry)
        ensures
            geometry@ == self@.geometry,
    {
        &self.geometry
    }

    pub fn lifecycle(&self) -> (lifecycle: Lifecycle)
        ensures
            lifecycle == self@.lifecycle,
    {
        self.lifecycle
    }

    /// The place of this renderer among the renderers of a scene: the first.
    pub fn get_order(&self) -> (order: usize)
        ensures
            order == 0,
    {
        0
    }

    /// Makes the renderer ready. The backend is left alone.
    pub fn init(&mut self)
        ensures
            final(self)@ == (RendererView { lifecycle: Lifecycle::Initialized, ..old(self)@ }),
    {
        self.lifecycle = Lifecycle::Initialized;
    }

    /// Ends the renderer's work. What was created in the backend belongs to
    /// the context and stays there.
    pub fn clear(&mut self)
        ensures
            final(self)@ == (RendererView { lifecycle: Lifecycle::Cleared, ..old(self)@ }),
    {
        self.lifecycle = Lifecycle::Cleared;
    }

    /// Called before each frame. Nothing is to be done.
    pub fn before_render(&mut self)
        ensures
            final(self)@ == old(self)@,
    {
    }

    /// Called after each frame. Nothing is to be done.
    pub fn after_render(&mut self)
        ensures
            final(self)@ == old(self)@,
    {
    }

    /// Renders one sprite as seen through `camera`, and says whether it was
    /// drawn.
    pub fn render_sprite(
        &self,
        sprite: &Sprite,
        camera: CameraSource,
        context: &mut Context,
    ) -> (result: Result<bool, RenderError>)
        requires
            old(context).wf(),
        ensures
            final(context).wf(),
            final(context)@ == render_one(old(context)@, self@.geometry, camera, *sprite).0,
            result == render_one(old(context)@, self@.geometry, camera, *sprite).1,
    {
        let transform = match resolve_transform(&sprite.entity) {
            Some(transform) => transform,
            None => {
                return Ok(false);
            },
        };
        let material = &sprite.material;
        let program = match context.get_program(material.id) {
            Ok(program) => program,
            Err(error) => {
                return Err(error);
            },
        };
        context.set_program(program);
        context.bind_material(program, material.id);
        context.bind_uniforms(program, camera, transform);
        let vertices = match context.get_vertex_buffer(&self.geometry) {
            Ok(vertices) => vertices,
            Err(error) => {
                return Err(error);
            },
        };
        context.bind_attributes(&self.geometry, &material.shader, vertices);
        let indices = if material.wireframe {
            context.get_line_index_buffer(&self.geometry)
        } else {
            context.get_index_buffer(&self.geometry)
        };
        let indices = match indices {
            Ok(indices) => indices,
            Err(error) => {
                return Err(error);
            },
        };
        context.set_buffer(indices);
        if material.wireframe {
            context.draw_elements(PrimitiveMode::Lines, indices.length);
        } else {
            context.draw_elements(PrimitiveMode::Triangles, indices.length);
        }
        Ok(true)
    }

    /// Renders one frame of `scene` and reports the number of sprites drawn,
    /// or why a sprite could not be drawn.
    pub fn render(&mut self, scene: &Scene, context: &mut Context) -> (result: Result<usize, RenderError>)
        requires
            old(context).wf(),
        ensures
            final(self)@ == (RendererView { lifecycle: Lifecycle::Rendering, ..old(self)@ }),
            final(context).wf(),
            final(context)@ == render_frame(old(context)@, old(self)@.geometry, *scene).context,
            result == render_frame(old(context)@, old(self)@.geometry, *scene).result(),
    {
        self.lifecycle = Lifecycle::Rendering;
        let sprites = match &scene.sprites {
            Some(sprites) => sprites,
            None => {
                return Ok(0);
            },
        };
        let camera = resolve_camera(scene);
        let mut draws: usize = 0;
        let mut error: Option<RenderError> = None;
        let mut i: usize = 0;
        while i < sprites.len()
            invariant
                i <= sprites.len(),
                draws <= i,
                context.wf(),
                self@ == (RendererView { lifecycle: Lifecycle::Rendering, ..old(self)@ }),
                error != Some(RenderError::InvalidContext),
                scene.sprites == Some(*sprites),
                camera == camera_source(*scene),
                frame(old(context)@, self@.geometry, camera, sprites@, i as int) == (Frame {
                    context: context@,
                    draws: draws as nat,
                    error,
                }),
            decreases sprites.len() - i,
        {
            match self.render_sprite(&sprites[i], camera, context) {
                Ok(drawn) => {
                    if drawn {
                        draws = draws + 1;
                    }
                },
                Err(RenderError::InvalidContext) => {
                    proof {
                        assert(frame(old(context)@, self@.geometry, camera, sprites@, i + 1) == (Frame {
                            context: context@,
                            draws: draws as nat,
                            error: Some(RenderError::InvalidContext),
                        }));
                        lemma_frame_over(
                            old(context)@,
                            self@.geometry,
                            camera,
                            sprites@,
                            i + 1,
                            sprites@.len() as int,
                        );
                    }
                    return Err(RenderError::InvalidContext);
                },
                Err(RenderError::ResourceExhausted) => {
                    error = Some(RenderError::ResourceExhausted);
                },
            }
            i = i + 1;
        }
        match error {
            Some(error) => Err(error),
            None => Ok(draws),
        }
    }
}

/// The number of the first `n` of `sprites` whose entity has a transform.
pub open spec fn drawable(sprites: Seq<Sprite>, n: int) -> nat
    decreases n,
{
    if n <= 0 {
        0
    } else if transform_source(sprites[n - 1].entity) is Some {
        drawable(sprites, n - 1) + 1
    } else {
        drawable(sprites, n - 1)
    }
}

/// A sprite whose entity has neither a 3D nor a 2D transform is passed over:
/// no backend call is issued for it, nothing is created or bound, and no
/// error is raised, whatever state the context is in.
pub proof fn lemma_sprite_without_transform(
    context: ContextView,
    geometry: GeometryView,
    camera: CameraSource,
    sprite: Sprite,
)
    requires
        sprite.entity matches Some(entity) ==> !entity.transform3d && !entity.transform2d,
    ensures
        render_one(context, geometry, camera, sprite) == (context, Ok::<bool, RenderError>(false)),
{
}

/// A draw that succeeds ends with one draw call, and a draw that fails
/// issues none. The draw call draws all indices of the index buffer that it
/// left bound, from the first on: as triangles, or, for a wireframe, as
/// lines. The material's program is the active one.
pub proof fn lemma_draw_call(
    context: ContextView,
    geometry: GeometryView,
    material: Material,
    camera: CameraSource,
    transform: TransformSource,
)
    ensures
        ({
            let (after, result) = draw(context, geometry, material, camera, transform);
            &&& draw_calls(after.commands) == draw_calls(context.commands) + if result is Ok {
                1nat
            } else {
                0nat
            }
            &&& result is Ok ==> {
                &&& after.element_buffer matches Some(buffer)
                &&& after.commands.last() == (Command::DrawElements {
                    mode: primitive_mode(material.wireframe),
                    count: buffer.length,
                    offset: 0,
                })
                &&& after.programs.contains_key(material.id)
                &&& after.program == Some(after.programs[material.id])
            }
        }),
{
    let (resolved, program) = context.get_program(material.id);
    lemma_draw_calls_of_requests(context, geometry, BufferKind::Vertex, material.id);
    if let Ok(program) = program {
        let active = resolved.set_program(program);
        lemma_draw_calls_of_requests(resolved, geometry, BufferKind::Vertex, program);
        let bound = active.bind_material(program, material.id);
        lemma_draw_calls_issue(active, Command::BindMaterial { program, material: material.id });
        let uniforms = bound.bind_uniforms(program, camera, transform);
        lemma_draw_calls_issue(bound, Command::BindUniforms { program, camera, transform });
        let (filled, vertices) = uniforms.get_buffer(geometry, BufferKind::Vertex);
        lemma_draw_calls_of_requests(uniforms, geometry, BufferKind::Vertex, program);
        if let Ok(vertices) = vertices {
            let target = ContextView { array_buffer: Some(vertices), ..filled };
            lemma_draw_calls_issue(target, Command::BindBuffer { buffer: vertices });
            lemma_draw_calls_bind_attributes(
                target.issue(Command::BindBuffer { buffer: vertices }).commands,
                geometry.attributes,
                material.shader.attributes@,
                vertices,
                geometry.attributes.len() as int,
            );
            let attributes = filled.bind_attributes(geometry, material.shader.attributes@, vertices);
            let kind = index_kind(material.wireframe);
            let (indexed, indices) = attributes.get_buffer(geometry, kind);
            lemma_draw_calls_of_requests(attributes, geometry, kind, program);
            if let Ok(indices) = indices {
                let element = ContextView { element_buffer: Some(indices), ..indexed };
                lemma_draw_calls_issue(element, Command::BindBuffer { buffer: indices });
                lemma_draw_calls_issue(
                    indexed.set_buffer(indices),
                    Command::DrawElements {
                        mode: primitive_mode(material.wireframe),
                        count: indices.length,
                        offset: 0,
                    },
                );
            }
        }
    }
}

/// A draw that succeeds binds before it draws: among the backend calls that
/// it adds, and before the draw call that ends them, the material is bound
/// for its own program, and after it the matrices of this camera and this
/// transform. The calls that were issued before stay as they were.
pub proof fn lemma_draw_binds_first(
    context: ContextView,
    geometry: GeometryView,
    material: Material,
    camera: CameraSource,
    transform: TransformSource,
)
    requires
        geometry.attributes.len() <= usize::MAX,
    ensures
        ({
            let (after, result) = draw(context, geometry, material, camera, transform);
            &&& context.commands.is_prefix_of(after.commands)
            &&& result is Ok ==> exists|i: int|
                #![trigger after.commands[i]]
                {
                    &&& context.commands.len() <= i
                    &&& i + 2 < after.commands.len()
                    &&& after.commands[i] == (Command::BindMaterial {
                        program: after.programs[material.id],
                        material: material.id,
                    })
                    &&& after.commands[i + 1] == (Command::BindUniforms {
                        program: after.programs[material.id],
                        camera,
                        transform,
                    })
                }
        }),
{
    let (resolved, program) = context.get_program(material.id);
    assert(context.commands.is_prefix_of(resolved.commands));
    if let Ok(program) = program {
        let active = resolved.set_program(program);
        assert(resolved.commands.is_prefix_of(active.commands));
        lemma_prefix_of_prefix(context.commands, resolved.commands, active.commands);
        let i = active.commands.len() as int;
        let uniforms = active.bind_material(program, material.id).bind_uniforms(program, camera, transform);
        assert(active.commands.is_prefix_of(uniforms.commands));
        lemma_prefix_of_prefix(context.commands, active.commands, uniforms.commands);
        let (filled, vertices) = uniforms.get_buffer(geometry, BufferKind::Vertex);
        assert(uniforms.commands.is_prefix_of(filled.commands));
        lemma_prefix_of_prefix(context.commands, uniforms.commands, filled.commands);
        assert(filled.commands[i] == uniforms.commands[i]);
        assert(filled.commands[i + 1] == uniforms.commands[i + 1]);
        if let Ok(vertices) = vertices {
            let bound = ContextView { array_buffer: Some(vertices), ..filled }.issue(
                Command::BindBuffer { buffer: vertices },
            );
            lemma_bind_attribute_commands(
                bound.commands,
                geometry.attributes,
                material.shader.attributes@,
                vertices,
                geometry.attributes.len() as int,
            );
            let attributes = filled.bind_attributes(geometry, material.shader.attributes@, vertices);
            let kept = attributes.commands.subrange(0, bound.commands.len() as int);
            assert(kept[i] == attributes.commands[i]);
            assert(kept[i + 1] == attributes.commands[i + 1]);
            assert(filled.commands.is_prefix_of(bound.commands));
            assert(bound.commands.is_prefix_of(attributes.commands));
            lemma_prefix_of_prefix(filled.commands, bound.commands, attributes.commands);
            lemma_prefix_of_prefix(context.commands, filled.commands, attributes.commands);
            let (indexed, indices) = attributes.get_buffer(geometry, index_kind(material.wireframe));
            assert(attributes.commands.is_prefix_of(indexed.commands));
            lemma_prefix_of_prefix(context.commands, attributes.commands, indexed.commands);
            assert(indexed.commands[i] == attributes.commands[i]);
            assert(indexed.commands[i + 1] == attributes.commands[i + 1]);
            if let Ok(indices) = indices {
                let after = indexed.set_buffer(indices).draw_elements(
                    primitive_mode(material.wireframe),
                    indices.length,
                );
                assert(indexed.commands.is_prefix_of(after.commands));
                lemma_prefix_of_prefix(context.commands, indexed.commands, after.commands);
                assert(after.programs[material.id] == program);
                assert(after.commands[i] == (Command::BindMaterial { program, material: material.id }));
                assert(after.commands[i + 1] == (Command::BindUniforms { program, camera, transform }));
                assert(context.commands.len() <= i && i + 2 < after.commands.len());
            }
        }
    }
}

proof fn lemma_prefix_of_prefix(a: Seq<Command>, b: Seq<Command>, c: Seq<Command>)
    requires
        a.is_prefix_of(b),
        b.is_prefix_of(c),
    ensures
        a.is_prefix_of(c),
{
    assert forall|k: int| 0 <= k < a.len() implies a[k] == c.subrange(0, a.len() as int)[k] by {
        assert(a[k] == b.subrange(0, a.len() as int)[k]);
        assert(b[k] == c.subrange(0, b.len() as int)[k]);
    }
    assert(a =~= c.subrange(0, a.len() as int));
}

/// A frame adds to the backend calls that were issued and takes none away.
pub proof fn lemma_frame_appends(
    context: ContextView,
    geometry: GeometryView,
    camera: CameraSource,
    sprites: Seq<Sprite>,
    n: int,
)
    requires
        geometry.attributes.len() <= usize::MAX,
    ensures
        context.commands.is_prefix_of(frame(context, geometry, camera, sprites, n).context.commands),
    decreases n,
{
    if n > 0 {
        lemma_frame_appends(context, geometry, camera, sprites, n - 1);
        let before = frame(context, geometry, camera, sprites, n - 1).context;
        if let Some(transform) = transform_source(sprites[n - 1].entity) {
            lemma_draw_binds_first(before, geometry, sprites[n - 1].material, camera, transform);
        }
    }
}

/// A draw leaves a well-formed context well-formed.
pub proof fn lemma_draw_wf(
    context: ContextView,
    geometry: GeometryView,
    material: Material,
    camera: CameraSource,
    transform: TransformSource,
)
    requires
        context.wf(),
    ensures
        draw(context, geometry, material, camera, transform).0.wf(),
{
    let (resolved, program) = context.get_program(material.id);
    lemma_get_program_wf(context, material.id);
    if let Ok(program) = program {
        let uniforms = resolved.set_program(program).bind_material(program, material.id).bind_uniforms(
            program,
            camera,
            transform,
        );
        lemma_same_resources_wf(resolved, uniforms);
        let (filled, vertices) = uniforms.get_buffer(geometry, BufferKind::Vertex);
        lemma_get_buffer_wf(uniforms, geometry, BufferKind::Vertex);
        if let Ok(vertices) = vertices {
            let attributes = filled.bind_attributes(geometry, material.shader.attributes@, vertices);
            lemma_same_resources_wf(filled, attributes);
            let kind = index_kind(material.wireframe);
            let (indexed, indices) = attributes.get_buffer(geometry, kind);
            lemma_get_buffer_wf(attributes, geometry, kind);
            if let Ok(indices) = indices {
                let after = indexed.set_buffer(indices).draw_elements(
                    primitive_mode(material.wireframe),
                    indices.length,
                );
                lemma_same_resources_wf(indexed, after);
            }
        }
    }
}

/// A draw with a geometry keeps the buffers of that geometry as they were
/// made for it, and binds buffers of the lengths that the geometry gives
/// them.
pub proof fn lemma_draw_made_for(
    context: ContextView,
    geometry: GeometryView,
    material: Material,
    camera: CameraSource,
    transform: TransformSource,
)
    requires
        made_for(context, geometry),
        geometry.fits(),
    ensures
        ({
            let (after, result) = draw(context, geometry, material, camera, transform);
            &&& made_for(after, geometry)
            &&& result is Ok ==> {
                &&& after.array_buffer matches Some(vertices)
                &&& after.element_buffer matches Some(indices)
                &&& vertices.length == geometry.vertex_count
                &&& indices.length == buffer_length(geometry, index_kind(material.wireframe))
            }
        }),
{
    let (resolved, program) = context.get_program(material.id);
    lemma_same_buffers_made_for(context, resolved, geometry);
    if let Ok(program) = program {
        let uniforms = resolved.set_program(program).bind_material(program, material.id).bind_uniforms(
            program,
            camera,
            transform,
        );
        lemma_same_buffers_made_for(resolved, uniforms, geometry);
        let (filled, vertices) = uniforms.get_buffer(geometry, BufferKind::Vertex);
        lemma_get_buffer_made_for(uniforms, geometry, BufferKind::Vertex);
        if let Ok(vertices) = vertices {
            let attributes = filled.bind_attributes(geometry, material.shader.attributes@, vertices);
            lemma_same_buffers_made_for(filled, attributes, geometry);
            let kind = index_kind(material.wireframe);
            let (indexed, indices) = attributes.get_buffer(geometry, kind);
            lemma_get_buffer_made_for(attributes, geometry, kind);
            if let Ok(indices) = indices {
                let after = indexed.set_buffer(indices).draw_elements(
                    primitive_mode(material.wireframe),
                    indices.length,
                );
                lemma_same_buffers_made_for(indexed, after, geometry);
            }
        }
    }
}

/// When a material's wireframe flag goes from off to on between two frames,
/// the sprite that was drawn from the triangle list is drawn from the line
/// list: the bound index buffer changes from the one to the other, while the
/// active program and the bound vertex buffer stay what they were. For the
/// quad the draw call changes from 6 indices as triangles to 8 indices as
/// lines.
pub proof fn lemma_wireframe_switch(
    context: ContextView,
    geometry: GeometryView,
    camera: CameraSource,
    filled: Sprite,
    wired: Sprite,
)
    requires
        context.wf(),
        made_for(context, geometry),
        geometry.fits(),
        wired.entity == filled.entity,
        wired.material.id == filled.material.id,
        wired.material.shader == filled.material.shader,
        !filled.material.wireframe,
        wired.material.wireframe,
        render_one(context, geometry, camera, filled).1 == Ok::<bool, RenderError>(true),
        render_one(render_one(context, geometry, camera, filled).0, geometry, camera, wired).1 == Ok::<
            bool,
            RenderError,
        >(true),
    ensures
        ({
            let first = render_one(context, geometry, camera, filled).0;
            let second = render_one(first, geometry, camera, wired).0;
            &&& first.element_buffer matches Some(triangles)
            &&& second.element_buffer matches Some(lines)
            &&& triangles.kind == BufferKind::Index
            &&& lines.kind == BufferKind::LineIndex
            &&& triangles.id != lines.id
            &&& triangles.length == geometry.index.len()
            &&& lines.length == geometry.lines().len()
            &&& first.commands.last() == (Command::DrawElements {
                mode: PrimitiveMode::Triangles,
                count: triangles.length,
                offset: 0,
            })
            &&& second.commands.last() == (Command::DrawElements {
                mode: PrimitiveMode::Lines,
                count: lines.length,
                offset: 0,
            })
            &&& second.program == first.program
            &&& second.array_buffer == first.array_buffer
            &&& geometry == quad_view(geometry.id) ==> triangles.length == 6 && lines.length == 8
        }),
{
    let transform = transform_source(filled.entity)->Some_0;
    let first = draw(context, geometry, filled.material, camera, transform).0;
    lemma_draw_call(context, geometry, filled.material, camera, transform);
    lemma_draw_wf(context, geometry, filled.material, camera, transform);
    lemma_draw_made_for(context, geometry, filled.material, camera, transform);
    lemma_draw_bindings(context, geometry, filled.material, camera, transform);
    let second = draw(first, geometry, wired.material, camera, transform).0;
    lemma_draw_call(first, geometry, wired.material, camera, transform);
    lemma_draw_wf(first, geometry, wired.material, camera, transform);
    lemma_draw_made_for(first, geometry, wired.material, camera, transform);
    lemma_draw_bindings(first, geometry, wired.material, camera, transform);
    assert(second.cache(BufferKind::Index).contains_key(geometry.id));
    assert(second.cache(BufferKind::Index)[geometry.id] == first.cache(BufferKind::Index)[geometry.id]);
    lemma_buffers_differ(second, BufferKind::Index, geometry.id, BufferKind::LineIndex, geometry.id);
    if geometry == quad_view(geometry.id) {
        lemma_quad_shape(geometry.id);
    }
}

/// What a draw that succeeds leaves bound: the vertex buffer and the index
/// buffer are those that the context holds for the geometry.
pub proof fn lemma_draw_bindings(
    context: ContextView,
    geometry: GeometryView,
    material: Material,
    camera: CameraSource,
    transform: TransformSource,
)
    requires
        draw(context, geometry, material, camera, transform).1 is Ok,
    ensures
        ({
            let after = draw(context, geometry, material, camera, transform).0;
            let kind = index_kind(material.wireframe);
            &&& after.cache(BufferKind::Vertex).contains_key(geometry.id)
            &&& after.cache(kind).contains_key(geometry.id)
            &&& after.array_buffer == Some(after.cache(BufferKind::Vertex)[geometry.id])
            &&& after.element_buffer == Some(after.cache(kind)[geometry.id])
            &&& forall|k: BufferKind, g: u64|
                context.cache(k).contains_key(g) ==> #[trigger] after.cache(k).contains_key(g) && after.cache(
                    k,
                )[g] == context.cache(k)[g]
            &&& forall|m: u64|
                context.programs.contains_key(m) ==> #[trigger] after.programs.contains_key(m)
                    && after.programs[m] == context.programs[m]
        }),
{
}

/// The draw calls of a frame are as many as the sprites that it drew, and it
/// drew no sprite without a transform. A frame that ends without an error
/// drew every sprite that has one.
pub proof fn lemma_frame_draw_calls(
    context: ContextView,
    geometry: GeometryView,
    camera: CameraSource,
    sprites: Seq<Sprite>,
    n: int,
)
    ensures
        ({
            let after = frame(context, geometry, camera, sprites, n);
            &&& draw_calls(after.context.commands) == draw_calls(context.commands) + after.draws
            &&& after.draws <= drawable(sprites, n)
            &&& after.error is None ==> after.draws == drawable(sprites, n)
        }),
    decreases n,
{
    if n > 0 {
        lemma_frame_draw_calls(context, geometry, camera, sprites, n - 1);
        let before = frame(context, geometry, camera, sprites, n - 1);
        if let Some(transform) = transform_source(sprites[n - 1].entity) {
            lemma_draw_call(before.context, geometry, sprites[n - 1].material, camera, transform);
        }
    }
}

/// A frame over sprites that all lack a transform issues no backend call
/// and raises no error.
pub proof fn lemma_frame_without_transforms(context: ContextView, geometry: GeometryView, scene: Scene)
    requires
        scene.sprites matches Some(sprites) ==> forall|i: int|
            0 <= i < sprites@.len() ==> transform_source((#[trigger] sprites@[i]).entity) is None,
    ensures
        render_frame(context, geometry, scene) == (Frame { context, draws: 0, error: None }),
{
    if let Some(sprites) = scene.sprites {
        lemma_frame_passes_over(context, geometry, camera_source(scene), sprites@, sprites@.len() as int);
    }
}

proof fn lemma_frame_passes_over(
    context: ContextView,
    geometry: GeometryView,
    camera: CameraSource,
    sprites: Seq<Sprite>,
    n: int,
)
    requires
        n <= sprites.len(),
        forall|i: int| 0 <= i < sprites.len() ==> transform_source((#[trigger] sprites[i]).entity) is None,
    ensures
        frame(context, geometry, camera, sprites, n) == (Frame { context, draws: 0, error: None }),
    decreases n,
{
    if n > 0 {
        lemma_frame_passes_over(context, geometry, camera, sprites, n - 1);
    }
}

/// A frame in a current context with room for one program for each sprite
/// and three buffers draws every sprite that has a transform and ends
/// without an error.
pub proof fn lemma_frame_with_room(
    context: ContextView,
    geometry: GeometryView,
    camera: CameraSource,
    sprites: Seq<Sprite>,
    n: int,
)
    requires
        context.wf(),
        context.current,
        0 <= n <= sprites.len(),
        context.allocated + sprites.len() + 3 <= context.capacity,
    ensures
        frame(context, geometry, camera, sprites, n).error is None,
        frame(context, geometry, camera, sprites, n).draws == drawable(sprites, n),
{
    lemma_frame_room(context, geometry, camera, sprites, n);
    lemma_frame_draw_calls(context, geometry, camera, sprites, n);
}

/// A frame over sprites that all have a transform, in a current context
/// with room for one program for each of them and three buffers, issues
/// exactly one draw call for each sprite and ends without an error.
pub proof fn lemma_frame_draws_every_sprite(
    context: ContextView,
    geometry: GeometryView,
    camera: CameraSource,
    sprites: Seq<Sprite>,
)
    requires
        context.wf(),
        context.current,
        sprites.len() <= usize::MAX,
        context.allocated + sprites.len() + 3 <= context.capacity,
        forall|i: int| 0 <= i < sprites.len() ==> transform_source((#[trigger] sprites[i]).entity) is Some,
    ensures
        ({
            let after = frame(context, geometry, camera, sprites, sprites.len() as int);
            &&& after.result() == Ok::<usize, RenderError>(sprites.len() as usize)
            &&& draw_calls(after.context.commands) == draw_calls(context.commands) + sprites.len()
        }),
{
    lemma_frame_with_room(context, geometry, camera, sprites, sprites.len() as int);
    lemma_frame_draw_calls(context, geometry, camera, sprites, sprites.len() as int);
    lemma_all_drawable(sprites, sprites.len() as int);
}

proof fn lemma_all_drawable(sprites: Seq<Sprite>, n: int)
    requires
        0 <= n <= sprites.len(),
        forall|i: int| 0 <= i < sprites.len() ==> transform_source((#[trigger] sprites[i]).entity) is Some,
    ensures
        drawable(sprites, n) == n,
    decreases n,
{
    if n > 0 {
        lemma_all_drawable(sprites, n - 1);
    }
}

/// The number of buffers that `context` holds for the identity `geometry`.
pub open spec fn buffers_held(context: ContextView, geometry: u64) -> nat {
    (if context.vertex_buffers.contains_key(geometry) {
        1nat
    } else {
        0nat
    }) + (if context.index_buffers.contains_key(geometry) {
        1nat
    } else {
        0nat
    }) + (if context.line_buffers.contains_key(geometry) {
        1nat
    } else {
        0nat
    })
}

proof fn lemma_frame_room(
    context: ContextView,
    geometry: GeometryView,
    camera: CameraSource,
    sprites: Seq<Sprite>,
    n: int,
)
    requires
        context.wf(),
        context.current,
        0 <= n <= sprites.len(),
        context.allocated + sprites.len() + 3 <= context.capacity + buffers_held(context, geometry.id),
    ensures
        ({
            let after = frame(context, geometry, camera, sprites, n);
            &&& after.error is None
            &&& after.context.wf()
            &&& after.context.current
            &&& after.context.capacity == context.capacity
            &&& after.context.allocated + (sprites.len() - n) + 3 <= context.capacity + buffers_held(
                after.context,
                geometry.id,
            )
        }),
    decreases n,
{
    if n > 0 {
        lemma_frame_room(context, geometry, camera, sprites, n - 1);
        let before = frame(context, geometry, camera, sprites, n - 1).context;
        if let Some(transform) = transform_source(sprites[n - 1].entity) {
            lemma_draw_wf(before, geometry, sprites[n - 1].material, camera, transform);
        }
    }
}

/// Once a frame has found the context not to be current, nothing more
/// happens in it.
pub proof fn lemma_frame_over(
    context: ContextView,
    geometry: GeometryView,
    camera: CameraSource,
    sprites: Seq<Sprite>,
    n: int,
    m: int,
)
    requires
        0 <= n <= m,
        frame(context, geometry, camera, sprites, n).error == Some(RenderError::InvalidContext),
    ensures
        frame(context, geometry, camera, sprites, m) == frame(context, geometry, camera, sprites, n),
    decreases m,
{
    if n < m {
        lemma_frame_over(context, geometry, camera, sprites, n, m - 1);
    }
}

} // verus!
