use vstd::prelude::*;
use crate::context::{
    CacheSlot, ContextView, EngineContext, assign_step, find_unit, prepare_step, MAX_POINT_LIGHTS,
};
use crate::lights::{lemma_default_and_four_points, first_points, light_seq, main_light_of, point_ids, select_main_light, select_point_lights};
use crate::queue::{RenderCommand, RenderQueueList, RenderQueueState, sort_desc};
use crate::resource::{
    bind_outcome, AssetStatus, BindError, BufferBit, DepthTest, GlOp, MainLight, Rgba, F32_ONE_BITS,
    F32_POINT_THREE_BITS, F32_ZERO_BITS,
};
use crate::scene::{Component, GameObject, Handle, Light, LightKind, MeshSurface, RenderQueue, Scene, first_mesh};

verus! {

/// A viewport rectangle in pixels.
#[derive(Clone, Copy, Debug, PartialEq, Eq, Structural)]
pub struct Rect {
    pub x: i32,
    pub y: i32,
    pub w: u32,
    pub h: u32,
}

/// What the renderer reads of a camera: its offscreen target, if any, and its
/// viewport, if it does not cover the whole screen.
#[derive(Clone, Copy, Debug, PartialEq, Eq, Structural)]
pub struct Camera {
    pub render_texture: Option<u64>,
    pub rect: Option<Rect>,
}

/// Which buffers a pass clears, and to which colour.
#[derive(Clone, Copy, Debug, PartialEq, Eq, Structural)]
pub struct ClearOption {
    pub color: Option<Rgba>,
    pub clear_color: bool,
    pub clear_depth: bool,
    pub clear_stencil: bool,
}

impl ClearOption {
    /// Clears colour (to grey 0.3, opaque) and depth, not stencil.
    pub fn default() -> (r: ClearOption)
        ensures
            r.color == Some(Rgba { r: F32_POINT_THREE_BITS, g: F32_POINT_THREE_BITS, b: F32_POINT_THREE_BITS, a: F32_ONE_BITS }),
            r.clear_color,
            r.clear_depth,
            !r.clear_stencil,
    {
        ClearOption {
            color: Some(Rgba { r: F32_POINT_THREE_BITS, g: F32_POINT_THREE_BITS, b: F32_POINT_THREE_BITS, a: F32_ONE_BITS }),
            clear_color: true,
            clear_depth: true,
            clear_stencil: false,
        }
    }
}

/// A bind failure that is not a readiness problem: it ends the pass.
#[derive(Clone, Copy, Debug, PartialEq, Eq, Structural)]
pub enum PassError {
    /// The program or a texture of the material at this index was rejected.
    Material { material: usize },
    /// The vertex buffer was rejected.
    Mesh { buffer: u64 },
}

/// The operations of a finished pass and the binds it issued.
pub struct PassReport {
    pub ops: Vec<GlOp>,
    pub switch_mesh: u64,
    pub switch_prog: u64,
    pub switch_tex: u64,
}

/// The renderer: the registry of objects it draws, the main camera and the
/// screen size.
pub struct Engine {
    pub main_camera: Option<Camera>,
    /// Handles of the objects made through this engine; entries whose object
    /// is gone are pruned at the end of a frame.
    pub objects: Vec<Handle>,
    pub screen_size: (u32, u32),
}

/// The operations that reset depth writing and clear as `o` asks.
pub open spec fn clear_ops(o: ClearOption) -> Seq<GlOp> {
    let color = match o.color {
        Some(c) => c,
        None => Rgba { r: F32_ZERO_BITS, g: F32_ZERO_BITS, b: F32_ZERO_BITS, a: F32_ONE_BITS },
    };
    seq![GlOp::DepthMask { enabled: true }, GlOp::ClearColor { color }]
        + (if o.clear_color { seq![GlOp::Clear { bit: BufferBit::Color }] } else { Seq::empty() })
        + (if o.clear_depth { seq![GlOp::Clear { bit: BufferBit::Depth }] } else { Seq::empty() })
        + (if o.clear_stencil { seq![GlOp::Clear { bit: BufferBit::Stencil }] } else { Seq::empty() })
}

/// The operations that hand the frame's lights to `prog`.
pub open spec fn light_ops(main: MainLight, points: Seq<u64>, prog: u64) -> Seq<GlOp> {
    seq![GlOp::BindDirectionalLight { light: main, program: prog }]
        + Seq::new(points.len(), |k: int| GlOp::BindPointLight { slot: k as u32, point: points[k], program: prog })
}

/// Assigns units to the textures `ts` in order, pointing each sampler slot
/// of `prog` at its unit; stops at the first failure.
pub open spec fn texture_fold(
    c: ContextView,
    ops: Seq<GlOp>,
    prog: u64,
    ts: Seq<(u32, u64)>,
    a: &AssetStatus,
) -> (ContextView, Seq<GlOp>, Result<(), BindError>)
    decreases ts.len(),
{
    if ts.len() == 0 {
        (c, ops, Ok(()))
    } else {
        let (c1, o1, r1) = texture_fold(c, ops, prog, ts.drop_last(), a);
        if r1 is Err {
            (c1, o1, r1)
        } else {
            let (slot, tex) = ts.last();
            let (c2, o2, r2) = assign_step(c1, o1, tex, a);
            match r2 {
                Ok(unit) => (c2, o2.push(GlOp::SetSampler { program: prog, slot, unit }), Ok(())),
                Err(e) => (c2, o2, Err(e)),
            }
        }
    }
}

/// Binding a material: its program, then its textures, then the lights.
pub open spec fn material_step(
    c: ContextView,
    ops: Seq<GlOp>,
    prog: u64,
    ts: Seq<(u32, u64)>,
    a: &AssetStatus,
) -> (ContextView, Seq<GlOp>, Result<(), BindError>) {
    let (c1, o1, r1) = prepare_step(c, ops, CacheSlot::Program, prog, GlOp::BindProgram { program: prog }, a);
    if r1 is Err {
        (c1, o1, r1)
    } else {
        let (c2, o2, r2) = texture_fold(c1, o1, prog, ts, a);
        if r2 is Err {
            (c2, o2, r2)
        } else {
            (c2, o2 + light_ops(c2.main_light, c2.point_lights, prog), Ok(()))
        }
    }
}

/// The operations that draw one surface once its program and buffer are bound.
pub open spec fn draw_ops(cmd: RenderCommand, prog: u64) -> Seq<GlOp> {
    seq![
        GlOp::SetObjectUniforms { program: prog, object: cmd.object as u64 },
        GlOp::Commit { program: prog },
        GlOp::Render { buffer: cmd.buffer },
        GlOp::UnbindMesh { buffer: cmd.buffer },
    ]
}

/// Drawing one command: a command whose material or buffer is not ready is
/// skipped; another bind failure ends the pass.
pub open spec fn command_step(
    c: ContextView,
    ops: Seq<GlOp>,
    cmd: RenderCommand,
    scene: &Scene,
    a: &AssetStatus,
) -> (ContextView, Seq<GlOp>, Result<(), PassError>) {
    if cmd.material >= scene.materials@.len() {
        (c, ops, Ok(()))
    } else {
        let m = scene.materials@[cmd.material as int];
        let (c1, o1, r1) = material_step(c, ops, m.program, m.textures@, a);
        match r1 {
            Err(BindError::NotReady) => (c1, o1, Ok(())),
            Err(BindError::Failed) => (c1, o1, Err(PassError::Material { material: cmd.material })),
            Ok(()) => {
                let (c2, o2, r2) = prepare_step(
                    c1,
                    o1,
                    CacheSlot::MeshBuffer,
                    cmd.buffer,
                    GlOp::BindMesh { buffer: cmd.buffer, program: m.program },
                    a,
                );
                match r2 {
                    Ok(()) => (c2, o2 + draw_ops(cmd, m.program), Ok(())),
                    Err(BindError::NotReady) => (c2, o2, Ok(())),
                    Err(BindError::Failed) => (c2, o2, Err(PassError::Mesh { buffer: cmd.buffer })),
                }
            },
        }
    }
}

/// Drawing the commands `cmds` in order; stops at the first fatal failure.
pub open spec fn commands_fold(
    c: ContextView,
    ops: Seq<GlOp>,
    cmds: Seq<RenderCommand>,
    scene: &Scene,
    a: &AssetStatus,
) -> (ContextView, Seq<GlOp>, Result<(), PassError>)
    decreases cmds.len(),
{
    if cmds.len() == 0 {
        (c, ops, Ok(()))
    } else {
        let (c1, o1, r1) = commands_fold(c, ops, cmds.drop_last(), scene, a);
        if r1 is Err {
            (c1, o1, r1)
        } else {
            command_step(c1, o1, cmds.last(), scene, a)
        }
    }
}

/// The operations that apply a queue's depth configuration.
pub open spec fn depth_ops(depth_write: bool, depth_test: bool, depth_func: DepthTest) -> Seq<GlOp> {
    (if depth_test {
        seq![GlOp::EnableDepthTest, GlOp::DepthFunc { func: depth_func }]
    } else {
        seq![GlOp::DisableDepthTest]
    }) + seq![GlOp::DepthMask { enabled: depth_write }]
}

/// Drawing one queue: its depth configuration, then its commands.
pub open spec fn run_queue(
    c: ContextView,
    ops: Seq<GlOp>,
    depth_write: bool,
    depth_test: bool,
    depth_func: DepthTest,
    cmds: Seq<RenderCommand>,
    scene: &Scene,
    a: &AssetStatus,
) -> (ContextView, Seq<GlOp>, Result<(), PassError>) {
    commands_fold(c, ops + depth_ops(depth_write, depth_test, depth_func), cmds, scene, a)
}

/// The commands of the surfaces `ss` of the object in slot `obj` whose
/// material exists and is tagged `tag`.
pub open spec fn surface_cmds(
    scene: &Scene,
    obj: usize,
    dist: u64,
    ss: Seq<MeshSurface>,
    tag: RenderQueue,
) -> Seq<RenderCommand>
    decreases ss.len(),
{
    if ss.len() == 0 {
        Seq::empty()
    } else {
        let prev = surface_cmds(scene, obj, dist, ss.drop_last(), tag);
        let s = ss.last();
        if s.material < scene.materials@.len() && scene.materials@[s.material as int].render_queue == tag {
            prev.push(RenderCommand { buffer: s.buffer, material: s.material, object: obj, cam_distance: dist })
        } else {
            prev
        }
    }
}

/// The commands an object contributes to queue `tag`: one per surface of its
/// first mesh, if it is active.
pub open spec fn object_cmds(scene: &Scene, obj: usize, o: GameObject, tag: RenderQueue) -> Seq<RenderCommand> {
    if !o.active {
        Seq::empty()
    } else {
        match first_mesh(o.components@) {
            Some(i) => match o.components@[i] {
                Component::Mesh(m) => surface_cmds(scene, obj, o.cam_distance, m.surfaces@, tag),
                _ => Seq::empty(),
            },
            None => Seq::empty(),
        }
    }
}

/// The commands the reachable objects of `hs` contribute to queue `tag`, in order.
pub open spec fn queue_cmds(scene: &Scene, hs: Seq<Handle>, tag: RenderQueue) -> Seq<RenderCommand>
    decreases hs.len(),
{
    if hs.len() == 0 {
        Seq::empty()
    } else {
        let prev = queue_cmds(scene, hs.drop_last(), tag);
        match scene.reachable(hs.last()) {
            Some(o) => prev + object_cmds(scene, hs.last().index, o, tag),
            None => prev,
        }
    }
}


/// The viewport of a pass: the camera's rectangle, or the whole screen.
pub open spec fn viewport_op(rect: Option<Rect>, screen: (u32, u32)) -> GlOp {
    match rect {
        Some(r) => GlOp::Viewport { x: r.x, y: r.y, w: r.w, h: r.h },
        None => GlOp::Viewport { x: 0, y: 0, w: screen.0, h: screen.1 },
    }
}

/// The operations that open a pass: target, viewport, clearing.
pub open spec fn pass_start_ops(screen: (u32, u32), camera: Camera, clear: ClearOption) -> Seq<GlOp> {
    (match camera.render_texture {
        Some(t) => seq![GlOp::BindFrameBuffer { target: t }],
        None => Seq::empty(),
    }) + seq![viewport_op(camera.rect, screen)] + clear_ops(clear)
}

/// The operations that close a pass.
pub open spec fn pass_end_ops(camera: Camera) -> Seq<GlOp> {
    match camera.render_texture {
        Some(t) => seq![GlOp::UnbindFrameBuffer { target: t }],
        None => Seq::empty(),
    }
}

/// The fresh context of a pass, with the lights of the reachable objects of `hs`.
pub open spec fn pass_context(scene: &Scene, hs: Seq<Handle>) -> ContextView {
    let ls = light_seq(scene, hs);
    ContextView {
        main_light: main_light_of(ls),
        point_lights: first_points(point_ids(ls)),
        ..ContextView::empty()
    }
}

/// A whole pass: final context, operations and outcome. The queues are drawn
/// opaque, skybox, transparent; the transparent one from farthest to nearest.
pub open spec fn pass_spec(
    hs: Seq<Handle>,
    screen: (u32, u32),
    scene: &Scene,
    camera: Camera,
    clear: ClearOption,
    a: &AssetStatus,
) -> (ContextView, Seq<GlOp>, Result<(), PassError>) {
    let c0 = pass_context(scene, hs);
    let o0 = pass_start_ops(screen, camera, clear);
    let (c1, o1, r1) = run_queue(c0, o0, true, true, DepthTest::Less, queue_cmds(scene, hs, RenderQueue::Opaque), scene, a);
    if r1 is Err {
        (c1, o1, r1)
    } else {
        let (c2, o2, r2) = run_queue(c1, o1, false, true, DepthTest::LessEqual, queue_cmds(scene, hs, RenderQueue::Skybox), scene, a);
        if r2 is Err {
            (c2, o2, r2)
        } else {
            let (c3, o3, r3) = run_queue(
                c2,
                o2,
                false,
                true,
                DepthTest::Less,
                sort_desc(queue_cmds(scene, hs, RenderQueue::Transparent)),
                scene,
                a,
            );
            if r3 is Err {
                (c3, o3, r3)
            } else {
                (c3, o3 + pass_end_ops(camera), Ok(()))
            }
        }
    }
}

/// The operations, mesh binds, program binds and texture binds of a pass, or
/// the failure that ended it.
pub open spec fn pass_result(
    hs: Seq<Handle>,
    screen: (u32, u32),
    scene: &Scene,
    camera: Camera,
    clear: ClearOption,
    a: &AssetStatus,
) -> Result<(Seq<GlOp>, u64, u64, u64), PassError> {
    let (c, o, r) = pass_spec(hs, screen, scene, camera, clear, a);
    match r {
        Ok(()) => Ok((o, c.switch_mesh, c.switch_prog, c.switch_tex)),
        Err(e) => Err(e),
    }
}

impl PassReport {
    pub open spec fn summary(&self) -> (Seq<GlOp>, u64, u64, u64) {
        (self.ops@, self.switch_mesh, self.switch_prog, self.switch_tex)
    }
}

/// The handles of `hs` whose object still exists, in order.
pub open spec fn live_handles(scene: &Scene, hs: Seq<Handle>) -> Seq<Handle>
    decreases hs.len(),
{
    if hs.len() == 0 {
        Seq::empty()
    } else {
        let prev = live_handles(scene, hs.drop_last());
        if scene.live(hs.last()) {
            prev.push(hs.last())
        } else {
            prev
        }
    }
}

proof fn lemma_texture_fold_stops(
    c: ContextView,
    ops: Seq<GlOp>,
    prog: u64,
    ts: Seq<(u32, u64)>,
    k: int,
    a: &AssetStatus,
)
    requires
        0 <= k <= ts.len(),
        texture_fold(c, ops, prog, ts.take(k), a).2 is Err,
    ensures
        texture_fold(c, ops, prog, ts, a) == texture_fold(c, ops, prog, ts.take(k), a),
    decreases ts.len() - k,
{
    if k < ts.len() {
        assert(ts.take(k + 1).drop_last() =~= ts.take(k));
        lemma_texture_fold_stops(c, ops, prog, ts, k + 1, a);
    } else {
        assert(ts.take(k) =~= ts);
    }
}

proof fn lemma_commands_fold_stops(
    c: ContextView,
    ops: Seq<GlOp>,
    cmds: Seq<RenderCommand>,
    k: int,
    scene: &Scene,
    a: &AssetStatus,
)
    requires
        0 <= k <= cmds.len(),
        commands_fold(c, ops, cmds.take(k), scene, a).2 is Err,
    ensures
        commands_fold(c, ops, cmds, scene, a) == commands_fold(c, ops, cmds.take(k), scene, a),
    decreases cmds.len() - k,
{
    if k < cmds.len() {
        assert(cmds.take(k + 1).drop_last() =~= cmds.take(k));
        lemma_commands_fold_stops(c, ops, cmds, k + 1, scene, a);
    } else {
        assert(cmds.take(k) =~= cmds);
    }
}

/// A pass starts from a fresh context and depends only on the registry, the
/// scene, the camera, the clear options, the screen size and the asset status:
/// two passes over unchanged inputs issue the same operations and count the
/// same binds.
pub proof fn lemma_pass_repeatable(
    hs: Seq<Handle>,
    screen: (u32, u32),
    scene: &Scene,
    camera: Camera,
    clear: ClearOption,
    a: &AssetStatus,
    first: Result<(Seq<GlOp>, u64, u64, u64), PassError>,
    second: Result<(Seq<GlOp>, u64, u64, u64), PassError>,
)
    requires
        first == pass_result(hs, screen, scene, camera, clear, a),
        second == pass_result(hs, screen, scene, camera, clear, a),
    ensures
        first == second,
        pass_context(scene, hs).switch_mesh == 0,
        pass_context(scene, hs).switch_prog == 0,
        pass_context(scene, hs).switch_tex == 0,
        pass_context(scene, hs).prog is None,
        pass_context(scene, hs).mesh_buffer is None,
        pass_context(scene, hs).textures.len() == 0,
{
}

/// With no directional light among the reachable objects of `hs` and more
/// than `MAX_POINT_LIGHTS` point lights, a pass uses the built-in directional
/// light and forwards exactly the first `MAX_POINT_LIGHTS` point lights, in
/// discovery order.
pub proof fn lemma_pass_default_and_four_points(scene: &Scene, hs: Seq<Handle>)
    requires
        forall|i: int| 0 <= i < light_seq(scene, hs).len() ==> light_seq(scene, hs)[i].kind == LightKind::Point,
        light_seq(scene, hs).len() > MAX_POINT_LIGHTS,
    ensures
        pass_context(scene, hs).main_light == MainLight::Default,
        pass_context(scene, hs).point_lights.len() == MAX_POINT_LIGHTS,
        forall|i: int| 0 <= i < MAX_POINT_LIGHTS ==> pass_context(scene, hs).point_lights[i] == light_seq(scene, hs)[i].id,
{
    lemma_default_and_four_points(light_seq(scene, hs));
}

/// A material whose first texture is loading, and not already on a unit,
/// fails to bind with `NotReady` once its program is bound; it issues at most
/// the program bind and hands no lights to the program.
pub proof fn lemma_pending_texture_not_ready(
    c: ContextView,
    ops: Seq<GlOp>,
    prog: u64,
    ts: Seq<(u32, u64)>,
    a: &AssetStatus,
)
    requires
        bind_outcome(a, prog) is Ok,
        ts.len() > 0,
        a.pending@.contains(ts[0].1),
        find_unit(c.textures, ts[0].1, a) is None,
    ensures
        material_step(c, ops, prog, ts, a).2 == Err::<(), BindError>(BindError::NotReady),
        material_step(c, ops, prog, ts, a).1.len() <= ops.len() + 1,
{
    let (c1, o1, r1) = prepare_step(c, ops, CacheSlot::Program, prog, GlOp::BindProgram { program: prog }, a);
    assert(c1.textures == c.textures);
    assert(ts.take(1).drop_last() =~= Seq::<(u32, u64)>::empty());
    assert(ts.take(1).last() == ts[0]);
    assert(r1 is Ok);
    assert(texture_fold(c1, o1, prog, ts.take(1).drop_last(), a) == (c1, o1, Ok::<(), BindError>(())));
    assert(bind_outcome(a, ts[0].1) == Err::<(), BindError>(BindError::NotReady));
    assert(assign_step(c1, o1, ts[0].1, a) == (c1, o1, Err::<u32, BindError>(BindError::NotReady)));
    assert(texture_fold(c1, o1, prog, ts.take(1), a) == (c1, o1, Err::<(), BindError>(BindError::NotReady)));
    lemma_texture_fold_stops(c1, o1, prog, ts, 1, a);
}

/// A command whose material is not ready draws nothing, and the pass goes on.
pub proof fn lemma_not_ready_material_skipped(
    c: ContextView,
    ops: Seq<GlOp>,
    cmd: RenderCommand,
    scene: &Scene,
    a: &AssetStatus,
)
    requires
        cmd.material < scene.materials@.len(),
        material_step(
            c,
            ops,
            scene.materials@[cmd.material as int].program,
            scene.materials@[cmd.material as int].textures@,
            a,
        ).2 == Err::<(), BindError>(BindError::NotReady),
    ensures
        ({
            let m = scene.materials@[cmd.material as int];
            let (c1, o1, _) = material_step(c, ops, m.program, m.textures@, a);
            command_step(c, ops, cmd, scene, a) == (c1, o1, Ok::<(), PassError>(()))
        }),
{
}

/// A skipped command does not stop its queue: the command after it is drawn
/// from the state the skip left.
pub proof fn lemma_skip_keeps_queue_going(
    c: ContextView,
    ops: Seq<GlOp>,
    cmds: Seq<RenderCommand>,
    skipped: RenderCommand,
    next: RenderCommand,
    scene: &Scene,
    a: &AssetStatus,
)
    requires
        commands_fold(c, ops, cmds, scene, a).2 is Ok,
        command_step(commands_fold(c, ops, cmds, scene, a).0, commands_fold(c, ops, cmds, scene, a).1, skipped, scene, a).2 is Ok,
    ensures
        ({
            let (c1, o1, _) = commands_fold(c, ops, cmds, scene, a);
            let (c2, o2, _) = command_step(c1, o1, skipped, scene, a);
            commands_fold(c, ops, cmds.push(skipped).push(next), scene, a) == command_step(c2, o2, next, scene, a)
        }),
{
    let (c1, o1, r1) = commands_fold(c, ops, cmds, scene, a);
    let (c2, o2, r2) = command_step(c1, o1, skipped, scene, a);
    let s1 = cmds.push(skipped);
    let s2 = s1.push(next);
    assert(s2.drop_last() =~= s1);
    assert(s1.drop_last() =~= cmds);
    assert(s1.last() == skipped);
    assert(s2.last() == next);
    assert(commands_fold(c, ops, s1, scene, a) == (c2, o2, r2));
    assert(commands_fold(c, ops, s2, scene, a) == command_step(c2, o2, next, scene, a));
}

proof fn lemma_surface_cmds_object(scene: &Scene, obj: usize, dist: u64, ss: Seq<MeshSurface>, tag: RenderQueue)
    ensures
        forall|k: int| 0 <= k < surface_cmds(scene, obj, dist, ss, tag).len()
            ==> #[trigger] surface_cmds(scene, obj, dist, ss, tag)[k].object == obj,
    decreases ss.len(),
{
    if ss.len() > 0 {
        lemma_surface_cmds_object(scene, obj, dist, ss.drop_last(), tag);
        let prev = surface_cmds(scene, obj, dist, ss.drop_last(), tag);
        let cur = surface_cmds(scene, obj, dist, ss, tag);
        assert forall|k: int| 0 <= k < cur.len() implies #[trigger] cur[k].object == obj by {
            if k < prev.len() {
                assert(cur[k] == prev[k]);
            }
        }
    }
}

/// Every command gathered for a queue comes from an object that exists and
/// that nothing else holds.
pub proof fn lemma_commands_from_reachable(scene: &Scene, hs: Seq<Handle>, tag: RenderQueue)
    ensures
        forall|k: int| 0 <= k < queue_cmds(scene, hs, tag).len()
            ==> scene.reachable(Handle { index: #[trigger] queue_cmds(scene, hs, tag)[k].object }) is Some,
    decreases hs.len(),
{
    if hs.len() > 0 {
        lemma_commands_from_reachable(scene, hs.drop_last(), tag);
        let prev = queue_cmds(scene, hs.drop_last(), tag);
        let h = hs.last();
        if let Some(o) = scene.reachable(h) {
            let oc = object_cmds(scene, h.index, o, tag);
            if o.active {
                if let Some(i) = first_mesh(o.components@) {
                    if let Component::Mesh(m) = o.components@[i] {
                        lemma_surface_cmds_object(scene, h.index, o.cam_distance, m.surfaces@, tag);
                    }
                }
            }
            assert forall|k: int| 0 <= k < (prev + oc).len()
                implies scene.reachable(Handle { index: #[trigger] (prev + oc)[k].object }) is Some by {
                if k < prev.len() {
                    assert((prev + oc)[k] == prev[k]);
                } else {
                    assert((prev + oc)[k] == oc[k - prev.len()]);
                    assert(Handle { index: h.index } == h);
                }
            }
        }
    }
}

/// An object that is gone adds no command to any queue and no light, and the
/// end of the frame drops its handle from the registry.
pub proof fn lemma_dropped_object_vanishes(scene: &Scene, hs: Seq<Handle>, h: Handle)
    requires
        !scene.live(h),
    ensures
        forall|tag: RenderQueue, k: int| 0 <= k < queue_cmds(scene, hs, tag).len()
            ==> #[trigger] queue_cmds(scene, hs, tag)[k].object != h.index,
        forall|tag: RenderQueue| queue_cmds(scene, hs.push(h), tag) == queue_cmds(scene, hs, tag),
        light_seq(scene, hs.push(h)) == light_seq(scene, hs),
        !live_handles(scene, hs.push(h)).contains(h),
{
    assert(hs.push(h).drop_last() =~= hs);
    lemma_live_handles_live(scene, hs.push(h));
    assert forall|tag: RenderQueue, k: int| 0 <= k < queue_cmds(scene, hs, tag).len()
        implies #[trigger] queue_cmds(scene, hs, tag)[k].object != h.index by {
        lemma_commands_from_reachable(scene, hs, tag);
        let g = Handle { index: queue_cmds(scene, hs, tag)[k].object };
        assert(scene.reachable(g) is Some);
    }
}

proof fn lemma_live_handles_live(scene: &Scene, hs: Seq<Handle>)
    ensures
        forall|g: Handle| live_handles(scene, hs).contains(g) ==> scene.live(g),
    decreases hs.len(),
{
    if hs.len() > 0 {
        lemma_live_handles_live(scene, hs.drop_last());
        let prev = live_handles(scene, hs.drop_last());
        assert forall|g: Handle| live_handles(scene, hs).contains(g) implies scene.live(g) by {
            if scene.live(hs.last()) {
                let r = prev.push(hs.last());
                let k = choose|k: int| 0 <= k < r.len() && r[k] == g;
                if k < prev.len() {
                    assert(prev.contains(g));
                }
            }
        }
    }
}

impl Engine {
    /// An engine with no camera and no objects, for a screen of `size`.
    pub fn new(size: (u32, u32)) -> (r: Engine)
        ensures
            r.main_camera is None,
            r.objects@.len() == 0,
            r.screen_size == size,
    {
        Engine { main_camera: None, objects: Vec::new(), screen_size: size }
    }

    /// The graphics state set once at start-up: depth testing, alpha blending,
    /// back-face culling, cleared buffers and a full-screen viewport.
    pub fn startup_ops(&self) -> (r: Vec<GlOp>)
        ensures
            r@ == seq![
                GlOp::ClearColor { color: Rgba { r: 0x3F00_0000, g: 0x3F00_0000, b: 0x3F00_0000, a: F32_ONE_BITS } },
                GlOp::EnableDepthTest,
                GlOp::EnableBlend,
                GlOp::EnableCullBack,
                GlOp::Clear { bit: BufferBit::Color },
                GlOp::Clear { bit: BufferBit::Depth },
                GlOp::BlendAlpha,
                GlOp::Viewport { x: 0, y: 0, w: self.screen_size.0, h: self.screen_size.1 },
            ],
    {
        let mut ops: Vec<GlOp> = Vec::new();
        ops.push(GlOp::ClearColor { color: Rgba { r: 0x3F00_0000, g: 0x3F00_0000, b: 0x3F00_0000, a: F32_ONE_BITS } });
        ops.push(GlOp::EnableDepthTest);
        ops.push(GlOp::EnableBlend);
        ops.push(GlOp::EnableCullBack);
        ops.push(GlOp::Clear { bit: BufferBit::Color });
        ops.push(GlOp::Clear { bit: BufferBit::Depth });
        ops.push(GlOp::BlendAlpha);
        ops.push(GlOp::Viewport { x: 0, y: 0, w: self.screen_size.0, h: self.screen_size.1 });
        ops
    }

    /// An empty scene for the engine's objects.
    pub fn new_scene_tree(&self) -> (r: Scene)
        ensures
            r.slots@.len() == 0,
            r.materials@.len() == 0,
    {
        Scene::new()
    }

    /// Appends the operations that clear as `option` asks.
    pub fn clear(&self, option: ClearOption, ops: &mut Vec<GlOp>)
        ensures
            final(ops)@ == old(ops)@ + clear_ops(option),
    {
        let ghost base = ops@;
        ops.push(GlOp::DepthMask { enabled: true });
        let color = match option.color {
            Some(c) => c,
            None => Rgba { r: F32_ZERO_BITS, g: F32_ZERO_BITS, b: F32_ZERO_BITS, a: F32_ONE_BITS },
        };
        ops.push(GlOp::ClearColor { color });
        if option.clear_color {
            ops.push(GlOp::Clear { bit: BufferBit::Color });
        }
        if option.clear_depth {
            ops.push(GlOp::Clear { bit: BufferBit::Depth });
        }
        if option.clear_stencil {
            ops.push(GlOp::Clear { bit: BufferBit::Stencil });
        }
        assert(ops@ =~= base + clear_ops(option));
    }

    /// Records a new screen size.
    pub fn resize(&mut self, size: (u32, u32))
        ensures
            final(self).screen_size == size,
            final(self).objects@ == old(self).objects@,
            final(self).main_camera == old(self).main_camera,
    {
        self.screen_size = size;
    }

    /// The screen size.
    pub fn screen_size(&self) -> (r: (u32, u32))
        ensures
            r == self.screen_size,
    {
        self.screen_size
    }

    /// Hands `obj` to the scene and registers it for drawing.
    pub fn new_game_object(&mut self, scene: &mut Scene, obj: GameObject) -> (r: Handle)
        requires
            old(scene).slots@.len() < usize::MAX,
        ensures
            final(scene).slots@ == old(scene).slots@.push(crate::scene::Slot { object: Some(obj), borrowed: false }),
            final(scene).materials@ == old(scene).materials@,
            final(self).objects@ == old(self).objects@.push(r),
            final(self).main_camera == old(self).main_camera,
            final(self).screen_size == old(self).screen_size,
            r.index == old(scene).slots@.len(),
    {
        let h = scene.insert(obj);
        self.objects.push(h);
        h
    }

    /// Ends a frame: drops the handles whose object is gone.
    pub fn end(&mut self, scene: &Scene)
        ensures
            final(self).objects@ == live_handles(scene, old(self).objects@),
            final(self).main_camera == old(self).main_camera,
            final(self).screen_size == old(self).screen_size,
    {
        let ghost hs = self.objects@;
        let mut kept: Vec<Handle> = Vec::new();
        let mut i: usize = 0;
        assert(hs.take(0) =~= Seq::<Handle>::empty());
        while i < self.objects.len()
            invariant
                i <= hs.len(),
                hs == self.objects@,
                kept@ == live_handles(scene, hs.take(i as int)),
            decreases hs.len() - i,
        {
            assert(hs.take(i + 1).drop_last() =~= hs.take(i as int));
            let h = self.objects[i];
            if scene.is_live(h) {
                kept.push(h);
            }
            i = i + 1;
        }
        assert(hs.take(hs.len() as int) =~= hs);
        self.objects = kept;
    }

    fn setup_light(&self, ctx: &EngineContext, prog: u64, ops: &mut Vec<GlOp>)
        requires
            ctx@.wf(),
        ensures
            final(ops)@ == old(ops)@ + light_ops(ctx.main_light, ctx.point_lights@, prog),
    {
        let ghost base = ops@;
        let ghost pts = ctx.point_lights@;
        ops.push(GlOp::BindDirectionalLight { light: ctx.main_light, program: prog });
        let mut i: usize = 0;
        while i < ctx.point_lights.len()
            invariant
                i <= pts.len(),
                pts == ctx.point_lights@,
                pts.len() <= MAX_POINT_LIGHTS,
                ops@ == base + seq![GlOp::BindDirectionalLight { light: ctx.main_light, program: prog }]
                    + Seq::new(i as nat, |k: int| GlOp::BindPointLight { slot: k as u32, point: pts[k], program: prog }),
            decreases pts.len() - i,
        {
            ops.push(GlOp::BindPointLight { slot: i as u32, point: ctx.point_lights[i], program: prog });
            i = i + 1;
            assert(ops@ =~= base + seq![GlOp::BindDirectionalLight { light: ctx.main_light, program: prog }]
                + Seq::new(i as nat, |k: int| GlOp::BindPointLight { slot: k as u32, point: pts[k], program: prog }));
        }
        assert(light_ops(ctx.main_light, pts, prog) =~= seq![GlOp::BindDirectionalLight { light: ctx.main_light, program: prog }]
            + Seq::new(pts.len(), |k: int| GlOp::BindPointLight { slot: k as u32, point: pts[k], program: prog }));
        assert(ops@ =~= base + light_ops(ctx.main_light, pts, prog));
    }

    fn bind_textures(
        &self,
        ctx: &mut EngineContext,
        prog: u64,
        textures: &Vec<(u32, u64)>,
        assets: &AssetStatus,
        ops: &mut Vec<GlOp>,
    ) -> (r: Result<(), BindError>)
        requires
            old(ctx)@.wf(),
        ensures
            (final(ctx)@, final(ops)@, r) == texture_fold(old(ctx)@, old(ops)@, prog, textures@, assets),
            final(ctx)@.wf(),
    {
        let ghost c0 = ctx@;
        let ghost o0 = ops@;
        let ghost ts = textures@;
        assert(ts.take(0) =~= Seq::<(u32, u64)>::empty());
        let mut i: usize = 0;
        while i < textures.len()
            invariant
                i <= ts.len(),
                ts == textures@,
                c0 == old(ctx)@,
                o0 == old(ops)@,
                ctx@.wf(),
                texture_fold(c0, o0, prog, ts.take(i as int), assets) == (ctx@, ops@, Ok::<(), BindError>(())),
            decreases ts.len() - i,
        {
            assert(ts.take(i + 1).drop_last() =~= ts.take(i as int));
            let (slot, tex) = textures[i];
            match ctx.prepare_cache_tex(tex, assets, ops) {
                Ok(unit) => {
                    ops.push(GlOp::SetSampler { program: prog, slot, unit });
                },
                Err(e) => {
                    assert(texture_fold(c0, o0, prog, ts.take(i + 1), assets) == (ctx@, ops@, Err::<(), BindError>(e)));
                    proof {
                        lemma_texture_fold_stops(c0, o0, prog, ts, i + 1, assets);
                    }
                    assert(texture_fold(c0, o0, prog, ts, assets) == (ctx@, ops@, Err::<(), BindError>(e)));
                    assert(ctx@.wf());
                    return Err(e);
                },
            }
            i = i + 1;
        }
        assert(ts.take(ts.len() as int) =~= ts);
        Ok(())
    }

    /// Binds a material's program, its textures and the frame's lights.
    pub fn setup_material(
        &self,
        ctx: &mut EngineContext,
        prog: u64,
        textures: &Vec<(u32, u64)>,
        assets: &AssetStatus,
        ops: &mut Vec<GlOp>,
    ) -> (r: Result<(), BindError>)
        requires
            old(ctx)@.wf(),
        ensures
            (final(ctx)@, final(ops)@, r) == material_step(old(ctx)@, old(ops)@, prog, textures@, assets),
            final(ctx)@.wf(),
    {
        match ctx.prepare_cache(CacheSlot::Program, prog, GlOp::BindProgram { program: prog }, assets, ops) {
            Err(e) => {
                return Err(e);
            },
            Ok(()) => {},
        }
        match self.bind_textures(ctx, prog, textures, assets, ops) {
            Err(e) => {
                return Err(e);
            },
            Ok(()) => {},
        }
        self.setup_light(ctx, prog, ops);
        Ok(())
    }

    fn draw_command(
        &self,
        ctx: &mut EngineContext,
        cmd: RenderCommand,
        scene: &Scene,
        assets: &AssetStatus,
        ops: &mut Vec<GlOp>,
    ) -> (r: Result<(), PassError>)
        requires
            old(ctx)@.wf(),
        ensures
            (final(ctx)@, final(ops)@, r) == command_step(old(ctx)@, old(ops)@, cmd, scene, assets),
            final(ctx)@.wf(),
    {
        if cmd.material >= scene.materials.len() {
            return Ok(());
        }
        let material = &scene.materials[cmd.material];
        let prog = material.program;
        match self.setup_material(ctx, prog, &material.textures, assets, ops) {
            Err(BindError::NotReady) => {
                return Ok(());
            },
            Err(BindError::Failed) => {
                return Err(PassError::Material { material: cmd.material });
            },
            Ok(()) => {},
        }
        let bind = GlOp::BindMesh { buffer: cmd.buffer, program: prog };
        match ctx.prepare_cache(CacheSlot::MeshBuffer, cmd.buffer, bind, assets, ops) {
            Ok(()) => {
                let ghost base = ops@;
                ops.push(GlOp::SetObjectUniforms { program: prog, object: cmd.object as u64 });
                ops.push(GlOp::Commit { program: prog });
                ops.push(GlOp::Render { buffer: cmd.buffer });
                ops.push(GlOp::UnbindMesh { buffer: cmd.buffer });
                assert(ops@ =~= base + draw_ops(cmd, prog));
                Ok(())
            },
            Err(BindError::NotReady) => Ok(()),
            Err(BindError::Failed) => Err(PassError::Mesh { buffer: cmd.buffer }),
        }
    }

    /// Draws one queue: applies its depth configuration, then draws each
    /// command; a command whose assets are not ready is skipped.
    pub fn render_commands(
        &self,
        ctx: &mut EngineContext,
        q: &RenderQueueState,
        scene: &Scene,
        assets: &AssetStatus,
        ops: &mut Vec<GlOp>,
    ) -> (r: Result<(), PassError>)
        requires
            old(ctx)@.wf(),
        ensures
            (final(ctx)@, final(ops)@, r) == run_queue(
                old(ctx)@,
                old(ops)@,
                q.depth_write,
                q.depth_test,
                q.depth_func,
                q.commands@,
                scene,
                assets,
            ),
            final(ctx)@.wf(),
    {
        let ghost base = ops@;
        if q.depth_test {
            ops.push(GlOp::EnableDepthTest);
            ops.push(GlOp::DepthFunc { func: q.depth_func });
        } else {
            ops.push(GlOp::DisableDepthTest);
        }
        ops.push(GlOp::DepthMask { enabled: q.depth_write });
        assert(ops@ =~= base + depth_ops(q.depth_write, q.depth_test, q.depth_func));
        let ghost c0 = ctx@;
        let ghost o0 = ops@;
        let ghost cmds = q.commands@;
        assert(cmds.take(0) =~= Seq::<RenderCommand>::empty());
        let mut i: usize = 0;
        while i < q.commands.len()
            invariant
                i <= cmds.len(),
                cmds == q.commands@,
                c0 == old(ctx)@,
                o0 == old(ops)@ + depth_ops(q.depth_write, q.depth_test, q.depth_func),
                ctx@.wf(),
                commands_fold(c0, o0, cmds.take(i as int), scene, assets) == (ctx@, ops@, Ok::<(), PassError>(())),
            decreases cmds.len() - i,
        {
            assert(cmds.take(i + 1).drop_last() =~= cmds.take(i as int));
            match self.draw_command(ctx, q.commands[i], scene, assets, ops) {
                Ok(()) => {},
                Err(e) => {
                    assert(commands_fold(c0, o0, cmds.take(i + 1), scene, assets) == (ctx@, ops@, Err::<(), PassError>(e)));
                    proof {
                        lemma_commands_fold_stops(c0, o0, cmds, i + 1, scene, assets);
                    }
                    return Err(e);
                },
            }
            i = i + 1;
        }
        assert(cmds.take(cmds.len() as int) =~= cmds);
        Ok(())
    }

    /// The light components of the reachable registered objects, in discovery order.
    pub fn find_all_components(&self, scene: &Scene) -> (r: Vec<Light>)
        ensures
            r@ == light_seq(scene, self.objects@),
    {
        let ghost hs = self.objects@;
        let mut out: Vec<Light> = Vec::new();
        let mut i: usize = 0;
        assert(hs.take(0) =~= Seq::<Handle>::empty());
        while i < self.objects.len()
            invariant
                i <= hs.len(),
                hs == self.objects@,
                out@ == light_seq(scene, hs.take(i as int)),
            decreases hs.len() - i,
        {
            assert(hs.take(i + 1).drop_last() =~= hs.take(i as int));
            if let Some(o) = scene.try_get(self.objects[i]) {
                o.collect_lights(&mut out);
            }
            i = i + 1;
        }
        assert(hs.take(hs.len() as int) =~= hs);
        out
    }

    /// Selects the frame's directional light and point lights.
    pub fn prepare_ctx(&self, ctx: &mut EngineContext, scene: &Scene)
        requires
            old(ctx)@ == ContextView::empty(),
        ensures
            final(ctx)@ == pass_context(scene, self.objects@),
            final(ctx)@.wf(),
    {
        let ls = self.find_all_components(scene);
        ctx.main_light = select_main_light(&ls);
        ctx.point_lights = select_point_lights(&ls);
    }

    /// Appends the commands of one reachable object to the queues.
    fn gather_render_commands(&self, object: &GameObject, index: usize, scene: &Scene, render_q: &mut RenderQueueList)
        ensures
            forall|tag: RenderQueue| #[trigger] final(render_q).queue(tag).commands@
                == old(render_q).queue(tag).commands@ + object_cmds(scene, index, *object, tag),
            final(render_q).configured() == old(render_q).configured(),
    {
        let ghost base = *render_q;
        if !object.active {
            assert forall|tag: RenderQueue| #[trigger] render_q.queue(tag).commands@
                == base.queue(tag).commands@ + object_cmds(scene, index, *object, tag) by {
                assert(render_q.queue(tag).commands@ =~= base.queue(tag).commands@ + Seq::<RenderCommand>::empty());
            }
            return;
        }
        match object.find_mesh() {
            None => {
                assert forall|tag: RenderQueue| #[trigger] render_q.queue(tag).commands@
                    == base.queue(tag).commands@ + object_cmds(scene, index, *object, tag) by {
                    assert(render_q.queue(tag).commands@ =~= base.queue(tag).commands@ + Seq::<RenderCommand>::empty());
                }
            },
            Some(mesh) => {
                let ghost ss = mesh.surfaces@;
                let ghost d = object.cam_distance;
                assert(ss.take(0) =~= Seq::<MeshSurface>::empty());
                assert forall|tag: RenderQueue| #[trigger] render_q.queue(tag).commands@
                    == base.queue(tag).commands@ + surface_cmds(scene, index, d, ss.take(0), tag) by {
                    assert(render_q.queue(tag).commands@ =~= base.queue(tag).commands@ + Seq::<RenderCommand>::empty());
                }
                let mut i: usize = 0;
                while i < mesh.surfaces.len()
                    invariant
                        i <= ss.len(),
                        ss == mesh.surfaces@,
                        d == object.cam_distance,
                        render_q.configured() == base.configured(),
                        forall|tag: RenderQueue| #[trigger] render_q.queue(tag).commands@
                            == base.queue(tag).commands@ + surface_cmds(scene, index, d, ss.take(i as int), tag),
                    decreases ss.len() - i,
                {
                    assert(ss.take(i + 1).drop_last() =~= ss.take(i as int));
                    let s = mesh.surfaces[i];
                    if s.material < scene.materials.len() {
                        let tag = scene.materials[s.material].render_queue;
                        let ghost before = *render_q;
                        render_q.push(tag, RenderCommand { buffer: s.buffer, material: s.material, object: index, cam_distance: object.cam_distance });
                        assert forall|t: RenderQueue| #[trigger] render_q.queue(t).commands@
                            == base.queue(t).commands@ + surface_cmds(scene, index, d, ss.take(i + 1), t) by {
                            if t == tag {
                                assert(render_q.queue(t).commands@ =~= base.queue(t).commands@
                                    + surface_cmds(scene, index, d, ss.take(i + 1), t));
                            }
                        }
                    }
                    i = i + 1;
                }
                assert(ss.take(ss.len() as int) =~= ss);
            },
        }
    }

    /// Renders one pass through `camera`: binds its target, sets the viewport,
    /// clears, selects lights, gathers and sorts commands, and draws the
    /// opaque, skybox and transparent queues in that order.
    pub fn render_pass(&self, scene: &Scene, camera: &Camera, clear_option: ClearOption, assets: &AssetStatus) -> (r: Result<PassReport, PassError>)
        ensures
            match r {
                Ok(rep) => pass_result(self.objects@, self.screen_size, scene, *camera, clear_option, assets) == Ok::<(Seq<GlOp>, u64, u64, u64), PassError>(rep.summary()),
                Err(e) => pass_result(self.objects@, self.screen_size, scene, *camera, clear_option, assets) == Err::<(Seq<GlOp>, u64, u64, u64), PassError>(e),
            },
    {
        let mut ops: Vec<GlOp> = Vec::new();
        let mut ctx = EngineContext::new();
        if let Some(rt) = camera.render_texture {
            ops.push(GlOp::BindFrameBuffer { target: rt });
        }
        match camera.rect {
            Some(rc) => ops.push(GlOp::Viewport { x: rc.x, y: rc.y, w: rc.w, h: rc.h }),
            None => ops.push(GlOp::Viewport { x: 0, y: 0, w: self.screen_size.0, h: self.screen_size.1 }),
        }
        self.clear(clear_option, &mut ops);
        assert(ops@ =~= pass_start_ops(self.screen_size, *camera, clear_option));
        self.prepare_ctx(&mut ctx, scene);

        let mut render_q = RenderQueueList::new();
        let ghost hs = self.objects@;
        assert(hs.take(0) =~= Seq::<Handle>::empty());
        let mut i: usize = 0;
        while i < self.objects.len()
            invariant
                i <= hs.len(),
                hs == self.objects@,
                render_q.configured(),
                forall|tag: RenderQueue| #[trigger] render_q.queue(tag).commands@ == queue_cmds(scene, hs.take(i as int), tag),
            decreases hs.len() - i,
        {
            assert(hs.take(i + 1).drop_last() =~= hs.take(i as int));
            let h = self.objects[i];
            match scene.try_get(h) {
                Some(o) => {
                    self.gather_render_commands(o, h.index, scene, &mut render_q);
                },
                None => {},
            }
            i = i + 1;
        }
        assert(hs.take(hs.len() as int) =~= hs);
        assert(render_q.queue(RenderQueue::Transparent).commands@ == queue_cmds(scene, hs, RenderQueue::Transparent));
        assert(render_q.queue(RenderQueue::Opaque).commands@ == queue_cmds(scene, hs, RenderQueue::Opaque));
        assert(render_q.queue(RenderQueue::Skybox).commands@ == queue_cmds(scene, hs, RenderQueue::Skybox));

        render_q.transparent.sort_by_cam_distance();
        let ghost c0 = ctx@;
        let ghost o0 = ops@;
        let ghost s1 = run_queue(c0, o0, true, true, DepthTest::Less, queue_cmds(scene, hs, RenderQueue::Opaque), scene, assets);
        let ghost s2 = run_queue(s1.0, s1.1, false, true, DepthTest::LessEqual, queue_cmds(scene, hs, RenderQueue::Skybox), scene, assets);
        let ghost s3 = run_queue(
            s2.0,
            s2.1,
            false,
            true,
            DepthTest::Less,
            sort_desc(queue_cmds(scene, hs, RenderQueue::Transparent)),
            scene,
            assets,
        );

        match self.render_commands(&mut ctx, &render_q.opaque, scene, assets, &mut ops) {
            Err(e) => {
                return Err(e);
            },
            Ok(()) => {},
        }
        match self.render_commands(&mut ctx, &render_q.skybox, scene, assets, &mut ops) {
            Err(e) => {
                return Err(e);
            },
            Ok(()) => {},
        }
        match self.render_commands(&mut ctx, &render_q.transparent, scene, assets, &mut ops) {
            Err(e) => {
                return Err(e);
            },
            Ok(()) => {},
        }
        if let Some(rt) = camera.render_texture {
            ops.push(GlOp::UnbindFrameBuffer { target: rt });
        }
        assert(s3.1 + pass_end_ops(*camera) =~= ops@);
        Ok(PassReport { ops, switch_mesh: ctx.switch_mesh, switch_prog: ctx.switch_prog, switch_tex: ctx.switch_tex })
    }

    /// Renders a pass through the main camera, or only clears when there is none.
    pub fn render(&self, scene: &Scene, clear_option: ClearOption, assets: &AssetStatus) -> (r: Result<PassReport, PassError>)
        ensures
            match self.main_camera {
                Some(cam) => match r {
                    Ok(rep) => pass_result(self.objects@, self.screen_size, scene, cam, clear_option, assets) == Ok::<(Seq<GlOp>, u64, u64, u64), PassError>(rep.summary()),
                    Err(e) => pass_result(self.objects@, self.screen_size, scene, cam, clear_option, assets) == Err::<(Seq<GlOp>, u64, u64, u64), PassError>(e),
                },
                None => r matches Ok(rep) && rep.summary() == (clear_ops(clear_option), 0u64, 0u64, 0u64),
            },
    {
        match &self.main_camera {
            Some(cam) => self.render_pass(scene, cam, clear_option, assets),
            None => {
                let mut ops: Vec<GlOp> = Vec::new();
                self.clear(clear_option, &mut ops);
                assert(ops@ =~= clear_ops(clear_option));
                Ok(PassReport { ops, switch_mesh: 0, switch_prog: 0, switch_tex: 0 })
            },
        }
    }
}

} // verus!
