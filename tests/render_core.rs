use unrust::context::{CacheSlot, EngineContext, MAX_TEXTURE_UNITS};
use unrust::engine::{Camera, ClearOption, Engine, PassError, PassReport, Rect};
use unrust::lights::{select_main_light, select_point_lights};
use unrust::queue::{RenderCommand, RenderQueueList, RenderQueueState};
use unrust::resource::{AssetStatus, BindError, BufferBit, DepthTest, GlOp, MainLight, Rgba};
use unrust::scene::{
    Component, GameObject, Handle, Light, LightKind, Material, Mesh, MeshSurface, RenderQueue, Scene,
};

fn material(program: u64, queue: RenderQueue, textures: Vec<(u32, u64)>) -> Material {
    Material { program, render_queue: queue, textures }
}

fn mesh_object(surfaces: Vec<MeshSurface>, dist: u64) -> GameObject {
    GameObject { active: true, components: vec![Component::Mesh(Mesh { surfaces })], cam_distance: dist }
}

fn light_object(kind: LightKind, id: u64) -> GameObject {
    GameObject { active: true, components: vec![Component::Light(Light { kind, id })], cam_distance: 0 }
}

fn plain_camera() -> Camera {
    Camera { render_texture: None, rect: None }
}

fn rendered_buffers(rep: &PassReport) -> Vec<u64> {
    let mut out = Vec::new();
    for op in rep.ops.iter() {
        if let GlOp::Render { buffer } = op {
            out.push(*buffer);
        }
    }
    out
}

fn cmd(buffer: u64, dist: u64) -> RenderCommand {
    RenderCommand { buffer, material: 0, object: 0, cam_distance: dist }
}

#[test]
fn same_program_bound_once() {
    let a = AssetStatus::all_ready();
    let mut ctx = EngineContext::new();
    let mut ops = Vec::new();
    for _ in 0..10 {
        assert_eq!(ctx.prepare_cache(CacheSlot::Program, 3, GlOp::BindProgram { program: 3 }, &a, &mut ops), Ok(()));
    }
    assert_eq!(ops, vec![GlOp::BindProgram { program: 3 }]);
    assert_eq!(ctx.switch_prog, 1);
    assert_eq!(ctx.prog, Some(3));
}

#[test]
fn changed_program_bound_again() {
    let a = AssetStatus::all_ready();
    let mut ctx = EngineContext::new();
    let mut ops = Vec::new();
    ctx.prepare_cache(CacheSlot::Program, 3, GlOp::BindProgram { program: 3 }, &a, &mut ops).unwrap();
    ctx.prepare_cache(CacheSlot::Program, 4, GlOp::BindProgram { program: 4 }, &a, &mut ops).unwrap();
    ctx.prepare_cache(CacheSlot::Program, 3, GlOp::BindProgram { program: 3 }, &a, &mut ops).unwrap();
    assert_eq!(ctx.switch_prog, 3);
    assert_eq!(ops.len(), 3);
}

#[test]
fn failed_bind_keeps_previous_resource() {
    let mut a = AssetStatus::all_ready();
    a.pending.push(9);
    a.broken.push(10);
    let mut ctx = EngineContext::new();
    let mut ops = Vec::new();
    ctx.prepare_cache(CacheSlot::MeshBuffer, 1, GlOp::Render { buffer: 1 }, &a, &mut ops).unwrap();
    assert_eq!(ctx.prepare_cache(CacheSlot::MeshBuffer, 9, GlOp::Render { buffer: 9 }, &a, &mut ops), Err(BindError::NotReady));
    assert_eq!(ctx.prepare_cache(CacheSlot::MeshBuffer, 10, GlOp::Render { buffer: 10 }, &a, &mut ops), Err(BindError::Failed));
    assert_eq!(ctx.mesh_buffer, Some(1));
    assert_eq!(ctx.switch_mesh, 1);
    assert_eq!(ops.len(), 1);
}

#[test]
fn expired_cached_resource_is_bound_again() {
    let mut a = AssetStatus::all_ready();
    let mut ctx = EngineContext::new();
    let mut ops = Vec::new();
    ctx.prepare_cache(CacheSlot::Program, 2, GlOp::BindProgram { program: 2 }, &a, &mut ops).unwrap();
    a.released.push(2);
    assert!(ctx.need_cache(CacheSlot::Program, 2, &a));
}

#[test]
fn asset_status_reports() {
    let mut a = AssetStatus::all_ready();
    a.pending.push(1);
    a.broken.push(2);
    a.released.push(3);
    assert_eq!(a.bind(1), Err(BindError::NotReady));
    assert_eq!(a.bind(2), Err(BindError::Failed));
    assert_eq!(a.bind(3), Ok(()));
    assert!(!a.live(3));
    assert!(a.live(1));
}

#[test]
fn texture_units_distinct_beyond_capacity() {
    let a = AssetStatus::all_ready();
    let mut ctx = EngineContext::new();
    let mut ops = Vec::new();
    let mut units = Vec::new();
    for t in 100..112u64 {
        let u = ctx.prepare_cache_tex(t, &a, &mut ops).unwrap();
        assert!(u < MAX_TEXTURE_UNITS);
        units.push(u);
    }
    assert_eq!(&units[0..8], &[0, 1, 2, 3, 4, 5, 6, 7]);
    // eviction goes oldest first
    assert_eq!(&units[8..12], &[0, 1, 2, 3]);
    assert_eq!(ctx.textures.len(), 8);
    for i in 0..ctx.textures.len() {
        for j in 0..ctx.textures.len() {
            if i != j {
                assert_ne!(ctx.textures[i].0, ctx.textures[j].0);
            }
        }
    }
    assert_eq!(ctx.switch_tex, 12);
}

#[test]
fn texture_cache_hit_issues_no_bind() {
    let a = AssetStatus::all_ready();
    let mut ctx = EngineContext::new();
    let mut ops = Vec::new();
    assert_eq!(ctx.prepare_cache_tex(50, &a, &mut ops), Ok(0));
    assert_eq!(ctx.prepare_cache_tex(51, &a, &mut ops), Ok(1));
    assert_eq!(ctx.prepare_cache_tex(50, &a, &mut ops), Ok(0));
    assert_eq!(ctx.need_cache_tex(51, &a), Some(1));
    assert_eq!(ops, vec![GlOp::BindTexture { texture: 50, unit: 0 }, GlOp::BindTexture { texture: 51, unit: 1 }]);
}

#[test]
fn stale_texture_slot_evicted_first() {
    let mut a = AssetStatus::all_ready();
    let mut ctx = EngineContext::new();
    let mut ops = Vec::new();
    for t in 0..8u64 {
        ctx.prepare_cache_tex(t, &a, &mut ops).unwrap();
    }
    a.released.push(5);
    assert_eq!(ctx.prepare_cache_tex(20, &a, &mut ops), Ok(5));
    assert_eq!(ctx.textures[7], (5, 20));
}

#[test]
fn failed_texture_bind_leaves_allocator() {
    let mut a = AssetStatus::all_ready();
    let mut ctx = EngineContext::new();
    let mut ops = Vec::new();
    for t in 0..8u64 {
        ctx.prepare_cache_tex(t, &a, &mut ops).unwrap();
    }
    a.pending.push(30);
    let before = ctx.textures.clone();
    assert_eq!(ctx.prepare_cache_tex(30, &a, &mut ops), Err(BindError::NotReady));
    assert_eq!(ctx.textures, before);
    assert_eq!(ctx.switch_tex, 8);
}

#[test]
fn transparent_sorted_far_to_near() {
    let mut q = RenderQueueState::new(false, true, DepthTest::Less);
    q.commands.push(cmd(1, 1));
    q.commands.push(cmd(2, 9));
    q.commands.push(cmd(3, 4));
    q.sort_by_cam_distance();
    let d: Vec<u64> = q.commands.iter().map(|c| c.cam_distance).collect();
    assert_eq!(d, vec![9, 4, 1]);
}

#[test]
fn sort_keeps_equal_distances_in_order() {
    let mut q = RenderQueueState::new(false, true, DepthTest::Less);
    q.commands.push(cmd(1, 5));
    q.commands.push(cmd(2, 7));
    q.commands.push(cmd(3, 5));
    q.commands.push(cmd(4, 0));
    q.sort_by_cam_distance();
    let b: Vec<u64> = q.commands.iter().map(|c| c.buffer).collect();
    assert_eq!(b, vec![2, 1, 3, 4]);
}

#[test]
fn sort_empty_queue() {
    let mut q = RenderQueueState::new(false, true, DepthTest::Less);
    q.sort_by_cam_distance();
    assert!(q.commands.is_empty());
}

#[test]
fn queue_list_configuration() {
    let mut l = RenderQueueList::new();
    assert!(l.opaque.depth_write && l.opaque.depth_test && l.opaque.depth_func == DepthTest::Less);
    assert!(!l.skybox.depth_write && l.skybox.depth_test && l.skybox.depth_func == DepthTest::LessEqual);
    assert!(!l.transparent.depth_write && l.transparent.depth_test && l.transparent.depth_func == DepthTest::Less);
    l.push(RenderQueue::Skybox, cmd(8, 0));
    assert_eq!(l.skybox.commands.len(), 1);
    assert!(l.opaque.commands.is_empty() && l.transparent.commands.is_empty());
}

#[test]
fn default_light_and_four_points() {
    let ls: Vec<Light> = (1..=6u64).map(|i| Light { kind: LightKind::Point, id: i }).collect();
    assert_eq!(select_main_light(&ls), MainLight::Default);
    assert_eq!(select_point_lights(&ls), vec![1, 2, 3, 4]);
}

#[test]
fn first_directional_light_selected() {
    let ls = vec![
        Light { kind: LightKind::Point, id: 1 },
        Light { kind: LightKind::Directional, id: 2 },
        Light { kind: LightKind::Directional, id: 3 },
    ];
    assert_eq!(select_main_light(&ls), MainLight::Found(2));
    assert_eq!(select_point_lights(&ls), vec![1]);
}

fn one_mesh_scene() -> (Engine, Scene) {
    let mut engine = Engine::new((640, 480));
    let mut scene = engine.new_scene_tree();
    let m = scene.add_material(material(1, RenderQueue::Opaque, vec![]));
    engine.new_game_object(&mut scene, mesh_object(vec![MeshSurface { buffer: 10, material: m }], 0));
    (engine, scene)
}

#[test]
fn pass_lights_from_scene() {
    let mut engine = Engine::new((640, 480));
    let mut scene = engine.new_scene_tree();
    for i in 1..=6u64 {
        engine.new_game_object(&mut scene, light_object(LightKind::Point, i));
    }
    let m = scene.add_material(material(1, RenderQueue::Opaque, vec![]));
    engine.new_game_object(&mut scene, mesh_object(vec![MeshSurface { buffer: 10, material: m }], 0));
    let rep = engine.render_pass(&scene, &plain_camera(), ClearOption::default(), &AssetStatus::all_ready()).unwrap();
    let mut dirs = Vec::new();
    let mut points = Vec::new();
    for op in rep.ops.iter() {
        match op {
            GlOp::BindDirectionalLight { light, .. } => dirs.push(*light),
            GlOp::BindPointLight { slot, point, .. } => points.push((*slot, *point)),
            _ => {},
        }
    }
    assert_eq!(dirs, vec![MainLight::Default]);
    assert_eq!(points, vec![(0, 1), (1, 2), (2, 3), (3, 4)]);
}

#[test]
fn pass_operation_sequence() {
    let (engine, scene) = one_mesh_scene();
    let rep = engine.render_pass(&scene, &plain_camera(), ClearOption::default(), &AssetStatus::all_ready()).unwrap();
    let grey = Rgba { r: 0x3E99_999A, g: 0x3E99_999A, b: 0x3E99_999A, a: 0x3F80_0000 };
    let expected = vec![
        GlOp::Viewport { x: 0, y: 0, w: 640, h: 480 },
        GlOp::DepthMask { enabled: true },
        GlOp::ClearColor { color: grey },
        GlOp::Clear { bit: BufferBit::Color },
        GlOp::Clear { bit: BufferBit::Depth },
        GlOp::EnableDepthTest,
        GlOp::DepthFunc { func: DepthTest::Less },
        GlOp::DepthMask { enabled: true },
        GlOp::BindProgram { program: 1 },
        GlOp::BindDirectionalLight { light: MainLight::Default, program: 1 },
        GlOp::BindMesh { buffer: 10, program: 1 },
        GlOp::SetObjectUniforms { program: 1, object: 0 },
        GlOp::Commit { program: 1 },
        GlOp::Render { buffer: 10 },
        GlOp::UnbindMesh { buffer: 10 },
        GlOp::EnableDepthTest,
        GlOp::DepthFunc { func: DepthTest::LessEqual },
        GlOp::DepthMask { enabled: false },
        GlOp::EnableDepthTest,
        GlOp::DepthFunc { func: DepthTest::Less },
        GlOp::DepthMask { enabled: false },
    ];
    assert_eq!(rep.ops, expected);
    assert_eq!((rep.switch_mesh, rep.switch_prog, rep.switch_tex), (1, 1, 0));
}

#[test]
fn offscreen_target_and_rect() {
    let (engine, scene) = one_mesh_scene();
    let cam = Camera { render_texture: Some(77), rect: Some(Rect { x: 5, y: 6, w: 7, h: 8 }) };
    let rep = engine.render_pass(&scene, &cam, ClearOption::default(), &AssetStatus::all_ready()).unwrap();
    assert_eq!(rep.ops[0], GlOp::BindFrameBuffer { target: 77 });
    assert_eq!(rep.ops[1], GlOp::Viewport { x: 5, y: 6, w: 7, h: 8 });
    assert_eq!(*rep.ops.last().unwrap(), GlOp::UnbindFrameBuffer { target: 77 });
}

#[test]
fn not_ready_texture_skips_only_its_surface() {
    let mut engine = Engine::new((640, 480));
    let mut scene = engine.new_scene_tree();
    let waiting = scene.add_material(material(1, RenderQueue::Opaque, vec![(0, 500)]));
    let ready = scene.add_material(material(2, RenderQueue::Opaque, vec![(0, 501)]));
    engine.new_game_object(&mut scene, mesh_object(vec![MeshSurface { buffer: 10, material: waiting }], 0));
    engine.new_game_object(&mut scene, mesh_object(vec![MeshSurface { buffer: 11, material: ready }], 0));
    let mut a = AssetStatus::all_ready();
    a.pending.push(500);
    let rep = engine.render_pass(&scene, &plain_camera(), ClearOption::default(), &a).unwrap();
    assert_eq!(rendered_buffers(&rep), vec![11]);
    assert!(rep.ops.contains(&GlOp::SetSampler { program: 2, slot: 0, unit: 0 }));
}

#[test]
fn broken_program_ends_pass() {
    let (engine, scene) = one_mesh_scene();
    let mut a = AssetStatus::all_ready();
    a.broken.push(1);
    assert_eq!(engine.render_pass(&scene, &plain_camera(), ClearOption::default(), &a).err(), Some(PassError::Material { material: 0 }));
}

#[test]
fn broken_buffer_ends_pass() {
    let (engine, scene) = one_mesh_scene();
    let mut a = AssetStatus::all_ready();
    a.broken.push(10);
    assert_eq!(engine.render_pass(&scene, &plain_camera(), ClearOption::default(), &a).err(), Some(PassError::Mesh { buffer: 10 }));
}

#[test]
fn not_ready_buffer_skipped() {
    let (engine, scene) = one_mesh_scene();
    let mut a = AssetStatus::all_ready();
    a.pending.push(10);
    let rep = engine.render_pass(&scene, &plain_camera(), ClearOption::default(), &a).unwrap();
    assert!(rendered_buffers(&rep).is_empty());
}

#[test]
fn second_pass_repeats_first() {
    let mut engine = Engine::new((320, 200));
    let mut scene = engine.new_scene_tree();
    let m = scene.add_material(material(1, RenderQueue::Transparent, vec![(0, 40), (1, 41)]));
    let n = scene.add_material(material(2, RenderQueue::Opaque, vec![(0, 40)]));
    engine.new_game_object(&mut scene, mesh_object(vec![MeshSurface { buffer: 10, material: m }], 3));
    engine.new_game_object(&mut scene, mesh_object(vec![MeshSurface { buffer: 11, material: m }, MeshSurface { buffer: 12, material: n }], 8));
    let a = AssetStatus::all_ready();
    let first = engine.render_pass(&scene, &plain_camera(), ClearOption::default(), &a).unwrap();
    let second = engine.render_pass(&scene, &plain_camera(), ClearOption::default(), &a).unwrap();
    assert_eq!(first.ops, second.ops);
    assert_eq!((first.switch_mesh, first.switch_prog, first.switch_tex), (second.switch_mesh, second.switch_prog, second.switch_tex));
    assert_eq!((first.switch_mesh, first.switch_prog, first.switch_tex), (3, 2, 2));
    // transparent surfaces drawn farthest first, after the opaque one
    assert_eq!(rendered_buffers(&first), vec![12, 11, 10]);
}

#[test]
fn dropped_object_not_drawn_and_pruned() {
    let (mut engine, mut scene) = one_mesh_scene();
    let m = 0usize;
    let h = engine.new_game_object(&mut scene, mesh_object(vec![MeshSurface { buffer: 20, material: m }], 0));
    scene.remove(h);
    let rep = engine.render_pass(&scene, &plain_camera(), ClearOption::default(), &AssetStatus::all_ready()).unwrap();
    assert_eq!(rendered_buffers(&rep), vec![10]);
    assert_eq!(engine.objects.len(), 2);
    engine.end(&scene);
    assert_eq!(engine.objects, vec![Handle { index: 0 }]);
}

#[test]
fn inactive_and_borrowed_objects_skipped() {
    let (mut engine, mut scene) = one_mesh_scene();
    let mut off = mesh_object(vec![MeshSurface { buffer: 21, material: 0 }], 0);
    off.active = false;
    engine.new_game_object(&mut scene, off);
    let held = engine.new_game_object(&mut scene, mesh_object(vec![MeshSurface { buffer: 22, material: 0 }], 0));
    scene.set_borrowed(held, true);
    let rep = engine.render_pass(&scene, &plain_camera(), ClearOption::default(), &AssetStatus::all_ready()).unwrap();
    assert_eq!(rendered_buffers(&rep), vec![10]);
    scene.set_borrowed(held, false);
    let rep = engine.render_pass(&scene, &plain_camera(), ClearOption::default(), &AssetStatus::all_ready()).unwrap();
    assert_eq!(rendered_buffers(&rep), vec![10, 22]);
}

#[test]
fn surface_with_unknown_material_not_drawn() {
    let (mut engine, mut scene) = one_mesh_scene();
    engine.new_game_object(&mut scene, mesh_object(vec![MeshSurface { buffer: 30, material: 99 }], 0));
    let rep = engine.render_pass(&scene, &plain_camera(), ClearOption::default(), &AssetStatus::all_ready()).unwrap();
    assert_eq!(rendered_buffers(&rep), vec![10]);
}

#[test]
fn render_without_camera_only_clears() {
    let (engine, scene) = one_mesh_scene();
    let opt = ClearOption { color: None, clear_color: false, clear_depth: true, clear_stencil: true };
    let rep = engine.render(&scene, opt, &AssetStatus::all_ready()).unwrap();
    let black = Rgba { r: 0, g: 0, b: 0, a: 0x3F80_0000 };
    assert_eq!(
        rep.ops,
        vec![
            GlOp::DepthMask { enabled: true },
            GlOp::ClearColor { color: black },
            GlOp::Clear { bit: BufferBit::Depth },
            GlOp::Clear { bit: BufferBit::Stencil },
        ]
    );
}

#[test]
fn render_with_main_camera_draws() {
    let (mut engine, scene) = one_mesh_scene();
    engine.main_camera = Some(plain_camera());
    let rep = engine.render(&scene, ClearOption::default(), &AssetStatus::all_ready()).unwrap();
    assert_eq!(rendered_buffers(&rep), vec![10]);
}

#[test]
fn resize_and_startup() {
    let mut engine = Engine::new((10, 20));
    assert_eq!(engine.startup_ops().last(), Some(&GlOp::Viewport { x: 0, y: 0, w: 10, h: 20 }));
    assert_eq!(engine.startup_ops().len(), 8);
    engine.resize((30, 40));
    assert_eq!(engine.screen_size(), (30, 40));
}

fn lights_object(lights: Vec<Light>) -> GameObject {
    GameObject { active: true, components: lights.into_iter().map(Component::Light).collect(), cam_distance: 0 }
}

#[test]
fn directional_after_point_on_one_object_found() {
    let mut engine = Engine::new((8, 8));
    let mut scene = engine.new_scene_tree();
    engine.new_game_object(
        &mut scene,
        lights_object(vec![Light { kind: LightKind::Point, id: 1 }, Light { kind: LightKind::Directional, id: 2 }]),
    );
    let mut ctx = EngineContext::new();
    engine.prepare_ctx(&mut ctx, &scene);
    assert_eq!(ctx.main_light, MainLight::Found(2));
    assert_eq!(ctx.point_lights, vec![1]);
}

#[test]
fn five_points_on_one_object_forward_four() {
    let mut engine = Engine::new((8, 8));
    let mut scene = engine.new_scene_tree();
    let ls: Vec<Light> = (1..=5u64).map(|i| Light { kind: LightKind::Point, id: i }).collect();
    engine.new_game_object(&mut scene, lights_object(ls));
    engine.new_game_object(&mut scene, light_object(LightKind::Point, 6));
    let mut ctx = EngineContext::new();
    engine.prepare_ctx(&mut ctx, &scene);
    assert_eq!(ctx.main_light, MainLight::Default);
    assert_eq!(ctx.point_lights, vec![1, 2, 3, 4]);
    assert_eq!(engine.find_all_components(&scene).len(), 6);
}

#[test]
fn lights_of_borrowed_or_dropped_objects_skipped() {
    let mut engine = Engine::new((8, 8));
    let mut scene = engine.new_scene_tree();
    let held = engine.new_game_object(&mut scene, light_object(LightKind::Directional, 1));
    let gone = engine.new_game_object(&mut scene, light_object(LightKind::Point, 2));
    engine.new_game_object(&mut scene, light_object(LightKind::Point, 3));
    scene.set_borrowed(held, true);
    scene.remove(gone);
    let mut ctx = EngineContext::new();
    engine.prepare_ctx(&mut ctx, &scene);
    assert_eq!(ctx.main_light, MainLight::Default);
    assert_eq!(ctx.point_lights, vec![3]);
}

#[test]
fn setup_material_pending_texture_not_ready() {
    let engine = Engine::new((8, 8));
    let mut a = AssetStatus::all_ready();
    a.pending.push(70);
    let mut ctx = EngineContext::new();
    let mut ops = Vec::new();
    let r = engine.setup_material(&mut ctx, 4, &vec![(0, 70), (1, 71)], &a, &mut ops);
    assert_eq!(r, Err(BindError::NotReady));
    assert_eq!(ops, vec![GlOp::BindProgram { program: 4 }]);
    assert!(ctx.textures.is_empty());
}

#[test]
fn render_commands_skips_not_ready_and_continues() {
    let engine = Engine::new((8, 8));
    let mut scene = engine.new_scene_tree();
    let waiting = scene.add_material(material(1, RenderQueue::Opaque, vec![(0, 500)]));
    let ready = scene.add_material(material(2, RenderQueue::Opaque, vec![]));
    let mut q = RenderQueueState::new(true, true, DepthTest::Less);
    q.commands.push(RenderCommand { buffer: 10, material: waiting, object: 0, cam_distance: 0 });
    q.commands.push(RenderCommand { buffer: 11, material: ready, object: 1, cam_distance: 0 });
    let mut a = AssetStatus::all_ready();
    a.pending.push(500);
    let mut ctx = EngineContext::new();
    let mut ops = Vec::new();
    assert_eq!(engine.render_commands(&mut ctx, &q, &scene, &a, &mut ops), Ok(()));
    let rendered: Vec<u64> = ops
        .iter()
        .filter_map(|op| if let GlOp::Render { buffer } = op { Some(*buffer) } else { None })
        .collect();
    assert_eq!(rendered, vec![11]);
    assert!(!ops.contains(&GlOp::BindMesh { buffer: 10, program: 1 }));
}
