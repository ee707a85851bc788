use render_core::batch::Batcher;
use render_core::global::{Constants, Fog, Light};
use render_core::gpu::{BufferUse, EncCmd, Encoder, GpuDevice, GpuQueue, PassCmd, PipelineKind, PipelineSet};
use render_core::render::{GlobalContext, ObjectContext, Palette, Render, ScreenTargets, ShapeVertexDesc, StepMode};
use render_core::space::{Camera, Quatw, Transform, Vec4w, WORD_ONE, WORD_ZERO};
use render_core::batch::{Instance, Mesh};
use render_core::space::Vec3w;

fn v4(x: u32, y: u32, z: u32, w: u32) -> Vec4w {
    Vec4w { x, y, z, w }
}

fn camera(tag: u32) -> Camera {
    let mut vp = [0u32; 16];
    vp[0] = tag;
    Camera { pos: v4(tag, 0, 0, WORD_ONE), view_proj: vp }
}

fn light(shadow_size: u32) -> Light {
    Light { pos: v4(1, 2, 3, 4), color: v4(5, 6, 7, 8), shadow_size }
}

fn fog() -> Fog {
    Fog { color: v4(9, 10, 11, 12), params: v4(13, 14, 15, 16) }
}

fn contexts() -> (GlobalContext, ObjectContext) {
    (
        GlobalContext { uniform_buf: 900, bind_group: 901, shadow_bind_group: 902 },
        ObjectContext { pipelines: PipelineSet { main: 910, shadow: 911 }, bind_group: 912 },
    )
}

#[test]
fn shadow_pass_uniform_uploads_are_byte_identical_for_one_camera() {
    let cam = camera(42);
    let a = Constants::new(&cam, &light(256), &fog(), None).to_bytes();
    let b = Constants::new(&cam, &light(256), &fog(), None).to_bytes();
    assert_eq!(a, b);
    assert_eq!(a.len(), 212);
}

#[test]
fn constants_carry_the_shadow_matrix_only_when_referenced() {
    let cam = camera(42);
    let sc = camera(77);
    let with = Constants::new(&cam, &light(256), &fog(), Some(&sc)).to_bytes();
    let without = Constants::new(&cam, &light(0), &fog(), None).to_bytes();
    // The final word tells the shader whether a shadow matrix is present.
    assert_eq!(&with[208..212], &1u32.to_le_bytes()[..]);
    assert_eq!(&without[208..212], &0u32.to_le_bytes()[..]);
    // Without a reference, the shadow matrix slot is all zeroes.
    assert!(without[144..208].iter().all(|b| *b == 0));
    // With one, it holds the shadow camera's matrix.
    assert_eq!(&with[144..148], &77u32.to_le_bytes()[..]);
}

#[test]
fn pipeline_set_selects_by_pass() {
    let set = PipelineSet { main: 1, shadow: 2 };
    assert_eq!(set.select(PipelineKind::Main), 1);
    assert_eq!(set.select(PipelineKind::Shadow), 2);
}

#[test]
fn shadow_state_exists_iff_configured() {
    let mut dev = GpuDevice::new();
    let (g, o) = contexts();
    let on = Render::new(&mut dev, g, o, light(512), fog(), ext(800, 600));
    assert!(on.shadow.is_some());
    assert_eq!(on.shadow.unwrap().size, 512);
    let off = Render::new(&mut dev, g, o, light(0), fog(), ext(800, 600));
    assert!(off.shadow.is_none());
}

fn ext(w: u32, h: u32) -> render_core::gpu::Extent {
    render_core::gpu::Extent { width: w, height: h, depth: 1 }
}

fn small_batcher() -> Batcher {
    let mut b = Batcher::new();
    let m = Mesh { id: 1, num_vertices: 10, vertex_buf: 100, offset: Vec3w { x: 0, y: 0, z: 0 } };
    let t = Transform {
        disp: Vec3w { x: 0, y: 0, z: 0 },
        rot: Quatw { x: 0, y: 0, z: 0, s: WORD_ONE },
        scale: WORD_ONE,
    };
    b.add_mesh(&m, Instance::new(&t, WORD_ZERO, 7, 3));
    b
}

#[test]
fn disabled_shadow_records_exactly_one_pass_without_shadow_state() {
    let mut dev = GpuDevice::new();
    let (g, o) = contexts();
    let mut r = Render::new(&mut dev, g, o, light(0), fog(), ext(800, 600));
    let mut b = small_batcher();
    let mut enc = Encoder::new();
    let cam = camera(42);
    let targets = ScreenTargets { extent: ext(800, 600), color: 70, depth: 71 };
    r.draw_world(&mut enc, &mut b, &cam, None, &targets, &mut dev);
    // One instance upload, one staging upload, three encoder commands.
    assert_eq!(dev.buffers.len(), 2);
    assert_eq!(dev.buffers[1].usage, BufferUse::CopySrc);
    assert_eq!(enc.commands.len(), 3);
    match &enc.commands[0] {
        EncCmd::CopyBufferToBuffer { src, dst, size } => {
            assert_eq!(*src, dev.buffers[1].id);
            assert_eq!(*dst, 900);
            assert_eq!(*size, 212);
        }
        _ => panic!("expected the uniform staging copy first"),
    }
    match &enc.commands[2] {
        EncCmd::Pass { desc, commands } => {
            assert!(desc.color.is_some());
            assert_eq!(desc.color.unwrap().view, 70);
            assert!(commands.contains(&PassCmd::SetPipeline { pipeline: 910 }));
            assert!(!commands.contains(&PassCmd::SetPipeline { pipeline: 911 }));
        }
        _ => panic!("expected the main pass last"),
    }
    // The uploaded constants carry no shadow reference.
    assert_eq!(&dev.buffers[1].contents[208..212], &0u32.to_le_bytes()[..]);
}

#[test]
fn enabled_shadow_records_depth_pass_then_main_pass_from_one_snapshot() {
    let mut dev = GpuDevice::new();
    let (g, o) = contexts();
    let mut r = Render::new(&mut dev, g, o, light(512), fog(), ext(800, 600));
    let shadow_view = r.shadow.unwrap().view;
    let mut b = small_batcher();
    let mut enc = Encoder::new();
    let cam = camera(42);
    let scam = camera(77);
    let targets = ScreenTargets { extent: ext(800, 600), color: 70, depth: 71 };
    r.draw_world(&mut enc, &mut b, &cam, Some(&scam), &targets, &mut dev);
    // Instance upload plus two staging uploads.
    assert_eq!(dev.buffers.len(), 3);
    assert_eq!(enc.commands.len(), 6);
    match &enc.commands[2] {
        EncCmd::Pass { desc, commands } => {
            assert!(desc.color.is_none());
            assert_eq!(desc.depth.unwrap().view, shadow_view);
            assert!(commands.contains(&PassCmd::SetPipeline { pipeline: 911 }));
            assert!(commands.contains(&PassCmd::TerrainDrawShadow));
        }
        _ => panic!("expected the shadow pass third"),
    }
    match &enc.commands[5] {
        EncCmd::Pass { desc, commands } => {
            assert!(desc.color.is_some());
            assert!(commands.contains(&PassCmd::SetPipeline { pipeline: 910 }));
            // Both passes draw the same prepared instance buffer.
            let inst_buf = b.instances[0].buffer.unwrap();
            assert!(commands.contains(&PassCmd::SetVertexBuffer { slot: 1, buffer: inst_buf }));
        }
        _ => panic!("expected the main pass last"),
    }
    // Shadow-pass constants use the shadow camera and no cross-reference.
    assert_eq!(&dev.buffers[1].contents[0..4], &77u32.to_le_bytes()[..]);
    assert_eq!(&dev.buffers[1].contents[208..212], &0u32.to_le_bytes()[..]);
    // Main-pass constants reference the shadow camera's matrix.
    assert_eq!(&dev.buffers[2].contents[144..148], &77u32.to_le_bytes()[..]);
    assert_eq!(&dev.buffers[2].contents[208..212], &1u32.to_le_bytes()[..]);
}

#[test]
fn resize_changes_only_the_cached_extent() {
    let mut dev = GpuDevice::new();
    let (g, o) = contexts();
    let mut r = Render::new(&mut dev, g, o, light(0), fog(), ext(800, 600));
    r.resize(ext(1024, 768));
    assert_eq!(r.screen_size.width, 1024);
    assert_eq!(r.screen_size.height, 768);
    assert!(r.shadow.is_none());
}

#[test]
fn reload_swaps_only_the_object_pipelines() {
    let mut dev = GpuDevice::new();
    let (g, o) = contexts();
    let mut r = Render::new(&mut dev, g, o, light(0), fog(), ext(800, 600));
    r.reload(PipelineSet { main: 920, shadow: 921 });
    assert_eq!(r.object.pipelines.main, 920);
    assert_eq!(r.object.bind_group, 912);
}

#[test]
fn palette_uploads_all_256_texels_in_one_row() {
    let mut dev = GpuDevice::new();
    let mut queue = GpuQueue::new();
    let mut data = vec![[0u8; 4]; 256];
    data[0] = [1, 2, 3, 4];
    data[255] = [9, 9, 9, 9];
    let p = Palette::new(&mut dev, &mut queue, &data);
    assert_eq!(queue.writes.len(), 1);
    assert_eq!(queue.writes[0].texture, p.view);
    assert_eq!(queue.writes[0].bytes_per_row, 1024);
    assert_eq!(queue.writes[0].data.len(), 1024);
    assert_eq!(&queue.writes[0].data[0..4], &[1u8, 2, 3, 4][..]);
    assert_eq!(&queue.writes[0].data[1020..1024], &[9u8, 9, 9, 9][..]);
}

#[test]
fn shape_vertex_layout_is_instance_stepped_with_28_byte_stride() {
    let desc = ShapeVertexDesc::new();
    let d = desc.buffer_desc();
    assert_eq!(d.stride, 28);
    assert_eq!(d.step, StepMode::Instance);
    assert_eq!(d.attributes.len(), 3);
    assert_eq!(d.attributes[0].location, 0);
    assert_eq!(d.attributes[2].location, 2);
}

#[test]
fn gpu_transform_packs_position_scale_then_orientation() {
    let t = Transform {
        disp: Vec3w { x: 1, y: 2, z: 3 },
        rot: Quatw { x: 5, y: 6, z: 7, s: 8 },
        scale: 4,
    };
    let g = render_core::batch::GpuTransform::new(&t);
    assert_eq!(g.pos_scale, [1, 2, 3, 4]);
    assert_eq!(g.orientation, [5, 6, 7, 8]);
}
