use render_core::batch::{part_requests, Batcher, Instance, Mesh, PartLocal, Slot, VisualModel, Wheel};
use render_core::gpu::{BufferUse, GpuDevice, PassCmd, RenderPass};
use render_core::space::{Quatw, Transform, Vec3w, WORD_ONE, WORD_ZERO};

fn v3(x: u32, y: u32, z: u32) -> Vec3w {
    Vec3w { x, y, z }
}

fn ident() -> Transform {
    Transform {
        disp: v3(0, 0, 0),
        rot: Quatw { x: 0, y: 0, z: 0, s: WORD_ONE },
        scale: WORD_ONE,
    }
}

fn mesh(id: u64, num_vertices: u32, vertex_buf: u64) -> Mesh {
    Mesh { id, num_vertices, vertex_buf, offset: v3(0, 0, 0) }
}

fn inst(tag: u32) -> Instance {
    let mut t = ident();
    t.disp.x = tag;
    Instance::new(&t, WORD_ZERO, 7, 3)
}

#[test]
fn add_mesh_counts_and_order_match_calls() {
    let mut b = Batcher::new();
    let m = mesh(1, 10, 100);
    b.add_mesh(&m, inst(11));
    b.add_mesh(&m, inst(22));
    b.add_mesh(&m, inst(33));
    assert_eq!(b.instances.len(), 1);
    assert_eq!(b.instances[0].data.len(), 3);
    assert_eq!(b.instances[0].data[0].transform.disp.x, 11);
    assert_eq!(b.instances[0].data[1].transform.disp.x, 22);
    assert_eq!(b.instances[0].data[2].transform.disp.x, 33);
}

#[test]
fn distinct_meshes_get_distinct_batches() {
    let mut b = Batcher::new();
    b.add_mesh(&mesh(1, 4, 100), inst(1));
    b.add_mesh(&mesh(2, 8, 200), inst(2));
    b.add_mesh(&mesh(1, 4, 100), inst(3));
    assert_eq!(b.instances.len(), 2);
    assert_eq!(b.instances[0].data.len(), 2);
    assert_eq!(b.instances[1].data.len(), 1);
}

#[test]
fn prepare_then_clear_leaves_everything_empty() {
    let mut b = Batcher::new();
    let mut dev = GpuDevice::new();
    b.add_mesh(&mesh(1, 4, 100), inst(1));
    b.add_mesh(&mesh(2, 8, 200), inst(2));
    b.debug_shapes.push(9);
    b.prepare(&mut dev);
    assert!(b.instances[0].buffer.is_some());
    b.clear();
    for a in &b.instances {
        assert_eq!(a.data.len(), 0);
        assert!(a.buffer.is_none());
    }
    assert_eq!(b.debug_shapes.len(), 0);
    assert_eq!(b.debug_instances.len(), 0);
}

fn bare_model(body: Mesh) -> VisualModel {
    VisualModel { body, shape: 40, wheels: Vec::new(), slots: Vec::new() }
}

#[test]
fn model_without_parts_gives_one_body_instance() {
    let mut b = Batcher::new();
    let body = mesh(5, 20, 500);
    b.add_model(&bare_model(body), &ident(), None, 7, 3, &Vec::new());
    assert_eq!(b.instances.len(), 1);
    assert_eq!(b.instances[0].mesh.id, 5);
    assert_eq!(b.instances[0].data.len(), 1);
    assert_eq!(b.debug_instances.len(), 0);
    assert_eq!(b.debug_shapes.len(), 0);
}

#[test]
fn model_with_debug_scale_also_collects_one_debug_instance() {
    let mut b = Batcher::new();
    let body = mesh(5, 20, 500);
    let scale = 2.0f32.to_bits();
    b.add_model(&bare_model(body), &ident(), Some(scale), 7, 3, &Vec::new());
    assert_eq!(b.instances[0].data.len(), 1);
    assert_eq!(b.debug_instances.len(), 1);
    assert_eq!(b.debug_instances[0].shape_scale, scale);
    assert_eq!(b.debug_shapes.len(), 1);
    assert_eq!(b.debug_shapes[0], 40);
}

#[test]
fn wheels_and_slots_without_meshes_are_skipped() {
    let mut b = Batcher::new();
    let body = mesh(5, 20, 500);
    let model = VisualModel {
        body,
        shape: 40,
        wheels: vec![Wheel { mesh: None }, Wheel { mesh: None }],
        slots: vec![Slot { mesh: None, pos: v3(0, 0, 0), angle: 0, scale: WORD_ONE }],
    };
    b.add_model(&model, &ident(), None, 7, 3, &Vec::new());
    assert_eq!(b.instances.len(), 1);
    assert_eq!(b.instances[0].data.len(), 1);
}

#[test]
fn wheel_and_slot_instances_use_composed_transforms_in_order() {
    let mut b = Batcher::new();
    let body = mesh(5, 20, 500);
    let wheel_mesh = mesh(6, 12, 600);
    let slot_mesh = mesh(7, 8, 700);
    let model = VisualModel {
        body,
        shape: 40,
        wheels: vec![Wheel { mesh: Some(wheel_mesh) }],
        slots: vec![Slot { mesh: Some(slot_mesh), pos: v3(0, 0, 0), angle: 0, scale: WORD_ONE }],
    };
    let mut tw = ident();
    tw.disp.y = 77;
    let mut ts = ident();
    ts.disp.y = 88;
    b.add_model(&model, &ident(), None, 7, 3, &vec![tw, ts]);
    assert_eq!(b.instances.len(), 3);
    assert_eq!(b.instances[1].mesh.id, 6);
    assert_eq!(b.instances[1].data[0].transform.disp.y, 77);
    assert_eq!(b.instances[2].mesh.id, 7);
    assert_eq!(b.instances[2].data[0].transform.disp.y, 88);
}

#[test]
fn slot_request_carries_offset_to_undo_and_composition_places_origin() {
    // A slot mesh whose own pivot offset is (1,0,0), in a slot at (2,0,0)
    // with angle 0 and the parent's scale: undoing the offset before the
    // slot transform must place the mesh origin at (1,0,0) in parent space.
    let one = 1.0f32;
    let two = 2.0f32;
    let slot_mesh = Mesh { id: 7, num_vertices: 8, vertex_buf: 700, offset: v3(one.to_bits(), 0, 0) };
    let model = VisualModel {
        body: mesh(5, 20, 500),
        shape: 40,
        wheels: Vec::new(),
        slots: vec![Slot { mesh: Some(slot_mesh), pos: v3(two.to_bits(), 0, 0), angle: 0, scale: WORD_ONE }],
    };
    let reqs = part_requests(&model);
    assert_eq!(reqs.len(), 1);
    match reqs[0] {
        PartLocal::Slot { pos, angle, scale, mesh_offset } => {
            assert_eq!(pos.x, two.to_bits());
            assert_eq!(angle, 0);
            assert_eq!(scale, WORD_ONE);
            assert_eq!(mesh_offset.x, one.to_bits());
            // Compose as the embedding does: local displacement minus the
            // rotated, scaled offset; angle 0 and unit scale make it plain
            // f32 arithmetic.
            let local_disp = f32::from_bits(pos.x) - f32::from_bits(scale) * f32::from_bits(mesh_offset.x);
            assert_eq!(local_disp, 1.0f32);
        }
        _ => panic!("expected a slot request"),
    }
}

#[test]
fn prepare_uploads_one_buffer_with_exactly_the_packed_records_and_draw_issues_one_call() {
    let mut b = Batcher::new();
    let mut dev = GpuDevice::new();
    let m = mesh(1, 10, 100);
    b.add_mesh(&m, inst(1));
    b.add_mesh(&m, inst(2));
    b.add_mesh(&m, inst(3));
    b.prepare(&mut dev);
    assert_eq!(dev.buffers.len(), 1);
    assert_eq!(dev.buffers[0].usage, BufferUse::Vertex);
    // 11 words of 4 bytes per record, 3 records.
    assert_eq!(dev.buffers[0].contents.len(), 3 * 44);
    // The first word of the first record is the first instance's x word.
    assert_eq!(dev.buffers[0].contents[0], 1);
    // The second record starts 44 bytes in.
    assert_eq!(dev.buffers[0].contents[44], 2);
    let buf_id = b.instances[0].buffer.unwrap();
    assert_eq!(buf_id, dev.buffers[0].id);

    let mut pass = RenderPass::new();
    b.draw(&mut pass);
    assert_eq!(
        pass.commands,
        vec![
            PassCmd::SetVertexBuffer { slot: 0, buffer: 100 },
            PassCmd::SetVertexBuffer { slot: 1, buffer: buf_id },
            PassCmd::Draw { vertex_end: 10, instance_end: 3 },
        ]
    );
}

#[test]
fn empty_batches_are_not_drawn_and_hold_no_buffer() {
    let mut b = Batcher::new();
    let mut dev = GpuDevice::new();
    b.add_mesh(&mesh(1, 4, 100), inst(1));
    b.prepare(&mut dev);
    b.clear();
    b.prepare(&mut dev);
    assert!(b.instances[0].buffer.is_none());
    let mut pass = RenderPass::new();
    b.draw(&mut pass);
    assert_eq!(pass.commands.len(), 0);
}
