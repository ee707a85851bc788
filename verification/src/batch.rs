//! Instance batching: per-frame draw instances grouped by shared mesh.
//!
//! Meshes are identified by stable integer handles handed out by the asset
//! system; two meshes with identical contents but distinct handles are
//! distinct batch keys. Each batch accumulates instance records for one
//! frame, is uploaded as one freshly created GPU buffer by `prepare`, drawn
//! by one instanced draw per batch, and emptied by `clear` at frame end.

use vstd::prelude::*;

use crate::bytes::{push_word, word_bytes};
use crate::gpu::{BufferInit, BufferUse, GpuDevice, PassCmd, RenderPass};
use crate::space::{Transform, Vec3w, WORD_ZERO};

verus! {

/// Geometry shared by many instances: a handle for batching identity, the
/// vertex count, the handle of the static vertex buffer, and the mesh's own
/// pivot offset (three scalar words).
#[derive(Clone, Copy, PartialEq, Eq, Structural, Debug)]
pub struct Mesh {
    pub id: u64,
    pub num_vertices: u32,
    pub vertex_buf: u64,
    pub offset: Vec3w,
}

/// A wheel of a composite model; its mesh, when present, is placed at the
/// mesh's own offset relative to the model body.
#[derive(Clone, Copy, Debug)]
pub struct Wheel {
    pub mesh: Option<Mesh>,
}

/// An equipment slot of a composite model: position, yaw angle and absolute
/// scale, all scalar words.
#[derive(Clone, Copy, Debug)]
pub struct Slot {
    pub mesh: Option<Mesh>,
    pub pos: Vec3w,
    pub angle: u32,
    pub scale: u32,
}

/// A composite model: a body mesh, a debug-shape handle, and articulated
/// parts. Parts without an attached mesh are skipped silently when batching.
pub struct VisualModel {
    pub body: Mesh,
    pub shape: u64,
    pub wheels: Vec<Wheel>,
    pub slots: Vec<Slot>,
}

/// The 8-word GPU layout of a transform: position and scale, then the
/// rotation quaternion.
pub struct GpuTransform {
    pub pos_scale: [u32; 4],
    pub orientation: [u32; 4],
}

impl GpuTransform {
    pub fn new(t: &Transform) -> (r: GpuTransform)
        ensures
            r.pos_scale@ == seq![t.disp.x, t.disp.y, t.disp.z, t.scale],
            r.orientation@ == seq![t.rot.x, t.rot.y, t.rot.z, t.rot.s],
    {
        let r = GpuTransform {
            pos_scale: [t.disp.x, t.disp.y, t.disp.z, t.scale],
            orientation: [t.rot.x, t.rot.y, t.rot.z, t.rot.s],
        };
        proof {
            assert(r.pos_scale@ =~= seq![t.disp.x, t.disp.y, t.disp.z, t.scale]);
            assert(r.orientation@ =~= seq![t.rot.x, t.rot.y, t.rot.z, t.rot.s]);
        }
        r
    }
}

/// One GPU-draw-ready record: a transform, the debug-shape scale word (zero
/// outside debug mode), the handle of body-specific GPU state, and a
/// color/material tag.
#[derive(Clone, Copy, PartialEq, Eq, Structural, Debug)]
pub struct Instance {
    pub transform: Transform,
    pub shape_scale: u32,
    pub body: u32,
    pub color: u32,
}

impl Instance {
    pub fn new(transform: &Transform, shape_scale: u32, body: u32, color: u32) -> (r: Instance)
        ensures
            r == (Instance { transform: *transform, shape_scale, body, color }),
    {
        Instance { transform: *transform, shape_scale, body, color }
    }
}

/// The packed byte layout of one instance record: the 8 transform words,
/// then the debug-shape scale, body handle and color words.
pub open spec fn instance_bytes(i: Instance) -> Seq<u8> {
    word_bytes(i.transform.disp.x) + word_bytes(i.transform.disp.y) + word_bytes(i.transform.disp.z)
        + word_bytes(i.transform.scale) + word_bytes(i.transform.rot.x) + word_bytes(i.transform.rot.y)
        + word_bytes(i.transform.rot.z) + word_bytes(i.transform.rot.s) + word_bytes(i.shape_scale)
        + word_bytes(i.body) + word_bytes(i.color)
}

/// The packed bytes of the first `n` records of `data`, in order.
pub open spec fn packed_upto(data: Seq<Instance>, n: int) -> Seq<u8>
    decreases n,
{
    if n <= 0 {
        Seq::empty()
    } else {
        packed_upto(data, n - 1) + instance_bytes(data[n - 1])
    }
}

/// Append the packed bytes of one record.
#[verifier::rlimit(60)]
pub fn push_instance(out: &mut Vec<u8>, i: &Instance)
    ensures
        final(out)@ == old(out)@ + instance_bytes(*i),
{
    push_word(out, i.transform.disp.x);
    push_word(out, i.transform.disp.y);
    push_word(out, i.transform.disp.z);
    push_word(out, i.transform.scale);
    push_word(out, i.transform.rot.x);
    push_word(out, i.transform.rot.y);
    push_word(out, i.transform.rot.z);
    push_word(out, i.transform.rot.s);
    push_word(out, i.shape_scale);
    push_word(out, i.body);
    push_word(out, i.color);
    proof {
        assert(final(out)@ =~= old(out)@ + instance_bytes(*i));
    }
}

/// Pack all records of `data` into one tightly laid out byte payload.
pub fn pack_instances(data: &Vec<Instance>) -> (r: Vec<u8>)
    ensures
        r@ == packed_upto(data@, data@.len() as int),
{
    let mut out: Vec<u8> = Vec::new();
    let mut i: usize = 0;
    while i < data.len()
        invariant
            0 <= i <= data@.len(),
            out@ == packed_upto(data@, i as int),
        decreases data@.len() - i,
    {
        push_instance(&mut out, &data[i]);
        i = i + 1;
    }
    out
}

/// The batching unit for one mesh: the accumulated records for the current
/// frame and, after `prepare`, the handle of the uploaded snapshot buffer.
pub struct InstanceArray {
    pub mesh: Mesh,
    pub data: Vec<Instance>,
    pub buffer: Option<u64>,
}

/// The mathematical value of one batch.
#[verifier::ext_equal]
pub struct ArrV {
    pub mesh: Mesh,
    pub data: Seq<Instance>,
    pub buffer: Option<u64>,
}

pub open spec fn arrv(a: InstanceArray) -> ArrV {
    ArrV { mesh: a.mesh, data: a.data@, buffer: a.buffer }
}

pub open spec fn bview(s: Seq<InstanceArray>) -> Seq<ArrV> {
    Seq::new(s.len(), |i: int| arrv(s[i]))
}

/// Whether some batch is keyed by mesh handle `id`.
pub open spec fn has_id(s: Seq<ArrV>, id: u64) -> bool {
    exists|i: int| 0 <= i < s.len() && s[i].mesh.id == id
}

/// The index of the batch keyed by `id` (meaningful when `has_id` holds and
/// the keys are distinct).
pub open spec fn idx_of(s: Seq<ArrV>, id: u64) -> int {
    choose|i: int| 0 <= i < s.len() && s[i].mesh.id == id
}

/// Distinct mesh handles: at most one batch per mesh identity.
pub open spec fn wf_ids(s: Seq<ArrV>) -> bool {
    forall|i: int, j: int|
        0 <= i < j < s.len() ==> (#[trigger] s[i].mesh.id) != (#[trigger] s[j].mesh.id)
}

/// The records batched so far for mesh handle `id`, in insertion order;
/// empty when no batch is keyed by `id`.
pub open spec fn instances_for(s: Seq<ArrV>, id: u64) -> Seq<Instance> {
    if has_id(s, id) {
        s[idx_of(s, id)].data
    } else {
        Seq::empty()
    }
}

/// The effect of adding one record under mesh `mesh`: extend the existing
/// batch for its handle, or open a new buffer-less batch holding just this
/// record.
pub open spec fn add_inst(s: Seq<ArrV>, mesh: Mesh, inst: Instance) -> Seq<ArrV> {
    if has_id(s, mesh.id) {
        let i = idx_of(s, mesh.id);
        s.update(i, ArrV { mesh: s[i].mesh, data: s[i].data.push(inst), buffer: s[i].buffer })
    } else {
        s.push(ArrV { mesh, data: seq![inst], buffer: None })
    }
}

/// Adding a record extends exactly the batch of its mesh, by exactly that
/// record, keeps every other batch, and preserves key distinctness. Over a
/// sequence of such additions with one mesh identity, the batch therefore
/// holds exactly the added records in call order.
pub proof fn lemma_add_inst_for(s: Seq<ArrV>, mesh: Mesh, inst: Instance)
    requires
        wf_ids(s),
    ensures
        wf_ids(add_inst(s, mesh, inst)),
        instances_for(add_inst(s, mesh, inst), mesh.id) == instances_for(s, mesh.id).push(inst),
        forall|o: u64| o != mesh.id ==> instances_for(add_inst(s, mesh, inst), o) == instances_for(s, o),
{
    let t = add_inst(s, mesh, inst);
    if has_id(s, mesh.id) {
        let i = idx_of(s, mesh.id);
        assert(0 <= i < s.len() && s[i].mesh.id == mesh.id);
        assert(forall|j: int| 0 <= j < t.len() ==> t[j].mesh == s[j].mesh);
        assert(wf_ids(t));
        assert(t[i].mesh.id == mesh.id);
        assert(has_id(t, mesh.id));
        let i2 = idx_of(t, mesh.id);
        assert(0 <= i2 < t.len() && t[i2].mesh.id == mesh.id);
        assert(i2 == i);
        assert(instances_for(t, mesh.id) == instances_for(s, mesh.id).push(inst));
        assert forall|o: u64| o != mesh.id implies instances_for(t, o) == instances_for(s, o) by {
            if has_id(s, o) {
                let k = idx_of(s, o);
                assert(0 <= k < t.len() && t[k].mesh.id == o);
                assert(has_id(t, o));
                let k2 = idx_of(t, o);
                assert(0 <= k2 < t.len() && t[k2].mesh.id == o);
                assert(k2 == k);
                assert(k != i);
                assert(instances_for(t, o) == instances_for(s, o));
            } else {
                assert(!has_id(t, o)) by {
                    if has_id(t, o) {
                        let k2 = idx_of(t, o);
                        assert(0 <= k2 < s.len() && s[k2].mesh.id == o);
                    }
                }
            }
        }
    } else {
        assert(forall|j: int| 0 <= j < s.len() ==> (#[trigger] s[j].mesh.id) != mesh.id);
        assert(t.len() == s.len() + 1);
        assert(t[s.len() as int].mesh.id == mesh.id);
        assert(wf_ids(t));
        assert(has_id(t, mesh.id));
        let i2 = idx_of(t, mesh.id);
        assert(0 <= i2 < t.len() && t[i2].mesh.id == mesh.id);
        assert(i2 == s.len());
        assert(instances_for(s, mesh.id) == Seq::<Instance>::empty());
        assert(t[i2].data =~= Seq::<Instance>::empty().push(inst));
        assert(instances_for(t, mesh.id) == instances_for(s, mesh.id).push(inst));
        assert forall|o: u64| o != mesh.id implies instances_for(t, o) == instances_for(s, o) by {
            if has_id(s, o) {
                let k = idx_of(s, o);
                assert(0 <= k < t.len() && t[k].mesh.id == o);
                assert(has_id(t, o));
                let k2 = idx_of(t, o);
                assert(0 <= k2 < t.len() && t[k2].mesh.id == o);
                assert(k2 < s.len());
                assert(k2 == k);
            } else {
                assert(!has_id(t, o)) by {
                    if has_id(t, o) {
                        let k2 = idx_of(t, o);
                        assert(0 <= k2 < s.len() && s[k2].mesh.id == o);
                    }
                }
            }
        }
    }
}

/// The batches after `n` additions of records under one mesh.
pub open spec fn add_insts_same_mesh(s: Seq<ArrV>, mesh: Mesh, insts: Seq<Instance>, n: int) -> Seq<ArrV>
    decreases n,
{
    if n <= 0 {
        s
    } else {
        add_inst(add_insts_same_mesh(s, mesh, insts, n - 1), mesh, insts[n - 1])
    }
}

/// After any sequence of additions with one mesh identity, that mesh's
/// batch holds exactly the prior records followed by the added records in
/// call order — its count equals the number of calls — and every other
/// batch is unchanged.
pub proof fn lemma_add_mesh_sequence(s: Seq<ArrV>, mesh: Mesh, insts: Seq<Instance>, n: int)
    requires
        wf_ids(s),
        0 <= n <= insts.len(),
    ensures
        wf_ids(add_insts_same_mesh(s, mesh, insts, n)),
        instances_for(add_insts_same_mesh(s, mesh, insts, n), mesh.id) == instances_for(s, mesh.id)
            + insts.take(n),
        forall|o: u64|
            o != mesh.id ==> instances_for(add_insts_same_mesh(s, mesh, insts, n), o) == instances_for(s, o),
    decreases n,
{
    if n == 0 {
        assert(instances_for(s, mesh.id) + insts.take(0) =~= instances_for(s, mesh.id));
    } else {
        lemma_add_mesh_sequence(s, mesh, insts, n - 1);
        lemma_add_inst_for(add_insts_same_mesh(s, mesh, insts, n - 1), mesh, insts[n - 1]);
        assert((instances_for(s, mesh.id) + insts.take(n - 1)).push(insts[n - 1]) =~= instances_for(
            s,
            mesh.id,
        ) + insts.take(n));
    }
}

/// The owner of all batches for the frame, plus the separately collected
/// debug shapes and their instances (consumed by the debug collaborator,
/// not drawn here).
pub struct Batcher {
    pub instances: Vec<InstanceArray>,
    pub debug_shapes: Vec<u64>,
    pub debug_instances: Vec<Instance>,
}

impl Batcher {
    pub open spec fn wf(self) -> bool {
        wf_ids(bview(self.instances@))
    }

    pub fn new() -> (r: Batcher)
        ensures
            r.wf(),
            r.instances@.len() == 0,
            r.debug_shapes@.len() == 0,
            r.debug_instances@.len() == 0,
    {
        Batcher { instances: Vec::new(), debug_shapes: Vec::new(), debug_instances: Vec::new() }
    }

    /// Append `instance` to the batch keyed by `mesh`'s handle, opening the
    /// batch if this is the first record for that mesh this frame.
    #[verifier::loop_isolation(false)]
    pub fn add_mesh(&mut self, mesh: &Mesh, instance: Instance)
        requires
            old(self).wf(),
        ensures
            final(self).wf(),
            bview(final(self).instances@) == add_inst(bview(old(self).instances@), *mesh, instance),
            instances_for(bview(final(self).instances@), mesh.id)
                == instances_for(bview(old(self).instances@), mesh.id).push(instance),
            forall|o: u64|
                o != mesh.id ==> instances_for(bview(final(self).instances@), o)
                    == instances_for(bview(old(self).instances@), o),
            final(self).debug_shapes@ == old(self).debug_shapes@,
            final(self).debug_instances@ == old(self).debug_instances@,
    {
        let ghost s0 = bview(old(self).instances@);
        let n = self.instances.len();
        let mut i: usize = 0;
        while i < n
            invariant
                n == self.instances@.len(),
                0 <= i <= n,
                self.instances@ == old(self).instances@,
                self.debug_shapes@ == old(self).debug_shapes@,
                self.debug_instances@ == old(self).debug_instances@,
                forall|j: int| 0 <= j < i ==> (#[trigger] bview(self.instances@)[j]).mesh.id != mesh.id,
            decreases n - i,
        {
            if self.instances[i].mesh.id == mesh.id {
                proof {
                    assert(s0.len() == old(self).instances@.len());
                    assert(s0[i as int] == arrv(old(self).instances@[i as int]));
                    assert(s0[i as int].mesh.id == mesh.id);
                    assert(has_id(s0, mesh.id));
                    let k = idx_of(s0, mesh.id);
                    assert(0 <= k < s0.len() && s0[k].mesh.id == mesh.id);
                    assert(k == i);
                }
                self.instances[i].data.push(instance);
                proof {
                    assert(bview(self.instances@) =~= add_inst(s0, *mesh, instance));
                    lemma_add_inst_for(s0, *mesh, instance);
                }
                return;
            }
            i = i + 1;
        }
        proof {
            assert(forall|j: int| 0 <= j < s0.len() ==> (#[trigger] s0[j]).mesh.id != mesh.id);
            assert(!has_id(s0, mesh.id));
        }
        let mut data: Vec<Instance> = Vec::new();
        data.push(instance);
        self.instances.push(InstanceArray { mesh: *mesh, data, buffer: None });
        proof {
            assert(bview(self.instances@) =~= add_inst(s0, *mesh, instance));
            lemma_add_inst_for(s0, *mesh, instance);
        }
    }

    /// Expand one composite model into batched instances: one for the body
    /// at the base transform, one per wheel with a mesh and one per slot
    /// with a mesh, each at the matching entry of `part_transforms` (the
    /// composed world transforms, supplied by the embedding's math layer in
    /// wheel order then slot order). A debug-shape instance is collected
    /// separately exactly when a debug scale is supplied.
    #[verifier::loop_isolation(false)]
    pub fn add_model(
        &mut self,
        model: &VisualModel,
        base_transform: &Transform,
        debug_shape_scale: Option<u32>,
        gpu_body: u32,
        color: u32,
        part_transforms: &Vec<Transform>,
    )
        requires
            old(self).wf(),
            part_transforms@.len() == wheel_meshes_upto(model.wheels@, model.wheels@.len() as int).len()
                + slot_meshes_upto(model.slots@, model.slots@.len() as int).len(),
        ensures
            final(self).wf(),
            bview(final(self).instances@) == add_model_spec(
                bview(old(self).instances@),
                model.body,
                *base_transform,
                gpu_body,
                color,
                model.wheels@,
                model.slots@,
                part_transforms@,
            ),
            debug_shape_scale is None ==> final(self).debug_shapes@ == old(self).debug_shapes@,
            debug_shape_scale is None ==> final(self).debug_instances@ == old(self).debug_instances@,
            debug_shape_scale matches Some(sc) ==> final(self).debug_shapes@ == old(self).debug_shapes@.push(model.shape),
            debug_shape_scale matches Some(sc) ==> final(self).debug_instances@ == old(self).debug_instances@.push(
                (Instance { transform: *base_transform, shape_scale: sc, body: gpu_body, color }),
            ),
    {
        let ghost ws = model.wheels@;
        let ghost ss = model.slots@;
        let ghost wm = wheel_meshes_upto(ws, ws.len() as int);
        let ghost sm = slot_meshes_upto(ss, ss.len() as int);
        let ghost iall = insts_of(part_transforms@, gpu_body, color);
        self.add_mesh(&model.body, Instance::new(base_transform, WORD_ZERO, gpu_body, color));
        let ghost s1 = bview(self.instances@);
        if let Some(shape_scale) = debug_shape_scale {
            self.debug_shapes.push(model.shape);
            self.debug_instances.push(Instance::new(base_transform, shape_scale, gpu_body, color));
        }
        let ghost dbs = self.debug_shapes@;
        let ghost dbi = self.debug_instances@;
        let np = part_transforms.len();
        let mut k: usize = 0;
        let mut i: usize = 0;
        let nw = model.wheels.len();
        while i < nw
            invariant
                0 <= i <= ws.len(),
                k == wheel_meshes_upto(ws, i as int).len(),
                self.wf(),
                bview(self.instances@) == add_insts_upto(s1, wheel_meshes_upto(ws, i as int), iall, k as int),
                self.debug_shapes@ == dbs,
                self.debug_instances@ == dbi,
            decreases nw - i,
        {
            if let Some(mesh) = model.wheels[i].mesh {
                proof {
                    lemma_meshes_len_bound(ws, ss, i as int + 1);
                    assert(wheel_meshes_upto(ws, i as int + 1) == wheel_meshes_upto(ws, i as int) + seq![mesh]);
                    assert(k < np);
                }
                let t = part_transforms[k];
                self.add_mesh(&mesh, Instance::new(&t, WORD_ZERO, gpu_body, color));
                proof {
                    let m0 = wheel_meshes_upto(ws, i as int);
                    let m1 = wheel_meshes_upto(ws, i as int + 1);
                    lemma_add_insts_agree(s1, m1, m0, iall, k as int);
                    assert(m1[k as int] == mesh);
                    assert(iall[k as int] == (Instance { transform: part_transforms@[k as int], shape_scale: WORD_ZERO, body: gpu_body, color }));
                    assert(bview(self.instances@) == add_insts_upto(s1, m1, iall, k as int + 1));
                }
                k = k + 1;
            }
            i = i + 1;
        }
        let ghost cm0 = wheel_meshes_upto(ws, ws.len() as int);
        let mut j: usize = 0;
        let ns = model.slots.len();
        while j < ns
            invariant
                0 <= j <= ss.len(),
                k == cm0.len() + slot_meshes_upto(ss, j as int).len(),
                self.wf(),
                bview(self.instances@) == add_insts_upto(s1, cm0 + slot_meshes_upto(ss, j as int), iall, k as int),
                self.debug_shapes@ == dbs,
                self.debug_instances@ == dbi,
            decreases ns - j,
        {
            if let Some(mesh) = model.slots[j].mesh {
                proof {
                    lemma_slot_meshes_mono(ss, j as int + 1, ss.len() as int);
                    assert(slot_meshes_upto(ss, j as int + 1) == slot_meshes_upto(ss, j as int) + seq![mesh]);
                    lemma_wheel_meshes_mono(ws, 0, ws.len() as int);
                    assert(k < np);
                }
                let t = part_transforms[k];
                self.add_mesh(&mesh, Instance::new(&t, WORD_ZERO, gpu_body, color));
                proof {
                    let m0 = cm0 + slot_meshes_upto(ss, j as int);
                    let m1 = cm0 + slot_meshes_upto(ss, j as int + 1);
                    assert(m1 =~= m0 + seq![mesh]);
                    lemma_add_insts_agree(s1, m1, m0, iall, k as int);
                    assert(m1[k as int] == mesh);
                    assert(iall[k as int] == (Instance { transform: part_transforms@[k as int], shape_scale: WORD_ZERO, body: gpu_body, color }));
                    assert(bview(self.instances@) == add_insts_upto(s1, m1, iall, k as int + 1));
                }
                k = k + 1;
            }
            j = j + 1;
        }
        proof {
            assert(bview(self.instances@) == add_model_spec(
                bview(old(self).instances@), model.body, *base_transform, gpu_body, color, ws, ss, part_transforms@,
            ));
        }
    }

    /// Upload the frame's batches: every non-empty batch gets a freshly
    /// created vertex buffer holding exactly its packed records; empty
    /// batches hold no buffer. Batch contents and order are unchanged.
    #[verifier::loop_isolation(false)]
    #[verifier::rlimit(100)]
    pub fn prepare(&mut self, device: &mut GpuDevice)
        requires
            old(self).wf(),
            old(device).wf(),
            old(device).next_buffer + old(self).instances@.len() <= u64::MAX,
        ensures
            final(self).wf(),
            final(device).wf(),
            final(self).instances@.len() == old(self).instances@.len(),
            forall|i: int| 0 <= i < old(self).instances@.len() ==> prepared_at(
                bview(old(self).instances@), bview(final(self).instances@), old(device).next_buffer, i,
            ),
            final(self).debug_shapes@ == old(self).debug_shapes@,
            final(self).debug_instances@ == old(self).debug_instances@,
            final(device).next_buffer == old(device).next_buffer
                + nonempty_upto(bview(old(self).instances@), old(self).instances@.len() as int),
            final(device).next_texture == old(device).next_texture,
            final(device).buffers@.len() == old(device).buffers@.len()
                + nonempty_upto(bview(old(self).instances@), old(self).instances@.len() as int),
            final(device).buffers@.subrange(0, old(device).buffers@.len() as int) == old(device).buffers@,
            forall|i: int| 0 <= i < old(self).instances@.len()
                && (#[trigger] bview(old(self).instances@)[i]).data.len() > 0 ==> uploaded_at(
                bview(old(self).instances@), final(device).buffers@, old(device).buffers@.len() as int,
                old(device).next_buffer, i,
            ),
    {
        let ghost s0 = bview(old(self).instances@);
        let ghost d0 = old(device).buffers@;
        let ghost b0 = old(device).next_buffer;
        let n = self.instances.len();
        let mut i: usize = 0;
        while i < n
            invariant
                0 <= i <= n,
                n == old(self).instances@.len(),
                self.instances@.len() == n,
                self.wf(),
                device.wf(),
                forall|j: int| i <= j < n ==> arrv(self.instances@[j]) == s0[j],
                forall|j: int| 0 <= j < i ==> prepared_at(s0, bview(self.instances@), b0, j),
                self.debug_shapes@ == old(self).debug_shapes@,
                self.debug_instances@ == old(self).debug_instances@,
                device.next_buffer == b0 + nonempty_upto(s0, i as int),
                device.next_texture == old(device).next_texture,
                device.buffers@.len() == d0.len() + nonempty_upto(s0, i as int),
                device.buffers@.subrange(0, d0.len() as int) == d0,
                forall|j: int| 0 <= j < i && (#[trigger] s0[j]).data.len() > 0
                    ==> uploaded_at(s0, device.buffers@, d0.len() as int, b0, j),
            decreases n - i,
        {
            proof {
                lemma_nonempty_bound(s0, i as int);
            }
            let ghost sprev = bview(self.instances@);
            let ghost dprev = device.buffers@;
            if self.instances[i].data.len() > 0 {
                let bytes = pack_instances(&self.instances[i].data);
                let id = device.create_buffer_init(bytes, BufferUse::Vertex);
                self.instances[i].buffer = Some(id);
                proof {
                    reveal(prepared_at);
                    reveal(uploaded_at);
                    assert forall|j: int| 0 <= j < dprev.len() implies device.buffers@[j] == dprev[j] by {
                        assert(device.buffers@.subrange(0, dprev.len() as int)[j] == dprev[j]);
                    }
                    assert(device.buffers@.subrange(0, d0.len() as int) =~= d0);
                    assert(nonempty_upto(s0, i as int + 1) == nonempty_upto(s0, i as int) + 1);
                    assert(device.buffers@[dprev.len() as int].contents@ == packed_upto(s0[i as int].data, s0[i as int].data.len() as int));
                    assert(uploaded_at(s0, device.buffers@, d0.len() as int, b0, i as int));
                    assert(prepared_at(s0, bview(self.instances@), b0, i as int));
                }
            } else {
                self.instances[i].buffer = None;
                proof {
                    reveal(prepared_at);
                    assert(nonempty_upto(s0, i as int + 1) == nonempty_upto(s0, i as int));
                    assert(prepared_at(s0, bview(self.instances@), b0, i as int));
                }
            }
            proof {
                assert forall|j: int| 0 <= j < self.instances@.len() implies (#[trigger] bview(
                    self.instances@,
                )[j]).mesh == sprev[j].mesh by {}
                assert(wf_ids(bview(self.instances@)));
                assert forall|j: int| 0 <= j < i + 1 implies prepared_at(s0, bview(self.instances@), b0, j) by {
                    if j < i {
                        reveal(prepared_at);
                        assert(bview(self.instances@)[j] == sprev[j]);
                        assert(prepared_at(s0, sprev, b0, j));
                    }
                }
                assert forall|j: int| 0 <= j < i + 1 && (#[trigger] s0[j]).data.len() > 0 implies uploaded_at(
                    s0, device.buffers@, d0.len() as int, b0, j,
                ) by {
                    if j < i {
                        reveal(uploaded_at);
                        assert(uploaded_at(s0, dprev, d0.len() as int, b0, j));
                        lemma_nonempty_bound(s0, j);
                    }
                }
            }
            i = i + 1;
        }
    }

    /// Record the frame's instanced draws: for every non-empty batch, bind
    /// the mesh's vertex buffer at slot 0 and the batch's instance buffer at
    /// slot 1, then draw the mesh's full vertex range once per record.
    /// Order across batches follows batch creation order; no draw-order
    /// dependence between meshes may be assumed.
    #[verifier::loop_isolation(false)]
    pub fn draw(&self, pass: &mut RenderPass)
        requires
            forall|i: int| 0 <= i < self.instances@.len()
                && (#[trigger] bview(self.instances@)[i]).data.len() > 0
                ==> bview(self.instances@)[i].buffer is Some,
        ensures
            final(pass).commands@ == old(pass).commands@
                + draw_cmds_upto(bview(self.instances@), self.instances@.len() as int),
    {
        let n = self.instances.len();
        let mut i: usize = 0;
        while i < n
            invariant
                0 <= i <= n,
                n == self.instances@.len(),
                pass.commands@ == old(pass).commands@ + draw_cmds_upto(bview(self.instances@), i as int),
            decreases n - i,
        {
            if self.instances[i].data.len() > 0 {
                proof {
                    assert(bview(self.instances@)[i as int].data.len() > 0);
                    assert(bview(self.instances@)[i as int].buffer is Some);
                }
                let buf = self.instances[i].buffer.unwrap();
                pass.commands.push(PassCmd::SetVertexBuffer { slot: 0, buffer: self.instances[i].mesh.vertex_buf });
                pass.commands.push(PassCmd::SetVertexBuffer { slot: 1, buffer: buf });
                pass.commands.push(PassCmd::Draw {
                    vertex_end: self.instances[i].mesh.num_vertices,
                    instance_end: self.instances[i].data.len() as u64,
                });
                proof {
                    assert(pass.commands@ =~= old(pass).commands@
                        + draw_cmds_upto(bview(self.instances@), i as int + 1));
                }
            }
            i = i + 1;
        }
    }

    /// End the frame: empty every batch's record list, drop every batch
    /// buffer, and empty the debug collections. Batches themselves persist
    /// as empty entries.
    #[verifier::loop_isolation(false)]
    pub fn clear(&mut self)
        ensures
            old(self).wf() ==> final(self).wf(),
            final(self).instances@.len() == old(self).instances@.len(),
            forall|i: int| 0 <= i < old(self).instances@.len() ==> ({
                let a1 = #[trigger] bview(final(self).instances@)[i];
                &&& a1.mesh == bview(old(self).instances@)[i].mesh
                &&& a1.data.len() == 0
                &&& a1.buffer is None
            }),
            final(self).debug_shapes@.len() == 0,
            final(self).debug_instances@.len() == 0,
    {
        let ghost s0 = bview(old(self).instances@);
        let n = self.instances.len();
        let mut i: usize = 0;
        while i < n
            invariant
                0 <= i <= n,
                n == old(self).instances@.len(),
                self.instances@.len() == n,
                forall|j: int| i <= j < n ==> arrv(self.instances@[j]) == s0[j],
                forall|j: int| 0 <= j < i ==> ({
                    let a1 = #[trigger] bview(self.instances@)[j];
                    &&& a1.mesh == s0[j].mesh
                    &&& a1.data.len() == 0
                    &&& a1.buffer is None
                }),
            decreases n - i,
        {
            let ghost sprev = bview(self.instances@);
            self.instances[i].data.clear();
            self.instances[i].buffer = None;
            proof {
                assert(self.instances@[i as int].data@.len() == 0);
                assert(self.instances@[i as int].buffer is None);
                assert(self.instances@[i as int].mesh == s0[i as int].mesh);
                assert forall|j: int| 0 <= j < i + 1 implies ({
                    let a1 = #[trigger] bview(self.instances@)[j];
                    &&& a1.mesh == s0[j].mesh
                    &&& a1.data.len() == 0
                    &&& a1.buffer is None
                }) by {
                    if j < i {
                        assert(bview(self.instances@)[j] == sprev[j]);
                    }
                }
            }
            i = i + 1;
        }
        self.debug_shapes.clear();
        self.debug_instances.clear();
        proof {
            if old(self).wf() {
                assert(wf_ids(bview(self.instances@)));
            }
        }
    }
}

/// The meshes of the wheels among the first `n` that carry one, in order.
pub open spec fn wheel_meshes_upto(ws: Seq<Wheel>, n: int) -> Seq<Mesh>
    decreases n,
{
    if n <= 0 {
        Seq::empty()
    } else {
        wheel_meshes_upto(ws, n - 1) + (match ws[n - 1].mesh {
            Some(m) => seq![m],
            None => Seq::empty(),
        })
    }
}

/// The meshes of the slots among the first `n` that carry one, in order.
pub open spec fn slot_meshes_upto(ss: Seq<Slot>, n: int) -> Seq<Mesh>
    decreases n,
{
    if n <= 0 {
        Seq::empty()
    } else {
        slot_meshes_upto(ss, n - 1) + (match ss[n - 1].mesh {
            Some(m) => seq![m],
            None => Seq::empty(),
        })
    }
}

/// The instance records for a sequence of composed part transforms.
pub open spec fn insts_of(ts: Seq<Transform>, gpu_body: u32, color: u32) -> Seq<Instance> {
    Seq::new(ts.len(), |i: int| Instance { transform: ts[i], shape_scale: WORD_ZERO, body: gpu_body, color })
}

/// Fold `add_inst` over the first `n` mesh/record pairs.
pub open spec fn add_insts_upto(s: Seq<ArrV>, meshes: Seq<Mesh>, ins: Seq<Instance>, n: int) -> Seq<ArrV>
    decreases n,
{
    if n <= 0 {
        s
    } else {
        add_inst(add_insts_upto(s, meshes, ins, n - 1), meshes[n - 1], ins[n - 1])
    }
}

/// Folding reads only the first `n` entries of the mesh sequence.
pub proof fn lemma_add_insts_agree(s: Seq<ArrV>, m1: Seq<Mesh>, m2: Seq<Mesh>, ins: Seq<Instance>, n: int)
    requires
        forall|j: int| 0 <= j < n ==> m1[j] == m2[j],
    ensures
        add_insts_upto(s, m1, ins, n) == add_insts_upto(s, m2, ins, n),
    decreases n,
{
    if n > 0 {
        lemma_add_insts_agree(s, m1, m2, ins, n - 1);
    }
}

/// Wheel-mesh prefixes grow with the prefix length.
pub proof fn lemma_wheel_meshes_mono(ws: Seq<Wheel>, i: int, j: int)
    requires
        i <= j,
    ensures
        wheel_meshes_upto(ws, i).len() <= wheel_meshes_upto(ws, j).len(),
    decreases j - i,
{
    if i < j {
        lemma_wheel_meshes_mono(ws, i, j - 1);
    }
}

/// Slot-mesh prefixes grow with the prefix length.
pub proof fn lemma_slot_meshes_mono(ss: Seq<Slot>, i: int, j: int)
    requires
        i <= j,
    ensures
        slot_meshes_upto(ss, i).len() <= slot_meshes_upto(ss, j).len(),
    decreases j - i,
{
    if i < j {
        lemma_slot_meshes_mono(ss, i, j - 1);
    }
}

/// The wheel meshes of any prefix fit within the combined part count.
pub proof fn lemma_meshes_len_bound(ws: Seq<Wheel>, ss: Seq<Slot>, i: int)
    requires
        i <= ws.len(),
    ensures
        wheel_meshes_upto(ws, i).len() <= wheel_meshes_upto(ws, ws.len() as int).len()
            + slot_meshes_upto(ss, ss.len() as int).len(),
{
    lemma_wheel_meshes_mono(ws, i, ws.len() as int);
    lemma_slot_meshes_mono(ss, 0, ss.len() as int);
}

/// The batches after expanding one composite model: the body record, then
/// one record per part carrying a mesh, folded in wheel order then slot
/// order.
pub open spec fn add_model_spec(
    s: Seq<ArrV>,
    body_mesh: Mesh,
    base: Transform,
    gpu_body: u32,
    color: u32,
    wheels: Seq<Wheel>,
    slots: Seq<Slot>,
    ts: Seq<Transform>,
) -> Seq<ArrV> {
    let s0 = add_inst(s, body_mesh, Instance { transform: base, shape_scale: WORD_ZERO, body: gpu_body, color });
    let meshes = wheel_meshes_upto(wheels, wheels.len() as int) + slot_meshes_upto(slots, slots.len() as int);
    add_insts_upto(s0, meshes, insts_of(ts, gpu_body, color), meshes.len() as int)
}

/// Expanding a model without wheels and without slots adds exactly one body
/// record to the body mesh's batch and leaves every other batch unchanged.
/// (The matching debug-instance half — collected iff a debug scale is
/// supplied — is stated by `add_model`'s own contract.)
pub proof fn lemma_add_model_no_parts(
    s: Seq<ArrV>,
    body_mesh: Mesh,
    base: Transform,
    gpu_body: u32,
    color: u32,
    ts: Seq<Transform>,
)
    requires
        wf_ids(s),
    ensures
        ({
            let fin = add_model_spec(s, body_mesh, base, gpu_body, color, Seq::<Wheel>::empty(), Seq::<Slot>::empty(), ts);
            &&& instances_for(fin, body_mesh.id) == instances_for(s, body_mesh.id).push(
                (Instance { transform: base, shape_scale: WORD_ZERO, body: gpu_body, color }),
            )
            &&& forall|o: u64| o != body_mesh.id ==> instances_for(fin, o) == instances_for(s, o)
        }),
{
    let inst = Instance { transform: base, shape_scale: WORD_ZERO, body: gpu_body, color };
    let meshes = wheel_meshes_upto(Seq::<Wheel>::empty(), 0) + slot_meshes_upto(Seq::<Slot>::empty(), 0);
    assert(meshes.len() == 0);
    assert(add_model_spec(s, body_mesh, base, gpu_body, color, Seq::<Wheel>::empty(), Seq::<Slot>::empty(), ts)
        == add_inst(s, body_mesh, inst));
    lemma_add_inst_for(s, body_mesh, inst);
}

/// What the embedding's math layer composes with the base transform for
/// one part that carries a mesh: a wheel mesh sits at its own pivot offset;
/// a slot mesh sits at the slot position, yawed by the slot angle and
/// rescaled to the slot's absolute scale, with the mesh's pivot offset
/// undone before the slot transform applies.
#[derive(Clone, Copy, PartialEq, Eq, Structural, Debug)]
pub enum PartLocal {
    Wheel { offset: Vec3w },
    Slot { pos: Vec3w, angle: u32, scale: u32, mesh_offset: Vec3w },
}

pub open spec fn wheel_reqs_upto(ws: Seq<Wheel>, n: int) -> Seq<PartLocal>
    decreases n,
{
    if n <= 0 {
        Seq::empty()
    } else {
        wheel_reqs_upto(ws, n - 1) + (match ws[n - 1].mesh {
            Some(m) => seq![PartLocal::Wheel { offset: m.offset }],
            None => Seq::empty(),
        })
    }
}

pub open spec fn slot_reqs_upto(ss: Seq<Slot>, n: int) -> Seq<PartLocal>
    decreases n,
{
    if n <= 0 {
        Seq::empty()
    } else {
        slot_reqs_upto(ss, n - 1) + (match ss[n - 1].mesh {
            Some(m) => seq![
                PartLocal::Slot {
                    pos: ss[n - 1].pos,
                    angle: ss[n - 1].angle,
                    scale: ss[n - 1].scale,
                    mesh_offset: m.offset,
                },
            ],
            None => Seq::empty(),
        })
    }
}

/// The composition requests for a model's parts, one per part carrying a
/// mesh, in the order in which `add_model` consumes the composed
/// transforms: wheels first, then slots.
#[verifier::loop_isolation(false)]
pub fn part_requests(model: &VisualModel) -> (r: Vec<PartLocal>)
    ensures
        r@ == wheel_reqs_upto(model.wheels@, model.wheels@.len() as int) + slot_reqs_upto(
            model.slots@,
            model.slots@.len() as int,
        ),
        r@.len() == wheel_meshes_upto(model.wheels@, model.wheels@.len() as int).len() + slot_meshes_upto(
            model.slots@,
            model.slots@.len() as int,
        ).len(),
{
    let ghost ws = model.wheels@;
    let ghost ss = model.slots@;
    let mut r: Vec<PartLocal> = Vec::new();
    let nw = model.wheels.len();
    let mut i: usize = 0;
    proof {
        assert(r@ =~= wheel_reqs_upto(ws, 0));
    }
    while i < nw
        invariant
            0 <= i <= nw,
            r@ == wheel_reqs_upto(ws, i as int),
            r@.len() == wheel_meshes_upto(ws, i as int).len(),
        decreases nw - i,
    {
        if let Some(mesh) = model.wheels[i].mesh {
            r.push(PartLocal::Wheel { offset: mesh.offset });
        }
        i = i + 1;
        proof {
            assert(r@ =~= wheel_reqs_upto(ws, i as int));
        }
    }
    let ghost wall = wheel_reqs_upto(ws, ws.len() as int);
    let ns = model.slots.len();
    let mut j: usize = 0;
    proof {
        assert(r@ =~= wall + slot_reqs_upto(ss, 0));
    }
    while j < ns
        invariant
            0 <= j <= ns,
            r@ == wall + slot_reqs_upto(ss, j as int),
            r@.len() == wheel_meshes_upto(ws, ws.len() as int).len() + slot_meshes_upto(ss, j as int).len(),
        decreases ns - j,
    {
        if let Some(mesh) = model.slots[j].mesh {
            let s = model.slots[j];
            r.push(PartLocal::Slot { pos: s.pos, angle: s.angle, scale: s.scale, mesh_offset: mesh.offset });
        }
        j = j + 1;
        proof {
            assert(r@ =~= wall + slot_reqs_upto(ss, j as int));
        }
    }
    r
}

/// How many of the first `n` batches are non-empty.
pub open spec fn nonempty_upto(s: Seq<ArrV>, n: int) -> int
    decreases n,
{
    if n <= 0 {
        0
    } else {
        nonempty_upto(s, n - 1) + if s[n - 1].data.len() > 0 { 1int } else { 0int }
    }
}

/// The non-empty count over a prefix is at most the prefix length.
pub proof fn lemma_nonempty_bound(s: Seq<ArrV>, n: int)
    ensures
        0 <= nonempty_upto(s, n) <= (if n <= 0 { 0int } else { n }),
    decreases n,
{
    if n > 0 {
        lemma_nonempty_bound(s, n - 1);
    }
}

/// Batch `i` after `prepare`: same mesh and records; a fresh buffer handle
/// (numbered by the non-empty batches before it) exactly when non-empty.
#[verifier::opaque]
pub open spec fn prepared_at(s0: Seq<ArrV>, s1: Seq<ArrV>, base_id: u64, i: int) -> bool {
    &&& s1[i].mesh == s0[i].mesh
    &&& s1[i].data == s0[i].data
    &&& (s0[i].data.len() == 0 ==> s1[i].buffer is None)
    &&& (s0[i].data.len() > 0 ==> s1[i].buffer == Some(((base_id + nonempty_upto(s0, i)) as u64)))
}

/// The device log entry created for non-empty batch `i` by `prepare`: a
/// vertex buffer holding exactly the batch's packed records.
#[verifier::opaque]
pub open spec fn uploaded_at(s0: Seq<ArrV>, log: Seq<BufferInit>, log_base: int, base_id: u64, i: int) -> bool {
    &&& 0 <= log_base + nonempty_upto(s0, i) < log.len()
    &&& ({
        let b = log[log_base + nonempty_upto(s0, i)];
        &&& b.id == ((base_id + nonempty_upto(s0, i)) as u64)
        &&& b.usage == BufferUse::Vertex
        &&& b.contents@ == packed_upto(s0[i].data, s0[i].data.len() as int)
    })
}

/// The pass commands recorded for the first `n` batches: three commands per
/// non-empty batch, none for an empty one.
pub open spec fn arr_cmds(a: ArrV) -> Seq<PassCmd> {
    match a.buffer {
        Some(b) => if a.data.len() == 0 {
            Seq::empty()
        } else {
            seq![
                PassCmd::SetVertexBuffer { slot: 0, buffer: a.mesh.vertex_buf },
                PassCmd::SetVertexBuffer { slot: 1, buffer: b },
                PassCmd::Draw { vertex_end: a.mesh.num_vertices, instance_end: a.data.len() as u64 },
            ]
        },
        None => Seq::empty(),
    }
}

pub open spec fn draw_cmds_upto(s: Seq<ArrV>, n: int) -> Seq<PassCmd>
    decreases n,
{
    if n <= 0 {
        Seq::empty()
    } else {
        draw_cmds_upto(s, n - 1) + arr_cmds(s[n - 1])
    }
}

} // verus!
