//! The render orchestrator: owns the per-frame pass sequence. When shadows
//! are enabled a frame records the shadow pass (upload shadow-camera
//! constants, terrain depth, batched instances against the shadow pipeline)
//! and then the main pass; with shadows disabled only the main pass is
//! recorded and the constants carry no shadow-camera reference.

use vstd::prelude::*;

use crate::batch::{bview, draw_cmds_upto, nonempty_upto, prepared_at, uploaded_at, ArrV, Batcher};
use crate::global::{constants_bytes_of, Constants, Fog, Light, CONST_BYTES};
use crate::gpu::{
    encs_v, BufferUse, ColorAttachment, DepthAttachment, EncCmd, EncV, Encoder, Extent, GpuDevice, GpuQueue,
    PassCmd, PassDesc, PipelineSet, RenderPass,
};
use crate::space::{Camera, WORD_ONE};

verus! {

/// The color and depth views of the frame's screen targets.
#[derive(Clone, Copy, PartialEq, Eq, Structural, Debug)]
pub struct ScreenTargets {
    pub extent: Extent,
    pub color: u64,
    pub depth: u64,
}

/// Handles of the terrain surface resources shared with collaborators.
#[derive(Clone, Copy, PartialEq, Eq, Debug)]
pub struct SurfaceData {
    pub constants: u64,
    pub height: (u64, u64),
    pub meta: (u64, u64),
}

/// One debug-shape polygon record, instanced over a shape's polygons; the
/// origin-and-radius quad holds scalar words.
#[derive(Clone, Copy, PartialEq, Eq, Debug)]
pub struct ShapePolygon {
    pub indices: [u16; 4],
    pub normal: [i8; 4],
    pub origin_square: [u32; 4],
}

#[derive(Clone, Copy, PartialEq, Eq, Structural, Debug)]
pub enum VertexFormat {
    Ushort4,
    Char4Norm,
    Float4,
}

#[derive(Clone, Copy, PartialEq, Eq, Structural, Debug)]
pub enum StepMode {
    Vertex,
    Instance,
}

#[derive(Clone, Copy, PartialEq, Eq, Structural, Debug)]
pub struct VertexAttr {
    pub location: u32,
    pub format: VertexFormat,
}

/// The vertex-buffer layout of the polygon stream: its stride, step rate
/// and attributes.
#[derive(Clone, Copy, PartialEq, Eq, Debug)]
pub struct BufferDesc {
    pub stride: u64,
    pub step: StepMode,
    pub attributes: [VertexAttr; 3],
}

/// The attribute layout of `ShapePolygon`.
pub struct ShapeVertexDesc {
    pub attributes: [VertexAttr; 3],
}

impl ShapeVertexDesc {
    pub fn new() -> (r: ShapeVertexDesc)
        ensures
            r.attributes@ == seq![
                VertexAttr { location: 0, format: VertexFormat::Ushort4 },
                VertexAttr { location: 1, format: VertexFormat::Char4Norm },
                VertexAttr { location: 2, format: VertexFormat::Float4 },
            ],
    {
        let r = ShapeVertexDesc {
            attributes: [
                VertexAttr { location: 0, format: VertexFormat::Ushort4 },
                VertexAttr { location: 1, format: VertexFormat::Char4Norm },
                VertexAttr { location: 2, format: VertexFormat::Float4 },
            ],
        };
        proof {
            assert(r.attributes@ =~= seq![
                VertexAttr { location: 0, format: VertexFormat::Ushort4 },
                VertexAttr { location: 1, format: VertexFormat::Char4Norm },
                VertexAttr { location: 2, format: VertexFormat::Float4 },
            ]);
        }
        r
    }

    /// The polygon stream is instance-stepped: one 28-byte record per
    /// drawn polygon.
    pub fn buffer_desc(&self) -> (r: BufferDesc)
        ensures
            r.stride == 28,
            r.step == StepMode::Instance,
            r.attributes@ == self.attributes@,
    {
        BufferDesc { stride: 28, step: StepMode::Instance, attributes: self.attributes }
    }
}

/// The object palette texture: 256 RGBA texels uploaded once.
pub struct Palette {
    pub view: u64,
}

/// The flattened texel bytes of the first `n` palette entries.
pub open spec fn flat_upto(ds: Seq<[u8; 4]>, n: int) -> Seq<u8>
    decreases n,
{
    if n <= 0 {
        Seq::empty()
    } else {
        flat_upto(ds, n - 1) + ds[n - 1]@
    }
}

impl Palette {
    /// Create the palette texture and upload the 256 color entries through
    /// the queue, 1024 bytes in one row.
    #[verifier::loop_isolation(false)]
    pub fn new(device: &mut GpuDevice, queue: &mut GpuQueue, data: &Vec<[u8; 4]>) -> (r: Palette)
        requires
            data@.len() == 256,
            old(device).next_texture < u64::MAX,
        ensures
            r.view == old(device).next_texture,
            final(device).next_texture == old(device).next_texture + 1,
            final(device).next_buffer == old(device).next_buffer,
            final(device).buffers@ == old(device).buffers@,
            final(queue).writes@.len() == old(queue).writes@.len() + 1,
            final(queue).writes@.subrange(0, old(queue).writes@.len() as int) == old(queue).writes@,
            final(queue).writes@.last().texture == r.view,
            final(queue).writes@.last().bytes_per_row == 1024,
            final(queue).writes@.last().data@ == flat_upto(data@, 256),
    {
        let id = device.create_texture();
        let n = data.len();
        let mut bytes: Vec<u8> = Vec::new();
        let mut i: usize = 0;
        while i < n
            invariant
                0 <= i <= n,
                bytes@ == flat_upto(data@, i as int),
            decreases n - i,
        {
            let entry = data[i];
            let mut j: usize = 0;
            while j < 4
                invariant
                    0 <= j <= 4,
                    entry == data@[i as int],
                    bytes@ == flat_upto(data@, i as int) + entry@.take(j as int),
                decreases 4 - j,
            {
                bytes.push(entry[j]);
                j = j + 1;
                proof {
                    assert(bytes@ =~= flat_upto(data@, i as int) + entry@.take(j as int));
                }
            }
            i = i + 1;
            proof {
                assert(entry@.take(4) =~= entry@);
                assert(bytes@ =~= flat_upto(data@, i as int));
            }
        }
        queue.write_texture(id, 1024, bytes);
        Palette { view: id }
    }
}

/// Handles of the global uniform buffer and its per-pass bind groups, owned
/// by the global-context collaborator.
#[derive(Clone, Copy, PartialEq, Eq, Structural, Debug)]
pub struct GlobalContext {
    pub uniform_buf: u64,
    pub bind_group: u64,
    pub shadow_bind_group: u64,
}

/// Handles of the object collaborator's pipelines and bind group.
#[derive(Clone, Copy, PartialEq, Eq, Structural, Debug)]
pub struct ObjectContext {
    pub pipelines: PipelineSet,
    pub bind_group: u64,
}

/// The shadow sub-pass state: its depth target and its square size.
#[derive(Clone, Copy, PartialEq, Eq, Structural, Debug)]
pub struct ShadowState {
    pub view: u64,
    pub size: u32,
}

/// The render orchestrator.
pub struct Render {
    pub global: GlobalContext,
    pub object: ObjectContext,
    pub shadow: Option<ShadowState>,
    pub light_config: Light,
    pub fog_config: Fog,
    pub screen_size: Extent,
}

/// The commands of one object pass: global bind group, terrain geometry,
/// then the batched instances against the pass's pipeline.
pub open spec fn object_pass_cmds(bind0: u64, shadow_pass: bool, pipeline: u64, bind1: u64, b: Seq<ArrV>) -> Seq<
    PassCmd,
> {
    seq![
        PassCmd::SetBindGroup { index: 0, group: bind0 },
        if shadow_pass {
            PassCmd::TerrainDrawShadow
        } else {
            PassCmd::TerrainDraw
        },
        PassCmd::SetPipeline { pipeline },
        PassCmd::SetBindGroup { index: 1, group: bind1 },
    ] + draw_cmds_upto(b, b.len() as int)
}

pub open spec fn shadow_pass_desc(view: u64) -> PassDesc {
    PassDesc { color: None, depth: Some(DepthAttachment { view, clear_depth: WORD_ONE }) }
}

/// The main pass clears color to the fog color and depth to the far value.
pub open spec fn main_pass_desc(targets: ScreenTargets, fog: Fog) -> PassDesc {
    PassDesc {
        color: Some(
            ColorAttachment {
                view: targets.color,
                clear_r: fog.color.x,
                clear_g: fog.color.y,
                clear_b: fog.color.z,
                clear_a: fog.color.w,
            },
        ),
        depth: Some(DepthAttachment { view: targets.depth, clear_depth: WORD_ONE }),
    }
}

/// The encoder commands of the shadow pass: stage-and-copy the shadow
/// constants, prepare terrain for the shadow extent, then the depth-only
/// pass.
pub open spec fn shadow_cmds(r: Render, sh: ShadowState, staging: u64, pb: Seq<ArrV>) -> Seq<EncV> {
    seq![
        EncV::Copy { src: staging, dst: r.global.uniform_buf, size: CONST_BYTES },
        EncV::TerrainPrepare { extent: Extent { width: sh.size, height: sh.size, depth: 1 } },
        EncV::Pass {
            desc: shadow_pass_desc(sh.view),
            commands: object_pass_cmds(
                r.global.shadow_bind_group,
                true,
                r.object.pipelines.shadow,
                r.object.bind_group,
                pb,
            ),
        },
    ]
}

/// The encoder commands of the main pass.
pub open spec fn main_cmds(r: Render, staging: u64, targets: ScreenTargets, pb: Seq<ArrV>) -> Seq<EncV> {
    seq![
        EncV::Copy { src: staging, dst: r.global.uniform_buf, size: CONST_BYTES },
        EncV::TerrainPrepare { extent: r.screen_size },
        EncV::Pass {
            desc: main_pass_desc(targets, r.fog_config),
            commands: object_pass_cmds(
                r.global.bind_group,
                false,
                r.object.pipelines.main,
                r.object.bind_group,
                pb,
            ),
        },
    ]
}

impl Render {
    /// Decide the shadow sub-pass once, from static configuration: it
    /// exists exactly when the configured shadow size is non-zero, and then
    /// owns a freshly created depth target of that size.
    pub fn new(
        device: &mut GpuDevice,
        global: GlobalContext,
        object: ObjectContext,
        light: Light,
        fog: Fog,
        screen_size: Extent,
    ) -> (r: Render)
        requires
            old(device).next_texture < u64::MAX,
        ensures
            r.shadow is Some <==> light.shadow_size != 0,
            light.shadow_size != 0 ==> r.shadow == Some(
                ShadowState { view: old(device).next_texture, size: light.shadow_size },
            ),
            r.global == global,
            r.object == object,
            r.light_config == light,
            r.fog_config == fog,
            r.screen_size == screen_size,
            final(device).next_buffer == old(device).next_buffer,
            final(device).buffers@ == old(device).buffers@,
            light.shadow_size != 0 ==> final(device).next_texture == old(device).next_texture + 1,
            light.shadow_size == 0 ==> final(device).next_texture == old(device).next_texture,
    {
        let shadow = if light.shadow_size != 0 {
            let view = device.create_texture();
            Some(ShadowState { view, size: light.shadow_size })
        } else {
            None
        };
        Render { global, object, shadow, light_config: light, fog_config: fog, screen_size }
    }

    /// Swap in freshly compiled pipelines for the object sub-system without
    /// touching batched data or uniform state.
    pub fn reload(&mut self, object_pipelines: PipelineSet)
        ensures
            final(self).object.pipelines == object_pipelines,
            final(self).object.bind_group == old(self).object.bind_group,
            final(self).global == old(self).global,
            final(self).shadow == old(self).shadow,
            final(self).light_config == old(self).light_config,
            final(self).fog_config == old(self).fog_config,
            final(self).screen_size == old(self).screen_size,
    {
        self.object.pipelines = object_pipelines;
    }

    /// Propagate a render-target size change: only the cached screen extent
    /// used by the main pass changes.
    pub fn resize(&mut self, extent: Extent)
        ensures
            final(self).screen_size == extent,
            final(self).global == old(self).global,
            final(self).object == old(self).object,
            final(self).shadow == old(self).shadow,
            final(self).light_config == old(self).light_config,
            final(self).fog_config == old(self).fog_config,
    {
        self.screen_size = extent;
    }

    /// Record one frame: upload the batches once, then the shadow pass (when
    /// enabled) and the main pass, both drawing the same prepared snapshot.
    /// The shadow camera is derived each frame by the embedding's math layer
    /// from the light and the view camera, and is present exactly when the
    /// shadow sub-pass is.
    #[verifier::rlimit(100)]
    pub fn draw_world(
        &mut self,
        encoder: &mut Encoder,
        batcher: &mut Batcher,
        cam: &Camera,
        shadow_cam: Option<&Camera>,
        targets: &ScreenTargets,
        device: &mut GpuDevice,
    )
        requires
            old(batcher).wf(),
            old(device).wf(),
            old(self).shadow is Some <==> shadow_cam is Some,
            old(device).next_buffer + old(batcher).instances@.len() + 2 <= u64::MAX,
        ensures
            *final(self) == *old(self),
            final(batcher).wf(),
            final(device).wf(),
            final(batcher).instances@.len() == old(batcher).instances@.len(),
            forall|i: int| 0 <= i < old(batcher).instances@.len() ==> prepared_at(
                bview(old(batcher).instances@), bview(final(batcher).instances@), old(device).next_buffer, i,
            ),
            final(batcher).debug_shapes@ == old(batcher).debug_shapes@,
            final(batcher).debug_instances@ == old(batcher).debug_instances@,
            ({
                let s0 = bview(old(batcher).instances@);
                let ne = nonempty_upto(s0, old(batcher).instances@.len() as int);
                let base = old(device).buffers@.len() as int;
                let pb = bview(final(batcher).instances@);
                &&& (forall|i: int| 0 <= i < s0.len() && (#[trigger] s0[i]).data.len() > 0 ==> uploaded_at(
                    s0, final(device).buffers@, base, old(device).next_buffer, i,
                ))
                &&& (match old(self).shadow {
                    Some(sh) => {
                        let st1 = ((old(device).next_buffer + ne) as u64);
                        let st2 = ((old(device).next_buffer + ne + 1) as u64);
                        &&& final(device).next_buffer == old(device).next_buffer + ne + 2
                        &&& final(device).buffers@.len() == base + ne + 2
                        &&& final(device).buffers@[base + ne].usage == BufferUse::CopySrc
                        &&& (shadow_cam matches Some(sc) ==> final(device).buffers@[base + ne].contents@
                            == constants_bytes_of(*sc, old(self).light_config, old(self).fog_config, None))
                        &&& final(device).buffers@[base + ne + 1].usage == BufferUse::CopySrc
                        &&& (shadow_cam matches Some(sc) ==> final(device).buffers@[base + ne + 1].contents@
                            == constants_bytes_of(
                            *cam, old(self).light_config, old(self).fog_config, Some(*sc),
                        ))
                        &&& encs_v(final(encoder).commands@) == encs_v(old(encoder).commands@)
                            + shadow_cmds(*old(self), sh, st1, pb) + main_cmds(*old(self), st2, *targets, pb)
                    },
                    None => {
                        let st = ((old(device).next_buffer + ne) as u64);
                        &&& final(device).next_buffer == old(device).next_buffer + ne + 1
                        &&& final(device).buffers@.len() == base + ne + 1
                        &&& final(device).buffers@[base + ne].usage == BufferUse::CopySrc
                        &&& final(device).buffers@[base + ne].contents@ == constants_bytes_of(
                            *cam, old(self).light_config, old(self).fog_config, None,
                        )
                        &&& encs_v(final(encoder).commands@) == encs_v(old(encoder).commands@)
                            + main_cmds(*old(self), st, *targets, pb)
                    },
                })
            }),
    {
        batcher.prepare(device);
        let ghost s0 = bview(old(batcher).instances@);
        let ghost pb = bview(batcher.instances@);
        let ghost dmid = device.buffers@;
        proof {
            reveal(crate::batch::prepared_at);
            assert forall|i: int|
                0 <= i < batcher.instances@.len() && (#[trigger] bview(batcher.instances@)[i]).data.len() > 0
                implies bview(batcher.instances@)[i].buffer is Some by {
                assert(prepared_at(s0, bview(batcher.instances@), old(device).next_buffer, i));
            }
        }
        let ghost e0 = encs_v(encoder.commands@);
        proof {
            crate::batch::lemma_nonempty_bound(s0, s0.len() as int);
        }
        if self.shadow.is_some() {
            let shadow = self.shadow.unwrap();
            let scam = shadow_cam.unwrap();
            let constants = Constants::new(scam, &self.light_config, &self.fog_config, None);
            let bytes = constants.to_bytes();
            proof {
                crate::global::lemma_constants_deterministic(
                    constants, *scam, self.light_config, self.fog_config, None,
                );
            }
            let staging = device.create_buffer_init(bytes, BufferUse::CopySrc);
            encoder.commands.push(
                EncCmd::CopyBufferToBuffer { src: staging, dst: self.global.uniform_buf, size: CONST_BYTES },
            );
            encoder.commands.push(
                EncCmd::TerrainPrepare {
                    extent: Extent { width: shadow.size, height: shadow.size, depth: 1 },
                },
            );
            let mut pass = RenderPass::new();
            pass.commands.push(PassCmd::SetBindGroup { index: 0, group: self.global.shadow_bind_group });
            pass.commands.push(PassCmd::TerrainDrawShadow);
            pass.commands.push(PassCmd::SetPipeline { pipeline: self.object.pipelines.shadow });
            pass.commands.push(PassCmd::SetBindGroup { index: 1, group: self.object.bind_group });
            batcher.draw(&mut pass);
            proof {
                assert(pass.commands@ =~= object_pass_cmds(
                    self.global.shadow_bind_group, true, self.object.pipelines.shadow, self.object.bind_group, pb,
                ));
            }
            encoder.commands.push(
                EncCmd::Pass {
                    desc: PassDesc {
                        color: None,
                        depth: Some(DepthAttachment { view: shadow.view, clear_depth: WORD_ONE }),
                    },
                    commands: pass.commands,
                },
            );
            proof {
                assert(encs_v(encoder.commands@) =~~= e0 + shadow_cmds(*old(self), shadow, staging, pb));
            }
        }
        let ghost emid = encs_v(encoder.commands@);
        let constants = Constants::new(cam, &self.light_config, &self.fog_config, shadow_cam);
        let bytes = constants.to_bytes();
        proof {
            crate::global::lemma_constants_deterministic(
                constants,
                *cam,
                self.light_config,
                self.fog_config,
                match shadow_cam {
                    Some(c) => Some(*c),
                    None => None,
                },
            );
        }
        let staging = device.create_buffer_init(bytes, BufferUse::CopySrc);
        encoder.commands.push(
            EncCmd::CopyBufferToBuffer { src: staging, dst: self.global.uniform_buf, size: CONST_BYTES },
        );
        encoder.commands.push(EncCmd::TerrainPrepare { extent: self.screen_size });
        let mut pass = RenderPass::new();
        pass.commands.push(PassCmd::SetBindGroup { index: 0, group: self.global.bind_group });
        pass.commands.push(PassCmd::TerrainDraw);
        pass.commands.push(PassCmd::SetPipeline { pipeline: self.object.pipelines.main });
        pass.commands.push(PassCmd::SetBindGroup { index: 1, group: self.object.bind_group });
        batcher.draw(&mut pass);
        proof {
            assert(pass.commands@ =~= object_pass_cmds(
                self.global.bind_group, false, self.object.pipelines.main, self.object.bind_group, pb,
            ));
        }
        encoder.commands.push(
            EncCmd::Pass {
                desc: PassDesc {
                    color: Some(
                        ColorAttachment {
                            view: targets.color,
                            clear_r: self.fog_config.color.x,
                            clear_g: self.fog_config.color.y,
                            clear_b: self.fog_config.color.z,
                            clear_a: self.fog_config.color.w,
                        },
                    ),
                    depth: Some(DepthAttachment { view: targets.depth, clear_depth: WORD_ONE }),
                },
                commands: pass.commands,
            },
        );
        proof {
            assert(encs_v(encoder.commands@) =~~= emid + main_cmds(*old(self), staging, *targets, pb));
            match old(self).shadow {
                Some(sh) => {
                    assert(encs_v(encoder.commands@) =~~= e0 + shadow_cmds(
                        *old(self),
                        sh,
                        ((old(device).next_buffer + nonempty_upto(s0, s0.len() as int)) as u64),
                        pb,
                    ) + main_cmds(*old(self), staging, *targets, pb));
                },
                None => {},
            }
            assert forall|i: int| 0 <= i < s0.len() && (#[trigger] s0[i]).data.len() > 0 implies uploaded_at(
                s0, device.buffers@, old(device).buffers@.len() as int, old(device).next_buffer, i,
            ) by {
                reveal(crate::batch::uploaded_at);
                assert(uploaded_at(s0, dmid, old(device).buffers@.len() as int, old(device).next_buffer, i));
                crate::batch::lemma_nonempty_bound(s0, i);
                assert forall|j: int| 0 <= j < dmid.len() implies device.buffers@[j] == dmid[j] by {
                    assert(device.buffers@.subrange(0, dmid.len() as int)[j] == dmid[j]);
                }
            }
        }
    }
}

} // verus!
