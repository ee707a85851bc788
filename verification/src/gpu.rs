//! Model of the graphics device and of recorded GPU commands.
//!
//! Buffers, textures, bind groups and pipelines are identified by integer
//! handles. Creating a resource appends an initialization record to the
//! device log; drawing appends commands to a pass log. The embedding owns the
//! real API objects, keyed by these handles, and replays the logs in order.

use vstd::prelude::*;

verus! {

/// What a created buffer is used for.
#[derive(Clone, Copy, PartialEq, Eq, Structural, Debug)]
pub enum BufferUse {
    /// Per-instance vertex data.
    Vertex,
    /// Staging data for a device-side copy.
    CopySrc,
}

/// One buffer created on the device: its handle, its use and the bytes it
/// was initialized with.
pub struct BufferInit {
    pub id: u64,
    pub usage: BufferUse,
    pub contents: Vec<u8>,
}

/// The device, reduced to a resource allocator: it hands out fresh handles
/// and logs every created resource.
pub struct GpuDevice {
    pub next_buffer: u64,
    pub buffers: Vec<BufferInit>,
    pub next_texture: u64,
}

impl GpuDevice {
    pub open spec fn wf(self) -> bool {
        &&& forall|i: int| 0 <= i < self.buffers@.len() ==> #[trigger] self.buffers@[i].id < self.next_buffer
        &&& forall|i: int, j: int|
            0 <= i < j < self.buffers@.len() ==> (#[trigger] self.buffers@[i].id) != (#[trigger] self.buffers@[j].id)
    }

    pub fn new() -> (r: GpuDevice)
        ensures
            r.wf(),
            r.buffers@.len() == 0,
            r.next_buffer == 0,
            r.next_texture == 0,
    {
        GpuDevice { next_buffer: 0, buffers: Vec::new(), next_texture: 0 }
    }

    /// Create a buffer holding `contents`, returning its fresh handle.
    pub fn create_buffer_init(&mut self, contents: Vec<u8>, usage: BufferUse) -> (id: u64)
        requires
            old(self).wf(),
            old(self).next_buffer < u64::MAX,
        ensures
            final(self).wf(),
            id == old(self).next_buffer,
            final(self).next_buffer == old(self).next_buffer + 1,
            final(self).next_texture == old(self).next_texture,
            final(self).buffers@.len() == old(self).buffers@.len() + 1,
            final(self).buffers@.subrange(0, old(self).buffers@.len() as int) == old(self).buffers@,
            final(self).buffers@.last().id == id,
            final(self).buffers@.last().usage == usage,
            final(self).buffers@.last().contents@ == contents@,
    {
        let id = self.next_buffer;
        self.next_buffer = self.next_buffer + 1;
        self.buffers.push(BufferInit { id, usage, contents });
        proof {
            assert(final(self).buffers@.subrange(0, old(self).buffers@.len() as int) =~= old(self).buffers@);
        }
        id
    }

    /// Create a texture (a depth target, a palette), returning its fresh
    /// handle. The texture's storage itself lives outside this model.
    pub fn create_texture(&mut self) -> (id: u64)
        requires
            old(self).next_texture < u64::MAX,
        ensures
            id == old(self).next_texture,
            final(self).next_texture == old(self).next_texture + 1,
            final(self).next_buffer == old(self).next_buffer,
            final(self).buffers@ == old(self).buffers@,
    {
        let id = self.next_texture;
        self.next_texture = self.next_texture + 1;
        id
    }
}

/// One write of texel data through the queue.
pub struct TextureWrite {
    pub texture: u64,
    pub bytes_per_row: u32,
    pub data: Vec<u8>,
}

/// The queue, reduced to a log of texture uploads.
pub struct GpuQueue {
    pub writes: Vec<TextureWrite>,
}

impl GpuQueue {
    pub fn new() -> (r: GpuQueue)
        ensures
            r.writes@.len() == 0,
    {
        GpuQueue { writes: Vec::new() }
    }

    /// Upload `data` into `texture`.
    pub fn write_texture(&mut self, texture: u64, bytes_per_row: u32, data: Vec<u8>)
        ensures
            final(self).writes@.len() == old(self).writes@.len() + 1,
            final(self).writes@.subrange(0, old(self).writes@.len() as int) == old(self).writes@,
            final(self).writes@.last().texture == texture,
            final(self).writes@.last().bytes_per_row == bytes_per_row,
            final(self).writes@.last().data@ == data@,
    {
        self.writes.push(TextureWrite { texture, bytes_per_row, data });
        proof {
            assert(final(self).writes@.subrange(0, old(self).writes@.len() as int) =~= old(self).writes@);
        }
    }
}

/// One command recorded inside a render pass.
#[derive(Clone, Copy, PartialEq, Eq, Structural, Debug)]
pub enum PassCmd {
    SetPipeline { pipeline: u64 },
    SetBindGroup { index: u32, group: u64 },
    SetVertexBuffer { slot: u32, buffer: u64 },
    /// One instanced draw over vertices `0..vertex_end` and instances
    /// `0..instance_end`.
    Draw { vertex_end: u32, instance_end: u64 },
    /// The terrain collaborator records its own geometry for the main pass.
    TerrainDraw,
    /// The terrain collaborator records its depth-only geometry.
    TerrainDrawShadow,
}

/// A render pass being recorded.
pub struct RenderPass {
    pub commands: Vec<PassCmd>,
}

impl RenderPass {
    pub fn new() -> (r: RenderPass)
        ensures
            r.commands@.len() == 0,
    {
        RenderPass { commands: Vec::new() }
    }
}

/// A render-target extent.
#[derive(Clone, Copy, PartialEq, Eq, Structural, Debug)]
pub struct Extent {
    pub width: u32,
    pub height: u32,
    pub depth: u32,
}

/// What a pass renders into: an optional color target with its clear color
/// (four scalar words) and an optional depth target cleared to `clear_depth`.
#[derive(Clone, Copy, PartialEq, Eq, Structural, Debug)]
pub struct PassDesc {
    pub color: Option<ColorAttachment>,
    pub depth: Option<DepthAttachment>,
}

#[derive(Clone, Copy, PartialEq, Eq, Structural, Debug)]
pub struct ColorAttachment {
    pub view: u64,
    pub clear_r: u32,
    pub clear_g: u32,
    pub clear_b: u32,
    pub clear_a: u32,
}

#[derive(Clone, Copy, PartialEq, Eq, Structural, Debug)]
pub struct DepthAttachment {
    pub view: u64,
    pub clear_depth: u32,
}

/// One command recorded on a command encoder.
pub enum EncCmd {
    /// Copy `size` bytes from one buffer to another, both at offset zero.
    CopyBufferToBuffer { src: u64, dst: u64, size: u64 },
    /// The terrain collaborator builds its state for the upcoming pass.
    TerrainPrepare { extent: Extent },
    /// A fully recorded render pass.
    Pass { desc: PassDesc, commands: Vec<PassCmd> },
}

/// A command encoder being recorded.
pub struct Encoder {
    pub commands: Vec<EncCmd>,
}

impl Encoder {
    pub fn new() -> (r: Encoder)
        ensures
            r.commands@.len() == 0,
    {
        Encoder { commands: Vec::new() }
    }
}

/// The mathematical value of an encoder command.
#[verifier::ext_equal]
pub enum EncV {
    Copy { src: u64, dst: u64, size: u64 },
    TerrainPrepare { extent: Extent },
    Pass { desc: PassDesc, commands: Seq<PassCmd> },
}

pub open spec fn enc_v(c: EncCmd) -> EncV {
    match c {
        EncCmd::CopyBufferToBuffer { src, dst, size } => EncV::Copy { src, dst, size },
        EncCmd::TerrainPrepare { extent } => EncV::TerrainPrepare { extent },
        EncCmd::Pass { desc, commands } => EncV::Pass { desc, commands: commands@ },
    }
}

pub open spec fn encs_v(s: Seq<EncCmd>) -> Seq<EncV> {
    Seq::new(s.len(), |i: int| enc_v(s[i]))
}

/// The two logical passes a pipeline can serve.
pub enum PipelineKind {
    Main,
    Shadow,
}

/// The precompiled pipeline for each logical pass.
#[derive(Clone, Copy, PartialEq, Eq, Structural, Debug)]
pub struct PipelineSet {
    pub main: u64,
    pub shadow: u64,
}

impl PipelineSet {
    /// Select the pipeline serving the given logical pass.
    pub fn select(&self, kind: PipelineKind) -> (r: u64)
        ensures
            r == (match kind {
                PipelineKind::Main => self.main,
                PipelineKind::Shadow => self.shadow,
            }),
    {
        match kind {
            PipelineKind::Main => self.main,
            PipelineKind::Shadow => self.shadow,
        }
    }
}

} // verus!
