//! Per-pass global uniform state: camera, light and fog parameters packed
//! into the uniform block layout both passes share.

use vstd::prelude::*;

use crate::bytes::word_bytes;
use crate::space::{Camera, Vec4w};

verus! {

/// The light configuration: position, color, and the shadow map size in
/// texels (zero when shadow mapping is disabled).
#[derive(Clone, Copy, PartialEq, Eq, Structural, Debug)]
pub struct Light {
    pub pos: Vec4w,
    pub color: Vec4w,
    pub shadow_size: u32,
}

/// The fog configuration: color and shaping parameters, as scalar words.
#[derive(Clone, Copy, PartialEq, Eq, Structural, Debug)]
pub struct Fog {
    pub color: Vec4w,
    pub params: Vec4w,
}

/// The uniform block of one pass. The shadow matrix slot holds the shadow
/// camera's view-projection in the main pass when shadows are enabled, and
/// zeroes otherwise; `has_shadow` tells the shader which.
pub struct Constants {
    pub camera_pos: Vec4w,
    pub view_proj: [u32; 16],
    pub light_pos: Vec4w,
    pub light_color: Vec4w,
    pub fog_color: Vec4w,
    pub fog_params: Vec4w,
    pub shadow_view_proj: [u32; 16],
    pub has_shadow: u32,
}

/// The packed size of the uniform block in bytes: 53 words.
pub const CONST_BYTES: u64 = 212;

pub open spec fn zero16() -> Seq<u32> {
    Seq::new(16, |i: int| 0u32)
}

/// What `Constants::new` promises of its result for given inputs.
pub open spec fn from_inputs(c: Constants, cam: Camera, light: Light, fog: Fog, sh: Option<Camera>) -> bool {
    &&& c.camera_pos == cam.pos
    &&& c.view_proj@ == cam.view_proj@
    &&& c.light_pos == light.pos
    &&& c.light_color == light.color
    &&& c.fog_color == fog.color
    &&& c.fog_params == fog.params
    &&& (match sh {
        Some(s) => c.shadow_view_proj@ == s.view_proj@ && c.has_shadow == 1,
        None => c.shadow_view_proj@ == zero16() && c.has_shadow == 0,
    })
}

/// The words of the packed block, in upload order.
pub open spec fn constants_words(c: Constants) -> Seq<u32> {
    seq![c.camera_pos.x, c.camera_pos.y, c.camera_pos.z, c.camera_pos.w] + c.view_proj@
        + seq![c.light_pos.x, c.light_pos.y, c.light_pos.z, c.light_pos.w]
        + seq![c.light_color.x, c.light_color.y, c.light_color.z, c.light_color.w]
        + seq![c.fog_color.x, c.fog_color.y, c.fog_color.z, c.fog_color.w]
        + seq![c.fog_params.x, c.fog_params.y, c.fog_params.z, c.fog_params.w] + c.shadow_view_proj@
        + seq![c.has_shadow]
}

/// The bytes of the first `n` words, each least-significant byte first.
pub open spec fn words_bytes_upto(ws: Seq<u32>, n: int) -> Seq<u8>
    decreases n,
{
    if n <= 0 {
        Seq::empty()
    } else {
        words_bytes_upto(ws, n - 1) + word_bytes(ws[n - 1])
    }
}

pub open spec fn constants_bytes(c: Constants) -> Seq<u8> {
    words_bytes_upto(constants_words(c), constants_words(c).len() as int)
}

pub proof fn lemma_words_bytes_len(ws: Seq<u32>, n: int)
    requires
        0 <= n <= ws.len(),
    ensures
        words_bytes_upto(ws, n).len() == 4 * n,
    decreases n,
{
    if n > 0 {
        lemma_words_bytes_len(ws, n - 1);
    }
}

/// The packed block determined by the inputs alone.
pub open spec fn constants_words_of(cam: Camera, light: Light, fog: Fog, sh: Option<Camera>) -> Seq<u32> {
    seq![cam.pos.x, cam.pos.y, cam.pos.z, cam.pos.w] + cam.view_proj@
        + seq![light.pos.x, light.pos.y, light.pos.z, light.pos.w]
        + seq![light.color.x, light.color.y, light.color.z, light.color.w]
        + seq![fog.color.x, fog.color.y, fog.color.z, fog.color.w]
        + seq![fog.params.x, fog.params.y, fog.params.z, fog.params.w] + (match sh {
        Some(s) => s.view_proj@,
        None => zero16(),
    }) + seq![if sh is Some { 1u32 } else { 0u32 }]
}

pub open spec fn constants_bytes_of(cam: Camera, light: Light, fog: Fog, sh: Option<Camera>) -> Seq<u8> {
    words_bytes_upto(constants_words_of(cam, light, fog, sh), constants_words_of(cam, light, fog, sh).len() as int)
}

/// Uniform construction is deterministic: any block built from given
/// camera, light, fog and shadow reference packs to exactly the bytes those
/// inputs determine, so two uploads in one frame from the same camera are
/// byte-identical.
pub proof fn lemma_constants_deterministic(c: Constants, cam: Camera, light: Light, fog: Fog, sh: Option<Camera>)
    requires
        from_inputs(c, cam, light, fog, sh),
    ensures
        constants_bytes(c) == constants_bytes_of(cam, light, fog, sh),
{
    assert(constants_words(c) =~= constants_words_of(cam, light, fog, sh));
}

impl Constants {
    /// Build the uniform block for one pass. The shadow camera reference is
    /// present only in the main pass of a shadow-enabled frame.
    pub fn new(cam: &Camera, light: &Light, fog: &Fog, shadow_cam: Option<&Camera>) -> (r: Constants)
        ensures
            from_inputs(
                r,
                *cam,
                *light,
                *fog,
                match shadow_cam {
                    Some(s) => Some(*s),
                    None => None,
                },
            ),
    {
        let (svp, has): ([u32; 16], u32) = match shadow_cam {
            Some(s) => (s.view_proj, 1),
            None => ([0u32; 16], 0),
        };
        let r = Constants {
            camera_pos: cam.pos,
            view_proj: cam.view_proj,
            light_pos: light.pos,
            light_color: light.color,
            fog_color: fog.color,
            fog_params: fog.params,
            shadow_view_proj: svp,
            has_shadow: has,
        };
        proof {
            if shadow_cam is None {
                assert(r.shadow_view_proj@ =~= zero16());
            }
        }
        r
    }

    /// Pack the block for upload.
    #[verifier::loop_isolation(false)]
    pub fn to_bytes(&self) -> (r: Vec<u8>)
        ensures
            r@ == constants_bytes(*self),
            r@.len() == CONST_BYTES,
    {
        let mut ws: Vec<u32> = Vec::new();
        ws.push(self.camera_pos.x);
        ws.push(self.camera_pos.y);
        ws.push(self.camera_pos.z);
        ws.push(self.camera_pos.w);
        let mut k: usize = 0;
        while k < 16
            invariant
                0 <= k <= 16,
                ws@ == seq![self.camera_pos.x, self.camera_pos.y, self.camera_pos.z, self.camera_pos.w]
                    + self.view_proj@.take(k as int),
            decreases 16 - k,
        {
            ws.push(self.view_proj[k]);
            k = k + 1;
            proof {
                assert(ws@ =~= seq![self.camera_pos.x, self.camera_pos.y, self.camera_pos.z, self.camera_pos.w]
                    + self.view_proj@.take(k as int));
            }
        }
        ws.push(self.light_pos.x);
        ws.push(self.light_pos.y);
        ws.push(self.light_pos.z);
        ws.push(self.light_pos.w);
        ws.push(self.light_color.x);
        ws.push(self.light_color.y);
        ws.push(self.light_color.z);
        ws.push(self.light_color.w);
        ws.push(self.fog_color.x);
        ws.push(self.fog_color.y);
        ws.push(self.fog_color.z);
        ws.push(self.fog_color.w);
        ws.push(self.fog_params.x);
        ws.push(self.fog_params.y);
        ws.push(self.fog_params.z);
        ws.push(self.fog_params.w);
        let ghost mid = ws@;
        let mut m: usize = 0;
        while m < 16
            invariant
                0 <= m <= 16,
                ws@ == mid + self.shadow_view_proj@.take(m as int),
            decreases 16 - m,
        {
            ws.push(self.shadow_view_proj[m]);
            m = m + 1;
            proof {
                assert(ws@ =~= mid + self.shadow_view_proj@.take(m as int));
            }
        }
        ws.push(self.has_shadow);
        proof {
            assert(self.view_proj@.take(16) =~= self.view_proj@);
            assert(self.shadow_view_proj@.take(16) =~= self.shadow_view_proj@);
            assert(ws@ =~= constants_words(*self));
        }
        let nw = ws.len();
        let mut out: Vec<u8> = Vec::new();
        let mut i: usize = 0;
        while i < nw
            invariant
                0 <= i <= nw,
                out@ == words_bytes_upto(ws@, i as int),
            decreases nw - i,
        {
            crate::bytes::push_word(&mut out, ws[i]);
            i = i + 1;
        }
        proof {
            assert(out@ == constants_bytes(*self));
            assert(constants_words(*self).len() == 53);
            lemma_words_bytes_len(constants_words(*self), 53);
        }
        out
    }
}

} // verus!
