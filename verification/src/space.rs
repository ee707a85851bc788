//! Plain data carried through the renderer: scalar words, vectors,
//! quaternions, rigid transforms and cameras.
//!
//! A *scalar word* is one 32-bit value produced by the surrounding transform
//! math library. This crate treats scalar words as opaque payload: it copies
//! them into GPU-ready records but never computes with them.

use vstd::prelude::*;

verus! {

/// The scalar word for zero.
pub const WORD_ZERO: u32 = 0;

/// The scalar word for one, as the surrounding math library encodes it.
pub const WORD_ONE: u32 = 0x3F80_0000;

/// A three-component vector of scalar words.
#[derive(Clone, Copy, PartialEq, Eq, Structural, Debug)]
pub struct Vec3w {
    pub x: u32,
    pub y: u32,
    pub z: u32,
}

/// A four-component vector of scalar words.
#[derive(Clone, Copy, PartialEq, Eq, Structural, Debug)]
pub struct Vec4w {
    pub x: u32,
    pub y: u32,
    pub z: u32,
    pub w: u32,
}

/// A rotation quaternion: vector part and scalar part, as scalar words.
#[derive(Clone, Copy, PartialEq, Eq, Structural, Debug)]
pub struct Quatw {
    pub x: u32,
    pub y: u32,
    pub z: u32,
    pub s: u32,
}

/// A rigid transform: displacement, rotation and uniform scale.
#[derive(Clone, Copy, PartialEq, Eq, Structural, Debug)]
pub struct Transform {
    pub disp: Vec3w,
    pub rot: Quatw,
    pub scale: u32,
}

/// A camera, reduced to what the uniform blocks read from it: its position
/// and its combined view-projection matrix (sixteen scalar words, column
/// major).
#[derive(Clone, Copy, PartialEq, Eq, Debug)]
pub struct Camera {
    pub pos: Vec4w,
    pub view_proj: [u32; 16],
}

} // verus!
