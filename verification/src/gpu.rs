//! The GPU API enumerant values that the renderer's data structures carry.
//! The numeric values are part of the shader and GPU API contract and must
//! match what the unverified backend hands to the driver.

use vstd::prelude::*;

verus! {

pub const GL_ARRAY_BUFFER: u32 = 0x8892;

pub const GL_ELEMENT_ARRAY_BUFFER: u32 = 0x8893;

pub const GL_UNIFORM_BUFFER: u32 = 0x8A11;

pub const GL_STREAM_DRAW: u32 = 0x88E0;

pub const GL_STATIC_READ: u32 = 0x88E5;

pub const GL_DYNAMIC_DRAW: u32 = 0x88E8;

pub const GL_TRIANGLES: u32 = 0x0004;

pub const GL_UNSIGNED_BYTE: u32 = 0x1401;

pub const GL_UNSIGNED_SHORT: u32 = 0x1403;

pub const GL_UNSIGNED_INT: u32 = 0x1405;

pub const GL_CW: u32 = 0x0900;

pub const GL_CCW: u32 = 0x0901;

pub const GL_FLOAT: u32 = 0x1406;

pub const GL_RGB: u32 = 0x1907;

pub const GL_RGBA: u32 = 0x1908;

pub const GL_SRGB8: u32 = 0x8C41;

pub const GL_SRGB8_ALPHA8: u32 = 0x8C43;

pub const GL_LINEAR: u32 = 0x2601;

pub const GL_LINEAR_MIPMAP_LINEAR: u32 = 0x2703;

pub const GL_REPEAT: u32 = 0x2901;

/// Fixed vertex attribute locations of the scene shader.
pub const ATTR_LOC_POSITION: u32 = 0;

pub const ATTR_LOC_NORMAL: u32 = 1;

pub const ATTR_LOC_TANGENT: u32 = 2;

pub const ATTR_LOC_TEXCOORD_0: u32 = 3;

pub const ATTR_LOC_TEXCOORD_1: u32 = 4;

pub const ATTR_LOC_COLOR_0: u32 = 5;

/// Fixed texture units of the scene shader.
pub const TEX_UNIT_BASE_COLOR: u32 = 0;

pub const TEX_UNIT_METALLIC_ROUGHNESS: u32 = 1;

pub const TEX_UNIT_NORMAL: u32 = 2;

pub const TEX_UNIT_OCCLUSION: u32 = 3;

pub const TEX_UNIT_EMISSIVE: u32 = 4;

/// Fixed uniform block binding points of the scene shader.
pub const UNIFORM_BLOCK_MATERIAL: u32 = 0;

pub const UNIFORM_BLOCK_LIGHTS: u32 = 1;

} // verus!
