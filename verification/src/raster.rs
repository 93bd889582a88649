//! Types of the alternate raster backend.
//!
//! The raster path is not functional in this renderer: only its data
//! shapes remain, kept for callers that hold handles to raster shader
//! stages and pipelines.  No verified function constructs or consumes
//! them.

use vstd::prelude::*;

verus! {

/// A uniform as the legacy backend's reflection reported it: its location
/// and its API-level type tag.
#[derive(Clone, Copy, PartialEq, Eq, Structural, Debug)]
pub struct ShaderUniformReflection {
    pub location: i32,
    pub gl_type: u32,
}

/// The legacy backend's reflection of a linked program: its uniforms by
/// name, in discovery order.
#[derive(Debug)]
pub struct ShaderReflection {
    pub uniforms: Vec<(String, ShaderUniformReflection)>,
}

/// One compiled raster shader stage.
#[derive(Clone, Copy, PartialEq, Eq, Structural, Debug)]
pub struct RasterSubShader {
    pub handle: u32,
}

/// A linked raster pipeline and its reflection.
#[derive(Debug)]
pub struct RasterPipeline {
    pub handle: u32,
    pub reflection: ShaderReflection,
}

} // verus!
