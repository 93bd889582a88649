//! Resource-binding core of a GPU rendering toy.
//!
//! A shader invocation is described by a bundle of named uniform values whose
//! leaves may be literals or handles to asynchronously produced resources.
//! This crate holds the verified logic of that pipeline: the uniform value
//! model, the order-preserving assembly of resolved bundles, the flattening of
//! nested bundles into a scoped event stream, the reflection-driven write of
//! uniform-buffer bytes and descriptor updates, and the command plan for one
//! compute dispatch.

use vstd::prelude::*;

pub mod uniforms;
pub mod flatten;
pub mod uniform_map;
pub mod reflect;
pub mod binder;
pub mod resolve;
pub mod dispatch;
pub mod include_resolve;
pub mod raster;

verus! {

/// Number of work groups needed to cover `size` items with groups of
/// `group_size` items: the quotient of `size` by `group_size`, rounded up.
pub open spec fn spec_group_count(size: nat, group_size: nat) -> nat
    recommends
        group_size > 0,
{
    ((size + group_size - 1) / group_size as int) as nat
}

/// Work-group count along one axis for a dispatch that must cover `size`
/// invocations with work groups of `group_size` invocations each.
pub fn group_count(size: u32, group_size: u32) -> (r: u32)
    requires
        group_size > 0,
    ensures
        r == spec_group_count(size as nat, group_size as nat),
{
    let q = size / group_size;
    let rem = size % group_size;
    proof {
        let s = size as int;
        let g = group_size as int;
        assert((s + g - 1) / g == s / g + if s % g != 0 {
            1int
        } else {
            0int
        }) by (nonlinear_arith)
            requires
                g > 0,
        ;
        assert(s / g < 0x1_0000_0000 - 1 || s % g == 0) by (nonlinear_arith)
            requires
                g > 0 && s <= u32::MAX,
        ;
    }
    q + if rem != 0 {
        1u32
    } else {
        0u32
    }
}

} // verus!
