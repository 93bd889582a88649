//! The shader reflection model: what a compiled shader declares about its
//! descriptor bindings and uniform-block layouts.
//!
//! Reflection metadata is extracted from the compiled SPIR-V binary by an
//! external collaborator; it reaches the verified core as plain data in the
//! types below, validated once at shader load by [`check_reflection`].

use vstd::prelude::*;

verus! {

/// One named member of a uniform block: its byte offset and byte size
/// within the block.
#[derive(Debug)]
pub struct BlockMember {
    pub name: String,
    pub offset: u32,
    pub size: u32,
}

/// The memory layout of a uniform block: its total byte size and its named
/// members.
#[derive(Debug)]
pub struct BlockLayout {
    pub size: u32,
    pub members: Vec<BlockMember>,
}

/// The kind of a descriptor binding, with the block layout for uniform
/// blocks.  Kinds the binder does not implement are `Unsupported`.
#[derive(Debug)]
pub enum DescriptorKind {
    UniformBuffer(BlockLayout),
    StorageImage,
    Unsupported,
}

/// One descriptor binding of a shader.
#[derive(Debug)]
pub struct DescriptorBindingInfo {
    pub binding: u32,
    pub name: String,
    pub count: u32,
    pub kind: DescriptorKind,
}

/// One descriptor set of a shader: its bindings in binding-table order.
#[derive(Debug)]
pub struct DescriptorSetInfo {
    pub bindings: Vec<DescriptorBindingInfo>,
}

/// The work-group size a compute shader was compiled with.
#[derive(Clone, Copy, PartialEq, Eq, Structural, Debug)]
pub struct WorkGroupSize {
    pub x: u32,
    pub y: u32,
    pub z: u32,
}

/// Everything the binder and the dispatch orchestrator need to know about a
/// compiled shader: its descriptor sets and its work-group size.
#[derive(Debug)]
pub struct ReflectionInfo {
    pub descriptor_sets: Vec<DescriptorSetInfo>,
    pub work_group_size: WorkGroupSize,
}

/// Well-formedness of a block layout: every member lies within the block,
/// and no two members overlap.
pub open spec fn block_wf(bl: BlockLayout) -> bool {
    &&& forall|i: int|
        0 <= i < bl.members@.len() ==> (#[trigger] bl.members@[i]).offset + bl.members@[i].size
            <= bl.size
    &&& forall|i: int, j: int|
        0 <= i < bl.members@.len() && 0 <= j < bl.members@.len() && i != j ==> ((
        #[trigger] bl.members@[i]).offset + bl.members@[i].size <= (
        #[trigger] bl.members@[j]).offset || bl.members@[j].offset + bl.members@[j].size
            <= bl.members@[i].offset)
}

/// Well-formedness of one binding: a uniform block must be well formed.
pub open spec fn binding_wf(b: DescriptorBindingInfo) -> bool {
    match b.kind {
        DescriptorKind::UniformBuffer(bl) => block_wf(bl),
        _ => true,
    }
}

/// Well-formedness of reflection metadata: every uniform block is well
/// formed and the work-group size is positive on every axis.  Malformed
/// metadata is a hard error at shader load, so the binder and the
/// orchestrator require this of their input.
pub open spec fn reflection_wf(refl: ReflectionInfo) -> bool {
    &&& forall|s: int, b: int|
        0 <= s < refl.descriptor_sets@.len() && 0 <= b
            < refl.descriptor_sets@[s].bindings@.len() ==> binding_wf(
            #[trigger] refl.descriptor_sets@[s].bindings@[b],
        )
    &&& refl.work_group_size.x > 0
    &&& refl.work_group_size.y > 0
    &&& refl.work_group_size.z > 0
}

fn check_block(bl: &BlockLayout) -> (r: bool)
    ensures
        r == block_wf(*bl),
{
    let n = bl.members.len();
    let mut i: usize = 0;
    while i < n
        invariant
            n == bl.members@.len(),
            i <= n,
            forall|k: int|
                0 <= k < i ==> (#[trigger] bl.members@[k]).offset + bl.members@[k].size <= bl.size,
            forall|k: int, j: int|
                0 <= k < i && 0 <= j < i && k != j ==> ((#[trigger] bl.members@[k]).offset
                    + bl.members@[k].size <= (#[trigger] bl.members@[j]).offset
                    || bl.members@[j].offset + bl.members@[j].size <= bl.members@[k].offset),
        decreases n - i,
    {
        let m = &bl.members[i];
        if !(m.offset <= bl.size && bl.size - m.offset >= m.size) {
            return false;
        }
        let mut j: usize = 0;
        while j < i
            invariant
                n == bl.members@.len(),
                i < n,
                j <= i,
                m == bl.members@[i as int],
                m.offset + m.size <= bl.size,
                forall|k: int|
                    0 <= k < i ==> (#[trigger] bl.members@[k]).offset + bl.members@[k].size
                        <= bl.size,
                forall|k: int|
                    0 <= k < j ==> ((#[trigger] bl.members@[k]).offset + bl.members@[k].size
                        <= bl.members@[i as int].offset || bl.members@[i as int].offset
                        + bl.members@[i as int].size <= bl.members@[k].offset),
            decreases i - j,
        {
            let o = &bl.members[j];
            if !(o.offset >= m.offset + m.size || m.offset >= o.offset + o.size) {
                return false;
            }
            j = j + 1;
        }
        i = i + 1;
    }
    true
}

/// Validates reflection metadata once, at shader load: reports whether it
/// is well formed, so malformed metadata can be rejected as a reflection
/// error before any binding is attempted.
pub fn check_reflection(refl: &ReflectionInfo) -> (r: bool)
    ensures
        r == reflection_wf(*refl),
{
    if !(refl.work_group_size.x > 0 && refl.work_group_size.y > 0 && refl.work_group_size.z > 0) {
        return false;
    }
    let ns = refl.descriptor_sets.len();
    let mut s: usize = 0;
    while s < ns
        invariant
            ns == refl.descriptor_sets@.len(),
            s <= ns,
            refl.work_group_size.x > 0,
            refl.work_group_size.y > 0,
            refl.work_group_size.z > 0,
            forall|k: int, b: int|
                0 <= k < s && 0 <= b < refl.descriptor_sets@[k].bindings@.len() ==> binding_wf(
                    #[trigger] refl.descriptor_sets@[k].bindings@[b],
                ),
        decreases ns - s,
    {
        let set = &refl.descriptor_sets[s];
        let nb = set.bindings.len();
        let mut b: usize = 0;
        while b < nb
            invariant
                ns == refl.descriptor_sets@.len(),
                s < ns,
                nb == refl.descriptor_sets@[s as int].bindings@.len(),
                b <= nb,
                set == refl.descriptor_sets@[s as int],
                forall|j: int|
                    0 <= j < b ==> binding_wf(
                        #[trigger] refl.descriptor_sets@[s as int].bindings@[j],
                    ),
            decreases nb - b,
        {
            let ok = match &set.bindings[b].kind {
                DescriptorKind::UniformBuffer(bl) => check_block(bl),
                DescriptorKind::StorageImage => true,
                DescriptorKind::Unsupported => true,
            };
            if !ok {
                return false;
            }
            b = b + 1;
        }
        s = s + 1;
    }
    true
}

/// One binding of a descriptor-set layout to be created on the device.
#[derive(Clone, Copy, PartialEq, Eq, Structural, Debug)]
pub struct LayoutBinding {
    pub binding: u32,
    pub descriptor_type: LayoutDescriptorType,
    pub count: u32,
}

/// The device-side descriptor type a binding is laid out with: uniform
/// blocks become dynamic uniform buffers so one allocation can serve many
/// dispatches through dynamic offsets.
#[derive(Clone, Copy, PartialEq, Eq, Structural, Debug)]
pub enum LayoutDescriptorType {
    UniformBufferDynamic,
    StorageImage,
}

/// One descriptor-set layout to be created on the device.
#[derive(Debug)]
pub struct DescriptorSetLayoutDesc {
    pub bindings: Vec<LayoutBinding>,
}

/// The layout bindings derived from one set's reflection: uniform blocks
/// and storage images in binding-table order; unsupported kinds are
/// skipped.
pub open spec fn spec_layout_bindings(bs: Seq<DescriptorBindingInfo>) -> Seq<LayoutBinding>
    decreases bs.len(),
{
    if bs.len() == 0 {
        seq![]
    } else {
        (match bs[0].kind {
            DescriptorKind::UniformBuffer(_) => seq![
                LayoutBinding {
                    binding: bs[0].binding,
                    descriptor_type: LayoutDescriptorType::UniformBufferDynamic,
                    count: bs[0].count,
                },
            ],
            DescriptorKind::StorageImage => seq![
                LayoutBinding {
                    binding: bs[0].binding,
                    descriptor_type: LayoutDescriptorType::StorageImage,
                    count: bs[0].count,
                },
            ],
            DescriptorKind::Unsupported => seq![],
        }) + spec_layout_bindings(bs.skip(1))
    }
}

/// Derives, for every descriptor set of a shader, the layout the device
/// should create for it: uniform blocks as dynamic uniform buffers, storage
/// images as storage images, other kinds skipped as unsupported.
pub fn generate_descriptor_set_layouts(refl: &ReflectionInfo) -> (r: Vec<DescriptorSetLayoutDesc>)
    ensures
        r@.len() == refl.descriptor_sets@.len(),
        forall|s: int|
            0 <= s < r@.len() ==> (#[trigger] r@[s]).bindings@ == spec_layout_bindings(
                refl.descriptor_sets@[s].bindings@,
            ),
{
    let ns = refl.descriptor_sets.len();
    let mut out: Vec<DescriptorSetLayoutDesc> = Vec::new();
    let mut s: usize = 0;
    while s < ns
        invariant
            ns == refl.descriptor_sets@.len(),
            s <= ns,
            out@.len() == s,
            forall|k: int|
                0 <= k < s ==> (#[trigger] out@[k]).bindings@ == spec_layout_bindings(
                    refl.descriptor_sets@[k].bindings@,
                ),
        decreases ns - s,
    {
        let set = &refl.descriptor_sets[s];
        let ghost bsv = set.bindings@;
        let nb = set.bindings.len();
        let mut bindings: Vec<LayoutBinding> = Vec::new();
        let mut b: usize = 0;
        proof {
            assert(bsv.skip(0) =~= bsv);
        }
        while b < nb
            invariant
                nb == bsv.len(),
                b <= nb,
                bsv == refl.descriptor_sets@[s as int].bindings@,
                s < ns,
                ns == refl.descriptor_sets@.len(),
                set == refl.descriptor_sets@[s as int],
                bindings@ + spec_layout_bindings(bsv.skip(b as int)) == spec_layout_bindings(bsv),
            decreases nb - b,
        {
            proof {
                assert(bsv.skip(b as int)[0] == bsv[b as int]);
                assert(bsv.skip(b as int).skip(1) =~= bsv.skip(b as int + 1));
            }
            let info = &set.bindings[b];
            match &info.kind {
                DescriptorKind::UniformBuffer(_) => {
                    bindings.push(
                        LayoutBinding {
                            binding: info.binding,
                            descriptor_type: LayoutDescriptorType::UniformBufferDynamic,
                            count: info.count,
                        },
                    );
                },
                DescriptorKind::StorageImage => {
                    bindings.push(
                        LayoutBinding {
                            binding: info.binding,
                            descriptor_type: LayoutDescriptorType::StorageImage,
                            count: info.count,
                        },
                    );
                },
                DescriptorKind::Unsupported => {},
            }
            proof {
                assert(bindings@ + spec_layout_bindings(bsv.skip(b as int + 1))
                    =~= spec_layout_bindings(bsv));
            }
            b = b + 1;
        }
        proof {
            assert(bsv.skip(nb as int).len() == 0);
            assert(bindings@ =~= bindings@ + spec_layout_bindings(bsv.skip(nb as int)));
        }
        out.push(DescriptorSetLayoutDesc { bindings });
        s = s + 1;
    }
    out
}

} // verus!
