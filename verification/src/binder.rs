//! The reflection-driven binder: materializes a flat uniform map onto a
//! shader's actual binding layout.
//!
//! For every uniform-block binding it allocates a region from the per-frame
//! uniform arena, copies each mapped member's bytes to the member's declared
//! offset (type-checked: 4-byte scalars into 4-byte members, a 4-lane vector
//! into a 16-byte member), and records the region's dynamic offset.  For
//! every storage-image binding whose name is mapped to a texture it records
//! a storage-image descriptor write.  Names in the map that match no
//! binding or member are silently unused; descriptor kinds the binder does
//! not implement are skipped with a warning.

use vstd::prelude::*;

use crate::reflect::BlockMember;
use crate::reflect::DescriptorBindingInfo;
use crate::reflect::DescriptorKind;
use crate::reflect::DescriptorSetInfo;
use crate::reflect::ReflectionInfo;
use crate::reflect::binding_wf;
use crate::reflect::block_wf;
use crate::reflect::reflection_wf;
use crate::uniform_map::FlatUniformMap;
use crate::uniforms::ResolvedShaderUniformValue;
use crate::uniforms::ResolvedValueView;
use crate::uniforms::Vec4Bits;
use crate::uniforms::spec_u32_of_i32;

verus! {

/// The largest capacity a uniform arena may have, in bytes.  Keeping it
/// well under `u32::MAX` lets dynamic offsets be reported as `u32` and
/// keeps all offset arithmetic in bounds on every machine word size.
pub const MAX_ARENA_CAPACITY: usize = 0x4000_0000;

/// A transient per-frame uniform-buffer arena: a zero-initialized byte
/// buffer handed out by bump allocation.  The binder writes uniform-block
/// regions into it; the caller uploads its contents to the device buffer
/// that the dynamic offsets refer into.
pub struct UniformArena {
    data: Vec<u8>,
    cursor: usize,
}

impl UniformArena {
    /// The arena's bytes.
    pub closed spec fn contents(&self) -> Seq<u8> {
        self.data@
    }

    /// The bump cursor: everything before it has been handed out.
    pub closed spec fn spec_cursor(&self) -> int {
        self.cursor as int
    }

    /// The cursor stays within the buffer and the buffer within
    /// [`MAX_ARENA_CAPACITY`].
    pub open spec fn wf(&self) -> bool {
        0 <= self.spec_cursor() <= self.contents().len() <= MAX_ARENA_CAPACITY
    }

    /// A fresh arena of `capacity` zero bytes.
    pub fn new(capacity: usize) -> (r: UniformArena)
        requires
            capacity <= MAX_ARENA_CAPACITY,
        ensures
            r.wf(),
            r.spec_cursor() == 0,
            r.contents().len() == capacity,
            forall|i: int| 0 <= i < capacity ==> r.contents()[i] == 0u8,
    {
        let mut data: Vec<u8> = Vec::new();
        let mut i: usize = 0;
        while i < capacity
            invariant
                i <= capacity,
                data@.len() == i,
                forall|j: int| 0 <= j < i ==> data@[j] == 0u8,
            decreases capacity - i,
        {
            data.push(0u8);
            i = i + 1;
        }
        UniformArena { data, cursor: 0 }
    }

    /// Hands out `size` bytes: the returned offset is the old cursor, and
    /// the allocation succeeds exactly when `size` bytes are left.
    pub fn allocate(&mut self, size: usize) -> (r: Option<usize>)
        requires
            old(self).wf(),
        ensures
            final(self).wf(),
            final(self).contents() == old(self).contents(),
            match r {
                Some(off) => {
                    &&& size <= old(self).contents().len() - old(self).spec_cursor()
                    &&& off == old(self).spec_cursor()
                    &&& final(self).spec_cursor() == old(self).spec_cursor() + size
                },
                None => {
                    &&& size > old(self).contents().len() - old(self).spec_cursor()
                    &&& *final(self) == *old(self)
                },
            },
    {
        if size <= self.data.len() - self.cursor {
            let off = self.cursor;
            self.cursor = self.cursor + size;
            Some(off)
        } else {
            None
        }
    }

    /// The current cursor.
    pub fn cursor(&self) -> (r: usize)
        ensures
            r == self.spec_cursor(),
    {
        self.cursor
    }

    /// The arena's capacity in bytes.
    pub fn capacity(&self) -> (r: usize)
        ensures
            r == self.contents().len(),
    {
        self.data.len()
    }

    /// One byte of the arena.
    pub fn byte_at(&self, i: usize) -> (r: u8)
        requires
            i < self.contents().len(),
        ensures
            r == self.contents()[i as int],
    {
        self.data[i]
    }

    /// Writes the four little-endian bytes of `x` at `offset`.
    fn write_u32_le(&mut self, offset: usize, x: u32)
        requires
            old(self).wf(),
            offset + 4 <= old(self).contents().len(),
        ensures
            final(self).wf(),
            final(self).spec_cursor() == old(self).spec_cursor(),
            final(self).contents() == splice(old(self).contents(), offset as int, le4(x)),
    {
        proof {
            assert(x & 0xff < 256) by (bit_vector);
            assert((x >> 8) & 0xff < 256) by (bit_vector);
            assert((x >> 16) & 0xff < 256) by (bit_vector);
            assert((x >> 24) & 0xff < 256) by (bit_vector);
        }
        self.data.set(offset, (x & 0xff) as u8);
        self.data.set(offset + 1, ((x >> 8) & 0xff) as u8);
        self.data.set(offset + 2, ((x >> 16) & 0xff) as u8);
        self.data.set(offset + 3, ((x >> 24) & 0xff) as u8);
        proof {
            assert(self.data@ =~= splice(old(self).contents(), offset as int, le4(x)));
        }
    }
}

/// The four bytes of `x`, least significant first.
pub open spec fn le4(x: u32) -> Seq<u8> {
    seq![
        (x & 0xff) as u8,
        ((x >> 8) & 0xff) as u8,
        ((x >> 16) & 0xff) as u8,
        ((x >> 24) & 0xff) as u8,
    ]
}

/// The sixteen bytes of a four-lane vector, lane by lane.
pub open spec fn vec4_bytes(q: Vec4Bits) -> Seq<u8> {
    le4(q.x) + le4(q.y) + le4(q.z) + le4(q.w)
}

/// `buf` with `bytes` written at `at`.
pub open spec fn splice(buf: Seq<u8>, at: int, bytes: Seq<u8>) -> Seq<u8>
    recommends
        0 <= at,
        at + bytes.len() <= buf.len(),
{
    buf.take(at) + bytes + buf.skip(at + bytes.len())
}

/// The 32-bit pattern a value contributes to a 4-byte member: the bit
/// pattern of a float, the two's complement of a signed integer, the value
/// of an unsigned one; `None` for every other value kind.
pub open spec fn spec_scalar4(v: ResolvedValueView) -> Option<u32> {
    match v {
        ResolvedValueView::Float32(b) => Some(b),
        ResolvedValueView::Float32Asset(b) => Some(b),
        ResolvedValueView::Uint32(u) => Some(u),
        ResolvedValueView::Uint32Asset(u) => Some(u),
        ResolvedValueView::Int32(i) => Some((spec_u32_of_i32(i) as u32)),
        _ => None,
    }
}

/// The bytes a mapped value contributes to a member of the given size, or
/// `None` on a type mismatch: 4-byte scalars fill 4-byte members, a 4-lane
/// vector fills a 16-byte member, nothing else is accepted.
pub open spec fn member_bytes(v: ResolvedValueView, size: u32) -> Option<Seq<u8>> {
    if size == 4 {
        match spec_scalar4(v) {
            Some(b) => Some(le4(b)),
            None => None,
        }
    } else if size == 16 {
        match v {
            ResolvedValueView::Vec4(q) => Some(vec4_bytes(q)),
            _ => None,
        }
    } else {
        None
    }
}

/// A block region after writing every mapped member, in member order, or
/// `None` if some mapped member's value mismatches its declared size.
/// `base` is the region's offset within `buf`.
pub open spec fn write_members(
    buf: Seq<u8>,
    base: int,
    members: Seq<BlockMember>,
    map: Map<Seq<char>, ResolvedValueView>,
) -> Option<Seq<u8>>
    decreases members.len(),
{
    if members.len() == 0 {
        Some(buf)
    } else {
        let m = members[0];
        if map.contains_key(m.name@) {
            match member_bytes(map[m.name@], m.size) {
                Some(bytes) => write_members(
                    splice(buf, base + m.offset, bytes),
                    base,
                    members.skip(1),
                    map,
                ),
                None => None,
            }
        } else {
            write_members(buf, base, members.skip(1), map)
        }
    }
}

/// One descriptor update the binder produced.
#[derive(Clone, Copy, PartialEq, Eq, Structural, Debug)]
pub enum DescriptorWrite {
    /// A dynamic uniform buffer: the block's bytes live in the arena at
    /// `arena_offset`.
    UniformBufferDynamic { set_index: usize, binding: u32, arena_offset: u32, size: u32 },
    /// A storage image bound to the view of the mapped texture.
    StorageImage { set_index: usize, binding: u32, image_view: u64 },
}

/// A diagnostic the binder reports without failing.
#[derive(Clone, Copy, PartialEq, Eq, Structural, Debug)]
pub enum BindWarning {
    /// The shader declares a descriptor kind the binder does not implement;
    /// the binding is left unwritten.
    UnsupportedDescriptorKind { set_index: usize, binding: u32 },
}

/// Why binding failed.
#[derive(Clone, Copy, PartialEq, Eq, Structural, Debug)]
pub enum BindError {
    /// A mapped value's byte layout disagrees with the member's declared
    /// size: a shader/uniform-declaration mismatch, fatal for this bind.
    MemberTypeMismatch,
    /// The arena cannot hand out a block's bytes: the frame's uniform
    /// budget is exhausted.
    ArenaExhaustion,
}

/// Everything the binder produced: the per-uniform-block dynamic offsets in
/// binding scan order, the descriptor writes to apply as one batch, and the
/// warnings.
pub struct BindOutput {
    pub dynamic_offsets: Vec<u32>,
    pub writes: Vec<DescriptorWrite>,
    pub warnings: Vec<BindWarning>,
}

/// The binder's abstract state: what has accumulated, and the arena.
pub struct BindState {
    pub offsets: Seq<u32>,
    pub writes: Seq<DescriptorWrite>,
    pub warnings: Seq<BindWarning>,
    pub arena: Seq<u8>,
    pub cursor: int,
}

/// The binder's state before any binding: nothing accumulated.
pub open spec fn init_bind_state(arena: Seq<u8>, cursor: int) -> BindState {
    BindState { offsets: seq![], writes: seq![], warnings: seq![], arena: arena, cursor: cursor }
}

/// The effect of one binding on the binder's state, or the error it stops
/// with: a uniform block allocates (exhaustion if the arena cannot serve
/// it), writes its mapped members (mismatch stops the bind), and records
/// offset and write; a storage image records a write when its name maps to
/// a texture; an unsupported kind records a warning.
pub open spec fn bind_binding(
    st: BindState,
    set_index: int,
    b: DescriptorBindingInfo,
    map: Map<Seq<char>, ResolvedValueView>,
) -> Result<BindState, BindError> {
    match b.kind {
        DescriptorKind::Unsupported => Ok(
            BindState {
                offsets: st.offsets,
                writes: st.writes,
                warnings: st.warnings.push(
                    BindWarning::UnsupportedDescriptorKind {
                        set_index: set_index as usize,
                        binding: b.binding,
                    },
                ),
                arena: st.arena,
                cursor: st.cursor,
            },
        ),
        DescriptorKind::StorageImage => {
            if map.contains_key(b.name@) {
                match map[b.name@] {
                    ResolvedValueView::TextureAsset(t) => Ok(
                        BindState {
                            offsets: st.offsets,
                            writes: st.writes.push(
                                DescriptorWrite::StorageImage {
                                    set_index: set_index as usize,
                                    binding: b.binding,
                                    image_view: t.view,
                                },
                            ),
                            warnings: st.warnings,
                            arena: st.arena,
                            cursor: st.cursor,
                        },
                    ),
                    _ => Ok(st),
                }
            } else {
                Ok(st)
            }
        },
        DescriptorKind::UniformBuffer(bl) => {
            if st.cursor + bl.size > st.arena.len() {
                Err(BindError::ArenaExhaustion)
            } else {
                match write_members(st.arena, st.cursor, bl.members@, map) {
                    Some(arena2) => Ok(
                        BindState {
                            offsets: st.offsets.push(st.cursor as u32),
                            writes: st.writes.push(
                                DescriptorWrite::UniformBufferDynamic {
                                    set_index: set_index as usize,
                                    binding: b.binding,
                                    arena_offset: st.cursor as u32,
                                    size: bl.size,
                                },
                            ),
                            warnings: st.warnings,
                            arena: arena2,
                            cursor: st.cursor + bl.size,
                        },
                    ),
                    None => Err(BindError::MemberTypeMismatch),
                }
            }
        },
    }
}

/// The effect of one set's bindings, in binding-table order.
pub open spec fn bind_bindings(
    st: BindState,
    set_index: int,
    bs: Seq<DescriptorBindingInfo>,
    map: Map<Seq<char>, ResolvedValueView>,
) -> Result<BindState, BindError>
    decreases bs.len(),
{
    if bs.len() == 0 {
        Ok(st)
    } else {
        match bind_binding(st, set_index, bs[0], map) {
            Ok(st2) => bind_bindings(st2, set_index, bs.skip(1), map),
            Err(e) => Err(e),
        }
    }
}

/// The effect of every set of the shader, in set order.
pub open spec fn bind_sets(
    st: BindState,
    sets: Seq<DescriptorSetInfo>,
    set_index: int,
    map: Map<Seq<char>, ResolvedValueView>,
) -> Result<BindState, BindError>
    decreases sets.len(),
{
    if sets.len() == 0 {
        Ok(st)
    } else {
        match bind_bindings(st, set_index, sets[0].bindings@, map) {
            Ok(st2) => bind_sets(st2, sets.skip(1), set_index + 1, map),
            Err(e) => Err(e),
        }
    }
}

fn scalar4_of(v: &ResolvedShaderUniformValue) -> (r: Option<u32>)
    ensures
        r == spec_scalar4(v@),
{
    match v {
        ResolvedShaderUniformValue::Float32(b) => Some(*b),
        ResolvedShaderUniformValue::Float32Asset(b) => Some(*b),
        ResolvedShaderUniformValue::Uint32(u) => Some(*u),
        ResolvedShaderUniformValue::Uint32Asset(u) => Some(*u),
        ResolvedShaderUniformValue::Int32(i) => {
            if *i < 0 {
                Some((((*i as i64) + 0x1_0000_0000) as u32))
            } else {
                Some(*i as u32)
            }
        },
        _ => None,
    }
}

/// Adjacent splices merge.
proof fn lemma_splice_adjacent(buf: Seq<u8>, at: int, b1: Seq<u8>, b2: Seq<u8>)
    requires
        0 <= at,
        at + b1.len() + b2.len() <= buf.len(),
    ensures
        splice(splice(buf, at, b1), at + b1.len(), b2) == splice(buf, at, b1 + b2),
{
    assert(splice(splice(buf, at, b1), at + b1.len(), b2) =~= splice(buf, at, b1 + b2));
}

/// Materializes the flat uniform map onto the shader's bindings: allocates
/// and fills a uniform-block region per block binding, records
/// storage-image writes, and reports dynamic offsets, descriptor writes and
/// warnings.  Returns the error exactly when the functional model
/// [`bind_sets`] does, with the same error; on success every output equals
/// the model's.
pub fn update_descriptor_sets(
    refl: &ReflectionInfo,
    arena: &mut UniformArena,
    uniforms: &FlatUniformMap,
) -> (r: Result<BindOutput, BindError>)
    requires
        reflection_wf(*refl),
        old(arena).wf(),
    ensures
        final(arena).wf(),
        final(arena).contents().len() == old(arena).contents().len(),
        ({
            let target = bind_sets(
                init_bind_state(old(arena).contents(), old(arena).spec_cursor()),
                refl.descriptor_sets@,
                0,
                uniforms@,
            );
            match r {
                Ok(out) => match target {
                    Ok(stf) => {
                        &&& out.dynamic_offsets@ == stf.offsets
                        &&& out.writes@ == stf.writes
                        &&& out.warnings@ == stf.warnings
                        &&& final(arena).contents() == stf.arena
                        &&& final(arena).spec_cursor() == stf.cursor
                    },
                    Err(_) => false,
                },
                Err(e) => target == Err::<BindState, BindError>(e),
            }
        }),
{
    let ghost map = uniforms@;
    let ghost cap0 = arena.contents().len();
    let ghost target = bind_sets(
        init_bind_state(arena.contents(), arena.spec_cursor()),
        refl.descriptor_sets@,
        0,
        map,
    );
    let mut offsets: Vec<u32> = Vec::new();
    let mut writes: Vec<DescriptorWrite> = Vec::new();
    let mut warnings: Vec<BindWarning> = Vec::new();

    let ns = refl.descriptor_sets.len();
    let mut s: usize = 0;
    proof {
        assert(refl.descriptor_sets@.skip(0) =~= refl.descriptor_sets@);
    }
    while s < ns
        invariant
            ns == refl.descriptor_sets@.len(),
            s <= ns,
            reflection_wf(*refl),
            arena.wf(),
            arena.contents().len() == cap0,
            cap0 == old(arena).contents().len(),
            map == uniforms@,
            target == bind_sets(
                init_bind_state(old(arena).contents(), old(arena).spec_cursor()),
                refl.descriptor_sets@,
                0,
                map,
            ),
            target == bind_sets(
                BindState {
                    offsets: offsets@,
                    writes: writes@,
                    warnings: warnings@,
                    arena: arena.contents(),
                    cursor: arena.spec_cursor(),
                },
                refl.descriptor_sets@.skip(s as int),
                s as int,
                map,
            ),
        decreases ns - s,
    {
        proof {
            assert(refl.descriptor_sets@.skip(s as int)[0] == refl.descriptor_sets@[s as int]);
            assert(refl.descriptor_sets@.skip(s as int).skip(1) =~= refl.descriptor_sets@.skip(
                s as int + 1,
            ));
        }
        let set = &refl.descriptor_sets[s];
        let ghost bs = set.bindings@;
        let nb = set.bindings.len();
        let mut b: usize = 0;
        proof {
            assert(bs.skip(0) =~= bs);
        }
        while b < nb
            invariant
                ns == refl.descriptor_sets@.len(),
                s < ns,
                nb == bs.len(),
                b <= nb,
                bs == refl.descriptor_sets@[s as int].bindings@,
                set == refl.descriptor_sets@[s as int],
                reflection_wf(*refl),
                arena.wf(),
                arena.contents().len() == cap0,
                cap0 == old(arena).contents().len(),
                map == uniforms@,
                target == bind_sets(
                    init_bind_state(old(arena).contents(), old(arena).spec_cursor()),
                    refl.descriptor_sets@,
                    0,
                    map,
                ),
                match bind_bindings(
                    BindState {
                        offsets: offsets@,
                        writes: writes@,
                        warnings: warnings@,
                        arena: arena.contents(),
                        cursor: arena.spec_cursor(),
                    },
                    s as int,
                    bs.skip(b as int),
                    map,
                ) {
                    Ok(st2) => target == bind_sets(
                        st2,
                        refl.descriptor_sets@.skip(s as int + 1),
                        s as int + 1,
                        map,
                    ),
                    Err(e) => target == Err::<BindState, BindError>(e),
                },
            decreases nb - b,
        {
            let ghost entry = BindState {
                offsets: offsets@,
                writes: writes@,
                warnings: warnings@,
                arena: arena.contents(),
                cursor: arena.spec_cursor(),
            };
            proof {
                assert(bs.skip(b as int)[0] == bs[b as int]);
                assert(bs.skip(b as int).skip(1) =~= bs.skip(b as int + 1));
                assert(binding_wf(bs[b as int]));
            }
            let info = &set.bindings[b];
            match &info.kind {
                DescriptorKind::Unsupported => {
                    warnings.push(
                        BindWarning::UnsupportedDescriptorKind {
                            set_index: s,
                            binding: info.binding,
                        },
                    );
                    proof {
                        assert(bind_binding(entry, s as int, bs[b as int], map)
                            == Ok::<BindState, BindError>(BindState {
                            offsets: offsets@,
                            writes: writes@,
                            warnings: warnings@,
                            arena: arena.contents(),
                            cursor: arena.spec_cursor(),
                        }));
                    }
                },
                DescriptorKind::StorageImage => {
                    match uniforms.get(&info.name) {
                        Some(v) => {
                            match v {
                                ResolvedShaderUniformValue::TextureAsset(t) => {
                                    writes.push(
                                        DescriptorWrite::StorageImage {
                                            set_index: s,
                                            binding: info.binding,
                                            image_view: t.view,
                                        },
                                    );
                                },
                                _ => {},
                            }
                        },
                        None => {},
                    }
                    proof {
                        assert(bind_binding(entry, s as int, bs[b as int], map)
                            == Ok::<BindState, BindError>(BindState {
                            offsets: offsets@,
                            writes: writes@,
                            warnings: warnings@,
                            arena: arena.contents(),
                            cursor: arena.spec_cursor(),
                        }));
                    }
                },
                DescriptorKind::UniformBuffer(bl) => {
                    let size = bl.size as usize;
                    match arena.allocate(size) {
                        None => {
                            proof {
                                assert(entry.arena.len() == cap0);
                                assert(entry.cursor + bl.size > entry.arena.len());
                                assert(bind_binding(entry, s as int, bs[b as int], map)
                                    == Err::<BindState, BindError>(BindError::ArenaExhaustion));
                                assert(target == Err::<BindState, BindError>(
                                    BindError::ArenaExhaustion,
                                ));
                            }
                            return Err(BindError::ArenaExhaustion);
                        },
                        Some(off) => {
                            let ghost ms = bl.members@;
                            let ghost base = off as int;
                            let nm = bl.members.len();
                            let mut j: usize = 0;
                            proof {
                                assert(ms.skip(0) =~= ms);
                                assert(block_wf(*bl));
                            }
                            while j < nm
                                invariant
                                    nm == ms.len(),
                                    j <= nm,
                                    ms == bl.members@,
                                    block_wf(*bl),
                                    ns == refl.descriptor_sets@.len(),
                                    s < ns,
                                    nb == bs.len(),
                                    b < nb,
                                    bs == refl.descriptor_sets@[s as int].bindings@,
                                    bs[b as int].kind == DescriptorKind::UniformBuffer(*bl),
                                    arena.wf(),
                                    arena.contents().len() == cap0,
                                    cap0 == old(arena).contents().len(),
                                    arena.spec_cursor() == entry.cursor + bl.size,
                                    base == entry.cursor,
                                    base == off as int,
                                    0 <= base,
                                    base + bl.size <= cap0,
                                    entry.arena.len() == cap0,
                                    entry.offsets == offsets@,
                                    entry.writes == writes@,
                                    entry.warnings == warnings@,
                                    map == uniforms@,
                                    target == bind_sets(
                                        init_bind_state(
                                            old(arena).contents(),
                                            old(arena).spec_cursor(),
                                        ),
                                        refl.descriptor_sets@,
                                        0,
                                        map,
                                    ),
                                    match bind_bindings(
                                        entry,
                                        s as int,
                                        bs.skip(b as int),
                                        map,
                                    ) {
                                        Ok(st2) => target == bind_sets(
                                            st2,
                                            refl.descriptor_sets@.skip(s as int + 1),
                                            s as int + 1,
                                            map,
                                        ),
                                        Err(e) => target == Err::<BindState, BindError>(e),
                                    },
                                    write_members(arena.contents(), base, ms.skip(j as int), map)
                                        == write_members(entry.arena, base, ms, map),
                                decreases nm - j,
                            {
                                proof {
                                    assert(ms.skip(j as int)[0] == ms[j as int]);
                                    assert(ms.skip(j as int).skip(1) =~= ms.skip(j as int + 1));
                                    assert(ms[j as int].offset + ms[j as int].size <= bl.size);
                                    assert(bs.skip(b as int)[0] == bs[b as int]);
                                }
                                let m = &bl.members[j];
                                let mut failed = false;
                                match uniforms.get(&m.name) {
                                    None => {},
                                    Some(v) => {
                                        if m.size == 4 {
                                            match scalar4_of(v) {
                                                Some(bits) => {
                                                    arena.write_u32_le(
                                                        off + m.offset as usize,
                                                        bits,
                                                    );
                                                },
                                                None => {
                                                    failed = true;
                                                },
                                            }
                                        } else if m.size == 16 {
                                            match v {
                                                ResolvedShaderUniformValue::Vec4(q) => {
                                                    let ghost pre = arena.contents();
                                                    let p = off + m.offset as usize;
                                                    arena.write_u32_le(p, q.x);
                                                    arena.write_u32_le(p + 4, q.y);
                                                    arena.write_u32_le(p + 8, q.z);
                                                    arena.write_u32_le(p + 12, q.w);
                                                    proof {
                                                        lemma_splice_adjacent(
                                                            pre,
                                                            p as int,
                                                            le4(q.x),
                                                            le4(q.y),
                                                        );
                                                        lemma_splice_adjacent(
                                                            pre,
                                                            p as int,
                                                            le4(q.x) + le4(q.y),
                                                            le4(q.z),
                                                        );
                                                        lemma_splice_adjacent(
                                                            pre,
                                                            p as int,
                                                            le4(q.x) + le4(q.y) + le4(q.z),
                                                            le4(q.w),
                                                        );
                                                        assert(le4(q.x) + le4(q.y) + le4(q.z)
                                                            + le4(q.w) =~= vec4_bytes(*q));
                                                        assert(arena.contents() == splice(
                                                            pre,
                                                            p as int,
                                                            vec4_bytes(*q),
                                                        ));
                                                    }
                                                },
                                                _ => {
                                                    failed = true;
                                                },
                                            }
                                        } else {
                                            failed = true;
                                        }
                                        proof {
                                            if failed {
                                                assert(map.contains_key(ms[j as int].name@));
                                                assert(member_bytes(
                                                    map[ms[j as int].name@],
                                                    ms[j as int].size,
                                                ) is None);
                                                assert(write_members(
                                                    arena.contents(),
                                                    base,
                                                    ms.skip(j as int),
                                                    map,
                                                ) is None);
                                            }
                                        }
                                    },
                                }
                                if failed {
                                    proof {
                                        assert(write_members(entry.arena, base, ms, map)
                                            is None);
                                        assert(entry.cursor + bl.size <= entry.arena.len());
                                        assert(bind_binding(entry, s as int, bs[b as int], map)
                                            == Err::<BindState, BindError>(
                                            BindError::MemberTypeMismatch,
                                        ));
                                        assert(target == Err::<BindState, BindError>(
                                            BindError::MemberTypeMismatch,
                                        ));
                                    }
                                    return Err(BindError::MemberTypeMismatch);
                                }
                                j = j + 1;
                            }
                            proof {
                                assert(ms.skip(nm as int).len() == 0);
                                assert(write_members(
                                    arena.contents(),
                                    base,
                                    ms.skip(nm as int),
                                    map,
                                ) == Some(arena.contents()));
                            }
                            offsets.push(off as u32);
                            writes.push(
                                DescriptorWrite::UniformBufferDynamic {
                                    set_index: s,
                                    binding: info.binding,
                                    arena_offset: off as u32,
                                    size: bl.size,
                                },
                            );
                            proof {
                                assert(entry.cursor + bl.size <= entry.arena.len());
                                assert(bind_binding(entry, s as int, bs[b as int], map)
                                    == Ok::<BindState, BindError>(BindState {
                                    offsets: offsets@,
                                    writes: writes@,
                                    warnings: warnings@,
                                    arena: arena.contents(),
                                    cursor: arena.spec_cursor(),
                                }));
                            }
                        },
                    }
                },
            }
            proof {
                assert(bind_binding(entry, s as int, bs[b as int], map)
                    == Ok::<BindState, BindError>(BindState {
                    offsets: offsets@,
                    writes: writes@,
                    warnings: warnings@,
                    arena: arena.contents(),
                    cursor: arena.spec_cursor(),
                }));
            }
            b = b + 1;
        }
        proof {
            assert(bs.skip(nb as int).len() == 0);
        }
        s = s + 1;
    }
    proof {
        assert(refl.descriptor_sets@.skip(ns as int).len() == 0);
    }
    Ok(BindOutput { dynamic_offsets: offsets, writes, warnings })
}

} // verus!
