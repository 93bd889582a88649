//! The uniform value model: named, possibly nested shader inputs.
//!
//! A `ShaderUniformValue` is either a literal (scalars and small vectors,
//! carried as their IEEE-754 bit patterns where the shader-side type is a
//! float), a reference to an asset produced by the external build graph, or a
//! nested bundle of further named values.  A `ShaderUniformHolder` pairs a
//! value with its name and a shallow hash computed eagerly at construction,
//! so the hash can serve as a change-detection key without resolving any
//! asset reference.
//!
//! Contracts throughout the crate speak of the mathematical views of these
//! types: [`ValueView`] and [`HolderView`] for unresolved values,
//! [`ResolvedValueView`] and [`ResolvedHolderView`] after resolution, with
//! names as `Seq<char>` and bundles as `Seq` of child views.

use vstd::prelude::*;

verus! {

/// Identity of an asset in the external memoized build graph.  The graph
/// resolves an id to a concrete value; this crate never looks inside it.
#[derive(Clone, Copy, PartialEq, Eq, Structural, Debug)]
pub struct AssetId {
    pub id: u64,
}

/// Size and format of a texture, as requested from the texture allocator.
#[derive(Clone, Copy, PartialEq, Eq, Structural, Debug)]
pub struct TextureKey {
    pub width: u32,
    pub height: u32,
    pub format: u32,
}

/// A pair of 32-bit signed integers.
#[derive(Clone, Copy, PartialEq, Eq, Structural, Debug)]
pub struct IVec2 {
    pub x: i32,
    pub y: i32,
}

/// Four 32-bit float lanes, each carried as its IEEE-754 bit pattern.
#[derive(Clone, Copy, PartialEq, Eq, Structural, Debug)]
pub struct Vec4Bits {
    pub x: u32,
    pub y: u32,
    pub z: u32,
    pub w: u32,
}

/// A concrete GPU texture: its key plus opaque handles to the image object
/// and its view.  `size_bits` caches the texture-size uniform derived from
/// the key — the bit patterns of `(w, h, 1/w, 1/h)` as single-precision
/// floats — computed where the texture is created, since floating-point
/// arithmetic stays outside the verified core.
#[derive(Clone, Copy, PartialEq, Eq, Structural, Debug)]
pub struct Texture {
    pub key: TextureKey,
    pub image: u64,
    pub view: u64,
    pub size_bits: Vec4Bits,
}

/// A concrete GPU buffer handle.
#[derive(Clone, Copy, PartialEq, Eq, Structural, Debug)]
pub struct Buffer {
    pub buffer_id: u64,
}

/// A single uniform value before resolution.  Scalars whose shader-side type
/// is a 32-bit float are carried as their IEEE-754 bit patterns (`u32`).
#[derive(Debug)]
pub enum ShaderUniformValue {
    /// A 32-bit float literal, as its IEEE-754 bit pattern.
    Float32(u32),
    Uint32(u32),
    Int32(i32),
    Ivec2(IVec2),
    /// Four 32-bit float lanes, each as its IEEE-754 bit pattern.
    Vec4(Vec4Bits),
    /// A nested bundle of named values.
    Bundle(Vec<ShaderUniformHolder>),
    /// Asset reference to a 32-bit float (bit pattern on resolution).
    Float32Asset(AssetId),
    Uint32Asset(AssetId),
    UsizeAsset(AssetId),
    TextureAsset(AssetId),
    BufferAsset(AssetId),
    /// Asset reference to a nested bundle.
    BundleAsset(AssetId),
}

/// A named uniform value plus its shallow hash.  Build one with
/// [`ShaderUniformHolder::new`] or [`ShaderUniformHolder::from_name_value`],
/// which establish [`ShaderUniformHolder::hash_consistent`]; a holder is
/// treated as immutable once constructed.
#[derive(Debug)]
pub struct ShaderUniformHolder {
    pub name: String,
    pub value: ShaderUniformValue,
    pub shallow_hash: u64,
}

/// An ordered bundle of named uniform values.
pub type ShaderUniformBundle = Vec<ShaderUniformHolder>;

/// A uniform value after every asset reference has been resolved by the
/// build graph.  Mirrors [`ShaderUniformValue`] variant by variant; the
/// asset-reference variants now carry the produced value, and a resolved
/// bundle asset carries the bundle's resolved contents.
#[derive(Debug)]
pub enum ResolvedShaderUniformValue {
    /// A 32-bit float, as its IEEE-754 bit pattern.
    Float32(u32),
    Uint32(u32),
    Int32(i32),
    Ivec2(IVec2),
    Vec4(Vec4Bits),
    Bundle(Vec<ResolvedShaderUniformHolder>),
    /// A resolved 32-bit float asset, as its IEEE-754 bit pattern.
    Float32Asset(u32),
    Uint32Asset(u32),
    UsizeAsset(u64),
    TextureAsset(Texture),
    BufferAsset(Buffer),
    BundleAsset(Vec<ResolvedShaderUniformHolder>),
}

/// A named uniform value after resolution.
#[derive(Debug)]
pub struct ResolvedShaderUniformHolder {
    pub name: String,
    pub value: ResolvedShaderUniformValue,
}

/// An ordered bundle of resolved named uniform values.
pub type ResolvedShaderUniformBundle = Vec<ResolvedShaderUniformHolder>;

/// Mathematical view of a [`ShaderUniformValue`].
pub enum ValueView {
    Float32(u32),
    Uint32(u32),
    Int32(i32),
    Ivec2(IVec2),
    Vec4(Vec4Bits),
    Bundle(Seq<HolderView>),
    Float32Asset(AssetId),
    Uint32Asset(AssetId),
    UsizeAsset(AssetId),
    TextureAsset(AssetId),
    BufferAsset(AssetId),
    BundleAsset(AssetId),
}

/// Mathematical view of a [`ShaderUniformHolder`]: its name and value (the
/// stored hash is stated separately, by [`ShaderUniformHolder::hash_consistent`]).
pub struct HolderView {
    pub name: Seq<char>,
    pub value: ValueView,
}

/// Mathematical view of a [`ResolvedShaderUniformValue`].
pub enum ResolvedValueView {
    Float32(u32),
    Uint32(u32),
    Int32(i32),
    Ivec2(IVec2),
    Vec4(Vec4Bits),
    Bundle(Seq<ResolvedHolderView>),
    Float32Asset(u32),
    Uint32Asset(u32),
    UsizeAsset(u64),
    TextureAsset(Texture),
    BufferAsset(Buffer),
    BundleAsset(Seq<ResolvedHolderView>),
}

/// Mathematical view of a [`ResolvedShaderUniformHolder`].
pub struct ResolvedHolderView {
    pub name: Seq<char>,
    pub value: ResolvedValueView,
}

/// The view of an unresolved value.
pub open spec fn view_of_value(v: ShaderUniformValue) -> ValueView
    decreases v, 1int,
{
    match v {
        ShaderUniformValue::Float32(b) => ValueView::Float32(b),
        ShaderUniformValue::Uint32(u) => ValueView::Uint32(u),
        ShaderUniformValue::Int32(i) => ValueView::Int32(i),
        ShaderUniformValue::Ivec2(p) => ValueView::Ivec2(p),
        ShaderUniformValue::Vec4(q) => ValueView::Vec4(q),
        ShaderUniformValue::Bundle(children) => ValueView::Bundle(view_of_holders(children@)),
        ShaderUniformValue::Float32Asset(r) => ValueView::Float32Asset(r),
        ShaderUniformValue::Uint32Asset(r) => ValueView::Uint32Asset(r),
        ShaderUniformValue::UsizeAsset(r) => ValueView::UsizeAsset(r),
        ShaderUniformValue::TextureAsset(r) => ValueView::TextureAsset(r),
        ShaderUniformValue::BufferAsset(r) => ValueView::BufferAsset(r),
        ShaderUniformValue::BundleAsset(r) => ValueView::BundleAsset(r),
    }
}

/// The views of a sequence of unresolved holders, in order.
pub open spec fn view_of_holders(hs: Seq<ShaderUniformHolder>) -> Seq<HolderView>
    decreases hs, 0int,
{
    if hs.len() == 0 {
        Seq::empty()
    } else {
        seq![HolderView { name: hs[0].name@, value: view_of_value(hs[0].value) }] + view_of_holders(
            hs.skip(1),
        )
    }
}

/// The view of a resolved value.
pub open spec fn view_of_resolved_value(v: ResolvedShaderUniformValue) -> ResolvedValueView
    decreases v, 1int,
{
    match v {
        ResolvedShaderUniformValue::Float32(b) => ResolvedValueView::Float32(b),
        ResolvedShaderUniformValue::Uint32(u) => ResolvedValueView::Uint32(u),
        ResolvedShaderUniformValue::Int32(i) => ResolvedValueView::Int32(i),
        ResolvedShaderUniformValue::Ivec2(p) => ResolvedValueView::Ivec2(p),
        ResolvedShaderUniformValue::Vec4(q) => ResolvedValueView::Vec4(q),
        ResolvedShaderUniformValue::Bundle(children) => ResolvedValueView::Bundle(
            view_of_resolved_holders(children@),
        ),
        ResolvedShaderUniformValue::Float32Asset(b) => ResolvedValueView::Float32Asset(b),
        ResolvedShaderUniformValue::Uint32Asset(u) => ResolvedValueView::Uint32Asset(u),
        ResolvedShaderUniformValue::UsizeAsset(u) => ResolvedValueView::UsizeAsset(u),
        ResolvedShaderUniformValue::TextureAsset(t) => ResolvedValueView::TextureAsset(t),
        ResolvedShaderUniformValue::BufferAsset(b) => ResolvedValueView::BufferAsset(b),
        ResolvedShaderUniformValue::BundleAsset(children) => ResolvedValueView::BundleAsset(
            view_of_resolved_holders(children@),
        ),
    }
}

/// The views of a sequence of resolved holders, in order.
pub open spec fn view_of_resolved_holders(hs: Seq<ResolvedShaderUniformHolder>) -> Seq<
    ResolvedHolderView,
>
    decreases hs, 0int,
{
    if hs.len() == 0 {
        Seq::empty()
    } else {
        seq![
            ResolvedHolderView { name: hs[0].name@, value: view_of_resolved_value(hs[0].value) },
        ] + view_of_resolved_holders(hs.skip(1))
    }
}

impl View for ShaderUniformValue {
    type V = ValueView;

    open spec fn view(&self) -> ValueView {
        view_of_value(*self)
    }
}

impl View for ShaderUniformHolder {
    type V = HolderView;

    open spec fn view(&self) -> HolderView {
        HolderView { name: self.name@, value: self.value@ }
    }
}

impl View for ResolvedShaderUniformValue {
    type V = ResolvedValueView;

    open spec fn view(&self) -> ResolvedValueView {
        view_of_resolved_value(*self)
    }
}

impl View for ResolvedShaderUniformHolder {
    type V = ResolvedHolderView;

    open spec fn view(&self) -> ResolvedHolderView {
        ResolvedHolderView { name: self.name@, value: self.value@ }
    }
}

/// The element-wise views of a resolved bundle: equal to mapping each holder
/// to its view.
pub proof fn lemma_view_of_resolved_holders_index(hs: Seq<ResolvedShaderUniformHolder>)
    ensures
        view_of_resolved_holders(hs).len() == hs.len(),
        forall|i: int| 0 <= i < hs.len() ==> view_of_resolved_holders(hs)[i] == hs[i]@,
    decreases hs.len(),
{
    if hs.len() > 0 {
        lemma_view_of_resolved_holders_index(hs.skip(1));
        assert forall|i: int| 0 <= i < hs.len() implies view_of_resolved_holders(hs)[i]
            == hs[i]@ by {
            if i > 0 {
                assert(hs.skip(1)[i - 1] == hs[i]);
            }
        }
    }
}

/// Appending one resolved holder appends its view.
pub proof fn lemma_view_of_resolved_holders_push(s: Seq<ResolvedShaderUniformHolder>, h: ResolvedShaderUniformHolder)
    ensures
        view_of_resolved_holders(s.push(h)) == view_of_resolved_holders(s) + seq![h@],
{
    lemma_view_of_resolved_holders_index(s.push(h));
    lemma_view_of_resolved_holders_index(s);
    assert(view_of_resolved_holders(s.push(h)) =~= view_of_resolved_holders(s) + seq![h@]);
}

/// The element-wise views of an unresolved bundle.
pub proof fn lemma_view_of_holders_index(hs: Seq<ShaderUniformHolder>)
    ensures
        view_of_holders(hs).len() == hs.len(),
        forall|i: int| 0 <= i < hs.len() ==> view_of_holders(hs)[i] == hs[i]@,
    decreases hs.len(),
{
    if hs.len() > 0 {
        lemma_view_of_holders_index(hs.skip(1));
        assert forall|i: int| 0 <= i < hs.len() implies view_of_holders(hs)[i] == hs[i]@ by {
            if i > 0 {
                assert(hs.skip(1)[i - 1] == hs[i]);
            }
        }
    }
}

impl Clone for ResolvedShaderUniformValue {
    fn clone(&self) -> (r: Self)
        ensures
            r@ == self@,
        decreases *self, 1int,
    {
        match self {
            ResolvedShaderUniformValue::Float32(b) => ResolvedShaderUniformValue::Float32(*b),
            ResolvedShaderUniformValue::Uint32(u) => ResolvedShaderUniformValue::Uint32(*u),
            ResolvedShaderUniformValue::Int32(i) => ResolvedShaderUniformValue::Int32(*i),
            ResolvedShaderUniformValue::Ivec2(p) => ResolvedShaderUniformValue::Ivec2(*p),
            ResolvedShaderUniformValue::Vec4(q) => ResolvedShaderUniformValue::Vec4(*q),
            ResolvedShaderUniformValue::Bundle(children) => ResolvedShaderUniformValue::Bundle(
                clone_resolved_holders(children),
            ),
            ResolvedShaderUniformValue::Float32Asset(b) => ResolvedShaderUniformValue::Float32Asset(
                *b,
            ),
            ResolvedShaderUniformValue::Uint32Asset(u) => ResolvedShaderUniformValue::Uint32Asset(
                *u,
            ),
            ResolvedShaderUniformValue::UsizeAsset(u) => ResolvedShaderUniformValue::UsizeAsset(*u),
            ResolvedShaderUniformValue::TextureAsset(t) => ResolvedShaderUniformValue::TextureAsset(
                *t,
            ),
            ResolvedShaderUniformValue::BufferAsset(b) => ResolvedShaderUniformValue::BufferAsset(
                *b,
            ),
            ResolvedShaderUniformValue::BundleAsset(children) => {
                ResolvedShaderUniformValue::BundleAsset(clone_resolved_holders(children))
            },
        }
    }
}

impl Clone for ResolvedShaderUniformHolder {
    fn clone(&self) -> (r: Self)
        ensures
            r@ == self@,
        decreases *self, 2int,
    {
        ResolvedShaderUniformHolder { name: self.name.clone(), value: self.value.clone() }
    }
}

/// Clones a resolved bundle element by element, preserving its view.
pub fn clone_resolved_holders(hs: &Vec<ResolvedShaderUniformHolder>) -> (r: Vec<
    ResolvedShaderUniformHolder,
>)
    ensures
        view_of_resolved_holders(r@) == view_of_resolved_holders(hs@),
    decreases hs@, 0int,
{
    let mut out: Vec<ResolvedShaderUniformHolder> = Vec::new();
    let n = hs.len();
    let mut i: usize = 0;
    while i < n
        invariant
            n == hs@.len(),
            i <= n,
            out@.len() == i,
            forall|j: int| 0 <= j < i ==> out@[j]@ == hs@[j]@,
        decreases n - i,
    {
        out.push(hs[i].clone());
        i = i + 1;
    }
    proof {
        lemma_view_of_resolved_holders_index(out@);
        lemma_view_of_resolved_holders_index(hs@);
        assert(view_of_resolved_holders(out@) =~= view_of_resolved_holders(hs@));
    }
    out
}

/// The FNV-1a 64-bit offset basis, the hash state before any input.
pub const FNV_OFFSET_BASIS: u64 = 0xcbf2_9ce4_8422_2325;

/// The FNV-1a 64-bit prime.
pub const FNV_PRIME: u64 = 0x100_0000_01b3;

/// One FNV-1a mixing step: xor the next word in, multiply by the prime
/// modulo `2^64`.
pub open spec fn fnv_mix(h: u64, x: u64) -> u64 {
    vstd::wrapping::u64_specs::wrapping_mul(h ^ x, FNV_PRIME)
}

/// The unsigned 32-bit reinterpretation (two's complement) of `i`.
pub open spec fn spec_u32_of_i32(i: i32) -> u64 {
    if i < 0 {
        (i + 0x1_0000_0000) as u64
    } else {
        i as u64
    }
}

/// Hash state after mixing in every character of `s`, in order.
pub open spec fn spec_hash_chars(h: u64, s: Seq<char>) -> u64
    decreases s.len(),
{
    if s.len() == 0 {
        h
    } else {
        spec_hash_chars(fnv_mix(h, s[0] as u64), s.skip(1))
    }
}

/// Hash state after mixing in a value: a tag for the variant, then the
/// payload.  A nested bundle mixes in every child's name and value, in
/// order, so the shallow hash is a function of the whole unresolved tree —
/// asset references contribute only their id, never their resolved value.
pub open spec fn spec_hash_value(h: u64, v: ValueView) -> u64
    decreases v, 1int,
{
    match v {
        ValueView::Float32(b) => fnv_mix(fnv_mix(h, 1), b as u64),
        ValueView::Uint32(u) => fnv_mix(fnv_mix(h, 2), u as u64),
        ValueView::Int32(i) => fnv_mix(fnv_mix(h, 3), spec_u32_of_i32(i)),
        ValueView::Ivec2(p) => fnv_mix(
            fnv_mix(fnv_mix(h, 4), spec_u32_of_i32(p.x)),
            spec_u32_of_i32(p.y),
        ),
        ValueView::Vec4(q) => fnv_mix(
            fnv_mix(fnv_mix(fnv_mix(fnv_mix(h, 5), q.x as u64), q.y as u64), q.z as u64),
            q.w as u64,
        ),
        ValueView::Bundle(children) => spec_hash_holder_views(fnv_mix(h, 6), children),
        ValueView::Float32Asset(r) => fnv_mix(fnv_mix(h, 7), r.id),
        ValueView::Uint32Asset(r) => fnv_mix(fnv_mix(h, 8), r.id),
        ValueView::UsizeAsset(r) => fnv_mix(fnv_mix(h, 9), r.id),
        ValueView::TextureAsset(r) => fnv_mix(fnv_mix(h, 10), r.id),
        ValueView::BufferAsset(r) => fnv_mix(fnv_mix(h, 11), r.id),
        ValueView::BundleAsset(r) => fnv_mix(fnv_mix(h, 12), r.id),
    }
}

/// Hash state after mixing in a sequence of holder views, each as its name
/// followed by its value.
pub open spec fn spec_hash_holder_views(h: u64, hs: Seq<HolderView>) -> u64
    decreases hs, 0int,
{
    if hs.len() == 0 {
        h
    } else {
        spec_hash_holder_views(
            spec_hash_value(spec_hash_chars(h, hs[0].name), hs[0].value),
            hs.skip(1),
        )
    }
}

/// The shallow hash of a value: FNV-1a over the unresolved value tree.
pub open spec fn spec_shallow_hash(v: ValueView) -> u64 {
    spec_hash_value(FNV_OFFSET_BASIS, v)
}

fn hash_chars(h: u64, s: &str) -> (r: u64)
    ensures
        r == spec_hash_chars(h, s@),
{
    let n = s.unicode_len();
    let mut acc = h;
    let mut i: usize = 0;
    proof {
        assert(s@.skip(0) =~= s@);
    }
    while i < n
        invariant
            n == s@.len(),
            i <= n,
            spec_hash_chars(acc, s@.skip(i as int)) == spec_hash_chars(h, s@),
        decreases n - i,
    {
        let c = s.get_char(i);
        proof {
            assert(s@.skip(i as int)[0] == s@[i as int]);
            assert(s@.skip(i as int).skip(1) =~= s@.skip(i as int + 1));
        }
        acc = (acc ^ (c as u64)).wrapping_mul(FNV_PRIME);
        i = i + 1;
    }
    proof {
        assert(s@.skip(n as int).len() == 0);
    }
    acc
}

/// One FNV-1a mixing step.
fn mix(h: u64, x: u64) -> (r: u64)
    ensures
        r == fnv_mix(h, x),
{
    (h ^ x).wrapping_mul(FNV_PRIME)
}

fn hash_value(h: u64, v: &ShaderUniformValue) -> (r: u64)
    ensures
        r == spec_hash_value(h, v@),
    decreases *v, 1int,
{
    match v {
        ShaderUniformValue::Float32(b) => mix(mix(h, 1), *b as u64),
        ShaderUniformValue::Uint32(u) => mix(mix(h, 2), *u as u64),
        ShaderUniformValue::Int32(i) => mix(mix(h, 3), u32_of_i32(*i)),
        ShaderUniformValue::Ivec2(p) => mix(mix(mix(h, 4), u32_of_i32(p.x)), u32_of_i32(p.y)),
        ShaderUniformValue::Vec4(q) => mix(
            mix(mix(mix(mix(h, 5), q.x as u64), q.y as u64), q.z as u64),
            q.w as u64,
        ),
        ShaderUniformValue::Bundle(children) => hash_holders(mix(h, 6), children),
        ShaderUniformValue::Float32Asset(r) => mix(mix(h, 7), r.id),
        ShaderUniformValue::Uint32Asset(r) => mix(mix(h, 8), r.id),
        ShaderUniformValue::UsizeAsset(r) => mix(mix(h, 9), r.id),
        ShaderUniformValue::TextureAsset(r) => mix(mix(h, 10), r.id),
        ShaderUniformValue::BufferAsset(r) => mix(mix(h, 11), r.id),
        ShaderUniformValue::BundleAsset(r) => mix(mix(h, 12), r.id),
    }
}

fn hash_holders(h: u64, hs: &Vec<ShaderUniformHolder>) -> (r: u64)
    ensures
        r == spec_hash_holder_views(h, view_of_holders(hs@)),
    decreases hs@, 0int,
{
    let n = hs.len();
    let mut acc = h;
    let mut i: usize = 0;
    proof {
        assert(hs@.skip(0) =~= hs@);
    }
    while i < n
        invariant
            n == hs@.len(),
            i <= n,
            spec_hash_holder_views(acc, view_of_holders(hs@.skip(i as int)))
                == spec_hash_holder_views(h, view_of_holders(hs@)),
        decreases n - i,
    {
        proof {
            let s_i = hs@.skip(i as int);
            assert(s_i[0] == hs@[i as int]);
            assert(s_i.skip(1) =~= hs@.skip(i as int + 1));
            let vs = view_of_holders(s_i);
            assert(vs[0] == HolderView {
                name: hs@[i as int].name@,
                value: view_of_value(hs@[i as int].value),
            });
            assert(vs.skip(1) =~= view_of_holders(hs@.skip(i as int + 1)));
        }
        let holder = &hs[i];
        acc = hash_chars(acc, holder.name.as_str());
        acc = hash_value(acc, &holder.value);
        i = i + 1;
    }
    proof {
        assert(hs@.skip(n as int).len() == 0);
    }
    acc
}

/// Reinterpretation of `i` as its unsigned 32-bit two's-complement pattern.
fn u32_of_i32(i: i32) -> (r: u64)
    ensures
        r == spec_u32_of_i32(i),
{
    if i < 0 {
        ((i as i64) + 0x1_0000_0000) as u64
    } else {
        i as u64
    }
}

impl ShaderUniformHolder {
    /// Whether the stored hash is the shallow hash of the stored value, as
    /// every constructed holder guarantees.
    pub open spec fn hash_consistent(&self) -> bool {
        self.shallow_hash == spec_shallow_hash(self.value@)
    }

    /// Builds a holder, computing the shallow hash of `value` eagerly.
    pub fn from_name_value(name: &str, value: ShaderUniformValue) -> (r: ShaderUniformHolder)
        ensures
            r@.name == name@,
            r@.value == value@,
            r.hash_consistent(),
    {
        let shallow_hash = hash_value(FNV_OFFSET_BASIS, &value);
        ShaderUniformHolder { name: name.to_owned(), value, shallow_hash }
    }

    /// Builds a holder from a name and a value.
    pub fn new(name: &str, value: ShaderUniformValue) -> (r: ShaderUniformHolder)
        ensures
            r@.name == name@,
            r@.value == value@,
            r.hash_consistent(),
    {
        Self::from_name_value(name, value)
    }

    /// The shallow hash stored at construction.
    pub fn shallow_hash(&self) -> (r: u64)
        ensures
            r == self.shallow_hash,
    {
        self.shallow_hash
    }
}

/// Two holders whose values have the same view carry the same shallow hash:
/// the hash is a function of the unresolved value alone.
pub proof fn lemma_equal_values_equal_hashes(a: ShaderUniformHolder, b: ShaderUniformHolder)
    requires
        a.hash_consistent(),
        b.hash_consistent(),
        a@.value == b@.value,
    ensures
        a.shallow_hash == b.shallow_hash,
{
}

} // verus!
