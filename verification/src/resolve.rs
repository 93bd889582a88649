//! Resolution of a uniform bundle: every asset reference is replaced by the
//! value the external build graph produced for it.
//!
//! The graph's answers reach the verified core as an [`AssetStore`]: a
//! finite store from asset id to produced value, assembled by the caller in
//! whatever order the concurrent asset computations completed.  Resolution
//! is a function of the store's mapping alone, so completion order cannot
//! affect the result, and the resolved bundle keeps the holders' original
//! order.  If any referenced id is missing from the store, or its value is
//! of the wrong kind, the whole resolution fails and no partial result is
//! returned.

use vstd::prelude::*;

use crate::uniforms::AssetId;
use crate::uniforms::Buffer;
use crate::uniforms::HolderView;
use crate::uniforms::ResolvedHolderView;
use crate::uniforms::ResolvedShaderUniformHolder;
use crate::uniforms::ResolvedShaderUniformValue;
use crate::uniforms::ResolvedValueView;
use crate::uniforms::ShaderUniformHolder;
use crate::uniforms::ShaderUniformValue;
use crate::uniforms::Texture;
use crate::uniforms::ValueView;
use crate::uniforms::view_of_holders;
use crate::uniforms::view_of_resolved_holders;

verus! {

/// A value the external build graph produced for one asset id.  A bundle
/// asset's contents arrive already resolved: the caller resolves the inner
/// bundle first, mirroring the recursive asynchronous resolution.
#[derive(Debug)]
pub enum AssetValue {
    /// A 32-bit float, as its IEEE-754 bit pattern.
    Float32(u32),
    Uint32(u32),
    Usize(u64),
    Texture(Texture),
    Buffer(Buffer),
    Bundle(Vec<ResolvedShaderUniformHolder>),
}

/// Mathematical view of an [`AssetValue`].
pub enum AssetValueView {
    Float32(u32),
    Uint32(u32),
    Usize(u64),
    Texture(Texture),
    Buffer(Buffer),
    Bundle(Seq<ResolvedHolderView>),
}

impl View for AssetValue {
    type V = AssetValueView;

    open spec fn view(&self) -> AssetValueView {
        match self {
            AssetValue::Float32(b) => AssetValueView::Float32(*b),
            AssetValue::Uint32(u) => AssetValueView::Uint32(*u),
            AssetValue::Usize(u) => AssetValueView::Usize(*u),
            AssetValue::Texture(t) => AssetValueView::Texture(*t),
            AssetValue::Buffer(b) => AssetValueView::Buffer(*b),
            AssetValue::Bundle(hs) => AssetValueView::Bundle(view_of_resolved_holders(hs@)),
        }
    }
}

/// The build graph's answers: a finite store from asset id to produced
/// value.  Entries are added in completion order; the view is the mapping
/// alone, so that order is immaterial (the graph is memoized: one value per
/// id).
pub struct AssetStore {
    entries: Vec<(u64, AssetValue)>,
}

/// The mapping denoted by an entry sequence: every pair inserted in order.
pub open spec fn store_of_entries(s: Seq<(u64, AssetValue)>) -> Map<u64, AssetValueView>
    decreases s.len(),
{
    if s.len() == 0 {
        Map::empty()
    } else {
        store_of_entries(s.drop_last()).insert(s.last().0, s.last().1@)
    }
}

impl View for AssetStore {
    type V = Map<u64, AssetValueView>;

    closed spec fn view(&self) -> Map<u64, AssetValueView> {
        store_of_entries(self.entries@)
    }
}

/// Entries from `j` on do not hold id `k`, so the store of `s` agrees with
/// the store of the first `j` entries on `k`.
proof fn lemma_store_of_entries_skip_absent(s: Seq<(u64, AssetValue)>, k: u64, j: int)
    requires
        0 <= j <= s.len(),
        forall|m: int| j <= m < s.len() ==> s[m].0 != k,
    ensures
        store_of_entries(s).contains_key(k) == store_of_entries(s.take(j)).contains_key(k),
        store_of_entries(s).contains_key(k) ==> store_of_entries(s)[k] == store_of_entries(
            s.take(j),
        )[k],
    decreases s.len() - j,
{
    if j == s.len() {
        assert(s.take(j) =~= s);
    } else {
        lemma_store_of_entries_skip_absent(s, k, j + 1);
        let t = s.take(j + 1);
        assert(t.drop_last() =~= s.take(j));
        assert(t.last() == s[j]);
    }
}

impl AssetStore {
    /// An empty store.
    pub fn new() -> (r: AssetStore)
        ensures
            r@ == Map::<u64, AssetValueView>::empty(),
    {
        AssetStore { entries: Vec::new() }
    }

    /// Records the value the graph produced for `id`.
    pub fn insert(&mut self, id: AssetId, value: AssetValue)
        ensures
            final(self)@ == old(self)@.insert(id.id, value@),
    {
        let ghost pre = self.entries@;
        proof {
            assert(pre.push((id.id, value)).drop_last() =~= pre);
        }
        self.entries.push((id.id, value));
    }

    /// Looks an id up: the value recorded for it, if any.
    pub fn get(&self, id: AssetId) -> (r: Option<&AssetValue>)
        ensures
            match r {
                Some(v) => self@.contains_key(id.id) && v@ == self@[id.id],
                None => !self@.contains_key(id.id),
            },
    {
        let n = self.entries.len();
        let mut j = n;
        while j > 0
            invariant
                n == self.entries@.len(),
                j <= n,
                forall|m: int| j <= m < n ==> self.entries@[m].0 != id.id,
            decreases j,
        {
            j = j - 1;
            if self.entries[j].0 == id.id {
                proof {
                    lemma_store_of_entries_skip_absent(self.entries@, id.id, j + 1);
                    let t = self.entries@.take(j + 1);
                    assert(t.drop_last() =~= self.entries@.take(j as int));
                    assert(t.last() == self.entries@[j as int]);
                }
                return Some(&self.entries[j].1);
            }
        }
        proof {
            lemma_store_of_entries_skip_absent(self.entries@, id.id, 0);
            assert(self.entries@.take(0) =~= Seq::<(u64, AssetValue)>::empty());
        }
        None
    }
}

/// Inserting the graph's answers in a different order builds the same
/// store, as long as ids are distinct: insertion commutes.
pub proof fn lemma_store_insert_commutes(
    m: Map<u64, AssetValueView>,
    id1: u64,
    v1: AssetValueView,
    id2: u64,
    v2: AssetValueView,
)
    requires
        id1 != id2,
    ensures
        m.insert(id1, v1).insert(id2, v2) == m.insert(id2, v2).insert(id1, v1),
{
    assert(m.insert(id1, v1).insert(id2, v2) =~= m.insert(id2, v2).insert(id1, v1));
}

/// Why resolution failed: some referenced asset is missing from the store
/// or its produced value is of the wrong kind, so the referenced
/// computation did not deliver what the reference requires.
#[derive(Clone, Copy, PartialEq, Eq, Structural, Debug)]
pub enum ResolveError {
    ResolutionFailure,
}

/// The resolution of one value against the store's mapping, or `None` if
/// some referenced id is absent or of the wrong kind.  Literals resolve to
/// themselves; a nested bundle resolves child by child.
pub open spec fn resolve_value_view(v: ValueView, m: Map<u64, AssetValueView>) -> Option<
    ResolvedValueView,
>
    decreases v, 1int,
{
    match v {
        ValueView::Float32(b) => Some(ResolvedValueView::Float32(b)),
        ValueView::Uint32(u) => Some(ResolvedValueView::Uint32(u)),
        ValueView::Int32(i) => Some(ResolvedValueView::Int32(i)),
        ValueView::Ivec2(p) => Some(ResolvedValueView::Ivec2(p)),
        ValueView::Vec4(q) => Some(ResolvedValueView::Vec4(q)),
        ValueView::Bundle(children) => match resolve_holder_views(children, m) {
            Some(rs) => Some(ResolvedValueView::Bundle(rs)),
            None => None,
        },
        ValueView::Float32Asset(r) => if m.contains_key(r.id) {
            match m[r.id] {
                AssetValueView::Float32(b) => Some(ResolvedValueView::Float32Asset(b)),
                _ => None,
            }
        } else {
            None
        },
        ValueView::Uint32Asset(r) => if m.contains_key(r.id) {
            match m[r.id] {
                AssetValueView::Uint32(u) => Some(ResolvedValueView::Uint32Asset(u)),
                _ => None,
            }
        } else {
            None
        },
        ValueView::UsizeAsset(r) => if m.contains_key(r.id) {
            match m[r.id] {
                AssetValueView::Usize(u) => Some(ResolvedValueView::UsizeAsset(u)),
                _ => None,
            }
        } else {
            None
        },
        ValueView::TextureAsset(r) => if m.contains_key(r.id) {
            match m[r.id] {
                AssetValueView::Texture(t) => Some(ResolvedValueView::TextureAsset(t)),
                _ => None,
            }
        } else {
            None
        },
        ValueView::BufferAsset(r) => if m.contains_key(r.id) {
            match m[r.id] {
                AssetValueView::Buffer(b) => Some(ResolvedValueView::BufferAsset(b)),
                _ => None,
            }
        } else {
            None
        },
        ValueView::BundleAsset(r) => if m.contains_key(r.id) {
            match m[r.id] {
                AssetValueView::Bundle(rs) => Some(ResolvedValueView::BundleAsset(rs)),
                _ => None,
            }
        } else {
            None
        },
    }
}

/// The resolution of a holder sequence, in order, or `None` if any child
/// fails.
pub open spec fn resolve_holder_views(hs: Seq<HolderView>, m: Map<u64, AssetValueView>) -> Option<
    Seq<ResolvedHolderView>,
>
    decreases hs, 0int,
{
    if hs.len() == 0 {
        Some(Seq::empty())
    } else {
        match resolve_value_view(hs[0].value, m) {
            None => None,
            Some(rv) => match resolve_holder_views(hs.skip(1), m) {
                None => None,
                Some(rest) => Some(
                    seq![ResolvedHolderView { name: hs[0].name, value: rv }] + rest,
                ),
            },
        }
    }
}

/// A resolved bundle keeps its length, its names and its order: the `i`-th
/// resolved holder is the `i`-th input holder's name with its resolved
/// value.
pub proof fn lemma_resolution_preserves_order(hs: Seq<HolderView>, m: Map<u64, AssetValueView>)
    requires
        resolve_holder_views(hs, m) is Some,
    ensures
        resolve_holder_views(hs, m)->Some_0.len() == hs.len(),
        forall|i: int|
            0 <= i < hs.len() ==> (#[trigger] resolve_holder_views(hs, m)->Some_0[i]).name
                == hs[i].name,
        forall|i: int|
            0 <= i < hs.len() ==> Some((#[trigger] resolve_holder_views(hs, m)->Some_0[i]).value)
                == resolve_value_view(hs[i].value, m),
    decreases hs.len(),
{
    if hs.len() > 0 {
        lemma_resolution_preserves_order(hs.skip(1), m);
        let out = resolve_holder_views(hs, m)->Some_0;
        let rest = resolve_holder_views(hs.skip(1), m)->Some_0;
        assert forall|i: int| 0 <= i < hs.len() implies (#[trigger] out[i]).name == hs[i].name
            && Some(out[i].value) == resolve_value_view(hs[i].value, m) by {
            if i > 0 {
                assert(hs.skip(1)[i - 1] == hs[i]);
                assert(out[i] == rest[i - 1]);
            }
        }
    }
}

impl ShaderUniformValue {
    /// Resolves this value against the store: a literal is copied, an asset
    /// reference is replaced by the store's value for it, a nested bundle
    /// is resolved child by child.  Fails exactly when some referenced id
    /// is absent from the store or its value is of the wrong kind.
    pub fn resolve(&self, store: &AssetStore) -> (r: Result<
        ResolvedShaderUniformValue,
        ResolveError,
    >)
        ensures
            match r {
                Ok(rv) => resolve_value_view(self@, store@) == Some(rv@),
                Err(_) => resolve_value_view(self@, store@) is None,
            },
        decreases *self, 1int,
    {
        match self {
            ShaderUniformValue::Float32(b) => Ok(ResolvedShaderUniformValue::Float32(*b)),
            ShaderUniformValue::Uint32(u) => Ok(ResolvedShaderUniformValue::Uint32(*u)),
            ShaderUniformValue::Int32(i) => Ok(ResolvedShaderUniformValue::Int32(*i)),
            ShaderUniformValue::Ivec2(p) => Ok(ResolvedShaderUniformValue::Ivec2(*p)),
            ShaderUniformValue::Vec4(q) => Ok(ResolvedShaderUniformValue::Vec4(*q)),
            ShaderUniformValue::Bundle(children) => {
                proof {
                    assert(decreases_to!(*self, 1int => children@, 0int));
                }
                match resolve_holders(store, children) {
                    Ok(rs) => Ok(ResolvedShaderUniformValue::Bundle(rs)),
                    Err(e) => Err(e),
                }
            },
            ShaderUniformValue::Float32Asset(id) => match store.get(*id) {
                Some(AssetValue::Float32(b)) => Ok(ResolvedShaderUniformValue::Float32Asset(*b)),
                _ => Err(ResolveError::ResolutionFailure),
            },
            ShaderUniformValue::Uint32Asset(id) => match store.get(*id) {
                Some(AssetValue::Uint32(u)) => Ok(ResolvedShaderUniformValue::Uint32Asset(*u)),
                _ => Err(ResolveError::ResolutionFailure),
            },
            ShaderUniformValue::UsizeAsset(id) => match store.get(*id) {
                Some(AssetValue::Usize(u)) => Ok(ResolvedShaderUniformValue::UsizeAsset(*u)),
                _ => Err(ResolveError::ResolutionFailure),
            },
            ShaderUniformValue::TextureAsset(id) => match store.get(*id) {
                Some(AssetValue::Texture(t)) => Ok(ResolvedShaderUniformValue::TextureAsset(*t)),
                _ => Err(ResolveError::ResolutionFailure),
            },
            ShaderUniformValue::BufferAsset(id) => match store.get(*id) {
                Some(AssetValue::Buffer(b)) => Ok(ResolvedShaderUniformValue::BufferAsset(*b)),
                _ => Err(ResolveError::ResolutionFailure),
            },
            ShaderUniformValue::BundleAsset(id) => match store.get(*id) {
                Some(AssetValue::Bundle(rs)) => Ok(
                    ResolvedShaderUniformValue::BundleAsset(crate::uniforms::clone_resolved_holders(rs)),
                ),
                _ => Err(ResolveError::ResolutionFailure),
            },
        }
    }
}

impl ShaderUniformHolder {
    /// Resolves this holder: the name is kept, the value is resolved.
    pub fn resolve(&self, store: &AssetStore) -> (r: Result<
        ResolvedShaderUniformHolder,
        ResolveError,
    >)
        ensures
            match r {
                Ok(rh) => {
                    &&& rh@.name == self@.name
                    &&& resolve_value_view(self@.value, store@) == Some(rh@.value)
                },
                Err(_) => resolve_value_view(self@.value, store@) is None,
            },
        decreases *self,
    {
        match self.value.resolve(store) {
            Ok(rv) => Ok(ResolvedShaderUniformHolder { name: self.name.clone(), value: rv }),
            Err(e) => Err(e),
        }
    }
}

/// Resolves a whole bundle concurrently-resolvable holder by holder,
/// reassembling the results in the holders' original order.  If any
/// holder's resolution fails the whole resolution fails and partial
/// results are discarded.
pub fn resolve_holders(store: &AssetStore, uniforms: &Vec<ShaderUniformHolder>) -> (r: Result<
    Vec<ResolvedShaderUniformHolder>,
    ResolveError,
>)
    ensures
        match r {
            Ok(out) => resolve_holder_views(view_of_holders(uniforms@), store@) == Some(
                view_of_resolved_holders(out@),
            ),
            Err(_) => resolve_holder_views(view_of_holders(uniforms@), store@) is None,
        },
    decreases uniforms@, 0int,
{
    let ghost hv = view_of_holders(uniforms@);
    let ghost m = store@;
    proof {
        crate::uniforms::lemma_view_of_holders_index(uniforms@);
        assert(hv.skip(0) =~= hv);
    }
    let mut out: Vec<ResolvedShaderUniformHolder> = Vec::new();
    let n = uniforms.len();
    let mut i: usize = 0;
    while i < n
        invariant
            n == uniforms@.len(),
            i <= n,
            hv == view_of_holders(uniforms@),
            hv.len() == n,
            forall|j: int| 0 <= j < n ==> hv[j] == uniforms@[j]@,
            m == store@,
            match resolve_holder_views(hv.skip(i as int), m) {
                Some(rest) => resolve_holder_views(hv, m) == Some(
                    view_of_resolved_holders(out@) + rest,
                ),
                None => resolve_holder_views(hv, m) is None,
            },
        decreases n - i,
    {
        proof {
            assert(hv.skip(i as int)[0] == hv[i as int]);
            assert(hv.skip(i as int).skip(1) =~= hv.skip(i as int + 1));
            assert(decreases_to!(uniforms@, 0int => uniforms@[i as int], 2int));
        }
        let ghost pre = out@;
        match uniforms[i].resolve(store) {
            Ok(rh) => {
                out.push(rh);
                proof {
                    crate::uniforms::lemma_view_of_resolved_holders_push(pre, rh);
                    assert(view_of_resolved_holders(out@) == view_of_resolved_holders(pre) + seq![
                        rh@,
                    ]);
                    assert(match resolve_holder_views(hv.skip(i as int + 1), m) {
                        Some(rest2) => resolve_holder_views(hv, m) == Some(
                            view_of_resolved_holders(out@) + rest2,
                        ),
                        None => resolve_holder_views(hv, m) is None,
                    }) by {
                        match resolve_holder_views(hv.skip(i as int + 1), m) {
                            Some(rest2) => {
                                assert(resolve_holder_views(hv.skip(i as int), m) == Some(
                                    seq![ResolvedHolderView { name: hv[i as int].name, value: rh@.value }]
                                        + rest2,
                                ));
                                assert(view_of_resolved_holders(pre) + (seq![rh@] + rest2)
                                    =~= view_of_resolved_holders(out@) + rest2);
                            },
                            None => {},
                        }
                    }
                }
            },
            Err(e) => {
                return Err(e);
            },
        }
        i = i + 1;
    }
    proof {
        assert(hv.skip(n as int).len() == 0);
        assert(view_of_resolved_holders(out@) + Seq::<ResolvedHolderView>::empty()
            =~= view_of_resolved_holders(out@));
    }
    Ok(out)
}

} // verus!
