//! Flattening of a resolved, possibly nested bundle into an ordered event
//! stream with scope semantics.
//!
//! Within one bundle level every non-bundle holder is emitted first, in
//! input order (a texture emits its `_size` uniform immediately before
//! itself); after that, every bundle-valued holder opens a scope, is
//! flattened recursively, and closes the scope.  Flat values thus become
//! visible to consumers before any nested scope opens.

use vstd::prelude::*;

use crate::uniforms::ResolvedHolderView;
use crate::uniforms::ResolvedShaderUniformHolder;
use crate::uniforms::ResolvedShaderUniformValue;
use crate::uniforms::ResolvedValueView;
use crate::uniforms::lemma_view_of_resolved_holders_index;
use crate::uniforms::view_of_resolved_holders;

verus! {

/// One event of the flattened uniform stream.
#[derive(Debug)]
pub enum PlumberEvent {
    /// Bind `value` under `name` in the current scope.
    SetUniform { name: String, value: ResolvedShaderUniformValue },
    /// A nested bundle begins.
    EnterScope,
    /// The most recently opened nested bundle ends.
    LeaveScope,
}

/// Mathematical view of a [`PlumberEvent`].
pub enum FlatEvent {
    SetUniform { name: Seq<char>, value: ResolvedValueView },
    EnterScope,
    LeaveScope,
}

impl View for PlumberEvent {
    type V = FlatEvent;

    open spec fn view(&self) -> FlatEvent {
        match self {
            PlumberEvent::SetUniform { name, value } => FlatEvent::SetUniform {
                name: name@,
                value: value@,
            },
            PlumberEvent::EnterScope => FlatEvent::EnterScope,
            PlumberEvent::LeaveScope => FlatEvent::LeaveScope,
        }
    }
}

/// The views of an event sequence, in order.
pub open spec fn events_view(s: Seq<PlumberEvent>) -> Seq<FlatEvent> {
    s.map_values(|e: PlumberEvent| e@)
}

/// The events one holder contributes in the value phase: nothing for a
/// bundle-valued holder, the `_size` uniform followed by the texture for a
/// texture, and a single `Set` otherwise.
pub open spec fn set_events(name: Seq<char>, v: ResolvedValueView) -> Seq<FlatEvent> {
    match v {
        ResolvedValueView::Bundle(_) => seq![],
        ResolvedValueView::BundleAsset(_) => seq![],
        ResolvedValueView::TextureAsset(t) => seq![
            FlatEvent::SetUniform { name: name + "_size"@, value: ResolvedValueView::Vec4(t.size_bits) },
            FlatEvent::SetUniform { name: name, value: ResolvedValueView::TextureAsset(t) },
        ],
        _ => seq![FlatEvent::SetUniform { name: name, value: v }],
    }
}

/// The value-phase events of one bundle level: every non-bundle holder, in
/// input order.
pub open spec fn leading_events(hs: Seq<ResolvedHolderView>) -> Seq<FlatEvent>
    decreases hs.len(),
{
    if hs.len() == 0 {
        seq![]
    } else {
        set_events(hs[0].name, hs[0].value) + leading_events(hs.skip(1))
    }
}

/// The scope-phase events of one bundle level: for every bundle-valued
/// holder, in input order, an `Enter`, the nested bundle's own flattening,
/// and a `Leave`.
pub open spec fn scope_events(hs: Seq<ResolvedHolderView>) -> Seq<FlatEvent>
    decreases hs, 0int,
{
    if hs.len() == 0 {
        seq![]
    } else {
        (match hs[0].value {
            ResolvedValueView::Bundle(b) => seq![FlatEvent::EnterScope] + flat_events(b) + seq![
                FlatEvent::LeaveScope,
            ],
            ResolvedValueView::BundleAsset(b) => seq![FlatEvent::EnterScope] + flat_events(b) + seq![
                FlatEvent::LeaveScope,
            ],
            _ => seq![],
        }) + scope_events(hs.skip(1))
    }
}

/// The full flattening of one bundle level: the value phase, then the scope
/// phase.
pub open spec fn flat_events(hs: Seq<ResolvedHolderView>) -> Seq<FlatEvent>
    decreases hs, 1int,
{
    leading_events(hs) + scope_events(hs)
}

/// Appending one event appends its view.
pub proof fn lemma_events_view_push(s: Seq<PlumberEvent>, e: PlumberEvent)
    ensures
        events_view(s.push(e)) == events_view(s) + seq![e@],
{
    assert(events_view(s.push(e)) =~= events_view(s) + seq![e@]);
}

/// Flattens a resolved bundle, appending its event stream to `sink`.
pub fn flatten_uniforms(
    uniforms: &Vec<ResolvedShaderUniformHolder>,
    sink: &mut Vec<PlumberEvent>,
)
    ensures
        events_view(final(sink)@) == events_view(old(sink)@) + flat_events(
            view_of_resolved_holders(uniforms@),
        ),
    decreases uniforms@,
{
    let ghost hv = view_of_resolved_holders(uniforms@);
    let ghost sink0 = sink@;
    proof {
        lemma_view_of_resolved_holders_index(uniforms@);
        assert(hv.skip(0) =~= hv);
    }
    let n = uniforms.len();

    let mut i: usize = 0;
    while i < n
        invariant
            n == uniforms@.len(),
            i <= n,
            hv == view_of_resolved_holders(uniforms@),
            hv.len() == n,
            forall|j: int| 0 <= j < n ==> hv[j] == uniforms@[j]@,
            events_view(sink@) + leading_events(hv.skip(i as int)) == events_view(sink0)
                + leading_events(hv),
        decreases n - i,
    {
        let ghost pre = sink@;
        let ghost evs = set_events(hv[i as int].name, hv[i as int].value);
        proof {
            assert(hv.skip(i as int)[0] == hv[i as int]);
            assert(hv.skip(i as int).skip(1) =~= hv.skip(i as int + 1));
            assert(leading_events(hv.skip(i as int)) == evs + leading_events(
                hv.skip(i as int + 1),
            ));
        }
        let holder = &uniforms[i];
        match &holder.value {
            ResolvedShaderUniformValue::Bundle(_) => {
                proof {
                    assert(evs =~= Seq::<FlatEvent>::empty());
                    assert(events_view(sink@) + leading_events(hv.skip(i as int + 1))
                        =~= events_view(sink@) + leading_events(hv.skip(i as int)));
                }
            },
            ResolvedShaderUniformValue::BundleAsset(_) => {
                proof {
                    assert(evs =~= Seq::<FlatEvent>::empty());
                    assert(events_view(sink@) + leading_events(hv.skip(i as int + 1))
                        =~= events_view(sink@) + leading_events(hv.skip(i as int)));
                }
            },
            ResolvedShaderUniformValue::TextureAsset(t) => {
                let size_name = holder.name.clone().concat("_size");
                let tex = *t;
                let e1 = PlumberEvent::SetUniform {
                    name: size_name,
                    value: ResolvedShaderUniformValue::Vec4(tex.size_bits),
                };
                let e2 = PlumberEvent::SetUniform {
                    name: holder.name.clone(),
                    value: ResolvedShaderUniformValue::TextureAsset(tex),
                };
                proof {
                    lemma_events_view_push(sink@, e1);
                    lemma_events_view_push(sink@.push(e1), e2);
                }
                sink.push(e1);
                sink.push(e2);
                proof {
                    assert(events_view(sink@) =~= events_view(pre) + evs);
                    assert(events_view(sink@) + leading_events(hv.skip(i as int + 1))
                        =~= events_view(pre) + leading_events(hv.skip(i as int)));
                }
            },
            _ => {
                let e = PlumberEvent::SetUniform {
                    name: holder.name.clone(),
                    value: holder.value.clone(),
                };
                proof {
                    lemma_events_view_push(sink@, e);
                }
                sink.push(e);
                proof {
                    assert(events_view(sink@) =~= events_view(pre) + evs);
                    assert(events_view(sink@) + leading_events(hv.skip(i as int + 1))
                        =~= events_view(pre) + leading_events(hv.skip(i as int)));
                }
            },
        }
        i = i + 1;
    }
    proof {
        assert(hv.skip(n as int).len() == 0);
        assert(events_view(sink@) + leading_events(hv.skip(n as int)) =~= events_view(sink@));
        assert(hv.skip(0) =~= hv);
    }

    let ghost sink1 = sink@;
    let mut i: usize = 0;
    while i < n
        invariant
            n == uniforms@.len(),
            i <= n,
            hv == view_of_resolved_holders(uniforms@),
            hv.len() == n,
            forall|j: int| 0 <= j < n ==> hv[j] == uniforms@[j]@,
            events_view(sink1) == events_view(sink0) + leading_events(hv),
            events_view(sink@) + scope_events(hv.skip(i as int)) == events_view(sink1)
                + scope_events(hv),
        decreases n - i,
    {
        let ghost pre = sink@;
        proof {
            assert(hv.skip(i as int)[0] == hv[i as int]);
            assert(hv.skip(i as int).skip(1) =~= hv.skip(i as int + 1));
        }
        let holder = &uniforms[i];
        match &holder.value {
            ResolvedShaderUniformValue::Bundle(b) | ResolvedShaderUniformValue::BundleAsset(b) => {
                let ghost bview = view_of_resolved_holders(b@);
                proof {
                    assert(decreases_to!(uniforms@ => b@));
                    lemma_events_view_push(sink@, PlumberEvent::EnterScope);
                }
                sink.push(PlumberEvent::EnterScope);
                let ghost mid1 = sink@;
                flatten_uniforms(b, sink);
                proof {
                    lemma_events_view_push(sink@, PlumberEvent::LeaveScope);
                }
                sink.push(PlumberEvent::LeaveScope);
                proof {
                    assert(events_view(sink@) =~= events_view(pre) + (seq![FlatEvent::EnterScope]
                        + flat_events(bview) + seq![FlatEvent::LeaveScope]));
                    assert(scope_events(hv.skip(i as int)) == (seq![FlatEvent::EnterScope]
                        + flat_events(bview) + seq![FlatEvent::LeaveScope]) + scope_events(
                        hv.skip(i as int + 1),
                    ));
                    assert(events_view(sink@) + scope_events(hv.skip(i as int + 1))
                        =~= events_view(pre) + scope_events(hv.skip(i as int)));
                }
            },
            _ => {
                proof {
                    assert(scope_events(hv.skip(i as int)) == scope_events(hv.skip(i as int + 1)));
                }
            },
        }
        i = i + 1;
    }
    proof {
        assert(hv.skip(n as int).len() == 0);
        assert(events_view(sink@) + scope_events(hv.skip(n as int)) =~= events_view(sink@));
        assert(events_view(sink@) =~= events_view(sink0) + flat_events(hv));
    }
}

/// How one event changes the scope depth.
pub open spec fn scope_delta(e: FlatEvent) -> int {
    match e {
        FlatEvent::EnterScope => 1int,
        FlatEvent::LeaveScope => -1int,
        _ => 0int,
    }
}

/// The scope depth after a stream: enters minus leaves.
pub open spec fn depth_after(s: Seq<FlatEvent>) -> int
    decreases s.len(),
{
    if s.len() == 0 {
        0
    } else {
        depth_after(s.drop_last()) + scope_delta(s.last())
    }
}

/// How many `EnterScope` events a stream holds.
pub open spec fn count_enters(s: Seq<FlatEvent>) -> int
    decreases s.len(),
{
    if s.len() == 0 {
        0
    } else {
        count_enters(s.drop_last()) + if s.last() is EnterScope {
            1int
        } else {
            0int
        }
    }
}

/// How many `LeaveScope` events a stream holds.
pub open spec fn count_leaves(s: Seq<FlatEvent>) -> int
    decreases s.len(),
{
    if s.len() == 0 {
        0
    } else {
        count_leaves(s.drop_last()) + if s.last() is LeaveScope {
            1int
        } else {
            0int
        }
    }
}

/// A stream is stack-balanced: enters and leaves cancel out, and no prefix
/// closes a scope that was never opened.
pub open spec fn balanced(s: Seq<FlatEvent>) -> bool {
    &&& depth_after(s) == 0
    &&& forall|i: int| 0 <= i <= s.len() ==> depth_after(#[trigger] s.take(i)) >= 0
}

/// How many bundle-valued holders a bundle holds, at every nesting level
/// combined.
pub open spec fn bundle_count(hs: Seq<ResolvedHolderView>) -> int
    decreases hs, 0int,
{
    if hs.len() == 0 {
        0
    } else {
        (match hs[0].value {
            ResolvedValueView::Bundle(b) => 1 + bundle_count(b),
            ResolvedValueView::BundleAsset(b) => 1 + bundle_count(b),
            _ => 0int,
        }) + bundle_count(hs.skip(1))
    }
}

/// Depth and scope-event counts add up over concatenation.
proof fn lemma_event_sums_concat(a: Seq<FlatEvent>, b: Seq<FlatEvent>)
    ensures
        depth_after(a + b) == depth_after(a) + depth_after(b),
        count_enters(a + b) == count_enters(a) + count_enters(b),
        count_leaves(a + b) == count_leaves(a) + count_leaves(b),
    decreases b.len(),
{
    if b.len() == 0 {
        assert(a + b =~= a);
    } else {
        lemma_event_sums_concat(a, b.drop_last());
        assert((a + b).drop_last() =~= a + b.drop_last());
        assert((a + b).last() == b.last());
    }
}

/// Concatenating balanced streams yields a balanced stream.
proof fn lemma_balanced_concat(a: Seq<FlatEvent>, b: Seq<FlatEvent>)
    requires
        balanced(a),
        balanced(b),
    ensures
        balanced(a + b),
{
    lemma_event_sums_concat(a, b);
    assert forall|i: int| 0 <= i <= (a + b).len() implies depth_after((a + b).take(i)) >= 0 by {
        if i <= a.len() {
            assert((a + b).take(i) =~= a.take(i));
        } else {
            assert((a + b).take(i) =~= a + b.take(i - a.len()));
            lemma_event_sums_concat(a, b.take(i - a.len()));
        }
    }
}

/// A stream of only `SetUniform` events neither opens nor closes scopes.
proof fn lemma_all_flat_sums(s: Seq<FlatEvent>)
    requires
        forall|i: int| 0 <= i < s.len() ==> scope_delta(#[trigger] s[i]) == 0,
    ensures
        depth_after(s) == 0,
        count_enters(s) == 0,
        count_leaves(s) == 0,
    decreases s.len(),
{
    if s.len() > 0 {
        lemma_all_flat_sums(s.drop_last());
        assert(scope_delta(s.last()) == 0);
    }
}

/// A stream of only `SetUniform` events is balanced.
proof fn lemma_all_flat_balanced(s: Seq<FlatEvent>)
    requires
        forall|i: int| 0 <= i < s.len() ==> scope_delta(#[trigger] s[i]) == 0,
    ensures
        depth_after(s) == 0,
        count_enters(s) == 0,
        count_leaves(s) == 0,
        balanced(s),
{
    lemma_all_flat_sums(s);
    assert forall|i: int| 0 <= i <= s.len() implies depth_after(#[trigger] s.take(i)) >= 0 by {
        lemma_all_flat_sums(s.take(i));
    }
}

/// The value-phase events of one holder are all `SetUniform`.
proof fn lemma_set_events_flat(name: Seq<char>, v: ResolvedValueView)
    ensures
        forall|i: int| 0 <= i < set_events(name, v).len() ==> scope_delta(
            #[trigger] set_events(name, v)[i],
        ) == 0,
{
}

/// The whole value phase of one level is `SetUniform` events only, hence
/// balanced and scope-free.
proof fn lemma_leading_events_flat(hs: Seq<ResolvedHolderView>)
    ensures
        forall|i: int| 0 <= i < leading_events(hs).len() ==> scope_delta(
            #[trigger] leading_events(hs)[i],
        ) == 0,
        depth_after(leading_events(hs)) == 0,
        count_enters(leading_events(hs)) == 0,
        count_leaves(leading_events(hs)) == 0,
        balanced(leading_events(hs)),
    decreases hs.len(),
{
    if hs.len() > 0 {
        lemma_leading_events_flat(hs.skip(1));
        lemma_set_events_flat(hs[0].name, hs[0].value);
        assert forall|i: int| 0 <= i < leading_events(hs).len() implies scope_delta(
            #[trigger] leading_events(hs)[i],
        ) == 0 by {
            let e = set_events(hs[0].name, hs[0].value);
            if i < e.len() {
                assert(leading_events(hs)[i] == e[i]);
            } else {
                assert(leading_events(hs)[i] == leading_events(hs.skip(1))[i - e.len()]);
            }
        }
    }
    lemma_all_flat_balanced(leading_events(hs));
}

/// Wrapping a balanced stream in one `EnterScope`/`LeaveScope` pair keeps
/// it balanced and adds one to each scope count.
proof fn lemma_balanced_wrap(x: Seq<FlatEvent>)
    requires
        balanced(x),
    ensures
        balanced(seq![FlatEvent::EnterScope] + x + seq![FlatEvent::LeaveScope]),
        count_enters(seq![FlatEvent::EnterScope] + x + seq![FlatEvent::LeaveScope])
            == count_enters(x) + 1,
        count_leaves(seq![FlatEvent::EnterScope] + x + seq![FlatEvent::LeaveScope])
            == count_leaves(x) + 1,
        depth_after(seq![FlatEvent::EnterScope] + x + seq![FlatEvent::LeaveScope]) == 0,
{
    let e = seq![FlatEvent::EnterScope];
    let l = seq![FlatEvent::LeaveScope];
    let emp = Seq::<FlatEvent>::empty();
    assert(depth_after(emp) == 0);
    assert(count_enters(emp) == 0);
    assert(count_leaves(emp) == 0);
    assert(e.drop_last() =~= emp);
    assert(l.drop_last() =~= emp);
    assert(e.last() == FlatEvent::EnterScope);
    assert(l.last() == FlatEvent::LeaveScope);
    assert(depth_after(e) == 1);
    assert(depth_after(l) == -1);
    assert(count_enters(e) == 1 && count_leaves(e) == 0);
    assert(count_enters(l) == 0 && count_leaves(l) == 1);
    lemma_event_sums_concat(e, x);
    lemma_event_sums_concat(e + x, l);
    let w = e + x + l;
    assert forall|i: int| 0 <= i <= w.len() implies depth_after(#[trigger] w.take(i)) >= 0 by {
        if i == 0 {
            assert(w.take(0) =~= Seq::<FlatEvent>::empty());
        } else if i <= 1 + x.len() {
            assert(w.take(i) =~= e + x.take(i - 1));
            lemma_event_sums_concat(e, x.take(i - 1));
        } else {
            assert(w.take(i) =~= w);
        }
    }
}

/// The scope phase of one level opens and closes one balanced scope per
/// bundle-valued holder, at every nesting level combined.
proof fn lemma_scope_events_props(hs: Seq<ResolvedHolderView>)
    ensures
        count_enters(scope_events(hs)) == bundle_count(hs),
        count_leaves(scope_events(hs)) == bundle_count(hs),
        balanced(scope_events(hs)),
    decreases hs, 0int,
{
    if hs.len() == 0 {
        assert(scope_events(hs).take(0) =~= Seq::<FlatEvent>::empty());
    } else {
        let head = match hs[0].value {
            ResolvedValueView::Bundle(b) => seq![FlatEvent::EnterScope] + flat_events(b) + seq![
                FlatEvent::LeaveScope,
            ],
            ResolvedValueView::BundleAsset(b) => seq![FlatEvent::EnterScope] + flat_events(b)
                + seq![FlatEvent::LeaveScope],
            _ => seq![],
        };
        match hs[0].value {
            ResolvedValueView::Bundle(b) => {
                lemma_flat_events_props(b);
                lemma_balanced_wrap(flat_events(b));
            },
            ResolvedValueView::BundleAsset(b) => {
                lemma_flat_events_props(b);
                lemma_balanced_wrap(flat_events(b));
            },
            _ => {
                assert(head.take(0) =~= Seq::<FlatEvent>::empty());
            },
        }
        lemma_scope_events_props(hs.skip(1));
        lemma_event_sums_concat(head, scope_events(hs.skip(1)));
        lemma_balanced_concat(head, scope_events(hs.skip(1)));
    }
}

/// The flattening of a bundle is stack-balanced, and its `EnterScope` and
/// `LeaveScope` events each number exactly the bundle-valued holders at
/// every nesting level combined.
pub proof fn lemma_flat_events_props(hs: Seq<ResolvedHolderView>)
    ensures
        count_enters(flat_events(hs)) == bundle_count(hs),
        count_leaves(flat_events(hs)) == bundle_count(hs),
        balanced(flat_events(hs)),
    decreases hs, 1int,
{
    lemma_leading_events_flat(hs);
    lemma_scope_events_props(hs);
    lemma_event_sums_concat(leading_events(hs), scope_events(hs));
    lemma_balanced_concat(leading_events(hs), scope_events(hs));
}

/// A holder whose value opens no scope and emits exactly one event: not a
/// bundle, not a bundle asset, not a texture.
pub open spec fn is_single_event_value(v: ResolvedValueView) -> bool {
    !(v is Bundle) && !(v is BundleAsset) && !(v is TextureAsset)
}

/// Flattening a bundle of single-event literal holders yields exactly one
/// `SetUniform` per holder, in input order, and no scope events at all.
pub proof fn lemma_flatten_literal_bundle(hs: Seq<ResolvedHolderView>)
    requires
        forall|i: int| 0 <= i < hs.len() ==> is_single_event_value((#[trigger] hs[i]).value),
    ensures
        flat_events(hs).len() == hs.len(),
        forall|i: int|
            0 <= i < hs.len() ==> flat_events(hs)[i] == (FlatEvent::SetUniform {
                name: hs[i].name,
                value: hs[i].value,
            }),
    decreases hs.len(),
{
    assert(scope_events(hs) =~= Seq::<FlatEvent>::empty()) by {
        lemma_scope_events_empty(hs);
    }
    lemma_leading_literal(hs);
    assert(flat_events(hs) =~= leading_events(hs));
}

/// A bundle without bundle-valued holders has an empty scope phase.
proof fn lemma_scope_events_empty(hs: Seq<ResolvedHolderView>)
    requires
        forall|i: int|
            0 <= i < hs.len() ==> !((#[trigger] hs[i]).value is Bundle) && !(hs[i].value
                is BundleAsset),
    ensures
        scope_events(hs).len() == 0,
    decreases hs, 0int,
{
    if hs.len() > 0 {
        assert forall|i: int|
            0 <= i < hs.skip(1).len() implies !((#[trigger] hs.skip(1)[i]).value is Bundle) && !(
        hs.skip(1)[i].value is BundleAsset) by {
            assert(hs.skip(1)[i] == hs[i + 1]);
        }
        lemma_scope_events_empty(hs.skip(1));
    }
}

/// The value phase of a single-event bundle is one `SetUniform` per
/// holder, in order.
proof fn lemma_leading_literal(hs: Seq<ResolvedHolderView>)
    requires
        forall|i: int| 0 <= i < hs.len() ==> is_single_event_value((#[trigger] hs[i]).value),
    ensures
        leading_events(hs).len() == hs.len(),
        forall|i: int|
            0 <= i < hs.len() ==> leading_events(hs)[i] == (FlatEvent::SetUniform {
                name: hs[i].name,
                value: hs[i].value,
            }),
    decreases hs.len(),
{
    if hs.len() > 0 {
        assert forall|i: int|
            0 <= i < hs.skip(1).len() implies is_single_event_value(
            (#[trigger] hs.skip(1)[i]).value,
        ) by {
            assert(hs.skip(1)[i] == hs[i + 1]);
        }
        lemma_leading_literal(hs.skip(1));
        assert(set_events(hs[0].name, hs[0].value) =~= seq![
            FlatEvent::SetUniform { name: hs[0].name, value: hs[0].value },
        ]);
        assert forall|i: int|
            0 <= i < hs.len() implies leading_events(hs)[i] == (FlatEvent::SetUniform {
            name: hs[i].name,
            value: hs[i].value,
        }) by {
            if i > 0 {
                assert(leading_events(hs)[i] == leading_events(hs.skip(1))[i - 1]);
                assert(hs.skip(1)[i - 1] == hs[i]);
            }
        }
    }
}

/// The value phase splits at any position.
proof fn lemma_leading_split(hs: Seq<ResolvedHolderView>, i: int)
    requires
        0 <= i <= hs.len(),
    ensures
        leading_events(hs) == leading_events(hs.take(i)) + leading_events(hs.skip(i)),
    decreases i,
{
    if i == 0 {
        assert(hs.take(0) =~= Seq::<ResolvedHolderView>::empty());
        assert(hs.skip(0) =~= hs);
        assert(leading_events(hs.take(0)) + leading_events(hs) =~= leading_events(hs));
    } else {
        lemma_leading_split(hs.skip(1), i - 1);
        assert(hs.skip(1).take(i - 1) =~= hs.take(i).skip(1));
        assert(hs.skip(1).skip(i - 1) =~= hs.skip(i));
        assert(hs.take(i)[0] == hs[0]);
        assert(hs.take(i).len() > 0);
        assert(leading_events(hs.take(i)) == set_events(hs[0].name, hs[0].value) + leading_events(
            hs.take(i).skip(1),
        ));
        assert(leading_events(hs) == set_events(hs[0].name, hs[0].value) + (leading_events(
            hs.take(i).skip(1),
        ) + leading_events(hs.skip(i))));
        assert(set_events(hs[0].name, hs[0].value) + (leading_events(hs.take(i).skip(1))
            + leading_events(hs.skip(i))) =~= (set_events(hs[0].name, hs[0].value)
            + leading_events(hs.take(i).skip(1))) + leading_events(hs.skip(i)));
    }
}

/// A texture holder's `_size` uniform is emitted immediately before the
/// texture itself: at the position right after the value-phase events of
/// the holders before it.
pub proof fn lemma_flatten_texture_adjacent(hs: Seq<ResolvedHolderView>, i: int)
    requires
        0 <= i < hs.len(),
        hs[i].value is TextureAsset,
    ensures
        ({
            let t = hs[i].value->TextureAsset_0;
            let j = leading_events(hs.take(i)).len() as int;
            &&& j + 2 <= flat_events(hs).len()
            &&& flat_events(hs)[j] == (FlatEvent::SetUniform {
                name: hs[i].name + "_size"@,
                value: ResolvedValueView::Vec4(t.size_bits),
            })
            &&& flat_events(hs)[j + 1] == (FlatEvent::SetUniform {
                name: hs[i].name,
                value: ResolvedValueView::TextureAsset(t),
            })
        }),
{
    let t = hs[i].value->TextureAsset_0;
    let j = leading_events(hs.take(i)).len() as int;
    lemma_leading_split(hs, i);
    assert(hs.skip(i)[0] == hs[i]);
    assert(hs.skip(i).len() > 0);
    assert(hs.skip(i).skip(1) =~= hs.skip(i + 1));
    let e2 = set_events(hs[i].name, hs[i].value);
    assert(e2.len() == 2);
    assert(leading_events(hs.skip(i)) == e2 + leading_events(hs.skip(i + 1)));
    assert(leading_events(hs)[j] == leading_events(hs.skip(i))[0]);
    assert(leading_events(hs)[j + 1] == leading_events(hs.skip(i))[1]);
    assert(flat_events(hs)[j] == leading_events(hs)[j]);
    assert(flat_events(hs)[j + 1] == leading_events(hs)[j + 1]);
}
} // verus!
