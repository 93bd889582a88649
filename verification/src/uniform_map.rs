//! The flat uniform map: uniform name to resolved value, built by draining
//! the flattener's `SetUniform` events.  A later write under the same name
//! overwrites an earlier one, matching the shadowing semantics of nested
//! scopes.

use vstd::prelude::*;

use crate::flatten::FlatEvent;
use crate::flatten::PlumberEvent;
use crate::flatten::events_view;
use crate::uniforms::ResolvedShaderUniformValue;
use crate::uniforms::ResolvedValueView;

verus! {

/// Mapping from uniform name to resolved value, scoped to one flattening
/// pass.  Its view is a `Map` from name to value view; a later insert under
/// the same name wins.
pub struct FlatUniformMap {
    entries: Vec<(String, ResolvedShaderUniformValue)>,
}

/// The map denoted by an entry sequence: every pair inserted in order.
pub open spec fn map_of_entries(s: Seq<(String, ResolvedShaderUniformValue)>) -> Map<
    Seq<char>,
    ResolvedValueView,
>
    decreases s.len(),
{
    if s.len() == 0 {
        Map::empty()
    } else {
        map_of_entries(s.drop_last()).insert(s.last().0@, s.last().1@)
    }
}

/// The map denoted by an event stream: every `SetUniform` inserted in
/// order; scope events do not touch the map.
pub open spec fn map_of_flat_events(s: Seq<FlatEvent>) -> Map<Seq<char>, ResolvedValueView>
    decreases s.len(),
{
    if s.len() == 0 {
        Map::empty()
    } else {
        match s.last() {
            FlatEvent::SetUniform { name, value } => map_of_flat_events(s.drop_last()).insert(
                name,
                value,
            ),
            _ => map_of_flat_events(s.drop_last()),
        }
    }
}

impl View for FlatUniformMap {
    type V = Map<Seq<char>, ResolvedValueView>;

    closed spec fn view(&self) -> Map<Seq<char>, ResolvedValueView> {
        map_of_entries(self.entries@)
    }
}

/// Entries from `j` on do not hold key `k`, so the map of `s` agrees with
/// the map of the first `j` entries on `k`.
proof fn lemma_map_of_entries_skip_absent(
    s: Seq<(String, ResolvedShaderUniformValue)>,
    k: Seq<char>,
    j: int,
)
    requires
        0 <= j <= s.len(),
        forall|m: int| j <= m < s.len() ==> s[m].0@ != k,
    ensures
        map_of_entries(s).contains_key(k) == map_of_entries(s.take(j)).contains_key(k),
        map_of_entries(s).contains_key(k) ==> map_of_entries(s)[k] == map_of_entries(s.take(j))[k],
    decreases s.len() - j,
{
    if j == s.len() {
        assert(s.take(j) =~= s);
    } else {
        lemma_map_of_entries_skip_absent(s, k, j + 1);
        let t = s.take(j + 1);
        assert(t.drop_last() =~= s.take(j));
        assert(t.last() == s[j]);
    }
}

impl FlatUniformMap {
    /// An empty map.
    pub fn new() -> (r: FlatUniformMap)
        ensures
            r@ == Map::<Seq<char>, ResolvedValueView>::empty(),
    {
        FlatUniformMap { entries: Vec::new() }
    }

    /// Binds `value` under `name`, overwriting any earlier binding.
    pub fn insert(&mut self, name: String, value: ResolvedShaderUniformValue)
        ensures
            final(self)@ == old(self)@.insert(name@, value@),
    {
        let ghost pre = self.entries@;
        proof {
            assert(pre.push((name, value)).drop_last() =~= pre);
        }
        self.entries.push((name, value));
    }

    /// Looks `name` up: the most recent binding, if any.
    pub fn get(&self, name: &String) -> (r: Option<&ResolvedShaderUniformValue>)
        ensures
            match r {
                Some(v) => self@.contains_key(name@) && v@ == self@[name@],
                None => !self@.contains_key(name@),
            },
    {
        let n = self.entries.len();
        let mut j = n;
        while j > 0
            invariant
                n == self.entries@.len(),
                j <= n,
                forall|m: int| j <= m < n ==> self.entries@[m].0@ != name@,
            decreases j,
        {
            j = j - 1;
            if self.entries[j].0 == *name {
                proof {
                    lemma_map_of_entries_skip_absent(self.entries@, name@, j + 1);
                    let t = self.entries@.take(j + 1);
                    assert(t.drop_last() =~= self.entries@.take(j as int));
                    assert(t.last() == self.entries@[j as int]);
                }
                return Some(&self.entries[j].1);
            }
        }
        proof {
            lemma_map_of_entries_skip_absent(self.entries@, name@, 0);
            assert(self.entries@.take(0) =~= Seq::<(String, ResolvedShaderUniformValue)>::empty());
        }
        None
    }
}

/// Drains an event stream into a [`FlatUniformMap`]: every `SetUniform`
/// event is inserted in order, so a later scope's write under the same name
/// wins.
pub fn build_flat_uniform_map(events: &Vec<PlumberEvent>) -> (r: FlatUniformMap)
    ensures
        r@ == map_of_flat_events(events_view(events@)),
{
    let ghost ev = events_view(events@);
    let mut map = FlatUniformMap::new();
    let n = events.len();
    let mut i: usize = 0;
    proof {
        assert(ev.take(0) =~= Seq::<FlatEvent>::empty());
    }
    while i < n
        invariant
            n == events@.len(),
            i <= n,
            ev == events_view(events@),
            ev.len() == n,
            map@ == map_of_flat_events(ev.take(i as int)),
        decreases n - i,
    {
        proof {
            let t = ev.take(i as int + 1);
            assert(t.drop_last() =~= ev.take(i as int));
            assert(t.last() == ev[i as int]);
            assert(ev[i as int] == events@[i as int]@);
        }
        match &events[i] {
            PlumberEvent::SetUniform { name, value } => {
                map.insert(name.clone(), value.clone());
            },
            _ => {},
        }
        i = i + 1;
    }
    proof {
        assert(ev.take(n as int) =~= ev);
    }
    map
}

} // verus!
