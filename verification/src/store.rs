//! The entity/component store that the typed overlay is built on: entity
//! identities, component values addressed by numeric component ids, and the
//! world that holds them. The abstract state of a world is a map from
//! `(entity id, component id)` pairs to component values.

use vstd::prelude::*;

verus! {

/// An opaque, comparable, copyable identity of a live or pending record in
/// the store.
#[derive(Clone, Copy, PartialEq, Eq, Structural, Debug, Hash)]
pub struct Entity {
    /// The raw identifier. Fresh entities receive consecutive identifiers.
    pub id: u64,
}

/// A component value. Components are addressed by a numeric component id;
/// the value is the typed payload stored under that id.
#[derive(PartialEq, Eq, Debug)]
pub enum Value {
    /// A marker payload carrying no data, as used by kind markers.
    Flag,
    /// An integer payload.
    Int(i64),
    /// A text payload.
    Text(String),
    /// A payload holding references to other entities.
    Links(Vec<Entity>),
}

/// The mathematical value of a [`Value`].
pub enum ValueView {
    Flag,
    Int(int),
    Text(Seq<char>),
    Links(Seq<Entity>),
}

impl View for Value {
    type V = ValueView;

    open spec fn view(&self) -> ValueView {
        match self {
            Value::Flag => ValueView::Flag,
            Value::Int(x) => ValueView::Int(*x as int),
            Value::Text(s) => ValueView::Text(s@),
            Value::Links(v) => ValueView::Links(v@),
        }
    }
}

impl Clone for Value {
    /// Cloning a component value preserves its mathematical value.
    fn clone(&self) -> (r: Self)
        ensures
            r@ == self@,
    {
        match self {
            Value::Flag => Value::Flag,
            Value::Int(x) => Value::Int(*x),
            Value::Text(s) => Value::Text(s.clone()),
            Value::Links(v) => {
                let r = v.clone();
                proof {
                    assert(r@ =~= v@);
                }
                Value::Links(r)
            },
        }
    }
}

/// A component: a numeric component id together with its value.
#[derive(PartialEq, Eq, Debug)]
pub struct Component {
    /// The component id, which plays the role of the component's type.
    pub id: u64,
    /// The stored payload.
    pub value: Value,
}

/// The mathematical value of a [`Component`].
pub struct ComponentView {
    pub id: int,
    pub value: ValueView,
}

impl View for Component {
    type V = ComponentView;

    open spec fn view(&self) -> ComponentView {
        ComponentView { id: self.id as int, value: self.value@ }
    }
}

impl Clone for Component {
    /// Cloning a component preserves its mathematical value.
    fn clone(&self) -> (r: Self)
        ensures
            r@ == self@,
    {
        Component { id: self.id, value: self.value.clone() }
    }
}

impl Component {
    /// Builds a component from an id and a value.
    pub fn new(id: u64, value: Value) -> (r: Component)
        ensures
            r@ == (ComponentView { id: id as int, value: value@ }),
    {
        Component { id, value }
    }
}

/// The mathematical values of a sequence of components.
pub open spec fn comps_view(s: Seq<Component>) -> Seq<ComponentView> {
    s.map(|i: int, c: Component| c@)
}

/// The component ids of a sequence of component values.
pub open spec fn comp_ids(s: Seq<ComponentView>) -> Seq<int> {
    s.map(|i: int, c: ComponentView| c.id)
}

/// Mapping a pushed component to its value appends that value.
pub proof fn lemma_comps_view_push(s: Seq<Component>, x: Component)
    ensures
        comps_view(s.push(x)) == comps_view(s).push(x@),
{
    assert(comps_view(s.push(x)) =~= comps_view(s).push(x@));
}

/// One attachment record of the world's component table.
type Entry = (Entity, u64, Value);

/// The map described by a sequence of attachment records; a later record for
/// the same `(entity, component)` pair shadows an earlier one.
pub open spec fn table_map(t: Seq<Entry>) -> Map<(int, int), ValueView>
    decreases t.len(),
{
    if t.len() == 0 {
        Map::empty()
    } else {
        table_map(t.drop_last()).insert(
            (t.last().0.id as int, t.last().1 as int),
            t.last().2@,
        )
    }
}

/// The store: entity allocation and component attachment. Its abstract state
/// is [`World::contents`], a map from `(entity id, component id)` to the
/// attached value, together with [`World::next_id`], the next fresh entity
/// identifier.
pub struct World {
    next: u64,
    table: Vec<Entry>,
}

impl World {
    /// The next fresh entity identifier; entities with a smaller identifier
    /// are live.
    pub closed spec fn next_id(self) -> int {
        self.next as int
    }

    /// The components attached in this world, as a map from
    /// `(entity id, component id)` to the attached value.
    pub closed spec fn contents(self) -> Map<(int, int), ValueView> {
        table_map(self.table@)
    }

    /// Well-formedness: every attachment belongs to a live entity.
    pub closed spec fn wf(self) -> bool {
        forall|i: int| 0 <= i < self.table@.len() ==> (#[trigger] self.table@[i]).0.id < self.next
    }

    /// Creates an empty world.
    pub fn new() -> (r: World)
        ensures
            r.wf(),
            r.next_id() == 0,
            r.contents() == Map::<(int, int), ValueView>::empty(),
    {
        World { next: 0, table: Vec::new() }
    }

    /// The next fresh entity identifier, as a raw value.
    pub fn fresh_id(&self) -> (r: u64)
        ensures
            r as int == self.next_id(),
    {
        self.next
    }

    /// Whether `e` carries a component with id `c`.
    pub fn contains(&self, e: Entity, c: u64) -> (r: bool)
        ensures
            r == self.contents().contains_key((e.id as int, c as int)),
    {
        let mut i: usize = self.table.len();
        while i > 0
            invariant
                i <= self.table@.len(),
                forall|j: int|
                    i <= j < self.table@.len()
                        ==> !((#[trigger] self.table@[j]).0.id == e.id && self.table@[j].1 == c),
            decreases i,
        {
            i = i - 1;
            if self.table[i].0.id == e.id && self.table[i].1 == c {
                proof {
                    lemma_table_map_found(self.table@, i as int);
                }
                return true;
            }
        }
        proof {
            lemma_table_map_absent(self.table@, e.id as int, c as int);
        }
        false
    }

    /// The value of component `c` on entity `e`, if attached.
    pub fn get(&self, e: Entity, c: u64) -> (r: Option<&Value>)
        ensures
            match r {
                Some(v) => self.contents().contains_key((e.id as int, c as int))
                    && v@ == self.contents()[(e.id as int, c as int)],
                None => !self.contents().contains_key((e.id as int, c as int)),
            },
    {
        let mut i: usize = self.table.len();
        while i > 0
            invariant
                i <= self.table@.len(),
                forall|j: int|
                    i <= j < self.table@.len()
                        ==> !((#[trigger] self.table@[j]).0.id == e.id && self.table@[j].1 == c),
            decreases i,
        {
            i = i - 1;
            if self.table[i].0.id == e.id && self.table[i].1 == c {
                proof {
                    lemma_table_map_found(self.table@, i as int);
                }
                return Some(&self.table[i].2);
            }
        }
        proof {
            lemma_table_map_absent(self.table@, e.id as int, c as int);
        }
        None
    }

    /// Attaches `comp` to the live entity `e`, replacing any value already
    /// stored under the same component id.
    pub fn insert(&mut self, e: Entity, comp: Component)
        requires
            old(self).wf(),
            e.id < old(self).next_id(),
        ensures
            final(self).wf(),
            final(self).next_id() == old(self).next_id(),
            final(self).contents() == old(self).contents().insert(
                (e.id as int, comp@.id),
                comp@.value,
            ),
    {
        let ghost t0 = self.table@;
        self.table.push((e, comp.id, comp.value));
        proof {
            assert(self.table@.drop_last() =~= t0);
        }
    }

    /// Commits entity reservations by raising the next fresh identifier.
    pub(crate) fn advance_next(&mut self, n: u64)
        requires
            old(self).wf(),
            old(self).next_id() <= n as int,
        ensures
            final(self).wf(),
            final(self).next_id() == n as int,
            final(self).contents() == old(self).contents(),
    {
        self.next = n;
    }

    /// Every attached component belongs to a live entity: a caller that
    /// finds a component on an entity, a kind marker in particular, may rely
    /// on the entity being live.
    pub proof fn lemma_contents_live(self, k: (int, int))
        requires
            self.wf(),
            self.contents().contains_key(k),
        ensures
            0 <= k.0 < self.next_id(),
    {
        lemma_table_map_keys(self.table@, k);
    }

    /// Detaches component `c` from entity `e`, if attached. This is the
    /// store's out-of-band escape hatch: removing a component that belongs to
    /// an established kind's required set silently breaks that kind's
    /// guarantee, which this layer does not detect.
    pub fn remove(&mut self, e: Entity, c: u64)
        requires
            old(self).wf(),
        ensures
            final(self).wf(),
            final(self).next_id() == old(self).next_id(),
            final(self).contents() == old(self).contents().remove((e.id as int, c as int)),
    {
        let ghost t0 = self.table@;
        let n = self.table.len();
        let mut out: Vec<Entry> = Vec::new();
        let mut i: usize = 0;
        while i < n
            invariant
                n == self.table@.len(),
                self.table@ == t0,
                i <= n,
                forall|j: int| 0 <= j < self.table@.len() ==> (#[trigger] self.table@[j]).0.id < self.next,
                forall|j: int| 0 <= j < out@.len() ==> (#[trigger] out@[j]).0.id < self.next,
                table_map(out@) == table_map(t0.take(i as int)).remove((e.id as int, c as int)),
            decreases n - i,
        {
            let ghost out0 = out@;
            let hit = self.table[i].0.id == e.id && self.table[i].1 == c;
            if !hit {
                let entry = (self.table[i].0, self.table[i].1, self.table[i].2.clone());
                out.push(entry);
            }
            proof {
                assert(t0.take(i as int + 1) =~= t0.take(i as int).push(t0[i as int]));
                lemma_table_map_push(t0.take(i as int), t0[i as int]);
                if hit {
                    assert(table_map(t0.take(i as int)).insert(
                        (t0[i as int].0.id as int, t0[i as int].1 as int),
                        t0[i as int].2@,
                    ).remove((e.id as int, c as int)) =~= table_map(t0.take(i as int)).remove(
                        (e.id as int, c as int),
                    ));
                } else {
                    assert(out@ =~= out0.push(out@.last()));
                    lemma_table_map_push(out0, out@.last());
                    assert(table_map(t0.take(i as int)).insert(
                        (t0[i as int].0.id as int, t0[i as int].1 as int),
                        t0[i as int].2@,
                    ).remove((e.id as int, c as int)) =~= table_map(t0.take(i as int)).remove(
                        (e.id as int, c as int),
                    ).insert((t0[i as int].0.id as int, t0[i as int].1 as int), t0[i as int].2@));
                }
            }
            i = i + 1;
        }
        proof {
            assert(t0.take(n as int) =~= t0);
        }
        self.table = out;
    }
}

/// Every key of a table's map comes from one of its records.
proof fn lemma_table_map_keys(t: Seq<Entry>, k: (int, int))
    requires
        table_map(t).contains_key(k),
    ensures
        exists|j: int|
            0 <= j < t.len() && ((#[trigger] t[j]).0.id as int, t[j].1 as int) == k,
    decreases t.len(),
{
    if t.len() > 0 {
        let last = t.last();
        if k == ((last.0.id as int, last.1 as int)) {
            assert(t[t.len() - 1] == last);
        } else {
            lemma_table_map_keys(t.drop_last(), k);
            let j = choose|j: int|
                0 <= j < t.drop_last().len() && ((#[trigger] t.drop_last()[j]).0.id as int,
                t.drop_last()[j].1 as int) == k;
            assert(t[j] == t.drop_last()[j]);
        }
    }
}

/// Appending one record to a table updates its map at the record's key.
proof fn lemma_table_map_push(t: Seq<Entry>, x: Entry)
    ensures
        table_map(t.push(x)) == table_map(t).insert((x.0.id as int, x.1 as int), x.2@),
{
    assert(t.push(x).drop_last() =~= t);
    assert(t.push(x).last() == x);
}

/// If record `i` matches a key and no later record does, the table's map
/// holds that record's value under the key.
proof fn lemma_table_map_found(t: Seq<Entry>, i: int)
    requires
        0 <= i < t.len(),
        forall|j: int|
            i < j < t.len()
                ==> !((#[trigger] t[j]).0.id == t[i].0.id && t[j].1 == t[i].1),
    ensures
        table_map(t).contains_key((t[i].0.id as int, t[i].1 as int)),
        table_map(t)[(t[i].0.id as int, t[i].1 as int)] == t[i].2@,
    decreases t.len(),
{
    if i == t.len() - 1 {
    } else {
        lemma_table_map_found(t.drop_last(), i);
    }
}

/// If no record matches a key, the table's map has no value under it.
proof fn lemma_table_map_absent(t: Seq<Entry>, e: int, c: int)
    requires
        forall|j: int| 0 <= j < t.len() ==> !((#[trigger] t[j]).0.id == e && t[j].1 == c),
    ensures
        !table_map(t).contains_key((e, c)),
    decreases t.len(),
{
    if t.len() > 0 {
        lemma_table_map_absent(t.drop_last(), e, c);
    }
}





} // verus!
