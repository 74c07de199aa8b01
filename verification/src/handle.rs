//! Typed handles, the kind query filter, and the runtime check.
//!
//! A typed value pairs an entity identifier with the kind it is claimed to
//! have. The claim is discharged by the contract of whichever path produced
//! the value: the construction paths attach the kind's full bundle, the query
//! filter admits only entities carrying the kind's marker, and the runtime
//! check inspects the marker explicitly. The one unchecked constructor is the
//! deliberate escape hatch for application-authored conversions.

use vstd::prelude::*;

use crate::kind::EntityKind;
use crate::store::Entity;
use crate::store::ValueView;
use crate::store::World;

verus! {

/// An entity typed by a kind: the raw identifier together with the kind id
/// it is claimed to satisfy. The value is transient; it guarantees nothing
/// beyond what the contract of the path that produced it states.
pub struct EntityWithKind {
    entity: Entity,
    kind: u64,
}

impl EntityWithKind {
    /// The raw identifier of the referenced entity.
    pub closed spec fn entity_id(self) -> int {
        self.entity.id as int
    }

    /// The id of the kind this value claims.
    pub closed spec fn kind_id(self) -> int {
        self.kind as int
    }

    /// Produces a typed value from a raw identifier with no verification.
    ///
    /// This is the layer's deliberate escape hatch: the caller must
    /// independently guarantee that the entity already carries every
    /// component of `kind`. Every sound path (construction, query, runtime
    /// check) discharges that obligation itself; application code should
    /// reach for this constructor only to author conversions it can justify.
    pub fn from_entity_unchecked(entity: Entity, kind: &EntityKind) -> (r: EntityWithKind)
        ensures
            r.entity_id() == entity.id as int,
            r.kind_id() == kind.kind_id(),
    {
        EntityWithKind { entity, kind: kind.id() }
    }

    /// Builds a typed value from already-validated raw parts.
    pub(crate) fn from_raw(entity: Entity, kind: u64) -> (r: EntityWithKind)
        ensures
            r.entity_id() == entity.id as int,
            r.kind_id() == kind as int,
    {
        EntityWithKind { entity, kind }
    }

    /// Returns this typed value as a generic entity.
    pub fn entity(&self) -> (r: Entity)
        ensures
            r.id as int == self.entity_id(),
    {
        self.entity
    }

    /// The raw kind id this value claims.
    pub(crate) fn kind_raw(&self) -> (r: u64)
        ensures
            r as int == self.kind_id(),
    {
        self.kind
    }

    /// Converts this typed value to another kind, keeping the identifier.
    ///
    /// An upcast is sound only when the target kind's mandatory and default
    /// component sets are contained in this kind's; that containment is an
    /// externally asserted claim of the application author, not checked by
    /// this layer. No automatic downcast exists; a narrowing claim must go
    /// through [`World::try_with_kind`].
    pub fn cast(&self, target: &EntityKind) -> (r: EntityWithKind)
        ensures
            r.entity_id() == self.entity_id(),
            r.kind_id() == target.kind_id(),
    {
        EntityWithKind { entity: self.entity, kind: target.id() }
    }
}

/// A query filter restricting iteration to entities that carry a given
/// kind's marker.
pub struct WithKind {
    kind: u64,
}

impl WithKind {
    /// The id of the kind whose marker this filter tests.
    pub closed spec fn kind_id(self) -> int {
        self.kind as int
    }

    /// Builds the filter for `kind`.
    pub fn new(kind: &EntityKind) -> (r: WithKind)
        ensures
            r.kind_id() == kind.kind_id(),
    {
        WithKind { kind: kind.id() }
    }
}

/// One row of a kind-filtered query: an entity the filter admitted, so an
/// entity that carried the kind's marker when the query ran.
pub struct EntityWithKindItem {
    entity: Entity,
    kind: u64,
}

impl EntityWithKindItem {
    /// The raw identifier of the row's entity.
    pub closed spec fn entity_id(self) -> int {
        self.entity.id as int
    }

    /// The id of the kind the row was filtered by.
    pub closed spec fn kind_id(self) -> int {
        self.kind as int
    }

    /// Returns this row as a generic entity.
    pub fn entity(&self) -> (r: Entity)
        ensures
            r.id as int == self.entity_id(),
    {
        self.entity
    }

    /// The typed kind value for this row; sound because the filter admitted
    /// the row only with the kind's marker present.
    pub fn get(&self) -> (r: EntityWithKind)
        ensures
            r.entity_id() == self.entity_id(),
            r.kind_id() == self.kind_id(),
    {
        EntityWithKind { entity: self.entity, kind: self.kind }
    }
}

impl PartialEq<EntityWithKind> for EntityWithKindItem {
    /// A row equals a typed value when they reference the same entity.
    fn eq(&self, other: &EntityWithKind) -> (r: bool) {
        self.entity.id == other.entity.id
    }
}

impl vstd::std_specs::cmp::PartialEqSpecImpl<EntityWithKind> for EntityWithKindItem {
    open spec fn obeys_eq_spec() -> bool {
        true
    }

    open spec fn eq_spec(&self, other: &EntityWithKind) -> bool {
        self.entity_id() == other.entity_id()
    }
}

/// The identifiers below `n` of entities carrying the marker of kind `kid`
/// in `m`, in ascending order.
pub open spec fn marked_entities(
    m: Map<(int, int), ValueView>,
    kid: int,
    n: int,
) -> Seq<int>
    decreases n,
{
    if n <= 0 {
        Seq::empty()
    } else {
        marked_entities(m, kid, n - 1) + if m.contains_key(((n - 1), kid)) {
            seq![n - 1]
        } else {
            Seq::empty()
        }
    }
}

/// An identifier is listed by [`marked_entities`] exactly when it is below
/// the bound and carries the marker.
pub proof fn lemma_marked_entities_membership(
    m: Map<(int, int), ValueView>,
    kid: int,
    n: int,
    e: int,
)
    ensures
        marked_entities(m, kid, n).contains(e) <==> (0 <= e < n && m.contains_key((e, kid))),
    decreases n,
{
    if n > 0 {
        lemma_marked_entities_membership(m, kid, n - 1, e);
        let a = marked_entities(m, kid, n - 1);
        let s = marked_entities(m, kid, n);
        if s.contains(e) {
            let i = choose|i: int| 0 <= i < s.len() && s[i] == e;
            if i < a.len() {
                assert(a[i] == e);
                assert(a.contains(e));
            } else {
                assert(m.contains_key((n - 1, kid)) && e == n - 1);
            }
        }
        if 0 <= e < n && m.contains_key((e, kid)) {
            if e < n - 1 {
                assert(a.contains(e));
                let i = choose|i: int| 0 <= i < a.len() && a[i] == e;
                assert(s[i] == e);
                assert(s.contains(e));
            } else {
                assert(s.last() == e);
                assert(s.contains(e));
            }
        }
    }
}

impl World {
    /// Runs the kind-filtered query: one row per live entity carrying the
    /// filter's marker, in ascending identifier order.
    pub fn query(&self, filter: &WithKind) -> (r: Vec<EntityWithKindItem>)
        ensures
            r@.map(|i: int, item: EntityWithKindItem| item.entity_id()) == marked_entities(
                self.contents(),
                filter.kind_id(),
                self.next_id(),
            ),
            forall|i: int| 0 <= i < r@.len() ==> (#[trigger] r@[i]).kind_id() == filter.kind_id(),
    {
        let mut out: Vec<EntityWithKindItem> = Vec::new();
        let n = self.fresh_id();
        let mut e: u64 = 0;
        while e < n
            invariant
                n as int == self.next_id(),
                e <= n,
                out@.map(|i: int, item: EntityWithKindItem| item.entity_id()) == marked_entities(
                    self.contents(),
                    filter.kind_id(),
                    e as int,
                ),
                forall|i: int|
                    0 <= i < out@.len() ==> (#[trigger] out@[i]).kind_id() == filter.kind_id(),
            decreases n - e,
        {
            let ghost out0 = out@;
            if self.contains(Entity { id: e }, filter.kind) {
                out.push(EntityWithKindItem { entity: Entity { id: e }, kind: filter.kind });
            }
            proof {
                let f = |i: int, item: EntityWithKindItem| item.entity_id();
                if self.contents().contains_key((e as int, filter.kind_id())) {
                    assert(out@.map(f) =~= out0.map(f).push(e as int));
                }
                assert(out@.map(f) =~= marked_entities(
                    self.contents(),
                    filter.kind_id(),
                    e as int + 1,
                ));
            }
            e = e + 1;
        }
        out
    }

    /// Checks whether entity `e` carries the marker of `kind` and returns
    /// the typed value exactly when it does. This runtime check is the sole
    /// way to obtain a typed value for an entity whose kind is not already
    /// statically known; a missing marker is a normal, recoverable outcome.
    pub fn try_with_kind(&self, e: Entity, kind: &EntityKind) -> (r: Option<EntityWithKind>)
        ensures
            r is Some <==> self.contents().contains_key((e.id as int, kind.kind_id())),
            r matches Some(h) ==> h.entity_id() == e.id as int && h.kind_id() == kind.kind_id(),
    {
        if self.contains(e, kind.id()) {
            Some(EntityWithKind { entity: e, kind: kind.id() })
        } else {
            None
        }
    }
}

} // verus!
