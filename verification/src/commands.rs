//! Deferred commands and the kind-scoped command wrapper.
//!
//! A command queue is begun against a world, records insertions and removals
//! together with reservations of fresh entities, and is applied later by
//! [`World::execute`]. Construction of kinds flows through the queue: the
//! kind bundle is inserted as one queued operation, so the marker never lands
//! without the kind's full component set.

use vstd::prelude::*;

use crate::handle::EntityWithKind;
use crate::kind::kind_bundle_view;
use crate::kind::EntityKind;
use crate::kind::KindBundle;
use crate::store::comp_ids;
use crate::store::comps_view;
use crate::store::Component;
use crate::store::ComponentView;
use crate::store::Entity;
use crate::store::ValueView;
use crate::store::World;

verus! {

/// A deferred operation, as specifications see it.
pub enum OpView {
    /// Attach one component to the entity.
    Insert { e: int, comp: ComponentView },
    /// Attach a flattened bundle of components to the entity, atomically.
    InsertBundle { e: int, comps: Seq<ComponentView> },
    /// Detach the component with id `c` from the entity.
    Remove { e: int, c: int },
}

/// The entity a deferred operation touches.
pub open spec fn op_target(op: OpView) -> int {
    match op {
        OpView::Insert { e, .. } => e,
        OpView::InsertBundle { e, .. } => e,
        OpView::Remove { e, .. } => e,
    }
}

/// The store contents after attaching a flattened component sequence to
/// entity `e`, first component first; a later component under the same id
/// overwrites an earlier one.
pub open spec fn apply_comps(
    m: Map<(int, int), ValueView>,
    e: int,
    comps: Seq<ComponentView>,
) -> Map<(int, int), ValueView>
    decreases comps.len(),
{
    if comps.len() == 0 {
        m
    } else {
        apply_comps(m.insert((e, comps[0].id), comps[0].value), e, comps.drop_first())
    }
}

/// The store contents after one deferred operation.
pub open spec fn apply_op(m: Map<(int, int), ValueView>, op: OpView) -> Map<(int, int), ValueView> {
    match op {
        OpView::Insert { e, comp } => m.insert((e, comp.id), comp.value),
        OpView::InsertBundle { e, comps } => apply_comps(m, e, comps),
        OpView::Remove { e, c } => m.remove((e, c)),
    }
}

/// The store contents after a queue of deferred operations, applied in
/// order.
pub open spec fn apply_ops(m: Map<(int, int), ValueView>, ops: Seq<OpView>) -> Map<
    (int, int),
    ValueView,
>
    decreases ops.len(),
{
    if ops.len() == 0 {
        m
    } else {
        apply_ops(apply_op(m, ops[0]), ops.drop_first())
    }
}

/// One queued operation.
enum Command {
    Insert(Entity, Component),
    InsertBundle(Entity, Vec<Component>),
    Remove(Entity, u64),
}

impl View for Command {
    type V = OpView;

    closed spec fn view(&self) -> OpView {
        match self {
            Command::Insert(e, comp) => OpView::Insert { e: e.id as int, comp: comp@ },
            Command::InsertBundle(e, comps) => OpView::InsertBundle {
                e: e.id as int,
                comps: comps_view(comps@),
            },
            Command::Remove(e, c) => OpView::Remove { e: e.id as int, c: *c as int },
        }
    }
}

/// The deferred operations a queue of commands stands for.
spec fn cmds_view(q: Seq<Command>) -> Seq<OpView> {
    q.map(|i: int, c: Command| c@)
}

/// A deferred command queue begun against a world: reserved fresh entities
/// and queued operations, applied together by [`World::execute`].
pub struct Commands {
    base: u64,
    spawned: u64,
    queue: Vec<Command>,
}

impl Commands {
    /// The world's next fresh identifier when this queue was begun; reserved
    /// entities are numbered from here.
    pub closed spec fn base(self) -> int {
        self.base as int
    }

    /// How many fresh entities this queue has reserved.
    pub closed spec fn spawned(self) -> int {
        self.spawned as int
    }

    /// The queued operations, in order.
    pub closed spec fn ops(self) -> Seq<OpView> {
        cmds_view(self.queue@)
    }

    /// Well-formedness: reservations stay within the identifier space and
    /// every queued operation touches a live or reserved entity.
    pub closed spec fn wf(self) -> bool {
        &&& self.base + self.spawned <= u64::MAX
        &&& forall|i: int|
            0 <= i < self.queue@.len() ==> op_target((#[trigger] self.queue@[i])@) < self.base
                + self.spawned
    }

    /// Reserves a fresh entity and returns commands scoped to it. The entity
    /// becomes live when the queue is applied.
    pub fn spawn(&mut self) -> (r: EntityCommands)
        requires
            old(self).wf(),
            old(self).base() + old(self).spawned() < u64::MAX,
        ensures
            final(self).wf(),
            final(self).base() == old(self).base(),
            final(self).spawned() == old(self).spawned() + 1,
            final(self).ops() == old(self).ops(),
            r.entity_id() == old(self).base() + old(self).spawned(),
    {
        let e = Entity { id: self.base + self.spawned };
        self.spawned = self.spawned + 1;
        EntityCommands { entity: e }
    }

    /// Scopes this queue to one live or pending entity.
    pub fn entity(&self, e: Entity) -> (r: EntityCommands)
        requires
            (e.id as int) < self.base() + self.spawned(),
        ensures
            r.entity_id() == e.id as int,
    {
        EntityCommands { entity: e }
    }

    /// Spawns a new entity with the given kind: reserves a fresh entity and
    /// queues the insertion of the kind's bundle built from the supplied
    /// mandatory components.
    pub fn spawn_with_kind(&mut self, kind: &EntityKind, bundle: Vec<Component>) -> (r:
        EntityKindCommands)
        requires
            old(self).wf(),
            old(self).base() + old(self).spawned() < u64::MAX,
            comp_ids(comps_view(bundle@)) == kind.mandatory_ids(),
        ensures
            final(self).wf(),
            final(self).base() == old(self).base(),
            final(self).spawned() == old(self).spawned() + 1,
            final(self).ops() == old(self).ops().push(
                OpView::InsertBundle {
                    e: old(self).base() + old(self).spawned(),
                    comps: kind_bundle_view(
                        kind.kind_id(),
                        kind.defaults_view(),
                        comps_view(bundle@),
                    ),
                },
            ),
            r.entity_id() == old(self).base() + old(self).spawned(),
            r.kind_id() == kind.kind_id(),
    {
        let e = self.spawn();
        e.insert_kind(self, kind, bundle)
    }

    /// Spawns a new entity and queues the insertion of an already-built kind
    /// bundle, nested bundles included.
    pub fn spawn_with_bundle(&mut self, bundle: KindBundle) -> (r: EntityKindCommands)
        requires
            old(self).wf(),
            old(self).base() + old(self).spawned() < u64::MAX,
        ensures
            final(self).wf(),
            final(self).base() == old(self).base(),
            final(self).spawned() == old(self).spawned() + 1,
            final(self).ops() == old(self).ops().push(
                OpView::InsertBundle {
                    e: old(self).base() + old(self).spawned(),
                    comps: bundle.components_view(),
                },
            ),
            r.entity_id() == old(self).base() + old(self).spawned(),
            r.kind_id() == bundle.kind_id(),
    {
        let e = self.spawn();
        e.insert_bundle(self, bundle)
    }

    /// Returns kind-scoped commands for an already-typed kind value. No
    /// check runs here: the proof that the entity has the kind is inherited
    /// from however the typed value was obtained.
    pub fn with_kind(&self, kind: &EntityWithKind) -> (r: EntityKindCommands)
        ensures
            r.entity_id() == kind.entity_id(),
            r.kind_id() == kind.kind_id(),
    {
        EntityKindCommands { entity: kind.entity(), kind: kind.kind_raw() }
    }
}

/// Deferred commands scoped to one entity.
pub struct EntityCommands {
    entity: Entity,
}

impl EntityCommands {
    /// The raw identifier of the scoped entity.
    pub closed spec fn entity_id(self) -> int {
        self.entity.id as int
    }

    /// Returns the scoped entity.
    pub fn id(&self) -> (r: Entity)
        ensures
            r.id as int == self.entity_id(),
    {
        self.entity
    }

    /// Queues attaching one component to the scoped entity.
    pub fn insert(&self, commands: &mut Commands, comp: Component)
        requires
            old(commands).wf(),
            self.entity_id() < old(commands).base() + old(commands).spawned(),
        ensures
            final(commands).wf(),
            final(commands).base() == old(commands).base(),
            final(commands).spawned() == old(commands).spawned(),
            final(commands).ops() == old(commands).ops().push(
                OpView::Insert { e: self.entity_id(), comp: comp@ },
            ),
    {
        let ghost q0 = commands.queue@;
        let cmd = Command::Insert(self.entity, comp);
        let ghost op = cmd@;
        commands.queue.push(cmd);
        proof {
            assert(cmds_view(commands.queue@) =~= cmds_view(q0).push(op));
        }
    }

    /// Queues detaching the component with id `c` from the scoped entity.
    pub fn remove(&self, commands: &mut Commands, c: u64)
        requires
            old(commands).wf(),
            self.entity_id() < old(commands).base() + old(commands).spawned(),
        ensures
            final(commands).wf(),
            final(commands).base() == old(commands).base(),
            final(commands).spawned() == old(commands).spawned(),
            final(commands).ops() == old(commands).ops().push(
                OpView::Remove { e: self.entity_id(), c: c as int },
            ),
    {
        let ghost q0 = commands.queue@;
        let cmd = Command::Remove(self.entity, c);
        let ghost op = cmd@;
        commands.queue.push(cmd);
        proof {
            assert(cmds_view(commands.queue@) =~= cmds_view(q0).push(op));
        }
    }

    /// Inserts a new kind into the scoped entity: queues the insertion of
    /// the kind's bundle built from the supplied mandatory components, and
    /// returns commands scoped to the kind. The entity may already carry
    /// other kinds; they are unaffected.
    pub fn insert_kind(&self, commands: &mut Commands, kind: &EntityKind, bundle: Vec<Component>)
        -> (r: EntityKindCommands)
        requires
            old(commands).wf(),
            self.entity_id() < old(commands).base() + old(commands).spawned(),
            comp_ids(comps_view(bundle@)) == kind.mandatory_ids(),
        ensures
            final(commands).wf(),
            final(commands).base() == old(commands).base(),
            final(commands).spawned() == old(commands).spawned(),
            final(commands).ops() == old(commands).ops().push(
                OpView::InsertBundle {
                    e: self.entity_id(),
                    comps: kind_bundle_view(
                        kind.kind_id(),
                        kind.defaults_view(),
                        comps_view(bundle@),
                    ),
                },
            ),
            r.entity_id() == self.entity_id(),
            r.kind_id() == kind.kind_id(),
    {
        let b = KindBundle::new(kind, bundle);
        self.insert_bundle(commands, b)
    }

    /// Queues the insertion of an already-built kind bundle into the scoped
    /// entity and returns commands scoped to the bundle's kind.
    pub fn insert_bundle(&self, commands: &mut Commands, bundle: KindBundle) -> (r:
        EntityKindCommands)
        requires
            old(commands).wf(),
            self.entity_id() < old(commands).base() + old(commands).spawned(),
        ensures
            final(commands).wf(),
            final(commands).base() == old(commands).base(),
            final(commands).spawned() == old(commands).spawned(),
            final(commands).ops() == old(commands).ops().push(
                OpView::InsertBundle { e: self.entity_id(), comps: bundle.components_view() },
            ),
            r.entity_id() == self.entity_id(),
            r.kind_id() == bundle.kind_id(),
    {
        let ghost q0 = commands.queue@;
        let kind_id = bundle.kind();
        let cmd = Command::InsertBundle(self.entity, bundle.into_components());
        let ghost op = cmd@;
        commands.queue.push(cmd);
        proof {
            assert(cmds_view(commands.queue@) =~= cmds_view(q0).push(op));
        }
        EntityKindCommands { entity: self.entity, kind: kind_id }
    }
}

/// Deferred commands scoped to an entity of a specific kind. Inserting or
/// removing components of the kind's own required set through the
/// pass-through operations breaks the kind's guarantee silently; that is a
/// documented caller responsibility this layer does not police.
pub struct EntityKindCommands {
    entity: Entity,
    kind: u64,
}

impl EntityKindCommands {
    /// The raw identifier of the scoped entity.
    pub closed spec fn entity_id(self) -> int {
        self.entity.id as int
    }

    /// The id of the kind these commands are scoped to.
    pub closed spec fn kind_id(self) -> int {
        self.kind as int
    }

    /// Creates kind-scoped commands from generic entity commands with no
    /// verification. The caller must ensure the scoped entity already is, or
    /// in the same deferred batch becomes, an entity of `kind`; the sound
    /// paths of this layer do so by construction order.
    pub fn from_entity_unchecked(entity: EntityCommands, kind: &EntityKind) -> (r:
        EntityKindCommands)
        ensures
            r.entity_id() == entity.entity_id(),
            r.kind_id() == kind.kind_id(),
    {
        EntityKindCommands { entity: entity.entity, kind: kind.id() }
    }

    /// Returns the scoped entity.
    pub fn entity(&self) -> (r: Entity)
        ensures
            r.id as int == self.entity_id(),
    {
        self.entity
    }

    /// The typed kind value for the scoped entity; sound because these
    /// commands are only produced for entities established as their kind.
    pub fn get(&self) -> (r: EntityWithKind)
        ensures
            r.entity_id() == self.entity_id(),
            r.kind_id() == self.kind_id(),
    {
        EntityWithKind::from_raw(self.entity, self.kind)
    }

    /// The underlying generic entity commands.
    pub fn as_entity(&self) -> (r: EntityCommands)
        ensures
            r.entity_id() == self.entity_id(),
    {
        EntityCommands { entity: self.entity }
    }

    /// Queues attaching one component to the scoped entity; meant for
    /// components outside the kind's own required set.
    pub fn insert(&self, commands: &mut Commands, comp: Component)
        requires
            old(commands).wf(),
            self.entity_id() < old(commands).base() + old(commands).spawned(),
        ensures
            final(commands).wf(),
            final(commands).base() == old(commands).base(),
            final(commands).spawned() == old(commands).spawned(),
            final(commands).ops() == old(commands).ops().push(
                OpView::Insert { e: self.entity_id(), comp: comp@ },
            ),
    {
        self.as_entity().insert(commands, comp);
    }

    /// Queues detaching the component with id `c` from the scoped entity;
    /// meant for components outside the kind's own required set.
    pub fn remove(&self, commands: &mut Commands, c: u64)
        requires
            old(commands).wf(),
            self.entity_id() < old(commands).base() + old(commands).spawned(),
        ensures
            final(commands).wf(),
            final(commands).base() == old(commands).base(),
            final(commands).spawned() == old(commands).spawned(),
            final(commands).ops() == old(commands).ops().push(
                OpView::Remove { e: self.entity_id(), c: c as int },
            ),
    {
        self.as_entity().remove(commands, c);
    }
}

impl World {
    /// Begins a deferred command queue against this world.
    pub fn commands(&self) -> (r: Commands)
        ensures
            r.wf(),
            r.base() == self.next_id(),
            r.spawned() == 0,
            r.ops() == Seq::<OpView>::empty(),
    {
        let r = Commands { base: self.fresh_id(), spawned: 0, queue: Vec::new() };
        proof {
            assert(r.ops() =~= Seq::<OpView>::empty());
        }
        r
    }

    /// Applies a deferred command queue to this world: commits the reserved
    /// entities and performs the queued operations in order.
    pub fn execute(&mut self, commands: Commands)
        requires
            old(self).wf(),
            commands.wf(),
            commands.base() == old(self).next_id(),
        ensures
            final(self).wf(),
            final(self).next_id() == commands.base() + commands.spawned(),
            final(self).contents() == apply_ops(old(self).contents(), commands.ops()),
    {
        let ghost m0 = self.contents();
        let ghost ops0 = commands.ops();
        let target = commands.base + commands.spawned;
        self.advance_next(target);
        let mut queue = commands.queue;
        while queue.len() > 0
            invariant
                self.wf(),
                self.next_id() == target as int,
                apply_ops(m0, ops0) == apply_ops(self.contents(), cmds_view(queue@)),
                forall|i: int|
                    0 <= i < queue@.len() ==> op_target((#[trigger] queue@[i])@) < target as int,
            decreases queue@.len(),
        {
            let ghost q0 = queue@;
            let cmd = queue.remove(0);
            proof {
                assert(queue@ =~= q0.drop_first());
                assert(cmd@ == q0[0]@);
                assert(op_target(cmd@) < target as int);
                assert(cmds_view(q0)[0] == cmd@);
                assert(cmds_view(q0).drop_first() =~= cmds_view(queue@));
                assert(forall|i: int|
                    0 <= i < queue@.len() ==> op_target((#[trigger] queue@[i])@) < target as int);
            }
            match cmd {
                Command::Insert(e, comp) => {
                    self.insert(e, comp);
                },
                Command::Remove(e, c) => {
                    self.remove(e, c);
                },
                Command::InsertBundle(e, comps) => {
                    let ghost mb = self.contents();
                    let ghost full = comps_view(comps@);
                    let mut rest = comps;
                    while rest.len() > 0
                        invariant
                            self.wf(),
                            self.next_id() == target as int,
                            e.id < target,
                            apply_comps(mb, e.id as int, full) == apply_comps(
                                self.contents(),
                                e.id as int,
                                comps_view(rest@),
                            ),
                        decreases rest@.len(),
                    {
                        let ghost r0 = rest@;
                        let comp = rest.remove(0);
                        proof {
                            assert(comp@ == r0[0]@);
                            assert(comps_view(r0)[0] == comp@);
                            assert(comps_view(r0).drop_first() =~= comps_view(rest@));
                        }
                        self.insert(e, comp);
                    }
                    proof {
                        assert(comps_view(rest@) =~= Seq::<ComponentView>::empty());
                    }
                },
            }
        }
        proof {
            assert(cmds_view(queue@) =~= Seq::<OpView>::empty());
        }
    }
}

} // verus!
