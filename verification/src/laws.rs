//! The guarantees of the kind layer, stated and proved over the store's
//! abstract state: what a kind bundle insertion establishes, what it leaves
//! alone, and how the runtime check relates to the marker.

use vstd::prelude::*;

use crate::commands::apply_comps;
use crate::commands::apply_op;
use crate::commands::apply_ops;
use crate::commands::op_target;
use crate::commands::OpView;
use crate::kind::kind_bundle_view;
use crate::store::comp_ids;
use crate::store::ComponentView;
use crate::store::ValueView;

verus! {

/// A key present before a component sequence is attached is still present
/// afterwards.
pub proof fn lemma_apply_comps_preserves_key(
    m: Map<(int, int), ValueView>,
    e: int,
    comps: Seq<ComponentView>,
    k: (int, int),
)
    requires
        m.contains_key(k),
    ensures
        apply_comps(m, e, comps).contains_key(k),
    decreases comps.len(),
{
    if comps.len() > 0 {
        lemma_apply_comps_preserves_key(
            m.insert((e, comps[0].id), comps[0].value),
            e,
            comps.drop_first(),
            k,
        );
    }
}

/// Attaching a component sequence to an entity makes every component id of
/// the sequence present on that entity.
pub proof fn lemma_apply_comps_covers(
    m: Map<(int, int), ValueView>,
    e: int,
    comps: Seq<ComponentView>,
    i: int,
)
    requires
        0 <= i < comps.len(),
    ensures
        apply_comps(m, e, comps).contains_key((e, comps[i].id)),
    decreases comps.len(),
{
    let m1 = m.insert((e, comps[0].id), comps[0].value);
    if i == 0 {
        lemma_apply_comps_preserves_key(m1, e, comps.drop_first(), (e, comps[0].id));
    } else {
        lemma_apply_comps_covers(m1, e, comps.drop_first(), i - 1);
    }
}

/// Attaching a component sequence to an entity leaves every key outside
/// that entity's inserted ids untouched: other entities entirely, and other
/// component ids of the same entity.
pub proof fn lemma_apply_comps_frame(
    m: Map<(int, int), ValueView>,
    e: int,
    comps: Seq<ComponentView>,
    e2: int,
    c2: int,
)
    requires
        e2 != e || !comp_ids(comps).contains(c2),
    ensures
        apply_comps(m, e, comps).contains_key((e2, c2)) == m.contains_key((e2, c2)),
        m.contains_key((e2, c2)) ==> apply_comps(m, e, comps)[(e2, c2)] == m[(e2, c2)],
    decreases comps.len(),
{
    if comps.len() > 0 {
        let rest = comps.drop_first();
        assert(comp_ids(comps)[0] == comps[0].id);
        if comp_ids(rest).contains(c2) {
            let j = choose|j: int| 0 <= j < comp_ids(rest).len() && comp_ids(rest)[j] == c2;
            assert(comp_ids(comps)[j + 1] == rest[j].id);
            assert(comp_ids(comps).contains(c2));
        }
        lemma_apply_comps_frame(m.insert((e, comps[0].id), comps[0].value), e, rest, e2, c2);
    }
}

/// Applying a queue extended by one operation applies the queue, then the
/// operation.
pub proof fn lemma_apply_ops_snoc(m: Map<(int, int), ValueView>, ops: Seq<OpView>, op: OpView)
    ensures
        apply_ops(m, ops.push(op)) == apply_op(apply_ops(m, ops), op),
    decreases ops.len(),
{
    let s = ops.push(op);
    assert(s.len() == ops.len() + 1);
    if ops.len() == 0 {
        assert(s[0] == op);
        assert(s.drop_first() =~= Seq::<OpView>::empty());
        assert(apply_ops(m, s) == apply_ops(apply_op(m, op), s.drop_first()));
        assert(apply_ops(m, s) == apply_op(m, op));
        assert(apply_ops(m, ops) == m);
    } else {
        assert(s[0] == ops[0]);
        assert(s.drop_first() =~= ops.drop_first().push(op));
        lemma_apply_ops_snoc(apply_op(m, ops[0]), ops.drop_first(), op);
        assert(apply_ops(m, s) == apply_ops(apply_op(m, ops[0]), ops.drop_first().push(op)));
        assert(apply_ops(m, ops) == apply_ops(apply_op(m, ops[0]), ops.drop_first()));
    }
}

/// Construction completeness: inserting a kind's bundle leaves the entity
/// carrying the kind's marker, every supplied mandatory component and every
/// default component, whatever the store held before.
pub proof fn lemma_construction_complete(
    m: Map<(int, int), ValueView>,
    e: int,
    kind_id: int,
    defaults: Seq<ComponentView>,
    mandatory: Seq<ComponentView>,
)
    ensures
        ({
            let m2 = apply_op(
                m,
                OpView::InsertBundle { e, comps: kind_bundle_view(kind_id, defaults, mandatory) },
            );
            &&& m2.contains_key((e, kind_id))
            &&& forall|i: int|
                0 <= i < defaults.len() ==> m2.contains_key((e, (#[trigger] defaults[i]).id))
            &&& forall|i: int|
                0 <= i < mandatory.len() ==> m2.contains_key((e, (#[trigger] mandatory[i]).id))
            &&& forall|c: int|
                #[trigger] comp_ids(mandatory).contains(c) ==> m2.contains_key((e, c))
        }),
{
    let comps = kind_bundle_view(kind_id, defaults, mandatory);
    let m2 = apply_op(m, OpView::InsertBundle { e, comps });
    assert(comps[0] == crate::kind::marker_comp(kind_id));
    lemma_apply_comps_covers(m, e, comps, 0);
    assert forall|i: int| 0 <= i < defaults.len() implies m2.contains_key(
        (e, (#[trigger] defaults[i]).id),
    ) by {
        assert(comps[1 + i] == defaults[i]);
        lemma_apply_comps_covers(m, e, comps, 1 + i);
    }
    assert forall|i: int| 0 <= i < mandatory.len() implies m2.contains_key(
        (e, (#[trigger] mandatory[i]).id),
    ) by {
        assert(comps[1 + defaults.len() + i] == mandatory[i]);
        lemma_apply_comps_covers(m, e, comps, 1 + defaults.len() + i);
    }
    assert forall|c: int| #[trigger] comp_ids(mandatory).contains(c) implies m2.contains_key(
        (e, c),
    ) by {
        let i = choose|i: int| 0 <= i < comp_ids(mandatory).len() && comp_ids(mandatory)[i] == c;
        assert(mandatory[i].id == c);
    }
}

/// Construction completeness through a whole queue: a queue that ends with
/// a kind bundle insertion, once applied, leaves the spawned entity with
/// marker, mandatory components and default components all present.
pub proof fn lemma_spawn_with_kind_completes(
    m: Map<(int, int), ValueView>,
    ops: Seq<OpView>,
    e: int,
    kind_id: int,
    defaults: Seq<ComponentView>,
    mandatory: Seq<ComponentView>,
)
    ensures
        ({
            let m2 = apply_ops(
                m,
                ops.push(
                    OpView::InsertBundle {
                        e,
                        comps: kind_bundle_view(kind_id, defaults, mandatory),
                    },
                ),
            );
            &&& m2.contains_key((e, kind_id))
            &&& forall|i: int|
                0 <= i < defaults.len() ==> m2.contains_key((e, (#[trigger] defaults[i]).id))
            &&& forall|i: int|
                0 <= i < mandatory.len() ==> m2.contains_key((e, (#[trigger] mandatory[i]).id))
        }),
{
    let op = OpView::InsertBundle { e, comps: kind_bundle_view(kind_id, defaults, mandatory) };
    lemma_apply_ops_snoc(m, ops, op);
    lemma_construction_complete(apply_ops(m, ops), e, kind_id, defaults, mandatory);
}

/// Multi-kind independence: establishing a kind on an entity that already
/// carries another kind's marker leaves that marker and every component
/// outside the inserted bundle untouched, with their values, and the entity
/// then carries both markers. The inserted bundle must not reuse the other
/// kind's marker id; where the two kinds share ordinary component ids, the
/// shared components are rewritten by the insertion and only the rest is
/// untouched.
pub proof fn lemma_multi_kind_independence(
    m: Map<(int, int), ValueView>,
    e: int,
    kind_id: int,
    defaults: Seq<ComponentView>,
    mandatory: Seq<ComponentView>,
    other_kind_id: int,
)
    requires
        m.contains_key((e, other_kind_id)),
        !comp_ids(kind_bundle_view(kind_id, defaults, mandatory)).contains(other_kind_id),
    ensures
        ({
            let m2 = apply_op(
                m,
                OpView::InsertBundle { e, comps: kind_bundle_view(kind_id, defaults, mandatory) },
            );
            &&& m2.contains_key((e, kind_id))
            &&& m2.contains_key((e, other_kind_id))
            &&& m2[(e, other_kind_id)] == m[(e, other_kind_id)]
            &&& forall|c: int|
                !comp_ids(kind_bundle_view(kind_id, defaults, mandatory)).contains(c) ==> (
                m2.contains_key((e, c)) == m.contains_key((e, c)) && (m.contains_key((e, c))
                    ==> m2[(e, c)] == m[(e, c)]))
            &&& forall|e2: int, c: int|
                e2 != e ==> (#[trigger] m2.contains_key((e2, c))) == m.contains_key((e2, c)) && (
                m.contains_key((e2, c)) ==> m2[(e2, c)] == m[(e2, c)])
        }),
{
    let comps = kind_bundle_view(kind_id, defaults, mandatory);
    let m2 = apply_op(m, OpView::InsertBundle { e, comps });
    assert(comps[0] == crate::kind::marker_comp(kind_id));
    lemma_apply_comps_covers(m, e, comps, 0);
    lemma_apply_comps_frame(m, e, comps, e, other_kind_id);
    assert forall|c: int| !comp_ids(comps).contains(c) implies (m2.contains_key((e, c))
        == m.contains_key((e, c)) && (m.contains_key((e, c)) ==> m2[(e, c)] == m[(e, c)])) by {
        lemma_apply_comps_frame(m, e, comps, e, c);
    }
    assert forall|e2: int, c: int| e2 != e implies (#[trigger] m2.contains_key((e2, c)))
        == m.contains_key((e2, c)) && (m.contains_key((e2, c)) ==> m2[(e2, c)] == m[(e2, c)]) by {
        lemma_apply_comps_frame(m, e, comps, e2, c);
    }
}

/// Entity isolation: an operation targeting one entity changes nothing on
/// any other entity.
pub proof fn lemma_op_isolation(m: Map<(int, int), ValueView>, op: OpView, e2: int, c2: int)
    requires
        op_target(op) != e2,
    ensures
        apply_op(m, op).contains_key((e2, c2)) == m.contains_key((e2, c2)),
        m.contains_key((e2, c2)) ==> apply_op(m, op)[(e2, c2)] == m[(e2, c2)],
{
    match op {
        OpView::InsertBundle { e, comps } => {
            lemma_apply_comps_frame(m, e, comps, e2, c2);
        },
        _ => {},
    }
}

/// Defaults freshness, as entity isolation over a whole queue: each entity
/// constructed with a kind owns its component instances, so a queue whose
/// operations all target other entities leaves an entity's components, its
/// defaults included, exactly as they were.
pub proof fn lemma_ops_isolation(m: Map<(int, int), ValueView>, ops: Seq<OpView>, e2: int, c2: int)
    requires
        forall|i: int| 0 <= i < ops.len() ==> op_target(#[trigger] ops[i]) != e2,
    ensures
        apply_ops(m, ops).contains_key((e2, c2)) == m.contains_key((e2, c2)),
        m.contains_key((e2, c2)) ==> apply_ops(m, ops)[(e2, c2)] == m[(e2, c2)],
    decreases ops.len(),
{
    if ops.len() > 0 {
        lemma_op_isolation(m, ops[0], e2, c2);
        assert(forall|i: int|
            0 <= i < ops.drop_first().len() ==> op_target(#[trigger] ops.drop_first()[i]) != e2);
        lemma_ops_isolation(apply_op(m, ops[0]), ops.drop_first(), e2, c2);
    }
}


/// Attaching a component sequence stores, under each id, the value of the
/// last component of the sequence carrying that id.
pub proof fn lemma_apply_comps_value(
    m: Map<(int, int), ValueView>,
    e: int,
    comps: Seq<ComponentView>,
    i: int,
)
    requires
        0 <= i < comps.len(),
        forall|j: int| i < j < comps.len() ==> (#[trigger] comps[j]).id != comps[i].id,
    ensures
        apply_comps(m, e, comps).contains_key((e, comps[i].id)),
        apply_comps(m, e, comps)[(e, comps[i].id)] == comps[i].value,
    decreases comps.len(),
{
    let rest = comps.drop_first();
    let m1 = m.insert((e, comps[0].id), comps[0].value);
    if i == 0 {
        if comp_ids(rest).contains(comps[0].id) {
            let j = choose|j: int|
                0 <= j < comp_ids(rest).len() && comp_ids(rest)[j] == comps[0].id;
            assert(comp_ids(rest)[j] == rest[j].id);
            assert(comps[j + 1].id == comps[0].id);
        }
        lemma_apply_comps_frame(m1, e, rest, e, comps[0].id);
    } else {
        assert(forall|j: int| i - 1 < j < rest.len() ==> (#[trigger] rest[j]).id != rest[i - 1].id);
        lemma_apply_comps_value(m1, e, rest, i - 1);
    }
}

/// Construction values: inserting a kind's bundle stores each supplied
/// mandatory component's own value on the entity, for every mandatory
/// component whose id is not repeated later in the supplied sequence. The
/// mandatory components are inserted after the defaults, so they win where
/// a default shares an id.
pub proof fn lemma_construction_values(
    m: Map<(int, int), ValueView>,
    e: int,
    kind_id: int,
    defaults: Seq<ComponentView>,
    mandatory: Seq<ComponentView>,
    i: int,
)
    requires
        0 <= i < mandatory.len(),
        forall|j: int| i < j < mandatory.len() ==> (#[trigger] mandatory[j]).id != mandatory[i].id,
    ensures
        ({
            let m2 = apply_op(
                m,
                OpView::InsertBundle { e, comps: kind_bundle_view(kind_id, defaults, mandatory) },
            );
            &&& m2.contains_key((e, mandatory[i].id))
            &&& m2[(e, mandatory[i].id)] == mandatory[i].value
        }),
{
    let comps = kind_bundle_view(kind_id, defaults, mandatory);
    let k = 1 + defaults.len() + i;
    assert(comps[k] == mandatory[i]);
    assert forall|j: int| k < j < comps.len() implies (#[trigger] comps[j]).id != comps[k].id by {
        assert(comps[j] == mandatory[j - 1 - defaults.len()]);
    }
    lemma_apply_comps_value(m, e, comps, k);
}

} // verus!
