use kindly::Component;
use kindly::Entity;
use kindly::EntityKind;
use kindly::EntityWithKind;
use kindly::KindBundle;
use kindly::Value;
use kindly::WithKind;
use kindly::World;

const NAME: u64 = 1;
const AGE: u64 = 2;
const FRIENDS: u64 = 3;
const POSITION: u64 = 4;
const SPEED: u64 = 5;
const CLEARANCE: u64 = 6;
const CAPACITY: u64 = 7;
const ITEMS: u64 = 8;

const PERSON: u64 = 100;
const AGENT: u64 = 101;
const CONTAINER: u64 = 102;
const CONTAINABLE: u64 = 103;

fn person_kind() -> EntityKind {
    EntityKind::new(
        PERSON,
        vec![NAME, AGE],
        vec![Component::new(FRIENDS, Value::Links(vec![]))],
    )
}

fn agent_kind() -> EntityKind {
    EntityKind::new(
        AGENT,
        vec![SPEED, CLEARANCE],
        vec![Component::new(POSITION, Value::Int(0))],
    )
}

fn spawn_person(world: &mut World, name: &str, age: i64) -> EntityWithKind {
    let person = person_kind();
    let mut commands = world.commands();
    let p = commands.spawn_with_kind(
        &person,
        vec![
            Component::new(NAME, Value::Text(name.to_string())),
            Component::new(AGE, Value::Int(age)),
        ],
    );
    let handle = p.get();
    world.execute(commands);
    handle
}

fn friends_of(world: &World, e: Entity) -> Vec<Entity> {
    match world.get(e, FRIENDS) {
        Some(Value::Links(v)) => v.clone(),
        other => panic!("expected friends list, got {:?}", other),
    }
}

/// Links two established persons as friends: each one's friends list gains
/// the other's identifier, through kind-scoped deferred commands.
fn link_friends(world: &mut World, a: &EntityWithKind, b: &EntityWithKind) {
    let mut a_friends = friends_of(world, a.entity());
    a_friends.push(b.entity());
    let mut b_friends = friends_of(world, b.entity());
    b_friends.push(a.entity());
    let mut commands = world.commands();
    commands
        .with_kind(a)
        .insert(&mut commands, Component::new(FRIENDS, Value::Links(a_friends)));
    commands
        .with_kind(b)
        .insert(&mut commands, Component::new(FRIENDS, Value::Links(b_friends)));
    world.execute(commands);
}

#[test]
fn it_works() {
    // Create a new world
    let mut world = World::new();
    let containable = EntityKind::new(CONTAINABLE, vec![], vec![]);
    let container = EntityKind::new(
        CONTAINER,
        vec![CAPACITY],
        vec![Component::new(ITEMS, Value::Links(vec![]))],
    );

    // Spawn a container
    let mut commands = world.commands();
    let handle = commands
        .spawn_with_kind(&container, vec![Component::new(CAPACITY, Value::Int(5))])
        .get();
    world.execute(commands);

    // Ensure all containers have capacity and items
    assert!(world.contains(handle.entity(), CAPACITY));
    assert!(world.contains(handle.entity(), ITEMS));

    // Spawn an item, insert it into the container
    let mut commands = world.commands();
    let item = commands.spawn_with_kind(&containable, vec![]).get();
    world.execute(commands);
    let capacity = match world.get(handle.entity(), CAPACITY) {
        Some(Value::Int(n)) => *n,
        other => panic!("expected capacity, got {:?}", other),
    };
    let mut items = match world.get(handle.entity(), ITEMS) {
        Some(Value::Links(v)) => v.clone(),
        other => panic!("expected items, got {:?}", other),
    };
    if (items.len() as i64) < capacity {
        items.push(item.entity());
    }
    let mut commands = world.commands();
    commands
        .with_kind(&handle)
        .insert(&mut commands, Component::new(ITEMS, Value::Links(items)));
    world.execute(commands);

    // Ensure item was inserted
    match world.get(handle.entity(), ITEMS) {
        Some(Value::Links(v)) => assert_eq!(v.len(), 1),
        other => panic!("expected items, got {:?}", other),
    }
}

#[test]
fn person_spawn_establishes_all_components() {
    let mut world = World::new();
    let alice = spawn_person(&mut world, "Alice", 25);
    let e = alice.entity();
    assert_eq!(
        world.get(e, NAME),
        Some(&Value::Text("Alice".to_string()))
    );
    assert_eq!(world.get(e, AGE), Some(&Value::Int(25)));
    assert_eq!(world.get(e, FRIENDS), Some(&Value::Links(vec![])));
    assert!(world.contains(e, PERSON));
}

#[test]
fn friend_linking_updates_both_and_nothing_else() {
    let mut world = World::new();
    let alice = spawn_person(&mut world, "Alice", 25);
    let bob = spawn_person(&mut world, "Bob", 27);
    link_friends(&mut world, &alice, &bob);
    assert_eq!(friends_of(&world, alice.entity()), vec![bob.entity()]);
    assert_eq!(friends_of(&world, bob.entity()), vec![alice.entity()]);
    // no other component was touched
    assert_eq!(
        world.get(alice.entity(), NAME),
        Some(&Value::Text("Alice".to_string()))
    );
    assert_eq!(world.get(alice.entity(), AGE), Some(&Value::Int(25)));
    assert_eq!(
        world.get(bob.entity(), NAME),
        Some(&Value::Text("Bob".to_string()))
    );
    assert_eq!(world.get(bob.entity(), AGE), Some(&Value::Int(27)));
    assert!(world.contains(alice.entity(), PERSON));
    assert!(world.contains(bob.entity(), PERSON));
}

#[test]
fn nested_agent_bundle_establishes_both_kinds() {
    let mut world = World::new();
    let person = person_kind();
    let agent = agent_kind();
    let bundle = KindBundle::new(
        &person,
        vec![
            Component::new(NAME, Value::Text("Carol".to_string())),
            Component::new(AGE, Value::Int(31)),
        ],
    )
    .nest(KindBundle::new(
        &agent,
        vec![
            Component::new(SPEED, Value::Int(9)),
            Component::new(CLEARANCE, Value::Int(2)),
        ],
    ));
    let mut commands = world.commands();
    let handle = commands.spawn_with_bundle(bundle).get();
    world.execute(commands);
    let e = handle.entity();
    assert!(world.try_with_kind(e, &person).is_some());
    assert!(world.try_with_kind(e, &agent).is_some());
    for id in [NAME, AGE, FRIENDS, POSITION, SPEED, CLEARANCE] {
        assert!(world.contains(e, id), "component {} missing", id);
    }
}

#[test]
fn try_with_kind_missing_marker_returns_none() {
    let mut world = World::new();
    let container = EntityKind::new(
        CONTAINER,
        vec![CAPACITY],
        vec![Component::new(ITEMS, Value::Links(vec![]))],
    );
    let alice = spawn_person(&mut world, "Alice", 25);
    assert!(world.try_with_kind(alice.entity(), &container).is_none());
    // an identifier never spawned at all
    assert!(world
        .try_with_kind(Entity { id: 999 }, &container)
        .is_none());
}

#[test]
fn upcast_keeps_identifier_and_query_matches() {
    let mut world = World::new();
    let agent = agent_kind();
    // a person kind whose required set is a superset including the agent's
    let person = EntityKind::new(
        PERSON,
        vec![NAME, AGE, SPEED, CLEARANCE],
        vec![
            Component::new(FRIENDS, Value::Links(vec![])),
            Component::new(POSITION, Value::Int(0)),
        ],
    );
    let mut commands = world.commands();
    let person_value = commands
        .spawn_with_kind(
            &person,
            vec![
                Component::new(NAME, Value::Text("Dave".to_string())),
                Component::new(AGE, Value::Int(40)),
                Component::new(SPEED, Value::Int(3)),
                Component::new(CLEARANCE, Value::Int(1)),
            ],
        )
        .get();
    // the author-asserted upcast: every such person carries everything an
    // agent needs, so the agent's marker is attached alongside
    commands
        .with_kind(&person_value)
        .insert(&mut commands, agent_kind().marker());
    world.execute(commands);
    let agent_value = person_value.cast(&agent);
    assert_eq!(agent_value.entity(), person_value.entity());
    let rows = world.query(&WithKind::new(&agent));
    assert_eq!(rows.len(), 1);
    assert_eq!(rows[0].entity(), person_value.entity());
    assert!(rows[0] == agent_value);
}

#[test]
fn try_with_kind_present_iff_marker() {
    let mut world = World::new();
    let person = person_kind();
    let alice = spawn_person(&mut world, "Alice", 25);
    let found = world.try_with_kind(alice.entity(), &person);
    assert!(found.is_some());
    assert_eq!(found.unwrap().entity(), alice.entity());
    // a marker attached by hand is all the runtime check inspects
    let mut commands = world.commands();
    let loose = commands.spawn().id();
    commands.entity(loose).insert(&mut commands, person.marker());
    world.execute(commands);
    assert!(world.try_with_kind(loose, &person).is_some());
    // removing the marker makes the check miss again
    world.remove(loose, PERSON);
    assert!(world.try_with_kind(loose, &person).is_none());
}

#[test]
fn handles_report_source_entity() {
    let mut world = World::new();
    let person = person_kind();
    let agent = agent_kind();
    let mut commands = world.commands();
    let p = commands.spawn_with_kind(
        &person,
        vec![
            Component::new(NAME, Value::Text("Erin".to_string())),
            Component::new(AGE, Value::Int(29)),
        ],
    );
    let e = p.entity();
    assert_eq!(p.get().entity(), e);
    assert_eq!(p.as_entity().id(), e);
    world.execute(commands);
    let checked = world.try_with_kind(e, &person).unwrap();
    assert_eq!(checked.entity(), e);
    assert_eq!(checked.cast(&agent).entity(), e);
    assert_eq!(EntityWithKind::from_entity_unchecked(e, &person).entity(), e);
    let rows = world.query(&WithKind::new(&person));
    assert_eq!(rows.len(), 1);
    assert_eq!(rows[0].entity(), e);
    assert_eq!(rows[0].get().entity(), e);
}

#[test]
fn second_kind_leaves_first_untouched() {
    let mut world = World::new();
    let person = person_kind();
    let agent = agent_kind();
    let alice = spawn_person(&mut world, "Alice", 25);
    let e = alice.entity();
    let mut commands = world.commands();
    commands.entity(e).insert_kind(
        &mut commands,
        &agent,
        vec![
            Component::new(SPEED, Value::Int(12)),
            Component::new(CLEARANCE, Value::Int(4)),
        ],
    );
    world.execute(commands);
    assert!(world.try_with_kind(e, &person).is_some());
    assert!(world.try_with_kind(e, &agent).is_some());
    assert_eq!(
        world.get(e, NAME),
        Some(&Value::Text("Alice".to_string()))
    );
    assert_eq!(world.get(e, AGE), Some(&Value::Int(25)));
    assert_eq!(world.get(e, FRIENDS), Some(&Value::Links(vec![])));
    assert_eq!(world.get(e, SPEED), Some(&Value::Int(12)));
    assert_eq!(world.get(e, POSITION), Some(&Value::Int(0)));
}

#[test]
fn defaults_are_independent_per_entity() {
    let mut world = World::new();
    let alice = spawn_person(&mut world, "Alice", 25);
    let bob = spawn_person(&mut world, "Bob", 27);
    assert_ne!(alice.entity(), bob.entity());
    // mutate one entity's default component
    let mut commands = world.commands();
    commands.with_kind(&alice).insert(
        &mut commands,
        Component::new(FRIENDS, Value::Links(vec![bob.entity()])),
    );
    world.execute(commands);
    assert_eq!(friends_of(&world, alice.entity()), vec![bob.entity()]);
    // the other's stays untouched
    assert_eq!(friends_of(&world, bob.entity()), vec![]);
}

#[test]
fn query_lists_marked_entities_in_order() {
    let mut world = World::new();
    let person = person_kind();
    let containable = EntityKind::new(CONTAINABLE, vec![], vec![]);
    let alice = spawn_person(&mut world, "Alice", 25);
    let mut commands = world.commands();
    let stray = commands.spawn_with_kind(&containable, vec![]).get();
    world.execute(commands);
    let bob = spawn_person(&mut world, "Bob", 27);
    let rows = world.query(&WithKind::new(&person));
    assert_eq!(rows.len(), 2);
    assert_eq!(rows[0].entity(), alice.entity());
    assert_eq!(rows[1].entity(), bob.entity());
    assert!(world.query(&WithKind::new(&containable)).len() == 1);
    assert_eq!(world.query(&WithKind::new(&containable))[0].entity(), stray.entity());
}

#[test]
fn insert_overwrites_existing_component() {
    let mut world = World::new();
    let alice = spawn_person(&mut world, "Alice", 25);
    let mut commands = world.commands();
    commands
        .with_kind(&alice)
        .insert(&mut commands, Component::new(AGE, Value::Int(26)));
    world.execute(commands);
    assert_eq!(world.get(alice.entity(), AGE), Some(&Value::Int(26)));
}

#[test]
fn removal_breaks_guarantee_silently() {
    let mut world = World::new();
    let person = person_kind();
    let alice = spawn_person(&mut world, "Alice", 25);
    let e = alice.entity();
    // out-of-band removal of a required component: the marker still stands
    world.remove(e, AGE);
    assert!(world.try_with_kind(e, &person).is_some());
    assert!(!world.contains(e, AGE));
    // deferred removal through the kind-scoped pass-through does the same
    let mut commands = world.commands();
    commands.with_kind(&alice).remove(&mut commands, NAME);
    world.execute(commands);
    assert!(world.try_with_kind(e, &person).is_some());
    assert!(!world.contains(e, NAME));
}

#[test]
fn bundle_clone_establishes_second_entity() {
    let mut world = World::new();
    let person = person_kind();
    let bundle = KindBundle::new(
        &person,
        vec![
            Component::new(NAME, Value::Text("Twin".to_string())),
            Component::new(AGE, Value::Int(8)),
        ],
    );
    let copy = bundle.clone();
    let mut commands = world.commands();
    let first = commands.spawn_with_bundle(bundle).get();
    let second = commands.spawn_with_bundle(copy).get();
    world.execute(commands);
    assert_ne!(first.entity(), second.entity());
    for e in [first.entity(), second.entity()] {
        assert!(world.try_with_kind(e, &person).is_some());
        assert_eq!(world.get(e, NAME), Some(&Value::Text("Twin".to_string())));
        assert_eq!(world.get(e, AGE), Some(&Value::Int(8)));
        assert_eq!(world.get(e, FRIENDS), Some(&Value::Links(vec![])));
    }
}

#[test]
fn kind_accessors_report_declaration() {
    let person = person_kind();
    assert_eq!(person.id(), PERSON);
    assert_eq!(person.mandatory_components(), &vec![NAME, AGE]);
    let defaults = person.default_components();
    assert_eq!(defaults.len(), 1);
    assert_eq!(defaults[0], Component::new(FRIENDS, Value::Links(vec![])));
    let marker = person.marker();
    assert_eq!(marker, Component::new(PERSON, Value::Flag));
}

#[test]
fn deferred_ops_apply_only_on_execute() {
    let mut world = World::new();
    let person = person_kind();
    let mut commands = world.commands();
    let p = commands.spawn_with_kind(
        &person,
        vec![
            Component::new(NAME, Value::Text("Late".to_string())),
            Component::new(AGE, Value::Int(1)),
        ],
    );
    let e = p.entity();
    // nothing has landed yet: the queue is deferred
    assert!(world.try_with_kind(e, &person).is_none());
    assert!(!world.contains(e, NAME));
    world.execute(commands);
    assert!(world.try_with_kind(e, &person).is_some());
    assert!(world.contains(e, NAME));
}

#[test]
fn unchecked_wrappers_keep_identity() {
    let mut world = World::new();
    let person = person_kind();
    let alice = spawn_person(&mut world, "Alice", 25);
    let e = alice.entity();
    let commands = world.commands();
    let scoped = commands.entity(e);
    assert_eq!(scoped.id(), e);
    let typed = kindly::EntityKindCommands::from_entity_unchecked(scoped, &person);
    assert_eq!(typed.entity(), e);
    assert_eq!(typed.get().entity(), e);
    assert_eq!(typed.as_entity().id(), e);
}

#[test]
fn direct_store_attach_is_immediate() {
    let mut world = World::new();
    let person = person_kind();
    let alice = spawn_person(&mut world, "Alice", 25);
    let e = alice.entity();
    world.insert(e, Component::new(POSITION, Value::Int(17)));
    assert_eq!(world.get(e, POSITION), Some(&Value::Int(17)));
    assert!(world.try_with_kind(e, &person).is_some());
}

#[test]
fn bundle_flattens_marker_defaults_then_mandatory() {
    let person = person_kind();
    let bundle = KindBundle::new(
        &person,
        vec![
            Component::new(NAME, Value::Text("Flat".to_string())),
            Component::new(AGE, Value::Int(2)),
        ],
    );
    assert_eq!(bundle.kind(), PERSON);
    let components = bundle.into_components();
    assert_eq!(components.len(), 4);
    assert_eq!(components[0], Component::new(PERSON, Value::Flag));
    assert_eq!(components[1], Component::new(FRIENDS, Value::Links(vec![])));
    assert_eq!(components[2], Component::new(NAME, Value::Text("Flat".to_string())));
    assert_eq!(components[3], Component::new(AGE, Value::Int(2)));
}
