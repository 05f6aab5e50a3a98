use specs::{Builder, World, WorldExt};
use veloren_server::chunks::{reload_steps, ChunkJob, ReloadStep};
use veloren_server::ecs::{
    new_ecs, Admin, BlockPos, Client, HomeChunk, Player, RtSimEntity, Uid,
};
use veloren_server::geometry::{Vec2i, Vec2u, Vec3i};
use veloren_server::messages::{Effect, ServerEvent, ServerGeneral};
use veloren_server::persistence::{
    react_to_all, CharacterLoaderResponse, CharacterLoaderResponseKind,
};
use veloren_server::state::{CleanupStep, Entity, EntityRecord, State};

const CHUNK: Vec2u = Vec2u { x: 32, y: 32 };

fn entity(e: specs::Entity) -> Entity {
    Entity { index: e.id(), generation: e.gen().id() }
}

fn key(x: i32, y: i32) -> Vec2i {
    Vec2i { x, y }
}

fn read(ecs: &mut World, loaded: Vec<Vec2i>) -> State {
    let mut state = State::server(CHUNK);
    state.refresh(ecs, loaded);
    state
}

/// A game that the entities with these indices are connected through.
fn connected(indices: &[u32]) -> State {
    let mut state = State::server(CHUNK);
    for index in indices {
        state.add_client(Entity { index: *index, generation: 1 }, None);
    }
    state
}

fn shown(effects: Vec<Effect<u8, u16>>) -> Vec<String> {
    effects
        .into_iter()
        .map(|e| match e {
            Effect::Send(to, ServerGeneral::CharacterListUpdate(list)) => format!("{} list {}", to.index, list),
            Effect::Send(to, ServerGeneral::CharacterActionError(e)) => format!("{} action error {}", to.index, e),
            Effect::Send(to, ServerGeneral::CharacterCreated(id)) => format!("{} created {}", to.index, id),
            Effect::Send(to, ServerGeneral::CharacterDataLoadError(e)) => format!("{} load error {}", to.index, e),
            Effect::Send(to, _) => format!("{} something else", to.index),
            Effect::Emit(ServerEvent::UpdateCharacterData { entity, components }) => {
                format!("update {} {}", entity.index, components)
            },
            Effect::Emit(ServerEvent::ExitIngame { entity }) => format!("exit {}", entity.index),
        })
        .collect()
}

fn response(
    index: u32,
    result: CharacterLoaderResponseKind<u8, u16>,
) -> CharacterLoaderResponse<u8, u16> {
    CharacterLoaderResponse { entity: Entity { index, generation: 1 }, result }
}

#[test]
fn a_new_store_is_empty() {
    assert_eq!(read(&mut new_ecs(), vec![]).entities, vec![]);
}

#[test]
fn entities_are_read_with_their_components() {
    let mut ecs = new_ecs();
    let bare = ecs.create_entity().build();
    let full = ecs
        .create_entity()
        .with(Client)
        .with(Player)
        .with(Admin)
        .with(BlockPos(Vec3i { x: 1, y: -2, z: 3 }))
        .with(HomeChunk(key(4, -5)))
        .with(RtSimEntity(6))
        .with(Uid(7))
        .build();
    let state = read(&mut ecs, vec![key(0, 0)]);
    assert_eq!(
        state.entities,
        vec![
            EntityRecord {
                entity: entity(bare),
                client: false,
                pos: None,
                player: false,
                home_chunk: None,
                rtsim: None,
                admin: false,
                uid: None,
            },
            EntityRecord {
                entity: entity(full),
                client: true,
                pos: Some(Vec3i { x: 1, y: -2, z: 3 }),
                player: true,
                home_chunk: Some(key(4, -5)),
                rtsim: Some(6),
                admin: true,
                uid: Some(7),
            },
        ]
    );
    assert_eq!(state.terrain.loaded, vec![key(0, 0)]);
}

#[test]
fn entities_come_by_index_and_the_dead_do_not_come() {
    let mut ecs = new_ecs();
    let made: Vec<specs::Entity> = (0..70).map(|n| ecs.create_entity().with(Uid(n)).build()).collect();
    ecs.delete_entity(made[3]).unwrap();
    ecs.delete_entity(made[64]).unwrap();
    ecs.maintain();
    let again = ecs.create_entity().with(Client).build();
    let state = read(&mut ecs, vec![]);
    assert_eq!(state.entities.len(), 69);
    assert!(state.entities.windows(2).all(|w| w[0].entity.index < w[1].entity.index));
    assert_eq!(state.get(entity(made[3])), None);
    assert_eq!(state.get(entity(made[69])).unwrap().uid, Some(69));
    assert!(state.has_client(entity(again)));
    assert_eq!(state.count(), 1);
}

#[test]
fn entities_created_since_the_last_maintenance_are_read() {
    let mut ecs = new_ecs();
    let made = ecs.create_entity().build();
    let raised = ecs.entities().create();
    let state = read(&mut ecs, vec![]);
    let found: Vec<Entity> = state.entities.iter().map(|r| r.entity).collect();
    assert_eq!(found, vec![entity(made), entity(raised)]);
}

#[test]
fn reading_the_store_replaces_what_was_known() {
    let mut ecs = new_ecs();
    ecs.create_entity().with(Client).build();
    let mut state = connected(&[5, 9]);
    assert_eq!(state.count(), 2);
    state.refresh(&mut ecs, vec![key(1, 1)]);
    assert_eq!(state.count(), 1);
    assert_eq!(state.terrain.chunk_size, CHUNK);
    state.refresh(&mut ecs, vec![]);
    assert_eq!(state.count(), 1);
    assert_eq!(state.terrain.loaded, vec![]);
}

#[test]
fn clients_are_kept_by_index() {
    let state = connected(&[7, 2, 5]);
    let indices: Vec<u32> = state.entities.iter().map(|r| r.entity.index).collect();
    assert_eq!(indices, vec![2, 5, 7]);
    assert_eq!(state.count(), 3);
    assert!(state.has_client(Entity { index: 5, generation: 1 }));
    assert!(!state.has_client(Entity { index: 5, generation: 2 }));
    assert!(!state.has_client(Entity { index: 6, generation: 1 }));
}

#[test]
fn terrain_is_looked_up_by_chunk() {
    let state = read(&mut new_ecs(), vec![key(-1, 0)]);
    assert_eq!(state.terrain.pos_key(Vec3i { x: -1, y: 31, z: 999 }), key(-1, 0));
    assert_eq!(state.terrain.pos_key(Vec3i { x: 32, y: -33, z: 0 }), key(1, -2));
    assert!(state.terrain.has_key(key(-1, 0)));
    assert!(!state.terrain.has_key(key(0, 0)));
}

#[test]
fn strays_are_taken_back_and_deleted() {
    let mut ecs = new_ecs();
    let gone = BlockPos(Vec3i { x: 100, y: 100, z: 0 });
    let stray = ecs.create_entity().with(gone).build();
    let simulated = ecs
        .create_entity()
        .with(BlockPos(Vec3i { x: -40, y: 0, z: 0 }))
        .with(HomeChunk(key(9, 9)))
        .with(RtSimEntity(12))
        .build();
    let steps = read(&mut ecs, vec![key(0, 0)]).cleanup_steps();
    assert_eq!(
        steps,
        vec![
            CleanupStep::Delete(entity(stray)),
            CleanupStep::Assimilate(12),
            CleanupStep::Delete(entity(simulated)),
        ]
    );
}

#[test]
fn players_and_those_at_home_stay() {
    let mut ecs = new_ecs();
    let away = || BlockPos(Vec3i { x: 100, y: 100, z: 0 });
    ecs.create_entity().with(away()).with(Player).build();
    ecs.create_entity().with(away()).with(HomeChunk(key(0, 0))).build();
    ecs.create_entity().with(BlockPos(Vec3i { x: 31, y: 0, z: -5 })).build();
    ecs.create_entity().with(RtSimEntity(1)).build();
    let state = read(&mut ecs, vec![key(0, 0)]);
    assert_eq!(state.find_strays(), vec![]);
    assert_eq!(state.cleanup_steps(), vec![]);
}

#[test]
fn an_empty_server_forgets_its_terrain() {
    let mut state = State::server(CHUNK);
    state.terrain.loaded = vec![key(0, 0), key(1, 0)];
    assert_eq!(reload_steps(&state), vec![ReloadStep::CancelAll, ReloadStep::ClearTerrain]);
}

#[test]
fn a_server_with_clients_makes_its_terrain_anew() {
    let mut state = connected(&[0]);
    state.terrain.loaded = vec![key(3, 1), key(-2, 0)];
    let job = |key| ReloadStep::Generate(ChunkJob { requester: None, key });
    assert_eq!(
        reload_steps(&state),
        vec![ReloadStep::CancelAll, job(key(3, 1)), job(key(-2, 0))]
    );
    state.terrain.loaded = vec![];
    assert_eq!(reload_steps(&state), vec![ReloadStep::CancelAll]);
}

#[test]
fn answers_of_the_database_reach_the_client() {
    let state = connected(&[1]);
    let responses = vec![
        response(1, CharacterLoaderResponseKind::CharacterList(Ok(3))),
        response(1, CharacterLoaderResponseKind::CharacterList(Err("no list".to_string()))),
        response(1, CharacterLoaderResponseKind::CharacterCreation(Ok((-8, 4)))),
        response(1, CharacterLoaderResponseKind::CharacterCreation(Err("no room".to_string()))),
        response(1, CharacterLoaderResponseKind::CharacterData(Ok(77))),
        response(1, CharacterLoaderResponseKind::CharacterData(Err("no data".to_string()))),
    ];
    assert_eq!(
        shown(react_to_all(&state, responses)),
        vec![
            "1 list 3",
            "1 action error no list",
            "1 list 4",
            "1 created -8",
            "1 action error no room",
            "update 1 77",
            "1 load error no data",
            "exit 1",
        ]
    );
}

#[test]
fn answers_to_those_who_left_are_not_sent() {
    let state = connected(&[1]);
    let responses = vec![
        response(2, CharacterLoaderResponseKind::CharacterList(Ok(3))),
        response(2, CharacterLoaderResponseKind::CharacterCreation(Ok((5, 4)))),
        response(2, CharacterLoaderResponseKind::CharacterCreation(Err("no room".to_string()))),
        response(2, CharacterLoaderResponseKind::CharacterData(Ok(77))),
        response(2, CharacterLoaderResponseKind::CharacterData(Err("no data".to_string()))),
    ];
    assert_eq!(shown(react_to_all(&state, responses)), vec!["update 2 77", "exit 2"]);
}

#[test]
fn answers_in_two_batches_are_dealt_with_as_in_one() {
    let state = connected(&[1, 2]);
    let list = |n| response(n, CharacterLoaderResponseKind::CharacterList(Ok(n as u8)));
    let mut split = shown(react_to_all(&state, vec![list(1)]));
    split.append(&mut shown(react_to_all(&state, vec![list(2), list(3)])));
    assert_eq!(shown(react_to_all(&state, vec![list(1), list(2), list(3)])), split);
    assert_eq!(split, vec!["1 list 1", "2 list 2"]);
}

#[test]
fn no_entity_is_deleted_twice() {
    let mut ecs = new_ecs();
    for n in 0..5 {
        ecs.create_entity().with(BlockPos(Vec3i { x: 500, y: n, z: 0 })).with(RtSimEntity(7)).build();
    }
    let steps = read(&mut ecs, vec![]).cleanup_steps();
    let deleted: Vec<CleanupStep> =
        steps.iter().copied().filter(|s| matches!(s, CleanupStep::Delete(_))).collect();
    assert_eq!(deleted.len(), 5);
    assert!((1..5).all(|i| !deleted[..i].contains(&deleted[i])));
}

#[test]
fn indices_of_the_living_are_not_free() {
    let state = connected(&[2, 7]);
    assert!(!state.has_free_index(2));
    assert!(!state.has_free_index(7));
    assert!(state.has_free_index(5));
    assert!(connected(&[]).has_free_index(0));
}

#[test]
fn a_state_out_of_order_is_noticed() {
    let mut state = connected(&[2, 5, 7]);
    assert!(state.is_well_formed());
    state.entities.swap(0, 2);
    assert!(!state.is_well_formed());
    let mut state = connected(&[2]);
    state.entities.push(state.entities[0]);
    assert!(!state.is_well_formed());
    let mut state = connected(&[]);
    assert!(state.is_well_formed());
    state.terrain.chunk_size = Vec2u { x: 0, y: 1 };
    assert!(!state.is_well_formed());
}
