//! The entity store: the components by which the server knows its entities, and
//! how they are read.

use crate::geometry::{Vec2i, Vec3i};
use crate::state::{by_index, Entity, EntityRecord};
use specs::{Entities, Join, ReadStorage, WorldExt};
use vstd::prelude::*;

verus! {

/// The store of the entities, their components and the resources of the game.
#[verifier::external_type_specification]
#[verifier::external_body]
pub struct ExWorld(specs::World);

/// Components of one kind, packed without gaps.
#[verifier::external_type_specification]
#[verifier::external_body]
#[verifier::reject_recursive_types(T)]
pub struct ExDenseVecStorage<T>(specs::DenseVecStorage<T>);

/// Someone is connected through the entity.
#[derive(Debug)]
pub struct Client;

/// The entity is a player's.
#[derive(Debug)]
pub struct Player;

/// The entity is an administrator's.
#[derive(Debug)]
pub struct Admin;

/// The block that the entity is in.
#[derive(Debug)]
pub struct BlockPos(pub Vec3i);

/// The chunk that the entity was created with.
#[derive(Debug)]
pub struct HomeChunk(pub Vec2i);

/// What the entity is known as to the simulation of the far-off world.
#[derive(Debug)]
pub struct RtSimEntity(pub usize);

/// What the entity is known as to clients.
#[derive(Debug)]
pub struct Uid(pub u64);

impl specs::Component for Client {
    type Storage = specs::DenseVecStorage<Self>;
}

impl specs::Component for Player {
    type Storage = specs::DenseVecStorage<Self>;
}

impl specs::Component for Admin {
    type Storage = specs::DenseVecStorage<Self>;
}

impl specs::Component for BlockPos {
    type Storage = specs::DenseVecStorage<Self>;
}

impl specs::Component for HomeChunk {
    type Storage = specs::DenseVecStorage<Self>;
}

impl specs::Component for RtSimEntity {
    type Storage = specs::DenseVecStorage<Self>;
}

impl specs::Component for Uid {
    type Storage = specs::DenseVecStorage<Self>;
}

/// The entities of a store and the components that the server reads.
type Stores<'a> = (
    Entities<'a>,
    ReadStorage<'a, Client>,
    ReadStorage<'a, Player>,
    ReadStorage<'a, Admin>,
    ReadStorage<'a, BlockPos>,
    ReadStorage<'a, HomeChunk>,
    ReadStorage<'a, RtSimEntity>,
    ReadStorage<'a, Uid>,
);

/// The living entities of a store and their components, by index.
pub uninterp spec fn ecs_records(ecs: specs::World) -> Seq<EntityRecord>;

/// The store keeps entities, has a place for every component that the server
/// reads, and has none of them locked.
pub uninterp spec fn ecs_ready(ecs: specs::World) -> bool;

/// Calls `specs::World::new`, which makes a store without entities, and
/// `World::register` for each component that the server reads, which gives the
/// component a place in the store. The contract claims that nothing lives in the
/// store and that the entities and their components can be read.
#[verifier::external_body]
fn make_world() -> (ecs: specs::World)
    ensures
        ecs_ready(ecs),
        ecs_records(ecs).len() == 0,
{
    let mut ecs = specs::World::new();
    ecs.register::<Client>();
    ecs.register::<Player>();
    ecs.register::<Admin>();
    ecs.register::<BlockPos>();
    ecs.register::<HomeChunk>();
    ecs.register::<RtSimEntity>();
    ecs.register::<Uid>();
    ecs
}

/// Calls `join` of `specs::Join` on the entities of the store and, each with
/// `maybe`, the components that the server reads. It walks the living entities by
/// ascending index, those included that were created since the store was last
/// maintained, and hands out each with its components. The contract claims that
/// these are the records of the store, in that order, that no index comes twice,
/// and that the store stays what it was. It is borrowed for writing so that nobody
/// else can be at work in it.
#[verifier::external_body]
pub(crate) fn join_records(ecs: &mut specs::World) -> (records: Vec<EntityRecord>)
    requires
        ecs_ready(*old(ecs)),
    ensures
        ecs_ready(*final(ecs)),
        ecs_records(*final(ecs)) == ecs_records(*old(ecs)),
        records@ == ecs_records(*old(ecs)),
        by_index(records@),
{
    let (e, c, p, a, b, h, r, u): Stores = ecs.system_data();
    let (c, p, a, b) = ((&c).maybe(), (&p).maybe(), (&a).maybe(), (&b).maybe());
    let (h, r, u) = ((&h).maybe(), (&r).maybe(), (&u).maybe());
    (&e, (c, p, a, b, h, r, u))
        .join()
        .map(|(e, parts)| record_of(e.id(), e.gen().id(), parts))
        .collect()
}

/// The record of an entity and its components.
fn record_of(
    index: u32,
    generation: i32,
    parts: (
        Option<&Client>,
        Option<&Player>,
        Option<&Admin>,
        Option<&BlockPos>,
        Option<&HomeChunk>,
        Option<&RtSimEntity>,
        Option<&Uid>,
    ),
) -> (record: EntityRecord)
    ensures
        record.entity == (Entity { index, generation }),
        record.client == parts.0 is Some,
        record.player == parts.1 is Some,
        record.admin == parts.2 is Some,
        record.pos == match parts.3 {
            Some(pos) => Some(pos.0),
            None => None,
        },
        record.home_chunk == match parts.4 {
            Some(home) => Some(home.0),
            None => None,
        },
        record.rtsim == match parts.5 {
            Some(id) => Some(id.0),
            None => None,
        },
        record.uid == match parts.6 {
            Some(uid) => Some(uid.0),
            None => None,
        },
{
    let (client, player, admin, pos, home_chunk, rtsim, uid) = parts;
    EntityRecord {
        entity: Entity { index, generation },
        client: client.is_some(),
        pos: match pos {
            Some(pos) => Some(pos.0),
            None => None,
        },
        player: player.is_some(),
        home_chunk: match home_chunk {
            Some(home) => Some(home.0),
            None => None,
        },
        rtsim: match rtsim {
            Some(id) => Some(id.0),
            None => None,
        },
        admin: admin.is_some(),
        uid: match uid {
            Some(uid) => Some(uid.0),
            None => None,
        },
    }
}

/// A store without entities.
pub fn new_ecs() -> (ecs: specs::World)
    ensures
        ecs_ready(ecs),
        ecs_records(ecs).len() == 0,
{
    make_world()
}

/// A record names its entity and says of each component whether the entity has it,
/// and what it holds.
proof fn records_hold_their_components(
    index: u32,
    generation: i32,
    client: Option<&Client>,
    player: Option<&Player>,
    admin: Option<&Admin>,
    pos: Option<&BlockPos>,
    home: Option<&HomeChunk>,
    rtsim: Option<&RtSimEntity>,
    uid: Option<&Uid>,
    record: EntityRecord,
)
    requires
        call_ensures(
            record_of,
            (index, generation, (client, player, admin, pos, home, rtsim, uid)),
            record,
        ),
    ensures
        record.entity.index == index,
        record.entity.generation == generation,
        record.client <==> client is Some,
        record.player <==> player is Some,
        record.admin <==> admin is Some,
        record.pos is Some <==> pos is Some,
        pos matches Some(p) ==> record.pos == Some(p.0),
        record.home_chunk is Some <==> home is Some,
        home matches Some(h) ==> record.home_chunk == Some(h.0),
        record.rtsim is Some <==> rtsim is Some,
        rtsim matches Some(r) ==> record.rtsim == Some(r.0),
        record.uid is Some <==> uid is Some,
        uid matches Some(u) ==> record.uid == Some(u.0),
{
}

} // verus!
