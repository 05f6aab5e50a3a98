//! What the server reads of the game state: the entities by the components that
//! matter to it, and the chunks of terrain that are loaded.

use crate::ecs::{ecs_ready, ecs_records, join_records};
use crate::geometry::{
    cell_is_unique, cell_of, column_key, column_key_and_offset, Vec2i, Vec2u, Vec3i,
};
use vstd::prelude::*;

verus! {

/// An entity. An index is used again once its entity is gone; the generation
/// tells the later from the earlier.
#[derive(Clone, Copy, Debug, PartialEq, Eq, Structural)]
pub struct Entity {
    pub index: u32,
    pub generation: i32,
}

/// A living entity and its components.
#[derive(Clone, Copy, Debug, PartialEq, Eq, Structural)]
pub struct EntityRecord {
    pub entity: Entity,
    /// Someone is connected through this entity.
    pub client: bool,
    /// The block it is in.
    pub pos: Option<Vec3i>,
    pub player: bool,
    /// The chunk it was created with.
    pub home_chunk: Option<Vec2i>,
    /// What it is known as to the simulation of the far-off world.
    pub rtsim: Option<usize>,
    pub admin: bool,
    pub uid: Option<u64>,
}

/// The terrain, by what is loaded of it.
#[derive(Debug)]
pub struct TerrainGrid {
    pub chunk_size: Vec2u,
    /// The keys of the loaded chunks, in the order in which they are walked.
    pub loaded: Vec<Vec2i>,
}

/// The game state, by what the server reads of it.
#[derive(Debug)]
pub struct State {
    /// The living entities by index.
    pub entities: Vec<EntityRecord>,
    pub terrain: TerrainGrid,
}

/// The record of `entity`, if it lives.
pub open spec fn find_record(records: Seq<EntityRecord>, entity: Entity) -> Option<EntityRecord>
    decreases records.len(),
{
    if records.len() == 0 {
        None
    } else if records[0].entity == entity {
        Some(records[0])
    } else {
        find_record(records.drop_first(), entity)
    }
}

/// How many of the entities someone is connected through.
pub open spec fn count_clients(records: Seq<EntityRecord>) -> nat
    decreases records.len(),
{
    if records.len() == 0 {
        0
    } else {
        count_clients(records.drop_last()) + if records.last().client {
            1nat
        } else {
            0
        }
    }
}

/// The records come by index, and no index comes twice.
pub open spec fn by_index(records: Seq<EntityRecord>) -> bool {
    forall|i: int, j: int|
        0 <= i < j < records.len() ==> (#[trigger] records[i]).entity.index < (
        #[trigger] records[j]).entity.index
}

/// No living entity has this index.
pub open spec fn index_is_free(records: Seq<EntityRecord>, index: u32) -> bool {
    forall|i: int| 0 <= i < records.len() ==> (#[trigger] records[i]).entity.index != index
}

/// How many entities come before `index`.
pub open spec fn place_for(records: Seq<EntityRecord>, index: u32) -> nat
    decreases records.len(),
{
    if records.len() == 0 || records[0].entity.index >= index {
        0
    } else {
        1 + place_for(records.drop_first(), index)
    }
}

/// The record of an entity that was just created for a client.
pub open spec fn client_record(entity: Entity, uid: Option<u64>) -> EntityRecord {
    EntityRecord {
        entity,
        client: true,
        pos: None,
        player: false,
        home_chunk: None,
        rtsim: None,
        admin: false,
        uid,
    }
}

impl TerrainGrid {
    /// The chunks have columns.
    pub open spec fn wf(self) -> bool {
        self.chunk_size.is_chunk_size()
    }

    /// The chunk under `key` is loaded.
    pub open spec fn is_loaded(self, key: Vec2i) -> bool {
        self.loaded@.contains(key)
    }

    /// The key of the chunk that holds the block `pos`.
    pub open spec fn key_of(self, pos: Vec3i) -> Vec2i {
        column_key(Vec2i { x: pos.x, y: pos.y }, self.chunk_size)
    }

    /// The key of the chunk that holds the block `pos`.
    pub fn pos_key(&self, pos: Vec3i) -> (key: Vec2i)
        requires
            self.wf(),
        ensures
            key == self.key_of(pos),
    {
        Vec2i { x: cell_of(pos.x, self.chunk_size.x), y: cell_of(pos.y, self.chunk_size.y) }
    }

    /// Whether the chunk under `key` is loaded.
    pub fn has_key(&self, key: Vec2i) -> (r: bool)
        ensures
            r == self.is_loaded(key),
    {
        let mut i: usize = 0;
        while i < self.loaded.len()
            invariant
                i <= self.loaded@.len(),
                forall|j: int| 0 <= j < i ==> self.loaded@[j] != key,
            decreases self.loaded@.len() - i,
        {
            if self.loaded[i] == key {
                return true;
            }
            i = i + 1;
        }
        false
    }
}

/// An entity has strayed: it is somewhere, it is no player, the chunk it is in is
/// not loaded, and neither is its home chunk if it has one.
pub open spec fn is_stray(terrain: TerrainGrid, record: EntityRecord) -> bool {
    &&& !record.player
    &&& record.pos matches Some(pos) && !terrain.is_loaded(terrain.key_of(pos))
    &&& record.home_chunk matches Some(home) ==> !terrain.is_loaded(home)
}

/// The strayed entities in the order of the records.
pub open spec fn strays(terrain: TerrainGrid, records: Seq<EntityRecord>) -> Seq<EntityRecord>
    decreases records.len(),
{
    if records.len() == 0 {
        Seq::empty()
    } else {
        let rest = strays(terrain, records.drop_last());
        if is_stray(terrain, records.last()) {
            rest.push(records.last())
        } else {
            rest
        }
    }
}

/// One step of the removal of entities that have strayed.
#[derive(Clone, Copy, Debug, PartialEq, Eq, Structural)]
pub enum CleanupStep {
    /// The simulation of the far-off world takes the entity back.
    Assimilate(usize),
    Delete(Entity),
}

/// What is done about one strayed entity.
pub open spec fn removal(record: EntityRecord) -> Seq<CleanupStep> {
    match record.rtsim {
        Some(id) => seq![CleanupStep::Assimilate(id), CleanupStep::Delete(record.entity)],
        None => seq![CleanupStep::Delete(record.entity)],
    }
}

/// What is done about strayed entities, one after the other.
pub open spec fn removals(records: Seq<EntityRecord>) -> Seq<CleanupStep>
    decreases records.len(),
{
    if records.len() == 0 {
        Seq::empty()
    } else {
        removals(records.drop_last()) + removal(records.last())
    }
}

proof fn lemma_adjacent_by_index(records: Seq<EntityRecord>, n: int)
    requires
        0 < n < records.len(),
        by_index(records.take(n)),
        records[n - 1].entity.index < records[n].entity.index,
    ensures
        by_index(records.take(n + 1)),
{
    let seen = records.take(n);
    let next = records.take(n + 1);
    assert forall|i: int, j: int| 0 <= i < j < next.len() implies (#[trigger] next[i]).entity.index
        < (#[trigger] next[j]).entity.index by {
        if j < n {
            assert(seen[i].entity.index < seen[j].entity.index);
        } else if i < n - 1 {
            assert(seen[i].entity.index < seen[n - 1].entity.index);
        }
    }
}

impl State {
    /// The entities come by index, none twice, and the terrain is well formed.
    pub open spec fn wf(self) -> bool {
        &&& by_index(self.entities@)
        &&& self.terrain.wf()
    }

    /// The record of `entity`, if it lives.
    pub open spec fn record(self, entity: Entity) -> Option<EntityRecord> {
        find_record(self.entities@, entity)
    }

    /// Someone is connected through `entity`.
    pub open spec fn is_client(self, entity: Entity) -> bool {
        self.record(entity) matches Some(record) && record.client
    }

    /// How many are connected.
    pub open spec fn clients(self) -> nat {
        count_clients(self.entities@)
    }

    /// A game that has just begun: no entity lives, and no chunk is loaded.
    pub fn server(chunk_size: Vec2u) -> (state: State)
        requires
            chunk_size.is_chunk_size(),
        ensures
            state.wf(),
            state.entities@.len() == 0,
            state.terrain.loaded@.len() == 0,
            state.terrain.chunk_size == chunk_size,
    {
        State { entities: Vec::new(), terrain: TerrainGrid { chunk_size, loaded: Vec::new() } }
    }

    /// Whether the entities come by index, none twice, and the terrain is well
    /// formed.
    pub fn is_well_formed(&self) -> (r: bool)
        ensures
            r == self.wf(),
    {
        if !self.terrain.chunk_size.has_chunk_sides() {
            return false;
        }
        let ghost all = self.entities@;
        let mut i: usize = 1;
        while i < self.entities.len()
            invariant
                all == self.entities@,
                1 <= i,
                i <= all.len() || i == 1,
                i <= all.len() ==> by_index(all.take(i as int)),
            decreases all.len() - i,
        {
            if self.entities[i - 1].entity.index >= self.entities[i].entity.index {
                assert(all[i - 1].entity.index >= all[i as int].entity.index);
                return false;
            }
            proof {
                lemma_adjacent_by_index(all, i as int);
            }
            i = i + 1;
        }
        assert(all.len() > 0 ==> all.take(all.len() as int) =~= all);
        true
    }

    /// Takes up what lives in the entity store, and the chunks that are loaded, in
    /// place of what was known before.
    pub fn refresh(&mut self, ecs: &mut specs::World, loaded: Vec<Vec2i>)
        requires
            old(self).terrain.wf(),
            ecs_ready(*old(ecs)),
        ensures
            final(self).wf(),
            final(self).entities@ == ecs_records(*old(ecs)),
            final(self).terrain.loaded@ == loaded@,
            final(self).terrain.chunk_size == old(self).terrain.chunk_size,
            ecs_ready(*final(ecs)),
            ecs_records(*final(ecs)) == ecs_records(*old(ecs)),
    {
        self.entities = join_records(ecs);
        self.terrain.loaded = loaded;
    }

    /// The record of `entity`, if it lives.
    pub fn get(&self, entity: Entity) -> (record: Option<EntityRecord>)
        ensures
            record == self.record(entity),
    {
        let mut i: usize = 0;
        assert(self.entities@.skip(0) =~= self.entities@);
        while i < self.entities.len()
            invariant
                i <= self.entities@.len(),
                self.record(entity) == find_record(self.entities@.skip(i as int), entity),
            decreases self.entities@.len() - i,
        {
            assert(self.entities@.skip(i as int)[0] == self.entities@[i as int]);
            if self.entities[i].entity == entity {
                return Some(self.entities[i]);
            }
            assert(self.entities@.skip(i as int).drop_first() =~= self.entities@.skip(i + 1));
            i = i + 1;
        }
        None
    }

    /// Whether someone is connected through `entity`.
    pub fn has_client(&self, entity: Entity) -> (r: bool)
        ensures
            r == self.is_client(entity),
    {
        match self.get(entity) {
            Some(record) => record.client,
            None => false,
        }
    }

    /// How many are connected.
    pub fn count(&self) -> (n: usize)
        ensures
            n == self.clients(),
            n <= self.entities@.len(),
    {
        let mut n: usize = 0;
        let mut i: usize = 0;
        while i < self.entities.len()
            invariant
                i <= self.entities@.len(),
                n <= i,
                n == count_clients(self.entities@.take(i as int)),
            decreases self.entities@.len() - i,
        {
            assert(self.entities@.take(i + 1).drop_last() =~= self.entities@.take(i as int));
            if self.entities[i].client {
                n = n + 1;
            }
            i = i + 1;
        }
        assert(self.entities@.take(self.entities@.len() as int) =~= self.entities@);
        n
    }

    /// Whether no living entity has this index.
    pub fn has_free_index(&self, index: u32) -> (r: bool)
        ensures
            r == index_is_free(self.entities@, index),
    {
        let mut i: usize = 0;
        while i < self.entities.len()
            invariant
                i <= self.entities@.len(),
                forall|j: int|
                    0 <= j < i ==> (#[trigger] self.entities@[j]).entity.index != index,
            decreases self.entities@.len() - i,
        {
            if self.entities[i].entity.index == index {
                assert(self.entities@[i as int].entity.index == index);
                return false;
            }
            i = i + 1;
        }
        true
    }

    /// Adds the entity that was just created for a client.
    pub fn add_client(&mut self, entity: Entity, uid: Option<u64>)
        requires
            old(self).wf(),
            index_is_free(old(self).entities@, entity.index),
        ensures
            final(self).wf(),
            final(self).terrain == old(self).terrain,
            final(self).entities@ == old(self).entities@.insert(
                place_for(old(self).entities@, entity.index) as int,
                client_record(entity, uid),
            ),
            final(self).clients() == old(self).clients() + 1,
            final(self).record(entity) == Some(client_record(entity, uid)),
            forall|other: Entity|
                other != entity ==> #[trigger] final(self).record(other) == old(self).record(other),
    {
        let ghost before = self.entities@;
        let mut i: usize = 0;
        while i < self.entities.len() && self.entities[i].entity.index < entity.index
            invariant
                *self == *old(self),
                before == self.entities@,
                i <= before.len(),
                forall|j: int| 0 <= j < i ==> (#[trigger] before[j]).entity.index < entity.index,
            decreases before.len() - i,
        {
            i = i + 1;
        }
        let record = EntityRecord {
            entity,
            client: true,
            pos: None,
            player: false,
            home_chunk: None,
            rtsim: None,
            admin: false,
            uid,
        };
        self.entities.insert(i, record);
        proof {
            lemma_place_for(before, entity.index, i as int);
            lemma_insert_keeps_order(before, i as int, record);
            lemma_count_inserted(before, i as int, record);
            assert forall|sought: Entity|
                #[trigger] self.record(sought) == if sought == entity {
                    Some(record)
                } else {
                    find_record(before, sought)
                } by {
                lemma_find_inserted(before, i as int, record, sought);
            }
        }
    }

    /// The entities that have strayed beyond the loaded terrain.
    pub fn find_strays(&self) -> (found: Vec<EntityRecord>)
        requires
            self.wf(),
        ensures
            found@ == strays(self.terrain, self.entities@),
    {
        let mut found: Vec<EntityRecord> = Vec::new();
        let mut i: usize = 0;
        while i < self.entities.len()
            invariant
                self.wf(),
                i <= self.entities@.len(),
                found@ == strays(self.terrain, self.entities@.take(i as int)),
            decreases self.entities@.len() - i,
        {
            let record = self.entities[i];
            assert(self.entities@.take(i + 1).drop_last() =~= self.entities@.take(i as int));
            if !record.player {
                if let Some(pos) = record.pos {
                    let chunk_key = self.terrain.pos_key(pos);
                    let home_unloaded = match record.home_chunk {
                        Some(home) => !self.terrain.has_key(home),
                        None => true,
                    };
                    if !self.terrain.has_key(chunk_key) && home_unloaded {
                        found.push(record);
                    }
                }
            }
            i = i + 1;
        }
        assert(self.entities@.take(self.entities@.len() as int) =~= self.entities@);
        found
    }

    /// What is to be done about the entities that have strayed, in this order.
    pub fn cleanup_steps(&self) -> (steps: Vec<CleanupStep>)
        requires
            self.wf(),
        ensures
            steps@ == removals(strays(self.terrain, self.entities@)),
    {
        let to_delete = self.find_strays();
        let mut steps: Vec<CleanupStep> = Vec::new();
        let mut i: usize = 0;
        while i < to_delete.len()
            invariant
                i <= to_delete@.len(),
                steps@ == removals(to_delete@.take(i as int)),
            decreases to_delete@.len() - i,
        {
            let ghost before = steps@;
            let record = to_delete[i];
            assert(to_delete@.take(i + 1).drop_last() =~= to_delete@.take(i as int));
            if let Some(id) = record.rtsim {
                steps.push(CleanupStep::Assimilate(id));
            }
            steps.push(CleanupStep::Delete(record.entity));
            assert(steps@ =~= before + removal(record));
            i = i + 1;
        }
        assert(to_delete@.take(to_delete@.len() as int) =~= to_delete@);
        steps
    }
}

proof fn lemma_place_for(records: Seq<EntityRecord>, index: u32, n: int)
    requires
        0 <= n <= records.len(),
        forall|j: int| 0 <= j < n ==> (#[trigger] records[j]).entity.index < index,
        n < records.len() ==> records[n].entity.index >= index,
    ensures
        place_for(records, index) == n,
    decreases records.len(),
{
    if n > 0 {
        let rest = records.drop_first();
        assert(records[0].entity.index < index);
        assert forall|j: int| 0 <= j < n - 1 implies (#[trigger] rest[j]).entity.index < index by {
            assert(rest[j] == records[j + 1]);
        }
        lemma_place_for(rest, index, n - 1);
    }
}

proof fn lemma_insert_keeps_order(records: Seq<EntityRecord>, n: int, record: EntityRecord)
    requires
        by_index(records),
        index_is_free(records, record.entity.index),
        0 <= n <= records.len(),
        forall|j: int| 0 <= j < n ==> (#[trigger] records[j]).entity.index < record.entity.index,
        n < records.len() ==> records[n].entity.index >= record.entity.index,
    ensures
        by_index(records.insert(n, record)),
{
    let after = records.insert(n, record);
    assert forall|i: int, j: int| 0 <= i < j < after.len() implies (
    #[trigger] after[i]).entity.index < (#[trigger] after[j]).entity.index by {
        if i < n && j > n {
            assert(records[i].entity.index < records[j - 1].entity.index);
        } else if i == n {
            assert(records[n].entity.index != record.entity.index);
            if j - 1 > n {
                assert(records[n].entity.index < records[j - 1].entity.index);
            }
        } else if i > n {
            assert(records[i - 1].entity.index < records[j - 1].entity.index);
        }
    }
}

proof fn lemma_count_inserted(records: Seq<EntityRecord>, n: int, record: EntityRecord)
    requires
        0 <= n <= records.len(),
        record.client,
    ensures
        count_clients(records.insert(n, record)) == count_clients(records) + 1,
    decreases records.len(),
{
    let after = records.insert(n, record);
    if n == records.len() {
        assert(after.drop_last() =~= records);
    } else {
        assert(after.drop_last() =~= records.drop_last().insert(n, record));
        lemma_count_inserted(records.drop_last(), n, record);
    }
}

proof fn lemma_find_inserted(
    records: Seq<EntityRecord>,
    n: int,
    record: EntityRecord,
    sought: Entity,
)
    requires
        0 <= n <= records.len(),
        index_is_free(records, record.entity.index),
    ensures
        find_record(records.insert(n, record), sought) == if sought == record.entity {
            Some(record)
        } else {
            find_record(records, sought)
        },
    decreases records.len(),
{
    let after = records.insert(n, record);
    if n == 0 {
        assert(after.drop_first() =~= records);
    } else {
        let rest = records.drop_first();
        assert(after.drop_first() =~= rest.insert(n - 1, record));
        assert(records[0].entity.index != record.entity.index);
        assert forall|i: int| 0 <= i < rest.len() implies (#[trigger] rest[i]).entity.index
            != record.entity.index by {
            assert(rest[i] == records[i + 1]);
        }
        lemma_find_inserted(rest, n - 1, record, sought);
    }
}

/// Living entities have different indices, so that there are no more of them than
/// there are indices, and no more clients than that.
pub proof fn entities_are_bounded(records: Seq<EntityRecord>)
    requires
        by_index(records),
    ensures
        count_clients(records) <= records.len() <= u32::MAX + 1,
{
    lemma_count_bounded(records);
    if records.len() > 0 {
        lemma_index_at_least(records, records.len() - 1);
    }
}

proof fn lemma_count_bounded(records: Seq<EntityRecord>)
    ensures
        count_clients(records) <= records.len(),
    decreases records.len(),
{
    if records.len() > 0 {
        lemma_count_bounded(records.drop_last());
    }
}

proof fn lemma_index_at_least(records: Seq<EntityRecord>, i: int)
    requires
        by_index(records),
        0 <= i < records.len(),
    ensures
        records[i].entity.index >= i,
    decreases i,
{
    if i > 0 {
        lemma_index_at_least(records, i - 1);
        assert(records[i - 1].entity.index < records[i].entity.index);
    }
}

/// Just the strays among the entities are found: a player, an entity that is
/// nowhere, and one whose chunk or home chunk is loaded stay.
pub proof fn strays_are_strays(
    terrain: TerrainGrid,
    records: Seq<EntityRecord>,
    record: EntityRecord,
)
    ensures
        strays(terrain, records).contains(record) <==> records.contains(record) && is_stray(
            terrain,
            record,
        ),
    decreases records.len(),
{
    if records.len() > 0 {
        let rest = records.drop_last();
        let last = records.last();
        let found = strays(terrain, rest);
        strays_are_strays(terrain, rest, record);
        assert(records.contains(record) <==> rest.contains(record) || record == last) by {
            if rest.contains(record) {
                let i = rest.index_of(record);
                assert(records[i] == record);
            }
            if record == last {
                assert(records[records.len() - 1] == record);
            }
            if records.contains(record) && record != last {
                let i = records.index_of(record);
                assert(rest[i] == record);
            }
        }
        assert(found.push(last).contains(record) <==> found.contains(record) || record == last) by {
            if found.contains(record) {
                let i = found.index_of(record);
                assert(found.push(last)[i] == record);
            }
            if record == last {
                assert(found.push(last)[found.len() as int] == record);
            }
            if found.push(last).contains(record) && record != last {
                let i = found.push(last).index_of(record);
                assert(found[i] == record);
            }
        }
    }
}

/// The removal of some entities deletes them and no others.
pub proof fn removals_delete(records: Seq<EntityRecord>, entity: Entity)
    ensures
        removals(records).contains(CleanupStep::Delete(entity)) <==> exists|i: int|
            0 <= i < records.len() && (#[trigger] records[i]).entity == entity,
    decreases records.len(),
{
    let step = CleanupStep::Delete(entity);
    if records.len() > 0 {
        let rest = records.drop_last();
        let last = records.last();
        let head = removals(rest);
        let tail = removal(last);
        removals_delete(rest, entity);
        lemma_steps_concat(head, tail, step);
        assert(tail.contains(step) <==> last.entity == entity) by {
            assert(tail[tail.len() - 1] == CleanupStep::Delete(last.entity));
        }
        if head.contains(step) {
            let i = choose|i: int| 0 <= i < rest.len() && (#[trigger] rest[i]).entity == entity;
            assert(records[i].entity == entity);
        }
        if last.entity == entity {
            assert(records[records.len() - 1].entity == entity);
        }
        if exists|i: int| 0 <= i < records.len() && (#[trigger] records[i]).entity == entity {
            let i = choose|i: int| 0 <= i < records.len() && (#[trigger] records[i]).entity == entity;
            if i < rest.len() {
                assert(rest[i].entity == entity);
            }
        }
    }
}

/// The removal of some entities hands those back to the simulation of the far-off
/// world that it knows, and no others.
pub proof fn removals_assimilate(records: Seq<EntityRecord>, id: usize)
    ensures
        removals(records).contains(CleanupStep::Assimilate(id)) <==> exists|i: int|
            0 <= i < records.len() && (#[trigger] records[i]).rtsim == Some(id),
    decreases records.len(),
{
    let step = CleanupStep::Assimilate(id);
    if records.len() > 0 {
        let rest = records.drop_last();
        let last = records.last();
        let head = removals(rest);
        let tail = removal(last);
        removals_assimilate(rest, id);
        lemma_steps_concat(head, tail, step);
        assert(tail.contains(step) <==> last.rtsim == Some(id)) by {
            if last.rtsim == Some(id) {
                assert(tail[0] == step);
            }
        }
        if head.contains(step) {
            let i = choose|i: int| 0 <= i < rest.len() && (#[trigger] rest[i]).rtsim == Some(id);
            assert(records[i].rtsim == Some(id));
        }
        if last.rtsim == Some(id) {
            assert(records[records.len() - 1].rtsim == Some(id));
        }
        if exists|i: int| 0 <= i < records.len() && (#[trigger] records[i]).rtsim == Some(id) {
            let i = choose|i: int| 0 <= i < records.len() && (#[trigger] records[i]).rtsim == Some(id);
            if i < rest.len() {
                assert(rest[i].rtsim == Some(id));
            }
        }
    }
}

proof fn lemma_steps_concat(head: Seq<CleanupStep>, tail: Seq<CleanupStep>, step: CleanupStep)
    ensures
        (head + tail).contains(step) <==> head.contains(step) || tail.contains(step),
{
    if head.contains(step) {
        let i = head.index_of(step);
        assert((head + tail)[i] == step);
    }
    if tail.contains(step) {
        let i = tail.index_of(step);
        assert((head + tail)[head.len() + i] == step);
    }
    if (head + tail).contains(step) {
        let i = (head + tail).index_of(step);
        if i < head.len() {
            assert(head[i] == step);
        } else {
            assert(tail[i - head.len()] == step);
        }
    }
}

/// An entity is deleted just when it has strayed. So no player is ever deleted,
/// nor an entity that is nowhere, nor one whose chunk or home chunk is loaded.
pub proof fn deleted_just_when_stray(state: State, entity: Entity)
    requires
        state.wf(),
    ensures
        removals(strays(state.terrain, state.entities@)).contains(CleanupStep::Delete(entity))
            <==> (state.record(entity) matches Some(record) && is_stray(state.terrain, record)),
{
    let records = state.entities@;
    let found = strays(state.terrain, records);
    removals_delete(found, entity);
    lemma_find_record(records, entity);
    if exists|i: int| 0 <= i < found.len() && (#[trigger] found[i]).entity == entity {
        let i = choose|i: int| 0 <= i < found.len() && (#[trigger] found[i]).entity == entity;
        strays_are_strays(state.terrain, records, found[i]);
        assert(found.contains(found[i]));
        let j = records.index_of(found[i]);
        assert(records[j].entity == entity);
        let record = state.record(entity)->0;
        let k = records.index_of(record);
        if j < k {
            assert(records[j].entity.index < records[k].entity.index);
        } else if k < j {
            assert(records[k].entity.index < records[j].entity.index);
        }
    }
    if let Some(record) = state.record(entity) {
        if is_stray(state.terrain, record) {
            strays_are_strays(state.terrain, records, record);
            let i = found.index_of(record);
            assert(found[i].entity == entity);
        }
    }
}

/// No entity is deleted twice by one cleanup.
pub proof fn deleted_at_most_once(state: State, entity: Entity, i: int, j: int)
    requires
        state.wf(),
        0 <= i < removals(strays(state.terrain, state.entities@)).len(),
        0 <= j < removals(strays(state.terrain, state.entities@)).len(),
        removals(strays(state.terrain, state.entities@))[i] == CleanupStep::Delete(entity),
        removals(strays(state.terrain, state.entities@))[j] == CleanupStep::Delete(entity),
    ensures
        i == j,
{
    lemma_strays_by_index(state.terrain, state.entities@);
    lemma_deleted_once(strays(state.terrain, state.entities@), entity, i, j);
}

proof fn lemma_strays_by_index(terrain: TerrainGrid, records: Seq<EntityRecord>)
    requires
        by_index(records),
    ensures
        by_index(strays(terrain, records)),
    decreases records.len(),
{
    if records.len() > 0 {
        let rest = records.drop_last();
        let last = records.last();
        let found = strays(terrain, rest);
        let all = strays(terrain, records);
        assert forall|i: int, j: int| 0 <= i < j < rest.len() implies (
        #[trigger] rest[i]).entity.index < (#[trigger] rest[j]).entity.index by {
            assert(records[i].entity.index < records[j].entity.index);
        }
        lemma_strays_by_index(terrain, rest);
        assert forall|i: int, j: int| 0 <= i < j < all.len() implies (
        #[trigger] all[i]).entity.index < (#[trigger] all[j]).entity.index by {
            if j < found.len() {
                assert(found[i].entity.index < found[j].entity.index);
            } else {
                assert(all[i] == found[i]);
                strays_are_strays(terrain, rest, found[i]);
                assert(found.contains(found[i]));
                let k = rest.index_of(found[i]);
                assert(records[k].entity.index < records[records.len() - 1].entity.index);
            }
        }
    }
}

proof fn lemma_deleted_once(records: Seq<EntityRecord>, entity: Entity, i: int, j: int)
    requires
        by_index(records),
        0 <= i < removals(records).len(),
        0 <= j < removals(records).len(),
        removals(records)[i] == CleanupStep::Delete(entity),
        removals(records)[j] == CleanupStep::Delete(entity),
    ensures
        i == j,
    decreases records.len(),
{
    let rest = records.drop_last();
    let last = records.last();
    let head = removals(rest);
    let tail = removal(last);
    assert(removals(records) == head + tail);
    assert forall|m: int, n: int| 0 <= m < n < rest.len() implies (
    #[trigger] rest[m]).entity.index < (#[trigger] rest[n]).entity.index by {
        assert(records[m].entity.index < records[n].entity.index);
    }
    if i < head.len() || j < head.len() {
        let first = if i < head.len() {
            i
        } else {
            j
        };
        assert(head[first] == CleanupStep::Delete(entity));
        assert(head.contains(CleanupStep::Delete(entity)));
        removals_delete(rest, entity);
        let k = choose|k: int| 0 <= k < rest.len() && (#[trigger] rest[k]).entity == entity;
        assert(records[k].entity.index < records[records.len() - 1].entity.index);
        assert(last.entity != entity);
        if i < head.len() && j < head.len() {
            assert(head[i] == removals(records)[i]);
            assert(head[j] == removals(records)[j]);
            lemma_deleted_once(rest, entity, i, j);
        } else {
            let second = if i < head.len() {
                j
            } else {
                i
            };
            assert(tail[second - head.len()] == CleanupStep::Delete(entity));
        }
    } else {
        assert(tail[i - head.len()] == CleanupStep::Delete(entity));
        assert(tail[j - head.len()] == CleanupStep::Delete(entity));
    }
}

proof fn lemma_find_record(records: Seq<EntityRecord>, entity: Entity)
    ensures
        match find_record(records, entity) {
            Some(record) => records.contains(record) && record.entity == entity,
            None => forall|i: int|
                0 <= i < records.len() ==> (#[trigger] records[i]).entity != entity,
        },
    decreases records.len(),
{
    if records.len() > 0 {
        let rest = records.drop_first();
        lemma_find_record(rest, entity);
        if records[0].entity == entity {
            assert(records.contains(records[0]));
        } else {
            match find_record(rest, entity) {
                Some(record) => {
                    let i = rest.index_of(record);
                    assert(records[i + 1] == record);
                },
                None => {
                    assert forall|i: int| 0 <= i < records.len() implies (
                    #[trigger] records[i]).entity != entity by {
                        if i > 0 {
                            assert(rest[i - 1].entity != entity);
                        }
                    }
                },
            }
        }
    }
}

/// Living entities are known by ascending indices.
pub proof fn order_is_by_ascending_index(records: Seq<EntityRecord>)
    ensures
        by_index(records) <==> forall|i: int, j: int|
            0 <= i < j < records.len() ==> (#[trigger] records[i]).entity.index < (
            #[trigger] records[j]).entity.index,
{
}

/// A well-formed state has its entities by ascending index, and chunks with columns;
/// nothing more is asked of it.
pub proof fn well_formed_states(state: State)
    ensures
        state.wf() <==> {
            &&& by_index(state.entities@)
            &&& 1 <= state.terrain.chunk_size.x <= 0x7fff_ffff
            &&& 1 <= state.terrain.chunk_size.y <= 0x7fff_ffff
        },
{
}

/// The record of an entity is the one that names it, index and generation; there is
/// none just where no record does.
pub proof fn records_are_found_by_entity(state: State, entity: Entity, record: EntityRecord)
    requires
        state.wf(),
    ensures
        state.record(entity) == Some(record) <==> state.entities@.contains(record)
            && record.entity.index == entity.index && record.entity.generation
            == entity.generation,
        state.record(entity) is None <==> forall|i: int|
            0 <= i < state.entities@.len() ==> (#[trigger] state.entities@[i]).entity != entity,
{
    let records = state.entities@;
    lemma_find_record(records, entity);
    if records.contains(record) && record.entity == entity {
        let i = records.index_of(record);
        let found = state.record(entity)->0;
        let j = records.index_of(found);
        if i < j {
            assert(records[i].entity.index < records[j].entity.index);
        } else if j < i {
            assert(records[j].entity.index < records[i].entity.index);
        }
    }
    if let Some(found) = state.record(entity) {
        let j = records.index_of(found);
        assert(records[j].entity == entity);
    }
}

/// Someone is connected through an entity just when its record says so.
pub proof fn clients_are_the_connected(state: State, entity: Entity)
    requires
        state.wf(),
    ensures
        state.is_client(entity) <==> exists|i: int|
            0 <= i < state.entities@.len() && (#[trigger] state.entities@[i]).entity == entity
                && state.entities@[i].client,
{
    let records = state.entities@;
    if state.is_client(entity) {
        let record = state.record(entity)->0;
        records_are_found_by_entity(state, entity, record);
        let i = records.index_of(record);
        assert(records[i].entity == entity && records[i].client);
    }
    if exists|i: int|
        0 <= i < records.len() && (#[trigger] records[i]).entity == entity && records[i].client {
        let i = choose|i: int|
            0 <= i < records.len() && (#[trigger] records[i]).entity == entity && records[i].client;
        records_are_found_by_entity(state, entity, records[i]);
        assert(records.contains(records[i]));
    }
}

/// The connected are counted by their clients and by nothing else: nobody is
/// connected where nothing lives, one more record adds one if it has a client and
/// nothing if it has none, and the count is that of the records with a client.
pub proof fn clients_are_counted_one_by_one(records: Seq<EntityRecord>, record: EntityRecord)
    ensures
        count_clients(Seq::empty()) == 0,
        record.client ==> count_clients(records.push(record)) == count_clients(records) + 1,
        !record.client ==> count_clients(records.push(record)) == count_clients(records),
        count_clients(records) == records.filter(|r: EntityRecord| r.client).len(),
{
    assert(records.push(record).drop_last() =~= records);
    lemma_count_is_filter(records);
}

/// How many are connected is the count of the living entities with a client.
pub proof fn the_state_counts_its_clients(state: State)
    ensures
        state.clients() == state.entities@.filter(|r: EntityRecord| r.client).len(),
{
    lemma_count_is_filter(state.entities@);
}

proof fn lemma_count_is_filter(records: Seq<EntityRecord>)
    ensures
        count_clients(records) == records.filter(|r: EntityRecord| r.client).len(),
    decreases records.len(),
{
    reveal(Seq::filter);
    if records.len() > 0 {
        lemma_count_is_filter(records.drop_last());
    }
}

/// The record of a new client says that someone is connected, and nothing else.
pub proof fn new_clients_have_nothing_but_a_connection(entity: Entity, uid: Option<u64>)
    ensures
        client_record(entity, uid).entity == entity,
        client_record(entity, uid).uid == uid,
        client_record(entity, uid).client,
        client_record(entity, uid).pos is None,
        !client_record(entity, uid).player,
        client_record(entity, uid).home_chunk is None,
        client_record(entity, uid).rtsim is None,
        !client_record(entity, uid).admin,
{
}

/// The place for an index is behind all lower indices and before all others.
pub proof fn places_go_by_index(records: Seq<EntityRecord>, index: u32, i: int)
    requires
        by_index(records),
        0 <= i < records.len(),
    ensures
        place_for(records, index) <= records.len(),
        i < place_for(records, index) <==> records[i].entity.index < index,
    decreases records.len(),
{
    let rest = records.drop_first();
    assert forall|m: int, n: int| 0 <= m < n < rest.len() implies (
    #[trigger] rest[m]).entity.index < (#[trigger] rest[n]).entity.index by {
        assert(records[m + 1].entity.index < records[n + 1].entity.index);
    }
    if i > 0 {
        assert(records[0].entity.index < records[i].entity.index);
        places_go_by_index(rest, index, i - 1);
        assert(rest[i - 1] == records[i]);
    } else if rest.len() > 0 {
        places_go_by_index(rest, index, 0);
    }
}

/// An index is free just where no living entity has it.
pub proof fn free_indices_are_those_of_nobody(records: Seq<EntityRecord>, index: u32)
    ensures
        index_is_free(records, index) <==> !exists|i: int|
            0 <= i < records.len() && (#[trigger] records[i]).entity.index == index,
{
}

/// Terrain is loaded where its key is listed, and the key of a block is that of the
/// chunk whose columns hold it.
pub proof fn blocks_lie_in_the_chunk_of_their_key(terrain: TerrainGrid, pos: Vec3i, key: Vec2i)
    requires
        terrain.wf(),
    ensures
        terrain.is_loaded(key) <==> terrain.loaded@.contains(key),
        terrain.key_of(pos) == key <==> {
            &&& key.x * terrain.chunk_size.x <= pos.x < key.x * terrain.chunk_size.x
                + terrain.chunk_size.x
            &&& key.y * terrain.chunk_size.y <= pos.y < key.y * terrain.chunk_size.y
                + terrain.chunk_size.y
        },
{
    let size = terrain.chunk_size;
    column_key_and_offset(Vec2i { x: pos.x, y: pos.y }, size);
    let dx = pos.x - key.x * size.x;
    let dy = pos.y - key.y * size.y;
    if 0 <= dx < size.x && 0 <= dy < size.y {
        cell_is_unique(pos.x as int, size.x as int, key.x as int, dx);
        cell_is_unique(pos.y as int, size.y as int, key.y as int, dy);
    }
}

/// An entity is deleted just when it is no player, is somewhere, and neither the
/// chunk that it is in nor its home chunk, if it has one, is among the loaded ones.
/// `key` is that of the chunk that it is in.
pub proof fn cleanup_deletes_just_the_strayed(state: State, i: int, key: Vec2i)
    requires
        state.wf(),
        0 <= i < state.entities@.len(),
        state.entities@[i].pos matches Some(pos) ==> {
            &&& key.x * state.terrain.chunk_size.x <= pos.x < key.x * state.terrain.chunk_size.x
                + state.terrain.chunk_size.x
            &&& key.y * state.terrain.chunk_size.y <= pos.y < key.y * state.terrain.chunk_size.y
                + state.terrain.chunk_size.y
        },
    ensures
        removals(strays(state.terrain, state.entities@)).contains(
            CleanupStep::Delete(state.entities@[i].entity),
        ) <==> {
            &&& !state.entities@[i].player
            &&& state.entities@[i].pos is Some
            &&& !state.terrain.loaded@.contains(key)
            &&& state.entities@[i].home_chunk matches Some(home)
                ==> !state.terrain.loaded@.contains(home)
        },
{
    let record = state.entities@[i];
    deleted_just_when_stray(state, record.entity);
    assert(state.entities@.contains(record));
    records_are_found_by_entity(state, record.entity, record);
    if let Some(pos) = record.pos {
        blocks_lie_in_the_chunk_of_their_key(state.terrain, pos, key);
    }
}

/// An entity whose home chunk is loaded is never deleted, wherever it is.
pub proof fn loaded_homes_protect(state: State, i: int, home: Vec2i)
    requires
        state.wf(),
        0 <= i < state.entities@.len(),
        state.entities@[i].home_chunk == Some(home),
        state.terrain.loaded@.contains(home),
    ensures
        !removals(strays(state.terrain, state.entities@)).contains(
            CleanupStep::Delete(state.entities@[i].entity),
        ),
{
    let record = state.entities@[i];
    deleted_just_when_stray(state, record.entity);
    assert(state.entities@.contains(record));
    records_are_found_by_entity(state, record.entity, record);
}

/// Nothing is deleted that does not live.
pub proof fn cleanup_deletes_only_the_living(state: State, entity: Entity)
    requires
        state.wf(),
        forall|i: int|
            0 <= i < state.entities@.len() ==> (#[trigger] state.entities@[i]).entity != entity,
    ensures
        !removals(strays(state.terrain, state.entities@)).contains(CleanupStep::Delete(entity)),
{
    deleted_just_when_stray(state, entity);
    lemma_find_record(state.entities@, entity);
    if let Some(record) = state.record(entity) {
        let i = state.entities@.index_of(record);
        assert(state.entities@[i].entity != entity);
    }
}

/// The strayed are found by ascending index, and they are those of the living that
/// are no players, are somewhere, and have neither their chunk nor their home chunk
/// among the loaded ones. `key` is that of the chunk that the entity is in.
pub proof fn strays_are_exact(state: State, record: EntityRecord, key: Vec2i, m: int, n: int)
    requires
        state.wf(),
        record.pos matches Some(pos) ==> {
            &&& key.x * state.terrain.chunk_size.x <= pos.x < key.x * state.terrain.chunk_size.x
                + state.terrain.chunk_size.x
            &&& key.y * state.terrain.chunk_size.y <= pos.y < key.y * state.terrain.chunk_size.y
                + state.terrain.chunk_size.y
        },
    ensures
        strays(state.terrain, state.entities@).contains(record) <==> {
            &&& state.entities@.contains(record)
            &&& !record.player
            &&& record.pos is Some
            &&& !state.terrain.loaded@.contains(key)
            &&& record.home_chunk matches Some(home) ==> !state.terrain.loaded@.contains(home)
        },
        0 <= m < n < strays(state.terrain, state.entities@).len() ==> strays(
            state.terrain,
            state.entities@,
        )[m].entity.index < strays(state.terrain, state.entities@)[n].entity.index,
{
    strays_are_strays(state.terrain, state.entities@, record);
    lemma_strays_by_index(state.terrain, state.entities@);
    if let Some(pos) = record.pos {
        blocks_lie_in_the_chunk_of_their_key(state.terrain, pos, key);
    }
}

/// The simulation of the far-off world takes an entity back just before it is
/// deleted, under the name that it knows the entity by, and does so for every
/// deleted entity that it knows. Entities go by ascending index.
pub proof fn cleanup_takes_back_before_it_deletes(state: State, m: int, n: int)
    requires
        state.wf(),
        0 <= m <= n < removals(strays(state.terrain, state.entities@)).len(),
    ensures
        ({
            let steps = removals(strays(state.terrain, state.entities@));
            &&& steps[n] matches CleanupStep::Assimilate(id) ==> {
                &&& n + 1 < steps.len()
                &&& steps[n + 1] matches CleanupStep::Delete(entity)
                &&& state.record(entity) matches Some(record)
                &&& record.rtsim == Some(id)
            }
            &&& steps[n] matches CleanupStep::Delete(entity) ==> {
                &&& state.record(entity) matches Some(record)
                &&& record.rtsim matches Some(id) ==> n > 0 && steps[n - 1]
                    == CleanupStep::Assimilate(id)
            }
            &&& m < n && steps[m] is Delete && steps[n] is Delete
                ==> steps[m]->Delete_0.index < steps[n]->Delete_0.index
        }),
{
    let found = strays(state.terrain, state.entities@);
    lemma_strays_by_index(state.terrain, state.entities@);
    assert forall|i: int| 0 <= i < found.len() implies state.record(
        (#[trigger] found[i]).entity,
    ) == Some(found[i]) by {
        strays_are_strays(state.terrain, state.entities@, found[i]);
        assert(found.contains(found[i]));
        records_are_found_by_entity(state, found[i].entity, found[i]);
    }
    lemma_steps_of_removals(found, m, n);
}

proof fn lemma_steps_of_removals(records: Seq<EntityRecord>, m: int, n: int)
    requires
        by_index(records),
        0 <= m <= n < removals(records).len(),
    ensures
        removals(records)[n] matches CleanupStep::Assimilate(id) ==> {
            &&& n + 1 < removals(records).len()
            &&& exists|i: int|
                0 <= i < records.len() && (#[trigger] records[i]).rtsim == Some(id)
                    && removals(records)[n + 1] == CleanupStep::Delete(records[i].entity)
        },
        removals(records)[n] matches CleanupStep::Delete(entity) ==> exists|i: int|
            0 <= i < records.len() && (#[trigger] records[i]).entity == entity && (
            records[i].rtsim matches Some(id) ==> n > 0 && removals(records)[n - 1]
                == CleanupStep::Assimilate(id)),
        m < n && removals(records)[m] is Delete && removals(records)[n] is Delete ==> removals(
            records,
        )[m]->Delete_0.index < removals(records)[n]->Delete_0.index,
    decreases records.len(),
{
    let rest = records.drop_last();
    let last = records.last();
    let head = removals(rest);
    let tail = removal(last);
    let steps = removals(records);
    assert(steps == head + tail);
    assert forall|i: int, j: int| 0 <= i < j < rest.len() implies (
    #[trigger] rest[i]).entity.index < (#[trigger] rest[j]).entity.index by {
        assert(records[i].entity.index < records[j].entity.index);
    }
    if n < head.len() {
        lemma_steps_of_removals(rest, m, n);
        assert(steps[n] == head[n] && steps[m] == head[m]);
        if let CleanupStep::Assimilate(id) = head[n] {
            let i = choose|i: int|
                0 <= i < rest.len() && (#[trigger] rest[i]).rtsim == Some(id) && head[n + 1]
                    == CleanupStep::Delete(rest[i].entity);
            assert(records[i] == rest[i]);
            assert(steps[n + 1] == head[n + 1]);
        }
        if let CleanupStep::Delete(entity) = head[n] {
            let i = choose|i: int|
                0 <= i < rest.len() && (#[trigger] rest[i]).entity == entity && (
                rest[i].rtsim matches Some(id) ==> n > 0 && head[n - 1] == CleanupStep::Assimilate(
                    id,
                ));
            assert(records[i] == rest[i]);
        }
    } else {
        assert(records[records.len() - 1] == last);
        assert(steps[n] == tail[n - head.len()]);
        if m < head.len() && steps[m] is Delete && steps[n] is Delete {
            let entity = steps[m]->Delete_0;
            assert(head[m] == CleanupStep::Delete(entity));
            assert(head.contains(head[m]));
            removals_delete(rest, entity);
            let k = choose|k: int| 0 <= k < rest.len() && (#[trigger] rest[k]).entity == entity;
            assert(records[k].entity.index < records[records.len() - 1].entity.index);
        } else if m >= head.len() {
            assert(steps[m] == tail[m - head.len()]);
        }
    }
}

} // verus!
