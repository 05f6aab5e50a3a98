//! The server: its settings, what it knows of the game, and what it decides.

use crate::admin::{self, with_admin, without_admin, AdminChange};
use crate::banned_words::{
    all_words, load_banned_words, parsed_files, BannedWordsFile,
};
use crate::chat::{
    answer, answer_lines, args_of, keyword_of, plugin_event, split_command, ChatAction, ChatCall,
    ChatCommandEvent, ChatLine, PluginOutcome,
};
use crate::chunks::{reload, reload_steps, ChunkJob, ReloadStep};
use crate::connections::{
    client_action, connection_events, has_room, record_connections, ClientAction, ClientEvent,
    Greeting,
};
use crate::geometry::{Vec2i, Vec2u};
use crate::messages::{
    effect_views, notice, notify, ChatType, DisconnectReason, Effect, EffectView, Event, GameSync,
    MessageView, ServerGeneral, ServerInfo, SyncData,
};
use crate::persistence::{react_to_all, reactions, CharacterLoaderResponse};
use crate::settings::{
    is_thread_record, BuildInfo, DataDir, EditableSettings, HwStats, ServerError, Settings, TimeSpan,
};
use crate::spawn::{
    find_spawn_point, is_spawn_chunk, is_spawn_point, middle_column, spawn_column_is_central,
    SpawnPoint, SpawnSurvey,
};
use crate::state::{
    client_record, entities_are_bounded, index_is_free, place_for, removals, strays, CleanupStep,
    Entity, State,
};
use crate::text::{pieces, texts};
use crate::tick::{begun, Tick, TickRun, TickStart};
use vstd::prelude::*;

verus! {

/// A server. The world and its map are handed out as they were handed in, so
/// their types are left to the caller, as is how a map is named.
#[derive(Debug)]
pub struct Server<W, M, F> {
    pub state: State,
    pub world: W,
    pub map: M,
    pub settings: Settings<F>,
    pub editable_settings: EditableSettings,
    pub data_dir: DataDir,
    pub build: BuildInfo,
    pub hw_stats: HwStats,
    pub tick: Tick,
    pub tick_start: TickStart,
    pub spawn_point: SpawnPoint,
    /// What a player may not be called.
    pub banned_words: Vec<String>,
}

/// What is done when the server goes down.
#[derive(Debug)]
pub enum ShutdownStep<L> {
    StopMetrics,
    NotifyPlayers(ServerGeneral<L>),
}

/// The text of an address that may be missing.
pub open spec fn address_view(address: Option<String>) -> Option<Seq<char>> {
    match address {
        Some(a) => Some(a@),
        None => None,
    }
}

/// What it takes to say some lines of chat to `entity`, one after the other.
pub open spec fn chat_notices<L, D>(
    state: State,
    entity: Entity,
    lines: Seq<(ChatType, Seq<char>)>,
) -> Seq<EffectView<L, D>>
    decreases lines.len(),
{
    if lines.len() == 0 {
        Seq::empty()
    } else {
        chat_notices::<L, D>(state, entity, lines.drop_last()) + notice::<L, D>(
            state,
            entity,
            MessageView::ServerMsg(lines.last().0, lines.last().1),
        )
    }
}

/// Every line of an answer goes to whoever typed the command, in its turn; nobody
/// is written to once they have left.
pub proof fn answers_go_to_the_asker<L, D>(
    state: State,
    entity: Entity,
    lines: Seq<(ChatType, Seq<char>)>,
)
    ensures
        !state.is_client(entity) ==> chat_notices::<L, D>(state, entity, lines).len() == 0,
        state.is_client(entity) ==> {
            &&& chat_notices::<L, D>(state, entity, lines).len() == lines.len()
            &&& forall|i: int|
                0 <= i < lines.len() ==> #[trigger] chat_notices::<L, D>(state, entity, lines)[i]
                    == EffectView::<L, D>::Send(
                    entity,
                    MessageView::ServerMsg(lines[i].0, lines[i].1),
                )
        },
    decreases lines.len(),
{
    if lines.len() > 0 {
        let rest = lines.drop_last();
        answers_go_to_the_asker::<L, D>(state, entity, rest);
        if state.is_client(entity) {
            let all = chat_notices::<L, D>(state, entity, lines);
            let head = chat_notices::<L, D>(state, entity, rest);
            assert forall|i: int| 0 <= i < lines.len() implies #[trigger] all[i] == EffectView::<
                L,
                D,
            >::Send(entity, MessageView::ServerMsg(lines[i].0, lines[i].1)) by {
                if i < rest.len() {
                    assert(all[i] == head[i]);
                    assert(rest[i] == lines[i]);
                }
            }
        }
    }
}

impl<W, M, F> Server<W, M, F> {
    /// What the server knows of the game is well formed.
    pub open spec fn wf(self) -> bool {
        self.state.wf()
    }

    /// The server with another state of the game.
    pub open spec fn with_state(self, state: State) -> Self {
        Server { state, ..self }
    }

    /// A server at its first tick, with an empty game.
    pub open spec fn is_fresh(self, chunk_size: Vec2u, now: u128) -> bool {
        &&& self.wf()
        &&& self.tick == Tick(0)
        &&& self.tick_start == TickStart(now)
        &&& self.state.entities@.len() == 0
        &&& self.state.terrain.loaded@.len() == 0
        &&& self.state.terrain.chunk_size == chunk_size
    }

    /// Where the terrain is cut into chunks as the survey has it, the spawn point lies
    /// in the spawn chunk.
    pub open spec fn spawns_in_spawn_chunk(self, survey: Option<SpawnSurvey>) -> bool {
        survey matches Some(s) ==> s.rect_size == self.state.terrain.chunk_size ==> is_spawn_chunk(
            s.map_size,
            s.sites@,
            self.state.terrain.key_of(self.spawn_point.block),
        )
    }

    /// A server at its first tick, with an empty game. It cannot be had if a file
    /// of banned words cannot.
    pub fn new(
        settings: Settings<F>,
        editable_settings: EditableSettings,
        data_dir: DataDir,
        build: BuildInfo,
        banned_words_files: Vec<BannedWordsFile>,
        survey: Option<SpawnSurvey>,
        chunk_size: Vec2u,
        world: W,
        map: M,
        now: u128,
    ) -> (r: Result<Self, ServerError>)
        requires
            survey matches Some(s) ==> s.fits(),
            chunk_size.is_chunk_size(),
        ensures
            match all_words(parsed_files(banned_words_files@)) {
                Ok(words) => {
                    &&& r matches Ok(server)
                    &&& server.is_fresh(chunk_size, now)
                    &&& is_thread_record(server.hw_stats)
                    &&& texts(server.banned_words@) == words
                    &&& is_spawn_point(survey, server.spawn_point)
                    &&& server.spawns_in_spawn_chunk(survey)
                    &&& server.settings == settings
                    &&& server.editable_settings == editable_settings
                    &&& server.data_dir == data_dir
                    &&& server.build == build
                    &&& server.world == world
                    &&& server.map == map
                },
                Err(message) => r matches Err(e) && e.message() == message,
            },
    {
        match load_banned_words(banned_words_files) {
            Ok(banned_words) => Ok(
                Self::from_parts(
                    settings,
                    editable_settings,
                    data_dir,
                    build,
                    HwStats::detect(),
                    banned_words,
                    survey,
                    chunk_size,
                    world,
                    map,
                    now,
                ),
            ),
            Err(e) => Err(e),
        }
    }

    /// A server at its first tick, with an empty game, for which the banned words have
    /// been loaded and the threads of the machine been counted already.
    pub fn from_parts(
        settings: Settings<F>,
        editable_settings: EditableSettings,
        data_dir: DataDir,
        build: BuildInfo,
        hw_stats: HwStats,
        banned_words: Vec<String>,
        survey: Option<SpawnSurvey>,
        chunk_size: Vec2u,
        world: W,
        map: M,
        now: u128,
    ) -> (server: Self)
        requires
            survey matches Some(s) ==> s.fits(),
            chunk_size.is_chunk_size(),
        ensures
            server.is_fresh(chunk_size, now),
            server.banned_words@ == banned_words@,
            server.hw_stats == hw_stats,
            is_spawn_point(survey, server.spawn_point),
            server.spawns_in_spawn_chunk(survey),
            server.settings == settings,
            server.editable_settings == editable_settings,
            server.data_dir == data_dir,
            server.build == build,
            server.world == world,
            server.map == map,
    {
        let spawn_point = find_spawn_point(&survey);
        proof {
            if let Some(s) = survey {
                let chunk = choose|chunk: Vec2i|
                    {
                        &&& #[trigger] is_spawn_chunk(s.map_size, s.sites@, chunk)
                        &&& spawn_point.block.x == middle_column(chunk, s.rect_size).x
                        &&& spawn_point.block.y == middle_column(chunk, s.rect_size).y
                    };
                spawn_column_is_central(chunk, s.rect_size);
            }
        }
        Server {
            state: State::server(chunk_size),
            world,
            map,
            settings,
            editable_settings,
            data_dir,
            build,
            hw_stats,
            tick: Tick(0),
            tick_start: TickStart(now),
            spawn_point,
            banned_words,
        }
    }

    /// What the server tells those who ask for it.
    pub fn get_server_info(&self) -> (info: ServerInfo)
        ensures
            info.name@ == self.settings.server_name@,
            info.description@ == self.editable_settings.server_description@,
            info.git_hash@ == self.build.git_hash@,
            info.git_date@ == self.build.git_date@,
            address_view(info.auth_provider) == address_view(self.settings.auth_server_address),
    {
        let auth_provider = match &self.settings.auth_server_address {
            Some(address) => Some(address.clone()),
            None => None,
        };
        ServerInfo {
            name: self.settings.server_name.clone(),
            description: self.editable_settings.server_description.clone(),
            git_hash: self.build.git_hash.clone(),
            git_date: self.build.git_date.clone(),
            auth_provider,
        }
    }

    /// The server's settings.
    pub fn settings(&self) -> (settings: &Settings<F>)
        ensures
            *settings == self.settings,
    {
        &self.settings
    }

    /// The server's settings, to be changed.
    pub fn settings_mut(&mut self) -> (settings: &mut Settings<F>)
        ensures
            *settings == old(self).settings,
            *final(self) == (Server { settings: *final(settings), ..*old(self) }),
    {
        &mut self.settings
    }

    /// The server's editable settings, to be changed.
    pub fn editable_settings_mut(&mut self) -> (settings: &mut EditableSettings)
        ensures
            *settings == old(self).editable_settings,
            *final(self) == (Server { editable_settings: *final(settings), ..*old(self) }),
    {
        &mut self.editable_settings
    }

    /// The server's editable settings.
    pub fn editable_settings(&self) -> (settings: &EditableSettings)
        ensures
            *settings == self.editable_settings,
    {
        &self.editable_settings
    }

    /// The directory that the server keeps its files in.
    pub fn data_dir(&self) -> (dir: &DataDir)
        ensures
            *dir == self.data_dir,
    {
        &self.data_dir
    }

    /// The server's game state.
    pub fn state(&self) -> (state: &State)
        ensures
            *state == self.state,
    {
        &self.state
    }

    /// The server's game state, to be changed.
    pub fn state_mut(&mut self) -> (state: &mut State)
        ensures
            *state == old(self).state,
            *final(self) == old(self).with_state(*final(state)),
    {
        &mut self.state
    }

    /// The server's world.
    pub fn world(&self) -> (world: &W)
        ensures
            *world == self.world,
    {
        &self.world
    }

    /// The server's world map.
    pub fn map(&self) -> (map: &M)
        ensures
            *map == self.map,
    {
        &self.map
    }

    /// Begins a tick that moves the game on by `dt`. The clock is read once when the
    /// tick begins, and once more before its first work.
    pub fn tick<G>(&mut self, dt: TimeSpan, start: u128, now: u128) -> (run: TickRun<G>)
        requires
            old(self).tick.0 < u64::MAX,
        ensures
            *final(self) == (Server {
                tick: Tick((old(self).tick.0 + 1) as u64),
                tick_start: TickStart(start),
                ..*old(self)
            }),
            run.wf(),
            run@ == begun::<G>(dt, now),
    {
        self.tick = Tick(self.tick.0 + 1);
        self.tick_start = TickStart(start);
        TickRun::begin(dt, now)
    }

    /// What to do next while someone is let in.
    pub fn initialize_client(&mut self, event: ClientEvent) -> (action: ClientAction)
        requires
            old(self).wf(),
            event matches ClientEvent::Created(entity, _) ==> {
                &&& index_is_free(old(self).state.entities@, entity.index)
                &&& has_room(old(self).state.clients() as int, old(self).settings.max_players as int)
            },
        ensures
            final(self).wf(),
            *final(self) == old(self).with_state(final(self).state),
            action == client_action(
                old(self).state.clients() as int,
                old(self).settings.max_players as int,
                event,
            ),
            match event {
                ClientEvent::Arrived => final(self).state == old(self).state,
                ClientEvent::Created(entity, uid) => {
                    &&& final(self).state.terrain == old(self).state.terrain
                    &&& final(self).state.entities@ == old(self).state.entities@.insert(
                        place_for(old(self).state.entities@, entity.index) as int,
                        client_record(entity, uid),
                    )
                    &&& final(self).state.is_client(entity)
                    &&& final(self).state.clients() == old(self).state.clients() + 1
                },
            },
            old(self).state.clients() <= old(self).settings.max_players
                ==> final(self).state.clients() <= final(self).settings.max_players,
    {
        match event {
            ClientEvent::Arrived => {
                if self.settings.max_players <= self.state.count() {
                    ClientAction::Greet(Greeting::TooManyPlayers)
                } else {
                    ClientAction::CreateEntity
                }
            },
            ClientEvent::Created(entity, uid) => {
                self.state.add_client(entity, uid);
                ClientAction::Greet(Greeting::GameSync(entity))
            },
        }
    }

    /// What a client that is let in is told: the rules of the server, the map of its
    /// world, and what the rest of the game has to tell.
    pub fn game_sync<P, B, S, A>(&self, entity: Entity, data: SyncData<P, B, S, A>) -> (
        sync: GameSync<'_, M, P, B, S, A>)
        ensures
            sync.entity == entity,
            sync.max_group_size == self.settings.max_player_group_size,
            sync.client_timeout == self.settings.client_timeout,
            *sync.world_map == self.map,
            sync.data == data,
    {
        GameSync {
            entity,
            max_group_size: self.settings.max_player_group_size,
            client_timeout: self.settings.client_timeout,
            world_map: &self.map,
            data,
        }
    }

    /// Notes, for whoever runs the server, what became of those who wanted to
    /// connect.
    pub fn handle_new_connections<E, G>(
        &self,
        results: Vec<Result<Option<Entity>, E>>,
        frontend_events: &mut Vec<Event<G>>,
    )
        ensures
            final(frontend_events)@ == old(frontend_events)@ + connection_events::<E, G>(results@),
    {
        record_connections(results, frontend_events)
    }

    /// What is sent to say `msg` to `entity`: the message, whatever its type, if
    /// someone is connected through the entity; nothing otherwise.
    pub fn notify_client<S>(&self, entity: Entity, msg: S) -> (sent: Option<(Entity, S)>)
        ensures
            sent == if self.state.is_client(entity) {
                Some((entity, msg))
            } else {
                None
            },
    {
        if self.state.has_client(entity) {
            Some((entity, msg))
        } else {
            None
        }
    }

    /// The chunk under `key`, to be generated because `entity` wants it.
    pub fn generate_chunk(&self, entity: Entity, key: Vec2i) -> (job: ChunkJob)
        ensures
            job.requester == Some(entity),
            job.key == key,
    {
        ChunkJob { requester: Some(entity), key }
    }

    /// What is to be done about the entities that have strayed beyond the loaded
    /// terrain.
    pub fn clean_up_entities(&self) -> (steps: Vec<CleanupStep>)
        requires
            self.wf(),
        ensures
            steps@ == removals(strays(self.state.terrain, self.state.entities@)),
    {
        self.state.cleanup_steps()
    }

    /// What is to be done about what the database has found.
    pub fn update_persistence<L, D>(&self, responses: Vec<CharacterLoaderResponse<L, D>>) -> (
        effects: Vec<Effect<L, D>>)
        ensures
            effect_views(effects@) == reactions(self.state, responses@),
    {
        react_to_all(&self.state, responses)
    }

    /// What is to be done once the colours of the terrain have changed.
    pub fn reload_colors(&self) -> (steps: Vec<ReloadStep>)
        ensures
            steps@ == reload(self.state),
    {
        reload_steps(&self.state)
    }

    /// Parts a command that was typed into the chat into its keyword, by which the
    /// command is looked up, and its arguments.
    pub fn process_chat_cmd(&self, cmd: &str) -> (call: ChatCall)
        ensures
            call.keyword@ == keyword_of(cmd@),
            call.args@ == args_of(cmd@),
    {
        split_command(cmd)
    }

    /// What plugins are told of a command that the server does not know, typed by
    /// `entity`.
    pub fn chat_command_event(&self, entity: Entity, call: &ChatCall) -> (event: ChatCommandEvent)
        requires
            self.state.record(entity) matches Some(record) && record.uid is Some,
        ensures
            event.command@ == call.keyword@,
            texts(event.command_args@) == pieces(call.args@, ' '),
            self.state.record(entity)->0.uid == Some(event.player),
    {
        let record = self.state.get(entity).unwrap();
        plugin_event(call, record.uid.unwrap())
    }

    /// What is done about a command that `entity` typed, once its keyword has been
    /// looked up: a command that was found is executed, any other is left to the
    /// plugins. A server built without plugins does nothing about it, whoever
    /// `entity` is.
    pub fn dispatch_chat_cmd<C>(&self, entity: Entity, call: ChatCall, command: Option<C>) -> (
        action: ChatAction<C>)
        requires
            command is None && self.build.plugins ==> (self.state.record(
                entity,
            ) matches Some(record) && record.uid is Some),
        ensures
            match command {
                Some(c) => {
                    &&& action matches ChatAction::Execute(found, args)
                    &&& found == c
                    &&& args@ == call.args@
                },
                None => if self.build.plugins {
                    &&& action matches ChatAction::AskPlugins(event)
                    &&& event.command@ == call.keyword@
                    &&& texts(event.command_args@) == pieces(call.args@, ' ')
                    &&& self.state.record(entity)->0.uid == Some(event.player)
                } else {
                    action is Ignore
                },
            },
    {
        match command {
            Some(c) => ChatAction::Execute(c, call.args),
            None => if self.build.plugins {
                ChatAction::AskPlugins(self.chat_command_event(entity, &call))
            } else {
                ChatAction::Ignore
            },
        }
    }

    /// What `entity` is answered to a command that the server left to its plugins.
    pub fn answer_chat_cmd<L, D>(&self, entity: Entity, keyword: &str, outcome: PluginOutcome) -> (
        effects: Vec<Effect<L, D>>)
        ensures
            effect_views(effects@) == chat_notices::<L, D>(
                self.state,
                entity,
                answer(keyword@, outcome),
            ),
    {
        let lines = answer_lines(keyword, outcome);
        let ghost views = answer(keyword@, outcome);
        let mut effects: Vec<Effect<L, D>> = Vec::new();
        assert(effect_views(effects@) =~= Seq::empty());
        for line in it: lines.into_iter()
            invariant
                it.seq() == lines@,
                views == crate::chat::line_views(lines@),
                effect_views(effects@) == chat_notices::<L, D>(
                    self.state,
                    entity,
                    views.take(it.index()),
                ),
        {
            proof {
                assert(views.take(it.index() + 1).drop_last() =~= views.take(it.index()));
                assert(views.take(it.index() + 1).last() == line@);
            }
            let ChatLine { kind, text } = line;
            notify(&self.state, entity, ServerGeneral::ServerMsg(kind, text), &mut effects);
        }
        assert(views.take(views.len() as int) =~= views);
        effects
    }

    /// Whether `entity` is an administrator.
    pub fn entity_is_admin(&self, entity: Entity) -> (r: bool)
        ensures
            r == (self.state.record(entity) matches Some(record) && record.admin),
    {
        match self.state.get(entity) {
            Some(record) => record.admin,
            None => false,
        }
    }

    /// How many are connected.
    pub fn number_of_players(&self) -> (n: i64)
        requires
            self.wf(),
        ensures
            n == self.state.clients(),
    {
        proof {
            entities_are_bounded(self.state.entities@);
        }
        self.state.count() as i64
    }

    /// Makes the account that a user name was looked up to an administrator.
    pub fn add_admin<E>(&mut self, lookup: Result<u128, E>) -> (change: AdminChange)
        ensures
            final(self).editable_settings.admins@ == with_admin(
                old(self).editable_settings.admins@,
                lookup,
            ),
            final(self).editable_settings.server_description
                == old(self).editable_settings.server_description,
            *final(self) == (Server {
                editable_settings: final(self).editable_settings,
                ..*old(self)
            }),
            change == match lookup {
                Ok(uuid) => if old(self).editable_settings.admins@.contains(uuid) {
                    AdminChange::AlreadyAdmin
                } else {
                    AdminChange::Added
                },
                Err(_) => AdminChange::UnknownUser,
            },
    {
        admin::add_admin(lookup, &mut self.editable_settings)
    }

    /// Takes the account that a user name was looked up to off the list of
    /// administrators.
    pub fn remove_admin<E>(&mut self, lookup: Result<u128, E>) -> (change: AdminChange)
        ensures
            final(self).editable_settings.admins@ == without_admin(
                old(self).editable_settings.admins@,
                lookup,
            ),
            final(self).editable_settings.server_description
                == old(self).editable_settings.server_description,
            *final(self) == (Server {
                editable_settings: final(self).editable_settings,
                ..*old(self)
            }),
            change == match lookup {
                Ok(uuid) => if old(self).editable_settings.admins@.contains(uuid) {
                    AdminChange::Removed
                } else {
                    AdminChange::NotAdmin
                },
                Err(_) => AdminChange::UnknownUser,
            },
    {
        admin::remove_admin(lookup, &mut self.editable_settings)
    }

    /// What is done when the server goes down: the metrics stop, and the players
    /// are told why they are disconnected.
    pub fn shutdown_steps<L>(&self) -> (steps: Vec<ShutdownStep<L>>)
        ensures
            steps@ == seq![
                ShutdownStep::<L>::StopMetrics,
                ShutdownStep::<L>::NotifyPlayers(
                    ServerGeneral::Disconnect(DisconnectReason::Shutdown),
                ),
            ],
    {
        let mut steps: Vec<ShutdownStep<L>> = Vec::new();
        steps.push(ShutdownStep::StopMetrics);
        steps.push(
            ShutdownStep::NotifyPlayers(ServerGeneral::Disconnect(DisconnectReason::Shutdown)),
        );
        steps
    }
}

/// A fresh server has had no tick, knows of no entity and of no loaded chunk, and
/// cuts its terrain as it was told.
pub proof fn fresh_servers_are_empty<W, M, F>(
    server: Server<W, M, F>,
    chunk_size: Vec2u,
    now: u128,
)
    requires
        server.is_fresh(chunk_size, now),
    ensures
        server.wf(),
        server.tick.0 == 0,
        server.tick_start.0 == now,
        server.state.entities@.len() == 0,
        server.state.clients() == 0,
        server.state.terrain.loaded@.len() == 0,
        server.state.terrain.chunk_size == chunk_size,
{
}

/// An address is seen as it is, and a missing one as missing.
pub proof fn addresses_are_seen_as_they_are(address: String)
    ensures
        address_view(Some(address)) == Some(address@),
        address_view(None) is None,
{
}

/// The server with another state differs in nothing but that state.
pub proof fn only_the_state_is_exchanged<W, M, F>(server: Server<W, M, F>, state: State)
    ensures
        server.wf() <==> server.state.wf(),
        server.with_state(state).state == state,
        server.with_state(state).settings == server.settings,
        server.with_state(state).editable_settings == server.editable_settings,
        server.with_state(state).data_dir == server.data_dir,
        server.with_state(state).build == server.build,
        server.with_state(state).hw_stats == server.hw_stats,
        server.with_state(state).tick == server.tick,
        server.with_state(state).tick_start == server.tick_start,
        server.with_state(state).spawn_point == server.spawn_point,
        server.with_state(state).banned_words == server.banned_words,
        server.with_state(state).world == server.world,
        server.with_state(state).map == server.map,
{
}

} // verus!
