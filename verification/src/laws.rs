//! What the operations do, said of what is handed to them and what they give back.
//!
//! Each law speaks of every outcome of a call that the contract of the operation
//! admits.

use crate::admin::{self, AdminChange};
use crate::banned_words::{
    collect_banned_words, load_banned_words, parse_banned_words, ron_string_list, BannedWordsFile,
    FileContents, NamedWordList, WordList,
};
use crate::chat::{
    answer_lines, plugin_event, split_command, ChatAction, ChatCall, ChatCommandEvent, ChatLine,
    PluginOutcome, PluginReply,
};
use crate::chunks::{reload_steps, ChunkJob, ReloadStep};
use crate::connections::{connection_events, ClientAction, ClientEvent, Greeting};
use crate::geometry::{
    can_measure, cell_is_unique, cell_of, chunk_relative, offset_in_cell, voxel_key_and_offset,
    Aabb, Vec2i, Vec2u, Vec3i, Vec3u,
};
use crate::mesh::{
    a_mesh_holds_the_coloured_voxels_of_its_range, a_position_of_a_box_gives_itself,
    blocks_of_a_box_come_by_position, chunks_are_drawn_where_they_are, chunks_are_found_by_key,
    has_sides, meshes_go_along_z_first, the_box_of_a_chunk_shows_that_chunk,
    the_world_is_made_of_its_chunks, Block, Dyna, MeshVoxel, Rgb, VolMap,
};
use crate::messages::{
    effect_views, ChatType, DisconnectReason, Effect, EffectView, Event, GameSync, MessageView,
    ServerEvent, ServerGeneral, ServerInfo, SyncData,
};
use crate::persistence::{
    react, react_to_all, single_answers_are_dealt_with_alone, CharacterLoaderResponse,
    CharacterLoaderResponseKind,
};
use crate::server::{answers_go_to_the_asker, Server, ShutdownStep};
use crate::settings::{
    thread_counts_keep_their_lower_bits, BuildInfo, DataDir, EditableSettings, HwStats, Settings,
    TimeSpan, WorldFile, WorldOptions,
};
use crate::spawn::{
    can_measure_sites, can_place, can_search, find_spawn_point, middle_columns_lie_half_a_side_in, spawn_chunk,
    spawn_column, spawn_height_is_standable_and_lowest, spawn_height_is_standable_or_the_bottom,
    spawn_points_lie_in_the_middle_column, spawn_wpos, standing_takes_ground_and_room,
    towns_are_chosen_by_distance, without_towns_the_middle_is_chosen, Column, GroundBlock, MapSize,
    Site, SpawnPoint, SpawnSurvey,
};
use crate::state::{
    blocks_lie_in_the_chunk_of_their_key, cleanup_deletes_just_the_strayed,
    cleanup_takes_back_before_it_deletes, clients_are_the_connected, records_are_found_by_entity,
    strays_are_exact, the_state_counts_its_clients, CleanupStep, Entity, EntityRecord, State,
    TerrainGrid,
};
use crate::text::{
    enclose, find, join, joined, joined_pieces, pieces, pieces_hold_no_separator, split, texts,
};
use crate::tick::{following, MessageSystem, TickRun, TickWork, Timing};
use vstd::prelude::*;

verus! {

/// A coordinate lies in the cell that is found for it, as far in as is found.
pub proof fn cells_are_found(e: i32, side: u32, c: i32, o: i32)
    requires
        1 <= side <= 0x7fff_ffff,
        call_ensures(cell_of, (e, side), c),
        call_ensures(offset_in_cell, (e, side), o),
    ensures
        e == c * side + o,
        0 <= o < side,
{
    crate::geometry::cell_and_offset(e as int, side as int);
}

/// A column lies as far into its chunk as its coordinates are beyond multiples of the
/// sides.
pub proof fn columns_are_placed_in_their_chunk(pos: Vec2i, size: Vec2u, o: Vec2i, kx: int, ky: int)
    requires
        size.is_chunk_size(),
        call_ensures(chunk_relative, (pos, size), o),
        kx * size.x <= pos.x < kx * size.x + size.x,
        ky * size.y <= pos.y < ky * size.y + size.y,
    ensures
        o.x == pos.x - kx * size.x,
        o.y == pos.y - ky * size.y,
{
    cell_is_unique(pos.x as int, size.x as int, kx, pos.x - kx * size.x);
    cell_is_unique(pos.y as int, size.y as int, ky, pos.y - ky * size.y);
}

/// A distance is held to be computable just where every step to it is a value of an
/// `i32`.
pub proof fn distances_are_tested(a: Vec2i, b: Vec2i, r: bool, dx: int, dy: int)
    requires
        call_ensures(can_measure, (a, b), r),
        dx == a.x - b.x,
        dy == a.y - b.y,
    ensures
        r <==> {
            &&& i32::MIN <= dx <= i32::MAX
            &&& i32::MIN <= dy <= i32::MAX
            &&& i32::MIN <= dx * dx <= i32::MAX
            &&& i32::MIN <= dy * dy <= i32::MAX
            &&& i32::MIN <= dx * dx + dy * dy <= i32::MAX
        },
{
}

/// The first separator is found: none comes before it, and it is one, unless the text
/// ends there.
pub proof fn separators_are_found(s: &str, c: char, n: usize)
    requires
        call_ensures(find, (s, c), n),
    ensures
        n <= s@.len(),
        n < s@.len() ==> s@[n as int] == c,
        forall|i: int| 0 <= i < n ==> s@[i] != c,
{
    crate::text::before_first_is_first(s@, c);
}

/// A text is cut into pieces without separators, which give it back when they are
/// joined.
pub proof fn texts_are_split_and_joined(s: &str, c: char, parts: Vec<String>, back: String, sep: &str)
    requires
        call_ensures(split, (s, c), parts),
        call_ensures(join, (&parts, sep), back),
        sep@ == seq![c],
    ensures
        back@ == s@,
        forall|i: int, j: int|
            0 <= i < parts@.len() && 0 <= j < parts@[i]@.len() ==> #[trigger] parts@[i]@[j] != c,
{
    joined_pieces(s@, c);
    pieces_hold_no_separator(s@, c);
    assert(texts(parts@) == pieces(s@, c));
    assert forall|i: int, j: int|
        0 <= i < parts@.len() && 0 <= j < parts@[i]@.len() implies #[trigger] parts@[i]@[j] != c by {
        assert(texts(parts@)[i] == parts@[i]@);
        assert(pieces(s@, c)[i][j] != c);
    }
}

/// Two parts are joined with the separator between them, and text is enclosed by what
/// comes before and after it.
pub proof fn texts_are_put_together(
    a: String,
    b: String,
    parts: Vec<String>,
    sep: &str,
    s: String,
    before: &str,
    middle: &str,
    after: &str,
    whole: String,
)
    requires
        parts@ == seq![a, b],
        call_ensures(join, (&parts, sep), s),
        call_ensures(enclose, (before, middle, after), whole),
    ensures
        s@ == a@ + sep@ + b@,
        whole@ == before@ + middle@ + after@,
{
    reveal_with_fuel(joined, 3);
    assert(texts(parts@) =~= seq![a@, b@]);
    assert(seq![a@, b@].drop_last() =~= seq![a@]);
}

/// A command gives back the keyword and the arguments that it was put together from.
pub proof fn commands_are_split(cmd: &str, call: ChatCall, keyword: Seq<char>, args: Seq<char>)
    requires
        call_ensures(split_command, (cmd,), call),
        !keyword.contains(' '),
        cmd@ == keyword + seq![' '] + args || cmd@ == keyword && args.len() == 0,
    ensures
        call.keyword@ == keyword,
        call.args@ == args,
{
    crate::chat::commands_are_parted_at_the_first_space(keyword, args);
    assert(args.len() == 0 ==> args =~= Seq::<char>::empty());
}

/// The same, of a server.
pub proof fn servers_split_commands<W, M, F>(
    server: Server<W, M, F>,
    cmd: &str,
    call: ChatCall,
    keyword: Seq<char>,
    args: Seq<char>,
)
    requires
        call_ensures(Server::<W, M, F>::process_chat_cmd, (&server, cmd), call),
        !keyword.contains(' '),
        cmd@ == keyword + seq![' '] + args || cmd@ == keyword && args.len() == 0,
    ensures
        call.keyword@ == keyword,
        call.args@ == args,
{
    crate::chat::commands_are_parted_at_the_first_space(keyword, args);
    assert(args.len() == 0 ==> args =~= Seq::<char>::empty());
}

/// Plugins are told the keyword, the player, and arguments that give the rest of the
/// line back when they are joined by spaces.
pub proof fn plugins_are_told_the_command(call: ChatCall, player: u64, event: ChatCommandEvent)
    requires
        call_ensures(plugin_event, (&call, player), event),
    ensures
        event.command@ == call.keyword@,
        event.player == player,
        joined(texts(event.command_args@), seq![' ']) == call.args@,
        forall|i: int, j: int|
            0 <= i < event.command_args@.len() && 0 <= j < event.command_args@[i]@.len()
                ==> #[trigger] event.command_args@[i]@[j] != ' ',
{
    joined_pieces(call.args@, ' ');
    pieces_hold_no_separator(call.args@, ' ');
    assert forall|i: int, j: int|
        0 <= i < event.command_args@.len() && 0 <= j < event.command_args@[i]@.len() implies
        #[trigger] event.command_args@[i]@[j] != ' ' by {
        assert(texts(event.command_args@)[i] == event.command_args@[i]@);
        assert(pieces(call.args@, ' ')[i][j] != ' ');
    }
}

/// A known command is executed on its arguments. An unknown one is left to the
/// plugins, for the player who typed it; without plugins nothing is done about it.
pub proof fn commands_are_dispatched<W, M, F, C>(
    server: Server<W, M, F>,
    i: int,
    call: ChatCall,
    command: Option<C>,
    action: ChatAction<C>,
)
    requires
        server.wf(),
        0 <= i < server.state.entities@.len(),
        call_ensures(
            Server::<W, M, F>::dispatch_chat_cmd::<C>,
            (&server, server.state.entities@[i].entity, call, command),
            action,
        ),
    ensures
        match command {
            Some(c) => {
                &&& action matches ChatAction::Execute(found, args)
                &&& found == c
                &&& args@ == call.args@
            },
            None => if server.build.plugins {
                &&& action matches ChatAction::AskPlugins(event)
                &&& event.command@ == call.keyword@
                &&& joined(texts(event.command_args@), seq![' ']) == call.args@
                &&& Some(event.player) == server.state.entities@[i].uid
            } else {
                action is Ignore
            },
        },
{
    let record = server.state.entities@[i];
    assert(server.state.entities@.contains(record));
    records_are_found_by_entity(server.state, record.entity, record);
    joined_pieces(call.args@, ' ');
}

/// A command that no plugin knows, or that the plugins could not be asked about, is
/// answered by one line that names it.
pub proof fn commands_without_plugins_are_answered(
    keyword: &str,
    replies: Vec<PluginReply>,
    unknown: Vec<ChatLine>,
    failed: Vec<ChatLine>,
)
    requires
        replies@.len() == 0,
        call_ensures(answer_lines, (keyword, PluginOutcome::Replies(replies)), unknown),
        call_ensures(answer_lines, (keyword, PluginOutcome::Failed), failed),
    ensures
        unknown@.len() == 1,
        unknown@[0].kind == ChatType::CommandError,
        unknown@[0].text@ == "Unknown command '/"@ + keyword@
            + "'.\nType '/help' for available commands"@,
        failed@.len() == 1,
        failed@[0].kind == ChatType::CommandError,
        failed@[0].text@ == "Internal error while executing '/"@ + keyword@
            + "'.\nContact the server administrator"@,
{
    crate::chat::answers_are_exact(keyword@, replies);
    let a = crate::chat::line_views(unknown@);
    let b = crate::chat::line_views(failed@);
    assert(a.len() == unknown@.len() && b.len() == failed@.len());
    assert(a[0] == unknown@[0]@);
    assert(b[0] == failed@[0]@);
}

/// A single plugin is answered for by its lines, one below the other, or by its
/// error.
pub proof fn a_plugin_is_answered_for(
    keyword: &str,
    replies: Vec<PluginReply>,
    lines: Vec<ChatLine>,
)
    requires
        replies@.len() == 1,
        call_ensures(answer_lines, (keyword, PluginOutcome::Replies(replies)), lines),
    ensures
        match replies@[0] {
            PluginReply::Lines(said) => if said@.len() == 0 {
                lines@.len() == 0
            } else {
                &&& lines@.len() == 1
                &&& lines@[0].kind == ChatType::CommandInfo
                &&& lines@[0].text@ == joined(texts(said@), "\n"@)
            },
            PluginReply::Error(e) => {
                &&& lines@.len() == 1
                &&& lines@[0].kind == ChatType::CommandError
                &&& lines@[0].text@ == "Error occurred while executing command '/"@ + keyword@
                    + "'.\n"@ + e@
            },
        },
{
    crate::chat::answers_are_exact(keyword@, replies);
    let said = match replies@[0] {
        PluginReply::Lines(said) => said,
        PluginReply::Error(_) => arbitrary(),
    };
    let e = match replies@[0] {
        PluginReply::Lines(_) => arbitrary(),
        PluginReply::Error(e) => e,
    };
    crate::chat::plugins_are_heard_one_by_one(keyword@, Seq::empty(), said, e);
    assert(replies@ =~= Seq::empty().push(replies@[0]));
    let views = crate::chat::line_views(lines@);
    assert(views.len() == lines@.len());
    if lines@.len() == 1 {
        assert(views[0] == lines@[0]@);
    }
}

/// An answer is sent to whoever typed the command, line by line, and to nobody where
/// nobody is connected through the entity any more.
pub proof fn answers_are_sent_to_the_asker<W, M, F, L, D>(
    server: Server<W, M, F>,
    entity: Entity,
    keyword: &str,
    outcome: PluginOutcome,
    lines: Vec<ChatLine>,
    effects: Vec<Effect<L, D>>,
)
    requires
        server.wf(),
        call_ensures(answer_lines, (keyword, outcome), lines),
        call_ensures(
            Server::<W, M, F>::answer_chat_cmd::<L, D>,
            (&server, entity, keyword, outcome),
            effects,
        ),
    ensures
        (forall|i: int|
            0 <= i < server.state.entities@.len() ==> (
            #[trigger] server.state.entities@[i]).entity != entity
                || !server.state.entities@[i].client) ==> effects@.len() == 0,
        (exists|i: int|
            0 <= i < server.state.entities@.len() && (
            #[trigger] server.state.entities@[i]).entity == entity
                && server.state.entities@[i].client) ==> {
            &&& effects@.len() == lines@.len()
            &&& forall|i: int|
                0 <= i < lines@.len() ==> (#[trigger] effects@[i])@ == EffectView::<L, D>::Send(
                    entity,
                    MessageView::ServerMsg(lines@[i].kind, lines@[i].text@),
                )
        },
{
    let views = crate::chat::line_views(lines@);
    clients_are_the_connected(server.state, entity);
    answers_go_to_the_asker::<L, D>(server.state, entity, views);
    assert(effect_views(effects@).len() == effects@.len());
    assert(views.len() == lines@.len());
    if server.state.is_client(entity) {
        assert forall|i: int| 0 <= i < lines@.len() implies (#[trigger] effects@[i])@
            == EffectView::<L, D>::Send(
            entity,
            MessageView::ServerMsg(lines@[i].kind, lines@[i].text@),
        ) by {
            assert(effect_views(effects@)[i] == effects@[i]@);
            assert(views[i] == lines@[i]@);
        }
    }
}

/// A world is made with its seed and its elements, from the map that is named if one
/// is, and otherwise from the one that comes with the game.
pub proof fn worlds_are_made_from_the_named_map<'a, F>(
    settings: &'a Settings<F>,
    options: WorldOptions<'a, F>,
)
    requires
        call_ensures(Settings::<F>::world_options, (settings,), options),
    ensures
        options.seed == settings.world_seed,
        options.seed_elements,
        settings.map_file is None <==> options.world_file is Default,
        settings.map_file matches Some(file) ==> options.world_file == WorldFile::Given(&file),
{
}

/// Thread counts are recorded each in its place, by their lower 32 bits.
pub proof fn threads_are_recorded(hardware: usize, rayon: usize, stats: HwStats)
    requires
        call_ensures(HwStats::new, (hardware, rayon), stats),
    ensures
        stats.hardware_threads == hardware as int % 0x1_0000_0000,
        stats.rayon_threads == rayon as int % 0x1_0000_0000,
{
    thread_counts_keep_their_lower_bits(hardware, rayon);
}

/// An account that is added becomes an administrator, one that is removed becomes
/// none, every other account stays what it was, and what is told of it is true.
pub proof fn administrators_change_as_told<E>(
    lookup: Result<u128, E>,
    added: &mut EditableSettings,
    removed: &mut EditableSettings,
    add: AdminChange,
    remove: AdminChange,
    other: u128,
)
    requires
        call_ensures(admin::add_admin::<E>, (lookup, added), add),
        call_ensures(admin::remove_admin::<E>, (lookup, removed), remove),
    ensures
        final(added).admins@.contains(other) <==> old(added).admins@.contains(other) || lookup
            == Ok::<u128, E>(other),
        final(removed).admins@.contains(other) <==> old(removed).admins@.contains(other) && lookup
            != Ok::<u128, E>(other),
        final(added).server_description == old(added).server_description,
        final(removed).server_description == old(removed).server_description,
        lookup is Err <==> add is UnknownUser,
        lookup is Err <==> remove is UnknownUser,
        lookup matches Ok(uuid) ==> {
            &&& add is Added <==> !old(added).admins@.contains(uuid)
            &&& add is AlreadyAdmin <==> old(added).admins@.contains(uuid)
            &&& remove is Removed <==> old(removed).admins@.contains(uuid)
            &&& remove is NotAdmin <==> !old(removed).admins@.contains(uuid)
        },
{
}

/// The same, of a server, of which nothing else changes.
pub proof fn servers_change_administrators_as_told<W, M, F, E>(
    lookup: Result<u128, E>,
    added: &mut Server<W, M, F>,
    removed: &mut Server<W, M, F>,
    add: AdminChange,
    remove: AdminChange,
    other: u128,
)
    requires
        call_ensures(Server::<W, M, F>::add_admin::<E>, (added, lookup), add),
        call_ensures(Server::<W, M, F>::remove_admin::<E>, (removed, lookup), remove),
    ensures
        final(added).editable_settings.admins@.contains(other) <==> old(added).editable_settings.admins@.contains(other) || lookup == Ok::<u128, E>(other),
        final(removed).editable_settings.admins@.contains(other) <==> old(removed).editable_settings.admins@.contains(other) && lookup != Ok::<u128, E>(other),
        final(added).state == old(added).state,
        final(added).settings == old(added).settings,
        final(removed).state == old(removed).state,
        final(removed).settings == old(removed).settings,
        lookup matches Ok(uuid) ==> {
            &&& add is Added <==> !old(added).editable_settings.admins@.contains(uuid)
            &&& add is AlreadyAdmin <==> old(added).editable_settings.admins@.contains(uuid)
            &&& remove is Removed <==> old(removed).editable_settings.admins@.contains(uuid)
            &&& remove is NotAdmin <==> !old(removed).editable_settings.admins@.contains(uuid)
        },
        lookup is Err ==> add is UnknownUser && remove is UnknownUser,
{
}

/// A chunk is generated under the key and for the entity that it was asked for.
pub proof fn chunks_are_generated_as_asked<W, M, F>(
    server: Server<W, M, F>,
    entity: Entity,
    key: Vec2i,
    job: ChunkJob,
)
    requires
        call_ensures(Server::<W, M, F>::generate_chunk, (&server, entity, key), job),
    ensures
        job.requester == Some(entity),
        job.key.x == key.x,
        job.key.y == key.y,
{
}

/// A server tells its own name, description, build and way to check accounts.
pub proof fn servers_tell_about_themselves<W, M, F>(server: Server<W, M, F>, info: ServerInfo)
    requires
        call_ensures(Server::<W, M, F>::get_server_info, (&server,), info),
    ensures
        info.name@ == server.settings.server_name@,
        info.description@ == server.editable_settings.server_description@,
        info.git_hash@ == server.build.git_hash@,
        info.git_date@ == server.build.git_date@,
        info.auth_provider is Some <==> server.settings.auth_server_address is Some,
        server.settings.auth_server_address matches Some(address) ==> info.auth_provider->0@
            == address@,
{
}

/// A client that is let in is told its own entity, the rules of the server, the map
/// of its world, and what the rest of the game has to tell.
pub proof fn clients_are_told_the_rules<'a, W, M, F, P, B, S, A>(
    server: &'a Server<W, M, F>,
    entity: Entity,
    data: SyncData<P, B, S, A>,
    sync: GameSync<'a, M, P, B, S, A>,
)
    requires
        call_ensures(
            Server::<W, M, F>::game_sync::<P, B, S, A>,
            (server, entity, data),
            sync,
        ),
    ensures
        sync.entity == entity,
        sync.max_group_size == server.settings.max_player_group_size,
        sync.client_timeout.secs == server.settings.client_timeout.secs,
        sync.client_timeout.nanos == server.settings.client_timeout.nanos,
        *sync.world_map == server.map,
        sync.data.entity_package == data.entity_package,
        sync.data.recipe_book == data.recipe_book,
        sync.data.material_stats == data.material_stats,
        sync.data.ability_map == data.ability_map,
{
}

/// A message is sent, as it is, to the entity it is for, just when someone is
/// connected through it.
pub proof fn messages_reach_the_connected<W, M, F, S>(
    server: Server<W, M, F>,
    entity: Entity,
    msg: S,
    sent: Option<(Entity, S)>,
)
    requires
        server.wf(),
        call_ensures(Server::<W, M, F>::notify_client::<S>, (&server, entity, msg), sent),
    ensures
        sent is Some <==> exists|i: int|
            0 <= i < server.state.entities@.len() && (
            #[trigger] server.state.entities@[i]).entity == entity
                && server.state.entities@[i].client,
        sent matches Some((to, what)) ==> to == entity && what == msg,
{
    clients_are_the_connected(server.state, entity);
}

/// An entity is an administrator just when it lives and its record says so.
pub proof fn administrators_are_known_by_their_record<W, M, F>(
    server: Server<W, M, F>,
    entity: Entity,
    r: bool,
    i: int,
)
    requires
        server.wf(),
        call_ensures(Server::<W, M, F>::entity_is_admin, (&server, entity), r),
    ensures
        0 <= i < server.state.entities@.len() && server.state.entities@[i].entity == entity ==> r
            == server.state.entities@[i].admin,
        (forall|j: int|
            0 <= j < server.state.entities@.len() ==> (
            #[trigger] server.state.entities@[j]).entity != entity) ==> !r,
{
    if 0 <= i < server.state.entities@.len() {
        assert(server.state.entities@.contains(server.state.entities@[i]));
        records_are_found_by_entity(server.state, entity, server.state.entities@[i]);
    } else {
        records_are_found_by_entity(server.state, entity, arbitrary());
    }
}

/// The players are counted by their clients, by the server and by its state.
pub proof fn players_are_counted<W, M, F>(server: Server<W, M, F>, n: i64, m: usize)
    requires
        call_ensures(Server::<W, M, F>::number_of_players, (&server,), n),
        call_ensures(State::count, (&server.state,), m),
    ensures
        n == server.state.entities@.filter(|r: EntityRecord| r.client).len(),
        m == server.state.entities@.filter(|r: EntityRecord| r.client).len(),
{
    the_state_counts_its_clients(server.state);
}

/// A state is looked up by entity, by index and generation.
pub proof fn entities_are_looked_up(
    state: State,
    entity: Entity,
    record: Option<EntityRecord>,
    connected: bool,
    free: bool,
    i: int,
)
    requires
        state.wf(),
        0 <= i < state.entities@.len(),
        call_ensures(State::get, (&state, entity), record),
        call_ensures(State::has_client, (&state, entity), connected),
        call_ensures(State::has_free_index, (&state, entity.index), free),
    ensures
        state.entities@[i].entity == entity ==> {
            &&& record == Some(state.entities@[i])
            &&& connected == state.entities@[i].client
        },
        state.entities@[i].entity.index == entity.index ==> !free,
        record is None ==> state.entities@[i].entity != entity,
        record matches Some(r) ==> r.entity == entity && state.entities@.contains(r),
        free || (exists|j: int|
            0 <= j < state.entities@.len() && (#[trigger] state.entities@[j]).entity.index
                == entity.index),
{
    let here = state.entities@[i];
    assert(state.entities@.contains(here));
    records_are_found_by_entity(state, entity, here);
    if let Some(r) = record {
        records_are_found_by_entity(state, entity, r);
    }
}

/// Whoever arrives while fewer are connected than may be gets an entity, anyone else
/// is turned away, and nothing about the server changes for it.
pub proof fn arrivals_are_let_in_or_turned_away<W, M, F>(
    server: &mut Server<W, M, F>,
    action: ClientAction,
)
    requires
        call_ensures(Server::<W, M, F>::initialize_client, (server, ClientEvent::Arrived), action),
    ensures
        old(server).state.entities@.filter(|r: EntityRecord| r.client).len() < old(server).settings.max_players ==> action == ClientAction::CreateEntity,
        old(server).state.entities@.filter(|r: EntityRecord| r.client).len() >= old(server).settings.max_players ==> action == ClientAction::Greet(Greeting::TooManyPlayers),
        final(server).state == old(server).state,
        final(server).settings == old(server).settings,
{
    the_state_counts_its_clients(old(server).state);
}

/// Whoever got an entity is sent the game for it, and is one client more under that
/// entity and identifier; all others stay what they were.
pub proof fn clients_are_added<W, M, F>(
    server: &mut Server<W, M, F>,
    entity: Entity,
    uid: Option<u64>,
    action: ClientAction,
    i: int,
)
    requires
        old(server).wf(),
        crate::state::index_is_free(old(server).state.entities@, entity.index),
        call_ensures(
            Server::<W, M, F>::initialize_client,
            (server, ClientEvent::Created(entity, uid)),
            action,
        ),
    ensures
        action == ClientAction::Greet(Greeting::GameSync(entity)),
        final(server).wf(),
        final(server).settings == old(server).settings,
        final(server).state.terrain == old(server).state.terrain,
        final(server).state.entities@.len() == old(server).state.entities@.len() + 1,
        0 <= i < old(server).state.entities@.len() ==> final(server).state.entities@.contains(
            old(server).state.entities@[i],
        ),
        exists|j: int|
            0 <= j < final(server).state.entities@.len() && (
            #[trigger] final(server).state.entities@[j]).entity == entity && final(server).state.entities@[j].client && final(server).state.entities@[j].uid == uid,
{
    let before = old(server).state.entities@;
    let after = final(server).state.entities@;
    let n = crate::state::place_for(before, entity.index) as int;
    if before.len() > 0 {
        crate::state::places_go_by_index(before, entity.index, 0);
    }
    assert(0 <= n <= before.len());
    assert(after[n].entity == entity);
    if 0 <= i < before.len() {
        if i < n {
            assert(after[i] == before[i]);
        } else {
            assert(after[i + 1] == before[i]);
        }
    }
}

/// What became of someone is their entity if they were sent the game, nobody's if
/// they were turned away, and the error if nothing could be sent.
pub proof fn connections_are_concluded<E>(
    greeting: Greeting,
    sent: Result<(), E>,
    r: Result<Option<Entity>, E>,
)
    requires
        call_ensures(Greeting::conclude::<E>, (greeting, sent), r),
    ensures
        sent matches Err(e) ==> r == Err::<Option<Entity>, E>(e),
        sent is Ok && greeting is TooManyPlayers ==> r == Ok::<Option<Entity>, E>(None),
        sent is Ok ==> (greeting matches Greeting::GameSync(entity) ==> r == Ok::<
            Option<Entity>,
            E,
        >(Some(entity))),
{
}

/// Whoever was let in is announced behind what was announced before; nobody else is.
pub proof fn connections_are_announced<W, M, F, E, G>(
    server: Server<W, M, F>,
    result: Result<Option<Entity>, E>,
    results: Vec<Result<Option<Entity>, E>>,
    events: &mut Vec<Event<G>>,
)
    requires
        results@ == seq![result],
        call_ensures(
            Server::<W, M, F>::handle_new_connections::<E, G>,
            (&server, results, events),
            (),
        ),
    ensures
        match result {
            Ok(Some(entity)) => final(events)@ == old(events)@.push(
                Event::ClientConnected { entity },
            ),
            _ => final(events)@ == old(events)@,
        },
{
    reveal_with_fuel(connection_events, 2);
    assert(seq![result].drop_last() =~= Seq::empty());
    let added = connection_events::<E, G>(seq![result]);
    match result {
        Ok(Some(entity)) => {
            assert(added =~= seq![Event::ClientConnected { entity }]);
            assert(final(events)@ =~= old(events)@.push(Event::ClientConnected { entity }));
        },
        _ => {
            assert(added =~= Seq::empty());
            assert(final(events)@ =~= old(events)@);
        },
    }
}

/// A tick is counted and stamped, and begins with the new connections at the first
/// reading of the clock; nothing else about the server changes.
pub proof fn ticks_are_begun<W, M, F, G>(
    server: &mut Server<W, M, F>,
    dt: TimeSpan,
    start: u128,
    now: u128,
    run: TickRun<G>,
)
    requires
        old(server).tick.0 < u64::MAX,
        call_ensures(Server::<W, M, F>::tick::<G>, (server, dt, start, now), run),
    ensures
        final(server).tick.0 == old(server).tick.0 + 1,
        final(server).tick_start.0 == start,
        final(server).state == old(server).state,
        final(server).settings == old(server).settings,
        final(server).editable_settings == old(server).editable_settings,
        run.dt == dt,
        run.work is HandleNewConnections,
        run.stamps@ == seq![now],
        run.frontend_events@.len() == 0,
{
    assert(run@ == crate::tick::begun::<G>(dt, now));
}

/// What follows a part of the work never takes the game or the world on by anything
/// but the length of the tick, and comes in its order.
pub proof fn work_follows_in_order(work: TickWork, dt: TimeSpan, next: TickWork)
    requires
        call_ensures(following, (work, dt), next),
    ensures
        match work {
            TickWork::HandleNewConnections => next == TickWork::RunMessageSystem(
                MessageSystem::General,
            ),
            TickWork::RunMessageSystem(MessageSystem::General) => next
                == TickWork::RunMessageSystem(MessageSystem::Register),
            TickWork::RunMessageSystem(MessageSystem::Register) => next
                == TickWork::RunMessageSystem(MessageSystem::CharacterScreen),
            TickWork::RunMessageSystem(MessageSystem::CharacterScreen) => next
                == TickWork::RunMessageSystem(MessageSystem::InGame),
            TickWork::RunMessageSystem(MessageSystem::InGame) => next
                == TickWork::RunMessageSystem(MessageSystem::Terrain),
            TickWork::RunMessageSystem(MessageSystem::Terrain) => next
                == TickWork::RunMessageSystem(MessageSystem::Ping),
            TickWork::RunMessageSystem(MessageSystem::Ping) => next == TickWork::RunMessageSystem(
                MessageSystem::Agent,
            ),
            TickWork::RunMessageSystem(MessageSystem::Agent) => next == (TickWork::TickState {
                dt,
                updates_terrain: false,
            }),
            TickWork::TickState { .. } => next is HandleEvents,
            TickWork::HandleEvents => next is UpdateRegionMap,
            TickWork::UpdateRegionMap => next is ApplyTerrainChanges,
            TickWork::ApplyTerrainChanges => next is RunSyncSystems,
            TickWork::RunSyncSystems => next == TickWork::TickWorld(dt),
            TickWork::TickWorld(_) => next is CleanUpEntities,
            TickWork::CleanUpEntities => next is UpdatePersistence,
            TickWork::UpdatePersistence => next is ReloadColors,
            TickWork::ReloadColors => next is RunMetricsSystem,
            TickWork::RunMetricsSystem => next is ReportTimings,
            TickWork::ReportTimings => next is Finished,
            TickWork::Finished => next is Finished,
        },
{
}

/// A tick that moves on keeps its length and its readings, adds the new one where a
/// part of the work that is timed is due, and adds what the new connections and the
/// game brought forth.
pub proof fn ticks_move_on<G>(run: &mut TickRun<G>, now: u128, events: Vec<Event<G>>)
    requires
        call_ensures(TickRun::<G>::advance, (run, now, events), ()),
    ensures
        final(run).dt == old(run).dt,
        old(run).work is HandleNewConnections || old(run).work is HandleEvents ==> final(run).frontend_events@ == old(run).frontend_events@ + events@,
        !(old(run).work is HandleNewConnections || old(run).work is HandleEvents) ==> final(run).frontend_events@ == old(run).frontend_events@,
        final(run).work == TickWork::RunMessageSystem(MessageSystem::General) || final(run).work is TickState || final(run).work is HandleEvents || final(run).work is UpdateRegionMap
            || final(run).work is RunSyncSystems || final(run).work is TickWorld || final(run).work is CleanUpEntities || final(run).work is UpdatePersistence || final(run).work is RunMetricsSystem ==> final(run).stamps@ == old(run).stamps@.push(now),
        final(run).work is ApplyTerrainChanges || final(run).work is ReloadColors || final(run).work is ReportTimings || final(run).work is Finished ==> final(run).stamps@ == old(run).stamps@,
{
    assert(final(run)@.events == final(run).frontend_events@);
    assert(old(run)@.events == old(run).frontend_events@);
    assert(final(run)@.stamps == final(run).stamps@);
    assert(old(run)@.stamps == old(run).stamps@);
}

/// A server that goes down stops its metrics, then tells the players that it does.
pub proof fn servers_go_down_in_order<W, M, F, L>(
    server: Server<W, M, F>,
    steps: Vec<ShutdownStep<L>>,
)
    requires
        call_ensures(Server::<W, M, F>::shutdown_steps::<L>, (&server,), steps),
    ensures
        steps@.len() == 2,
        steps@[0] is StopMetrics,
        steps@[1] == ShutdownStep::<L>::NotifyPlayers(
            ServerGeneral::Disconnect(DisconnectReason::Shutdown),
        ),
{
}

/// The cleanup of a server deletes an entity just when it is no player, is somewhere,
/// and neither the chunk that it is in nor its home chunk, if it has one, is loaded.
/// `key` is that of the chunk that it is in.
pub proof fn servers_delete_just_the_strayed<W, M, F>(
    server: Server<W, M, F>,
    steps: Vec<CleanupStep>,
    i: int,
    key: Vec2i,
)
    requires
        server.wf(),
        call_ensures(Server::<W, M, F>::clean_up_entities, (&server,), steps),
        0 <= i < server.state.entities@.len(),
        server.state.entities@[i].pos matches Some(pos) ==> {
            let size = server.state.terrain.chunk_size;
            &&& key.x * size.x <= pos.x < key.x * size.x + size.x
            &&& key.y * size.y <= pos.y < key.y * size.y + size.y
        },
    ensures
        steps@.contains(CleanupStep::Delete(server.state.entities@[i].entity)) <==> {
            &&& !server.state.entities@[i].player
            &&& server.state.entities@[i].pos is Some
            &&& !server.state.terrain.loaded@.contains(key)
            &&& server.state.entities@[i].home_chunk matches Some(home)
                ==> !server.state.terrain.loaded@.contains(home)
        },
{
    cleanup_deletes_just_the_strayed(server.state, i, key);
}

/// The same, of a state; and what is deleted that the simulation of the far-off world
/// knows is handed back to it just before.
pub proof fn states_delete_just_the_strayed(
    state: State,
    steps: Vec<CleanupStep>,
    found: Vec<EntityRecord>,
    i: int,
    key: Vec2i,
    n: int,
)
    requires
        state.wf(),
        call_ensures(State::cleanup_steps, (&state,), steps),
        call_ensures(State::find_strays, (&state,), found),
        0 <= i < state.entities@.len(),
        state.entities@[i].pos matches Some(pos) ==> {
            let size = state.terrain.chunk_size;
            &&& key.x * size.x <= pos.x < key.x * size.x + size.x
            &&& key.y * size.y <= pos.y < key.y * size.y + size.y
        },
    ensures
        steps@.contains(CleanupStep::Delete(state.entities@[i].entity)) <==> {
            &&& !state.entities@[i].player
            &&& state.entities@[i].pos is Some
            &&& !state.terrain.loaded@.contains(key)
            &&& state.entities@[i].home_chunk matches Some(home) ==> !state.terrain.loaded@.contains(
                home,
            )
        },
        found@.contains(state.entities@[i]) <==> steps@.contains(
            CleanupStep::Delete(state.entities@[i].entity),
        ),
        0 <= n < steps@.len() && steps@[n] == CleanupStep::Delete(state.entities@[i].entity) ==> (
        state.entities@[i].rtsim matches Some(id) ==> n > 0 && steps@[n - 1]
            == CleanupStep::Assimilate(id)),
{
    let record = state.entities@[i];
    assert(state.entities@.contains(record));
    cleanup_deletes_just_the_strayed(state, i, key);
    strays_are_exact(state, record, key, 0, 0);
    if 0 <= n < steps@.len() {
        cleanup_takes_back_before_it_deletes(state, n, n);
        records_are_found_by_entity(state, record.entity, record);
    }
}

/// Terrain is looked up by the key of the chunk whose columns hold a block.
pub proof fn terrain_is_looked_up(
    terrain: TerrainGrid,
    pos: Vec3i,
    key: Vec2i,
    asked: Vec2i,
    loaded: bool,
)
    requires
        terrain.wf(),
        call_ensures(TerrainGrid::pos_key, (&terrain, pos), key),
        call_ensures(TerrainGrid::has_key, (&terrain, asked), loaded),
    ensures
        key.x * terrain.chunk_size.x <= pos.x < key.x * terrain.chunk_size.x
            + terrain.chunk_size.x,
        key.y * terrain.chunk_size.y <= pos.y < key.y * terrain.chunk_size.y
            + terrain.chunk_size.y,
        loaded <==> terrain.loaded@.contains(asked),
{
    blocks_lie_in_the_chunk_of_their_key(terrain, pos, key);
}

/// The terrain is forgotten while nobody is connected, and otherwise each of its
/// loaded chunks is generated again, for nobody in particular; what is in the making
/// is given up first.
pub proof fn terrain_is_made_anew<W, M, F>(
    server: Server<W, M, F>,
    steps: Vec<ReloadStep>,
    same: Vec<ReloadStep>,
    i: int,
)
    requires
        call_ensures(Server::<W, M, F>::reload_colors, (&server,), steps),
        call_ensures(reload_steps, (&server.state,), same),
        0 <= i < server.state.terrain.loaded@.len(),
    ensures
        same@ == steps@,
        steps@.len() > 0 && steps@[0] is CancelAll,
        server.state.entities@.filter(|r: EntityRecord| r.client).len() == 0 ==> steps@ == seq![
            ReloadStep::CancelAll,
            ReloadStep::ClearTerrain,
        ],
        server.state.entities@.filter(|r: EntityRecord| r.client).len() > 0 ==> {
            &&& steps@.len() == server.state.terrain.loaded@.len() + 1
            &&& steps@[i + 1] == ReloadStep::Generate(
                ChunkJob { requester: None, key: server.state.terrain.loaded@[i] },
            )
        },
{
    the_state_counts_its_clients(server.state);
    crate::chunks::reload_is_exact(server.state);
}

/// A single answer of the database is dealt with for the entity that it names: what
/// was found is told or handed on as it is, and what could not be found is told as
/// the error says. Whoever is not connected is not told anything.
pub proof fn answers_are_dealt_with<W, M, F, L, D>(
    server: Server<W, M, F>,
    response: CharacterLoaderResponse<L, D>,
    responses: Vec<CharacterLoaderResponse<L, D>>,
    effects: Vec<Effect<L, D>>,
    same: Vec<Effect<L, D>>,
)
    requires
        server.wf(),
        responses@ == seq![response],
        call_ensures(
            Server::<W, M, F>::update_persistence::<L, D>,
            (&server, responses),
            effects,
        ),
        call_ensures(react_to_all::<L, D>, (&server.state, responses), same),
    ensures
        effect_views(same@) == effect_views(effects@),
        ({
            let e = response.entity;
            let told = |msg: MessageView<L>|
                if server.state.is_client(e) {
                    seq![EffectView::<L, D>::Send(e, msg)]
                } else {
                    Seq::<EffectView<L, D>>::empty()
                };
            effect_views(effects@) == match response.result {
                CharacterLoaderResponseKind::CharacterList(Ok(list)) => told(
                    MessageView::CharacterListUpdate(list),
                ),
                CharacterLoaderResponseKind::CharacterList(Err(why)) => told(
                    MessageView::CharacterActionError(why@),
                ),
                CharacterLoaderResponseKind::CharacterCreation(Ok((id, list))) => told(
                    MessageView::CharacterListUpdate(list),
                ) + told(MessageView::CharacterCreated(id)),
                CharacterLoaderResponseKind::CharacterCreation(Err(why)) => told(
                    MessageView::CharacterActionError(why@),
                ),
                CharacterLoaderResponseKind::CharacterData(Ok(components)) => seq![
                    EffectView::Emit(ServerEvent::UpdateCharacterData { entity: e, components }),
                ],
                CharacterLoaderResponseKind::CharacterData(Err(why)) => told(
                    MessageView::CharacterDataLoadError(why@),
                ) + seq![EffectView::Emit(ServerEvent::ExitIngame { entity: e })],
            }
        }),
{
    single_answers_are_dealt_with_alone(server.state, response);
    assert(effect_views(effects@) == crate::persistence::reaction(server.state, response));
    let e = response.entity;
    let told = |msg: MessageView<L>|
        if server.state.is_client(e) {
            seq![EffectView::<L, D>::Send(e, msg)]
        } else {
            Seq::<EffectView<L, D>>::empty()
        };
    match response.result {
        CharacterLoaderResponseKind::CharacterCreation(Ok((id, list))) => {
            assert(effect_views(effects@) =~= told(MessageView::CharacterListUpdate(list)) + told(
                MessageView::CharacterCreated(id),
            ));
        },
        CharacterLoaderResponseKind::CharacterData(Err(why)) => {
            assert(effect_views(effects@) =~= told(MessageView::CharacterDataLoadError(why@))
                + seq![EffectView::Emit(ServerEvent::ExitIngame { entity: e })]);
        },
        _ => {},
    }
}

/// What several answers lead to is what each leads to, one behind the other; and what
/// was to be done before is done first.
pub proof fn answers_are_dealt_with_in_turn<L, D>(
    state: State,
    first: CharacterLoaderResponse<L, D>,
    effects: &mut Vec<Effect<L, D>>,
    alone: Vec<CharacterLoaderResponse<L, D>>,
    of_alone: Vec<Effect<L, D>>,
)
    requires
        alone@ == seq![first],
        call_ensures(react::<L, D>, (&state, first, effects), ()),
        call_ensures(react_to_all::<L, D>, (&state, alone), of_alone),
    ensures
        effect_views(final(effects)@) == effect_views(old(effects)@) + effect_views(of_alone@),
{
    single_answers_are_dealt_with_alone(state, first);
}

/// What is found of a column is the block listed for the height, and one is found to
/// be able to stand just where the block below is filled and the next three are not
/// solid.
pub proof fn columns_are_looked_at(
    column: Column,
    z: i32,
    block: Option<GroundBlock>,
    r: bool,
)
    requires
        call_ensures(Column::get, (&column, z), block),
        call_ensures(Column::is_standable, (&column, z), r),
    ensures
        column.bottom <= z < column.bottom + column.blocks@.len() ==> block
            == column.blocks@[z - column.bottom],
        z < column.bottom || column.bottom + column.blocks@.len() <= z ==> block is None,
        r <==> {
            &&& column.bottom <= z - 1 < column.bottom + column.blocks@.len()
            &&& column.blocks@[z - 1 - column.bottom] matches Some(ground)
            &&& ground.filled
            &&& column.bottom <= z < column.bottom + column.blocks@.len() ==> (column.blocks@[z
                - column.bottom] matches Some(b) ==> !b.solid)
            &&& column.bottom <= z + 1 < column.bottom + column.blocks@.len() ==> (column.blocks@[z + 1
                - column.bottom] matches Some(b) ==> !b.solid)
            &&& column.bottom <= z + 2 < column.bottom + column.blocks@.len() ==> (column.blocks@[z + 2
                - column.bottom] matches Some(b) ==> !b.solid)
        },
{
    standing_takes_ground_and_room(column, z as int);
}

/// The height that is found is the lowest of the range at which one can stand, if
/// there is any; otherwise it is the bottom of the range.
pub proof fn the_lowest_height_is_found(column: Column, min_z: i32, max_z: i32, z: i32, h: int)
    requires
        call_ensures(Column::spawn_height, (&column, min_z, max_z), z),
    ensures
        min_z <= h < max_z && ({
            &&& column.bottom <= h - 1 < column.bottom + column.blocks@.len()
            &&& column.blocks@[h - 1 - column.bottom] matches Some(ground)
            &&& ground.filled
            &&& column.bottom <= h < column.bottom + column.blocks@.len() ==> (column.blocks@[h
                - column.bottom] matches Some(b) ==> !b.solid)
            &&& column.bottom <= h + 1 < column.bottom + column.blocks@.len() ==> (column.blocks@[h + 1
                - column.bottom] matches Some(b) ==> !b.solid)
            &&& column.bottom <= h + 2 < column.bottom + column.blocks@.len() ==> (column.blocks@[h + 2
                - column.bottom] matches Some(b) ==> !b.solid)
        }) ==> min_z <= z <= h && ({
            &&& column.bottom <= z - 1 < column.bottom + column.blocks@.len()
            &&& column.blocks@[z - 1 - column.bottom] matches Some(ground)
            &&& ground.filled
            &&& column.bottom <= z < column.bottom + column.blocks@.len() ==> (column.blocks@[z
                - column.bottom] matches Some(b) ==> !b.solid)
            &&& column.bottom <= z + 1 < column.bottom + column.blocks@.len() ==> (column.blocks@[z + 1
                - column.bottom] matches Some(b) ==> !b.solid)
            &&& column.bottom <= z + 2 < column.bottom + column.blocks@.len() ==> (column.blocks@[z + 2
                - column.bottom] matches Some(b) ==> !b.solid)
        }),
        z != min_z ==> min_z <= z < max_z && ({
            &&& column.bottom <= z - 1 < column.bottom + column.blocks@.len()
            &&& column.blocks@[z - 1 - column.bottom] matches Some(ground)
            &&& ground.filled
            &&& column.bottom <= z < column.bottom + column.blocks@.len() ==> (column.blocks@[z
                - column.bottom] matches Some(b) ==> !b.solid)
            &&& column.bottom <= z + 1 < column.bottom + column.blocks@.len() ==> (column.blocks@[z + 1
                - column.bottom] matches Some(b) ==> !b.solid)
            &&& column.bottom <= z + 2 < column.bottom + column.blocks@.len() ==> (column.blocks@[z + 2
                - column.bottom] matches Some(b) ==> !b.solid)
        }),
{
    standing_takes_ground_and_room(column, z as int);
    standing_takes_ground_and_room(column, h);
    if min_z <= h < max_z && column.standable(h) {
        spawn_height_is_standable_and_lowest(
            column,
            min_z as int,
            max_z as int,
            z as int,
            h,
        );
    }
    if z != min_z {
        spawn_height_is_standable_or_the_bottom(column, min_z as int, max_z as int, z as int);
    }
}

/// The chunk that is found is that of a settlement, none is nearer to the middle of
/// the world, and none that is as near comes before it; without settlements it is the
/// middle.
pub proof fn the_nearest_town_is_found(
    map_size: MapSize,
    sites: Vec<Site>,
    chunk: Vec2i,
    j: int,
    dx: int,
    dy: int,
    ex: int,
    ey: int,
)
    requires
        call_ensures(spawn_chunk, (map_size, &sites), chunk),
        dx == chunk.x - map_size.x as int / 2,
        dy == chunk.y - map_size.y as int / 2,
        0 <= j < sites@.len() ==> ex == sites@[j].center.x - map_size.x as int / 2 && ey
            == sites@[j].center.y - map_size.y as int / 2,
    ensures
        0 <= j < sites@.len() && sites@[j].kind is Settlement ==> {
            &&& dx * dx + dy * dy <= ex * ex + ey * ey
            &&& exists|i: int|
                0 <= i < sites@.len() && (#[trigger] sites@[i]).kind is Settlement
                    && sites@[i].center == chunk && (dx * dx + dy * dy == ex * ex + ey * ey ==> i
                    <= j)
        },
        (forall|i: int| 0 <= i < sites@.len() ==> !((#[trigger] sites@[i]).kind is Settlement))
            ==> dx == 0 && dy == 0,
{
    if 0 <= j < sites@.len() && sites@[j].kind is Settlement {
        towns_are_chosen_by_distance(map_size, sites@, chunk, j, dx, dy, ex, ey);
    }
    if forall|i: int| 0 <= i < sites@.len() ==> !((#[trigger] sites@[i]).kind is Settlement) {
        without_towns_the_middle_is_chosen(map_size, sites@, chunk);
    }
}

/// The column that is searched lies half a side into the spawn chunk.
pub proof fn the_middle_column_is_searched(chunk: Vec2i, size: Vec2u, wpos: Vec2i, column: Vec2i)
    requires
        size.is_chunk_size(),
        crate::spawn::columns_fit(chunk, size),
        call_ensures(spawn_wpos, (chunk, size), wpos),
        call_ensures(spawn_column, (chunk, size), column),
    ensures
        wpos.x == chunk.x * size.x + size.x as int / 2,
        wpos.y == chunk.y * size.y + size.y as int / 2,
        column.x == size.x as int / 2,
        column.y == size.y as int / 2,
{
    middle_columns_lie_half_a_side_in(chunk, size);
    crate::spawn::spawn_column_is_central(chunk, size);
}

/// Players enter in the middle column of the chunk that is found for them, at the
/// height that is found in the surveyed column.
pub proof fn players_enter_where_it_was_found(
    survey: Option<SpawnSurvey>,
    point: SpawnPoint,
    chunk: Vec2i,
    z: i32,
)
    requires
        survey matches Some(s) ==> {
            &&& s.fits()
            &&& call_ensures(spawn_chunk, (s.map_size, &s.sites), chunk)
            &&& call_ensures(Column::spawn_height, (&s.column, s.min_z, s.max_z), z)
        },
        call_ensures(find_spawn_point, (&survey,), point),
    ensures
        survey matches Some(s) ==> {
            &&& point.block.x == chunk.x * s.rect_size.x + s.rect_size.x as int / 2
            &&& point.block.y == chunk.y * s.rect_size.y + s.rect_size.y as int / 2
            &&& point.block.z == z
            &&& point.centred
        },
        survey is None ==> point.block == (Vec3i { x: 0, y: 0, z: 256 }) && !point.centred,
{
    spawn_points_lie_in_the_middle_column(survey, point, chunk);
    if let Some(s) = survey {
        crate::spawn::spawn_height_is_unique(
            s.column,
            s.min_z as int,
            s.max_z as int,
            point.block.z as int,
            z as int,
        );
    }
}

/// Columns and heights are held to fit just where the numbers that they lead to are
/// values of an `i32`.
pub proof fn spawn_limits_are_tested(
    chunk: Vec2i,
    size: Vec2u,
    placed: bool,
    min_z: i32,
    max_z: i32,
    searched: bool,
)
    requires
        call_ensures(can_place, (chunk, size), placed),
        call_ensures(can_search, (min_z, max_z), searched),
    ensures
        placed <==> {
            &&& i32::MIN <= chunk.x * size.x <= i32::MAX
            &&& i32::MIN <= chunk.y * size.y <= i32::MAX
            &&& i32::MIN <= chunk.x * size.x + size.x as int / 2 <= i32::MAX
            &&& i32::MIN <= chunk.y * size.y + size.y as int / 2 <= i32::MAX
        },
        searched <==> {
            &&& i32::MIN <= max_z - min_z <= i32::MAX
            &&& min_z < max_z ==> i32::MIN <= min_z - 1 && max_z - 1 + 2 <= i32::MAX
        },
{
}

/// A block of a box is the one that is listed for its position, by `x`, then by `y`,
/// then by `z`; its colour is its own.
pub proof fn boxes_are_looked_into(
    vol: Dyna,
    pos: Vec3i,
    block: Option<Block>,
    any: Block,
    color: Option<Rgb>,
    size: Vec3u,
)
    requires
        vol.wf(),
        call_ensures(Dyna::get, (&vol, pos), block),
        call_ensures(Dyna::get_size, (&vol,), size),
        call_ensures(Block::get_color, (&any,), color),
    ensures
        block is Some <==> 0 <= pos.x < vol.size.x && 0 <= pos.y < vol.size.y && 0 <= pos.z
            < vol.size.z,
        block is Some ==> block == Some(
            vol.blocks@[(pos.x * vol.size.y + pos.y) * vol.size.z + pos.z],
        ),
        size == vol.size,
        color == any.color,
{
    blocks_of_a_box_come_by_position(vol, pos);
}

/// A box walked over one position gives that voxel, if it is coloured and off the
/// surface, and nothing otherwise; walked over more it gives what each gives, in turn.
pub proof fn boxes_are_meshed(
    vol: Dyna,
    pos: Vec3i,
    alone: Vec<Vec3i>,
    one: Vec<MeshVoxel>,
    before: Vec<Vec3i>,
    earlier: Vec<MeshVoxel>,
    positions: Vec<Vec3i>,
    all: Vec<MeshVoxel>,
)
    requires
        vol.wf(),
        alone@ == seq![pos],
        positions@ == before@.push(pos),
        call_ensures(Dyna::generate_mesh, (&vol, &alone), one),
        call_ensures(Dyna::generate_mesh, (&vol, &before), earlier),
        call_ensures(Dyna::generate_mesh, (&vol, &positions), all),
    ensures
        all@ == earlier@ + one@,
        before@.len() == 0 ==> earlier@.len() == 0,
        one@.len() <= 1,
        one@.len() == 1 <==> {
            &&& 1 <= pos.x < vol.size.x - 1
            &&& 1 <= pos.y < vol.size.y - 1
            &&& 1 <= pos.z < vol.size.z - 1
            &&& vol.blocks@[(pos.x * vol.size.y + pos.y) * vol.size.z + pos.z].color is Some
        },
        one@.len() == 1 ==> {
            &&& one@[0].pos == pos
            &&& one@[0].local == pos
            &&& vol.blocks@[(pos.x * vol.size.y + pos.y) * vol.size.z + pos.z].color == Some(
                one@[0].col,
            )
        },
{
    a_position_of_a_box_gives_itself(vol, pos);
    assert(positions@ =~= before@ + seq![pos]);
    crate::mesh::dyna_mesh_concat(vol, before@, seq![pos]);
}

/// A chunk is stored under its key and found there, every other chunk stays where it
/// was, and a position is read from the chunk, and from the place in it, that the
/// sides of a chunk lead to.
pub proof fn chunks_are_stored_and_found<'a>(
    vol: &'a VolMap,
    key: Vec3i,
    found: Option<&'a Dyna>,
    pos: Vec3i,
    at: Vec3i,
    offset: Vec3i,
    block: Option<Block>,
)
    requires
        vol.wf(),
        call_ensures(VolMap::get_key, (vol, key), found),
        call_ensures(VolMap::pos_key, (vol, pos), at),
        call_ensures(VolMap::chunk_offs, (vol, pos), offset),
        call_ensures(VolMap::get, (vol, pos), block),
    ensures
        found matches Some(chunk) ==> vol.chunks@.contains((key, *chunk)),
        found is None <==> forall|i: int|
            0 <= i < vol.chunks@.len() ==> (#[trigger] vol.chunks@[i]).0 != key,
        pos.x == at.x * vol.chunk_size.x + offset.x,
        pos.y == at.y * vol.chunk_size.y + offset.y,
        pos.z == at.z * vol.chunk_size.z + offset.z,
        0 <= offset.x < vol.chunk_size.x,
        0 <= offset.y < vol.chunk_size.y,
        0 <= offset.z < vol.chunk_size.z,
        key == at ==> match found {
            None => block is None,
            Some(c) => if offset.x < c.size.x && offset.y < c.size.y && offset.z < c.size.z {
                block == Some(
                    c.blocks@[(offset.x * c.size.y + offset.y) * c.size.z + offset.z],
                )
            } else {
                block is None
            },
        },
{
    voxel_key_and_offset(pos, vol.chunk_size);
    match found {
        Some(c) => {
            chunks_are_found_by_key(*vol, key, *c);
            if key == at {
                the_world_is_made_of_its_chunks(*vol, key, Some(*c), offset, pos);
            }
        },
        None => {
            chunks_are_found_by_key(*vol, key, arbitrary());
            if key == at {
                the_world_is_made_of_its_chunks(*vol, key, None, offset, pos);
            }
        },
    }
}

/// A chunk that is stored is found under its key and nothing else is lost or added.
pub proof fn chunks_are_kept(
    vol: &mut VolMap,
    key: Vec3i,
    chunk: Dyna,
    other: Vec3i,
    theirs: Dyna,
)
    requires
        old(vol).wf(),
        call_ensures(VolMap::insert, (vol, key, chunk), ()),
    ensures
        final(vol).wf(),
        final(vol).chunk_size == old(vol).chunk_size,
        final(vol).chunks@.contains((key, chunk)),
        other != key ==> (final(vol).chunks@.contains((other, theirs)) <==> old(vol).chunks@.contains((other, theirs))),
{
    chunks_are_found_by_key(*final(vol), key, chunk);
    chunks_are_found_by_key(*final(vol), other, theirs);
    chunks_are_found_by_key(*old(vol), other, theirs);
}

/// What is drawn of a world once a chunk has been stored under `key`: at every offset
/// in that chunk, at the position that key and offset lead to, the colour that the
/// chunk has there, and nothing where it has none.
pub proof fn stored_chunks_are_drawn(
    vol: &mut VolMap,
    key: Vec3i,
    chunk: Dyna,
    range: Aabb,
    mesh: Vec<MeshVoxel>,
    offset: Vec3i,
    v: MeshVoxel,
)
    requires
        old(vol).wf(),
        call_ensures(VolMap::insert, (vol, key, chunk), ()),
        call_ensures(VolMap::generate_mesh, (&*final(vol), range), mesh),
        crate::mesh::sides_fit(range),
        0 <= offset.x < old(vol).chunk_size.x,
        0 <= offset.y < old(vol).chunk_size.y,
        0 <= offset.z < old(vol).chunk_size.z,
        v.pos.x == key.x * old(vol).chunk_size.x + offset.x,
        v.pos.y == key.y * old(vol).chunk_size.y + offset.y,
        v.pos.z == key.z * old(vol).chunk_size.z + offset.z,
        range.min.x <= v.pos.x < range.max.x,
        range.min.y <= v.pos.y < range.max.y,
        range.min.z <= v.pos.z < range.max.z,
        v.local.x == v.pos.x - range.min.x,
        v.local.y == v.pos.y - range.min.y,
        v.local.z == v.pos.z - range.min.z,
    ensures
        mesh@.contains(v) <==> {
            &&& offset.x < chunk.size.x
            &&& offset.y < chunk.size.y
            &&& offset.z < chunk.size.z
            &&& chunk.blocks@[(offset.x * chunk.size.y + offset.y) * chunk.size.z
                + offset.z].color == Some(v.col)
        },
{
    chunks_are_found_by_key(*final(vol), key, chunk);
    chunks_are_drawn_where_they_are(*final(vol), range, key, Some(chunk), offset, v);
}

/// A mesh holds exactly the coloured voxels of its range, each once, at its position
/// and as far from the lower corner of the range as it lies; by `x`, then by `y`, then
/// by `z`.
pub proof fn ranges_are_meshed(
    vol: VolMap,
    range: Aabb,
    mesh: Vec<MeshVoxel>,
    v: MeshVoxel,
    block: Option<Block>,
    i: int,
    j: int,
)
    requires
        crate::mesh::sides_fit(range),
        call_ensures(VolMap::generate_mesh, (&vol, range), mesh),
        call_ensures(VolMap::get, (&vol, v.pos), block),
    ensures
        mesh@.contains(v) <==> {
            &&& range.min.x <= v.pos.x < range.max.x
            &&& range.min.y <= v.pos.y < range.max.y
            &&& range.min.z <= v.pos.z < range.max.z
            &&& v.local.x == v.pos.x - range.min.x
            &&& v.local.y == v.pos.y - range.min.y
            &&& v.local.z == v.pos.z - range.min.z
            &&& block matches Some(b)
            &&& b.color == Some(v.col)
        },
        0 <= i < j < mesh@.len() ==> {
            let a = mesh@[i].local;
            let b = mesh@[j].local;
            ||| a.x < b.x
            ||| a.x == b.x && a.y < b.y
            ||| a.x == b.x && a.y == b.y && a.z < b.z
        },
{
    a_mesh_holds_the_coloured_voxels_of_its_range(vol, range, v);
    if 0 <= i < j < mesh@.len() {
        meshes_go_along_z_first(vol, range, i, j);
    }
}

/// The box of a chunk shows exactly the coloured blocks of that chunk.
pub proof fn chunks_fill_their_box(
    vol: VolMap,
    key: Vec3i,
    chunk: Dyna,
    range: Aabb,
    mesh: Vec<MeshVoxel>,
    v: MeshVoxel,
)
    requires
        vol.wf(),
        vol.chunks@.contains((key, chunk)),
        call_ensures(VolMap::generate_mesh, (&vol, range), mesh),
        range.min.x == key.x * vol.chunk_size.x,
        range.min.y == key.y * vol.chunk_size.y,
        range.min.z == key.z * vol.chunk_size.z,
        range.max.x == range.min.x + vol.chunk_size.x,
        range.max.y == range.min.y + vol.chunk_size.y,
        range.max.z == range.min.z + vol.chunk_size.z,
    ensures
        mesh@.contains(v) <==> {
            let o = v.local;
            &&& 0 <= o.x < vol.chunk_size.x
            &&& 0 <= o.y < vol.chunk_size.y
            &&& 0 <= o.z < vol.chunk_size.z
            &&& v.pos.x == key.x * vol.chunk_size.x + o.x
            &&& v.pos.y == key.y * vol.chunk_size.y + o.y
            &&& v.pos.z == key.z * vol.chunk_size.z + o.z
            &&& o.x < chunk.size.x
            &&& o.y < chunk.size.y
            &&& o.z < chunk.size.z
            &&& chunk.blocks@[(o.x * chunk.size.y + o.y) * chunk.size.z + o.z].color == Some(v.col)
        },
{
    the_box_of_a_chunk_shows_that_chunk(vol, key, chunk, range, v);
}

/// The sides of a range are held to fit just where they are values of an `i32`, and
/// volumes are held to be well formed just where they are.
pub proof fn volumes_are_tested(
    range: Aabb,
    sides: bool,
    chunk: Dyna,
    whole: bool,
    vol: VolMap,
    sound: bool,
)
    requires
        call_ensures(has_sides, (range,), sides),
        call_ensures(Dyna::is_well_formed, (&chunk,), whole),
        call_ensures(VolMap::is_well_formed, (&vol,), sound),
    ensures
        sides <==> {
            &&& i32::MIN <= range.max.x - range.min.x <= i32::MAX
            &&& i32::MIN <= range.max.y - range.min.y <= i32::MAX
            &&& i32::MIN <= range.max.z - range.min.z <= i32::MAX
        },
        whole <==> {
            &&& chunk.size.x <= 0x7fff_ffff
            &&& chunk.size.y <= 0x7fff_ffff
            &&& chunk.size.z <= 0x7fff_ffff
            &&& chunk.blocks@.len() == chunk.size.x * chunk.size.y * chunk.size.z
        },
        sound <==> vol.wf(),
{
}

/// One file gives its words, or an error that names its path.
pub proof fn one_file_is_loaded(
    file: BannedWordsFile,
    files: Vec<BannedWordsFile>,
    named: NamedWordList,
    r: Result<Vec<String>, crate::settings::ServerError>,
)
    requires
        files@ == seq![file],
        call_ensures(parse_banned_words, (file,), named),
        call_ensures(load_banned_words, (files,), r),
    ensures
        named.path@ == file.path@,
        match file.contents {
            FileContents::Unopened(why) => {
                &&& named.list matches WordList::Unopened(kept)
                &&& kept@ == why@
                &&& r matches Err(e)
                &&& e.message() == "Couldn't open banned words file \""@ + file.path@
                    + "\". Error: "@ + why@
            },
            FileContents::Unreadable => {
                &&& named.list is Unreadable
                &&& r matches Err(e)
                &&& e.message() == "Couldn't read banned words file \""@ + file.path@ + "\""@
            },
            FileContents::Bytes(bytes) => match ron_string_list(bytes@) {
                Some(words) => {
                    &&& named.list matches WordList::Words(list)
                    &&& texts(list@) == words
                    &&& r matches Ok(all)
                    &&& texts(all@) == words
                },
                None => {
                    &&& named.list is Unreadable
                    &&& r matches Err(e)
                    &&& e.message() == "Couldn't read banned words file \""@ + file.path@ + "\""@
                },
            },
        },
{
    crate::banned_words::files_are_parsed_one_by_one(files@, 0);
    let parsed = crate::banned_words::parsed_files(files@);
    assert(parsed =~= seq![parsed[0]]);
    let words = match parsed[0].1 {
        crate::banned_words::WordListView::Words(words) => words,
        _ => arbitrary(),
    };
    let why = match parsed[0].1 {
        crate::banned_words::WordListView::Unopened(why) => why,
        _ => arbitrary(),
    };
    crate::banned_words::one_list_gives_its_words_or_its_error(parsed[0].0, why, words);
}

/// Lists are collected as files are: the words of a further list come behind those of
/// the lists before it.
pub proof fn lists_are_collected(
    first: Vec<NamedWordList>,
    last: NamedWordList,
    all: Vec<NamedWordList>,
    r: Result<Vec<String>, crate::settings::ServerError>,
    s: Result<Vec<String>, crate::settings::ServerError>,
)
    requires
        all@ == first@.push(last),
        call_ensures(collect_banned_words, (first,), r),
        call_ensures(collect_banned_words, (all,), s),
    ensures
        r is Err ==> s is Err && s->Err_0.message() == r->Err_0.message(),
        r matches Ok(words) ==> match last.list {
            WordList::Words(more) => s matches Ok(both) && texts(both@) == texts(words@) + texts(
                more@,
            ),
            _ => s is Err,
        },
        first@.len() == 0 ==> (r matches Ok(words) && words@.len() == 0),
{
    let a = crate::banned_words::list_views(first@);
    let b = crate::banned_words::list_views(all@);
    assert(b.drop_last() =~= a);
    assert(b.last() == last@);
    if let Ok(words) = r {
        assert(texts(words@).len() == words@.len());
    }
}

/// A server is what it was made from, at its first tick and with an empty game; its
/// spawn point is the one that is found for its survey.
pub proof fn servers_are_made_of_their_parts<W, M, F>(
    settings: Settings<F>,
    editable_settings: EditableSettings,
    data_dir: DataDir,
    build: BuildInfo,
    hw_stats: HwStats,
    banned_words: Vec<String>,
    survey: Option<SpawnSurvey>,
    chunk_size: Vec2u,
    world: W,
    map: M,
    now: u128,
    server: Server<W, M, F>,
    point: SpawnPoint,
)
    requires
        call_ensures(
            Server::<W, M, F>::from_parts,
            (
                settings,
                editable_settings,
                data_dir,
                build,
                hw_stats,
                banned_words,
                survey,
                chunk_size,
                world,
                map,
                now,
            ),
            server,
        ),
        call_ensures(find_spawn_point, (&survey,), point),
    ensures
        server.settings == settings,
        server.editable_settings == editable_settings,
        server.data_dir == data_dir,
        server.build == build,
        server.hw_stats == hw_stats,
        server.banned_words@ == banned_words@,
        server.world == world,
        server.map == map,
        server.spawn_point == point,
        server.tick.0 == 0,
        server.tick_start.0 == now,
        server.state.entities@.len() == 0,
        server.state.terrain.loaded@.len() == 0,
        server.state.terrain.chunk_size == chunk_size,
{
    crate::spawn::spawn_point_is_unique(survey, server.spawn_point, point);
}

/// A server starts with the words that its files ban, or not at all, with the error
/// that they stop with; its spawn point is the one that is found for its survey.
pub proof fn servers_start_with_their_words<W, M, F>(
    settings: Settings<F>,
    editable_settings: EditableSettings,
    data_dir: DataDir,
    build: BuildInfo,
    files: Vec<BannedWordsFile>,
    survey: Option<SpawnSurvey>,
    chunk_size: Vec2u,
    world: W,
    map: M,
    now: u128,
    r: Result<Server<W, M, F>, crate::settings::ServerError>,
    words: Result<Vec<String>, crate::settings::ServerError>,
    point: SpawnPoint,
)
    requires
        call_ensures(
            Server::<W, M, F>::new,
            (
                settings,
                editable_settings,
                data_dir,
                build,
                files,
                survey,
                chunk_size,
                world,
                map,
                now,
            ),
            r,
        ),
        call_ensures(load_banned_words, (files,), words),
        call_ensures(find_spawn_point, (&survey,), point),
    ensures
        r is Ok <==> words is Ok,
        r matches Err(e) ==> e.message() == words->Err_0.message(),
        r matches Ok(server) ==> {
            &&& texts(server.banned_words@) == texts(words->Ok_0@)
            &&& server.settings == settings
            &&& server.editable_settings == editable_settings
            &&& server.data_dir == data_dir
            &&& server.build == build
            &&& server.world == world
            &&& server.map == map
            &&& server.spawn_point == point
            &&& server.tick.0 == 0
            &&& server.tick_start.0 == now
            &&& server.state.entities@.len() == 0
            &&& server.state.terrain.chunk_size == chunk_size
        },
{
    if let Ok(server) = r {
        crate::spawn::spawn_point_is_unique(survey, server.spawn_point, point);
    }
}

/// A state that looks at the game anew knows what lives in the entity store and which
/// chunks are loaded, and nothing of what it knew before but the sides of a chunk. The
/// store is left as it was.
pub proof fn states_are_refreshed(
    state: &mut State,
    ecs: &mut specs::World,
    loaded: Vec<Vec2i>,
)
    requires
        call_ensures(State::refresh, (state, ecs, loaded), ()),
    ensures
        final(state).wf(),
        final(state).entities@ == crate::ecs::ecs_records(*old(ecs)),
        final(state).terrain.loaded@ == loaded@,
        final(state).terrain.chunk_size == old(state).terrain.chunk_size,
        crate::ecs::ecs_records(*final(ecs)) == crate::ecs::ecs_records(*old(ecs)),
{
}

/// A client that is added lives from then on, as someone who is connected and has
/// nothing but an identifier; everyone else lives on as they were, and the terrain
/// stays.
pub proof fn clients_join_the_state(
    state: &mut State,
    entity: Entity,
    uid: Option<u64>,
    other: EntityRecord,
)
    requires
        old(state).wf(),
        crate::state::index_is_free(old(state).entities@, entity.index),
        call_ensures(State::add_client, (state, entity, uid), ()),
    ensures
        final(state).wf(),
        final(state).terrain == old(state).terrain,
        final(state).entities@.len() == old(state).entities@.len() + 1,
        final(state).entities@.contains(
            EntityRecord {
                entity,
                client: true,
                pos: None,
                player: false,
                home_chunk: None,
                rtsim: None,
                admin: false,
                uid,
            },
        ),
        other.entity != entity ==> (final(state).entities@.contains(other) <==> old(
            state).entities@.contains(other)),
{
    let before = old(state).entities@;
    if before.len() > 0 {
        crate::state::places_go_by_index(before, entity.index, 0);
    }
    let record = crate::state::client_record(entity, uid);
    records_are_found_by_entity(*final(state), entity, record);
    records_are_found_by_entity(*final(state), other.entity, other);
    records_are_found_by_entity(*old(state), other.entity, other);
}

/// What is reported of a tick is the time between two readings of the clock, under
/// the name of the work between them: no more than 64 bits of it, and none where the
/// clock went back. `i` and `j` are two readings, `k` the place in the report.
pub proof fn timings_are_reported<G>(
    run: TickRun<G>,
    timings: Vec<Timing>,
    k: int,
    i: int,
    j: int,
    label: &str,
)
    requires
        call_ensures(TickRun::<G>::timings, (&run,), timings),
        ({
            ||| k == 0 && i == 0 && j == 1 && label@ == "new connections"@
            ||| k == 1 && i == 3 && j == 4 && label@ == "handle server events"@
            ||| k == 2 && i == 4 && j == 5 && label@ == "update terrain and region map"@
            ||| k == 3 && i == 2 && j == 3 && label@ == "state"@
            ||| k == 4 && i == 6 && j == 7 && label@ == "world tick"@
            ||| k == 5 && i == 7 && j == 8 && label@ == "entity cleanup"@
            ||| k == 6 && i == 8 && j == 9 && label@ == "persistence_updates"@
        }),
    ensures
        timings@.len() == 7,
        timings@[k].label@ == label@,
        run.stamps@[j] < run.stamps@[i] ==> timings@[k].nanos == 0,
        run.stamps@[j] >= run.stamps@[i] ==> (timings@[k].nanos as u64) as int == (run.stamps@[j]
            - run.stamps@[i]) % 0x1_0000_0000_0000_0000,
{
    let views = crate::tick::timing_views(timings@);
    assert(views.len() == timings@.len());
    assert(views[k] == timings@[k]@);
    crate::tick::elapsed_keeps_its_lower_bits(run.stamps@, i, j);
}

/// A tick that is finished hands out the events that it gathered.
pub proof fn ticks_hand_out_their_events<G>(run: TickRun<G>, events: Vec<Event<G>>)
    requires
        call_ensures(TickRun::<G>::finish, (run,), events),
    ensures
        events@ == run.frontend_events@,
{
}

/// Settlements are held to be measurable just where the distance of each of them from
/// the middle of the world is.
pub proof fn settlements_are_tested(
    map_size: MapSize,
    sites: Vec<Site>,
    r: bool,
    j: int,
    one: bool,
)
    requires
        call_ensures(can_measure_sites, (map_size, &sites), r),
        0 <= j < sites@.len() ==> call_ensures(
            can_measure,
            (
                sites@[j].center,
                Vec2i { x: (map_size.x / 2) as i32, y: (map_size.y / 2) as i32 },
            ),
            one,
        ),
    ensures
        r && 0 <= j < sites@.len() && sites@[j].kind is Settlement ==> one,
        !r ==> exists|i: int|
            0 <= i < sites@.len() && (#[trigger] sites@[i]).kind is Settlement
                && !crate::geometry::distance_fits(
                sites@[i].center,
                Vec2i { x: (map_size.x / 2) as i32, y: (map_size.y / 2) as i32 },
            ),
{
}

/// A server hands out what it holds.
pub proof fn servers_hand_out_what_they_hold<'a, W, M, F>(
    server: &'a Server<W, M, F>,
    settings: &'a Settings<F>,
    editable: &'a EditableSettings,
    dir: &'a DataDir,
    state: &'a State,
    world: &'a W,
    map: &'a M,
)
    requires
        call_ensures(Server::<W, M, F>::settings, (server,), settings),
        call_ensures(Server::<W, M, F>::editable_settings, (server,), editable),
        call_ensures(Server::<W, M, F>::data_dir, (server,), dir),
        call_ensures(Server::<W, M, F>::state, (server,), state),
        call_ensures(Server::<W, M, F>::world, (server,), world),
        call_ensures(Server::<W, M, F>::map, (server,), map),
    ensures
        *settings == server.settings,
        *editable == server.editable_settings,
        *dir == server.data_dir,
        *state == server.state,
        *world == server.world,
        *map == server.map,
{
}

} // verus!
