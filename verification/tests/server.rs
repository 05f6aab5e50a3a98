use std::collections::HashSet;
use veloren_server::admin::AdminChange;
use veloren_server::banned_words::{BannedWordsFile, FileContents};
use veloren_server::chat::{ChatAction, PluginOutcome, PluginReply};
use veloren_server::chunks::{ChunkJob, ReloadStep};
use veloren_server::connections::{ClientAction, ClientEvent, Greeting};
use veloren_server::ecs::{new_ecs, Admin, BlockPos, Client};
use veloren_server::geometry::{Vec2i, Vec2u, Vec3i};
use veloren_server::messages::{
    ChatType, DisconnectReason, Effect, Event, ServerGeneral, SyncData,
};
use veloren_server::persistence::{CharacterLoaderResponse, CharacterLoaderResponseKind};
use veloren_server::server::ShutdownStep;
use veloren_server::settings::{BuildInfo, DataDir, TimeSpan, WorldFile};
use veloren_server::spawn::{Column, MapSize, Site, SiteKind, SpawnPoint, SpawnSurvey};
use veloren_server::state::{CleanupStep, Entity};
use veloren_server::tick::TickWork;
use veloren_server::{EditableSettings, HwStats, Server, ServerError, Settings, Tick, TickStart};
use specs::{Builder, WorldExt};

fn settings(max_players: usize) -> Settings<&'static str> {
    Settings {
        server_name: "Veloren".to_string(),
        auth_server_address: Some("https://auth.example".to_string()),
        max_players,
        max_player_group_size: 6,
        client_timeout: TimeSpan { secs: 40, nanos: 5 },
        banned_words_files: vec![],
        world_seed: 59686,
        map_file: None,
    }
}

fn start(max_players: usize, files: Vec<BannedWordsFile>) -> Result<Server<&'static str, u8, &'static str>, ServerError> {
    Server::new(
        settings(max_players),
        EditableSettings { server_description: "the best".to_string(), admins: HashSet::new() },
        DataDir { path: "/srv/veloren".to_string() },
        BuildInfo { plugins: true, git_hash: "abc123".to_string(), git_date: "2021-02-21".to_string() },
        files,
        None,
        Vec2u { x: 32, y: 32 },
        "world",
        17,
        1000,
    )
}

fn server(max_players: usize) -> Server<&'static str, u8, &'static str> {
    start(max_players, vec![]).unwrap()
}

fn entity(index: u32) -> Entity {
    Entity { index, generation: 1 }
}

/// Lets someone in, or turns them away; the entity that was created if one was.
fn arrive(server: &mut Server<&'static str, u8, &'static str>, index: u32) -> Option<Entity> {
    match server.initialize_client(ClientEvent::Arrived) {
        ClientAction::CreateEntity => {
            let action = server.initialize_client(ClientEvent::Created(entity(index), Some(index as u64)));
            assert_eq!(action, ClientAction::Greet(Greeting::GameSync(entity(index))));
            Some(entity(index))
        },
        ClientAction::Greet(greeting) => {
            assert_eq!(greeting, Greeting::TooManyPlayers);
            None
        },
    }
}

fn lines(effects: Vec<Effect<u8, u8>>) -> Vec<(u32, ChatType, String)> {
    effects
        .into_iter()
        .map(|e| match e {
            Effect::Send(to, ServerGeneral::ServerMsg(kind, text)) => (to.index, kind, text),
            _ => panic!("only lines of chat are sent"),
        })
        .collect()
}

#[test]
fn a_server_starts_with_an_empty_game() {
    let words = BannedWordsFile {
        path: "words.ron".to_string(),
        contents: FileContents::Bytes(b"[\"rude\"]".to_vec()),
    };
    let server = start(5, vec![words]).unwrap();
    assert_eq!(server.banned_words, vec!["rude"]);
    assert_eq!(server.tick, Tick(0));
    assert_eq!(server.tick_start, TickStart(1000));
    assert_eq!(server.spawn_point, SpawnPoint { block: Vec3i { x: 0, y: 0, z: 256 }, centred: false });
    assert!(server.hw_stats.hardware_threads >= 1);
    assert_eq!(server.number_of_players(), 0);
    assert_eq!(server.state().entities, vec![]);
    assert_eq!(server.state().terrain.loaded, vec![]);
    assert_eq!(server.data_dir().path, "/srv/veloren");
    assert_eq!(*server.world(), "world");
    assert_eq!(*server.map(), 17);
}

#[test]
fn a_server_does_not_start_without_its_banned_words() {
    let words = BannedWordsFile { path: "words.ron".to_string(), contents: FileContents::Unreadable };
    match start(5, vec![words]) {
        Err(ServerError::Other(text)) => assert_eq!(text, "Couldn't read banned words file \"words.ron\""),
        Ok(_) => panic!("the words could not be read"),
    }
}

#[test]
fn a_server_tells_about_itself() {
    let info = server(5).get_server_info();
    assert_eq!(info.name, "Veloren");
    assert_eq!(info.description, "the best");
    assert_eq!(info.git_hash, "abc123");
    assert_eq!(info.git_date, "2021-02-21");
    assert_eq!(info.auth_provider, Some("https://auth.example".to_string()));
    let mut server = server(5);
    server.settings_mut().auth_server_address = None;
    server.editable_settings_mut().server_description = "changed".to_string();
    let info = server.get_server_info();
    assert_eq!(info.auth_provider, None);
    assert_eq!(info.description, "changed");
}

#[test]
fn what_is_written_to_the_settings_is_read_back() {
    let mut server = server(5);
    server.settings_mut().max_players = 9;
    assert_eq!(server.settings().max_players, 9);
    server.editable_settings_mut().admins.insert(3);
    assert!(server.editable_settings().admins.contains(&3));
    server.state_mut().terrain.loaded.push(Vec2i { x: 1, y: 2 });
    assert_eq!(server.state().terrain.loaded, vec![Vec2i { x: 1, y: 2 }]);
}

#[test]
fn a_queue_fills_the_server_and_no_more() {
    let mut server = server(2);
    assert_eq!(arrive(&mut server, 10), Some(entity(10)));
    assert_eq!(arrive(&mut server, 4), Some(entity(4)));
    assert_eq!(arrive(&mut server, 11), None);
    assert_eq!(server.number_of_players(), 2);
    assert_eq!(server.state().get(entity(4)).unwrap().uid, Some(4));
}

#[test]
fn a_server_for_nobody_lets_nobody_in() {
    let mut server = server(0);
    assert_eq!(arrive(&mut server, 1), None);
    assert_eq!(server.number_of_players(), 0);
}

#[test]
fn clients_in_the_entity_store_take_up_room() {
    let mut server = server(1);
    let mut ecs = new_ecs();
    ecs.create_entity().with(Client).build();
    server.state_mut().refresh(&mut ecs, vec![]);
    assert_eq!(server.number_of_players(), 1);
    assert_eq!(arrive(&mut server, 5), None);
}

#[test]
fn only_clients_that_could_be_told_are_announced() {
    let server = server(5);
    let results = vec![
        Greeting::GameSync(entity(1)).conclude(Ok::<(), &str>(())),
        Greeting::TooManyPlayers.conclude(Ok(())),
        Greeting::GameSync(entity(2)).conclude(Err("stream closed")),
        Greeting::TooManyPlayers.conclude(Err("stream closed")),
        Greeting::GameSync(entity(3)).conclude(Ok(())),
    ];
    assert_eq!(results[1], Ok(None));
    assert_eq!(results[2], Err("stream closed"));
    let mut events: Vec<Event<u8>> = vec![Event::Game(7)];
    server.handle_new_connections(results, &mut events);
    let shown: Vec<u32> = events
        .into_iter()
        .map(|e| match e {
            Event::ClientConnected { entity } => entity.index,
            Event::Game(g) => 100 + g as u32,
        })
        .collect();
    assert_eq!(shown, vec![107, 1, 3]);
}

#[test]
fn a_client_that_is_let_in_is_told_the_rules() {
    let server = server(5);
    let data = SyncData {
        entity_package: "package",
        recipe_book: "recipes",
        material_stats: 4,
        ability_map: 'a',
    };
    let sync = server.game_sync(entity(8), data);
    assert_eq!(sync.entity, entity(8));
    assert_eq!(sync.max_group_size, 6);
    assert_eq!(sync.client_timeout, TimeSpan { secs: 40, nanos: 5 });
    assert_eq!(*sync.world_map, 17);
    assert_eq!(sync.data.entity_package, "package");
    assert_eq!(sync.data.recipe_book, "recipes");
    assert_eq!(sync.data.material_stats, 4);
    assert_eq!(sync.data.ability_map, 'a');
}

#[test]
fn messages_go_to_clients_only() {
    let mut server = server(5);
    arrive(&mut server, 3);
    assert_eq!(server.notify_client(entity(3), "hello"), Some((entity(3), "hello")));
    assert_eq!(server.notify_client(entity(4), "hello"), None);
    let sent = server.notify_client(entity(3), ServerGeneral::<u8>::CharacterCreated(1));
    assert!(matches!(sent, Some((to, ServerGeneral::CharacterCreated(1))) if to == entity(3)));
}

#[test]
fn commands_are_parsed_and_answered() {
    let mut server = server(5);
    arrive(&mut server, 3);
    let call = server.process_chat_cmd("dance very fast");
    assert_eq!(call.keyword, "dance");
    let event = server.chat_command_event(entity(3), &call);
    assert_eq!(event.command, "dance");
    assert_eq!(event.command_args, vec!["very", "fast"]);
    assert_eq!(event.player, 3);
    let replies = || {
        PluginOutcome::Replies(vec![
            PluginReply::Lines(vec!["you".to_string(), "dance".to_string()]),
            PluginReply::Error("tripped".to_string()),
        ])
    };
    assert_eq!(
        lines(server.answer_chat_cmd(entity(3), &call.keyword, replies())),
        vec![
            (3, ChatType::CommandInfo, "you\ndance".to_string()),
            (
                3,
                ChatType::CommandError,
                "Error occurred while executing command '/dance'.\ntripped".to_string()
            ),
        ]
    );
    assert_eq!(lines(server.answer_chat_cmd(entity(9), &call.keyword, replies())), vec![]);
}

#[test]
fn known_commands_are_executed_and_others_left_to_plugins() {
    let mut server = server(5);
    arrive(&mut server, 3);
    let call = server.process_chat_cmd("give sword 3");
    match server.dispatch_chat_cmd(entity(3), call, Some("the give command")) {
        ChatAction::Execute(command, args) => {
            assert_eq!(command, "the give command");
            assert_eq!(args, "sword 3");
        },
        _ => panic!("the command is known"),
    }
    let call = server.process_chat_cmd("dance very fast");
    match server.dispatch_chat_cmd::<&str>(entity(3), call, None) {
        ChatAction::AskPlugins(event) => {
            assert_eq!(event.command, "dance");
            assert_eq!(event.command_args, vec!["very", "fast"]);
            assert_eq!(event.player, 3);
        },
        _ => panic!("the command is left to plugins"),
    }
}

#[test]
fn without_plugins_nothing_is_done_about_unknown_commands() {
    let mut server = server(5);
    server.build.plugins = false;
    for who in [entity(3), entity(77)] {
        let call = server.process_chat_cmd("dance very fast");
        assert!(matches!(server.dispatch_chat_cmd::<&str>(who, call, None), ChatAction::Ignore));
    }
    let call = server.process_chat_cmd("give sword 3");
    match server.dispatch_chat_cmd(entity(77), call, Some("the give command")) {
        ChatAction::Execute(_, args) => assert_eq!(args, "sword 3"),
        _ => panic!("the command is known"),
    }
}

#[test]
fn the_world_is_made_from_the_map_that_the_settings_name() {
    let mut server = server(5);
    let options = server.settings().world_options();
    assert_eq!(options.seed, 59686);
    assert!(options.seed_elements);
    assert!(matches!(options.world_file, WorldFile::Default));
    server.settings_mut().map_file = Some("maps/islands");
    let options = server.settings().world_options();
    assert!(matches!(options.world_file, WorldFile::Given(file) if *file == "maps/islands"));
}

#[test]
fn a_queue_is_announced_as_far_as_there_is_room() {
    let mut server = server(2);
    let mut results: Vec<Result<Option<Entity>, &str>> = vec![];
    for index in [5, 1, 9, 4] {
        let greeting = match arrive(&mut server, index) {
            Some(created) => Greeting::GameSync(created),
            None => Greeting::TooManyPlayers,
        };
        results.push(greeting.conclude(Ok(())));
    }
    let mut events: Vec<Event<u8>> = vec![];
    server.handle_new_connections(results, &mut events);
    assert_eq!(events.len(), 2);
    assert!(matches!(events[0], Event::ClientConnected { entity: e } if e == entity(5)));
    assert!(matches!(events[1], Event::ClientConnected { entity: e } if e == entity(1)));
}

#[test]
fn a_server_can_be_made_from_its_parts() {
    let server: Server<&str, u8, &str> = Server::from_parts(
        settings(3),
        EditableSettings { server_description: "the best".to_string(), admins: HashSet::new() },
        DataDir { path: "/srv/veloren".to_string() },
        BuildInfo { plugins: false, git_hash: "abc".to_string(), git_date: "2021".to_string() },
        HwStats { hardware_threads: 12, rayon_threads: 6 },
        vec!["rude".to_string()],
        Some(SpawnSurvey {
            map_size: MapSize { x: 20, y: 20 },
            sites: vec![Site { kind: SiteKind::Settlement, center: Vec2i { x: 9, y: -3 } }],
            rect_size: Vec2u { x: 32, y: 32 },
            min_z: 0,
            max_z: 1,
            column: Column { bottom: 0, blocks: vec![] },
        }),
        Vec2u { x: 32, y: 32 },
        "world",
        17,
        1000,
    );
    assert_eq!(server.banned_words, vec!["rude"]);
    assert_eq!(server.tick, Tick(0));
    assert_eq!(server.settings().max_players, 3);
    assert_eq!(server.hw_stats, HwStats { hardware_threads: 12, rayon_threads: 6 });
    assert_eq!(server.spawn_point.block, Vec3i { x: 304, y: -80, z: 0 });
    assert_eq!(server.state().terrain.pos_key(server.spawn_point.block), Vec2i { x: 9, y: -3 });
}

#[test]
fn administrators_are_known_by_their_component() {
    let mut server = server(5);
    let mut ecs = new_ecs();
    let admin = ecs.create_entity().with(Admin).build();
    let other = ecs.create_entity().build();
    server.state_mut().refresh(&mut ecs, vec![]);
    assert!(server.entity_is_admin(Entity { index: admin.id(), generation: admin.gen().id() }));
    assert!(!server.entity_is_admin(Entity { index: other.id(), generation: other.gen().id() }));
    assert!(!server.entity_is_admin(entity(77)));
}

#[test]
fn administrators_are_added_and_removed() {
    let mut server = server(5);
    assert_eq!(server.add_admin::<()>(Ok(1)), AdminChange::Added);
    assert_eq!(server.add_admin::<()>(Ok(1)), AdminChange::AlreadyAdmin);
    assert_eq!(server.remove_admin::<()>(Ok(2)), AdminChange::NotAdmin);
    assert_eq!(server.remove_admin::<()>(Ok(1)), AdminChange::Removed);
    assert_eq!(server.add_admin(Err("unknown")), AdminChange::UnknownUser);
    assert_eq!(server.remove_admin(Err("unknown")), AdminChange::UnknownUser);
    assert!(server.editable_settings().admins.is_empty());
}

#[test]
fn ticks_are_counted_and_stamped() {
    let mut server = server(5);
    let run = server.tick::<u8>(TimeSpan { secs: 1, nanos: 0 }, 2000, 2001);
    assert_eq!(run.work, TickWork::HandleNewConnections);
    assert_eq!(run.stamps, vec![2001]);
    assert_eq!(run.dt, TimeSpan { secs: 1, nanos: 0 });
    assert_eq!(server.tick, Tick(1));
    assert_eq!(server.tick_start, TickStart(2000));
    server.tick::<u8>(TimeSpan { secs: 1, nanos: 0 }, 3000, 3001);
    assert_eq!(server.tick, Tick(2));
}

#[test]
fn chunks_are_generated_on_request() {
    let key = Vec2i { x: 4, y: -4 };
    let job = server(5).generate_chunk(entity(2), key);
    assert_eq!(job, ChunkJob { requester: Some(entity(2)), key });
}

#[test]
fn strays_and_reloads_go_by_the_state_of_the_game() {
    let mut server = server(5);
    let mut ecs = new_ecs();
    let stray = ecs.create_entity().with(BlockPos(Vec3i { x: 0, y: 0, z: 0 })).build();
    server.state_mut().refresh(&mut ecs, vec![]);
    assert_eq!(
        server.clean_up_entities(),
        vec![CleanupStep::Delete(Entity { index: stray.id(), generation: stray.gen().id() })]
    );
    assert_eq!(server.reload_colors(), vec![ReloadStep::CancelAll, ReloadStep::ClearTerrain]);
}

#[test]
fn the_database_is_answered_for() {
    let mut server = server(5);
    arrive(&mut server, 3);
    let responses: Vec<CharacterLoaderResponse<u8, u8>> = vec![CharacterLoaderResponse {
        entity: entity(3),
        result: CharacterLoaderResponseKind::CharacterList(Ok(9)),
    }];
    let effects = server.update_persistence(responses);
    assert_eq!(effects.len(), 1);
    assert!(matches!(effects[0], Effect::Send(_, ServerGeneral::CharacterListUpdate(9))));
}

#[test]
fn a_server_that_goes_down_says_so() {
    let steps: Vec<ShutdownStep<u8>> = server(5).shutdown_steps();
    assert_eq!(steps.len(), 2);
    assert!(matches!(steps[0], ShutdownStep::StopMetrics));
    assert!(matches!(
        steps[1],
        ShutdownStep::NotifyPlayers(ServerGeneral::Disconnect(DisconnectReason::Shutdown))
    ));
}
