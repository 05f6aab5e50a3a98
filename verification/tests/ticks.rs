use veloren_server::messages::Event;
use veloren_server::settings::TimeSpan;
use veloren_server::state::Entity;
use veloren_server::tick::{following, MessageSystem, TickRun, TickWork};
use veloren_server::Tick;

const DT: TimeSpan = TimeSpan { secs: 0, nanos: 33_000_000 };

const ORDER: [TickWork; 20] = [
    TickWork::HandleNewConnections,
    TickWork::RunMessageSystem(MessageSystem::General),
    TickWork::RunMessageSystem(MessageSystem::Register),
    TickWork::RunMessageSystem(MessageSystem::CharacterScreen),
    TickWork::RunMessageSystem(MessageSystem::InGame),
    TickWork::RunMessageSystem(MessageSystem::Terrain),
    TickWork::RunMessageSystem(MessageSystem::Ping),
    TickWork::RunMessageSystem(MessageSystem::Agent),
    TickWork::TickState { dt: DT, updates_terrain: false },
    TickWork::HandleEvents,
    TickWork::UpdateRegionMap,
    TickWork::ApplyTerrainChanges,
    TickWork::RunSyncSystems,
    TickWork::TickWorld(DT),
    TickWork::CleanUpEntities,
    TickWork::UpdatePersistence,
    TickWork::ReloadColors,
    TickWork::RunMetricsSystem,
    TickWork::ReportTimings,
    TickWork::Finished,
];

fn game_events(run: TickRun<u8>) -> Vec<u8> {
    run.finish()
        .into_iter()
        .map(|e| match e {
            Event::Game(g) => g,
            Event::ClientConnected { .. } => 255,
        })
        .collect()
}

#[test]
fn a_tick_goes_through_its_work_in_order() {
    let mut run: TickRun<u8> = TickRun::begin(DT, 0);
    for work in ORDER {
        assert_eq!(run.work, work);
        run.advance(0, vec![]);
    }
    assert_eq!(run.work, TickWork::Finished);
    assert_eq!(following(TickWork::Finished, DT), TickWork::Finished);
    assert_eq!(
        following(TickWork::RunMessageSystem(MessageSystem::Agent), DT),
        TickWork::TickState { dt: DT, updates_terrain: false }
    );
}

#[test]
fn only_connections_and_the_game_bring_events() {
    let mut run: TickRun<u8> = TickRun::begin(DT, 0);
    let mut n = 0;
    while run.work != TickWork::Finished {
        run.advance(0, vec![Event::Game(n)]);
        n += 1;
    }
    assert_eq!(game_events(run), vec![0, 9]);
}

#[test]
fn connections_come_before_the_game() {
    let entity = Entity { index: 4, generation: 1 };
    let mut run: TickRun<u8> = TickRun::begin(DT, 0);
    while run.work != TickWork::Finished {
        let events = match run.work {
            TickWork::HandleNewConnections => vec![Event::ClientConnected { entity }],
            TickWork::HandleEvents => vec![Event::Game(1), Event::Game(2)],
            _ => vec![],
        };
        run.advance(0, events);
    }
    assert_eq!(game_events(run), vec![255, 1, 2]);
}

#[test]
fn the_parts_of_a_tick_are_timed() {
    // The clock moves on by 10^n during the nth part of the work.
    let mut now: u128 = 5;
    let mut step: u128 = 1;
    let mut run: TickRun<u8> = TickRun::begin(DT, now);
    while run.work != TickWork::ReportTimings {
        now += step;
        step *= 10;
        run.advance(now, vec![]);
    }
    let timings: Vec<(&str, i64)> = run.timings().into_iter().map(|t| (t.label, t.nanos)).collect();
    assert_eq!(
        timings,
        vec![
            ("new connections", 1),
            ("handle server events", 1_000_000_000),
            ("update terrain and region map", 110_000_000_000),
            ("state", 100_000_000),
            ("world tick", 10_000_000_000_000),
            ("entity cleanup", 100_000_000_000_000),
            ("persistence_updates", 11_000_000_000_000_000),
        ]
    );
}

#[test]
fn a_clock_that_goes_back_shows_no_time() {
    let mut run: TickRun<u8> = TickRun::begin(DT, 100);
    while run.work != TickWork::ReportTimings {
        run.advance(7, vec![]);
    }
    assert!(run.timings().iter().all(|t| t.nanos == 0));
}

#[test]
fn ticks_are_counted_from_zero() {
    assert_eq!(Tick::default(), Tick(0));
}

#[test]
fn the_game_is_moved_on_by_the_length_of_the_tick() {
    let dt = TimeSpan { secs: 2, nanos: 7 };
    let mut run: TickRun<u8> = TickRun::begin(dt, 0);
    let mut seen = vec![];
    while run.work != TickWork::Finished {
        match run.work {
            TickWork::TickState { dt, updates_terrain } => seen.push(("state", dt, updates_terrain)),
            TickWork::TickWorld(dt) => seen.push(("world", dt, false)),
            _ => {},
        }
        run.advance(0, vec![]);
    }
    assert_eq!(seen, vec![("state", dt, false), ("world", dt, false)]);
}
