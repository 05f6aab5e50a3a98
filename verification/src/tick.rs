//! One round of the server: what is done in it, in which order, and how long the
//! parts of it took.

use crate::messages::Event;
use crate::settings::TimeSpan;
use vstd::prelude::*;

verus! {

/// How many ticks there have been. Updates to clients are throttled by it, so
/// their rate goes with the rate of ticks.
#[derive(Clone, Copy, Debug, PartialEq, Eq, Structural)]
pub struct Tick(pub u64);

impl Default for Tick {
    fn default() -> (t: Tick)
        ensures
            t == Tick(0),
    {
        Tick(0)
    }
}

/// When the tick began, in nanoseconds on the clock of the machine.
#[derive(Clone, Copy, Debug, PartialEq, Eq, Structural)]
pub struct TickStart(pub u128);

/// The systems that read what clients have sent, and the one that lets
/// creatures decide.
#[derive(Clone, Copy, Debug, PartialEq, Eq, Structural)]
pub enum MessageSystem {
    General,
    Register,
    CharacterScreen,
    InGame,
    Terrain,
    Ping,
    Agent,
}

/// A part of the work of a tick.
#[derive(Clone, Copy, Debug, PartialEq, Eq, Structural)]
pub enum TickWork {
    /// Answer those who ask about the server, and let clients in.
    HandleNewConnections,
    RunMessageSystem(MessageSystem),
    /// Move the game state on by a length of time. The terrain and the region map
    /// need not be brought up to date with it where that has a turn of its own.
    TickState { dt: TimeSpan, updates_terrain: bool },
    HandleEvents,
    UpdateRegionMap,
    ApplyTerrainChanges,
    /// Send the clients what has changed.
    RunSyncSystems,
    /// Move the world on by a length of time.
    TickWorld(TimeSpan),
    /// Delete the entities that have strayed beyond the loaded terrain.
    CleanUpEntities,
    /// Deal with what the database has found.
    UpdatePersistence,
    /// Make the terrain anew if its colours have changed.
    ReloadColors,
    RunMetricsSystem,
    ReportTimings,
    Finished,
}

/// The work of a tick of length `dt` in its order.
pub open spec fn schedule(dt: TimeSpan) -> Seq<TickWork> {
    seq![
        TickWork::HandleNewConnections,
        TickWork::RunMessageSystem(MessageSystem::General),
        TickWork::RunMessageSystem(MessageSystem::Register),
        TickWork::RunMessageSystem(MessageSystem::CharacterScreen),
        TickWork::RunMessageSystem(MessageSystem::InGame),
        TickWork::RunMessageSystem(MessageSystem::Terrain),
        TickWork::RunMessageSystem(MessageSystem::Ping),
        TickWork::RunMessageSystem(MessageSystem::Agent),
        TickWork::TickState { dt, updates_terrain: false },
        TickWork::HandleEvents,
        TickWork::UpdateRegionMap,
        TickWork::ApplyTerrainChanges,
        TickWork::RunSyncSystems,
        TickWork::TickWorld(dt),
        TickWork::CleanUpEntities,
        TickWork::UpdatePersistence,
        TickWork::ReloadColors,
        TickWork::RunMetricsSystem,
        TickWork::ReportTimings,
        TickWork::Finished,
    ]
}

/// The place of a part of the work in the order.
pub open spec fn rank(work: TickWork) -> int {
    match work {
        TickWork::HandleNewConnections => 0,
        TickWork::RunMessageSystem(MessageSystem::General) => 1,
        TickWork::RunMessageSystem(MessageSystem::Register) => 2,
        TickWork::RunMessageSystem(MessageSystem::CharacterScreen) => 3,
        TickWork::RunMessageSystem(MessageSystem::InGame) => 4,
        TickWork::RunMessageSystem(MessageSystem::Terrain) => 5,
        TickWork::RunMessageSystem(MessageSystem::Ping) => 6,
        TickWork::RunMessageSystem(MessageSystem::Agent) => 7,
        TickWork::TickState { .. } => 8,
        TickWork::HandleEvents => 9,
        TickWork::UpdateRegionMap => 10,
        TickWork::ApplyTerrainChanges => 11,
        TickWork::RunSyncSystems => 12,
        TickWork::TickWorld(_) => 13,
        TickWork::CleanUpEntities => 14,
        TickWork::UpdatePersistence => 15,
        TickWork::ReloadColors => 16,
        TickWork::RunMetricsSystem => 17,
        TickWork::ReportTimings => 18,
        TickWork::Finished => 19,
    }
}

/// `work` belongs to a tick of length `dt`.
pub open spec fn belongs(work: TickWork, dt: TimeSpan) -> bool {
    match work {
        TickWork::TickState { dt: span, updates_terrain } => span == dt && !updates_terrain,
        TickWork::TickWorld(span) => span == dt,
        _ => true,
    }
}

/// What comes after `work` in a tick of length `dt`. After the last part nothing
/// does.
pub open spec fn next_work(work: TickWork, dt: TimeSpan) -> TickWork {
    if work is Finished {
        TickWork::Finished
    } else {
        schedule(dt)[rank(work) + 1]
    }
}

/// The clock is read just before this part of the work.
pub open spec fn is_timed(work: TickWork) -> bool {
    match work {
        TickWork::HandleNewConnections => true,
        TickWork::RunMessageSystem(MessageSystem::General) => true,
        TickWork::TickState { .. } => true,
        TickWork::HandleEvents => true,
        TickWork::UpdateRegionMap => true,
        TickWork::RunSyncSystems => true,
        TickWork::TickWorld(_) => true,
        TickWork::CleanUpEntities => true,
        TickWork::UpdatePersistence => true,
        TickWork::RunMetricsSystem => true,
        _ => false,
    }
}

/// How often the clock has been read when `work` is due.
pub open spec fn readings(work: TickWork) -> int {
    let r = rank(work);
    if r < 1 {
        1
    } else if r < 8 {
        2
    } else if r < 9 {
        3
    } else if r < 10 {
        4
    } else if r < 12 {
        5
    } else if r < 13 {
        6
    } else if r < 14 {
        7
    } else if r < 15 {
        8
    } else if r < 17 {
        9
    } else {
        10
    }
}

/// This part of the work brings forth events for whoever runs the server.
pub open spec fn brings_events(work: TickWork) -> bool {
    work is HandleNewConnections || work is HandleEvents
}

/// How far a tick has come: its length, the work that is due, the readings of the clock, and
/// the events so far.
#[derive(Debug)]
pub struct TickRun<G> {
    pub dt: TimeSpan,
    pub work: TickWork,
    pub stamps: Vec<u128>,
    pub frontend_events: Vec<Event<G>>,
}

/// [`TickRun`], by what it holds.
pub struct RunView<G> {
    pub dt: TimeSpan,
    pub work: TickWork,
    pub stamps: Seq<u128>,
    pub events: Seq<Event<G>>,
}

impl<G> View for TickRun<G> {
    type V = RunView<G>;

    open spec fn view(&self) -> RunView<G> {
        RunView {
            dt: self.dt,
            work: self.work,
            stamps: self.stamps@,
            events: self.frontend_events@,
        }
    }
}

/// What comes back from a part of the work: the time at which it was done, and the
/// events that it brought forth.
pub struct WorkDone<G> {
    pub now: u128,
    pub events: Seq<Event<G>>,
}

/// A tick of length `dt` that has just begun.
pub open spec fn begun<G>(dt: TimeSpan, now: u128) -> RunView<G> {
    RunView { dt, work: TickWork::HandleNewConnections, stamps: seq![now], events: Seq::empty() }
}

/// A tick after the work that was due has been done.
pub open spec fn advanced<G>(run: RunView<G>, done: WorkDone<G>) -> RunView<G> {
    let next = next_work(run.work, run.dt);
    RunView {
        dt: run.dt,
        work: next,
        stamps: if is_timed(next) {
            run.stamps.push(done.now)
        } else {
            run.stamps
        },
        events: if brings_events(run.work) {
            run.events + done.events
        } else {
            run.events
        },
    }
}

/// A tick after one part of the work after the other has been done.
pub open spec fn played<G>(run: RunView<G>, done: Seq<WorkDone<G>>) -> RunView<G>
    decreases done.len(),
{
    if done.len() == 0 {
        run
    } else {
        advanced(played(run, done.drop_last()), done.last())
    }
}

/// The nanoseconds from one reading of the clock to a later one, kept in 64 bits;
/// none where the clock went back.
pub open spec fn elapsed(stamps: Seq<u128>, from: int, to: int) -> i64 {
    if stamps[to] >= stamps[from] {
        ((stamps[to] - stamps[from]) as u128) as i64
    } else {
        0
    }
}

/// How long a part of a tick took.
#[derive(Debug)]
pub struct Timing {
    pub label: &'static str,
    pub nanos: i64,
}

impl View for Timing {
    type V = (Seq<char>, i64);

    open spec fn view(&self) -> (Seq<char>, i64) {
        (self.label@, self.nanos)
    }
}

/// The views of the timings.
pub open spec fn timing_views(timings: Seq<Timing>) -> Seq<(Seq<char>, i64)> {
    timings.map_values(|t: Timing| t@)
}

/// How long the parts of a tick took, by the ten readings of the clock.
pub open spec fn report(stamps: Seq<u128>) -> Seq<(Seq<char>, i64)> {
    seq![
        ("new connections"@, elapsed(stamps, 0, 1)),
        ("handle server events"@, elapsed(stamps, 3, 4)),
        ("update terrain and region map"@, elapsed(stamps, 4, 5)),
        ("state"@, elapsed(stamps, 2, 3)),
        ("world tick"@, elapsed(stamps, 6, 7)),
        ("entity cleanup"@, elapsed(stamps, 7, 8)),
        ("persistence_updates"@, elapsed(stamps, 8, 9)),
    ]
}

impl<G> TickRun<G> {
    /// The clock has been read as often as it should by now, and the work that is due
    /// belongs to a tick of this length.
    pub open spec fn wf(self) -> bool {
        &&& self.stamps@.len() == readings(self.work)
        &&& belongs(self.work, self.dt)
    }

    /// A tick of length `dt` that begins now.
    pub fn begin(dt: TimeSpan, now: u128) -> (run: TickRun<G>)
        ensures
            run.wf(),
            run@ == begun::<G>(dt, now),
    {
        let mut stamps: Vec<u128> = Vec::new();
        stamps.push(now);
        let run = TickRun {
            dt,
            work: TickWork::HandleNewConnections,
            stamps,
            frontend_events: Vec::new(),
        };
        assert(run@.stamps =~= seq![now]);
        run
    }

    /// Notes that the work that was due is done, and what it brought forth.
    pub fn advance(&mut self, now: u128, events: Vec<Event<G>>)
        requires
            old(self).wf(),
        ensures
            final(self).wf(),
            final(self)@ == advanced(old(self)@, (WorkDone { now, events: events@ })),
    {
        let work = self.work;
        match work {
            TickWork::HandleNewConnections | TickWork::HandleEvents => {
                let mut events = events;
                self.frontend_events.append(&mut events);
            },
            _ => {},
        }
        let next = following(work, self.dt);
        if timed(next) {
            self.stamps.push(now);
        }
        self.work = next;
    }

    /// How long the parts of the tick took.
    pub fn timings(&self) -> (timings: Vec<Timing>)
        requires
            self.wf(),
            rank(self.work) >= rank(TickWork::RunMetricsSystem),
        ensures
            timing_views(timings@) == report(self.stamps@),
    {
        let mut timings: Vec<Timing> = Vec::new();
        timings.push(Timing { label: "new connections", nanos: self.between(0, 1) });
        timings.push(Timing { label: "handle server events", nanos: self.between(3, 4) });
        timings.push(Timing { label: "update terrain and region map", nanos: self.between(4, 5) });
        timings.push(Timing { label: "state", nanos: self.between(2, 3) });
        timings.push(Timing { label: "world tick", nanos: self.between(6, 7) });
        timings.push(Timing { label: "entity cleanup", nanos: self.between(7, 8) });
        timings.push(Timing { label: "persistence_updates", nanos: self.between(8, 9) });
        assert(timing_views(timings@) =~= report(self.stamps@));
        timings
    }

    fn between(&self, from: usize, to: usize) -> (nanos: i64)
        requires
            from < self.stamps@.len(),
            to < self.stamps@.len(),
        ensures
            nanos == elapsed(self.stamps@, from as int, to as int),
    {
        let a: u128 = self.stamps[from];
        let b: u128 = self.stamps[to];
        if b >= a {
            #[verifier::truncate]
            ((b - a) as i64)
        } else {
            0
        }
    }

    /// The events of a tick, once all its work is done.
    pub fn finish(self) -> (events: Vec<Event<G>>)
        requires
            self.work is Finished,
        ensures
            events@ == self@.events,
    {
        self.frontend_events
    }
}

/// What comes after `work` in a tick of length `dt`. After the last part nothing
/// does.
pub fn following(work: TickWork, dt: TimeSpan) -> (next: TickWork)
    ensures
        next == next_work(work, dt),
{
    match work {
        TickWork::HandleNewConnections => TickWork::RunMessageSystem(MessageSystem::General),
        TickWork::RunMessageSystem(system) => match system {
            MessageSystem::General => TickWork::RunMessageSystem(MessageSystem::Register),
            MessageSystem::Register => TickWork::RunMessageSystem(MessageSystem::CharacterScreen),
            MessageSystem::CharacterScreen => TickWork::RunMessageSystem(MessageSystem::InGame),
            MessageSystem::InGame => TickWork::RunMessageSystem(MessageSystem::Terrain),
            MessageSystem::Terrain => TickWork::RunMessageSystem(MessageSystem::Ping),
            MessageSystem::Ping => TickWork::RunMessageSystem(MessageSystem::Agent),
            MessageSystem::Agent => TickWork::TickState { dt, updates_terrain: false },
        },
        TickWork::TickState { .. } => TickWork::HandleEvents,
        TickWork::HandleEvents => TickWork::UpdateRegionMap,
        TickWork::UpdateRegionMap => TickWork::ApplyTerrainChanges,
        TickWork::ApplyTerrainChanges => TickWork::RunSyncSystems,
        TickWork::RunSyncSystems => TickWork::TickWorld(dt),
        TickWork::TickWorld(_) => TickWork::CleanUpEntities,
        TickWork::CleanUpEntities => TickWork::UpdatePersistence,
        TickWork::UpdatePersistence => TickWork::ReloadColors,
        TickWork::ReloadColors => TickWork::RunMetricsSystem,
        TickWork::RunMetricsSystem => TickWork::ReportTimings,
        TickWork::ReportTimings => TickWork::Finished,
        TickWork::Finished => TickWork::Finished,
    }
}

fn timed(work: TickWork) -> (r: bool)
    ensures
        r == is_timed(work),
{
    match work {
        TickWork::HandleNewConnections => true,
        TickWork::RunMessageSystem(MessageSystem::General) => true,
        TickWork::TickState { .. } => true,
        TickWork::HandleEvents => true,
        TickWork::UpdateRegionMap => true,
        TickWork::RunSyncSystems => true,
        TickWork::TickWorld(_) => true,
        TickWork::CleanUpEntities => true,
        TickWork::UpdatePersistence => true,
        TickWork::RunMetricsSystem => true,
        _ => false,
    }
}

/// Every part of the work has its place in the schedule.
pub proof fn schedule_is_complete(work: TickWork, dt: TimeSpan)
    requires
        belongs(work, dt),
    ensures
        0 <= rank(work) < schedule(dt).len(),
        schedule(dt)[rank(work)] == work,
{
}

/// A tick goes through the schedule part by part: when `n` parts have been done,
/// the next in the schedule is due.
pub proof fn tick_follows_the_schedule<G>(dt: TimeSpan, now: u128, done: Seq<WorkDone<G>>)
    requires
        done.len() < schedule(dt).len(),
    ensures
        played(begun(dt, now), done).dt == dt,
        played(begun(dt, now), done).work == schedule(dt)[done.len() as int],
        played(begun(dt, now), done).stamps.len() == readings(played(begun(dt, now), done).work),
    decreases done.len(),
{
    if done.len() > 0 {
        tick_follows_the_schedule(dt, now, done.drop_last());
        lemma_rank_of_schedule(dt, done.len() - 1);
    }
}

proof fn lemma_rank_of_schedule(dt: TimeSpan, i: int)
    requires
        0 <= i < schedule(dt).len(),
    ensures
        rank(schedule(dt)[i]) == i,
        belongs(schedule(dt)[i], dt),
{
}

/// Each part of the work is due once in a tick: when as many parts have been done
/// as come before it, and at no other time.
pub proof fn parts_are_due_once<G>(
    dt: TimeSpan,
    now: u128,
    done: Seq<WorkDone<G>>,
    work: TickWork,
)
    requires
        done.len() < schedule(dt).len(),
        belongs(work, dt),
    ensures
        played(begun(dt, now), done).work == work <==> done.len() == rank(work),
{
    tick_follows_the_schedule(dt, now, done);
    schedule_is_complete(work, dt);
    lemma_rank_of_schedule(dt, done.len() as int);
}

/// In a tick of length `dt` the game state is moved on once, by `dt`, with its
/// terrain left alone, after all systems that read messages have run; and the world
/// is moved on once, by `dt`, after that.
pub proof fn tick_moves_the_game_on_by_its_length<G>(
    dt: TimeSpan,
    now: u128,
    done: Seq<WorkDone<G>>,
    system: MessageSystem,
)
    requires
        done.len() < schedule(dt).len(),
    ensures
        played(begun(dt, now), done).work is TickState <==> done.len() == rank(
            TickWork::TickState { dt, updates_terrain: false },
        ),
        played(begun(dt, now), done).work is TickState ==> played(begun(dt, now), done).work == (
        TickWork::TickState { dt, updates_terrain: false }),
        played(begun(dt, now), done).work is TickWorld <==> done.len() == rank(
            TickWork::TickWorld(dt),
        ),
        played(begun(dt, now), done).work is TickWorld ==> played(begun(dt, now), done).work
            == TickWork::TickWorld(dt),
        played(begun(dt, now), done).work == TickWork::RunMessageSystem(system) <==> done.len()
            == rank(TickWork::RunMessageSystem(system)),
        rank(TickWork::RunMessageSystem(system)) < rank(
            TickWork::TickState { dt, updates_terrain: false },
        ) < rank(TickWork::TickWorld(dt)),
{
    tick_follows_the_schedule(dt, now, done);
    lemma_rank_of_schedule(dt, done.len() as int);
    parts_are_due_once(dt, now, done, TickWork::TickState { dt, updates_terrain: false });
    parts_are_due_once(dt, now, done, TickWork::TickWorld(dt));
    parts_are_due_once(dt, now, done, TickWork::RunMessageSystem(system));
}

/// A tick ends: once every part of the work has been done, it is finished, and its
/// events are those of the new connections followed by those of the game.
pub proof fn tick_ends<G>(dt: TimeSpan, now: u128, done: Seq<WorkDone<G>>)
    requires
        done.len() == schedule(dt).len() - 1,
    ensures
        played(begun(dt, now), done).work is Finished,
        played(begun(dt, now), done).events == done[rank(TickWork::HandleNewConnections)].events
            + done[rank(TickWork::HandleEvents)].events,
{
    tick_follows_the_schedule(dt, now, done);
    lemma_events_so_far(dt, now, done);
}

proof fn lemma_events_so_far<G>(dt: TimeSpan, now: u128, done: Seq<WorkDone<G>>)
    requires
        done.len() < schedule(dt).len(),
    ensures
        played(begun(dt, now), done).events == if done.len() == 0 {
            Seq::empty()
        } else if done.len() < 10 {
            done[0].events
        } else {
            done[0].events + done[9].events
        },
    decreases done.len(),
{
    if done.len() > 0 {
        let rest = done.drop_last();
        lemma_events_so_far(dt, now, rest);
        tick_follows_the_schedule(dt, now, rest);
        assert(played(begun(dt, now), done).events =~= if done.len() < 10 {
            done[0].events
        } else {
            done[0].events + done[9].events
        });
    }
}

/// A part of a tick that took less than some centuries is reported as long as it
/// took.
pub proof fn timings_are_exact(stamps: Seq<u128>, from: int, to: int)
    requires
        stamps[from] <= stamps[to],
        stamps[to] - stamps[from] <= i64::MAX,
    ensures
        elapsed(stamps, from, to) == stamps[to] - stamps[from],
{
}

/// What is due in a tick after how many parts of the work have been done. First the
/// new connections, then the messages of clients and the decisions of creatures, then
/// the game, its events and its terrain, then what clients are sent, then the world,
/// then the strayed, the database and the colours of the terrain, and at last the
/// metrics.
pub proof fn work_is_due_in_this_order<G>(dt: TimeSpan, now: u128, done: Seq<WorkDone<G>>)
    requires
        done.len() < 20,
    ensures
        done.len() == 0 ==> played(begun(dt, now), done).work == TickWork::HandleNewConnections,
        done.len() == 1 ==> played(begun(dt, now), done).work == TickWork::RunMessageSystem(MessageSystem::General),
        done.len() == 2 ==> played(begun(dt, now), done).work == TickWork::RunMessageSystem(MessageSystem::Register),
        done.len() == 3 ==> played(begun(dt, now), done).work == TickWork::RunMessageSystem(MessageSystem::CharacterScreen),
        done.len() == 4 ==> played(begun(dt, now), done).work == TickWork::RunMessageSystem(MessageSystem::InGame),
        done.len() == 5 ==> played(begun(dt, now), done).work == TickWork::RunMessageSystem(MessageSystem::Terrain),
        done.len() == 6 ==> played(begun(dt, now), done).work == TickWork::RunMessageSystem(MessageSystem::Ping),
        done.len() == 7 ==> played(begun(dt, now), done).work == TickWork::RunMessageSystem(MessageSystem::Agent),
        done.len() == 8 ==> played(begun(dt, now), done).work == (TickWork::TickState { dt, updates_terrain: false }),
        done.len() == 9 ==> played(begun(dt, now), done).work == TickWork::HandleEvents,
        done.len() == 10 ==> played(begun(dt, now), done).work == TickWork::UpdateRegionMap,
        done.len() == 11 ==> played(begun(dt, now), done).work == TickWork::ApplyTerrainChanges,
        done.len() == 12 ==> played(begun(dt, now), done).work == TickWork::RunSyncSystems,
        done.len() == 13 ==> played(begun(dt, now), done).work == TickWork::TickWorld(dt),
        done.len() == 14 ==> played(begun(dt, now), done).work == TickWork::CleanUpEntities,
        done.len() == 15 ==> played(begun(dt, now), done).work == TickWork::UpdatePersistence,
        done.len() == 16 ==> played(begun(dt, now), done).work == TickWork::ReloadColors,
        done.len() == 17 ==> played(begun(dt, now), done).work == TickWork::RunMetricsSystem,
        done.len() == 18 ==> played(begun(dt, now), done).work == TickWork::ReportTimings,
        done.len() == 19 ==> played(begun(dt, now), done).work == TickWork::Finished,
{
    tick_follows_the_schedule(dt, now, done);
}

/// The events of a tick are those that came of the new connections, followed by those
/// of the game; nothing else that is done in a tick adds any.
pub proof fn events_come_of_connections_and_the_game<G>(
    dt: TimeSpan,
    now: u128,
    done: Seq<WorkDone<G>>,
)
    requires
        done.len() < 20,
    ensures
        done.len() == 0 ==> played(begun(dt, now), done).events.len() == 0,
        1 <= done.len() < 10 ==> played(begun(dt, now), done).events == done[0].events,
        10 <= done.len() ==> played(begun(dt, now), done).events == done[0].events
            + done[9].events,
{
    lemma_events_so_far(dt, now, done);
}

proof fn lemma_stamps_so_far<G>(dt: TimeSpan, now: u128, done: Seq<WorkDone<G>>)
    requires
        done.len() < 20,
    ensures
        played(begun(dt, now), done).stamps == seq![
            now,
            done[0].now,
            done[7].now,
            done[8].now,
            done[9].now,
            done[11].now,
            done[12].now,
            done[13].now,
            done[14].now,
            done[16].now,
        ].take(readings(schedule(dt)[done.len() as int])),
    decreases done.len(),
{
    if done.len() > 0 {
        let rest = done.drop_last();
        lemma_stamps_so_far(dt, now, rest);
        tick_follows_the_schedule(dt, now, rest);
        lemma_rank_of_schedule(dt, done.len() - 1);
        lemma_rank_of_schedule(dt, done.len() as int);
    }
    assert(played(begun(dt, now), done).stamps =~= seq![
        now,
        done[0].now,
        done[7].now,
        done[8].now,
        done[9].now,
        done[11].now,
        done[12].now,
        done[13].now,
        done[14].now,
        done[16].now,
    ].take(readings(schedule(dt)[done.len() as int])));
}

/// What is reported of a tick is how long its parts took: each from the moment at
/// which the part before it was done to the moment at which its own last part was.
pub proof fn timings_are_those_of_the_work<G>(dt: TimeSpan, now: u128, done: Seq<WorkDone<G>>)
    requires
        17 <= done.len() < 20,
    ensures
        report(played(begun(dt, now), done).stamps) == seq![
            ("new connections"@, elapsed(seq![now, done[0].now], 0, 1)),
            ("handle server events"@, elapsed(seq![done[8].now, done[9].now], 0, 1)),
            ("update terrain and region map"@, elapsed(seq![done[9].now, done[11].now], 0, 1)),
            ("state"@, elapsed(seq![done[7].now, done[8].now], 0, 1)),
            ("world tick"@, elapsed(seq![done[12].now, done[13].now], 0, 1)),
            ("entity cleanup"@, elapsed(seq![done[13].now, done[14].now], 0, 1)),
            ("persistence_updates"@, elapsed(seq![done[14].now, done[16].now], 0, 1)),
        ],
{
    lemma_stamps_so_far(dt, now, done);
    lemma_rank_of_schedule(dt, done.len() as int);
    assert(report(played(begun(dt, now), done).stamps) =~= seq![
        ("new connections"@, elapsed(seq![now, done[0].now], 0, 1)),
        ("handle server events"@, elapsed(seq![done[8].now, done[9].now], 0, 1)),
        ("update terrain and region map"@, elapsed(seq![done[9].now, done[11].now], 0, 1)),
        ("state"@, elapsed(seq![done[7].now, done[8].now], 0, 1)),
        ("world tick"@, elapsed(seq![done[12].now, done[13].now], 0, 1)),
        ("entity cleanup"@, elapsed(seq![done[13].now, done[14].now], 0, 1)),
        ("persistence_updates"@, elapsed(seq![done[14].now, done[16].now], 0, 1)),
    ]);
}

/// Time passed is the difference of two readings, of which the lower 64 bits are
/// kept; a clock that went back shows none.
pub proof fn elapsed_keeps_its_lower_bits(stamps: Seq<u128>, from: int, to: int)
    ensures
        stamps[to] < stamps[from] ==> elapsed(stamps, from, to) == 0,
        stamps[to] >= stamps[from] ==> (elapsed(stamps, from, to) as u64) as int == (stamps[to]
            - stamps[from]) % 0x1_0000_0000_0000_0000,
{
    if stamps[to] >= stamps[from] {
        let d = (stamps[to] - stamps[from]) as u128;
        assert((d as i64) as u64 == d % 0x1_0000_0000_0000_0000u128) by (bit_vector);
    }
}

/// A tick and its timings are seen as they are.
pub proof fn ticks_are_seen_as_they_are<G>(run: TickRun<G>, timing: Timing, timings: Seq<Timing>)
    ensures
        run@.dt == run.dt,
        run@.work == run.work,
        run@.stamps == run.stamps@,
        run@.events == run.frontend_events@,
        timing@ == (timing.label@, timing.nanos),
        timing_views(timings).len() == timings.len(),
        forall|i: int| 0 <= i < timings.len() ==> #[trigger] timing_views(timings)[i] == timings[i]@,
{
}

/// A tick that has just begun has its length and its first reading of the clock, and
/// brought forth nothing.
pub proof fn ticks_begin_empty<G>(dt: TimeSpan, now: u128)
    ensures
        begun::<G>(dt, now).dt == dt,
        begun::<G>(dt, now).work is HandleNewConnections,
        begun::<G>(dt, now).stamps == seq![now],
        begun::<G>(dt, now).events.len() == 0,
{
}

} // verus!
