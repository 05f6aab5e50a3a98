//! What a server is configured with, and what it knows of its machine.

use std::collections::HashSet;
use vstd::prelude::*;

verus! {

/// Why a server could not be started.
#[derive(Debug)]
pub enum ServerError {
    Other(String),
}

impl ServerError {
    /// What the error tells the administrator.
    pub open spec fn message(self) -> Seq<char> {
        match self {
            ServerError::Other(text) => text@,
        }
    }
}

/// A length of time.
#[derive(Clone, Copy, Debug, PartialEq, Eq, Structural)]
pub struct TimeSpan {
    pub secs: u64,
    pub nanos: u32,
}

/// The settings that are read when the server starts. How a map is named is left to
/// the caller.
#[derive(Debug)]
pub struct Settings<F> {
    pub server_name: String,
    /// Where accounts are checked; nowhere if authentication is off.
    pub auth_server_address: Option<String>,
    pub max_players: usize,
    pub max_player_group_size: u32,
    pub client_timeout: TimeSpan,
    /// The files that list what a player may not be called.
    pub banned_words_files: Vec<String>,
    pub world_seed: u32,
    /// The map that the world is made from, if it is not the one that comes with the
    /// game.
    pub map_file: Option<F>,
}

/// The map that a world is made from.
#[derive(Debug)]
pub enum WorldFile<'a, F> {
    Given(&'a F),
    /// The map that comes with the game.
    Default,
}

/// What a world is generated with.
#[derive(Debug)]
pub struct WorldOptions<'a, F> {
    pub seed: u32,
    /// The world is seeded with its elements.
    pub seed_elements: bool,
    pub world_file: WorldFile<'a, F>,
}

impl<F> Settings<F> {
    /// What the world is generated with: the map that the settings name, or the one
    /// that comes with the game where they name none.
    pub fn world_options(&self) -> (options: WorldOptions<'_, F>)
        ensures
            options.seed == self.world_seed,
            options.seed_elements,
            match self.map_file {
                Some(file) => options.world_file matches WorldFile::Given(given) && *given == file,
                None => options.world_file is Default,
            },
    {
        WorldOptions {
            seed: self.world_seed,
            seed_elements: true,
            world_file: match &self.map_file {
                Some(file) => WorldFile::Given(file),
                None => WorldFile::Default,
            },
        }
    }
}

/// The settings that commands can change while the server runs.
#[derive(Debug)]
pub struct EditableSettings {
    pub server_description: String,
    /// The accounts that may administrate the server.
    pub admins: HashSet<u128>,
}

/// Where the server keeps its files.
#[derive(Debug)]
pub struct DataDir {
    pub path: String,
}

/// Which build of the server this is.
#[derive(Debug)]
pub struct BuildInfo {
    /// Whether the server was built with plugins.
    pub plugins: bool,
    pub git_hash: String,
    pub git_date: String,
}

/// How many threads the machine runs at once.
#[derive(Clone, Copy, Debug, PartialEq, Eq, Structural)]
pub struct HwStats {
    pub hardware_threads: u32,
    pub rayon_threads: u32,
}

/// The record of two thread counts, each kept in 32 bits.
pub open spec fn thread_record(hardware: usize, rayon: usize) -> HwStats {
    HwStats { hardware_threads: hardware as u32, rayon_threads: rayon as u32 }
}

/// `stats` is what the thread counts of some machine are kept as.
pub open spec fn is_thread_record(stats: HwStats) -> bool {
    exists|hardware: usize, rayon: usize|
        1 <= hardware && 1 <= rayon && stats == #[trigger] thread_record(hardware, rayon)
}

impl HwStats {
    /// The record of two thread counts, each kept in 32 bits.
    pub fn new(hardware_threads: usize, rayon_threads: usize) -> (stats: HwStats)
        ensures
            stats == thread_record(hardware_threads, rayon_threads),
    {
        HwStats {
            hardware_threads: #[verifier::truncate] (hardware_threads as u32),
            rayon_threads: #[verifier::truncate] (rayon_threads as u32),
        }
    }

    /// The thread counts of this machine. Each is read once; that there is at
    /// least one thread is all that holds of every machine.
    pub fn detect() -> (stats: HwStats)
        ensures
            is_thread_record(stats),
    {
        let hardware: usize = cpu_count();
        let rayon: usize = cpu_count();
        HwStats::new(hardware, rayon)
    }
}

/// Calls `num_cpus::get`, which counts the logical processors that this process
/// may use. The contract claims what its documentation promises, that there is
/// at least one; how many there are depends on the machine.
#[verifier::external_body]
fn cpu_count() -> (n: usize)
    ensures
        1 <= n,
{
    num_cpus::get()
}

/// Thread counts are kept as they are, up to what 32 bits can hold; beyond that the
/// lower 32 bits of them are.
pub proof fn thread_counts_keep_their_lower_bits(hardware: usize, rayon: usize)
    ensures
        thread_record(hardware, rayon).hardware_threads == hardware as int % 0x1_0000_0000,
        thread_record(hardware, rayon).rayon_threads == rayon as int % 0x1_0000_0000,
{
    lemma_lower_bits(hardware as u64);
    lemma_lower_bits(rayon as u64);
    assert(hardware as u32 == (hardware as u64) as u32) by (bit_vector);
    assert(rayon as u32 == (rayon as u64) as u32) by (bit_vector);
}

proof fn lemma_lower_bits(n: u64)
    ensures
        n as u32 == n as int % 0x1_0000_0000,
{
    assert(n as u32 == n % 0x1_0000_0000u64) by (bit_vector);
}

/// What an error tells is the text that it was made with.
pub proof fn errors_tell_their_text(text: String)
    ensures
        ServerError::Other(text).message() == text@,
{
}

} // verus!
