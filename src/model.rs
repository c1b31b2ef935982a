use vstd::prelude::*;

verus! {

/// A point in time, as microseconds since the Unix epoch (UTC).
#[derive(Debug, PartialEq, Eq, Structural, Clone, Copy)]
pub struct Timestamp {
    pub micros: i64,
}

impl Timestamp {
    pub fn from_unix_micros(micros: i64) -> (r: Timestamp)
        ensures
            r.micros == micros,
    {
        Timestamp { micros }
    }

    pub fn unix_micros(&self) -> (r: i64)
        ensures
            r == self.micros,
    {
        self.micros
    }
}

/// Run category: any run counts (`NUB`), or only runs without teleports (`PRO`).
#[derive(Debug, PartialEq, Eq, Structural, Clone, Copy)]
#[allow(non_camel_case_types, clippy::upper_case_acronyms)]
pub enum RunKind {
    NUB,
    PRO,
}

/// One row of a map leaderboard: a player's best run on a course.
#[derive(Debug, PartialEq, Eq, Clone)]
pub struct MapRun {
    pub player_id: u64,
    pub player_name: Option<String>,
    pub ticks: u32,
    pub teleports: u32,
    pub created_at: Timestamp,
}

/// One run of a personal-best history.
#[derive(Debug, PartialEq, Eq, Structural, Clone, Copy)]
pub struct Run {
    pub ticks: u32,
    pub teleports: u32,
    pub created_at: Timestamp,
}

impl Run {
    pub fn new(ticks: u32, teleports: u32, created_at: Timestamp) -> (r: Run)
        ensures
            r == (Run { ticks, teleports, created_at }),
    {
        Run { ticks, teleports, created_at }
    }
}

impl MapRun {
    pub fn new(
        player_id: u64,
        player_name: Option<String>,
        ticks: u32,
        teleports: u32,
        created_at: Timestamp,
    ) -> (r: MapRun)
        ensures
            r == (MapRun { player_id, player_name, ticks, teleports, created_at }),
    {
        MapRun { player_id, player_name, ticks, teleports, created_at }
    }
}

/// A player as search results and map credits show it.
#[derive(Debug, PartialEq, Eq, Clone)]
pub struct Player {
    pub id: u64,
    pub name: String,
}

impl Player {
    pub fn new(id: u64, name: String) -> (r: Player)
        ensures
            r.id == id,
            r.name == name,
    {
        Player { id, name }
    }
}

/// A course of a map with its difficulty tiers for one mode.
#[derive(Debug, PartialEq, Eq, Structural, Clone, Copy)]
pub struct Course {
    pub course: u32,
    pub nub_tier: Option<u32>,
    pub pro_tier: Option<u32>,
}

impl Course {
    pub fn new(course: u32, nub_tier: Option<u32>, pro_tier: Option<u32>) -> (r: Course)
        ensures
            r == (Course { course, nub_tier, pro_tier }),
    {
        Course { course, nub_tier, pro_tier }
    }
}

/// A map with its courses (tiers for one mode) and its mappers.
#[derive(Debug, PartialEq, Eq, Clone)]
pub struct GameMap {
    pub name: String,
    pub courses: Vec<Course>,
    pub mappers: Vec<Player>,
    pub created_at: Timestamp,
}

impl GameMap {
    pub fn new(name: String, courses: Vec<Course>, mappers: Vec<Player>, created_at: Timestamp) -> (r:
        GameMap)
        ensures
            r.name == name,
            r.courses == courses,
            r.mappers == mappers,
            r.created_at == created_at,
    {
        GameMap { name, courses, mappers, created_at }
    }
}

/// A game mode.
#[derive(Debug, PartialEq, Eq, Clone)]
pub struct Mode {
    pub name: String,
    pub short_name: String,
}

impl Mode {
    pub fn new(name: String, short_name: String) -> (r: Mode)
        ensures
            r.name == name,
            r.short_name == short_name,
    {
        Mode { name, short_name }
    }
}

} // verus!
