use vstd::prelude::*;
use crate::model::{MapRun, Run, RunKind};

verus! {

/// Most rows a map leaderboard holds.
pub const MAP_TOP_LIMIT: usize = 250;

impl RunKind {
    pub open spec fn index_name_spec(self) -> Seq<char> {
        match self {
            RunKind::NUB => "idx_runs__filterid_playerid_ticks_createdat"@,
            RunKind::PRO => "idx_runs__filterid_tps_playerid_ticks_createdat"@,
        }
    }

    pub open spec fn teleports_clause_spec(self) -> Seq<char> {
        match self {
            RunKind::NUB => "1"@,
            RunKind::PRO => "teleports = 0"@,
        }
    }

    /// The composite index that queries of this kind force.
    pub fn index_name(&self) -> (r: &'static str)
        ensures
            r@ == self.index_name_spec(),
    {
        match self {
            RunKind::NUB => "idx_runs__filterid_playerid_ticks_createdat",
            RunKind::PRO => "idx_runs__filterid_tps_playerid_ticks_createdat",
        }
    }

    /// The SQL condition on `teleports` that selects runs of this kind.
    pub fn teleports_clause(&self) -> (r: &'static str)
        ensures
            r@ == self.teleports_clause_spec(),
    {
        match self {
            RunKind::NUB => "1",
            RunKind::PRO => "teleports = 0",
        }
    }
}

/// The map-leaderboard query for `kind`; binds map name, course number and mode
/// short name, in that order. Rows come fastest first, earliest first among
/// equal times, possibly several per player when a best time repeats.
pub open spec fn map_top_sql(kind: RunKind) -> Seq<char> {
    "SELECT r.player_id, p.name AS player_name, t.ticks, r.teleports, r.created_at FROM runs r USE INDEX("@
        + kind.index_name_spec()
        + ") INNER JOIN players p ON p.player_id = r.player_id INNER JOIN (SELECT r.player_id, f.filter_id, MIN(r.ticks) AS ticks FROM runs r USE INDEX("@
        + kind.index_name_spec()
        + ") INNER JOIN filters f ON f.filter_id = r.filter_id INNER JOIN courses c ON c.course_id = f.course_id INNER JOIN maps m ON m.map_id = c.map_id INNER JOIN modes m2 ON m2.mode_id = f.mode_id WHERE m.name = ? AND c.num = ? AND m2.short_name = ? AND "@
        + kind.teleports_clause_spec()
        + " GROUP BY r.player_id, f.filter_id ORDER BY ticks ASC LIMIT 250) t ON t.player_id = r.player_id AND t.filter_id = r.filter_id AND t.ticks = r.ticks WHERE "@
        + kind.teleports_clause_spec() + " ORDER BY t.ticks ASC, r.created_at ASC"@
}

/// The personal-best history query for `kind`; binds player id, map name,
/// course number and mode short name, in that order. Rows hold, for each
/// distinct time among the 2000 fastest, its first run, oldest first.
pub open spec fn pb_history_sql(kind: RunKind) -> Seq<char> {
    "SELECT x.ticks, x.teleports, x.created_at FROM (SELECT r2.ticks, r2.teleports, r2.created_at FROM runs r2 USE INDEX("@
        + kind.index_name_spec()
        + ") INNER JOIN (SELECT r.player_id, r.filter_id, r.ticks, MIN(r.created_at) AS created_at FROM runs r USE INDEX("@
        + kind.index_name_spec()
        + ") INNER JOIN filters f ON f.filter_id = r.filter_id INNER JOIN courses c ON c.course_id = f.course_id INNER JOIN maps m ON m.map_id = c.map_id INNER JOIN modes m2 ON m2.mode_id = f.mode_id WHERE r.player_id = ? AND m.name = ? AND c.num = ? AND m2.short_name = ? AND "@
        + kind.teleports_clause_spec()
        + " GROUP BY r.player_id, r.filter_id, r.ticks) p ON p.player_id = r2.player_id AND p.filter_id = r2.filter_id AND p.ticks = r2.ticks AND p.created_at = r2.created_at AND "@
        + kind.teleports_clause_spec() + " ORDER BY r2.ticks ASC LIMIT 2000) x ORDER BY x.created_at ASC"@
}

/// Builds the map-leaderboard query text for `kind`.
pub fn map_top_query(kind: RunKind) -> (r: String)
    ensures
        r@ == map_top_sql(kind),
{
    let index = kind.index_name();
    let teleports = kind.teleports_clause();
    let q = String::from_str(
        "SELECT r.player_id, p.name AS player_name, t.ticks, r.teleports, r.created_at FROM runs r USE INDEX(",
    );
    let q = q.concat(index);
    let q = q.concat(
        ") INNER JOIN players p ON p.player_id = r.player_id INNER JOIN (SELECT r.player_id, f.filter_id, MIN(r.ticks) AS ticks FROM runs r USE INDEX(",
    );
    let q = q.concat(index);
    let q = q.concat(
        ") INNER JOIN filters f ON f.filter_id = r.filter_id INNER JOIN courses c ON c.course_id = f.course_id INNER JOIN maps m ON m.map_id = c.map_id INNER JOIN modes m2 ON m2.mode_id = f.mode_id WHERE m.name = ? AND c.num = ? AND m2.short_name = ? AND ",
    );
    let q = q.concat(teleports);
    let q = q.concat(
        " GROUP BY r.player_id, f.filter_id ORDER BY ticks ASC LIMIT 250) t ON t.player_id = r.player_id AND t.filter_id = r.filter_id AND t.ticks = r.ticks WHERE ",
    );
    let q = q.concat(teleports);
    q.concat(" ORDER BY t.ticks ASC, r.created_at ASC")
}

/// Builds the personal-best history query text for `kind`.
pub fn pb_history_query(kind: RunKind) -> (r: String)
    ensures
        r@ == pb_history_sql(kind),
{
    let index = kind.index_name();
    let teleports = kind.teleports_clause();
    let q = String::from_str(
        "SELECT x.ticks, x.teleports, x.created_at FROM (SELECT r2.ticks, r2.teleports, r2.created_at FROM runs r2 USE INDEX(",
    );
    let q = q.concat(index);
    let q = q.concat(
        ") INNER JOIN (SELECT r.player_id, r.filter_id, r.ticks, MIN(r.created_at) AS created_at FROM runs r USE INDEX(",
    );
    let q = q.concat(index);
    let q = q.concat(
        ") INNER JOIN filters f ON f.filter_id = r.filter_id INNER JOIN courses c ON c.course_id = f.course_id INNER JOIN maps m ON m.map_id = c.map_id INNER JOIN modes m2 ON m2.mode_id = f.mode_id WHERE r.player_id = ? AND m.name = ? AND c.num = ? AND m2.short_name = ? AND ",
    );
    let q = q.concat(teleports);
    let q = q.concat(
        " GROUP BY r.player_id, r.filter_id, r.ticks) p ON p.player_id = r2.player_id AND p.filter_id = r2.filter_id AND p.ticks = r2.ticks AND p.created_at = r2.created_at AND ",
    );
    let q = q.concat(teleports);
    q.concat(" ORDER BY r2.ticks ASC LIMIT 2000) x ORDER BY x.created_at ASC")
}

/// Parameters of a map-leaderboard request.
#[derive(Debug, PartialEq, Eq, Clone)]
pub struct GetMapTop {
    pub map: String,
    pub course: u32,
    pub mode: String,
    pub kind: RunKind,
}

impl GetMapTop {
    pub fn new(map: String, course: u32, mode: String, kind: RunKind) -> (r: GetMapTop)
        ensures
            r.map == map,
            r.course == course,
            r.mode == mode,
            r.kind == kind,
    {
        GetMapTop { map, course, mode, kind }
    }

    /// The query text for this request's run kind.
    pub fn query(&self) -> (r: String)
        ensures
            r@ == map_top_sql(self.kind),
    {
        map_top_query(self.kind)
    }
}

/// Parameters of a personal-best history request.
#[derive(Debug, PartialEq, Eq, Clone)]
pub struct GetCoursePbHistory {
    pub player_id: u64,
    pub map: String,
    pub course: u32,
    pub mode: String,
    pub kind: RunKind,
}

impl GetCoursePbHistory {
    pub fn new(player_id: u64, map: String, course: u32, mode: String, kind: RunKind) -> (r:
        GetCoursePbHistory)
        ensures
            r.player_id == player_id,
            r.map == map,
            r.course == course,
            r.mode == mode,
            r.kind == kind,
    {
        GetCoursePbHistory { player_id, map, course, mode, kind }
    }

    /// The query text for this request's run kind.
    pub fn query(&self) -> (r: String)
        ensures
            r@ == pb_history_sql(self.kind),
    {
        pb_history_query(self.kind)
    }
}

/// Whether the run at `i` is at least as fast as every earlier run.
pub open spec fn is_pb_at(runs: Seq<Run>, i: int) -> bool {
    forall|j: int| 0 <= j < i ==> runs[i].ticks <= #[trigger] runs[j].ticks
}

/// The runs, oldest first, that were at least as fast as every earlier run.
pub open spec fn pb_improvements(runs: Seq<Run>) -> Seq<Run>
    decreases runs.len(),
{
    if runs.len() == 0 {
        Seq::<Run>::empty()
    } else {
        let prev = pb_improvements(runs.drop_last());
        if is_pb_at(runs, runs.len() - 1) {
            prev.push(runs.last())
        } else {
            prev
        }
    }
}

/// Reduces a player's runs, given oldest first with one run per distinct time,
/// to the personal-best improvements, newest first.
pub fn pb_history(runs: Vec<Run>) -> (r: Vec<Run>)
    ensures
        r@ == pb_improvements(runs@).reverse(),
{
    let mut kept: Vec<Run> = Vec::new();
    if runs.len() == 0 {
        assert(kept@ == pb_improvements(runs@).reverse());
        return kept;
    }
    let mut best: u32 = runs[0].ticks;
    let mut i: usize = 0;
    while i < runs.len()
        invariant
            0 < runs@.len(),
            i <= runs@.len(),
            kept@ == pb_improvements(runs@.subrange(0, i as int)),
            forall|j: int| 0 <= j < i ==> best <= #[trigger] runs@[j].ticks,
            i == 0 ==> best == runs@[0].ticks,
            i > 0 ==> exists|j: int| 0 <= j < i && best == #[trigger] runs@[j].ticks,
        decreases runs@.len() - i,
    {
        let run = runs[i];
        let ghost prefix = runs@.subrange(0, i + 1);
        assert(prefix.drop_last() == runs@.subrange(0, i as int));
        assert(prefix.last() == run);
        if best >= run.ticks {
            assert(is_pb_at(prefix, i as int)) by {
                assert forall|j: int| 0 <= j < i implies run.ticks <= #[trigger] prefix[j].ticks by {
                    assert(prefix[j] == runs@[j]);
                }
            }
            best = run.ticks;
            kept.push(run);
        } else {
            assert(!is_pb_at(prefix, i as int)) by {
                let j = choose|j: int| 0 <= j < i && best == #[trigger] runs@[j].ticks;
                assert(prefix[j] == runs@[j]);
            }
        }
        i = i + 1;
    }
    assert(runs@.subrange(0, runs@.len() as int) == runs@);
    let mut out: Vec<Run> = Vec::new();
    let mut k: usize = kept.len();
    while k > 0
        invariant
            k <= kept@.len(),
            out@ == kept@.subrange(k as int, kept@.len() as int).reverse(),
        decreases k,
    {
        k = k - 1;
        out.push(kept[k]);
        assert(kept@.subrange(k as int, kept@.len() as int).reverse() =~= kept@.subrange(
            k + 1,
            kept@.len() as int,
        ).reverse().push(kept@[k as int]));
    }
    assert(kept@.subrange(0, kept@.len() as int) == kept@);
    out
}

proof fn lemma_pb_improvements_ordered(runs: Seq<Run>)
    ensures
        forall|i: int|
            0 <= i < pb_improvements(runs).len() ==> exists|k: int|
                0 <= k < runs.len() && #[trigger] pb_improvements(runs)[i] == runs[k],
        forall|i: int, j: int|
            0 <= i < j < pb_improvements(runs).len() ==> #[trigger] pb_improvements(runs)[j].ticks
                <= #[trigger] pb_improvements(runs)[i].ticks,
    decreases runs.len(),
{
    if runs.len() > 0 {
        let prev_runs = runs.drop_last();
        lemma_pb_improvements_ordered(prev_runs);
        let prev = pb_improvements(prev_runs);
        let cur = pb_improvements(runs);
        assert forall|i: int| 0 <= i < prev.len() implies exists|k: int|
            0 <= k < runs.len() - 1 && #[trigger] prev[i] == runs[k] by {
            let k = choose|k: int| 0 <= k < prev_runs.len() && prev[i] == prev_runs[k];
            assert(prev_runs[k] == runs[k]);
        }
        if is_pb_at(runs, runs.len() - 1) {
            assert forall|i: int, j: int| 0 <= i < j < cur.len() implies #[trigger] cur[j].ticks
                <= #[trigger] cur[i].ticks by {
                if j == cur.len() - 1 {
                    let k = choose|k: int| 0 <= k < runs.len() - 1 && prev[i] == runs[k];
                    assert(runs[runs.len() - 1].ticks <= runs[k].ticks);
                } else {
                    assert(cur[i] == prev[i] && cur[j] == prev[j]);
                }
            }
            assert forall|i: int| 0 <= i < cur.len() implies exists|k: int|
                0 <= k < runs.len() && #[trigger] cur[i] == runs[k] by {
                if i == cur.len() - 1 {
                    assert(cur[i] == runs[runs.len() - 1]);
                } else {
                    assert(cur[i] == prev[i]);
                }
            }
        }
    }
}

/// A personal-best history (newest first), read from its end to its start,
/// never gets slower: each entry is at most as fast as the one after it.
pub proof fn lemma_pb_history_monotone(runs: Seq<Run>)
    ensures
        forall|i: int, j: int|
            0 <= i < j < pb_improvements(runs).reverse().len() ==> #[trigger] pb_improvements(
                runs,
            ).reverse()[i].ticks <= #[trigger] pb_improvements(runs).reverse()[j].ticks,
{
    lemma_pb_improvements_ordered(runs);
    let imp = pb_improvements(runs);
    assert forall|i: int, j: int| 0 <= i < j < imp.reverse().len() implies #[trigger] imp.reverse()[i].ticks
        <= #[trigger] imp.reverse()[j].ticks by {
        assert(imp.reverse()[i] == imp[imp.len() - 1 - i]);
        assert(imp.reverse()[j] == imp[imp.len() - 1 - j]);
    }
}

/// Whether a leaderboard that holds `kept` takes `row` next: it has room, the
/// row is no faster than the last one taken, and its player is not yet listed.
pub open spec fn takes_row(kept: Seq<MapRun>, row: MapRun) -> bool {
    &&& kept.len() < MAP_TOP_LIMIT
    &&& (kept.len() > 0 ==> kept.last().ticks <= row.ticks)
    &&& forall|i: int| 0 <= i < kept.len() ==> #[trigger] kept[i].player_id != row.player_id
}

/// The leaderboard built from query rows taken in order.
pub open spec fn map_top_rows(rows: Seq<MapRun>) -> Seq<MapRun>
    decreases rows.len(),
{
    if rows.len() == 0 {
        Seq::<MapRun>::empty()
    } else {
        let prev = map_top_rows(rows.drop_last());
        if takes_row(prev, rows.last()) {
            prev.push(rows.last())
        } else {
            prev
        }
    }
}

/// Whether `kept` already lists a row of `player_id`.
fn lists_player(kept: &Vec<MapRun>, player_id: u64) -> (r: bool)
    ensures
        r == exists|i: int| 0 <= i < kept@.len() && #[trigger] kept@[i].player_id == player_id,
{
    let mut i: usize = 0;
    while i < kept.len()
        invariant
            i <= kept@.len(),
            forall|j: int| 0 <= j < i ==> #[trigger] kept@[j].player_id != player_id,
        decreases kept@.len() - i,
    {
        if kept[i].player_id == player_id {
            return true;
        }
        i = i + 1;
    }
    false
}

/// Builds a map leaderboard from the rows of the map-top query: rows are taken
/// in order, one per player (the first), none faster than the one before, at
/// most `MAP_TOP_LIMIT` of them.
pub fn map_top(rows: Vec<MapRun>) -> (r: Vec<MapRun>)
    ensures
        r@ == map_top_rows(rows@),
{
    let ghost all = rows@;
    let mut rest = rows;
    let mut kept: Vec<MapRun> = Vec::new();
    let ghost mut done: int = 0;
    while rest.len() > 0
        invariant
            0 <= done <= all.len(),
            rest@ == all.subrange(done, all.len() as int),
            kept@ == map_top_rows(all.subrange(0, done)),
        decreases rest@.len(),
    {
        let row = rest.remove(0);
        let ghost prefix = all.subrange(0, done + 1);
        assert(prefix.drop_last() == all.subrange(0, done));
        assert(prefix.last() == row);
        let room = kept.len() < MAP_TOP_LIMIT;
        let ordered = kept.len() == 0 || kept[kept.len() - 1].ticks <= row.ticks;
        let repeat = lists_player(&kept, row.player_id);
        if room && ordered && !repeat {
            kept.push(row);
        }
        proof {
            done = done + 1;
            assert(rest@ =~= all.subrange(done, all.len() as int));
        }
    }
    assert(all.subrange(0, all.len() as int) == all);
    kept
}

/// A map leaderboard is ordered by time, fastest first, lists each player at
/// most once, and holds at most `MAP_TOP_LIMIT` rows.
pub proof fn lemma_map_top_shape(rows: Seq<MapRun>)
    ensures
        map_top_rows(rows).len() <= MAP_TOP_LIMIT,
        forall|i: int, j: int|
            0 <= i < j < map_top_rows(rows).len() ==> #[trigger] map_top_rows(rows)[i].ticks
                <= #[trigger] map_top_rows(rows)[j].ticks,
        forall|i: int, j: int|
            0 <= i < j < map_top_rows(rows).len() ==> #[trigger] map_top_rows(rows)[i].player_id
                != #[trigger] map_top_rows(rows)[j].player_id,
    decreases rows.len(),
{
    if rows.len() > 0 {
        lemma_map_top_shape(rows.drop_last());
        let prev = map_top_rows(rows.drop_last());
        let cur = map_top_rows(rows);
        if takes_row(prev, rows.last()) {
            assert forall|i: int, j: int| 0 <= i < j < cur.len() implies #[trigger] cur[i].ticks
                <= #[trigger] cur[j].ticks by {
                if j == cur.len() - 1 && i < j - 1 {
                    assert(cur[i].ticks <= cur[j - 1].ticks);
                }
            }
            assert forall|i: int, j: int| 0 <= i < j < cur.len() implies #[trigger] cur[i].player_id
                != #[trigger] cur[j].player_id by {
                if j == cur.len() - 1 {
                    assert(prev[i].player_id != rows.last().player_id);
                }
            }
        }
    }
}

} // verus!
