use kz_api::model::{MapRun, Run, RunKind, Timestamp};
use kz_api::runs::{
    map_top, map_top_query, pb_history, pb_history_query, GetCoursePbHistory, GetMapTop,
    MAP_TOP_LIMIT,
};

fn run(ticks: u32, at: i64) -> Run {
    Run::new(ticks, 0, Timestamp::from_unix_micros(at))
}

fn row(player: u64, ticks: u32, teleports: u32, at: i64) -> MapRun {
    MapRun::new(player, Some(format!("p{player}")), ticks, teleports, Timestamp::from_unix_micros(at))
}

#[test]
fn pb_history_keeps_improvements_newest_first() {
    let runs = vec![run(200, 1), run(180, 2), run(190, 3), run(150, 4)];
    let out = pb_history(runs);
    assert_eq!(out, vec![run(150, 4), run(180, 2), run(200, 1)]);
}

#[test]
fn pb_history_drops_repeated_time_after_dedup() {
    // The query yields one row per distinct time, at its first occurrence;
    // a later 150 never reaches the reduction.
    let fetched = vec![run(200, 1), run(180, 2), run(190, 3), run(150, 4)];
    let out = pb_history(fetched);
    assert_eq!(out.len(), 3);
    assert_eq!(out[0].created_at, Timestamp::from_unix_micros(4));
}

#[test]
fn pb_history_empty_and_single() {
    assert_eq!(pb_history(Vec::new()), Vec::new());
    assert_eq!(pb_history(vec![run(300, 9)]), vec![run(300, 9)]);
}

#[test]
fn pb_history_reversed_is_non_increasing() {
    let runs = vec![run(500, 1), run(400, 2), run(450, 3), run(390, 4), run(395, 5), run(100, 6)];
    let out = pb_history(runs);
    let rev: Vec<u32> = out.iter().rev().map(|r| r.ticks).collect();
    assert_eq!(rev, vec![500, 400, 390, 100]);
    for w in rev.windows(2) {
        assert!(w[1] <= w[0]);
    }
}

#[test]
fn map_top_two_players() {
    let rows = vec![row(1, 100, 3, 10), row(2, 120, 0, 20)];
    let out = map_top(rows.clone());
    assert_eq!(out, rows);
    assert_eq!(out[0].player_id, 1);
    assert_eq!(out[0].teleports, 3);
    assert_eq!(out[0].created_at, Timestamp::from_unix_micros(10));
}

#[test]
fn map_top_takes_one_row_per_player() {
    let rows = vec![row(1, 100, 0, 10), row(1, 100, 2, 11), row(2, 120, 0, 20), row(2, 120, 1, 5)];
    let out = map_top(rows);
    assert_eq!(out, vec![row(1, 100, 0, 10), row(2, 120, 0, 20)]);
}

#[test]
fn map_top_is_ordered_unique_and_capped() {
    let mut rows = Vec::new();
    for p in 0..300u64 {
        rows.push(row(p, 1000 + (p as u32) * 2, 0, p as i64));
        rows.push(row(p, 1000 + (p as u32) * 2, 1, p as i64 + 1));
    }
    rows.push(row(999, 5, 0, 0));
    let out = map_top(rows);
    assert_eq!(out.len(), MAP_TOP_LIMIT);
    for w in out.windows(2) {
        assert!(w[0].ticks <= w[1].ticks);
    }
    let mut ids: Vec<u64> = out.iter().map(|r| r.player_id).collect();
    ids.sort();
    ids.dedup();
    assert_eq!(ids.len(), out.len());
}

#[test]
fn map_top_empty() {
    assert!(map_top(Vec::new()).is_empty());
}

#[test]
fn kind_selects_index_and_teleport_clause() {
    assert_eq!(RunKind::NUB.index_name(), "idx_runs__filterid_playerid_ticks_createdat");
    assert_eq!(RunKind::PRO.index_name(), "idx_runs__filterid_tps_playerid_ticks_createdat");
    assert_eq!(RunKind::NUB.teleports_clause(), "1");
    assert_eq!(RunKind::PRO.teleports_clause(), "teleports = 0");
}

#[test]
fn queries_splice_the_kind_table() {
    let nub = map_top_query(RunKind::NUB);
    assert!(nub.contains("USE INDEX(idx_runs__filterid_playerid_ticks_createdat)"));
    assert!(nub.contains("AND 1 GROUP BY"));
    assert!(!nub.contains("teleports = 0"));
    let pro = pb_history_query(RunKind::PRO);
    assert!(pro.contains("USE INDEX(idx_runs__filterid_tps_playerid_ticks_createdat)"));
    assert!(pro.contains("AND teleports = 0 GROUP BY"));
    assert!(pro.contains("LIMIT 2000"));
    assert!(pro.ends_with("ORDER BY x.created_at ASC"));
}

#[test]
fn request_structs_build_their_query() {
    let q = GetMapTop::new("kz_test".to_string(), 1, "vnl".to_string(), RunKind::NUB);
    assert_eq!(q.query(), map_top_query(RunKind::NUB));
    assert_eq!(q.course, 1);
    let h = GetCoursePbHistory::new(7, "kz_test".to_string(), 1, "vnl".to_string(), RunKind::PRO);
    assert_eq!(h.query(), pb_history_query(RunKind::PRO));
    assert_eq!(h.player_id, 7);
}
