use rarerankd::category::CategoryId;
use rarerankd::counts::db_get_category_counts;
use rarerankd::counts::CategoryCounts;
use rarerankd::daemon::get_rarerank;
use rarerankd::daemon::rarerank_category;
use rarerankd::daemon::settings_from_env;
use rarerankd::daemon::status;
use rarerankd::daemon::DaemonEnv;
use rarerankd::daemon::RankLookup;
use rarerankd::daemon::RareRankReply;
use rarerankd::daemon::StatusRead;
use rarerankd::ingest::fetched_inscription;
use rarerankd::ingest::Fetched;
use rarerankd::ingest::IngestAction;
use rarerankd::ingest::IngestEvent;
use rarerankd::ingest::IngestState;
use rarerankd::ingest::Pause;
use rarerankd::ledger::db_get_next_inscription_number;
use rarerankd::ledger::db_get_rank;
use rarerankd::ledger::db_init;
use rarerankd::ledger::db_mark_processed;
use rarerankd::ledger::db_set_next_inscription_number;
use rarerankd::ledger::to_signed;
use rarerankd::ledger::to_unsigned;
use rarerankd::ledger::RankAction;
use rarerankd::ledger::RankEvent;
use rarerankd::ledger::RankRecorder;
use rarerankd::ledger::RankStage;
use rarerankd::ledger::Statement;
use rarerankd::ord::ExtractError;
use rarerankd::ord::OrdStatus;
use std::collections::BTreeMap;

/// Tables in memory.
#[derive(Debug, Default, Clone, PartialEq)]
struct Tables {
    cursor: Option<String>,
    counts: BTreeMap<String, i64>,
    ranks: BTreeMap<(String, String), i64>,
    processed: BTreeMap<i64, String>,
}

impl Tables {
    fn new() -> Tables {
        let mut t = Tables::default();
        for s in db_init() {
            assert!(t.execute(s));
        }
        t
    }

    fn execute(&mut self, s: Statement) -> bool {
        match s {
            Statement::SeedCount { category_id } => {
                self.counts.entry(category_id).or_insert(0);
            }
            Statement::SeedCursor { text } => {
                self.cursor.get_or_insert(text);
            }
            Statement::SetCursor { text } => {
                if self.cursor.is_some() {
                    self.cursor = Some(text);
                }
            }
            Statement::MarkProcessed { number, inscription_id } => {
                self.processed.entry(number).or_insert(inscription_id);
            }
            Statement::SetCount { category_id, count } => {
                if let Some(c) = self.counts.get_mut(&category_id) {
                    *c = count;
                }
            }
            Statement::InsertRank { inscription_id, category_id, rank } => {
                if self.ranks.contains_key(&(inscription_id.clone(), category_id.clone())) {
                    return false;
                }
                self.ranks.insert((inscription_id, category_id), rank);
            }
        }
        true
    }

    fn rank(&self, category: &str, id: &str) -> Option<i64> {
        self.ranks.get(&(id.to_string(), category.to_string())).copied()
    }

    /// Records a rank as the recorder says.
    fn record(&mut self, category: &str, id: &str) -> Option<u64> {
        let (mut recorder, mut action) = RankRecorder::start(category, id);
        loop {
            let event = match action {
                RankAction::ReadRank => RankEvent::Rank { rank: self.rank(category, id) },
                RankAction::BeginAndReadCount => match self.counts.get(category) {
                    Some(count) => RankEvent::Count { count: *count },
                    None => RankEvent::Failed,
                },
                RankAction::WriteAndCommit { writes } => {
                    for w in writes {
                        assert!(self.execute(w));
                    }
                    RankEvent::Committed
                }
                RankAction::Return { rank } => return Some(rank),
                RankAction::GiveUp => return None,
            };
            assert!(recorder.fits(event));
            action = recorder.step(event);
        }
    }

    fn rows(&self) -> Vec<(String, i64)> {
        self.counts.iter().map(|(k, v)| (k.clone(), *v)).collect()
    }
}

const READY: OrdStatus =
    OrdStatus { height: 800_000, inscriptions: 9, sat_index: true, inscription_index: true };

/// Runs one round over `t`, the server having `items`, up to its pause. Where
/// `break_rank` is a category, ranks in it cannot be recorded.
fn round(t: &mut Tables, items: &[(&str, u64)], break_rank: Option<CategoryId>) -> (Pause, Vec<String>) {
    let (mut state, mut action) = IngestState::start();
    let mut log = vec![];
    loop {
        let event = match action {
            IngestAction::FetchStatus => IngestEvent::Status { status: Some(READY) },
            IngestAction::OpenDb => IngestEvent::Opened { ok: true },
            IngestAction::ReadCursor => IngestEvent::Cursor {
                next: db_get_next_inscription_number(t.cursor.as_ref().unwrap()).ok(),
            },
            IngestAction::FetchInscription { n } => {
                let body = match items.get(n as usize) {
                    Some((id, sat)) => format!("{{\"id\": \"{id}\", \"sat\": {sat}}}"),
                    None => "null".to_string(),
                };
                IngestEvent::Inscription { fetched: fetched_inscription(body.as_bytes()) }
            }
            IngestAction::MarkProcessed { n, inscription_id } => {
                log.push(format!("mark {n} {inscription_id}"));
                IngestEvent::Marked { ok: t.execute(db_mark_processed(n, &inscription_id)) }
            }
            IngestAction::RecordRank { category, inscription_id } => {
                log.push(format!("rank {} {inscription_id}", category.as_str()));
                let ok = break_rank != Some(category) && t.record(category.as_str(), &inscription_id).is_some();
                IngestEvent::Ranked { ok }
            }
            IngestAction::SetCursor { next } => {
                log.push(format!("cursor {next}"));
                IngestEvent::CursorSet { ok: t.execute(db_set_next_inscription_number(next)) }
            }
            IngestAction::Sleep { pause } => {
                if !matches!(state, IngestState::AwaitRankPause { .. }) {
                    return (pause, log);
                }
                assert_eq!(pause, Pause::Poll);
                log.push("pause".to_string());
                IngestEvent::Woken
            }
        };
        assert!(state.fits(&event));
        (state, action) = state.step(event);
    }
}

#[test]
fn a_new_database_is_filled() {
    let t = Tables::new();
    assert_eq!(t.cursor.as_deref(), Some("0"));
    assert_eq!(
        t.rows(),
        vec![("block9".to_string(), 0), ("palindrome".to_string(), 0), ("trump_casascius".to_string(), 0)]
    );
    assert!(t.ranks.is_empty() && t.processed.is_empty());
}

#[test]
fn filling_again_changes_nothing() {
    let mut t = Tables::new();
    t.record("block9", "a");
    t.execute(db_set_next_inscription_number(7));
    let before = t.clone();
    for s in db_init() {
        t.execute(s);
    }
    assert_eq!(t, before);
}

#[test]
fn cursors_read_back() {
    let mut t = Tables::new();
    for n in [0, 1, 41, u64::MAX] {
        t.execute(db_set_next_inscription_number(n));
        assert_eq!(db_get_next_inscription_number(t.cursor.as_ref().unwrap()).unwrap(), n);
    }
    let error = db_get_next_inscription_number("seven").unwrap_err();
    assert_eq!(error.message(), "meta.next_inscription_number must be u64");
}

#[test]
fn ranks_go_up_by_one() {
    let mut t = Tables::new();
    assert_eq!(t.record("block9", "a"), Some(1));
    assert_eq!(t.record("block9", "b"), Some(2));
    assert_eq!(t.record("palindrome", "b"), Some(1));
    assert_eq!(t.record("block9", "c"), Some(3));
    assert_eq!(t.counts["block9"], 3);
    assert_eq!(t.counts["palindrome"], 1);
}

#[test]
fn a_rank_is_recorded_once() {
    let mut t = Tables::new();
    t.record("block9", "a");
    t.record("block9", "b");
    let before = t.clone();
    assert_eq!(t.record("block9", "a"), Some(1));
    assert_eq!(t, before);
}

#[test]
fn recording_without_a_count_gives_up() {
    let mut t = Tables::new();
    let before = t.clone();
    assert_eq!(t.record("nibbles", "a"), None);
    assert_eq!(t, before);
}

#[test]
fn recorder_tells_answers_that_do_not_fit() {
    let (mut r, _) = RankRecorder::start("block9", "a");
    assert!(!r.fits(RankEvent::Committed));
    assert!(!r.fits(RankEvent::Count { count: 0 }));
    assert!(matches!(r.step(RankEvent::Rank { rank: None }), RankAction::BeginAndReadCount));
    assert!(!r.fits(RankEvent::Count { count: i64::MAX }));
    assert!(matches!(r.step(RankEvent::Count { count: 41 }), RankAction::WriteAndCommit { .. }));
    assert_eq!(r.stage, RankStage::AwaitCommit { rank: 42 });
    assert!(matches!(r.step(RankEvent::Failed), RankAction::GiveUp));
    assert!(!r.fits(RankEvent::Failed));
}

#[test]
fn stored_ranks_are_read_by_their_bits() {
    assert_eq!(db_get_rank(None), None);
    assert_eq!(db_get_rank(Some(3)), Some(3));
    assert_eq!(db_get_rank(Some(-1)), Some(u64::MAX));
    for i in [0, 1, -1, i64::MAX, i64::MIN] {
        assert_eq!(to_unsigned(i), i as u64);
        assert_eq!(to_signed(to_unsigned(i)), i);
    }
    match db_mark_processed(u64::MAX, "a") {
        Statement::MarkProcessed { number, inscription_id } => assert_eq!((number, inscription_id.as_str()), (-1, "a")),
        _ => panic!("not a note"),
    }
}

#[test]
fn a_round_works_through_one_inscription() {
    let mut t = Tables::new();
    let items = [("a", 45_000_000_054)];
    let (pause, log) = round(&mut t, &items, None);
    assert_eq!(pause, Pause::Millis { millis: 50 });
    assert_eq!(log, vec!["mark 0 a", "rank block9 a", "rank palindrome a", "cursor 1"]);
    assert_eq!(t.cursor.as_deref(), Some("1"));
    assert_eq!(t.processed[&0], "a");
    assert_eq!((t.rank("block9", "a"), t.rank("palindrome", "a")), (Some(1), Some(1)));
    assert_eq!(t.rank("trump_casascius", "a"), None);
}

#[test]
fn ranks_are_places_in_the_order_of_the_numbers() {
    let mut t = Tables::new();
    let items = [("a", 11), ("b", 12), ("c", 215_041_383_140_512), ("d", 215_041_400_000_000), ("e", 22)];
    for _ in 0..items.len() {
        round(&mut t, &items, None);
    }
    assert_eq!(t.cursor.as_deref(), Some("5"));
    let ranks = |c: &str| -> Vec<Option<i64>> { items.iter().map(|(id, _)| t.rank(c, id)).collect() };
    assert_eq!(ranks("palindrome"), vec![Some(1), None, Some(2), None, Some(3)]);
    assert_eq!(ranks("trump_casascius"), vec![None, None, Some(1), Some(2), None]);
    assert_eq!(ranks("block9"), vec![None; 5]);
    assert_eq!(t.counts["palindrome"], 3);
    assert_eq!(t.processed.values().cloned().collect::<String>(), "abcde");
}

#[test]
fn an_inscription_that_is_not_there_is_waited_for() {
    let mut t = Tables::new();
    let before = t.clone();
    assert_eq!(round(&mut t, &[], None), (Pause::Poll, vec![]));
    assert_eq!(t, before);
}

#[test]
fn working_through_an_inscription_again_changes_nothing() {
    let mut t = Tables::new();
    let items = [("a", 11), ("b", 22)];
    round(&mut t, &items, None);
    round(&mut t, &items, None);
    let before = t.clone();
    t.execute(db_set_next_inscription_number(1));
    round(&mut t, &items, None);
    assert_eq!(t, before);
}

#[test]
fn a_failed_recording_does_not_hold_the_others_up() {
    let mut t = Tables::new();
    let items = [("a", 45_000_000_054)];
    let (_, log) = round(&mut t, &items, Some(CategoryId::Block9));
    assert_eq!(log, vec!["mark 0 a", "rank block9 a", "pause", "rank palindrome a", "cursor 1"]);
    assert_eq!((t.rank("block9", "a"), t.rank("palindrome", "a")), (None, Some(1)));
}

/// The pause that follows `event` in `state`.
fn pause_after(state: IngestState, event: IngestEvent) -> Pause {
    assert!(state.fits(&event));
    match state.step(event) {
        (IngestState::AwaitRound, IngestAction::Sleep { pause }) => pause,
        _ => panic!("no pause"),
    }
}

#[test]
fn the_server_has_to_be_ready() {
    for status in [
        None,
        Some(OrdStatus { sat_index: false, ..READY }),
        Some(OrdStatus { inscription_index: false, ..READY }),
        Some(OrdStatus { height: 767_429, ..READY }),
    ] {
        assert_eq!(pause_after(IngestState::AwaitStatus, IngestEvent::Status { status }), Pause::Poll);
    }
    let low = Some(OrdStatus { height: 767_430, ..READY });
    let (state, action) = IngestState::AwaitStatus.step(IngestEvent::Status { status: low });
    assert!(matches!((state, action), (IngestState::AwaitDb, IngestAction::OpenDb)));
}

#[test]
fn failures_pause_the_round() {
    let marked = || IngestState::AwaitMarked { n: 0, inscription_id: "a".to_string(), sat: 12 };
    assert_eq!(pause_after(IngestState::AwaitDb, IngestEvent::Opened { ok: false }), Pause::Poll);
    assert_eq!(pause_after(IngestState::AwaitCursor, IngestEvent::Cursor { next: None }), Pause::Poll);
    assert_eq!(pause_after(marked(), IngestEvent::Marked { ok: false }), Pause::Poll);
    assert_eq!(pause_after(IngestState::AwaitCursorSet, IngestEvent::CursorSet { ok: false }), Pause::Poll);
    for (fetched, pause) in [
        (Fetched::Failed, Pause::Poll),
        (Fetched::Absent, Pause::Poll),
        (Fetched::Malformed { error: ExtractError::MissingId }, Pause::Millis { millis: 10_000 }),
    ] {
        let state = IngestState::AwaitInscription { n: 3 };
        assert_eq!(pause_after(state, IngestEvent::Inscription { fetched }), pause);
    }
    let (state, action) = IngestState::AwaitRound.step(IngestEvent::Woken);
    assert!(matches!((state, action), (IngestState::AwaitStatus, IngestAction::FetchStatus)));
}

#[test]
fn the_cursor_cannot_go_past_the_last_number() {
    let last = IngestState::AwaitMarked { n: u64::MAX, inscription_id: "a".to_string(), sat: 12 };
    assert!(!last.fits(&IngestEvent::Marked { ok: true }));
    assert!(last.fits(&IngestEvent::Marked { ok: false }));
    assert!(!last.fits(&IngestEvent::Woken));
    let ranked = IngestState::AwaitMarked { n: u64::MAX, inscription_id: "a".to_string(), sat: 11 };
    assert!(ranked.fits(&IngestEvent::Marked { ok: true }));
}

#[test]
fn counts_are_told_by_name() {
    let rows = vec![("b".to_string(), 5), ("a".to_string(), -1), ("c".to_string(), 0), ("b".to_string(), 6)];
    let counts = db_get_category_counts(rows);
    assert_eq!(
        counts.entries(),
        &vec![("a".to_string(), u64::MAX), ("b".to_string(), 6), ("c".to_string(), 0)]
    );
    assert_eq!((counts.get("a"), counts.get("b"), counts.get("d")), (Some(u64::MAX), Some(6), None));
    assert_eq!(CategoryCounts::none().get("a"), None);
    assert!(CategoryCounts::none().entries().is_empty());
}

#[test]
fn daemon_settings_have_defaults() {
    let none = DaemonEnv { bind_addr: None, ord_base_url: None, poll_interval_secs: None, db_path: None };
    let s = settings_from_env(none);
    assert_eq!(s.bind_addr, "127.0.0.1:8090");
    assert_eq!(s.ord_base_url, "http://127.0.0.1:8083");
    assert_eq!(s.poll_interval_secs, 5);
    assert_eq!(s.db_path, "/var/lib/rarerankd/rarerankd.sqlite");
    let s = settings_from_env(DaemonEnv {
        bind_addr: Some("0.0.0.0:1".to_string()),
        ord_base_url: Some("http://h".to_string()),
        poll_interval_secs: Some("60".to_string()),
        db_path: Some("db".to_string()),
    });
    assert_eq!((s.bind_addr.as_str(), s.ord_base_url.as_str()), ("0.0.0.0:1", "http://h"));
    assert_eq!((s.poll_interval_secs, s.db_path.as_str()), (60, "db"));
}

#[test]
fn status_tells_what_could_be_read() {
    let none = status(None, None);
    assert_eq!((none.ord, none.next_inscription_number), (None, 0));
    assert!(none.category_counts.entries().is_empty());
    let t = Tables::new();
    let read = StatusRead {
        next_inscription_number: Some(7),
        category_counts: Some(db_get_category_counts(t.rows())),
    };
    let some = status(Some(READY), Some(read));
    assert_eq!((some.ord, some.next_inscription_number), (Some(READY), 7));
    assert_eq!(some.category_counts.entries().len(), 3);
    let partly = status(None, Some(StatusRead { next_inscription_number: None, category_counts: None }));
    assert_eq!(partly.next_inscription_number, 0);
    assert!(partly.category_counts.entries().is_empty());
}

#[test]
fn unknown_categories_are_bad_requests() {
    assert_eq!(rarerank_category("palindrome").unwrap(), CategoryId::Palindrome);
    let reply = rarerank_category("nope").unwrap_err();
    assert_eq!(reply.status_code(), 400);
    match reply {
        RareRankReply::BadRequest { message } => assert_eq!(message, "unknown category_id `nope`"),
        other => panic!("{other:?}"),
    }
}

/// The answer to a question for the rank of `id` in the category.
fn ask(t: &Tables, category: CategoryId, id: &str) -> RareRankReply {
    let lookup = RankLookup::Read {
        rank: db_get_rank(t.rank(category.as_str(), id)),
        counts: db_get_category_counts(t.rows()),
    };
    get_rarerank(category, id.to_string(), lookup)
}

#[test]
fn ranks_are_answered_with_the_total() {
    let mut t = Tables::new();
    for id in ["a", "b", "c"] {
        t.record("block9", id);
    }
    let reply = ask(&t, CategoryId::Block9, "b");
    assert_eq!(reply.status_code(), 200);
    match reply {
        RareRankReply::Found { response } => {
            assert_eq!((response.category_id.as_str(), response.inscription_id.as_str()), ("block9", "b"));
            assert_eq!((response.rank, response.total), (2, 3));
        }
        other => panic!("{other:?}"),
    }
}

#[test]
fn answers_tell_the_place() {
    let mut t = Tables::new();
    let items = [("a", 11), ("b", 12), ("c", 22), ("d", 45_000_000_054)];
    for _ in 0..items.len() {
        round(&mut t, &items, None);
    }
    for (id, place) in [("a", Some(1)), ("b", None), ("c", Some(2)), ("d", Some(3))] {
        match (ask(&t, CategoryId::Palindrome, id), place) {
            (RareRankReply::Found { response }, Some(place)) => {
                assert_eq!((response.inscription_id.as_str(), response.rank, response.total), (id, place, 3));
            }
            (RareRankReply::NotFound, None) => {}
            other => panic!("{other:?}"),
        }
    }
}

#[test]
fn inscriptions_without_a_rank_are_not_found() {
    let mut t = Tables::new();
    t.record("block9", "a");
    for (category, id) in [(CategoryId::Palindrome, "a"), (CategoryId::Block9, "b")] {
        let reply = ask(&t, category, id);
        assert!(matches!(reply, RareRankReply::NotFound));
        assert_eq!(reply.status_code(), 404);
    }
}

#[test]
fn failures_of_the_database_are_server_errors() {
    let lookup = RankLookup::Failed { message: "open sqlite db".to_string() };
    let reply = get_rarerank(CategoryId::Block9, "a".to_string(), lookup);
    assert_eq!(reply.status_code(), 500);
    assert!(matches!(reply, RareRankReply::ServerError { message } if message == "open sqlite db"));
}

#[test]
fn a_category_without_a_count_has_a_total_of_zero() {
    let lookup = RankLookup::Read { rank: Some(4), counts: CategoryCounts::none() };
    match get_rarerank(CategoryId::Block9, "a".to_string(), lookup) {
        RareRankReply::Found { response } => assert_eq!((response.rank, response.total), (4, 0)),
        other => panic!("{other:?}"),
    }
}
