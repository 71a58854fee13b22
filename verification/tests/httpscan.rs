use rarerankd::httpscan::finder_settings_from_env;
use rarerankd::httpscan::judge_sent;
use rarerankd::httpscan::read_inscription;
use rarerankd::httpscan::reported_inscriptions;
use rarerankd::httpscan::Finder;
use rarerankd::httpscan::FinderEnv;
use rarerankd::httpscan::HitCount;
use rarerankd::httpscan::Plan;
use rarerankd::httpscan::Sent;
use rarerankd::httpscan::Verdict;
use rarerankd::httpscan::CAUGHT_UP_WAIT_SECS;
use rarerankd::httpscan::EMPTY_WAIT_SECS;
use rarerankd::ord::OrdError;

fn value(text: &str) -> serde_json::Value {
    serde_json::from_str(text).unwrap()
}

fn no_env() -> FinderEnv {
    FinderEnv { ord_base_url: None, concurrency: None, batch: None, start: None, hits_path: None, first_path: None }
}

#[test]
fn search_settings_have_defaults() {
    let s = finder_settings_from_env(no_env());
    assert_eq!(s.ord_base_url, "http://127.0.0.1:8083");
    assert_eq!(s.concurrency, 20);
    assert_eq!(s.batch, 2000);
    assert_eq!(s.start_n, 0);
    assert_eq!(s.hits_path, "/var/lib/trumpfind/trump_hits.jsonl");
    assert_eq!(s.first_path, "/var/lib/trumpfind/trump_first.json");
    assert_eq!((EMPTY_WAIT_SECS, CAUGHT_UP_WAIT_SECS), (5, 10));
}

#[test]
fn search_settings_follow_the_environment() {
    let s = finder_settings_from_env(FinderEnv {
        ord_base_url: Some("http://h".to_string()),
        concurrency: Some("4".to_string()),
        batch: Some("x".to_string()),
        start: Some("77".to_string()),
        hits_path: Some("h".to_string()),
        first_path: Some("f".to_string()),
    });
    assert_eq!(s.ord_base_url, "http://h");
    assert_eq!((s.concurrency, s.batch, s.start_n), (4, 2000, 77));
    assert_eq!((s.hits_path.as_str(), s.first_path.as_str()), ("h", "f"));
}

#[test]
fn reported_inscriptions_default_to_none() {
    assert_eq!(reported_inscriptions(b"{\"inscriptions\": 12}"), Ok(12));
    assert_eq!(reported_inscriptions(b"{\"inscriptions\": \"12\"}"), Ok(0));
    assert_eq!(reported_inscriptions(b"[]"), Ok(0));
    assert_eq!(reported_inscriptions(b"{"), Err(OrdError::NotJson));
}

#[test]
fn requests_are_judged() {
    assert_eq!(judge_sent(Sent::TimedOut), Verdict::Absent);
    assert_eq!(judge_sent(Sent::Failed), Verdict::Fail);
    assert_eq!(judge_sent(Sent::Answered { code: 404 }), Verdict::Absent);
    assert_eq!(judge_sent(Sent::Answered { code: 200 }), Verdict::ReadBody);
    assert_eq!(judge_sent(Sent::Answered { code: 500 }), Verdict::ReadBody);
}

#[test]
fn inscriptions_are_read_whatever_they_are() {
    assert_eq!(read_inscription(b"null"), Ok(serde_json::Value::Null));
    assert_eq!(read_inscription(b"{\"sat\": 1}"), Ok(value("{\"sat\": 1}")));
    assert_eq!(read_inscription(b"nope"), Err(OrdError::NotJson));
}

#[test]
fn batches_go_up_to_the_last_inscription() {
    let mut f = Finder::new(0, 2000);
    assert_eq!(f.plan(0), Plan::Empty);
    assert_eq!(f.plan(1), Plan::Scan { end_n: 0, max_n: 0 });
    assert_eq!(f.plan(2000), Plan::Scan { end_n: 1999, max_n: 1999 });
    assert_eq!(f.plan(5000), Plan::Scan { end_n: 1999, max_n: 4999 });
    f.finish_batch(1999);
    assert_eq!(f.next_n, 2000);
    assert_eq!(f.plan(5000), Plan::Scan { end_n: 3999, max_n: 4999 });
    f.finish_batch(3999);
    assert_eq!(f.plan(5000), Plan::Scan { end_n: 4999, max_n: 4999 });
    f.finish_batch(4999);
    assert_eq!(f.plan(5000), Plan::CaughtUp { max_n: 4999 });
    assert_eq!(f.plan(5001), Plan::Scan { end_n: 5000, max_n: 5000 });
}

#[test]
fn every_inscription_is_in_one_batch() {
    for batch in 1..6 {
        let mut f = Finder::new(3, batch);
        let mut seen = vec![];
        while let Plan::Scan { end_n, max_n } = f.plan(17) {
            assert_eq!(max_n, 16);
            for n in f.next_n..=end_n {
                seen.push(n);
            }
            f.finish_batch(end_n);
        }
        let all: Vec<u64> = (3..17).collect();
        assert_eq!(seen, all);
    }
}

#[test]
fn hits_are_counted_in_the_window() {
    let mut f = Finder::new(0, 10);
    assert_eq!(f.count(0, None), None);
    assert_eq!(f.count(1, Some(215_041_381_749_580)), None);
    assert_eq!(
        f.count(2, Some(215_041_381_749_581)),
        Some(HitCount { sat: 215_041_381_749_581, total: 1, is_first: true })
    );
    assert_eq!(
        f.count(3, Some(215_041_481_749_580)),
        Some(HitCount { sat: 215_041_481_749_580, total: 2, is_first: false })
    );
    assert_eq!(f.count(4, Some(215_041_481_749_581)), None);
    assert_eq!(f, Finder { next_n: 0, batch: 10, trump_total: 2, first_trump: Some(2) });
}

#[test]
fn a_hit_has_its_records() {
    let mut f = Finder::new(0, 10);
    let answer = value(r#"{"id": "ai0", "sat": 215041400000000, "satpoint": "t:0:1", "height": 800000, "timestamp": 99}"#);
    let found = f.visit(12, Some(answer)).unwrap();
    assert_eq!(found.number, 12);
    assert_eq!(found.id.as_deref(), Some("ai0"));
    assert_eq!(found.count, HitCount { sat: 215_041_400_000_000, total: 1, is_first: true });
    let record = value(
        r#"{"number": 12, "id": "ai0", "sat": 215041400000000, "satpoint": "t:0:1", "height": 800000,
            "timestamp": 99, "trump_total_so_far": 1}"#,
    );
    assert_eq!(found.record, record);
    let first = found.first_record.unwrap();
    assert_eq!(first.get("first_number"), Some(&value("12")));
    assert_eq!(first.get("hit"), Some(&record));
    assert_eq!(first.as_object().unwrap().len(), 2);
}

#[test]
fn what_the_server_does_not_say_is_null() {
    let mut f = Finder::new(0, 10);
    f.count(1, Some(215_041_400_000_000));
    let found = f.visit(2, Some(value(r#"{"sat": 215041400000000, "id": 5, "height": 1.5}"#))).unwrap();
    assert_eq!(found.id, None);
    assert_eq!(
        found.record,
        value(
            r#"{"number": 2, "id": null, "sat": 215041400000000, "satpoint": null, "height": 1.5,
                "timestamp": null, "trump_total_so_far": 2}"#
        )
    );
    assert!(found.first_record.is_none());
    assert!(!found.count.is_first);
    assert_eq!(f.first_trump, Some(1));
}

#[test]
fn what_is_no_hit_changes_nothing() {
    let mut f = Finder::new(0, 10);
    let before = f;
    assert!(f.visit(0, None).is_none());
    assert!(f.visit(1, Some(value("null"))).is_none());
    assert!(f.visit(2, Some(value(r#"{"sat": 215041481749581}"#))).is_none());
    assert!(f.visit(3, Some(value(r#"{"sat": "215041400000000"}"#))).is_none());
    assert_eq!(f, before);
}

#[test]
fn every_hit_is_written_in_order() {
    let mut f = Finder::new(0, 10);
    let mut records = vec![];
    let mut firsts = vec![];
    for (n, sat) in [(0, 7u64), (1, 215_041_381_749_581), (2, 8), (3, 215_041_400_000_000), (4, 215_041_481_749_580)] {
        let answer = value(&format!("{{\"id\": \"i{n}\", \"sat\": {sat}}}"));
        if let Some(found) = f.visit(n, Some(answer)) {
            records.push(found.record);
            firsts.extend(found.first_record);
        }
    }
    let told: Vec<(u64, u64, &str)> = records
        .iter()
        .map(|r| {
            (
                r.get("number").unwrap().as_u64().unwrap(),
                r.get("trump_total_so_far").unwrap().as_u64().unwrap(),
                r.get("id").unwrap().as_str().unwrap(),
            )
        })
        .collect();
    assert_eq!(told, vec![(1, 1, "i1"), (3, 2, "i3"), (4, 3, "i4")]);
    assert_eq!(firsts.len(), 1);
    assert_eq!(firsts[0].get("hit"), Some(&records[0]));
    assert_eq!(f, Finder { next_n: 0, batch: 10, trump_total: 3, first_trump: Some(1) });
}
