use rarerankd::inscription::inscription_id_string;
use rarerankd::jsonl::jsonl_line;
use rarerankd::options::ScanOptions;
use rarerankd::redbscan::first_hit_record;
use rarerankd::redbscan::Entry;
use rarerankd::redbscan::Item;
use rarerankd::redbscan::Scanner;
use rarerankd::redbscan::PROGRESS_EVERY;
use rarerankd::satpoints::list_satpoint_table_names;
use rarerankd::satpoints::Probe;
use rarerankd::satpoints::TableAnswer;

fn value(text: &str) -> serde_json::Value {
    serde_json::from_str(text).unwrap()
}

fn options(first_only: bool, max_hits: Option<u64>) -> ScanOptions {
    ScanOptions {
        first_only,
        max_hits,
        db_path: String::new(),
        start_n: 0,
        sat_start: 100,
        sat_end_exclusive: 200,
        hits_path: String::new(),
        first_path: String::new(),
        first_hits_path: String::new(),
    }
}

fn item(number: i32, sat: Option<u64>) -> Item {
    let entry = Entry { height: 800_000, id: (number as u128, 0, 1), sat, timestamp: 1_700_000_000 };
    Item { number, sequence: number as u32 + 1000, entry: Some(entry) }
}

/// Hits under the numbers 2, 4 and 5.
fn items() -> Vec<Item> {
    vec![
        item(1, Some(99)),
        item(2, Some(100)),
        Item { number: 3, sequence: 3, entry: None },
        item(4, Some(150)),
        item(5, Some(199)),
        item(6, Some(200)),
        item(7, None),
    ]
}

#[derive(Debug, PartialEq, Default)]
struct Run {
    appended: Vec<(u64, u64)>,
    firsts: Vec<u64>,
    first_hits: Vec<i32>,
    stopped_at: Option<i32>,
    scanned: u64,
    hits: u64,
}

/// Goes through the items as a scan does. A hit is told by its place and its
/// number.
fn run(options: &ScanOptions, first_exists: bool) -> Run {
    let mut s = Scanner::new(options, first_exists);
    let mut r = Run::default();
    for item in items() {
        let visit = s.visit(item);
        if let Some(hit) = visit.hit {
            let number = hit.record.get("inscription_number").unwrap().as_u64().unwrap();
            if hit.append {
                r.appended.push((hit.index, number));
            }
            if hit.write_first {
                r.firsts.push(number);
            }
            if hit.write_first_hit {
                r.first_hits.push(item.number);
            }
            if hit.stop {
                r.stopped_at = Some(item.number);
                break;
            }
        }
    }
    r.scanned = s.scanned;
    r.hits = s.hits;
    r
}

#[test]
fn a_full_scan_lists_every_hit() {
    let all = Run { appended: vec![(1, 2), (2, 4), (3, 5)], firsts: vec![2], scanned: 6, hits: 3, ..Run::default() };
    assert_eq!(run(&options(false, None), false), all);
    assert_eq!(run(&options(false, Some(0)), false), all);
}

#[test]
fn the_first_hit_is_written_unless_it_is_there() {
    assert_eq!(run(&options(false, None), true).firsts, Vec::<u64>::new());
}

#[test]
fn first_only_writes_one_record_and_stops() {
    assert_eq!(
        run(&options(true, Some(1)), false),
        Run { firsts: vec![2], first_hits: vec![2], stopped_at: Some(2), scanned: 2, hits: 1, ..Run::default() }
    );
}

#[test]
fn a_scan_stops_at_its_largest_number_of_hits() {
    assert_eq!(
        run(&options(false, Some(2)), false),
        Run {
            appended: vec![(1, 2), (2, 4)],
            firsts: vec![2],
            first_hits: vec![2],
            stopped_at: Some(4),
            scanned: 3,
            hits: 2,
        }
    );
    assert_eq!(run(&options(false, Some(1)), false).stopped_at, Some(2));
    assert_eq!(run(&options(false, Some(3)), false).stopped_at, Some(5));
    assert_eq!(run(&options(false, Some(4)), false).stopped_at, None);
    assert_eq!(run(&options(false, Some(4)), false).first_hits, vec![2]);
}

#[test]
fn a_hit_has_its_record() {
    let mut s = Scanner::new(&options(false, None), false);
    let item = Item {
        number: -5,
        sequence: 77,
        entry: Some(Entry { height: 9, id: (1, 2, 3), sat: Some(123), timestamp: 11 }),
    };
    let hit = s.visit(item).hit.unwrap();
    let id = inscription_id_string((1, 2, 3));
    assert_eq!((hit.index, hit.sat, hit.inscription_id.as_str()), (1, 123, id.as_str()));
    assert_eq!(
        hit.record,
        value(&format!(
            "{{\"category\": \"trump_casascius\", \"hit_index\": 1, \"inscription_number\": -5, \"sequence_number\": 77, \
             \"inscription_id\": \"{id}\", \"sat\": 123, \"height\": 9, \"timestamp\": 11}}"
        ))
    );
    assert_eq!(value(&jsonl_line(&hit.record)), hit.record);
    assert_eq!(
        jsonl_line(&hit.record),
        format!(
            "{{\"category\":\"trump_casascius\",\"height\":9,\"hit_index\":1,\"inscription_id\":\"{id}\",\
             \"inscription_number\":-5,\"sat\":123,\"sequence_number\":77,\"timestamp\":11}}\n"
        )
    );
}

#[test]
fn progress_is_told_now_and_then() {
    assert_eq!(PROGRESS_EVERY, 200_000);
    let mut s = Scanner::new(&options(false, None), false);
    s.scanned = 199_998;
    assert!(!s.visit(item(1, None)).progress);
    assert!(!s.visit(Item { number: 2, sequence: 2, entry: None }).progress);
    assert!(s.visit(item(3, Some(150))).progress);
    assert!(!s.visit(item(4, None)).progress);
    assert_eq!(s.scanned, 200_001);
}

#[test]
fn the_first_hit_has_its_satpoint() {
    let r = first_hit_record(item(2, Some(100)), "t:0:5".to_string()).unwrap();
    assert_eq!((r.hit_index, r.inscription_number, r.sequence_number), (1, 2, 1002));
    assert_eq!((r.sat, r.height, r.timestamp), (100, 800_000, 1_700_000_000));
    assert_eq!((r.satpoint.as_str(), r.category.as_str()), ("t:0:5", "trump_casascius"));
    assert_eq!(r.inscription_id, inscription_id_string((2, 0, 1)));
    let negative = Item { number: -1, ..item(2, Some(100)) };
    assert_eq!(first_hit_record(negative, String::new()).unwrap().inscription_number, u64::MAX);
    assert!(first_hit_record(item(2, None), String::new()).is_none());
    assert!(first_hit_record(Item { number: 2, sequence: 2, entry: None }, String::new()).is_none());
}

#[test]
fn tables_of_satpoints_are_listed_in_order() {
    let names: Vec<String> = [
        "SEQUENCE_NUMBER_TO_SATPOINT",
        "HEIGHT_TO_BLOCK_HEADER",
        "satpoint_old",
        "SATPOINT_TO_SEQUENCE_NUMBER",
        "SAT_TO_SATPOINT",
        "SAT_TO_SATPOINT",
        "SAT_TO_SEQUENCE_NUMBER",
    ]
    .iter()
    .map(|n| n.to_string())
    .collect();
    assert_eq!(
        list_satpoint_table_names(&names),
        vec![
            "SATPOINT_TO_SEQUENCE_NUMBER",
            "SAT_TO_SATPOINT",
            "SAT_TO_SATPOINT",
            "SEQUENCE_NUMBER_TO_SATPOINT",
            "satpoint_old",
        ]
    );
    assert_eq!(list_satpoint_table_names(&[]), Vec::<String>::new());
}

/// Asks the tables as long as one is to be asked.
fn probe(answers: &[TableAnswer]) -> (Probe, usize) {
    let mut asked = 0;
    let mut p = Probe::start(answers.len());
    while let Probe::Ask { index } = p {
        asked += 1;
        p = Probe::answered(answers.len(), index, answers[index]);
    }
    (p, asked)
}

#[test]
fn the_first_table_with_the_satpoint_counts() {
    let holds = |offset: u64| TableAnswer::Holds { satpoint: ((0, 0, 1), offset) };
    let (p, asked) = probe(&[TableAnswer::Absent, TableAnswer::Failed, holds(5), holds(6)]);
    match p {
        Probe::Found { satpoint } => assert_eq!(satpoint, format!("{}:1:5", "00".repeat(32))),
        other => panic!("{other:?}"),
    }
    assert_eq!(asked, 3);
}

#[test]
fn a_satpoint_may_not_be_found() {
    assert!(matches!(probe(&[]), (Probe::NoTables, 0)));
    assert!(matches!(probe(&[TableAnswer::Failed]), (Probe::Exhausted, 1)));
    assert!(matches!(probe(&[TableAnswer::Absent, TableAnswer::Failed]), (Probe::Exhausted, 2)));
}
