use rarerankd::options::parse_command;
use rarerankd::options::Command;
use rarerankd::options::OptionsError;
use rarerankd::options::ScanEnv;
use rarerankd::options::ScanOptions;

fn args(texts: &[&str]) -> Vec<String> {
    texts.iter().map(|t| t.to_string()).collect()
}

fn no_env() -> ScanEnv {
    ScanEnv {
        db_path: None,
        start: None,
        trump_sat_start: None,
        trump_sat_end_exclusive: None,
        hits_path: None,
        first_path: None,
        first_hits_path: None,
    }
}

fn full_env() -> ScanEnv {
    let some = |t: &str| Some(t.to_string());
    ScanEnv {
        db_path: some("env.redb"),
        start: some("-3"),
        trump_sat_start: some("100"),
        trump_sat_end_exclusive: some("200"),
        hits_path: some("env_hits"),
        first_path: some("env_first"),
        first_hits_path: some("env_first_hits"),
    }
}

fn scan(texts: &[&str], env: ScanEnv) -> ScanOptions {
    match parse_command(&args(texts), env) {
        Ok(Command::Scan { options }) => options,
        other => panic!("{other:?}"),
    }
}

fn message(texts: &[&str], env: ScanEnv) -> String {
    match parse_command(&args(texts), env) {
        Err(e) => e.message(),
        other => panic!("{other:?}"),
    }
}

#[test]
fn a_scan_has_defaults() {
    let o = scan(&["prog"], no_env());
    assert!(!o.first_only);
    assert_eq!(o.max_hits, None);
    assert_eq!(o.db_path, "/var/lib/ord/index.redb");
    assert_eq!(o.start_n, 0);
    assert_eq!(o.sat_start, 215_041_381_749_581);
    assert_eq!(o.sat_end_exclusive, 215_041_481_749_581);
    assert_eq!(o.hits_path, "/var/lib/trumpfind/trump_hits.jsonl");
    assert_eq!(o.first_path, "/var/lib/trumpfind/trump_first.json");
    assert_eq!(o.first_hits_path, "trump_hits_first.jsonl");
}

#[test]
fn the_environment_beats_the_defaults() {
    let o = scan(&["prog"], full_env());
    assert_eq!((o.db_path.as_str(), o.start_n), ("env.redb", -3));
    assert_eq!((o.sat_start, o.sat_end_exclusive), (100, 200));
    assert_eq!(
        (o.hits_path.as_str(), o.first_path.as_str(), o.first_hits_path.as_str()),
        ("env_hits", "env_first", "env_first_hits")
    );
}

#[test]
fn options_beat_the_environment() {
    let given = [
        "prog", "--db-path", "a", "--start", "9", "--trump-sat-start", "1", "--trump-sat-end-exclusive", "2",
        "--hits-path", "b", "--first-path", "c", "--first-hits-path", "d",
    ];
    for env in [no_env(), full_env()] {
        let o = scan(&given, env);
        assert_eq!((o.db_path.as_str(), o.start_n), ("a", 9));
        assert_eq!((o.sat_start, o.sat_end_exclusive), (1, 2));
        assert_eq!((o.hits_path.as_str(), o.first_path.as_str(), o.first_hits_path.as_str()), ("b", "c", "d"));
    }
}

#[test]
fn help_comes_before_anything_else() {
    for flag in ["--help", "-h"] {
        let r = parse_command(&args(&["prog", "--start", "x", flag]), no_env());
        assert!(matches!(r, Ok(Command::Help)));
    }
}

#[test]
fn first_only_looks_for_one_hit() {
    assert_eq!(scan(&["prog", "--max-hits", "7"], no_env()).max_hits, Some(7));
    assert_eq!(scan(&["prog", "--max-hits", "0"], no_env()).max_hits, Some(0));
    let o = scan(&["prog", "--max-hits", "7", "--first-only"], no_env());
    assert!(o.first_only);
    assert_eq!(o.max_hits, Some(1));
}

#[test]
fn a_bad_number_of_hits_is_told_even_with_first_only() {
    assert_eq!(message(&["prog", "--first-only", "--max-hits", "x"], no_env()), "invalid --max-hits: x");
}

#[test]
fn bad_numbers_are_told_in_order() {
    let mut given = vec![
        "prog", "--trump-sat-end-exclusive", "-4", "--trump-sat-start", "-3", "--start", "1.5", "--max-hits", "-1",
    ];
    assert_eq!(message(&given, no_env()), "invalid --max-hits: -1");
    given.truncate(7);
    assert_eq!(message(&given, no_env()), "invalid --start: 1.5");
    given.truncate(5);
    assert_eq!(message(&given, no_env()), "invalid --trump-sat-start: -3");
    given.truncate(3);
    assert_eq!(message(&given, no_env()), "invalid --trump-sat-end-exclusive: -4");
}

#[test]
fn a_bad_window_in_the_environment_is_told_and_a_bad_start_is_not() {
    let mut env = full_env();
    env.start = Some("x".to_string());
    assert_eq!(scan(&["prog"], env).start_n, 0);
    let mut env = full_env();
    env.trump_sat_start = Some("x".to_string());
    assert_eq!(message(&["prog"], env), "invalid TRUMPFIND_TRUMP_SAT_START: x");
    let mut env = full_env();
    env.trump_sat_end_exclusive = Some("".to_string());
    assert_eq!(message(&["prog"], env), "invalid TRUMPFIND_TRUMP_SAT_END_EXCLUSIVE: ");
}

#[test]
fn an_empty_window_is_refused() {
    for (start, end) in [("5", "5"), ("6", "5")] {
        let given = ["prog", "--trump-sat-start", start, "--trump-sat-end-exclusive", end];
        let r = parse_command(&args(&given), no_env());
        assert!(matches!(r, Err(OptionsError::BadRange { end_exclusive: 5, .. })));
        assert_eq!(message(&given, no_env()), format!("bad Trump sat range: start={start} end_exclusive=5"));
    }
    assert_eq!(
        scan(&["prog", "--trump-sat-start", "5", "--trump-sat-end-exclusive", "6"], no_env()).sat_end_exclusive,
        6
    );
}
