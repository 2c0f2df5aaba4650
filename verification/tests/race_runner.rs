use archlab::concurrency::race::{
    all_target_urls, classify, next_value, parse_args, parse_count, parse_number, product_names, tally, ArgStream,
    Args, Invocation, Outcome, Report,
};

fn report(units_granted: u64, seeded: u64, left: u64) -> Report {
    Report {
        strategy: "test".to_string(),
        target: "test".to_string(),
        granted: 0,
        conflicts: 0,
        rejected: 0,
        busy: 0,
        errors: 0,
        first_error: None,
        units_granted,
        units_consumed: seeded.saturating_sub(left),
        seeded,
        left,
        p50_ms: 0,
        p99_ms: 0,
        wall_ms: 0,
    }
}

fn stream(items: &[&str]) -> ArgStream {
    ArgStream::new(items.iter().map(|s| s.to_string()).collect())
}

fn run_args(items: &[&str]) -> Args {
    match parse_args(stream(items)) {
        Ok(Invocation::Run(args)) => args,
        Ok(Invocation::Help) => panic!("asked for help"),
        Err(e) => panic!("refused: {e}"),
    }
}

#[test]
fn a_correct_run_oversells_nothing() {
    // 50 callers took 2 units each out of 100, and 100 units left the shelf.
    assert_eq!(report(100, 100, 0).oversold(), 0);
}

#[test]
fn a_lost_update_shows_up_as_units_that_never_left_the_shelf() {
    // 60 callers were each told yes (120 units) but the shelf only went down by 2.
    assert_eq!(report(120, 100, 98).oversold(), 118);
}

#[test]
fn refusing_everybody_is_consistent_even_though_it_is_useless() {
    assert_eq!(report(0, 100, 100).oversold(), 0);
}

#[test]
fn numbers_are_parsed_with_the_flag_named_in_the_error() {
    assert_eq!(parse_number("42", "--stock"), Ok(42));
    assert!(parse_number("lots", "--stock").unwrap_err().contains("--stock"));
}

#[test]
fn a_bad_number_is_quoted_in_the_error() {
    assert_eq!(
        parse_number("lots", "--stock").unwrap_err(),
        "`--stock` must be a number, got \"lots\""
    );
    assert_eq!(parse_number("+7", "--units"), Ok(7));
    assert!(parse_number("-7", "--units").is_err());
    assert!(parse_number("18446744073709551616", "--units").is_err());
    assert_eq!(parse_number("18446744073709551615", "--units"), Ok(u64::MAX));
    assert_eq!(parse_count("12", "--concurrency"), Ok(12));
    assert_eq!(
        parse_count("", "--concurrency").unwrap_err(),
        "`--concurrency` must be a number, got \"\""
    );
}

#[test]
fn a_flag_without_its_value_is_named() {
    let mut raw = stream(&[]);
    assert_eq!(next_value(&mut raw, "--stock").unwrap_err(), "`--stock` needs a value");
    let mut raw = stream(&["9", "--units"]);
    assert_eq!(next_value(&mut raw, "--stock"), Ok("9".to_string()));
    assert_eq!(next_value(&mut raw, "--stock"), Ok("--units".to_string()));
    assert!(next_value(&mut raw, "--stock").is_err());
}

#[test]
fn no_flags_gives_the_defaults() {
    let args = run_args(&[]);
    assert_eq!(args.targets, vec!["http://localhost:3020".to_string()]);
    assert_eq!(args.product, "mug");
    assert_eq!(args.stock, 100);
    assert_eq!(args.concurrency, 60);
    assert_eq!(args.units, 2);
    assert_eq!(args.products, 1);
    assert!(!args.expect_version);
    let d = Args::default();
    assert_eq!(d.targets, args.targets);
    assert_eq!(d.stock, 100);
}

#[test]
fn every_flag_is_read() {
    let args = run_args(&[
        "--target", "http://example:9000//", "--product", "plate", "--stock", "7", "--concurrency", "3",
        "--units", "4", "--products", "5", "--expect-version",
    ]);
    assert_eq!(args.targets, vec!["http://example:9000".to_string()]);
    assert_eq!(args.product, "plate");
    assert_eq!(args.stock, 7);
    assert_eq!(args.concurrency, 3);
    assert_eq!(args.units, 4);
    assert_eq!(args.products, 5);
    assert!(args.expect_version);
}

#[test]
fn target_all_runs_the_four_services() {
    let args = run_args(&["--target", "all"]);
    assert_eq!(args.targets, all_target_urls());
    assert_eq!(
        all_target_urls(),
        vec![
            "http://localhost:3020".to_string(),
            "http://localhost:3021".to_string(),
            "http://localhost:3022".to_string(),
            "http://localhost:3023".to_string(),
        ]
    );
}

#[test]
fn help_wins_wherever_it_stands() {
    assert!(matches!(parse_args(stream(&["--stock", "5", "-h"])), Ok(Invocation::Help)));
    assert!(matches!(parse_args(stream(&["--help", "--bogus"])), Ok(Invocation::Help)));
}

#[test]
fn bad_command_lines_are_refused_with_a_reason() {
    match parse_args(stream(&["--bogus"])) {
        Err(e) => assert_eq!(e, "unknown option `--bogus`"),
        _ => panic!("accepted an unknown option"),
    }
    match parse_args(stream(&["--stock"])) {
        Err(e) => assert_eq!(e, "`--stock` needs a value"),
        _ => panic!("accepted a dangling flag"),
    }
    match parse_args(stream(&["--units", "0"])) {
        Err(e) => assert_eq!(e, "`--concurrency`, `--products` and `--units` must be greater than zero"),
        _ => panic!("accepted zero units"),
    }
    match parse_args(stream(&["--products", "x"])) {
        Err(e) => assert_eq!(e, "`--products` must be a number, got \"x\""),
        _ => panic!("accepted a word for a number"),
    }
}

#[test]
fn statuses_are_classified() {
    assert!(matches!(classify(200), Outcome::Granted));
    assert!(matches!(classify(409), Outcome::Conflict));
    assert!(matches!(classify(422), Outcome::Rejected));
    assert!(matches!(classify(503), Outcome::Busy));
    match classify(500) {
        Outcome::Error(m) => assert_eq!(m, "HTTP 500"),
        other => panic!("500 read as {other:?}"),
    }
    match classify(404) {
        Outcome::Error(m) => assert_eq!(m, "HTTP 404"),
        other => panic!("404 read as {other:?}"),
    }
}

#[test]
fn the_books_count_every_answer() {
    let outcomes = vec![
        Outcome::Granted,
        Outcome::Conflict,
        Outcome::Error("HTTP 500".to_string()),
        Outcome::Granted,
        Outcome::Rejected,
        Outcome::Busy,
        Outcome::Error("refused".to_string()),
        Outcome::Granted,
    ];
    let r = tally("naive".to_string(), "http://x".to_string(), &outcomes, 2, 10, 2, 17, 5, 9, 30);
    assert_eq!(r.strategy, "naive");
    assert_eq!(r.target, "http://x");
    assert_eq!(r.granted, 3);
    assert_eq!(r.conflicts, 1);
    assert_eq!(r.rejected, 1);
    assert_eq!(r.busy, 1);
    assert_eq!(r.errors, 2);
    assert_eq!(r.first_error.as_deref(), Some("HTTP 500"));
    assert_eq!(r.units_granted, 6);
    assert_eq!(r.seeded, 20);
    assert_eq!(r.left, 17);
    assert_eq!(r.units_consumed, 3);
    assert_eq!(r.oversold(), 3);
    assert_eq!((r.p50_ms, r.p99_ms, r.wall_ms), (5, 9, 30));
}

#[test]
fn more_left_than_seeded_consumes_nothing() {
    let r = tally("x".to_string(), "y".to_string(), &vec![], 2, 5, 1, 9, 0, 0, 0);
    assert_eq!(r.units_consumed, 0);
    assert!(r.first_error.is_none());
    assert_eq!(r.oversold(), 0);
}

#[test]
fn product_names_are_numbered_only_when_there_are_several() {
    assert_eq!(product_names("mug", 1), vec!["mug".to_string()]);
    assert_eq!(
        product_names("mug", 3),
        vec!["mug-0".to_string(), "mug-1".to_string(), "mug-2".to_string()]
    );
    let many = product_names("p", 12);
    assert_eq!(many[10], "p-10");
}
