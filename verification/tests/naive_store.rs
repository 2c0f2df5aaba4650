use archlab::concurrency::naive::{validate_units, AppError, ReserveError, Store};

/// One uninterrupted reservation: read, then write straight away.
fn reserve(store: &mut Store, product: &str, units: u64) -> Result<u64, ReserveError> {
    let snapshot = store.read(product)?;
    store.write_back(product, units, snapshot).map(|r| r.available)
}

#[test]
fn sequential_reservations_are_perfectly_correct() {
    let mut store = Store::new(5);
    store.seed("mug", 10);

    for _ in 0..5 {
        reserve(&mut store, "mug", 2).expect("should fit");
    }

    assert_eq!(store.get("mug").unwrap().units, 0);
    let err = reserve(&mut store, "mug", 1).unwrap_err();
    assert!(matches!(err, ReserveError::Insufficient { .. }));
}

/// Ten callers read before any of them writes, as the think window lets
/// them: every one is told yes, and the row goes down once.
#[test]
fn concurrent_reservations_oversell() {
    let mut store = Store::new(5);
    store.seed("mug", 10);

    let snapshots: Vec<_> = (0..10).map(|_| store.read("mug").unwrap()).collect();
    let results: Vec<_> = snapshots.into_iter().map(|s| store.write_back("mug", 2, s)).collect();

    let granted = results.iter().filter(|r| r.is_ok()).count();
    let left = store.get("mug").unwrap().units;

    assert_eq!(granted, 10, "every caller was told yes");
    assert_eq!(left, 8, "ten writers each computed 10 - 2 from the same stale read");
    assert!(
        granted as u64 * 2 > 10 - left,
        "units handed out ({}) exceed units actually consumed ({})",
        granted as u64 * 2,
        10 - left
    );
}

/// With no think window the reads and writes do not interleave.
#[test]
fn without_a_think_window_the_race_hides() {
    let mut store = Store::new(0);
    store.seed("mug", 10);

    let results: Vec<_> = (0..10).map(|_| reserve(&mut store, "mug", 2)).collect();

    let granted = results.iter().filter(|r| r.is_ok()).count();
    assert_eq!(granted, 5, "looks fine; the window was just too small to see");
    assert_eq!(store.think_ms(), 0);
}

#[test]
fn a_write_bumps_the_version_and_reports_what_is_left() {
    let mut store = Store::new(0);
    assert_eq!(store.seed("mug", 10).version, 0);
    let snapshot = store.read("mug").unwrap();
    let r = store.write_back("mug", 3, snapshot).unwrap();
    assert_eq!((r.reserved, r.available, r.version), (3, 7, 1));
    let e = store.get("mug").unwrap();
    assert_eq!((e.units, e.version), (7, 1));
}

#[test]
fn naive_unknown_products_are_not_created_by_reserving_them() {
    let mut store = Store::new(0);
    match store.read("ghost") {
        Err(ReserveError::UnknownProduct(name)) => assert_eq!(name, "ghost"),
        other => panic!("unexpected {other:?}"),
    }
    assert!(store.get("ghost").is_none());
    match reserve(&mut store, "ghost", 1) {
        Err(ReserveError::UnknownProduct(_)) => {}
        other => panic!("unexpected {other:?}"),
    }
}

#[test]
fn naive_errors_map_to_statuses() {
    let e = validate_units(0).unwrap_err();
    assert_eq!(e.status(), 400);
    match e {
        AppError::Validation(m) => assert_eq!(m, "`units` must be greater than zero"),
        other => panic!("unexpected {other:?}"),
    }
    assert!(validate_units(1).is_ok());
    assert_eq!(AppError::Reserve(ReserveError::UnknownProduct("x".to_string())).status(), 404);
    assert_eq!(AppError::Reserve(ReserveError::Insufficient { available: 1, requested: 2 }).status(), 422);
}

#[test]
fn naive_errors_read_as_sentences() {
    assert_eq!(ReserveError::UnknownProduct("mug".to_string()).message(), "unknown product `mug`");
    assert_eq!(
        ReserveError::Insufficient { available: 3, requested: 12 }.message(),
        "only 3 unit(s) available, 12 requested"
    );
    assert_eq!(validate_units(0).unwrap_err().message(), "validation error: `units` must be greater than zero");
    assert_eq!(AppError::Reserve(ReserveError::UnknownProduct("x".to_string())).message(), "unknown product `x`");
}
