use archlab::concurrency::actor::{validate_units, AppError, Reservation, ReserveError, Writer};

/// One `Reserve` command, handled by the writer from start to end.
fn reserve(writer: &mut Writer, product: &str, units: u64) -> Result<Reservation, ReserveError> {
    let snapshot = writer.lookup_for_reserve(product)?;
    writer.reserve(product, units, snapshot)
}

#[test]
fn actor_sequential_reservations_are_correct() {
    let mut writer = Writer::new();
    writer.seed("mug", 10);

    for _ in 0..5 {
        reserve(&mut writer, "mug", 2).expect("should fit");
    }

    assert_eq!(writer.get("mug").unwrap().units, 0);
}

/// Commands reach the writer one at a time, whatever order they were sent in.
#[test]
fn actor_concurrent_reservations_never_oversell() {
    let mut writer = Writer::new();
    writer.seed("mug", 10);

    let results: Vec<_> = (0..10).map(|_| reserve(&mut writer, "mug", 2)).collect();

    let granted = results.iter().filter(|r| r.is_ok()).count() as u64;
    let left = writer.get("mug").unwrap().units;

    assert_eq!(granted, 5);
    assert_eq!(left, 0);
    assert_eq!(granted * 2, 10 - left, "units handed out == units consumed");

    for result in &results {
        if let Err(err) = result {
            assert!(matches!(err, ReserveError::Insufficient { .. }));
        }
    }
}

#[test]
fn actor_unknown_products_are_not_created_by_reserving_them() {
    let mut writer = Writer::new();
    let err = reserve(&mut writer, "ghost", 1).unwrap_err();
    assert!(matches!(err, ReserveError::UnknownProduct(_)));
    assert!(writer.get("ghost").is_none());
}

#[test]
fn the_writer_leaves_the_queue_time_to_the_handle() {
    let mut writer = Writer::new();
    let seeded = writer.seed("mug", 4);
    assert_eq!((seeded.units, seeded.version), (4, 0));
    let r = reserve(&mut writer, "mug", 3).unwrap();
    assert_eq!((r.reserved, r.available, r.version, r.queued_ms), (3, 1, 1, 0));
    match reserve(&mut writer, "mug", 2) {
        Err(ReserveError::Insufficient { available, requested }) => assert_eq!((available, requested), (1, 2)),
        other => panic!("unexpected {other:?}"),
    }
}

#[test]
fn actor_errors_map_to_statuses() {
    assert_eq!(validate_units(0).unwrap_err().status(), 400);
    assert_eq!(AppError::Reserve(ReserveError::Busy).status(), 503);
    assert_eq!(AppError::Reserve(ReserveError::UnknownProduct("x".to_string())).status(), 404);
    assert_eq!(AppError::Reserve(ReserveError::Insufficient { available: 0, requested: 1 }).status(), 422);
}

#[test]
fn a_shed_request_is_told_why() {
    assert_eq!(
        ReserveError::Busy.message(),
        "the stock writer is saturated; this request was shed rather than queued"
    );
    assert_eq!(
        AppError::Reserve(ReserveError::Insufficient { available: 1, requested: 2 }).message(),
        "only 1 unit(s) available, 2 requested"
    );
}
