use archlab::concurrency::pessimistic::{validate_units, AppError, LockKey, LockScope, Reservation, ReserveError, Store};

/// One reservation under its lock: nothing else runs between the read and
/// the write.
fn reserve(store: &mut Store, product: &str, units: u64, waited_ms: u64) -> Result<Reservation, ReserveError> {
    let snapshot = store.read(product)?;
    store.write_back(product, units, snapshot, waited_ms)
}

#[test]
fn lock_scope_parses_the_names_people_actually_type() {
    assert_eq!(LockScope::from_env_value("KEY"), Some(LockScope::Key));
    assert_eq!(LockScope::from_env_value(" row "), Some(LockScope::Key));
    assert_eq!(LockScope::from_env_value("global"), Some(LockScope::Global));
    assert_eq!(LockScope::from_env_value("sometimes"), None);
}

#[test]
fn every_scope_name_is_understood() {
    for name in ["key", "row", "product", "Product", "\tKEY\n"] {
        assert_eq!(LockScope::from_env_value(name), Some(LockScope::Key), "{name:?}");
    }
    for name in ["global", "table", "all", " ALL ", "Table"] {
        assert_eq!(LockScope::from_env_value(name), Some(LockScope::Global), "{name:?}");
    }
    for name in ["", "keys", "k e y", "glob"] {
        assert_eq!(LockScope::from_env_value(name), None, "{name:?}");
    }
}

#[test]
fn pessimistic_sequential_reservations_are_correct() {
    let mut store = Store::new(5, LockScope::Key);
    store.seed("mug", 10);

    for _ in 0..5 {
        reserve(&mut store, "mug", 2, 0).expect("should fit");
    }

    assert_eq!(store.get("mug").unwrap().units, 0);
}

/// Ten callers queue on the product's lock, so each reads what the one
/// before it wrote.
#[test]
fn pessimistic_concurrent_reservations_never_oversell() {
    let mut store = Store::new(5, LockScope::Key);
    store.seed("mug", 10);

    let results: Vec<_> = (0..10).map(|_| reserve(&mut store, "mug", 2, 0)).collect();

    let granted = results.iter().filter(|r| r.is_ok()).count() as u64;
    let left = store.get("mug").unwrap().units;

    assert_eq!(granted, 5, "exactly the five that fit");
    assert_eq!(left, 0);
    assert_eq!(granted * 2, 10 - left, "units handed out == units consumed");

    for result in &results {
        if let Err(err) = result {
            assert!(matches!(err, ReserveError::Insufficient { .. }));
        }
    }
}

#[test]
fn per_key_locks_name_the_product() {
    let store = Store::new(100, LockScope::Key);
    match (store.lock_for("mug"), store.lock_for("plate")) {
        (LockKey::Product(a), LockKey::Product(b)) => {
            assert_eq!(a, "mug");
            assert_eq!(b, "plate");
        }
        other => panic!("unexpected {other:?}"),
    }
}

#[test]
fn a_global_lock_is_shared_by_every_product() {
    let store = Store::new(100, LockScope::Global);
    assert!(matches!(store.lock_for("mug"), LockKey::Global));
    assert!(matches!(store.lock_for("plate"), LockKey::Global));
    assert_eq!(store.think_ms(), 100);
}

#[test]
fn the_wait_is_reported_with_the_reservation() {
    let mut store = Store::new(30, LockScope::Key);
    store.seed("mug", 10);
    let r = reserve(&mut store, "mug", 1, 57).unwrap();
    assert_eq!((r.reserved, r.available, r.version, r.waited_ms), (1, 9, 1, 57));
}

#[test]
fn pessimistic_unknown_products_are_not_created_by_reserving_them() {
    let mut store = Store::new(5, LockScope::Global);
    let err = reserve(&mut store, "ghost", 1, 0).unwrap_err();
    assert!(matches!(err, ReserveError::UnknownProduct(_)));
    assert!(store.get("ghost").is_none());
}

#[test]
fn pessimistic_errors_map_to_statuses() {
    assert_eq!(validate_units(0).unwrap_err().status(), 400);
    assert_eq!(AppError::Reserve(ReserveError::UnknownProduct("x".to_string())).status(), 404);
    assert_eq!(AppError::Reserve(ReserveError::Insufficient { available: 0, requested: 1 }).status(), 422);
}

#[test]
fn pessimistic_errors_read_as_sentences() {
    assert_eq!(ReserveError::UnknownProduct("plate".to_string()).message(), "unknown product `plate`");
    assert_eq!(AppError::Validation("x".to_string()).message(), "validation error: x");
}

#[test]
fn a_scope_reads_the_same_as_its_settled_form() {
    for raw in ["  Row\t", "GLOBAL", " tAbLe ", "nope", ""] {
        let settled = raw.trim().to_ascii_lowercase();
        assert_eq!(LockScope::from_env_value(raw), LockScope::from_env_value(&settled), "{raw:?}");
    }
}
