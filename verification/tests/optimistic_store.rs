use archlab::concurrency::optimistic::{
    backoff_from, backoff_ms, next_attempt, validate_units, AppError, CommitOutcome, Entry, Reservation, ReserveError, Store,
};

/// One reservation with nothing interleaving: the loop the service runs,
/// without its sleeps.
fn reserve(store: &mut Store, product: &str, units: u64, expected: Option<u64>) -> Result<Reservation, ReserveError> {
    let budget = store.budget(expected);
    let mut attempt = 1;
    loop {
        let snapshot = store.read(product, expected, attempt)?;
        match store.try_commit(product, units, snapshot, attempt) {
            CommitOutcome::Applied(r) => return Ok(r),
            CommitOutcome::Refused(e) => return Err(e),
            CommitOutcome::Moved => attempt = next_attempt(product, attempt, budget)?,
        }
    }
}

/// Callers that all read, then all try to commit, round after round: the
/// worst interleaving the think window allows.
fn contend(store: &mut Store, callers: usize, units: u64) -> Vec<Result<Reservation, ReserveError>> {
    let budget = store.budget(None);
    let mut results: Vec<Option<Result<Reservation, ReserveError>>> = (0..callers).map(|_| None).collect();
    let mut attempts = vec![1u32; callers];
    while results.iter().any(|r| r.is_none()) {
        let pending: Vec<usize> = (0..callers).filter(|&i| results[i].is_none()).collect();
        let mut snapshots: Vec<(usize, Entry)> = Vec::new();
        for &i in &pending {
            match store.read("mug", None, attempts[i]) {
                Ok(s) => snapshots.push((i, s)),
                Err(e) => results[i] = Some(Err(e)),
            }
        }
        for (i, s) in snapshots {
            match store.try_commit("mug", units, s, attempts[i]) {
                CommitOutcome::Applied(r) => results[i] = Some(Ok(r)),
                CommitOutcome::Refused(e) => results[i] = Some(Err(e)),
                CommitOutcome::Moved => match next_attempt("mug", attempts[i], budget) {
                    Ok(a) => attempts[i] = a,
                    Err(e) => results[i] = Some(Err(e)),
                },
            }
        }
    }
    results.into_iter().map(|r| r.unwrap()).collect()
}

#[test]
fn store_sequential_reservations_are_correct() {
    let mut store = Store::new(5, 8);
    store.seed("mug", 10);

    for _ in 0..5 {
        let r = reserve(&mut store, "mug", 2, None).expect("should fit");
        assert_eq!(r.attempts, 1, "uncontended requests never retry");
    }

    assert_eq!(store.get("mug").unwrap().units, 0);
}

#[test]
fn store_concurrent_reservations_never_oversell() {
    let mut store = Store::new(5, 24);
    store.seed("mug", 6);

    let results = contend(&mut store, 6, 2);

    let granted = results.iter().filter(|r| r.is_ok()).count() as u64;
    let left = store.get("mug").unwrap().units;

    assert_eq!(granted * 2, 6 - left, "units handed out must equal units consumed");
    assert_eq!(granted, 3, "three callers of six can be satisfied");
    assert_eq!(left, 0);

    for result in &results {
        if let Err(err) = result {
            assert!(
                matches!(err, ReserveError::Insufficient { .. }),
                "expected an honest out-of-stock, got {err:?}"
            );
        }
    }
}

#[test]
fn without_retries_conflicts_reach_the_caller() {
    let mut store = Store::new(5, 0);
    store.seed("mug", 6);

    let results = contend(&mut store, 6, 2);

    let granted = results.iter().filter(|r| r.is_ok()).count() as u64;
    let conflicts = results
        .iter()
        .filter(|r| matches!(r, Err(ReserveError::Conflict { .. })))
        .count();
    let left = store.get("mug").unwrap().units;

    assert_eq!(granted, 1, "exactly one writer wins a round");
    assert_eq!(conflicts, 5);
    assert_eq!(left, 4, "and the other five changed nothing at all");
    assert_eq!(granted * 2, 6 - left, "still no oversell");
}

#[test]
fn a_stale_client_version_is_rejected_rather_than_applied() {
    let mut store = Store::new(5, 8);
    store.seed("mug", 10);

    let first = reserve(&mut store, "mug", 1, Some(0)).expect("v0 is current");
    assert_eq!(first.version, 1);

    let err = reserve(&mut store, "mug", 1, Some(0)).unwrap_err();
    assert!(matches!(err, ReserveError::Conflict { .. }));
    assert_eq!(store.get("mug").unwrap().units, 9, "the rejected request must not have touched the row");
}

#[test]
fn a_current_client_version_is_accepted() {
    let mut store = Store::new(5, 8);
    store.seed("mug", 10);

    reserve(&mut store, "mug", 1, Some(0)).expect("v0 is current");
    let second = reserve(&mut store, "mug", 1, Some(1)).expect("v1 is current");

    assert_eq!(second.available, 8);
    assert_eq!(second.version, 2);
}

#[test]
fn store_unknown_products_are_not_created_by_reserving_them() {
    let mut store = Store::new(5, 8);
    let err = reserve(&mut store, "ghost", 1, None).unwrap_err();
    assert!(matches!(err, ReserveError::UnknownProduct(_)));
}

#[test]
fn a_pinned_version_gets_one_attempt() {
    let store = Store::new(5, 8);
    assert_eq!(store.budget(Some(3)), 1);
    assert_eq!(store.budget(None), 9);
    assert!(matches!(next_attempt("mug", 2, 9), Ok(3)));
    match next_attempt("mug", 9, 9) {
        Err(ReserveError::Conflict { product, attempts }) => {
            assert_eq!(product, "mug");
            assert_eq!(attempts, 9);
        }
        other => panic!("unexpected {other:?}"),
    }
}

#[test]
fn a_moved_row_is_left_alone() {
    let mut store = Store::new(0, 8);
    store.seed("mug", 10);
    let stale = store.read("mug", None, 1).unwrap();
    let fresh = store.read("mug", None, 1).unwrap();
    assert!(matches!(store.try_commit("mug", 4, fresh, 1), CommitOutcome::Applied(_)));
    assert!(matches!(store.try_commit("mug", 4, stale, 1), CommitOutcome::Moved));
    let e = store.get("mug").unwrap();
    assert_eq!((e.units, e.version), (6, 1));
}

#[test]
fn backoff_doubles_up_to_a_cap_with_jitter() {
    for _ in 0..20 {
        let ms = backoff_ms(1);
        assert!((1..=2).contains(&ms));
        let ms = backoff_ms(3);
        assert!((4..=8).contains(&ms));
        let ms = backoff_ms(40);
        assert!((32..=64).contains(&ms));
    }
}

#[test]
fn optimistic_errors_map_to_statuses() {
    assert_eq!(validate_units(0).unwrap_err().status(), 400);
    let conflict = AppError::Reserve(ReserveError::Conflict { product: "mug".to_string(), attempts: 1 });
    assert_eq!(conflict.status(), 409);
    assert_eq!(AppError::Reserve(ReserveError::UnknownProduct("x".to_string())).status(), 404);
    assert_eq!(AppError::Reserve(ReserveError::Insufficient { available: 0, requested: 1 }).status(), 422);
}

#[test]
fn a_conflict_says_how_many_attempts_it_took() {
    let e = ReserveError::Conflict { product: "mug".to_string(), attempts: 9 };
    assert_eq!(e.message(), "product `mug` changed underneath this request; gave up after 9 attempt(s)");
    assert_eq!(
        AppError::Reserve(ReserveError::Insufficient { available: 0, requested: 2 }).message(),
        "only 0 unit(s) available, 2 requested"
    );
    assert_eq!(AppError::Validation("bad".to_string()).message(), "validation error: bad");
}

#[test]
fn the_backoff_adds_the_drawn_jitter_to_the_base() {
    assert_eq!(backoff_from(1, 0), 1);
    assert_eq!(backoff_from(1, 1), 2);
    assert_eq!(backoff_from(4, 3), 11);
    assert_eq!(backoff_from(9, 32), 64);
}
