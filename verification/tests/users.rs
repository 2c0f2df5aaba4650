use archlab::bff::users::{AppError, CreateUser, InMemoryUserRepository, User, UserId, UserService};

fn service() -> UserService {
    UserService::new(InMemoryUserRepository::new())
}

fn cmd(email: &str, name: &str) -> CreateUser {
    CreateUser { email: email.to_string(), name: name.to_string() }
}

#[test]
fn creates_and_reads_back_a_user() {
    let mut svc = service();
    let user = svc.create(cmd("ada@example.com", "Ada")).unwrap();

    let fetched = svc.get(user.id).unwrap();
    assert_eq!(fetched.email, "ada@example.com");
    assert_eq!(fetched.name, "Ada");
    assert_eq!(fetched.id, user.id);
}

#[test]
fn rejects_duplicate_email() {
    let mut svc = service();
    svc.create(cmd("dup@example.com", "Dup")).unwrap();
    let err = svc.create(cmd("dup@example.com", "Dup")).unwrap_err();
    assert!(matches!(err, AppError::Conflict(_)));
    match err {
        AppError::Conflict(m) => assert_eq!(m, "email dup@example.com is already registered"),
        other => panic!("unexpected {other:?}"),
    }
    assert_eq!(svc.list().len(), 1);
}

#[test]
fn an_email_needs_an_at_sign_and_a_name_is_required() {
    let mut svc = service();
    match svc.create(cmd("ada.example.com", "Ada")) {
        Err(AppError::Validation(m)) => assert_eq!(m, "a valid email is required"),
        other => panic!("unexpected {other:?}"),
    }
    match svc.create(cmd("   ", "Ada")) {
        Err(AppError::Validation(m)) => assert_eq!(m, "a valid email is required"),
        other => panic!("unexpected {other:?}"),
    }
    match svc.create(cmd("ada@example.com", " \t ")) {
        Err(AppError::Validation(m)) => assert_eq!(m, "name is required"),
        other => panic!("unexpected {other:?}"),
    }
    assert!(svc.list().is_empty());
}

#[test]
fn an_unknown_user_is_not_found() {
    let svc = service();
    match svc.get(UserId(0x00112233_4455_6677_8899_aabbccddeeff)) {
        Err(AppError::NotFound(m)) => assert_eq!(m, "user 00112233-4455-6677-8899-aabbccddeeff"),
        other => panic!("unexpected {other:?}"),
    }
}

#[test]
fn every_registered_user_is_listed_once() {
    let mut svc = service();
    let a = svc.create(cmd("a@x", "A")).unwrap();
    let b = svc.create(cmd("b@x", "B")).unwrap();
    let listed = svc.list();
    assert_eq!(listed.len(), 2);
    assert!(listed.iter().any(|u| u.id == a.id && u.email == "a@x"));
    assert!(listed.iter().any(|u| u.id == b.id && u.email == "b@x"));
    assert_ne!(a.id, b.id);
    assert_eq!((a.id.0 >> 76) & 0xf, 4);
    assert_eq!((a.id.0 >> 62) & 0x3, 2);
}

#[test]
fn the_repository_finds_users_by_email() {
    let mut repo = InMemoryUserRepository::new();
    let u = User { id: UserId(3), email: "c@x".to_string(), name: "C".to_string() };
    let back = repo.insert(u);
    assert_eq!(back.email, "c@x");
    assert_eq!(repo.find_by_email("c@x").unwrap().id, UserId(3));
    assert!(repo.find_by_email("d@x").is_none());
    assert_eq!(repo.get(UserId(3)).unwrap().name, "C");
    assert!(repo.get(UserId(4)).is_none());
    assert_eq!(repo.all().len(), 1);
}
