//! The users backend: registration rules and the user store.

use vstd::prelude::*;
use crate::table::IdTable;
use crate::text::{contains_char, new_v4_id, trim, trim_spec, uuid_hyphenated, uuid_text};

verus! {

#[derive(Debug, Clone, Copy, PartialEq, Eq, Hash)]
pub struct UserId(pub u128);

impl UserId {
    /// A fresh random user id.
    pub fn new() -> (id: Self)
        ensures
            (id.0 >> 76u128) & 0xfu128 == 4u128,
            (id.0 >> 62u128) & 0x3u128 == 2u128,
    {
        UserId(new_v4_id())
    }
}

#[derive(Debug)]
pub struct User {
    pub id: UserId,
    pub email: String,
    pub name: String,
}

/// A user, read as values.
pub struct UserModel {
    pub id: u128,
    pub email: Seq<char>,
    pub name: Seq<char>,
}

impl View for User {
    type V = UserModel;

    open spec fn view(&self) -> UserModel {
        UserModel { id: self.id.0, email: self.email@, name: self.name@ }
    }
}

fn copy_user(u: &User) -> (r: User)
    ensures
        r@ == u@,
{
    User { id: u.id, email: u.email.clone(), name: u.name.clone() }
}

#[derive(Debug)]
pub enum AppError {
    Validation(String),
    Conflict(String),
    NotFound(String),
}

/// A registration request.
pub struct CreateUser {
    pub email: String,
    pub name: String,
}

/// The users this service stores, by id.
pub struct InMemoryUserRepository {
    inner: IdTable<User>,
}

impl View for InMemoryUserRepository {
    type V = Map<u128, UserModel>;

    closed spec fn view(&self) -> Map<u128, UserModel> {
        self.inner@.map_values(|u: User| u@)
    }
}

/// Whether some stored user has this email.
pub open spec fn email_taken(users: Map<u128, UserModel>, email: Seq<char>) -> bool {
    exists|k: u128| #[trigger] users.contains_key(k) && users[k].email == email
}

/// Whether `list` is exactly the users in `users`: each stored, each id
/// once, none missing.
pub open spec fn lists_all(users: Map<u128, UserModel>, list: Seq<User>) -> bool {
    &&& forall|i: int| 0 <= i < list.len() ==> users.contains_key(#[trigger] list[i].id.0) && users[list[i].id.0] == list[i]@
    &&& forall|i: int, j: int| 0 <= i < list.len() && 0 <= j < list.len() && i != j ==> list[i].id.0 != list[j].id.0
    &&& forall|k: u128| #[trigger] users.contains_key(k) ==> exists|i: int| 0 <= i < list.len() && list[i].id.0 == k
}

impl InMemoryUserRepository {
    /// Each user is stored under its own id.
    #[verifier::type_invariant]
    spec fn keyed_by_id(self) -> bool {
        forall|k: u128| #[trigger] self.inner@.contains_key(k) ==> self.inner@[k].id.0 == k
    }

    pub fn new() -> (r: Self)
        ensures
            r@ == Map::<u128, UserModel>::empty(),
    {
        let r = InMemoryUserRepository { inner: IdTable::new() };
        assert(r@ =~= Map::<u128, UserModel>::empty());
        r
    }

    /// Stores `user` under its id and hands it back.
    pub fn insert(&mut self, user: User) -> (r: User)
        ensures
            final(self)@ == old(self)@.insert(user.id.0, user@),
            r@ == user@,
    {
        proof { use_type_invariant(&*self); }
        let stored = copy_user(&user);
        let mut table: IdTable<User> = IdTable::new();
        std::mem::swap(&mut table, &mut self.inner);
        table.put(user.id.0, stored);
        self.inner = table;
        assert(self@ =~= old(self)@.insert(user.id.0, user@));
        user
    }

    pub fn get(&self, id: UserId) -> (r: Option<User>)
        ensures
            match r {
                Some(u) => self@.contains_key(id.0) && u@ == self@[id.0],
                None => !self@.contains_key(id.0),
            },
    {
        match self.inner.get(id.0) {
            Some(u) => Some(copy_user(u)),
            None => None,
        }
    }

    /// A stored user with this email, if there is one.
    pub fn find_by_email(&self, email: &str) -> (r: Option<User>)
        ensures
            match r {
                Some(u) => self@.contains_key(u.id.0) && self@[u.id.0] == u@ && u.email@ == email@,
                None => !email_taken(self@, email@),
            },
    {
        proof { use_type_invariant(self); }
        let wanted = String::from_str(email);
        let n = self.inner.len();
        let mut i: usize = 0;
        while i < n
            invariant
                n == self.inner.records().len(),
                i <= n,
                wanted@ == email@,
                self.inner.ids().len() == n,
                forall|j: int| 0 <= j < n ==> self.inner@.contains_key(#[trigger] self.inner.ids()[j])
                    && self.inner@[self.inner.ids()[j]] == self.inner.records()[j],
                forall|k: u128| #[trigger] self.inner@.contains_key(k) ==> self.inner.ids().contains(k),
                forall|k: u128| #[trigger] self.inner@.contains_key(k) ==> self.inner@[k].id.0 == k,
                forall|j: int| 0 <= j < i ==> self.inner.records()[j].email@ != email@,
            decreases n - i,
        {
            let u = self.inner.at(i);
            if u.email == wanted {
                proof {
                    let k = self.inner.ids()[i as int];
                    assert(self.inner@[k] == *u);
                }
                return Some(copy_user(u));
            }
            i = i + 1;
        }
        proof {
            assert forall|k: u128| #[trigger] self@.contains_key(k) implies self@[k].email != email@ by {
                let j = choose|j: int| 0 <= j < self.inner.ids().len() && self.inner.ids()[j] == k;
                assert(self.inner@[self.inner.ids()[j]] == self.inner.records()[j]);
            }
        }
        None
    }

    /// Every stored user, each once.
    pub fn all(&self) -> (r: Vec<User>)
        ensures
            lists_all(self@, r@),
    {
        proof { use_type_invariant(self); }
        let n = self.inner.len();
        let mut out: Vec<User> = Vec::new();
        let mut i: usize = 0;
        while i < n
            invariant
                n == self.inner.records().len(),
                i <= n,
                out@.len() == i,
                self.inner.ids().len() == n,
                self.inner.ids().no_duplicates(),
                forall|j: int| 0 <= j < n ==> self.inner@.contains_key(#[trigger] self.inner.ids()[j])
                    && self.inner@[self.inner.ids()[j]] == self.inner.records()[j],
                forall|k: u128| #[trigger] self.inner@.contains_key(k) ==> self.inner.ids().contains(k),
                forall|k: u128| #[trigger] self.inner@.contains_key(k) ==> self.inner@[k].id.0 == k,
                forall|j: int| 0 <= j < i ==> (#[trigger] out@[j])@ == self.inner.records()[j]@
                    && out@[j].id.0 == self.inner.ids()[j],
            decreases n - i,
        {
            let u = self.inner.at(i);
            proof {
                let k = self.inner.ids()[i as int];
                assert(self.inner@[k] == *u);
            }
            out.push(copy_user(u));
            i = i + 1;
        }
        proof {
            assert forall|k: u128| #[trigger] self@.contains_key(k) implies exists|j: int| 0 <= j < out@.len() && out@[j].id.0 == k by {
                let j = choose|j: int| 0 <= j < self.inner.ids().len() && self.inner.ids()[j] == k;
                assert(out@[j].id.0 == k);
            }
            assert forall|j: int| 0 <= j < out@.len() implies self@.contains_key(#[trigger] out@[j].id.0) && self@[out@[j].id.0] == out@[j]@ by {
                let k = self.inner.ids()[j];
                assert(self.inner@[k] == self.inner.records()[j]);
            }
        }
        out
    }
}

/// Whether an email passes the registration check: not blank, and holds `@`.
pub open spec fn valid_email(email: Seq<char>) -> bool {
    trim_spec(email).len() > 0 && email.contains('@')
}

/// Whether a name passes the registration check: not blank.
pub open spec fn valid_name(name: Seq<char>) -> bool {
    trim_spec(name).len() > 0
}

/// The user service.
pub struct UserService {
    repo: InMemoryUserRepository,
}

impl View for UserService {
    type V = Map<u128, UserModel>;

    closed spec fn view(&self) -> Map<u128, UserModel> {
        self.repo@
    }
}

impl UserService {
    pub fn new(repo: InMemoryUserRepository) -> (s: Self)
        ensures
            s@ == repo@,
    {
        UserService { repo }
    }

    /// Registers a user: the email must be non-blank and hold `@`, the name
    /// non-blank, and the email not already registered. The new user gets
    /// a fresh id.
    pub fn create(&mut self, cmd: CreateUser) -> (r: Result<User, AppError>)
        ensures
            !valid_email(cmd.email@) ==> (r matches Err(AppError::Validation(m))
                && m@ == "a valid email is required"@),
            valid_email(cmd.email@) && !valid_name(cmd.name@) ==> (r matches Err(AppError::Validation(m))
                && m@ == "name is required"@),
            valid_email(cmd.email@) && valid_name(cmd.name@) && email_taken(old(self)@, cmd.email@) ==> (
                r matches Err(AppError::Conflict(m)) && m@ == "email "@ + cmd.email@ + " is already registered"@),
            r is Err ==> final(self)@ == old(self)@,
            valid_email(cmd.email@) && valid_name(cmd.name@) && !email_taken(old(self)@, cmd.email@) ==> (
                r matches Ok(u) && u.email@ == cmd.email@ && u.name@ == cmd.name@
                && (u.id.0 >> 76u128) & 0xfu128 == 4u128
                && (u.id.0 >> 62u128) & 0x3u128 == 2u128
                && final(self)@ == old(self)@.insert(u.id.0, u@)),
    {
        if trim(cmd.email.as_str()).is_empty() || !contains_char(cmd.email.as_str(), '@') {
            return Err(AppError::Validation(String::from_str("a valid email is required")));
        }
        if trim(cmd.name.as_str()).is_empty() {
            return Err(AppError::Validation(String::from_str("name is required")));
        }
        if self.repo.find_by_email(cmd.email.as_str()).is_some() {
            let mut m = String::from_str("email ");
            m.append(cmd.email.as_str());
            m.append(" is already registered");
            return Err(AppError::Conflict(m));
        }
        let user = User { id: UserId::new(), email: cmd.email, name: cmd.name };
        Ok(self.repo.insert(user))
    }

    /// The user with this id, or not found.
    pub fn get(&self, id: UserId) -> (r: Result<User, AppError>)
        ensures
            self@.contains_key(id.0) ==> (r matches Ok(u) && u@ == self@[id.0]),
            !self@.contains_key(id.0) ==> (r matches Err(AppError::NotFound(m)) && m@ == "user "@ + uuid_hyphenated(id.0)),
    {
        match self.repo.get(id) {
            Some(u) => Ok(u),
            None => {
                let mut m = String::from_str("user ");
                m.append(uuid_text(id.0).as_str());
                Err(AppError::NotFound(m))
            },
        }
    }

    /// Every registered user.
    pub fn list(&self) -> (r: Vec<User>)
        ensures
            lists_all(self@, r@),
    {
        self.repo.all()
    }
}

/// Law: no two registered users share an email. If every stored email is
/// distinct, it stays so after any registration attempt.
pub proof fn law_emails_stay_unique(before: Map<u128, UserModel>, after: Map<u128, UserModel>, new_user: UserModel)
    requires
        forall|a: u128, b: u128| #[trigger] before.contains_key(a) && #[trigger] before.contains_key(b) && a != b
            ==> before[a].email != before[b].email,
        !email_taken(before, new_user.email),
        after == before.insert(new_user.id, new_user),
    ensures
        forall|a: u128, b: u128| #[trigger] after.contains_key(a) && #[trigger] after.contains_key(b) && a != b
            ==> after[a].email != after[b].email,
{
    assert forall|a: u128, b: u128| #[trigger] after.contains_key(a) && #[trigger] after.contains_key(b) && a != b
        implies after[a].email != after[b].email by {
        if a != new_user.id && b != new_user.id {
        } else if a == new_user.id {
            if before.contains_key(b) {
                assert(before[b].email != new_user.email);
            }
        } else {
            if before.contains_key(a) {
                assert(before[a].email != new_user.email);
            }
        }
    }
}

/// Law: a registered user reads back as registered. After a registration
/// that succeeded, looking the new id up finds exactly the user that was
/// returned, and every user registered before is still there unchanged.
pub proof fn law_registered_user_reads_back(before: Map<u128, UserModel>, after: Map<u128, UserModel>, created: UserModel)
    requires
        after == before.insert(created.id, created),
    ensures
        after.contains_key(created.id) && after[created.id] == created,
        forall|k: u128| #[trigger] before.contains_key(k) && k != created.id ==> after.contains_key(k)
            && after[k] == before[k],
{
}


/// Law: an email is refused only when it is blank after trimming or holds
/// no `@`; every other email passes, whatever else it contains. A name is
/// refused only when it is blank after trimming.
pub proof fn law_only_blank_or_at_less_emails_are_refused(email: Seq<char>, name: Seq<char>)
    ensures
        valid_email(email) <==> (trim_spec(email).len() > 0 && exists|i: int| 0 <= i < email.len() && email[i] == '@'),
        valid_name(name) <==> trim_spec(name).len() > 0,
{
    if exists|i: int| 0 <= i < email.len() && email[i] == '@' {
        let i = choose|i: int| 0 <= i < email.len() && email[i] == '@';
        assert(email.contains('@'));
    }
}

} // verus!
