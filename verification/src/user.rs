//! Users and their repository.
//!
//! `username` and `email` identify a user uniquely; writes that would
//! duplicate either fail with `UniqueViolation`. The password hash is an
//! opaque string produced by the external hashing collaborator — this core
//! stores and returns it but never computes one. Deleting a user is
//! restricted: while any report names the user as owner, or any grant as
//! borrower, the delete fails with `ConstraintViolation` instead of leaving
//! dangling references behind.

use crate::error::RepoError;
use crate::models::{NewUser, User, UserV};
use crate::store::{same_grants, same_line_items, same_next_ids, same_proofs, same_reports, Store};
use crate::traits::{Builder, HasBuilder};
use vstd::prelude::*;

verus! {

/// The public face of a user row: identity without secrets.
#[derive(Debug, PartialEq)]
pub struct UserInfo {
    pub username: String,
    pub email: String,
}

impl From<User> for UserInfo {
    fn from(value: User) -> (r: UserInfo) {
        UserInfo { username: value.username, email: value.email }
    }
}

impl vstd::std_specs::convert::FromSpecImpl<User> for UserInfo {
    open spec fn obeys_from_spec() -> bool {
        true
    }

    open spec fn from_spec(t: User) -> UserInfo {
        UserInfo { username: t.username, email: t.email }
    }
}

/// The body shape under which a bare password crosses the boundary; the
/// boundary hashes it before any call into this crate.
#[derive(Debug, PartialEq)]
pub struct Password {
    pub password: String,
}

// -------------------------------------------------------------------- builder
/// Accumulates the fields of a new user; `username`, `email`, and
/// `password_hash` are required, the profile picture is optional and never
/// blocks construction.
#[derive(Debug)]
pub struct NewUserBuilder {
    pub username: Option<String>,
    pub email: Option<String>,
    pub profile_picture: Option<Vec<u8>>,
    pub password_hash: Option<String>,
}

impl NewUserBuilder {
    /// A builder with every slot empty.
    pub fn new() -> (r: Self)
        ensures
            r.username is None,
            r.email is None,
            r.profile_picture is None,
            r.password_hash is None,
    {
        NewUserBuilder { username: None, email: None, profile_picture: None, password_hash: None }
    }

    /// Sets the username; a later call overwrites an earlier one.
    pub fn username(&mut self, username: String) -> (r: &mut Self)
        ensures
            *r == (NewUserBuilder { username: Some(username), ..*old(self) }),
            *final(self) == *final(r),
    {
        self.username = Some(username);
        self
    }

    /// Sets the email; a later call overwrites an earlier one.
    pub fn email(&mut self, email: String) -> (r: &mut Self)
        ensures
            *r == (NewUserBuilder { email: Some(email), ..*old(self) }),
            *final(self) == *final(r),
    {
        self.email = Some(email);
        self
    }

    /// Sets the optional profile picture; a later call overwrites an
    /// earlier one.
    pub fn profile_picture(&mut self, profile_picture: Vec<u8>) -> (r: &mut Self)
        ensures
            *r == (NewUserBuilder { profile_picture: Some(profile_picture), ..*old(self) }),
            *final(self) == *final(r),
    {
        self.profile_picture = Some(profile_picture);
        self
    }

    /// Sets the stored hash, as handed over by the external hashing
    /// collaborator; a later call overwrites an earlier one.
    pub fn password_hash(&mut self, password_hash: String) -> (r: &mut Self)
        ensures
            *r == (NewUserBuilder { password_hash: Some(password_hash), ..*old(self) }),
            *final(self) == *final(r),
    {
        self.password_hash = Some(password_hash);
        self
    }
}

impl Default for NewUserBuilder {
    /// A builder with every slot empty.
    fn default() -> (r: Self)
        ensures
            r.username is None,
            r.email is None,
            r.profile_picture is None,
            r.password_hash is None,
    {
        NewUserBuilder::new()
    }
}

impl Builder<NewUser> for NewUserBuilder {
    type Output = NewUser;

    /// Yields the new user exactly when every required slot is set; the
    /// optional picture is carried over as it stands, absent or present.
    fn build(&self) -> (r: Option<NewUser>)
        ensures
            r is Some <==> (self.username is Some && self.email is Some
                && self.password_hash is Some),
            r is Some ==> r.unwrap().username == self.username.unwrap() && r.unwrap().email
                == self.email.unwrap() && r.unwrap().password_hash == self.password_hash.unwrap()
                && r.unwrap().profile_picture.deep_view() == self.profile_picture.deep_view(),
    {
        match (&self.username, &self.email, &self.password_hash) {
            (Some(username), Some(email), Some(password_hash)) => {
                let picture = match &self.profile_picture {
                    Some(p) => {
                        let q = p.clone();
                        proof {
                            assert(q@ =~= p@);
                        }
                        Some(q)
                    },
                    None => None,
                };
                let built = NewUser {
                    username: username.clone(),
                    email: email.clone(),
                    profile_picture: picture,
                    password_hash: password_hash.clone(),
                };
                proof {
                    assert(built.profile_picture.deep_view() =~~= self.profile_picture.deep_view());
                }
                Some(built)
            },
            _ => None,
        }
    }
}

impl HasBuilder<NewUserBuilder, Self> for NewUser {
    fn builder() -> (r: NewUserBuilder)
        ensures
            r.username is None,
            r.email is None,
            r.profile_picture is None,
            r.password_hash is None,
    {
        NewUserBuilder::new()
    }
}

impl HasBuilder<NewUserBuilder, NewUser> for User {
    fn builder() -> (r: NewUserBuilder)
        ensures
            r.username is None,
            r.email is None,
            r.profile_picture is None,
            r.password_hash is None,
    {
        NewUserBuilder::new()
    }
}

// ------------------------------------------------------------------ positions
/// The position of the user with `id`, if one exists.
fn user_position(id: i64, conn: &Store) -> (r: Option<usize>)
    requires
        conn.wf(),
    ensures
        match r {
            Some(i) => {
                &&& i < conn.users_v().len()
                &&& conn.users_v()[i as int].id == id as int
                &&& conn.has_user(id as int)
                &&& conn.user_index(id as int) == i as int
                &&& conn.user_at(id as int) == conn.users_v()[i as int]
            },
            None => !conn.has_user(id as int),
        },
{
    let mut i: usize = 0;
    while i < conn.users.len()
        invariant
            conn.wf(),
            i <= conn.users.len(),
            forall|j: int| 0 <= j < i ==> (#[trigger] conn.users_v()[j]).id != id as int,
        decreases conn.users.len() - i,
    {
        if conn.users[i].id == id {
            proof {
                conn.lemma_user_pinned(i as int);
            }
            return Some(i);
        }
        i = i + 1;
    }
    None
}

/// Whether some user already holds `username`.
fn username_taken(username: &String, conn: &Store) -> (r: bool)
    ensures
        r == conn.has_username(username@),
{
    let mut i: usize = 0;
    while i < conn.users.len()
        invariant
            i <= conn.users.len(),
            forall|j: int| 0 <= j < i ==> (#[trigger] conn.users_v()[j]).username != username@,
        decreases conn.users.len() - i,
    {
        if conn.users[i].username == *username {
            assert(conn.users_v()[i as int].username == username@);
            return true;
        }
        i = i + 1;
    }
    false
}

/// Whether some user already holds `email`.
fn email_taken(email: &String, conn: &Store) -> (r: bool)
    ensures
        r == conn.has_email(email@),
{
    let mut i: usize = 0;
    while i < conn.users.len()
        invariant
            i <= conn.users.len(),
            forall|j: int| 0 <= j < i ==> (#[trigger] conn.users_v()[j]).email != email@,
        decreases conn.users.len() - i,
    {
        if conn.users[i].email == *email {
            assert(conn.users_v()[i as int].email == email@);
            return true;
        }
        i = i + 1;
    }
    false
}

/// Whether some user other than `id` already holds `username`.
fn username_taken_by_other(id: i64, username: &String, conn: &Store) -> (r: bool)
    ensures
        r == conn.username_taken_by_other(id as int, username@),
{
    let mut i: usize = 0;
    while i < conn.users.len()
        invariant
            i <= conn.users.len(),
            forall|j: int|
                0 <= j < i ==> !((#[trigger] conn.users_v()[j]).username == username@
                    && conn.users_v()[j].id != id as int),
        decreases conn.users.len() - i,
    {
        if conn.users[i].username == *username && conn.users[i].id != id {
            assert(conn.users_v()[i as int].username == username@);
            return true;
        }
        i = i + 1;
    }
    false
}

/// Whether some user other than `id` already holds `email`.
fn email_taken_by_other(id: i64, email: &String, conn: &Store) -> (r: bool)
    ensures
        r == conn.email_taken_by_other(id as int, email@),
{
    let mut i: usize = 0;
    while i < conn.users.len()
        invariant
            i <= conn.users.len(),
            forall|j: int|
                0 <= j < i ==> !((#[trigger] conn.users_v()[j]).email == email@
                    && conn.users_v()[j].id != id as int),
        decreases conn.users.len() - i,
    {
        if conn.users[i].email == *email && conn.users[i].id != id {
            assert(conn.users_v()[i as int].email == email@);
            return true;
        }
        i = i + 1;
    }
    false
}

/// Whether any report names `id` as its owner.
fn owns_reports(id: i64, conn: &Store) -> (r: bool)
    ensures
        r == conn.user_owns_reports(id as int),
{
    let mut i: usize = 0;
    while i < conn.reports.len()
        invariant
            i <= conn.reports.len(),
            forall|j: int| 0 <= j < i ==> (#[trigger] conn.reports_v()[j]).owner_id != id as int,
        decreases conn.reports.len() - i,
    {
        if conn.reports[i].owner_id == id {
            assert(conn.reports_v()[i as int].owner_id == id as int);
            return true;
        }
        i = i + 1;
    }
    false
}

/// Whether any grant names `id` as its borrower.
fn borrows(id: i64, conn: &Store) -> (r: bool)
    ensures
        r == conn.user_borrows(id as int),
{
    let mut i: usize = 0;
    while i < conn.access_grants.len()
        invariant
            i <= conn.access_grants.len(),
            forall|j: int| 0 <= j < i ==> (#[trigger] conn.grants_v()[j]).borrower_id != id as int,
        decreases conn.access_grants.len() - i,
    {
        if conn.access_grants[i].borrower_id == id {
            assert(conn.grants_v()[i as int].borrower_id == id as int);
            return true;
        }
        i = i + 1;
    }
    false
}

// --------------------------------------------------------------------- insert
/// Appending one freshly-id'd user keeps the store well-formed.
proof fn lemma_insert_user_wf(pre: Store, post: Store, uv: UserV)
    requires
        pre.wf(),
        pre.next_user_id < i64::MAX,
        uv.id == pre.next_user_id as int,
        !pre.has_username(uv.username),
        !pre.has_email(uv.email),
        post.users_v() == pre.users_v().push(uv),
        post.next_user_id == pre.next_user_id + 1,
        same_reports(pre, post),
        same_line_items(pre, post),
        same_proofs(pre, post),
        same_grants(pre, post),
    ensures
        post.wf(),
{
    assert(post.reports_v() == pre.reports_v());
    assert(post.line_items_v() == pre.line_items_v());
    assert(post.proofs_v() == pre.proofs_v());
    assert(post.grants_v() == pre.grants_v());
    assert forall|x: int| pre.has_report(x) implies post.has_report(x) by {
        let k = choose|k: int|
            0 <= k < pre.reports_v().len() && (#[trigger] pre.reports_v()[k]).id == x;
        assert(post.reports_v()[k].id == x);
    }
    assert forall|x: int| pre.has_user(x) implies post.has_user(x) by {
        let k = choose|k: int| 0 <= k < pre.users_v().len() && (#[trigger] pre.users_v()[k]).id == x;
        assert(post.users_v()[k].id == x);
    }
}

impl NewUser {
    /// Persists the user under a fresh id and returns its public face.
    ///
    /// Fails with `UniqueViolation` exactly when the username or the email
    /// is already taken; the store is then unchanged.
    pub fn insert(&self, conn: &mut Store) -> (r: Result<UserInfo, RepoError>)
        requires
            old(conn).wf(),
            old(conn).next_user_id < i64::MAX,
        ensures
            final(conn).wf(),
            match r {
                Ok(info) => {
                    &&& !old(conn).has_username(self.username@)
                    &&& !old(conn).has_email(self.email@)
                    &&& info.username@ == self.username@
                    &&& info.email@ == self.email@
                    &&& final(conn).users_v() == old(conn).users_v().push(
                        self.with_id(old(conn).next_user_id as int),
                    )
                    &&& final(conn).next_user_id == old(conn).next_user_id + 1
                    &&& same_reports(*old(conn), *final(conn))
                    &&& same_line_items(*old(conn), *final(conn))
                    &&& same_proofs(*old(conn), *final(conn))
                    &&& same_grants(*old(conn), *final(conn))
                },
                Err(e) => {
                    &&& e == RepoError::UniqueViolation
                    &&& (old(conn).has_username(self.username@) || old(conn).has_email(
                        self.email@,
                    ))
                    &&& *final(conn) == *old(conn)
                },
            },
    {
        if username_taken(&self.username, conn) {
            return Err(RepoError::UniqueViolation);
        }
        if email_taken(&self.email, conn) {
            return Err(RepoError::UniqueViolation);
        }
        let id = conn.next_user_id;
        let row = User {
            id,
            username: self.username.clone(),
            email: self.email.clone(),
            profile_picture: match &self.profile_picture {
                Some(p) => Some(p.clone()),
                None => None,
            },
            password_hash: self.password_hash.clone(),
        };
        let info = UserInfo { username: self.username.clone(), email: self.email.clone() };
        proof {
            assert(row.deep_view() =~~= self.with_id(id as int));
        }
        conn.users.push(row);
        conn.next_user_id = id + 1;
        proof {
            assert(conn.users_v() =~= old(conn).users_v().push(self.with_id(id as int)));
            lemma_insert_user_wf(*old(conn), *conn, self.with_id(id as int));
        }
        Ok(info)
    }
}

// ------------------------------------------------------------------- removals
/// Removing a user that no report or grant references keeps the store
/// well-formed.
proof fn lemma_remove_user_wf(pre: Store, post: Store, k: int)
    requires
        pre.wf(),
        0 <= k < pre.users_v().len(),
        forall|i: int|
            0 <= i < pre.reports_v().len() ==> (#[trigger] pre.reports_v()[i]).owner_id
                != pre.users_v()[k].id,
        forall|i: int|
            0 <= i < pre.grants_v().len() ==> (#[trigger] pre.grants_v()[i]).borrower_id
                != pre.users_v()[k].id,
        post.users_v() == pre.users_v().remove(k),
        post.reports == pre.reports,
        post.line_items == pre.line_items,
        post.proofs == pre.proofs,
        post.access_grants == pre.access_grants,
        same_next_ids(pre, post),
    ensures
        post.wf(),
{
    assert(post.reports_v() == pre.reports_v());
    assert(post.line_items_v() == pre.line_items_v());
    assert(post.proofs_v() == pre.proofs_v());
    assert(post.grants_v() == pre.grants_v());
    pre.users_v().remove_ensures(k);
    assert forall|j: int| 0 <= j < post.users_v().len() implies #[trigger] post.users_v()[j] == (
    if j < k {
        pre.users_v()[j]
    } else {
        pre.users_v()[j + 1]
    }) by {
        assert(post.users_v()[j] == pre.users_v().remove(k)[j]);
    }
    assert forall|x: int| pre.has_user(x) && x != pre.users_v()[k].id implies post.has_user(x) by {
        let j = choose|j: int| 0 <= j < pre.users_v().len() && (#[trigger] pre.users_v()[j]).id
            == x;
        if j < k {
            assert(post.users_v()[j].id == x);
        } else {
            assert(j != k);
            assert(post.users_v()[j - 1] == pre.users_v()[j]);
        }
    }
    assert forall|x: int| pre.has_report(x) implies post.has_report(x) by {
        let j = choose|j: int|
            0 <= j < pre.reports_v().len() && (#[trigger] pre.reports_v()[j]).id == x;
        assert(post.reports_v()[j].id == x);
    }
}

// --------------------------------------------------------------- repository
impl User {
    /// Returns the public face of the user with `id`, or `NotFound`.
    pub fn get_by_id(id: i64, conn: &Store) -> (r: Result<UserInfo, RepoError>)
        requires
            conn.wf(),
        ensures
            match r {
                Ok(info) => {
                    &&& conn.has_user(id as int)
                    &&& info.username@ == conn.user_at(id as int).username
                    &&& info.email@ == conn.user_at(id as int).email
                },
                Err(e) => e == RepoError::NotFound && !conn.has_user(id as int),
            },
    {
        match user_position(id, conn) {
            Some(i) => Ok(
                UserInfo {
                    username: conn.users[i].username.clone(),
                    email: conn.users[i].email.clone(),
                },
            ),
            None => Err(RepoError::NotFound),
        }
    }

    /// Returns the user's profile picture, or the empty byte string where
    /// none is stored; `NotFound` if the user does not exist.
    pub fn get_profile_picture(id: i64, conn: &Store) -> (r: Result<Vec<u8>, RepoError>)
        requires
            conn.wf(),
        ensures
            match r {
                Ok(bytes) => {
                    &&& conn.has_user(id as int)
                    &&& bytes@ == (match conn.user_at(id as int).profile_picture {
                        Some(p) => p,
                        None => Seq::<u8>::empty(),
                    })
                },
                Err(e) => e == RepoError::NotFound && !conn.has_user(id as int),
            },
    {
        match user_position(id, conn) {
            Some(i) => {
                match &conn.users[i].profile_picture {
                    Some(p) => {
                        let bytes = p.clone();
                        proof {
                            assert(bytes@ =~= p@);
                        }
                        Ok(bytes)
                    },
                    None => Ok(Vec::new()),
                }
            },
            None => Err(RepoError::NotFound),
        }
    }

    /// Deletes the user with `id` and returns its public face.
    ///
    /// Deletion is restricted, never cascading: while a report names the
    /// user as owner, or a grant names it as borrower, the call fails with
    /// `ConstraintViolation` and the store stays unchanged. `NotFound` if
    /// no user has `id`.
    pub fn delete(id: i64, conn: &mut Store) -> (r: Result<UserInfo, RepoError>)
        requires
            old(conn).wf(),
        ensures
            final(conn).wf(),
            match r {
                Ok(info) => {
                    &&& old(conn).has_user(id as int)
                    &&& !old(conn).user_owns_reports(id as int)
                    &&& !old(conn).user_borrows(id as int)
                    &&& info.username@ == old(conn).user_at(id as int).username
                    &&& info.email@ == old(conn).user_at(id as int).email
                    &&& final(conn).users_v() == old(conn).users_v().remove(
                        old(conn).user_index(id as int),
                    )
                    &&& final(conn).reports == old(conn).reports
                    &&& final(conn).line_items == old(conn).line_items
                    &&& final(conn).proofs == old(conn).proofs
                    &&& final(conn).access_grants == old(conn).access_grants
                    &&& same_next_ids(*old(conn), *final(conn))
                },
                Err(e) => {
                    &&& *final(conn) == *old(conn)
                    &&& (e == RepoError::NotFound && !old(conn).has_user(id as int) || (e
                        == RepoError::ConstraintViolation && old(conn).has_user(id as int) && (old(
                        conn,
                    ).user_owns_reports(id as int) || old(conn).user_borrows(id as int))))
                },
            },
    {
        let i = match user_position(id, conn) {
            Some(i) => i,
            None => {
                return Err(RepoError::NotFound);
            },
        };
        if owns_reports(id, conn) || borrows(id, conn) {
            return Err(RepoError::ConstraintViolation);
        }
        let row = conn.users.remove(i);
        proof {
            old(conn).users@.remove_ensures(i as int);
            old(conn).users_v().remove_ensures(i as int);
            assert(conn.users_v() =~= old(conn).users_v().remove(i as int));
            lemma_remove_user_wf(*old(conn), *conn, i as int);
        }
        Ok(UserInfo { username: row.username, email: row.email })
    }

    /// Empties the user table; restricted like single deletes, so it
    /// succeeds exactly when no report exists (grants then cannot exist
    /// either), and fails with `ConstraintViolation` otherwise.
    pub fn clear(conn: &mut Store) -> (r: Result<(), RepoError>)
        requires
            old(conn).wf(),
        ensures
            final(conn).wf(),
            match r {
                Ok(_) => {
                    &&& old(conn).reports_v().len() == 0
                    &&& final(conn).users_v() == Seq::<UserV>::empty()
                    &&& final(conn).reports == old(conn).reports
                    &&& final(conn).line_items == old(conn).line_items
                    &&& final(conn).proofs == old(conn).proofs
                    &&& final(conn).access_grants == old(conn).access_grants
                    &&& same_next_ids(*old(conn), *final(conn))
                },
                Err(e) => {
                    &&& e == RepoError::ConstraintViolation
                    &&& old(conn).reports_v().len() > 0
                    &&& *final(conn) == *old(conn)
                },
            },
    {
        if !conn.reports.is_empty() {
            return Err(RepoError::ConstraintViolation);
        }
        conn.users.clear();
        proof {
            assert(conn.users_v() =~= Seq::<UserV>::empty());
            assert(conn.reports_v() == old(conn).reports_v());
            assert(conn.line_items_v() == old(conn).line_items_v());
            assert(conn.proofs_v() == old(conn).proofs_v());
            assert(conn.grants_v() == old(conn).grants_v());
            assert forall|x: int| old(conn).has_report(x) implies conn.has_report(x) by {
                let k = choose|k: int|
                    0 <= k < old(conn).reports_v().len() && (#[trigger] old(
                        conn,
                    ).reports_v()[k]).id == x;
                assert(conn.reports_v()[k].id == x);
            }
        }
        Ok(())
    }

    /// Rewrites every column of the user with `id` and returns its public
    /// face.
    ///
    /// `NotFound` if no user has `id`; `UniqueViolation` if another user
    /// already holds the username or email. Either failure leaves the
    /// store unchanged.
    fn update_hash(
        id: i64,
        username: String,
        email: String,
        profile_picture: Option<Vec<u8>>,
        password_hash: String,
        conn: &mut Store,
    ) -> (r: Result<UserInfo, RepoError>)
        requires
            old(conn).wf(),
        ensures
            final(conn).wf(),
            match r {
                Ok(info) => {
                    &&& old(conn).has_user(id as int)
                    &&& !old(conn).username_taken_by_other(id as int, username@)
                    &&& !old(conn).email_taken_by_other(id as int, email@)
                    &&& info.username@ == username@
                    &&& info.email@ == email@
                    &&& final(conn).users_v() == old(conn).users_v().update(
                        old(conn).user_index(id as int),
                        (UserV {
                            id: id as int,
                            username: username@,
                            email: email@,
                            profile_picture: profile_picture.deep_view(),
                            password_hash: password_hash@,
                        }),
                    )
                    &&& final(conn).reports == old(conn).reports
                    &&& final(conn).line_items == old(conn).line_items
                    &&& final(conn).proofs == old(conn).proofs
                    &&& final(conn).access_grants == old(conn).access_grants
                    &&& same_next_ids(*old(conn), *final(conn))
                },
                Err(e) => {
                    &&& *final(conn) == *old(conn)
                    &&& (e == RepoError::NotFound && !old(conn).has_user(id as int) || (e
                        == RepoError::UniqueViolation && old(conn).has_user(id as int) && (old(
                        conn,
                    ).username_taken_by_other(id as int, username@) || old(
                        conn,
                    ).email_taken_by_other(id as int, email@))))
                },
            },
    {
        let i = match user_position(id, conn) {
            Some(i) => i,
            None => {
                return Err(RepoError::NotFound);
            },
        };
        if username_taken_by_other(id, &username, conn) {
            return Err(RepoError::UniqueViolation);
        }
        if email_taken_by_other(id, &email, conn) {
            return Err(RepoError::UniqueViolation);
        }
        let info = UserInfo { username: username.clone(), email: email.clone() };
        let row = User { id, username, email, profile_picture, password_hash };
        let ghost rv = row.deep_view();
        conn.users[i] = row;
        proof {
            let pre = *old(conn);
            let post = *conn;
            let k = i as int;
            assert(post.reports_v() == pre.reports_v());
            assert(post.line_items_v() == pre.line_items_v());
            assert(post.proofs_v() == pre.proofs_v());
            assert(post.grants_v() == pre.grants_v());
            assert(post.users_v() =~= pre.users_v().update(k, rv));
            assert forall|j: int|
                0 <= j < post.users_v().len() && j != k implies #[trigger] post.users_v()[j]
                == pre.users_v()[j] by {
                assert(post.users_v()[j] == pre.users_v().update(k, rv)[j]);
            }
            assert(post.users_v()[k] == rv);
            assert(rv.id == pre.users_v()[k].id);
            assert forall|x: int| pre.has_user(x) implies post.has_user(x) by {
                let j = choose|j: int|
                    0 <= j < pre.users_v().len() && (#[trigger] pre.users_v()[j]).id == x;
                if j == k {
                    assert(post.users_v()[k].id == x);
                } else {
                    assert(post.users_v()[j].id == x);
                }
            }
            assert forall|x: int| pre.has_report(x) implies post.has_report(x) by {
                let j = choose|j: int|
                    0 <= j < pre.reports_v().len() && (#[trigger] pre.reports_v()[j]).id == x;
                assert(post.reports_v()[j].id == x);
            }
        }
        Ok(info)
    }

    /// Rewrites every column of the user with `id`, the stored hash coming
    /// from the external hashing collaborator, and returns its public face.
    ///
    /// `NotFound` if no user has `id`; `UniqueViolation` if another user
    /// already holds the username or email.
    pub fn update(
        id: i64,
        username: String,
        email: String,
        profile_picture: Option<Vec<u8>>,
        password_hash: String,
        conn: &mut Store,
    ) -> (r: Result<UserInfo, RepoError>)
        requires
            old(conn).wf(),
        ensures
            final(conn).wf(),
            match r {
                Ok(info) => {
                    &&& old(conn).has_user(id as int)
                    &&& !old(conn).username_taken_by_other(id as int, username@)
                    &&& !old(conn).email_taken_by_other(id as int, email@)
                    &&& info.username@ == username@
                    &&& info.email@ == email@
                    &&& final(conn).users_v() == old(conn).users_v().update(
                        old(conn).user_index(id as int),
                        (UserV {
                            id: id as int,
                            username: username@,
                            email: email@,
                            profile_picture: profile_picture.deep_view(),
                            password_hash: password_hash@,
                        }),
                    )
                    &&& final(conn).reports == old(conn).reports
                    &&& final(conn).line_items == old(conn).line_items
                    &&& final(conn).proofs == old(conn).proofs
                    &&& final(conn).access_grants == old(conn).access_grants
                    &&& same_next_ids(*old(conn), *final(conn))
                },
                Err(e) => {
                    &&& *final(conn) == *old(conn)
                    &&& (e == RepoError::NotFound && !old(conn).has_user(id as int) || (e
                        == RepoError::UniqueViolation && old(conn).has_user(id as int) && (old(
                        conn,
                    ).username_taken_by_other(id as int, username@) || old(
                        conn,
                    ).email_taken_by_other(id as int, email@))))
                },
            },
    {
        Self::update_hash(id, username, email, profile_picture, password_hash, conn)
    }

    /// Rewrites only the username and email of the user with `id`, leaving
    /// the picture and the stored hash as they are, and returns its public
    /// face.
    ///
    /// `NotFound` if no user has `id`; `UniqueViolation` if another user
    /// already holds the username or email.
    pub fn update_info(id: i64, username: &str, email: &str, conn: &mut Store) -> (r: Result<
        UserInfo,
        RepoError,
    >)
        requires
            old(conn).wf(),
        ensures
            final(conn).wf(),
            match r {
                Ok(info) => {
                    &&& old(conn).has_user(id as int)
                    &&& !old(conn).username_taken_by_other(id as int, username@)
                    &&& !old(conn).email_taken_by_other(id as int, email@)
                    &&& info.username@ == username@
                    &&& info.email@ == email@
                    &&& final(conn).users_v() == old(conn).users_v().update(
                        old(conn).user_index(id as int),
                        (UserV {
                            id: id as int,
                            username: username@,
                            email: email@,
                            profile_picture: old(conn).user_at(id as int).profile_picture,
                            password_hash: old(conn).user_at(id as int).password_hash,
                        }),
                    )
                    &&& final(conn).reports == old(conn).reports
                    &&& final(conn).line_items == old(conn).line_items
                    &&& final(conn).proofs == old(conn).proofs
                    &&& final(conn).access_grants == old(conn).access_grants
                    &&& same_next_ids(*old(conn), *final(conn))
                },
                Err(e) => {
                    &&& *final(conn) == *old(conn)
                    &&& (e == RepoError::NotFound && !old(conn).has_user(id as int) || (e
                        == RepoError::UniqueViolation && old(conn).has_user(id as int) && (old(
                        conn,
                    ).username_taken_by_other(id as int, username@) || old(
                        conn,
                    ).email_taken_by_other(id as int, email@))))
                },
            },
    {
        let i = match user_position(id, conn) {
            Some(i) => i,
            None => {
                return Err(RepoError::NotFound);
            },
        };
        let username = username.to_string();
        let email = email.to_string();
        if username_taken_by_other(id, &username, conn) {
            return Err(RepoError::UniqueViolation);
        }
        if email_taken_by_other(id, &email, conn) {
            return Err(RepoError::UniqueViolation);
        }
        let info = UserInfo { username: username.clone(), email: email.clone() };
        let picture = match &conn.users[i].profile_picture {
            Some(p) => Some(p.clone()),
            None => None,
        };
        let hash = conn.users[i].password_hash.clone();
        let row = User { id, username, email, profile_picture: picture, password_hash: hash };
        let ghost rv = row.deep_view();
        proof {
            assert(rv.profile_picture =~~= old(conn).user_at(id as int).profile_picture);
        }
        conn.users[i] = row;
        proof {
            let pre = *old(conn);
            let post = *conn;
            let k = i as int;
            assert(post.reports_v() == pre.reports_v());
            assert(post.line_items_v() == pre.line_items_v());
            assert(post.proofs_v() == pre.proofs_v());
            assert(post.grants_v() == pre.grants_v());
            assert(post.users_v() =~= pre.users_v().update(k, rv));
            assert forall|j: int|
                0 <= j < post.users_v().len() && j != k implies #[trigger] post.users_v()[j]
                == pre.users_v()[j] by {
                assert(post.users_v()[j] == pre.users_v().update(k, rv)[j]);
            }
            assert(post.users_v()[k] == rv);
            assert(rv.id == pre.users_v()[k].id);
            assert forall|x: int| pre.has_user(x) implies post.has_user(x) by {
                let j = choose|j: int|
                    0 <= j < pre.users_v().len() && (#[trigger] pre.users_v()[j]).id == x;
                if j == k {
                    assert(post.users_v()[k].id == x);
                } else {
                    assert(post.users_v()[j].id == x);
                }
            }
            assert forall|x: int| pre.has_report(x) implies post.has_report(x) by {
                let j = choose|j: int|
                    0 <= j < pre.reports_v().len() && (#[trigger] pre.reports_v()[j]).id == x;
                assert(post.reports_v()[j].id == x);
            }
        }
        Ok(info)
    }

    /// Applies a whole new-user value over the user with `id`; exactly
    /// `update` with that value's fields.
    pub fn replace(id: i64, new: &NewUser, conn: &mut Store) -> (r: Result<UserInfo, RepoError>)
        requires
            old(conn).wf(),
        ensures
            final(conn).wf(),
            match r {
                Ok(info) => {
                    &&& old(conn).has_user(id as int)
                    &&& !old(conn).username_taken_by_other(id as int, new.username@)
                    &&& !old(conn).email_taken_by_other(id as int, new.email@)
                    &&& info.username@ == new.username@
                    &&& info.email@ == new.email@
                    &&& final(conn).users_v() == old(conn).users_v().update(
                        old(conn).user_index(id as int),
                        (UserV {
                            id: id as int,
                            username: new.username@,
                            email: new.email@,
                            profile_picture: new.profile_picture.deep_view(),
                            password_hash: new.password_hash@,
                        }),
                    )
                    &&& final(conn).reports == old(conn).reports
                    &&& final(conn).line_items == old(conn).line_items
                    &&& final(conn).proofs == old(conn).proofs
                    &&& final(conn).access_grants == old(conn).access_grants
                    &&& same_next_ids(*old(conn), *final(conn))
                },
                Err(e) => {
                    &&& *final(conn) == *old(conn)
                    &&& (e == RepoError::NotFound && !old(conn).has_user(id as int) || (e
                        == RepoError::UniqueViolation && old(conn).has_user(id as int) && (old(
                        conn,
                    ).username_taken_by_other(id as int, new.username@) || old(
                        conn,
                    ).email_taken_by_other(id as int, new.email@))))
                },
            },
    {
        let picture = match &new.profile_picture {
            Some(p) => {
                let q = p.clone();
                proof {
                    assert(q@ =~= p@);
                }
                Some(q)
            },
            None => None,
        };
        proof {
            assert(picture.deep_view() =~~= new.profile_picture.deep_view());
        }
        Self::update_hash(
            id,
            new.username.clone(),
            new.email.clone(),
            picture,
            new.password_hash.clone(),
            conn,
        )
    }

    /// Stores a profile picture for the user with `id` and returns the
    /// refreshed full row. `NotFound` (and an unchanged store) if no user
    /// has `id`.
    pub fn update_profile_picture(id: i64, profile_picture: &[u8], conn: &mut Store) -> (r: Result<
        User,
        RepoError,
    >)
        requires
            old(conn).wf(),
        ensures
            final(conn).wf(),
            match r {
                Ok(u) => {
                    &&& old(conn).has_user(id as int)
                    &&& u.deep_view() == (UserV {
                        id: id as int,
                        username: old(conn).user_at(id as int).username,
                        email: old(conn).user_at(id as int).email,
                        profile_picture: Some(profile_picture@),
                        password_hash: old(conn).user_at(id as int).password_hash,
                    })
                    &&& final(conn).users_v() == old(conn).users_v().update(
                        old(conn).user_index(id as int),
                        u.deep_view(),
                    )
                    &&& final(conn).reports == old(conn).reports
                    &&& final(conn).line_items == old(conn).line_items
                    &&& final(conn).proofs == old(conn).proofs
                    &&& final(conn).access_grants == old(conn).access_grants
                    &&& same_next_ids(*old(conn), *final(conn))
                },
                Err(e) => {
                    &&& e == RepoError::NotFound
                    &&& !old(conn).has_user(id as int)
                    &&& *final(conn) == *old(conn)
                },
            },
    {
        let i = match user_position(id, conn) {
            Some(i) => i,
            None => {
                return Err(RepoError::NotFound);
            },
        };
        let row = User {
            id,
            username: conn.users[i].username.clone(),
            email: conn.users[i].email.clone(),
            profile_picture: Some(vstd::slice::slice_to_vec(profile_picture)),
            password_hash: conn.users[i].password_hash.clone(),
        };
        let out = row.clone();
        let ghost rv = row.deep_view();
        proof {
            assert(rv.profile_picture =~~= Some(profile_picture@));
        }
        conn.users[i] = row;
        proof {
            let pre = *old(conn);
            let post = *conn;
            let k = i as int;
            assert(post.reports_v() == pre.reports_v());
            assert(post.line_items_v() == pre.line_items_v());
            assert(post.proofs_v() == pre.proofs_v());
            assert(post.grants_v() == pre.grants_v());
            assert(post.users_v() =~= pre.users_v().update(k, rv));
            assert forall|j: int|
                0 <= j < post.users_v().len() && j != k implies #[trigger] post.users_v()[j]
                == pre.users_v()[j] by {
                assert(post.users_v()[j] == pre.users_v().update(k, rv)[j]);
            }
            assert(post.users_v()[k] == rv);
            assert(rv.id == pre.users_v()[k].id);
            assert(rv.username == pre.users_v()[k].username);
            assert(rv.email == pre.users_v()[k].email);
            assert forall|x: int| pre.has_user(x) implies post.has_user(x) by {
                let j = choose|j: int|
                    0 <= j < pre.users_v().len() && (#[trigger] pre.users_v()[j]).id == x;
                if j == k {
                    assert(post.users_v()[k].id == x);
                } else {
                    assert(post.users_v()[j].id == x);
                }
            }
            assert forall|x: int| pre.has_report(x) implies post.has_report(x) by {
                let j = choose|j: int|
                    0 <= j < pre.reports_v().len() && (#[trigger] pre.reports_v()[j]).id == x;
                assert(post.reports_v()[j].id == x);
            }
        }
        Ok(out)
    }

    /// Stores a new hash, as handed over by the external hashing
    /// collaborator, for the user with `id`, and returns the refreshed full
    /// row. `NotFound` (and an unchanged store) if no user has `id`.
    pub fn update_password_hash(id: i64, password_hash: &str, conn: &mut Store) -> (r: Result<
        User,
        RepoError,
    >)
        requires
            old(conn).wf(),
        ensures
            final(conn).wf(),
            match r {
                Ok(u) => {
                    &&& old(conn).has_user(id as int)
                    &&& u.deep_view() == (UserV {
                        id: id as int,
                        username: old(conn).user_at(id as int).username,
                        email: old(conn).user_at(id as int).email,
                        profile_picture: old(conn).user_at(id as int).profile_picture,
                        password_hash: password_hash@,
                    })
                    &&& final(conn).users_v() == old(conn).users_v().update(
                        old(conn).user_index(id as int),
                        u.deep_view(),
                    )
                    &&& final(conn).reports == old(conn).reports
                    &&& final(conn).line_items == old(conn).line_items
                    &&& final(conn).proofs == old(conn).proofs
                    &&& final(conn).access_grants == old(conn).access_grants
                    &&& same_next_ids(*old(conn), *final(conn))
                },
                Err(e) => {
                    &&& e == RepoError::NotFound
                    &&& !old(conn).has_user(id as int)
                    &&& *final(conn) == *old(conn)
                },
            },
    {
        let i = match user_position(id, conn) {
            Some(i) => i,
            None => {
                return Err(RepoError::NotFound);
            },
        };
        let picture = match &conn.users[i].profile_picture {
            Some(p) => {
                let q = p.clone();
                proof {
                    assert(q@ =~= p@);
                }
                Some(q)
            },
            None => None,
        };
        let row = User {
            id,
            username: conn.users[i].username.clone(),
            email: conn.users[i].email.clone(),
            profile_picture: picture,
            password_hash: password_hash.to_string(),
        };
        let out = row.clone();
        let ghost rv = row.deep_view();
        proof {
            assert(rv.profile_picture =~~= old(conn).user_at(id as int).profile_picture);
        }
        conn.users[i] = row;
        proof {
            let pre = *old(conn);
            let post = *conn;
            let k = i as int;
            assert(post.reports_v() == pre.reports_v());
            assert(post.line_items_v() == pre.line_items_v());
            assert(post.proofs_v() == pre.proofs_v());
            assert(post.grants_v() == pre.grants_v());
            assert(post.users_v() =~= pre.users_v().update(k, rv));
            assert forall|j: int|
                0 <= j < post.users_v().len() && j != k implies #[trigger] post.users_v()[j]
                == pre.users_v()[j] by {
                assert(post.users_v()[j] == pre.users_v().update(k, rv)[j]);
            }
            assert(post.users_v()[k] == rv);
            assert(rv.id == pre.users_v()[k].id);
            assert(rv.username == pre.users_v()[k].username);
            assert(rv.email == pre.users_v()[k].email);
            assert forall|x: int| pre.has_user(x) implies post.has_user(x) by {
                let j = choose|j: int|
                    0 <= j < pre.users_v().len() && (#[trigger] pre.users_v()[j]).id == x;
                if j == k {
                    assert(post.users_v()[k].id == x);
                } else {
                    assert(post.users_v()[j].id == x);
                }
            }
            assert forall|x: int| pre.has_report(x) implies post.has_report(x) by {
                let j = choose|j: int|
                    0 <= j < pre.reports_v().len() && (#[trigger] pre.reports_v()[j]).id == x;
                assert(post.reports_v()[j].id == x);
            }
        }
        Ok(out)
    }
}

} // verus!
