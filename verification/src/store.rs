//! The backing store: one table per entity, with the invariants the
//! repositories rely on.
//!
//! A [`Store`] stands in for the relational engine: five tables held in
//! insertion order, and one id sequence per table, starting at 1. Its
//! well-formedness [`Store::wf`] pins down what the schema enforces —
//! unique ids below the next free id, unique usernames and emails, and
//! foreign keys that always resolve: every report has an existing owner,
//! and every line item, proof, and access grant an existing report.
//!
//! Repository operations take the store the way the original operations
//! took a checked-out connection: one `&mut Store` (or `&Store` for reads)
//! per call. Checkout failure is the boundary's concern and surfaces as
//! [`crate::error::RepoError::Unavailable`] there.

use crate::models::{
    Report, ReportAccess, ReportAccessV, ReportLineItem, ReportLineItemV, ReportProof,
    ReportProofV, ReportV, User, UserV,
};
use vstd::prelude::*;

verus! {

// ------------------------------------------------------------ row predicates
// Named predicates shared by the query contracts and the loops that
// implement them, so both speak of one and the same function.
/// Reports owned by `owner_id`.
pub open spec fn owned_by(owner_id: int) -> spec_fn(ReportV) -> bool {
    |r: ReportV| r.owner_id == owner_id
}

/// Line items scoped to `report_id`.
pub open spec fn item_of(report_id: int) -> spec_fn(ReportLineItemV) -> bool {
    |it: ReportLineItemV| it.report_id == report_id
}

/// Line items scoped to any other report.
pub open spec fn item_not_of(report_id: int) -> spec_fn(ReportLineItemV) -> bool {
    |it: ReportLineItemV| it.report_id != report_id
}

/// Proofs scoped to `report_id`.
pub open spec fn proof_of(report_id: int) -> spec_fn(ReportProofV) -> bool {
    |p: ReportProofV| p.report_id == report_id
}

/// Proofs scoped to any other report.
pub open spec fn proof_not_of(report_id: int) -> spec_fn(ReportProofV) -> bool {
    |p: ReportProofV| p.report_id != report_id
}

/// Grants scoped to `report_id`.
pub open spec fn grant_of(report_id: int) -> spec_fn(ReportAccessV) -> bool {
    |g: ReportAccessV| g.report_id == report_id
}

/// Grants scoped to any other report.
pub open spec fn grant_not_of(report_id: int) -> spec_fn(ReportAccessV) -> bool {
    |g: ReportAccessV| g.report_id != report_id
}

/// Grants held by `borrower_id`.
pub open spec fn grant_by(borrower_id: int) -> spec_fn(ReportAccessV) -> bool {
    |g: ReportAccessV| g.borrower_id == borrower_id
}

/// Grants held by `borrower_id` that carry read access.
pub open spec fn read_grant_by(borrower_id: int) -> spec_fn(ReportAccessV) -> bool {
    |g: ReportAccessV| g.borrower_id == borrower_id && g.read_access
}

/// The five tables and their id sequences.
pub struct Store {
    pub users: Vec<User>,
    pub reports: Vec<Report>,
    pub line_items: Vec<ReportLineItem>,
    pub proofs: Vec<ReportProof>,
    pub access_grants: Vec<ReportAccess>,
    pub next_user_id: i64,
    pub next_report_id: i64,
    pub next_line_item_id: i64,
    pub next_proof_id: i64,
    pub next_access_id: i64,
}

impl Store {
    // ------------------------------------------------------------ table views
    pub open spec fn users_v(self) -> Seq<UserV> {
        self.users.deep_view()
    }

    pub open spec fn reports_v(self) -> Seq<ReportV> {
        self.reports.deep_view()
    }

    pub open spec fn line_items_v(self) -> Seq<ReportLineItemV> {
        self.line_items.deep_view()
    }

    pub open spec fn proofs_v(self) -> Seq<ReportProofV> {
        self.proofs.deep_view()
    }

    pub open spec fn grants_v(self) -> Seq<ReportAccessV> {
        self.access_grants.deep_view()
    }

    // ------------------------------------------------------- users, by lookup
    pub open spec fn has_user(self, id: int) -> bool {
        exists|i: int| 0 <= i < self.users_v().len() && (#[trigger] self.users_v()[i]).id == id
    }

    pub open spec fn user_index(self, id: int) -> int {
        choose|i: int| 0 <= i < self.users_v().len() && (#[trigger] self.users_v()[i]).id == id
    }

    /// The user row with the given id (meaningful only when `has_user`).
    pub open spec fn user_at(self, id: int) -> UserV {
        self.users_v()[self.user_index(id)]
    }

    pub open spec fn has_username(self, username: Seq<char>) -> bool {
        exists|i: int|
            0 <= i < self.users_v().len() && (#[trigger] self.users_v()[i]).username == username
    }

    pub open spec fn has_email(self, email: Seq<char>) -> bool {
        exists|i: int|
            0 <= i < self.users_v().len() && (#[trigger] self.users_v()[i]).email == email
    }

    /// Whether some user other than `id` already holds `username`.
    pub open spec fn username_taken_by_other(self, id: int, username: Seq<char>) -> bool {
        exists|i: int|
            0 <= i < self.users_v().len() && (#[trigger] self.users_v()[i]).username == username
                && self.users_v()[i].id != id
    }

    /// Whether some user other than `id` already holds `email`.
    pub open spec fn email_taken_by_other(self, id: int, email: Seq<char>) -> bool {
        exists|i: int|
            0 <= i < self.users_v().len() && (#[trigger] self.users_v()[i]).email == email
                && self.users_v()[i].id != id
    }

    /// Whether any report names `id` as its owner.
    pub open spec fn user_owns_reports(self, id: int) -> bool {
        exists|i: int|
            0 <= i < self.reports_v().len() && (#[trigger] self.reports_v()[i]).owner_id == id
    }

    /// Whether any grant names `id` as its borrower.
    pub open spec fn user_borrows(self, id: int) -> bool {
        exists|i: int|
            0 <= i < self.grants_v().len() && (#[trigger] self.grants_v()[i]).borrower_id == id
    }

    // ----------------------------------------------------- reports, by lookup
    pub open spec fn has_report(self, id: int) -> bool {
        exists|i: int| 0 <= i < self.reports_v().len() && (#[trigger] self.reports_v()[i]).id == id
    }

    pub open spec fn report_index(self, id: int) -> int {
        choose|i: int| 0 <= i < self.reports_v().len() && (#[trigger] self.reports_v()[i]).id == id
    }

    /// The report row with the given id (meaningful only when `has_report`).
    pub open spec fn report_at(self, id: int) -> ReportV {
        self.reports_v()[self.report_index(id)]
    }

    /// All reports owned outright by `owner_id`, in table order.
    pub open spec fn reports_of_owner(self, owner_id: int) -> Seq<ReportV> {
        self.reports_v().filter(owned_by(owner_id))
    }

    // -------------------------------------------------- line items, by lookup
    pub open spec fn has_line_item(self, id: int) -> bool {
        exists|i: int|
            0 <= i < self.line_items_v().len() && (#[trigger] self.line_items_v()[i]).id == id
    }

    pub open spec fn line_item_index(self, id: int) -> int {
        choose|i: int|
            0 <= i < self.line_items_v().len() && (#[trigger] self.line_items_v()[i]).id == id
    }

    /// The line-item row with the given id (meaningful only when
    /// `has_line_item`).
    pub open spec fn line_item_at(self, id: int) -> ReportLineItemV {
        self.line_items_v()[self.line_item_index(id)]
    }

    /// Whether the composite key `(report_id, id)` addresses a line item:
    /// the row with `id` must also belong to `report_id`.
    pub open spec fn has_line_item_path(self, report_id: int, id: int) -> bool {
        self.has_line_item(id) && self.line_item_at(id).report_id == report_id
    }

    /// All line items of one report, in table order.
    pub open spec fn items_of(self, report_id: int) -> Seq<ReportLineItemV> {
        self.line_items_v().filter(item_of(report_id))
    }

    // ------------------------------------------------------ proofs, by lookup
    pub open spec fn has_proof(self, id: int) -> bool {
        exists|i: int| 0 <= i < self.proofs_v().len() && (#[trigger] self.proofs_v()[i]).id == id
    }

    pub open spec fn proof_index(self, id: int) -> int {
        choose|i: int| 0 <= i < self.proofs_v().len() && (#[trigger] self.proofs_v()[i]).id == id
    }

    /// The proof row with the given id (meaningful only when `has_proof`).
    pub open spec fn proof_at(self, id: int) -> ReportProofV {
        self.proofs_v()[self.proof_index(id)]
    }

    /// Whether the composite key `(report_id, id)` addresses a proof.
    pub open spec fn has_proof_path(self, report_id: int, id: int) -> bool {
        self.has_proof(id) && self.proof_at(id).report_id == report_id
    }

    /// All proofs of one report, in table order.
    pub open spec fn proofs_of(self, report_id: int) -> Seq<ReportProofV> {
        self.proofs_v().filter(proof_of(report_id))
    }

    // ------------------------------------------------------ grants, by lookup
    pub open spec fn has_grant(self, id: int) -> bool {
        exists|i: int| 0 <= i < self.grants_v().len() && (#[trigger] self.grants_v()[i]).id == id
    }

    pub open spec fn grant_index(self, id: int) -> int {
        choose|i: int| 0 <= i < self.grants_v().len() && (#[trigger] self.grants_v()[i]).id == id
    }

    /// The grant row with the given id (meaningful only when `has_grant`).
    pub open spec fn grant_at(self, id: int) -> ReportAccessV {
        self.grants_v()[self.grant_index(id)]
    }

    /// Whether the composite key `(report_id, id)` addresses a grant.
    pub open spec fn has_grant_path(self, report_id: int, id: int) -> bool {
        self.has_grant(id) && self.grant_at(id).report_id == report_id
    }

    /// All grants scoped to one report, in table order.
    pub open spec fn grants_of(self, report_id: int) -> Seq<ReportAccessV> {
        self.grants_v().filter(grant_of(report_id))
    }

    /// All grants held by one borrower, whatever the flags say.
    pub open spec fn grants_of_borrower(self, borrower_id: int) -> Seq<ReportAccessV> {
        self.grants_v().filter(grant_by(borrower_id))
    }

    /// The grants of one borrower that carry read access.
    pub open spec fn read_grants_of_borrower(self, borrower_id: int) -> Seq<ReportAccessV> {
        self.grants_v().filter(read_grant_by(borrower_id))
    }

    /// Whether any grant, whatever its flags, ties `borrower_id` to
    /// `report_id`.
    pub open spec fn has_any_grant(self, borrower_id: int, report_id: int) -> bool {
        exists|i: int|
            0 <= i < self.grants_v().len() && (#[trigger] self.grants_v()[i]).borrower_id
                == borrower_id && self.grants_v()[i].report_id == report_id
    }

    /// Whether a grant with `read_access` ties `borrower_id` to `report_id`.
    pub open spec fn has_read_grant(self, borrower_id: int, report_id: int) -> bool {
        exists|i: int|
            0 <= i < self.grants_v().len() && (#[trigger] self.grants_v()[i]).borrower_id
                == borrower_id && self.grants_v()[i].report_id == report_id
                && self.grants_v()[i].read_access
    }

    /// Whether a grant with `write_access` ties `borrower_id` to `report_id`.
    pub open spec fn has_write_grant(self, borrower_id: int, report_id: int) -> bool {
        exists|i: int|
            0 <= i < self.grants_v().len() && (#[trigger] self.grants_v()[i]).borrower_id
                == borrower_id && self.grants_v()[i].report_id == report_id
                && self.grants_v()[i].write_access
    }

    /// Whether a report's id is granted to the borrower at all.
    pub open spec fn granted_any(self, borrower_id: int) -> spec_fn(ReportV) -> bool {
        |r: ReportV| self.has_any_grant(borrower_id, r.id)
    }

    /// Whether a report's id is granted to the borrower for reading.
    pub open spec fn granted_read(self, borrower_id: int) -> spec_fn(ReportV) -> bool {
        |r: ReportV| self.has_read_grant(borrower_id, r.id)
    }

    /// Whether a report's id is granted to the borrower for writing.
    pub open spec fn granted_write(self, borrower_id: int) -> spec_fn(ReportV) -> bool {
        |r: ReportV| self.has_write_grant(borrower_id, r.id)
    }

    /// Every report the borrower holds any grant for, in table order.
    pub open spec fn visible_reports(self, borrower_id: int) -> Seq<ReportV> {
        self.reports_v().filter(self.granted_any(borrower_id))
    }

    /// Every report the borrower holds a read grant for, in table order.
    pub open spec fn readable_reports(self, borrower_id: int) -> Seq<ReportV> {
        self.reports_v().filter(self.granted_read(borrower_id))
    }

    /// Every report the borrower holds a write grant for, in table order.
    pub open spec fn writable_reports(self, borrower_id: int) -> Seq<ReportV> {
        self.reports_v().filter(self.granted_write(borrower_id))
    }

    // -------------------------------------------------------- well-formedness
    /// Row ids never repeat within a table.
    pub open spec fn ids_distinct(self) -> bool {
        &&& forall|i: int, j: int|
            0 <= i < j < self.users_v().len() ==> (#[trigger] self.users_v()[i]).id != (
            #[trigger] self.users_v()[j]).id
        &&& forall|i: int, j: int|
            0 <= i < j < self.reports_v().len() ==> (#[trigger] self.reports_v()[i]).id != (
            #[trigger] self.reports_v()[j]).id
        &&& forall|i: int, j: int|
            0 <= i < j < self.line_items_v().len() ==> (#[trigger] self.line_items_v()[i]).id != (
            #[trigger] self.line_items_v()[j]).id
        &&& forall|i: int, j: int|
            0 <= i < j < self.proofs_v().len() ==> (#[trigger] self.proofs_v()[i]).id != (
            #[trigger] self.proofs_v()[j]).id
        &&& forall|i: int, j: int|
            0 <= i < j < self.grants_v().len() ==> (#[trigger] self.grants_v()[i]).id != (
            #[trigger] self.grants_v()[j]).id
    }

    /// Usernames and emails identify a user uniquely.
    pub open spec fn identities_distinct(self) -> bool {
        &&& forall|i: int, j: int|
            0 <= i < j < self.users_v().len() ==> (#[trigger] self.users_v()[i]).username != (
            #[trigger] self.users_v()[j]).username
        &&& forall|i: int, j: int|
            0 <= i < j < self.users_v().len() ==> (#[trigger] self.users_v()[i]).email != (
            #[trigger] self.users_v()[j]).email
    }

    /// Every id sits in `1 ..` and below its table's next free id.
    pub open spec fn ids_below_next(self) -> bool {
        &&& forall|i: int|
            0 <= i < self.users_v().len() ==> 1 <= (#[trigger] self.users_v()[i]).id
                < self.next_user_id
        &&& forall|i: int|
            0 <= i < self.reports_v().len() ==> 1 <= (#[trigger] self.reports_v()[i]).id
                < self.next_report_id
        &&& forall|i: int|
            0 <= i < self.line_items_v().len() ==> 1 <= (#[trigger] self.line_items_v()[i]).id
                < self.next_line_item_id
        &&& forall|i: int|
            0 <= i < self.proofs_v().len() ==> 1 <= (#[trigger] self.proofs_v()[i]).id
                < self.next_proof_id
        &&& forall|i: int|
            0 <= i < self.grants_v().len() ==> 1 <= (#[trigger] self.grants_v()[i]).id
                < self.next_access_id
    }

    /// Foreign keys always resolve: reports to their owner, child rows to
    /// their report, grants also to their borrower.
    pub open spec fn foreign_keys_hold(self) -> bool {
        &&& forall|i: int|
            0 <= i < self.reports_v().len() ==> self.has_user(
                (#[trigger] self.reports_v()[i]).owner_id,
            )
        &&& forall|i: int|
            0 <= i < self.line_items_v().len() ==> self.has_report(
                (#[trigger] self.line_items_v()[i]).report_id,
            )
        &&& forall|i: int|
            0 <= i < self.proofs_v().len() ==> self.has_report(
                (#[trigger] self.proofs_v()[i]).report_id,
            )
        &&& forall|i: int|
            0 <= i < self.grants_v().len() ==> self.has_report(
                (#[trigger] self.grants_v()[i]).report_id,
            ) && self.has_user(self.grants_v()[i].borrower_id)
    }

    /// What the schema guarantees of every reachable store.
    pub open spec fn wf(self) -> bool {
        &&& 1 <= self.next_user_id
        &&& 1 <= self.next_report_id
        &&& 1 <= self.next_line_item_id
        &&& 1 <= self.next_proof_id
        &&& 1 <= self.next_access_id
        &&& self.ids_distinct()
        &&& self.identities_distinct()
        &&& self.ids_below_next()
        &&& self.foreign_keys_hold()
    }

    // ------------------------------------------------------------ constructor
    /// A fresh, empty store; every id sequence starts at 1.
    pub fn new() -> (r: Store)
        ensures
            r.wf(),
            r.users_v() == Seq::<UserV>::empty(),
            r.reports_v() == Seq::<ReportV>::empty(),
            r.line_items_v() == Seq::<ReportLineItemV>::empty(),
            r.proofs_v() == Seq::<ReportProofV>::empty(),
            r.grants_v() == Seq::<ReportAccessV>::empty(),
            r.next_user_id == 1,
            r.next_report_id == 1,
            r.next_line_item_id == 1,
            r.next_proof_id == 1,
            r.next_access_id == 1,
    {
        Store {
            users: Vec::new(),
            reports: Vec::new(),
            line_items: Vec::new(),
            proofs: Vec::new(),
            access_grants: Vec::new(),
            next_user_id: 1,
            next_report_id: 1,
            next_line_item_id: 1,
            next_proof_id: 1,
            next_access_id: 1,
        }
    }

    // ------------------------------------------------------ membership checks
    /// Whether a user row with `id` exists.
    pub fn contains_user(&self, id: i64) -> (r: bool)
        ensures
            r == self.has_user(id as int),
    {
        let mut i: usize = 0;
        while i < self.users.len()
            invariant
                i <= self.users.len(),
                forall|j: int| 0 <= j < i ==> (#[trigger] self.users_v()[j]).id != id as int,
            decreases self.users.len() - i,
        {
            if self.users[i].id == id {
                assert(self.users_v()[i as int].id == id as int);
                return true;
            }
            i = i + 1;
        }
        false
    }

    /// Whether a report row with `id` exists.
    pub fn contains_report(&self, id: i64) -> (r: bool)
        ensures
            r == self.has_report(id as int),
    {
        let mut i: usize = 0;
        while i < self.reports.len()
            invariant
                i <= self.reports.len(),
                forall|j: int| 0 <= j < i ==> (#[trigger] self.reports_v()[j]).id != id as int,
            decreases self.reports.len() - i,
        {
            if self.reports[i].id == id {
                assert(self.reports_v()[i as int].id == id as int);
                return true;
            }
            i = i + 1;
        }
        false
    }

    // ------------------------------------------------------- uniqueness facts
    /// In a well-formed store, a row's position is the one its id chooses.
    pub proof fn lemma_user_pinned(self, i: int)
        requires
            self.wf(),
            0 <= i < self.users_v().len(),
        ensures
            self.has_user(self.users_v()[i].id),
            self.user_index(self.users_v()[i].id) == i,
            self.user_at(self.users_v()[i].id) == self.users_v()[i],
    {
        let id = self.users_v()[i].id;
        assert(self.has_user(id));
        let j = self.user_index(id);
        if i != j {
            assert(self.users_v()[i].id != self.users_v()[j].id);
        }
    }

    /// In a well-formed store, a report's position is the one its id chooses.
    pub proof fn lemma_report_pinned(self, i: int)
        requires
            self.wf(),
            0 <= i < self.reports_v().len(),
        ensures
            self.has_report(self.reports_v()[i].id),
            self.report_index(self.reports_v()[i].id) == i,
            self.report_at(self.reports_v()[i].id) == self.reports_v()[i],
    {
        let id = self.reports_v()[i].id;
        assert(self.has_report(id));
        let j = self.report_index(id);
        if i != j {
            assert(self.reports_v()[i].id != self.reports_v()[j].id);
        }
    }

    /// In a well-formed store, a line item's position is the one its id
    /// chooses.
    pub proof fn lemma_line_item_pinned(self, i: int)
        requires
            self.wf(),
            0 <= i < self.line_items_v().len(),
        ensures
            self.has_line_item(self.line_items_v()[i].id),
            self.line_item_index(self.line_items_v()[i].id) == i,
            self.line_item_at(self.line_items_v()[i].id) == self.line_items_v()[i],
    {
        let id = self.line_items_v()[i].id;
        assert(self.has_line_item(id));
        let j = self.line_item_index(id);
        if i != j {
            assert(self.line_items_v()[i].id != self.line_items_v()[j].id);
        }
    }

    /// In a well-formed store, a proof's position is the one its id chooses.
    pub proof fn lemma_proof_pinned(self, i: int)
        requires
            self.wf(),
            0 <= i < self.proofs_v().len(),
        ensures
            self.has_proof(self.proofs_v()[i].id),
            self.proof_index(self.proofs_v()[i].id) == i,
            self.proof_at(self.proofs_v()[i].id) == self.proofs_v()[i],
    {
        let id = self.proofs_v()[i].id;
        assert(self.has_proof(id));
        let j = self.proof_index(id);
        if i != j {
            assert(self.proofs_v()[i].id != self.proofs_v()[j].id);
        }
    }

    /// In a well-formed store, a grant's position is the one its id chooses.
    pub proof fn lemma_grant_pinned(self, i: int)
        requires
            self.wf(),
            0 <= i < self.grants_v().len(),
        ensures
            self.has_grant(self.grants_v()[i].id),
            self.grant_index(self.grants_v()[i].id) == i,
            self.grant_at(self.grants_v()[i].id) == self.grants_v()[i],
    {
        let id = self.grants_v()[i].id;
        assert(self.has_grant(id));
        let j = self.grant_index(id);
        if i != j {
            assert(self.grants_v()[i].id != self.grants_v()[j].id);
        }
    }
}

// ----------------------------------------------------------------- frame facts
/// The user table and its id sequence are untouched.
pub open spec fn same_users(pre: Store, post: Store) -> bool {
    post.users == pre.users && post.next_user_id == pre.next_user_id
}

/// The report table and its id sequence are untouched.
pub open spec fn same_reports(pre: Store, post: Store) -> bool {
    post.reports == pre.reports && post.next_report_id == pre.next_report_id
}

/// The line-item table and its id sequence are untouched.
pub open spec fn same_line_items(pre: Store, post: Store) -> bool {
    post.line_items == pre.line_items && post.next_line_item_id == pre.next_line_item_id
}

/// The proof table and its id sequence are untouched.
pub open spec fn same_proofs(pre: Store, post: Store) -> bool {
    post.proofs == pre.proofs && post.next_proof_id == pre.next_proof_id
}

/// The grant table and its id sequence are untouched.
pub open spec fn same_grants(pre: Store, post: Store) -> bool {
    post.access_grants == pre.access_grants && post.next_access_id == pre.next_access_id
}

/// No id sequence moved.
pub open spec fn same_next_ids(pre: Store, post: Store) -> bool {
    &&& post.next_user_id == pre.next_user_id
    &&& post.next_report_id == pre.next_report_id
    &&& post.next_line_item_id == pre.next_line_item_id
    &&& post.next_proof_id == pre.next_proof_id
    &&& post.next_access_id == pre.next_access_id
}

// --------------------------------------------------------------- filter facts
/// Filtering a sequence extended by one element keeps the element exactly
/// when the predicate holds of it.
pub proof fn lemma_filter_push<T>(s: Seq<T>, pred: spec_fn(T) -> bool, x: T)
    ensures
        pred(x) ==> s.push(x).filter(pred) == s.filter(pred).push(x),
        !pred(x) ==> s.push(x).filter(pred) == s.filter(pred),
{
    reveal(Seq::filter);
    assert(s.push(x).drop_last() =~= s);
    assert(s.push(x).last() == x);
}

/// A sequence none of whose elements satisfy the predicate filters to the
/// empty sequence.
pub proof fn lemma_filter_none<T>(s: Seq<T>, pred: spec_fn(T) -> bool)
    requires
        forall|i: int| 0 <= i < s.len() ==> !pred(#[trigger] s[i]),
    ensures
        s.filter(pred) == Seq::<T>::empty(),
    decreases s.len(),
{
    reveal(Seq::filter);
    if s.len() > 0 {
        assert(forall|i: int| 0 <= i < s.drop_last().len() ==> !pred(#[trigger] s.drop_last()[i]));
        lemma_filter_none(s.drop_last(), pred);
    }
}

/// Every element of a filtered sequence occurs in the sequence it was
/// filtered from.
pub proof fn lemma_filter_contained<T>(s: Seq<T>, pred: spec_fn(T) -> bool)
    ensures
        forall|i: int| 0 <= i < s.filter(pred).len() ==> s.contains(#[trigger] s.filter(pred)[i]),
    decreases s.len(),
{
    reveal(Seq::filter);
    if s.len() > 0 {
        let t = s.drop_last();
        lemma_filter_contained(t, pred);
        assert forall|i: int| 0 <= i < s.filter(pred).len() implies s.contains(
            #[trigger] s.filter(pred)[i],
        ) by {
            if i < t.filter(pred).len() {
                let x = t.filter(pred)[i];
                assert(t.contains(x));
                let j = choose|j: int| 0 <= j < t.len() && t[j] == x;
                assert(s[j] == x);
            } else {
                assert(s.filter(pred)[i] == s.last());
                assert(s[s.len() - 1] == s.last());
            }
        }
    }
}

/// Filtering keeps a projection's distinctness: if no two elements project
/// to the same value, neither do two elements of the filtered sequence.
pub proof fn lemma_filter_distinct<T, K>(s: Seq<T>, pred: spec_fn(T) -> bool, proj: spec_fn(T) -> K)
    requires
        forall|i: int, j: int| 0 <= i < j < s.len() ==> proj(#[trigger] s[i]) != proj(
            #[trigger] s[j],
        ),
    ensures
        forall|i: int, j: int|
            0 <= i < j < s.filter(pred).len() ==> proj(#[trigger] s.filter(pred)[i]) != proj(
                #[trigger] s.filter(pred)[j],
            ),
    decreases s.len(),
{
    reveal(Seq::filter);
    if s.len() > 0 {
        let t = s.drop_last();
        assert(forall|i: int| 0 <= i < t.len() ==> t[i] == #[trigger] s[i]);
        lemma_filter_distinct(t, pred, proj);
        lemma_filter_contained(t, pred);
        assert forall|i: int, j: int| 0 <= i < j < s.filter(pred).len() implies proj(
            #[trigger] s.filter(pred)[i],
        ) != proj(#[trigger] s.filter(pred)[j]) by {
            if j < t.filter(pred).len() {
            } else {
                // j names the appended last element; i still lies in t's part
                assert(s.filter(pred)[j] == s.last());
                let x = t.filter(pred)[i];
                assert(t.contains(x));
                let k = choose|k: int| 0 <= k < t.len() && t[k] == x;
                assert(proj(s[k]) != proj(s[s.len() - 1]));
            }
        }
    }
}

} // verus!

