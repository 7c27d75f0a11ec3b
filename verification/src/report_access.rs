//! Access grants and the access resolver.
//!
//! A grant is a capability row: it gives a borrower read and/or write
//! visibility into one report and never conveys ownership. The resolver
//! queries return the reports a borrower can see — every granted report,
//! only the read-granted ones, or only the write-granted ones. Ownership is
//! a separate, unconditional path through `Report::get_by_owner`; callers
//! wanting "everything a user may see" union the two themselves.

use crate::error::RepoError;
use crate::models::{NewReportAccess, Report, ReportAccess, ReportAccessV, ReportV, User};
use crate::store::{
    grant_by, grant_not_of, grant_of, lemma_filter_contained, lemma_filter_distinct,
    lemma_filter_none, lemma_filter_push, read_grant_by, same_line_items, same_next_ids,
    same_proofs, same_reports, same_users, Store,
};
use crate::traits::{Builder, HasBuilder};
use vstd::prelude::*;

verus! {

// -------------------------------------------------------------------- builder
/// Accumulates the fields of a new grant; `borrower_id` and `report_id` are
/// required, the two flags default to `false` and never block construction.
#[derive(Debug)]
pub struct NewReportAccessBuilder {
    pub borrower_id: Option<i64>,
    pub report_id: Option<i64>,
    pub read_access: bool,
    pub write_access: bool,
}

impl NewReportAccessBuilder {
    /// A builder with both id slots empty and both flags down.
    pub fn new() -> (r: Self)
        ensures
            r == (NewReportAccessBuilder {
                borrower_id: None,
                report_id: None,
                read_access: false,
                write_access: false,
            }),
    {
        NewReportAccessBuilder {
            borrower_id: None,
            report_id: None,
            read_access: false,
            write_access: false,
        }
    }

    /// Takes the borrower id from an already-persisted user.
    pub fn borrower(&mut self, borrower: &User) -> (r: &mut Self)
        ensures
            *r == (NewReportAccessBuilder { borrower_id: Some(borrower.id), ..*old(self) }),
            *final(self) == *final(r),
    {
        self.borrower_id = Some(borrower.id);
        self
    }

    /// Sets the borrower id; a later call overwrites an earlier one.
    pub fn borrower_id(&mut self, borrower_id: i64) -> (r: &mut Self)
        ensures
            *r == (NewReportAccessBuilder { borrower_id: Some(borrower_id), ..*old(self) }),
            *final(self) == *final(r),
    {
        self.borrower_id = Some(borrower_id);
        self
    }

    /// Takes the report id from an already-persisted report.
    pub fn report(&mut self, report: &Report) -> (r: &mut Self)
        ensures
            *r == (NewReportAccessBuilder { report_id: Some(report.id), ..*old(self) }),
            *final(self) == *final(r),
    {
        self.report_id = Some(report.id);
        self
    }

    /// Sets the report id; a later call overwrites an earlier one.
    pub fn report_id(&mut self, report_id: i64) -> (r: &mut Self)
        ensures
            *r == (NewReportAccessBuilder { report_id: Some(report_id), ..*old(self) }),
            *final(self) == *final(r),
    {
        self.report_id = Some(report_id);
        self
    }

    /// Sets the read flag; a later call overwrites an earlier one.
    pub fn read_access(&mut self, access: bool) -> (r: &mut Self)
        ensures
            *r == (NewReportAccessBuilder { read_access: access, ..*old(self) }),
            *final(self) == *final(r),
    {
        self.read_access = access;
        self
    }

    /// Sets the write flag; a later call overwrites an earlier one.
    pub fn write_access(&mut self, access: bool) -> (r: &mut Self)
        ensures
            *r == (NewReportAccessBuilder { write_access: access, ..*old(self) }),
            *final(self) == *final(r),
    {
        self.write_access = access;
        self
    }
}

impl Default for NewReportAccessBuilder {
    /// A builder with both id slots empty and both flags down.
    fn default() -> (r: Self)
        ensures
            r == (NewReportAccessBuilder {
                borrower_id: None,
                report_id: None,
                read_access: false,
                write_access: false,
            }),
    {
        NewReportAccessBuilder::new()
    }
}

impl Builder<NewReportAccess> for NewReportAccessBuilder {
    type Output = NewReportAccess;

    /// Yields the new grant exactly when both required ids are set; the
    /// value carries each flag as it was last set.
    fn build(&self) -> (r: Option<NewReportAccess>)
        ensures
            r is Some <==> (self.borrower_id is Some && self.report_id is Some),
            r is Some ==> r.unwrap() == (NewReportAccess {
                borrower_id: self.borrower_id.unwrap(),
                report_id: self.report_id.unwrap(),
                read_access: self.read_access,
                write_access: self.write_access,
            }),
    {
        match (&self.borrower_id, &self.report_id) {
            (Some(borrower_id), Some(report_id)) => Some(
                NewReportAccess {
                    borrower_id: *borrower_id,
                    report_id: *report_id,
                    read_access: self.read_access,
                    write_access: self.write_access,
                },
            ),
            _ => None,
        }
    }
}

impl HasBuilder<NewReportAccessBuilder, Self> for NewReportAccess {
    fn builder() -> (r: NewReportAccessBuilder)
        ensures
            r == (NewReportAccessBuilder {
                borrower_id: None,
                report_id: None,
                read_access: false,
                write_access: false,
            }),
    {
        NewReportAccessBuilder::new()
    }
}

impl HasBuilder<NewReportAccessBuilder, NewReportAccess> for ReportAccess {
    fn builder() -> (r: NewReportAccessBuilder)
        ensures
            r == (NewReportAccessBuilder {
                borrower_id: None,
                report_id: None,
                read_access: false,
                write_access: false,
            }),
    {
        NewReportAccessBuilder::new()
    }
}

// --------------------------------------------------------------------- insert
/// Appending one freshly-id'd row keeps the store well-formed.
proof fn lemma_insert_grant_wf(pre: Store, post: Store, g: ReportAccessV)
    requires
        pre.wf(),
        pre.next_access_id < i64::MAX,
        g.id == pre.next_access_id as int,
        pre.has_report(g.report_id),
        pre.has_user(g.borrower_id),
        post.grants_v() == pre.grants_v().push(g),
        post.next_access_id == pre.next_access_id + 1,
        same_users(pre, post),
        same_reports(pre, post),
        same_line_items(pre, post),
        same_proofs(pre, post),
    ensures
        post.wf(),
{
    assert(post.users_v() == pre.users_v());
    assert(post.reports_v() == pre.reports_v());
    assert(post.line_items_v() == pre.line_items_v());
    assert(post.proofs_v() == pre.proofs_v());
    assert forall|x: int| pre.has_report(x) implies post.has_report(x) by {
        let k = choose|k: int|
            0 <= k < pre.reports_v().len() && (#[trigger] pre.reports_v()[k]).id == x;
        assert(post.reports_v()[k].id == x);
    }
    assert forall|x: int| pre.has_user(x) implies post.has_user(x) by {
        let k = choose|k: int| 0 <= k < pre.users_v().len() && (#[trigger] pre.users_v()[k]).id == x;
        assert(post.users_v()[k].id == x);
    }
}

impl NewReportAccess {
    /// Persists the grant under a fresh id and returns the stored row.
    ///
    /// Fails with `ConstraintViolation` exactly when the borrower or the
    /// report does not exist; the store is then unchanged.
    pub fn insert(&self, conn: &mut Store) -> (r: Result<ReportAccess, RepoError>)
        requires
            old(conn).wf(),
            old(conn).next_access_id < i64::MAX,
        ensures
            final(conn).wf(),
            match r {
                Ok(g) => {
                    &&& old(conn).has_user(self.borrower_id as int)
                    &&& old(conn).has_report(self.report_id as int)
                    &&& g.deep_view() == self.with_id(old(conn).next_access_id as int)
                    &&& final(conn).grants_v() == old(conn).grants_v().push(
                        self.with_id(old(conn).next_access_id as int),
                    )
                    &&& final(conn).next_access_id == old(conn).next_access_id + 1
                    &&& same_users(*old(conn), *final(conn))
                    &&& same_reports(*old(conn), *final(conn))
                    &&& same_line_items(*old(conn), *final(conn))
                    &&& same_proofs(*old(conn), *final(conn))
                },
                Err(e) => {
                    &&& e == RepoError::ConstraintViolation
                    &&& !(old(conn).has_user(self.borrower_id as int) && old(conn).has_report(
                        self.report_id as int,
                    ))
                    &&& *final(conn) == *old(conn)
                },
            },
    {
        if !conn.contains_user(self.borrower_id) {
            return Err(RepoError::ConstraintViolation);
        }
        if !conn.contains_report(self.report_id) {
            return Err(RepoError::ConstraintViolation);
        }
        let id = conn.next_access_id;
        let row = ReportAccess {
            id,
            borrower_id: self.borrower_id,
            report_id: self.report_id,
            read_access: self.read_access,
            write_access: self.write_access,
        };
        conn.access_grants.push(row);
        conn.next_access_id = id + 1;
        proof {
            assert(conn.grants_v() =~= old(conn).grants_v().push(self.with_id(id as int)));
            lemma_insert_grant_wf(*old(conn), *conn, self.with_id(id as int));
        }
        Ok(row)
    }
}

// ------------------------------------------------------------------- removals
/// Removing one grant row keeps the store well-formed.
proof fn lemma_remove_grant_wf(pre: Store, post: Store, k: int)
    requires
        pre.wf(),
        0 <= k < pre.grants_v().len(),
        post.grants_v() == pre.grants_v().remove(k),
        post.users == pre.users,
        post.reports == pre.reports,
        post.line_items == pre.line_items,
        post.proofs == pre.proofs,
        same_next_ids(pre, post),
    ensures
        post.wf(),
{
    assert(post.users_v() == pre.users_v());
    assert(post.reports_v() == pre.reports_v());
    assert(post.line_items_v() == pre.line_items_v());
    assert(post.proofs_v() == pre.proofs_v());
    pre.grants_v().remove_ensures(k);
    assert forall|j: int| 0 <= j < post.grants_v().len() implies #[trigger] post.grants_v()[j] == (
    if j < k {
        pre.grants_v()[j]
    } else {
        pre.grants_v()[j + 1]
    }) by {
        assert(post.grants_v()[j] == pre.grants_v().remove(k)[j]);
    }
    assert forall|x: int| pre.has_report(x) implies post.has_report(x) by {
        let j = choose|j: int|
            0 <= j < pre.reports_v().len() && (#[trigger] pre.reports_v()[j]).id == x;
        assert(post.reports_v()[j].id == x);
    }
    assert forall|x: int| pre.has_user(x) implies post.has_user(x) by {
        let j = choose|j: int| 0 <= j < pre.users_v().len() && (#[trigger] pre.users_v()[j]).id
            == x;
        assert(post.users_v()[j].id == x);
    }
}

/// Drops every grant scoped to `report_id`; other tables stay put.
pub(crate) fn remove_grants_of(conn: &mut Store, report_id: i64)
    requires
        old(conn).wf(),
    ensures
        final(conn).wf(),
        final(conn).grants_v() == old(conn).grants_v().filter(grant_not_of(report_id as int)),
        final(conn).users == old(conn).users,
        final(conn).reports == old(conn).reports,
        final(conn).line_items == old(conn).line_items,
        final(conn).proofs == old(conn).proofs,
        same_next_ids(*old(conn), *final(conn)),
{
    let ghost pred = grant_not_of(report_id as int);
    let mut kept: Vec<ReportAccess> = Vec::new();
    proof {
        reveal(Seq::filter);
        assert(kept.deep_view() =~= conn.grants_v().subrange(0, 0).filter(pred));
    }
    let mut i: usize = 0;
    while i < conn.access_grants.len()
        invariant
            i <= conn.access_grants.len(),
            kept.deep_view() == conn.grants_v().subrange(0, i as int).filter(pred),
            pred == grant_not_of(report_id as int),
        decreases conn.access_grants.len() - i,
    {
        let ghost prefix = conn.grants_v().subrange(0, i as int);
        proof {
            assert(conn.grants_v().subrange(0, i as int + 1) =~= prefix.push(
                conn.grants_v()[i as int],
            ));
            lemma_filter_push(prefix, pred, conn.grants_v()[i as int]);
        }
        if conn.access_grants[i].report_id != report_id {
            let ghost kv = kept.deep_view();
            kept.push(conn.access_grants[i]);
            proof {
                assert(kept.deep_view() =~= kv.push(conn.grants_v()[i as int]));
            }
        }
        i = i + 1;
    }
    proof {
        assert(conn.grants_v().subrange(0, conn.access_grants.len() as int) =~= conn.grants_v());
    }
    conn.access_grants = kept;
    proof {
        let pre = *old(conn);
        let post = *conn;
        assert(post.users_v() == pre.users_v());
        assert(post.reports_v() == pre.reports_v());
        assert(post.line_items_v() == pre.line_items_v());
        assert(post.proofs_v() == pre.proofs_v());
        lemma_filter_contained(pre.grants_v(), pred);
        let proj = |g: ReportAccessV| g.id;
        lemma_filter_distinct(pre.grants_v(), pred, proj);
        assert forall|a: int, b: int|
            0 <= a < b < post.grants_v().len() implies (#[trigger] post.grants_v()[a]).id != (
        #[trigger] post.grants_v()[b]).id by {
            let f = pre.grants_v().filter(pred);
            assert(proj(f[a]) != proj(f[b]));
        }
        assert forall|j: int| 0 <= j < post.grants_v().len() implies 1 <= (
        #[trigger] post.grants_v()[j]).id < post.next_access_id && post.has_report(
            post.grants_v()[j].report_id,
        ) && post.has_user(post.grants_v()[j].borrower_id) by {
            assert(pre.grants_v().contains(post.grants_v()[j]));
            let k = choose|k: int|
                0 <= k < pre.grants_v().len() && pre.grants_v()[k] == post.grants_v()[j];
            assert(pre.has_report(pre.grants_v()[k].report_id));
            assert(pre.has_user(pre.grants_v()[k].borrower_id));
            let m = choose|m: int|
                0 <= m < pre.reports_v().len() && (#[trigger] pre.reports_v()[m]).id
                    == pre.grants_v()[k].report_id;
            assert(post.reports_v()[m].id == post.grants_v()[j].report_id);
            let n = choose|n: int|
                0 <= n < pre.users_v().len() && (#[trigger] pre.users_v()[n]).id
                    == pre.grants_v()[k].borrower_id;
            assert(post.users_v()[n].id == post.grants_v()[j].borrower_id);
        }
        assert forall|x: int| pre.has_user(x) implies post.has_user(x) by {
            let k = choose|k: int|
                0 <= k < pre.users_v().len() && (#[trigger] pre.users_v()[k]).id == x;
            assert(post.users_v()[k].id == x);
        }
        assert forall|x: int| pre.has_report(x) implies post.has_report(x) by {
            let k = choose|k: int|
                0 <= k < pre.reports_v().len() && (#[trigger] pre.reports_v()[k]).id == x;
            assert(post.reports_v()[k].id == x);
        }
    }
}

// ------------------------------------------------------------------ positions
/// The position of the row addressed by the composite key, if the key
/// matches one.
fn grant_position(path_ids: (i64, i64), conn: &Store) -> (r: Option<usize>)
    requires
        conn.wf(),
    ensures
        match r {
            Some(i) => {
                &&& i < conn.grants_v().len()
                &&& conn.grants_v()[i as int].id == path_ids.1 as int
                &&& conn.grants_v()[i as int].report_id == path_ids.0 as int
                &&& conn.has_grant_path(path_ids.0 as int, path_ids.1 as int)
                &&& conn.grant_index(path_ids.1 as int) == i as int
                &&& conn.grant_at(path_ids.1 as int) == conn.grants_v()[i as int]
            },
            None => !conn.has_grant_path(path_ids.0 as int, path_ids.1 as int),
        },
{
    let report_id = path_ids.0;
    let id = path_ids.1;
    let mut i: usize = 0;
    while i < conn.access_grants.len()
        invariant
            conn.wf(),
            i <= conn.access_grants.len(),
            id == path_ids.1,
            report_id == path_ids.0,
            forall|j: int|
                0 <= j < i ==> !((#[trigger] conn.grants_v()[j]).id == id as int
                    && conn.grants_v()[j].report_id == report_id as int),
        decreases conn.access_grants.len() - i,
    {
        if conn.access_grants[i].id == id && conn.access_grants[i].report_id == report_id {
            proof {
                conn.lemma_grant_pinned(i as int);
            }
            return Some(i);
        }
        i = i + 1;
    }
    proof {
        if conn.has_grant(id as int) {
            let k = conn.grant_index(id as int);
            assert(conn.grants_v()[k].report_id != report_id as int);
        }
    }
    None
}

/// Whether some grant ties the borrower to the report at all.
fn has_any_grant_exec(conn: &Store, borrower_id: i64, report_id: i64) -> (r: bool)
    ensures
        r == conn.has_any_grant(borrower_id as int, report_id as int),
{
    let mut i: usize = 0;
    while i < conn.access_grants.len()
        invariant
            i <= conn.access_grants.len(),
            forall|j: int|
                0 <= j < i ==> !((#[trigger] conn.grants_v()[j]).borrower_id == borrower_id as int
                    && conn.grants_v()[j].report_id == report_id as int),
        decreases conn.access_grants.len() - i,
    {
        if conn.access_grants[i].borrower_id == borrower_id && conn.access_grants[i].report_id
            == report_id {
            assert(conn.grants_v()[i as int].borrower_id == borrower_id as int);
            return true;
        }
        i = i + 1;
    }
    false
}

/// Whether some read grant ties the borrower to the report.
fn has_read_grant_exec(conn: &Store, borrower_id: i64, report_id: i64) -> (r: bool)
    ensures
        r == conn.has_read_grant(borrower_id as int, report_id as int),
{
    let mut i: usize = 0;
    while i < conn.access_grants.len()
        invariant
            i <= conn.access_grants.len(),
            forall|j: int|
                0 <= j < i ==> !((#[trigger] conn.grants_v()[j]).borrower_id == borrower_id as int
                    && conn.grants_v()[j].report_id == report_id as int
                    && conn.grants_v()[j].read_access),
        decreases conn.access_grants.len() - i,
    {
        if conn.access_grants[i].borrower_id == borrower_id && conn.access_grants[i].report_id
            == report_id && conn.access_grants[i].read_access {
            assert(conn.grants_v()[i as int].borrower_id == borrower_id as int);
            return true;
        }
        i = i + 1;
    }
    false
}

// --------------------------------------------------------------- repository
impl ReportAccess {
    /// Empties the whole grant table; deleting zero rows is no error.
    pub fn clear(conn: &mut Store) -> (r: Result<(), RepoError>)
        requires
            old(conn).wf(),
        ensures
            final(conn).wf(),
            r is Ok,
            final(conn).grants_v() == Seq::<ReportAccessV>::empty(),
            final(conn).users == old(conn).users,
            final(conn).reports == old(conn).reports,
            final(conn).line_items == old(conn).line_items,
            final(conn).proofs == old(conn).proofs,
            same_next_ids(*old(conn), *final(conn)),
    {
        conn.access_grants.clear();
        proof {
            assert(conn.grants_v() =~= Seq::<ReportAccessV>::empty());
            assert(conn.users_v() == old(conn).users_v());
            assert(conn.reports_v() == old(conn).reports_v());
            assert(conn.line_items_v() == old(conn).line_items_v());
            assert(conn.proofs_v() == old(conn).proofs_v());
            assert forall|x: int| old(conn).has_user(x) implies conn.has_user(x) by {
                let k = choose|k: int|
                    0 <= k < old(conn).users_v().len() && (#[trigger] old(conn).users_v()[k]).id
                        == x;
                assert(conn.users_v()[k].id == x);
            }
            assert forall|x: int| old(conn).has_report(x) implies conn.has_report(x) by {
                let k = choose|k: int|
                    0 <= k < old(conn).reports_v().len() && (#[trigger] old(
                        conn,
                    ).reports_v()[k]).id == x;
                assert(conn.reports_v()[k].id == x);
            }
        }
        Ok(())
    }

    /// Drops every grant of one report; idempotent, so deleting zero rows
    /// succeeds too.
    pub fn clear_by_report(report_id: i64, conn: &mut Store) -> (r: Result<(), RepoError>)
        requires
            old(conn).wf(),
        ensures
            final(conn).wf(),
            r is Ok,
            final(conn).grants_v() == old(conn).grants_v().filter(grant_not_of(report_id as int)),
            final(conn).grants_of(report_id as int) == Seq::<ReportAccessV>::empty(),
            final(conn).users == old(conn).users,
            final(conn).reports == old(conn).reports,
            final(conn).line_items == old(conn).line_items,
            final(conn).proofs == old(conn).proofs,
            same_next_ids(*old(conn), *final(conn)),
    {
        remove_grants_of(conn, report_id);
        proof {
            assert forall|j: int| 0 <= j < conn.grants_v().len() implies !(grant_of(
                report_id as int,
            )(#[trigger] conn.grants_v()[j])) by {
                old(conn).grants_v().lemma_filter_pred(grant_not_of(report_id as int), j);
            }
            lemma_filter_none(conn.grants_v(), grant_of(report_id as int));
        }
        Ok(())
    }

    /// Composite-key lookup: the row must carry `id` *and* belong to
    /// `report_id`; an `id` match under another report is `NotFound`.
    pub fn get_by_path(path_ids: (i64, i64), conn: &Store) -> (r: Result<ReportAccess, RepoError>)
        requires
            conn.wf(),
        ensures
            match r {
                Ok(g) => {
                    &&& conn.has_grant_path(path_ids.0 as int, path_ids.1 as int)
                    &&& g.deep_view() == conn.grant_at(path_ids.1 as int)
                },
                Err(e) => {
                    &&& e == RepoError::NotFound
                    &&& !conn.has_grant_path(path_ids.0 as int, path_ids.1 as int)
                },
            },
    {
        match grant_position(path_ids, conn) {
            Some(i) => Ok(conn.access_grants[i]),
            None => Err(RepoError::NotFound),
        }
    }

    /// Returns the grant with `id`, or `NotFound` if no row has it.
    pub fn get_by_id(id: i64, conn: &Store) -> (r: Result<ReportAccess, RepoError>)
        requires
            conn.wf(),
        ensures
            match r {
                Ok(g) => conn.has_grant(id as int) && g.deep_view() == conn.grant_at(id as int),
                Err(e) => e == RepoError::NotFound && !conn.has_grant(id as int),
            },
    {
        let mut i: usize = 0;
        while i < conn.access_grants.len()
            invariant
                conn.wf(),
                i <= conn.access_grants.len(),
                forall|j: int| 0 <= j < i ==> (#[trigger] conn.grants_v()[j]).id != id as int,
            decreases conn.access_grants.len() - i,
        {
            if conn.access_grants[i].id == id {
                proof {
                    conn.lemma_grant_pinned(i as int);
                }
                return Ok(conn.access_grants[i]);
            }
            i = i + 1;
        }
        Err(RepoError::NotFound)
    }

    /// Returns every grant scoped to one report, in table order.
    pub fn get_by_report(report_id: i64, conn: &Store) -> (r: Result<Vec<ReportAccess>, RepoError>)
        requires
            conn.wf(),
        ensures
            r matches Ok(grants) && grants.deep_view() == conn.grants_of(report_id as int),
    {
        let ghost pred = grant_of(report_id as int);
        let mut out: Vec<ReportAccess> = Vec::new();
        proof {
            reveal(Seq::filter);
            assert(out.deep_view() =~= conn.grants_v().subrange(0, 0).filter(pred));
        }
        let mut i: usize = 0;
        while i < conn.access_grants.len()
            invariant
                i <= conn.access_grants.len(),
                out.deep_view() == conn.grants_v().subrange(0, i as int).filter(pred),
                pred == grant_of(report_id as int),
            decreases conn.access_grants.len() - i,
        {
            let ghost prefix = conn.grants_v().subrange(0, i as int);
            proof {
                assert(conn.grants_v().subrange(0, i as int + 1) =~= prefix.push(
                    conn.grants_v()[i as int],
                ));
                lemma_filter_push(prefix, pred, conn.grants_v()[i as int]);
            }
            if conn.access_grants[i].report_id == report_id {
                let ghost kv = out.deep_view();
                out.push(conn.access_grants[i]);
                proof {
                    assert(out.deep_view() =~= kv.push(conn.grants_v()[i as int]));
                }
            }
            i = i + 1;
        }
        proof {
            assert(conn.grants_v().subrange(0, conn.access_grants.len() as int) =~= conn
                .grants_v());
        }
        Ok(out)
    }

    /// Returns every grant held by one borrower, whatever the flags say.
    pub fn get_by_borrower(borrower_id: i64, conn: &Store) -> (r: Result<
        Vec<ReportAccess>,
        RepoError,
    >)
        requires
            conn.wf(),
        ensures
            r matches Ok(grants) && grants.deep_view() == conn.grants_of_borrower(
                borrower_id as int,
            ),
    {
        let ghost pred = grant_by(borrower_id as int);
        let mut out: Vec<ReportAccess> = Vec::new();
        proof {
            reveal(Seq::filter);
            assert(out.deep_view() =~= conn.grants_v().subrange(0, 0).filter(pred));
        }
        let mut i: usize = 0;
        while i < conn.access_grants.len()
            invariant
                i <= conn.access_grants.len(),
                out.deep_view() == conn.grants_v().subrange(0, i as int).filter(pred),
                pred == grant_by(borrower_id as int),
            decreases conn.access_grants.len() - i,
        {
            let ghost prefix = conn.grants_v().subrange(0, i as int);
            proof {
                assert(conn.grants_v().subrange(0, i as int + 1) =~= prefix.push(
                    conn.grants_v()[i as int],
                ));
                lemma_filter_push(prefix, pred, conn.grants_v()[i as int]);
            }
            if conn.access_grants[i].borrower_id == borrower_id {
                let ghost kv = out.deep_view();
                out.push(conn.access_grants[i]);
                proof {
                    assert(out.deep_view() =~= kv.push(conn.grants_v()[i as int]));
                }
            }
            i = i + 1;
        }
        proof {
            assert(conn.grants_v().subrange(0, conn.access_grants.len() as int) =~= conn
                .grants_v());
        }
        Ok(out)
    }

    /// Returns the grants of one borrower that carry read access; a grant
    /// with the read flag down is left out.
    pub fn get_by_view_access(borrower_id: i64, conn: &Store) -> (r: Result<
        Vec<ReportAccess>,
        RepoError,
    >)
        requires
            conn.wf(),
        ensures
            r matches Ok(grants) && grants.deep_view() == conn.read_grants_of_borrower(
                borrower_id as int,
            ),
    {
        let ghost pred = read_grant_by(borrower_id as int);
        let mut out: Vec<ReportAccess> = Vec::new();
        proof {
            reveal(Seq::filter);
            assert(out.deep_view() =~= conn.grants_v().subrange(0, 0).filter(pred));
        }
        let mut i: usize = 0;
        while i < conn.access_grants.len()
            invariant
                i <= conn.access_grants.len(),
                out.deep_view() == conn.grants_v().subrange(0, i as int).filter(pred),
                pred == read_grant_by(borrower_id as int),
            decreases conn.access_grants.len() - i,
        {
            let ghost prefix = conn.grants_v().subrange(0, i as int);
            proof {
                assert(conn.grants_v().subrange(0, i as int + 1) =~= prefix.push(
                    conn.grants_v()[i as int],
                ));
                lemma_filter_push(prefix, pred, conn.grants_v()[i as int]);
            }
            if conn.access_grants[i].borrower_id == borrower_id && conn.access_grants[i].read_access
            {
                let ghost kv = out.deep_view();
                out.push(conn.access_grants[i]);
                proof {
                    assert(out.deep_view() =~= kv.push(conn.grants_v()[i as int]));
                }
            }
            i = i + 1;
        }
        proof {
            assert(conn.grants_v().subrange(0, conn.access_grants.len() as int) =~= conn
                .grants_v());
        }
        Ok(out)
    }

    /// The reports a borrower holds any grant for, in table order,
    /// regardless of what the grant's flags say.
    pub fn get_report_by_borrower(borrower_id: i64, conn: &Store) -> (r: Result<
        Vec<Report>,
        RepoError,
    >)
        requires
            conn.wf(),
        ensures
            r matches Ok(reports) && reports.deep_view() == conn.visible_reports(
                borrower_id as int,
            ),
    {
        let ghost pred = conn.granted_any(borrower_id as int);
        let mut out: Vec<Report> = Vec::new();
        proof {
            reveal(Seq::filter);
            assert(out.deep_view() =~= conn.reports_v().subrange(0, 0).filter(pred));
        }
        let mut i: usize = 0;
        while i < conn.reports.len()
            invariant
                conn.wf(),
                i <= conn.reports.len(),
                out.deep_view() == conn.reports_v().subrange(0, i as int).filter(pred),
                pred == conn.granted_any(borrower_id as int),
            decreases conn.reports.len() - i,
        {
            let ghost prefix = conn.reports_v().subrange(0, i as int);
            proof {
                assert(conn.reports_v().subrange(0, i as int + 1) =~= prefix.push(
                    conn.reports_v()[i as int],
                ));
                lemma_filter_push(prefix, pred, conn.reports_v()[i as int]);
                assert(pred(conn.reports_v()[i as int]) == conn.has_any_grant(
                    borrower_id as int,
                    conn.reports_v()[i as int].id,
                ));
            }
            if has_any_grant_exec(conn, borrower_id, conn.reports[i].id) {
                let ghost kv = out.deep_view();
                out.push(conn.reports[i].clone());
                proof {
                    assert(out.deep_view() =~= kv.push(conn.reports_v()[i as int]));
                }
            }
            i = i + 1;
        }
        proof {
            assert(conn.reports_v().subrange(0, conn.reports.len() as int) =~= conn.reports_v());
        }
        Ok(out)
    }

    /// The reports a borrower may read: exactly those with a grant row for
    /// this borrower whose read flag is up.
    pub fn get_report_by_read_access(borrower_id: i64, conn: &Store) -> (r: Result<
        Vec<Report>,
        RepoError,
    >)
        requires
            conn.wf(),
        ensures
            r matches Ok(reports) && reports.deep_view() == conn.readable_reports(
                borrower_id as int,
            ),
    {
        let ghost pred = conn.granted_read(borrower_id as int);
        let mut out: Vec<Report> = Vec::new();
        proof {
            reveal(Seq::filter);
            assert(out.deep_view() =~= conn.reports_v().subrange(0, 0).filter(pred));
        }
        let mut i: usize = 0;
        while i < conn.reports.len()
            invariant
                conn.wf(),
                i <= conn.reports.len(),
                out.deep_view() == conn.reports_v().subrange(0, i as int).filter(pred),
                pred == conn.granted_read(borrower_id as int),
            decreases conn.reports.len() - i,
        {
            let ghost prefix = conn.reports_v().subrange(0, i as int);
            proof {
                assert(conn.reports_v().subrange(0, i as int + 1) =~= prefix.push(
                    conn.reports_v()[i as int],
                ));
                lemma_filter_push(prefix, pred, conn.reports_v()[i as int]);
                assert(pred(conn.reports_v()[i as int]) == conn.has_read_grant(
                    borrower_id as int,
                    conn.reports_v()[i as int].id,
                ));
            }
            if has_read_grant_exec(conn, borrower_id, conn.reports[i].id) {
                let ghost kv = out.deep_view();
                out.push(conn.reports[i].clone());
                proof {
                    assert(out.deep_view() =~= kv.push(conn.reports_v()[i as int]));
                }
            }
            i = i + 1;
        }
        proof {
            assert(conn.reports_v().subrange(0, conn.reports.len() as int) =~= conn.reports_v());
        }
        Ok(out)
    }

    /// The reports a borrower may write: exactly those with a grant row for
    /// this borrower whose write flag is up. The symmetric partner of
    /// `get_report_by_read_access`.
    pub fn get_report_by_write_access(borrower_id: i64, conn: &Store) -> (r: Result<
        Vec<Report>,
        RepoError,
    >)
        requires
            conn.wf(),
        ensures
            r matches Ok(reports) && reports.deep_view() == conn.writable_reports(
                borrower_id as int,
            ),
    {
        let ghost pred = conn.granted_write(borrower_id as int);
        let mut out: Vec<Report> = Vec::new();
        proof {
            reveal(Seq::filter);
            assert(out.deep_view() =~= conn.reports_v().subrange(0, 0).filter(pred));
        }
        let mut i: usize = 0;
        while i < conn.reports.len()
            invariant
                conn.wf(),
                i <= conn.reports.len(),
                out.deep_view() == conn.reports_v().subrange(0, i as int).filter(pred),
                pred == conn.granted_write(borrower_id as int),
            decreases conn.reports.len() - i,
        {
            let ghost prefix = conn.reports_v().subrange(0, i as int);
            proof {
                assert(conn.reports_v().subrange(0, i as int + 1) =~= prefix.push(
                    conn.reports_v()[i as int],
                ));
                lemma_filter_push(prefix, pred, conn.reports_v()[i as int]);
                assert(pred(conn.reports_v()[i as int]) == conn.has_write_grant(
                    borrower_id as int,
                    conn.reports_v()[i as int].id,
                ));
            }
            if has_write_grant_exec(conn, borrower_id, conn.reports[i].id) {
                let ghost kv = out.deep_view();
                out.push(conn.reports[i].clone());
                proof {
                    assert(out.deep_view() =~= kv.push(conn.reports_v()[i as int]));
                }
            }
            i = i + 1;
        }
        proof {
            assert(conn.reports_v().subrange(0, conn.reports.len() as int) =~= conn.reports_v());
        }
        Ok(out)
    }

    /// Deletes the row addressed by the composite key and returns it;
    /// `NotFound` (and an unchanged store) if the key matches nothing.
    pub fn delete(path_ids: (i64, i64), conn: &mut Store) -> (r: Result<ReportAccess, RepoError>)
        requires
            old(conn).wf(),
        ensures
            final(conn).wf(),
            match r {
                Ok(g) => {
                    &&& old(conn).has_grant_path(path_ids.0 as int, path_ids.1 as int)
                    &&& g.deep_view() == old(conn).grant_at(path_ids.1 as int)
                    &&& final(conn).grants_v() == old(conn).grants_v().remove(
                        old(conn).grant_index(path_ids.1 as int),
                    )
                    &&& final(conn).users == old(conn).users
                    &&& final(conn).reports == old(conn).reports
                    &&& final(conn).line_items == old(conn).line_items
                    &&& final(conn).proofs == old(conn).proofs
                    &&& same_next_ids(*old(conn), *final(conn))
                },
                Err(e) => {
                    &&& e == RepoError::NotFound
                    &&& !old(conn).has_grant_path(path_ids.0 as int, path_ids.1 as int)
                    &&& *final(conn) == *old(conn)
                },
            },
    {
        match grant_position(path_ids, conn) {
            Some(i) => {
                let g = conn.access_grants.remove(i);
                proof {
                    old(conn).access_grants@.remove_ensures(i as int);
                    old(conn).grants_v().remove_ensures(i as int);
                    assert(conn.grants_v() =~= old(conn).grants_v().remove(i as int));
                    lemma_remove_grant_wf(*old(conn), *conn, i as int);
                }
                Ok(g)
            },
            None => Err(RepoError::NotFound),
        }
    }

    /// Rewrites the row addressed by the composite key with the given
    /// borrower, report, and flags, and returns the refreshed row.
    ///
    /// `NotFound` if the key matches nothing; `ConstraintViolation` if the
    /// new borrower or report does not exist. Either failure leaves the
    /// store unchanged.
    pub fn update(
        path_ids: (i64, i64),
        borrower_id: i64,
        report_id: i64,
        read_access: bool,
        write_access: bool,
        conn: &mut Store,
    ) -> (r: Result<ReportAccess, RepoError>)
        requires
            old(conn).wf(),
        ensures
            final(conn).wf(),
            match r {
                Ok(g) => {
                    &&& old(conn).has_grant_path(path_ids.0 as int, path_ids.1 as int)
                    &&& old(conn).has_user(borrower_id as int)
                    &&& old(conn).has_report(report_id as int)
                    &&& g.deep_view() == (ReportAccessV {
                        id: path_ids.1 as int,
                        borrower_id: borrower_id as int,
                        report_id: report_id as int,
                        read_access,
                        write_access,
                    })
                    &&& final(conn).grants_v() == old(conn).grants_v().update(
                        old(conn).grant_index(path_ids.1 as int),
                        g.deep_view(),
                    )
                    &&& final(conn).users == old(conn).users
                    &&& final(conn).reports == old(conn).reports
                    &&& final(conn).line_items == old(conn).line_items
                    &&& final(conn).proofs == old(conn).proofs
                    &&& same_next_ids(*old(conn), *final(conn))
                },
                Err(e) => {
                    &&& *final(conn) == *old(conn)
                    &&& (e == RepoError::NotFound && !old(conn).has_grant_path(
                        path_ids.0 as int,
                        path_ids.1 as int,
                    ) || (e == RepoError::ConstraintViolation && old(conn).has_grant_path(
                        path_ids.0 as int,
                        path_ids.1 as int,
                    ) && !(old(conn).has_user(borrower_id as int) && old(conn).has_report(
                        report_id as int,
                    ))))
                },
            },
    {
        let i = match grant_position(path_ids, conn) {
            Some(i) => i,
            None => {
                return Err(RepoError::NotFound);
            },
        };
        if !conn.contains_user(borrower_id) {
            return Err(RepoError::ConstraintViolation);
        }
        if !conn.contains_report(report_id) {
            return Err(RepoError::ConstraintViolation);
        }
        let row = ReportAccess { id: path_ids.1, borrower_id, report_id, read_access, write_access };
        conn.access_grants[i] = row;
        proof {
            let pre = *old(conn);
            let post = *conn;
            let k = i as int;
            assert(post.users_v() == pre.users_v());
            assert(post.reports_v() == pre.reports_v());
            assert(post.line_items_v() == pre.line_items_v());
            assert(post.proofs_v() == pre.proofs_v());
            assert(post.grants_v() =~= pre.grants_v().update(k, row.deep_view()));
            assert forall|j: int|
                0 <= j < post.grants_v().len() && j != k implies #[trigger] post.grants_v()[j]
                == pre.grants_v()[j] by {
                assert(post.grants_v()[j] == pre.grants_v().update(k, row.deep_view())[j]);
            }
            assert(post.grants_v()[k] == row.deep_view());
            assert(row.deep_view().id == pre.grants_v()[k].id);
            assert forall|x: int| pre.has_report(x) implies post.has_report(x) by {
                let j = choose|j: int|
                    0 <= j < pre.reports_v().len() && (#[trigger] pre.reports_v()[j]).id == x;
                assert(post.reports_v()[j].id == x);
            }
            assert forall|x: int| pre.has_user(x) implies post.has_user(x) by {
                let j = choose|j: int|
                    0 <= j < pre.users_v().len() && (#[trigger] pre.users_v()[j]).id == x;
                assert(post.users_v()[j].id == x);
            }
        }
        Ok(row)
    }

    /// Applies a whole new-grant value over the row addressed by the
    /// composite key; exactly `update` with that value's fields.
    pub fn replace(path_ids: (i64, i64), new: &NewReportAccess, conn: &mut Store) -> (r: Result<
        ReportAccess,
        RepoError,
    >)
        requires
            old(conn).wf(),
        ensures
            final(conn).wf(),
            match r {
                Ok(g) => {
                    &&& old(conn).has_grant_path(path_ids.0 as int, path_ids.1 as int)
                    &&& old(conn).has_user(new.borrower_id as int)
                    &&& old(conn).has_report(new.report_id as int)
                    &&& g.deep_view() == (ReportAccessV {
                        id: path_ids.1 as int,
                        borrower_id: new.borrower_id as int,
                        report_id: new.report_id as int,
                        read_access: new.read_access,
                        write_access: new.write_access,
                    })
                    &&& final(conn).grants_v() == old(conn).grants_v().update(
                        old(conn).grant_index(path_ids.1 as int),
                        g.deep_view(),
                    )
                    &&& final(conn).users == old(conn).users
                    &&& final(conn).reports == old(conn).reports
                    &&& final(conn).line_items == old(conn).line_items
                    &&& final(conn).proofs == old(conn).proofs
                    &&& same_next_ids(*old(conn), *final(conn))
                },
                Err(e) => {
                    &&& *final(conn) == *old(conn)
                    &&& (e == RepoError::NotFound && !old(conn).has_grant_path(
                        path_ids.0 as int,
                        path_ids.1 as int,
                    ) || (e == RepoError::ConstraintViolation && old(conn).has_grant_path(
                        path_ids.0 as int,
                        path_ids.1 as int,
                    ) && !(old(conn).has_user(new.borrower_id as int) && old(conn).has_report(
                        new.report_id as int,
                    ))))
                },
            },
    {
        Self::update(
            path_ids,
            new.borrower_id,
            new.report_id,
            new.read_access,
            new.write_access,
            conn,
        )
    }
}

// ----------------------------------------------------------- partial updates
/// The position of the grant with `id`, if one exists.
fn grant_position_by_id(id: i64, conn: &Store) -> (r: Option<usize>)
    requires
        conn.wf(),
    ensures
        match r {
            Some(i) => {
                &&& i < conn.grants_v().len()
                &&& conn.grants_v()[i as int].id == id as int
                &&& conn.has_grant(id as int)
                &&& conn.grant_index(id as int) == i as int
                &&& conn.grant_at(id as int) == conn.grants_v()[i as int]
            },
            None => !conn.has_grant(id as int),
        },
{
    let mut i: usize = 0;
    while i < conn.access_grants.len()
        invariant
            conn.wf(),
            i <= conn.access_grants.len(),
            forall|j: int| 0 <= j < i ==> (#[trigger] conn.grants_v()[j]).id != id as int,
        decreases conn.access_grants.len() - i,
    {
        if conn.access_grants[i].id == id {
            proof {
                conn.lemma_grant_pinned(i as int);
            }
            return Some(i);
        }
        i = i + 1;
    }
    None
}

/// Writes `row` over the grant at position `i`, keeping its id.
fn put_grant(i: usize, row: ReportAccess, conn: &mut Store)
    requires
        old(conn).wf(),
        i < old(conn).grants_v().len(),
        row.id as int == old(conn).grants_v()[i as int].id,
        old(conn).has_user(row.borrower_id as int),
        old(conn).has_report(row.report_id as int),
    ensures
        final(conn).wf(),
        final(conn).grants_v() == old(conn).grants_v().update(i as int, row.deep_view()),
        final(conn).users == old(conn).users,
        final(conn).reports == old(conn).reports,
        final(conn).line_items == old(conn).line_items,
        final(conn).proofs == old(conn).proofs,
        same_next_ids(*old(conn), *final(conn)),
{
    conn.access_grants[i] = row;
    proof {
        let pre = *old(conn);
        let post = *conn;
        let k = i as int;
        assert(post.users_v() == pre.users_v());
        assert(post.reports_v() == pre.reports_v());
        assert(post.line_items_v() == pre.line_items_v());
        assert(post.proofs_v() == pre.proofs_v());
        assert(post.grants_v() =~= pre.grants_v().update(k, row.deep_view()));
        assert forall|j: int|
            0 <= j < post.grants_v().len() && j != k implies #[trigger] post.grants_v()[j]
            == pre.grants_v()[j] by {
            assert(post.grants_v()[j] == pre.grants_v().update(k, row.deep_view())[j]);
        }
        assert(post.grants_v()[k] == row.deep_view());
        assert forall|x: int| pre.has_report(x) implies post.has_report(x) by {
            let j = choose|j: int|
                0 <= j < pre.reports_v().len() && (#[trigger] pre.reports_v()[j]).id == x;
            assert(post.reports_v()[j].id == x);
        }
        assert forall|x: int| pre.has_user(x) implies post.has_user(x) by {
            let j = choose|j: int| 0 <= j < pre.users_v().len() && (#[trigger] pre.users_v()[j]).id
                == x;
            assert(post.users_v()[j].id == x);
        }
    }
}

impl ReportAccess {
    /// Re-points this grant at another borrower, touching nothing else, and
    /// returns the refreshed row.
    ///
    /// `NotFound` if the grant row is gone; `ConstraintViolation` if the
    /// new borrower does not exist. Either failure leaves the store
    /// unchanged.
    pub fn update_borrower_id(&self, borrower_id: i64, conn: &mut Store) -> (r: Result<
        ReportAccess,
        RepoError,
    >)
        requires
            old(conn).wf(),
        ensures
            final(conn).wf(),
            match r {
                Ok(g) => {
                    &&& old(conn).has_grant(self.id as int)
                    &&& old(conn).has_user(borrower_id as int)
                    &&& g.deep_view() == (ReportAccessV {
                        borrower_id: borrower_id as int,
                        ..old(conn).grant_at(self.id as int)
                    })
                    &&& final(conn).grants_v() == old(conn).grants_v().update(
                        old(conn).grant_index(self.id as int),
                        g.deep_view(),
                    )
                    &&& final(conn).users == old(conn).users
                    &&& final(conn).reports == old(conn).reports
                    &&& final(conn).line_items == old(conn).line_items
                    &&& final(conn).proofs == old(conn).proofs
                    &&& same_next_ids(*old(conn), *final(conn))
                },
                Err(e) => {
                    &&& *final(conn) == *old(conn)
                    &&& (e == RepoError::NotFound && !old(conn).has_grant(self.id as int) || (e
                        == RepoError::ConstraintViolation && old(conn).has_grant(self.id as int)
                        && !old(conn).has_user(borrower_id as int)))
                },
            },
    {
        let i = match grant_position_by_id(self.id, conn) {
            Some(i) => i,
            None => {
                return Err(RepoError::NotFound);
            },
        };
        if !conn.contains_user(borrower_id) {
            return Err(RepoError::ConstraintViolation);
        }
        let current = conn.access_grants[i];
        proof {
            assert(conn.has_report(conn.grants_v()[i as int].report_id));
        }
        let row = ReportAccess { borrower_id, ..current };
        put_grant(i, row, conn);
        Ok(row)
    }

    /// Re-points this grant at another borrower, given as a row.
    pub fn update_borrower(&self, borrower: &User, conn: &mut Store) -> (r: Result<
        ReportAccess,
        RepoError,
    >)
        requires
            old(conn).wf(),
        ensures
            final(conn).wf(),
            match r {
                Ok(g) => {
                    &&& old(conn).has_grant(self.id as int)
                    &&& old(conn).has_user(borrower.id as int)
                    &&& g.deep_view() == (ReportAccessV {
                        borrower_id: borrower.id as int,
                        ..old(conn).grant_at(self.id as int)
                    })
                    &&& final(conn).grants_v() == old(conn).grants_v().update(
                        old(conn).grant_index(self.id as int),
                        g.deep_view(),
                    )
                    &&& final(conn).users == old(conn).users
                    &&& final(conn).reports == old(conn).reports
                    &&& final(conn).line_items == old(conn).line_items
                    &&& final(conn).proofs == old(conn).proofs
                    &&& same_next_ids(*old(conn), *final(conn))
                },
                Err(e) => {
                    &&& *final(conn) == *old(conn)
                    &&& (e == RepoError::NotFound && !old(conn).has_grant(self.id as int) || (e
                        == RepoError::ConstraintViolation && old(conn).has_grant(self.id as int)
                        && !old(conn).has_user(borrower.id as int)))
                },
            },
    {
        self.update_borrower_id(borrower.id, conn)
    }

    /// Re-points this grant at another report, touching nothing else, and
    /// returns the refreshed row.
    ///
    /// `NotFound` if the grant row is gone; `ConstraintViolation` if the
    /// new report does not exist. Either failure leaves the store
    /// unchanged.
    pub fn update_report_id(&self, report_id: i64, conn: &mut Store) -> (r: Result<
        ReportAccess,
        RepoError,
    >)
        requires
            old(conn).wf(),
        ensures
            final(conn).wf(),
            match r {
                Ok(g) => {
                    &&& old(conn).has_grant(self.id as int)
                    &&& old(conn).has_report(report_id as int)
                    &&& g.deep_view() == (ReportAccessV {
                        report_id: report_id as int,
                        ..old(conn).grant_at(self.id as int)
                    })
                    &&& final(conn).grants_v() == old(conn).grants_v().update(
                        old(conn).grant_index(self.id as int),
                        g.deep_view(),
                    )
                    &&& final(conn).users == old(conn).users
                    &&& final(conn).reports == old(conn).reports
                    &&& final(conn).line_items == old(conn).line_items
                    &&& final(conn).proofs == old(conn).proofs
                    &&& same_next_ids(*old(conn), *final(conn))
                },
                Err(e) => {
                    &&& *final(conn) == *old(conn)
                    &&& (e == RepoError::NotFound && !old(conn).has_grant(self.id as int) || (e
                        == RepoError::ConstraintViolation && old(conn).has_grant(self.id as int)
                        && !old(conn).has_report(report_id as int)))
                },
            },
    {
        let i = match grant_position_by_id(self.id, conn) {
            Some(i) => i,
            None => {
                return Err(RepoError::NotFound);
            },
        };
        if !conn.contains_report(report_id) {
            return Err(RepoError::ConstraintViolation);
        }
        let current = conn.access_grants[i];
        proof {
            assert(conn.has_user(conn.grants_v()[i as int].borrower_id));
        }
        let row = ReportAccess { report_id, ..current };
        put_grant(i, row, conn);
        Ok(row)
    }

    /// Re-points this grant at another report, given as a row.
    pub fn update_report(&self, report: &Report, conn: &mut Store) -> (r: Result<
        ReportAccess,
        RepoError,
    >)
        requires
            old(conn).wf(),
        ensures
            final(conn).wf(),
            match r {
                Ok(g) => {
                    &&& old(conn).has_grant(self.id as int)
                    &&& old(conn).has_report(report.id as int)
                    &&& g.deep_view() == (ReportAccessV {
                        report_id: report.id as int,
                        ..old(conn).grant_at(self.id as int)
                    })
                    &&& final(conn).grants_v() == old(conn).grants_v().update(
                        old(conn).grant_index(self.id as int),
                        g.deep_view(),
                    )
                    &&& final(conn).users == old(conn).users
                    &&& final(conn).reports == old(conn).reports
                    &&& final(conn).line_items == old(conn).line_items
                    &&& final(conn).proofs == old(conn).proofs
                    &&& same_next_ids(*old(conn), *final(conn))
                },
                Err(e) => {
                    &&& *final(conn) == *old(conn)
                    &&& (e == RepoError::NotFound && !old(conn).has_grant(self.id as int) || (e
                        == RepoError::ConstraintViolation && old(conn).has_grant(self.id as int)
                        && !old(conn).has_report(report.id as int)))
                },
            },
    {
        self.update_report_id(report.id, conn)
    }

    /// Raises or lowers this grant's read flag, touching nothing else, and
    /// returns the refreshed row. `NotFound` (and an unchanged store) if
    /// the grant row is gone.
    pub fn update_read_access(&self, read_access: bool, conn: &mut Store) -> (r: Result<
        ReportAccess,
        RepoError,
    >)
        requires
            old(conn).wf(),
        ensures
            final(conn).wf(),
            match r {
                Ok(g) => {
                    &&& old(conn).has_grant(self.id as int)
                    &&& g.deep_view() == (ReportAccessV {
                        read_access,
                        ..old(conn).grant_at(self.id as int)
                    })
                    &&& final(conn).grants_v() == old(conn).grants_v().update(
                        old(conn).grant_index(self.id as int),
                        g.deep_view(),
                    )
                    &&& final(conn).users == old(conn).users
                    &&& final(conn).reports == old(conn).reports
                    &&& final(conn).line_items == old(conn).line_items
                    &&& final(conn).proofs == old(conn).proofs
                    &&& same_next_ids(*old(conn), *final(conn))
                },
                Err(e) => {
                    &&& e == RepoError::NotFound
                    &&& !old(conn).has_grant(self.id as int)
                    &&& *final(conn) == *old(conn)
                },
            },
    {
        let i = match grant_position_by_id(self.id, conn) {
            Some(i) => i,
            None => {
                return Err(RepoError::NotFound);
            },
        };
        let current = conn.access_grants[i];
        proof {
            assert(conn.has_user(conn.grants_v()[i as int].borrower_id));
            assert(conn.has_report(conn.grants_v()[i as int].report_id));
        }
        let row = ReportAccess { read_access, ..current };
        put_grant(i, row, conn);
        Ok(row)
    }

    /// Raises or lowers this grant's write flag, touching nothing else, and
    /// returns the refreshed row. `NotFound` (and an unchanged store) if
    /// the grant row is gone.
    pub fn update_write_access(&self, write_access: bool, conn: &mut Store) -> (r: Result<
        ReportAccess,
        RepoError,
    >)
        requires
            old(conn).wf(),
        ensures
            final(conn).wf(),
            match r {
                Ok(g) => {
                    &&& old(conn).has_grant(self.id as int)
                    &&& g.deep_view() == (ReportAccessV {
                        write_access,
                        ..old(conn).grant_at(self.id as int)
                    })
                    &&& final(conn).grants_v() == old(conn).grants_v().update(
                        old(conn).grant_index(self.id as int),
                        g.deep_view(),
                    )
                    &&& final(conn).users == old(conn).users
                    &&& final(conn).reports == old(conn).reports
                    &&& final(conn).line_items == old(conn).line_items
                    &&& final(conn).proofs == old(conn).proofs
                    &&& same_next_ids(*old(conn), *final(conn))
                },
                Err(e) => {
                    &&& e == RepoError::NotFound
                    &&& !old(conn).has_grant(self.id as int)
                    &&& *final(conn) == *old(conn)
                },
            },
    {
        let i = match grant_position_by_id(self.id, conn) {
            Some(i) => i,
            None => {
                return Err(RepoError::NotFound);
            },
        };
        let current = conn.access_grants[i];
        proof {
            assert(conn.has_user(conn.grants_v()[i as int].borrower_id));
            assert(conn.has_report(conn.grants_v()[i as int].report_id));
        }
        let row = ReportAccess { write_access, ..current };
        put_grant(i, row, conn);
        Ok(row)
    }
}

// ------------------------------------------------------------------- the laws
/// The law of the read-access resolver: a report is readable for a borrower
/// exactly when a grant row ties the two with the read flag up. A grant
/// whose read flag is down puts nothing into the readable set.
pub proof fn lemma_readable_reports_exact(s: Store, borrower_id: int)
    requires
        s.wf(),
    ensures
        forall|i: int|
            0 <= i < s.readable_reports(borrower_id).len() ==> s.has_read_grant(
                borrower_id,
                (#[trigger] s.readable_reports(borrower_id)[i]).id,
            ) && s.reports_v().contains(s.readable_reports(borrower_id)[i]),
        forall|j: int|
            0 <= j < s.reports_v().len() && s.has_read_grant(
                borrower_id,
                (#[trigger] s.reports_v()[j]).id,
            ) ==> s.readable_reports(borrower_id).contains(s.reports_v()[j]),
{
    let pred = s.granted_read(borrower_id);
    lemma_filter_contained(s.reports_v(), pred);
    assert forall|i: int| 0 <= i < s.readable_reports(borrower_id).len() implies s.has_read_grant(
        borrower_id,
        (#[trigger] s.readable_reports(borrower_id)[i]).id,
    ) && s.reports_v().contains(s.readable_reports(borrower_id)[i]) by {
        s.reports_v().lemma_filter_pred(pred, i);
        assert(pred(s.readable_reports(borrower_id)[i]) == s.has_read_grant(
            borrower_id,
            s.readable_reports(borrower_id)[i].id,
        ));
    }
    assert forall|j: int|
        0 <= j < s.reports_v().len() && s.has_read_grant(
            borrower_id,
            (#[trigger] s.reports_v()[j]).id,
        ) implies s.readable_reports(borrower_id).contains(s.reports_v()[j]) by {
        assert(pred(s.reports_v()[j]) == s.has_read_grant(borrower_id, s.reports_v()[j].id));
        s.reports_v().lemma_filter_contains(pred, j);
    }
}

/// The law of the write-access resolver, the symmetric partner of
/// `lemma_readable_reports_exact`: a report is writable for a borrower
/// exactly when a grant row ties the two with the write flag up.
pub proof fn lemma_writable_reports_exact(s: Store, borrower_id: int)
    requires
        s.wf(),
    ensures
        forall|i: int|
            0 <= i < s.writable_reports(borrower_id).len() ==> s.has_write_grant(
                borrower_id,
                (#[trigger] s.writable_reports(borrower_id)[i]).id,
            ) && s.reports_v().contains(s.writable_reports(borrower_id)[i]),
        forall|j: int|
            0 <= j < s.reports_v().len() && s.has_write_grant(
                borrower_id,
                (#[trigger] s.reports_v()[j]).id,
            ) ==> s.writable_reports(borrower_id).contains(s.reports_v()[j]),
{
    let pred = s.granted_write(borrower_id);
    lemma_filter_contained(s.reports_v(), pred);
    assert forall|i: int| 0 <= i < s.writable_reports(borrower_id).len() implies s.has_write_grant(
        borrower_id,
        (#[trigger] s.writable_reports(borrower_id)[i]).id,
    ) && s.reports_v().contains(s.writable_reports(borrower_id)[i]) by {
        s.reports_v().lemma_filter_pred(pred, i);
        assert(pred(s.writable_reports(borrower_id)[i]) == s.has_write_grant(
            borrower_id,
            s.writable_reports(borrower_id)[i].id,
        ));
    }
    assert forall|j: int|
        0 <= j < s.reports_v().len() && s.has_write_grant(
            borrower_id,
            (#[trigger] s.reports_v()[j]).id,
        ) implies s.writable_reports(borrower_id).contains(s.reports_v()[j]) by {
        assert(pred(s.reports_v()[j]) == s.has_write_grant(borrower_id, s.reports_v()[j].id));
        s.reports_v().lemma_filter_contains(pred, j);
    }
}

/// Whether some write grant ties the borrower to the report.
fn has_write_grant_exec(conn: &Store, borrower_id: i64, report_id: i64) -> (r: bool)
    ensures
        r == conn.has_write_grant(borrower_id as int, report_id as int),
{
    let mut i: usize = 0;
    while i < conn.access_grants.len()
        invariant
            i <= conn.access_grants.len(),
            forall|j: int|
                0 <= j < i ==> !((#[trigger] conn.grants_v()[j]).borrower_id == borrower_id as int
                    && conn.grants_v()[j].report_id == report_id as int
                    && conn.grants_v()[j].write_access),
        decreases conn.access_grants.len() - i,
    {
        if conn.access_grants[i].borrower_id == borrower_id && conn.access_grants[i].report_id
            == report_id && conn.access_grants[i].write_access {
            assert(conn.grants_v()[i as int].borrower_id == borrower_id as int);
            return true;
        }
        i = i + 1;
    }
    false
}

} // verus!
