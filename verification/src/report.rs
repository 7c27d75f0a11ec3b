//! Reports: the top-level owned financial records, and their repository.
//!
//! A report always has exactly one owner. Deleting a report cascades: the
//! same call removes every line item, proof, and access grant scoped to it,
//! so no orphaned child row ever survives.

use crate::error::RepoError;
use crate::models::{NewReport, Report, ReportAccessV, ReportLineItemV, ReportProofV, ReportV, User};
use crate::report_access::remove_grants_of;
use crate::report_line_item::remove_items_of;
use crate::report_proof::remove_proofs_of;
use crate::store::{
    grant_not_of, grant_of, item_not_of, item_of, lemma_filter_none, lemma_filter_push, owned_by,
    proof_not_of, proof_of, same_grants, same_line_items, same_next_ids, same_proofs, same_users,
    Store,
};
use crate::traits::{Builder, HasBuilder};
use vstd::prelude::*;

verus! {

// -------------------------------------------------------------------- builder
/// Accumulates the fields of a new report; `owner_id` and `title` are
/// required, `description` is optional and never blocks construction.
#[derive(Debug)]
pub struct NewReportBuilder {
    pub owner_id: Option<i64>,
    pub title: Option<String>,
    pub description: Option<String>,
}

impl NewReportBuilder {
    /// A builder with every slot empty.
    pub fn new() -> (r: Self)
        ensures
            r == (NewReportBuilder { owner_id: None, title: None, description: None }),
    {
        NewReportBuilder { owner_id: None, title: None, description: None }
    }

    /// Takes the owner id from an already-persisted user.
    pub fn owner(&mut self, owner: &User) -> (r: &mut Self)
        ensures
            *r == (NewReportBuilder {
                owner_id: Some(owner.id),
                title: old(self).title,
                description: old(self).description,
            }),
            *final(self) == *final(r),
    {
        self.owner_id = Some(owner.id);
        self
    }

    /// Sets the owner id; a later call overwrites an earlier one.
    pub fn owner_id(&mut self, owner_id: i64) -> (r: &mut Self)
        ensures
            *r == (NewReportBuilder {
                owner_id: Some(owner_id),
                title: old(self).title,
                description: old(self).description,
            }),
            *final(self) == *final(r),
    {
        self.owner_id = Some(owner_id);
        self
    }

    /// Sets the title; a later call overwrites an earlier one.
    pub fn title(&mut self, title: String) -> (r: &mut Self)
        ensures
            *r == (NewReportBuilder {
                owner_id: old(self).owner_id,
                title: Some(title),
                description: old(self).description,
            }),
            *final(self) == *final(r),
    {
        self.title = Some(title);
        self
    }

    /// Sets the optional description; a later call overwrites an earlier
    /// one.
    pub fn description(&mut self, description: String) -> (r: &mut Self)
        ensures
            *r == (NewReportBuilder {
                owner_id: old(self).owner_id,
                title: old(self).title,
                description: Some(description),
            }),
            *final(self) == *final(r),
    {
        self.description = Some(description);
        self
    }
}

impl Default for NewReportBuilder {
    /// A builder with every slot empty.
    fn default() -> (r: Self)
        ensures
            r == (NewReportBuilder { owner_id: None, title: None, description: None }),
    {
        NewReportBuilder::new()
    }
}

impl Builder<NewReport> for NewReportBuilder {
    type Output = NewReport;

    /// Yields the new report exactly when both required slots are set; the
    /// optional description is carried over as it stands, absent or present.
    fn build(&self) -> (r: Option<NewReport>)
        ensures
            r is Some <==> (self.owner_id is Some && self.title is Some),
            r is Some ==> r.unwrap() == (NewReport {
                owner_id: self.owner_id.unwrap(),
                title: self.title.unwrap(),
                description: self.description,
            }),
    {
        match (&self.owner_id, &self.title) {
            (Some(owner_id), Some(title)) => Some(
                NewReport {
                    owner_id: *owner_id,
                    title: title.clone(),
                    description: match &self.description {
                        Some(d) => Some(d.clone()),
                        None => None,
                    },
                },
            ),
            _ => None,
        }
    }
}

impl HasBuilder<NewReportBuilder, Self> for NewReport {
    fn builder() -> (r: NewReportBuilder)
        ensures
            r == (NewReportBuilder { owner_id: None, title: None, description: None }),
    {
        NewReportBuilder::new()
    }
}

impl HasBuilder<NewReportBuilder, NewReport> for Report {
    fn builder() -> (r: NewReportBuilder)
        ensures
            r == (NewReportBuilder { owner_id: None, title: None, description: None }),
    {
        NewReportBuilder::new()
    }
}

// --------------------------------------------------------------------- insert
/// Appending one freshly-id'd report keeps the store well-formed.
proof fn lemma_insert_report_wf(pre: Store, post: Store, rv: ReportV)
    requires
        pre.wf(),
        pre.next_report_id < i64::MAX,
        rv.id == pre.next_report_id as int,
        pre.has_user(rv.owner_id),
        post.reports_v() == pre.reports_v().push(rv),
        post.next_report_id == pre.next_report_id + 1,
        same_users(pre, post),
        same_line_items(pre, post),
        same_proofs(pre, post),
        same_grants(pre, post),
    ensures
        post.wf(),
{
    assert(post.users_v() == pre.users_v());
    assert(post.line_items_v() == pre.line_items_v());
    assert(post.proofs_v() == pre.proofs_v());
    assert(post.grants_v() == pre.grants_v());
    assert forall|x: int| pre.has_report(x) implies post.has_report(x) by {
        let k = choose|k: int|
            0 <= k < pre.reports_v().len() && (#[trigger] pre.reports_v()[k]).id == x;
        assert(post.reports_v()[k].id == x);
    }
    assert forall|x: int| pre.has_user(x) implies post.has_user(x) by {
        let k = choose|k: int| 0 <= k < pre.users_v().len() && (#[trigger] pre.users_v()[k]).id == x;
        assert(post.users_v()[k].id == x);
    }
}

impl NewReport {
    /// Persists the report under a fresh id and returns the stored row.
    ///
    /// Fails with `ConstraintViolation` exactly when the named owner does
    /// not exist; the store is then unchanged.
    pub fn insert(&self, conn: &mut Store) -> (r: Result<Report, RepoError>)
        requires
            old(conn).wf(),
            old(conn).next_report_id < i64::MAX,
        ensures
            final(conn).wf(),
            match r {
                Ok(rep) => {
                    &&& old(conn).has_user(self.owner_id as int)
                    &&& rep.deep_view() == self.with_id(old(conn).next_report_id as int)
                    &&& final(conn).reports_v() == old(conn).reports_v().push(
                        self.with_id(old(conn).next_report_id as int),
                    )
                    &&& final(conn).next_report_id == old(conn).next_report_id + 1
                    &&& same_users(*old(conn), *final(conn))
                    &&& same_line_items(*old(conn), *final(conn))
                    &&& same_proofs(*old(conn), *final(conn))
                    &&& same_grants(*old(conn), *final(conn))
                },
                Err(e) => {
                    &&& e == RepoError::ConstraintViolation
                    &&& !old(conn).has_user(self.owner_id as int)
                    &&& *final(conn) == *old(conn)
                },
            },
    {
        if !conn.contains_user(self.owner_id) {
            return Err(RepoError::ConstraintViolation);
        }
        let id = conn.next_report_id;
        let row = Report {
            id,
            owner_id: self.owner_id,
            title: self.title.clone(),
            description: match &self.description {
                Some(d) => Some(d.clone()),
                None => None,
            },
        };
        let out = row.clone();
        conn.reports.push(row);
        conn.next_report_id = id + 1;
        proof {
            assert(conn.reports_v() =~= old(conn).reports_v().push(self.with_id(id as int)));
            lemma_insert_report_wf(*old(conn), *conn, self.with_id(id as int));
        }
        Ok(out)
    }
}

// ------------------------------------------------------------------ positions
/// The position of the report with `id`, if one exists.
fn report_position(id: i64, conn: &Store) -> (r: Option<usize>)
    requires
        conn.wf(),
    ensures
        match r {
            Some(i) => {
                &&& i < conn.reports_v().len()
                &&& conn.reports_v()[i as int].id == id as int
                &&& conn.has_report(id as int)
                &&& conn.report_index(id as int) == i as int
                &&& conn.report_at(id as int) == conn.reports_v()[i as int]
            },
            None => !conn.has_report(id as int),
        },
{
    let mut i: usize = 0;
    while i < conn.reports.len()
        invariant
            conn.wf(),
            i <= conn.reports.len(),
            forall|j: int| 0 <= j < i ==> (#[trigger] conn.reports_v()[j]).id != id as int,
        decreases conn.reports.len() - i,
    {
        if conn.reports[i].id == id {
            proof {
                conn.lemma_report_pinned(i as int);
            }
            return Some(i);
        }
        i = i + 1;
    }
    None
}

// --------------------------------------------------------------- repository
/// Removing a report that no child row references keeps the store
/// well-formed.
proof fn lemma_delete_report_wf(pre: Store, post: Store, k: int)
    requires
        pre.wf(),
        0 <= k < pre.reports_v().len(),
        forall|i: int|
            0 <= i < pre.line_items_v().len() ==> (#[trigger] pre.line_items_v()[i]).report_id
                != pre.reports_v()[k].id,
        forall|i: int|
            0 <= i < pre.proofs_v().len() ==> (#[trigger] pre.proofs_v()[i]).report_id
                != pre.reports_v()[k].id,
        forall|i: int|
            0 <= i < pre.grants_v().len() ==> (#[trigger] pre.grants_v()[i]).report_id
                != pre.reports_v()[k].id,
        post.reports_v() == pre.reports_v().remove(k),
        post.users == pre.users,
        post.line_items == pre.line_items,
        post.proofs == pre.proofs,
        post.access_grants == pre.access_grants,
        same_next_ids(pre, post),
    ensures
        post.wf(),
{
    assert(post.users_v() == pre.users_v());
    assert(post.line_items_v() == pre.line_items_v());
    assert(post.proofs_v() == pre.proofs_v());
    assert(post.grants_v() == pre.grants_v());
    pre.reports_v().remove_ensures(k);
    assert forall|j: int| 0 <= j < post.reports_v().len() implies #[trigger] post.reports_v()[j]
        == (if j < k {
        pre.reports_v()[j]
    } else {
        pre.reports_v()[j + 1]
    }) by {
        assert(post.reports_v()[j] == pre.reports_v().remove(k)[j]);
    }
    assert forall|x: int| pre.has_report(x) && x != pre.reports_v()[k].id implies post.has_report(
        x,
    ) by {
        let j = choose|j: int|
            0 <= j < pre.reports_v().len() && (#[trigger] pre.reports_v()[j]).id == x;
        if j < k {
            assert(post.reports_v()[j].id == x);
        } else {
            assert(j != k);
            assert(post.reports_v()[j - 1] == pre.reports_v()[j]);
        }
    }
    assert forall|x: int| pre.has_user(x) implies post.has_user(x) by {
        let j = choose|j: int| 0 <= j < pre.users_v().len() && (#[trigger] pre.users_v()[j]).id
            == x;
        assert(post.users_v()[j].id == x);
    }
}

impl Report {
    /// Empties the report table and, with it, every table scoped to a
    /// report: line items, proofs, and grants all cascade away. Users stay.
    pub fn clear(conn: &mut Store) -> (r: Result<(), RepoError>)
        requires
            old(conn).wf(),
        ensures
            final(conn).wf(),
            r is Ok,
            final(conn).reports_v() == Seq::<ReportV>::empty(),
            final(conn).line_items_v() == Seq::<ReportLineItemV>::empty(),
            final(conn).proofs_v() == Seq::<ReportProofV>::empty(),
            final(conn).grants_v() == Seq::<ReportAccessV>::empty(),
            final(conn).users == old(conn).users,
            same_next_ids(*old(conn), *final(conn)),
    {
        conn.reports.clear();
        conn.line_items.clear();
        conn.proofs.clear();
        conn.access_grants.clear();
        proof {
            assert(conn.reports_v() =~= Seq::<ReportV>::empty());
            assert(conn.line_items_v() =~= Seq::<ReportLineItemV>::empty());
            assert(conn.proofs_v() =~= Seq::<ReportProofV>::empty());
            assert(conn.grants_v() =~= Seq::<ReportAccessV>::empty());
            assert(conn.users_v() == old(conn).users_v());
        }
        Ok(())
    }

    /// Returns the report with `id`, or `NotFound` if no row has it.
    pub fn get_by_id(id: i64, conn: &Store) -> (r: Result<Report, RepoError>)
        requires
            conn.wf(),
        ensures
            match r {
                Ok(rep) => conn.has_report(id as int) && rep.deep_view() == conn.report_at(
                    id as int,
                ),
                Err(e) => e == RepoError::NotFound && !conn.has_report(id as int),
            },
    {
        match report_position(id, conn) {
            Some(i) => Ok(conn.reports[i].clone()),
            None => Err(RepoError::NotFound),
        }
    }

    /// Returns every report owned outright by `owner_id`, in table order;
    /// access grants play no part here.
    pub fn get_by_owner(owner_id: i64, conn: &Store) -> (r: Result<Vec<Report>, RepoError>)
        requires
            conn.wf(),
        ensures
            r matches Ok(reports) && reports.deep_view() == conn.reports_of_owner(owner_id as int),
    {
        let ghost pred = owned_by(owner_id as int);
        let mut out: Vec<Report> = Vec::new();
        proof {
            reveal(Seq::filter);
            assert(out.deep_view() =~= conn.reports_v().subrange(0, 0).filter(pred));
        }
        let mut i: usize = 0;
        while i < conn.reports.len()
            invariant
                i <= conn.reports.len(),
                out.deep_view() == conn.reports_v().subrange(0, i as int).filter(pred),
                pred == owned_by(owner_id as int),
            decreases conn.reports.len() - i,
        {
            let ghost prefix = conn.reports_v().subrange(0, i as int);
            proof {
                assert(conn.reports_v().subrange(0, i as int + 1) =~= prefix.push(
                    conn.reports_v()[i as int],
                ));
                lemma_filter_push(prefix, pred, conn.reports_v()[i as int]);
            }
            if conn.reports[i].owner_id == owner_id {
                let ghost kv = out.deep_view();
                out.push(conn.reports[i].clone());
                proof {
                    assert(out.deep_view() =~= kv.push(conn.reports_v()[i as int]));
                }
            }
            i = i + 1;
        }
        proof {
            assert(conn.reports_v().subrange(0, conn.reports.len() as int) =~= conn.reports_v());
        }
        Ok(out)
    }

    /// Deletes the report with `id` and returns it, cascading first: every
    /// line item, proof, and grant scoped to the report goes with it, so
    /// the child queries on `id` come back empty afterwards.
    ///
    /// `NotFound` (and an unchanged store) if no report has `id`.
    pub fn delete(id: i64, conn: &mut Store) -> (r: Result<Report, RepoError>)
        requires
            old(conn).wf(),
        ensures
            final(conn).wf(),
            match r {
                Ok(rep) => {
                    &&& old(conn).has_report(id as int)
                    &&& rep.deep_view() == old(conn).report_at(id as int)
                    &&& final(conn).reports_v() == old(conn).reports_v().remove(
                        old(conn).report_index(id as int),
                    )
                    &&& !final(conn).has_report(id as int)
                    &&& final(conn).line_items_v() == old(conn).line_items_v().filter(
                        item_not_of(id as int),
                    )
                    &&& final(conn).proofs_v() == old(conn).proofs_v().filter(
                        proof_not_of(id as int),
                    )
                    &&& final(conn).grants_v() == old(conn).grants_v().filter(
                        grant_not_of(id as int),
                    )
                    &&& final(conn).items_of(id as int) == Seq::<ReportLineItemV>::empty()
                    &&& final(conn).proofs_of(id as int) == Seq::<ReportProofV>::empty()
                    &&& final(conn).grants_of(id as int) == Seq::<ReportAccessV>::empty()
                    &&& final(conn).users == old(conn).users
                    &&& same_next_ids(*old(conn), *final(conn))
                },
                Err(e) => {
                    &&& e == RepoError::NotFound
                    &&& !old(conn).has_report(id as int)
                    &&& *final(conn) == *old(conn)
                },
            },
    {
        let i = match report_position(id, conn) {
            Some(i) => i,
            None => {
                return Err(RepoError::NotFound);
            },
        };
        remove_items_of(conn, id);
        remove_proofs_of(conn, id);
        remove_grants_of(conn, id);
        let ghost mid = *conn;
        let rep = conn.reports.remove(i);
        proof {
            let pre = *old(conn);
            let post = *conn;
            let k = i as int;
            // the three cascades left the report table alone
            assert(mid.reports_v() == pre.reports_v());
            mid.reports_v().remove_ensures(k);
            assert(post.reports_v() =~= mid.reports_v().remove(k)) by {
                mid.reports@.remove_ensures(k);
            }
            // no surviving child row points at the removed report
            assert forall|j: int| 0 <= j < mid.line_items_v().len() implies (
            #[trigger] mid.line_items_v()[j]).report_id != id as int by {
                pre.line_items_v().lemma_filter_pred(item_not_of(id as int), j);
            }
            assert forall|j: int| 0 <= j < mid.proofs_v().len() implies (
            #[trigger] mid.proofs_v()[j]).report_id != id as int by {
                pre.proofs_v().lemma_filter_pred(proof_not_of(id as int), j);
            }
            assert forall|j: int| 0 <= j < mid.grants_v().len() implies (
            #[trigger] mid.grants_v()[j]).report_id != id as int by {
                pre.grants_v().lemma_filter_pred(grant_not_of(id as int), j);
            }
            lemma_delete_report_wf(mid, post, k);
            // the removed report really is gone
            assert forall|j: int| 0 <= j < post.reports_v().len() implies (
            #[trigger] post.reports_v()[j]).id != id as int by {
                assert(post.reports_v()[j] == mid.reports_v().remove(k)[j]);
                if j < k {
                } else {
                    assert(post.reports_v()[j] == mid.reports_v()[j + 1]);
                }
            }
            // and the child queries on it come back empty
            lemma_filter_none(post.line_items_v(), item_of(id as int));
            lemma_filter_none(post.proofs_v(), proof_of(id as int));
            lemma_filter_none(post.grants_v(), grant_of(id as int));
        }
        Ok(rep)
    }

    /// Rewrites the report with `id` — owner, title, description — and
    /// returns the refreshed row.
    ///
    /// `NotFound` if no report has `id`; `ConstraintViolation` if the new
    /// owner does not exist. Either failure leaves the store unchanged.
    pub fn update(
        id: i64,
        owner_id: i64,
        title: String,
        description: Option<String>,
        conn: &mut Store,
    ) -> (r: Result<Report, RepoError>)
        requires
            old(conn).wf(),
        ensures
            final(conn).wf(),
            match r {
                Ok(rep) => {
                    &&& old(conn).has_report(id as int)
                    &&& old(conn).has_user(owner_id as int)
                    &&& rep.deep_view() == (ReportV {
                        id: id as int,
                        owner_id: owner_id as int,
                        title: title@,
                        description: description.deep_view(),
                    })
                    &&& final(conn).reports_v() == old(conn).reports_v().update(
                        old(conn).report_index(id as int),
                        rep.deep_view(),
                    )
                    &&& final(conn).users == old(conn).users
                    &&& final(conn).line_items == old(conn).line_items
                    &&& final(conn).proofs == old(conn).proofs
                    &&& final(conn).access_grants == old(conn).access_grants
                    &&& same_next_ids(*old(conn), *final(conn))
                },
                Err(e) => {
                    &&& *final(conn) == *old(conn)
                    &&& (e == RepoError::NotFound && !old(conn).has_report(id as int) || (e
                        == RepoError::ConstraintViolation && old(conn).has_report(id as int) && !old(
                        conn,
                    ).has_user(owner_id as int)))
                },
            },
    {
        let i = match report_position(id, conn) {
            Some(i) => i,
            None => {
                return Err(RepoError::NotFound);
            },
        };
        if !conn.contains_user(owner_id) {
            return Err(RepoError::ConstraintViolation);
        }
        let row = Report { id, owner_id, title, description };
        let out = row.clone();
        conn.reports[i] = row;
        proof {
            let pre = *old(conn);
            let post = *conn;
            let k = i as int;
            assert(post.users_v() == pre.users_v());
            assert(post.line_items_v() == pre.line_items_v());
            assert(post.proofs_v() == pre.proofs_v());
            assert(post.grants_v() == pre.grants_v());
            assert(post.reports_v() =~= pre.reports_v().update(k, out.deep_view()));
            assert forall|j: int|
                0 <= j < post.reports_v().len() && j != k implies #[trigger] post.reports_v()[j]
                == pre.reports_v()[j] by {
                assert(post.reports_v()[j] == pre.reports_v().update(k, out.deep_view())[j]);
            }
            assert(post.reports_v()[k] == out.deep_view());
            assert(out.deep_view().id == pre.reports_v()[k].id);
            assert forall|x: int| pre.has_report(x) implies post.has_report(x) by {
                let j = choose|j: int|
                    0 <= j < pre.reports_v().len() && (#[trigger] pre.reports_v()[j]).id == x;
                if j == k {
                    assert(post.reports_v()[k].id == x);
                } else {
                    assert(post.reports_v()[j].id == x);
                }
            }
            assert forall|x: int| pre.has_user(x) implies post.has_user(x) by {
                let j = choose|j: int|
                    0 <= j < pre.users_v().len() && (#[trigger] pre.users_v()[j]).id == x;
                assert(post.users_v()[j].id == x);
            }
        }
        Ok(out)
    }

    /// Applies a whole new-report value over the report with `id`; exactly
    /// `update` with that value's fields.
    pub fn replace(id: i64, new: &NewReport, conn: &mut Store) -> (r: Result<Report, RepoError>)
        requires
            old(conn).wf(),
        ensures
            final(conn).wf(),
            match r {
                Ok(rep) => {
                    &&& old(conn).has_report(id as int)
                    &&& old(conn).has_user(new.owner_id as int)
                    &&& rep.deep_view() == (ReportV {
                        id: id as int,
                        owner_id: new.owner_id as int,
                        title: new.title@,
                        description: new.description.deep_view(),
                    })
                    &&& final(conn).reports_v() == old(conn).reports_v().update(
                        old(conn).report_index(id as int),
                        rep.deep_view(),
                    )
                    &&& final(conn).users == old(conn).users
                    &&& final(conn).line_items == old(conn).line_items
                    &&& final(conn).proofs == old(conn).proofs
                    &&& final(conn).access_grants == old(conn).access_grants
                    &&& same_next_ids(*old(conn), *final(conn))
                },
                Err(e) => {
                    &&& *final(conn) == *old(conn)
                    &&& (e == RepoError::NotFound && !old(conn).has_report(id as int) || (e
                        == RepoError::ConstraintViolation && old(conn).has_report(id as int) && !old(
                        conn,
                    ).has_user(new.owner_id as int)))
                },
            },
    {
        let title = new.title.clone();
        let description = match &new.description {
            Some(d) => Some(d.clone()),
            None => None,
        };
        Self::update(id, new.owner_id, title, description, conn)
    }
}

} // verus!
