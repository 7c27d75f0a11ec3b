//! Proof attachments: opaque binary receipts and documents of a report.
//!
//! A proof is addressed from outside by the composite key `(report_id, id)`,
//! exactly like a line item: an `id` match under the wrong report is
//! `NotFound`, never silently corrected.

use crate::error::RepoError;
use crate::models::{NewReportProof, Report, ReportProof, ReportProofV};
use crate::store::{
    lemma_filter_contained, lemma_filter_distinct, lemma_filter_none, lemma_filter_push,
    proof_not_of, proof_of, same_grants, same_line_items, same_next_ids, same_reports, same_users,
    Store,
};
use crate::traits::{Builder, HasBuilder};
use vstd::prelude::*;
use vstd::slice::slice_to_vec;

verus! {

// -------------------------------------------------------------------- builder
/// Accumulates the fields of a new proof; `report_id` and `data` are both
/// required.
#[derive(Debug)]
pub struct NewReportProofBuilder {
    pub report_id: Option<i64>,
    pub data: Option<Vec<u8>>,
}

impl NewReportProofBuilder {
    /// A builder with every slot empty.
    pub fn new() -> (r: Self)
        ensures
            r.report_id is None,
            r.data is None,
    {
        NewReportProofBuilder { report_id: None, data: None }
    }

    /// Takes the parent report id from an already-persisted report.
    pub fn report(&mut self, report: &Report) -> (r: &mut Self)
        ensures
            r.report_id == Some(report.id),
            r.data == old(self).data,
            *final(self) == *final(r),
    {
        self.report_id = Some(report.id);
        self
    }

    /// Sets the parent report id; a later call overwrites an earlier one.
    pub fn report_id(&mut self, report_id: i64) -> (r: &mut Self)
        ensures
            r.report_id == Some(report_id),
            r.data == old(self).data,
            *final(self) == *final(r),
    {
        self.report_id = Some(report_id);
        self
    }

    /// Sets the attachment bytes; a later call overwrites an earlier one.
    pub fn data(&mut self, data: Vec<u8>) -> (r: &mut Self)
        ensures
            r.report_id == old(self).report_id,
            r.data == Some(data),
            *final(self) == *final(r),
    {
        self.data = Some(data);
        self
    }
}

impl Default for NewReportProofBuilder {
    /// A builder with every slot empty.
    fn default() -> (r: Self)
        ensures
            r.report_id is None,
            r.data is None,
    {
        NewReportProofBuilder::new()
    }
}

impl Builder<NewReportProof> for NewReportProofBuilder {
    type Output = NewReportProof;

    /// Yields the new proof exactly when both required slots are set,
    /// carrying the last value each slot received.
    fn build(&self) -> (r: Option<NewReportProof>)
        ensures
            r is Some <==> (self.report_id is Some && self.data is Some),
            r is Some ==> r.unwrap().report_id == self.report_id.unwrap()
                && r.unwrap().data.deep_view() == self.data.unwrap().deep_view(),
    {
        match (&self.report_id, &self.data) {
            (Some(report_id), Some(data)) => {
                let d = data.clone();
                proof {
                    assert(d@ =~= data@);
                    assert(d.deep_view() =~= data.deep_view());
                }
                Some(NewReportProof { report_id: *report_id, data: d })
            },
            _ => None,
        }
    }
}

impl HasBuilder<NewReportProofBuilder, Self> for NewReportProof {
    fn builder() -> (r: NewReportProofBuilder)
        ensures
            r.report_id is None,
            r.data is None,
    {
        NewReportProofBuilder::new()
    }
}

impl HasBuilder<NewReportProofBuilder, NewReportProof> for ReportProof {
    fn builder() -> (r: NewReportProofBuilder)
        ensures
            r.report_id is None,
            r.data is None,
    {
        NewReportProofBuilder::new()
    }
}

// --------------------------------------------------------------------- insert
/// Appending one freshly-id'd row keeps the store well-formed.
proof fn lemma_insert_proof_wf(pre: Store, post: Store, p: ReportProofV)
    requires
        pre.wf(),
        pre.next_proof_id < i64::MAX,
        p.id == pre.next_proof_id as int,
        pre.has_report(p.report_id),
        post.proofs_v() == pre.proofs_v().push(p),
        post.next_proof_id == pre.next_proof_id + 1,
        same_users(pre, post),
        same_reports(pre, post),
        same_line_items(pre, post),
        same_grants(pre, post),
    ensures
        post.wf(),
{
    assert(post.users_v() == pre.users_v());
    assert(post.reports_v() == pre.reports_v());
    assert(post.line_items_v() == pre.line_items_v());
    assert(post.grants_v() == pre.grants_v());
    assert forall|x: int| pre.has_report(x) implies post.has_report(x) by {
        let k = choose|k: int|
            0 <= k < pre.reports_v().len() && (#[trigger] pre.reports_v()[k]).id == x;
        assert(post.reports_v()[k].id == x);
    }
    assert forall|x: int| pre.has_user(x) implies post.has_user(x) by {
        let k = choose|k: int| 0 <= k < pre.users_v().len() && (#[trigger] pre.users_v()[k]).id == x;
        assert(post.users_v()[k].id == x);
    }
}

impl NewReportProof {
    /// Persists the proof under a fresh id and returns the stored row.
    ///
    /// Fails with `ConstraintViolation` exactly when the parent report does
    /// not exist; the store is then unchanged.
    pub fn insert(&self, conn: &mut Store) -> (r: Result<ReportProof, RepoError>)
        requires
            old(conn).wf(),
            old(conn).next_proof_id < i64::MAX,
        ensures
            final(conn).wf(),
            match r {
                Ok(p) => {
                    &&& old(conn).has_report(self.report_id as int)
                    &&& p.deep_view() == self.with_id(old(conn).next_proof_id as int)
                    &&& final(conn).proofs_v() == old(conn).proofs_v().push(
                        self.with_id(old(conn).next_proof_id as int),
                    )
                    &&& final(conn).next_proof_id == old(conn).next_proof_id + 1
                    &&& same_users(*old(conn), *final(conn))
                    &&& same_reports(*old(conn), *final(conn))
                    &&& same_line_items(*old(conn), *final(conn))
                    &&& same_grants(*old(conn), *final(conn))
                },
                Err(e) => {
                    &&& e == RepoError::ConstraintViolation
                    &&& !old(conn).has_report(self.report_id as int)
                    &&& *final(conn) == *old(conn)
                },
            },
    {
        if !conn.contains_report(self.report_id) {
            return Err(RepoError::ConstraintViolation);
        }
        let id = conn.next_proof_id;
        let row = ReportProof { id, report_id: self.report_id, data: self.data.clone() };
        let out = row.clone();
        conn.proofs.push(row);
        conn.next_proof_id = id + 1;
        proof {
            assert(conn.proofs_v() =~= old(conn).proofs_v().push(self.with_id(id as int)));
            lemma_insert_proof_wf(*old(conn), *conn, self.with_id(id as int));
        }
        Ok(out)
    }
}

// ------------------------------------------------------------------- removals
/// Removing one proof row keeps the store well-formed.
proof fn lemma_remove_proof_wf(pre: Store, post: Store, k: int)
    requires
        pre.wf(),
        0 <= k < pre.proofs_v().len(),
        post.proofs_v() == pre.proofs_v().remove(k),
        post.users == pre.users,
        post.reports == pre.reports,
        post.line_items == pre.line_items,
        post.access_grants == pre.access_grants,
        same_next_ids(pre, post),
    ensures
        post.wf(),
{
    assert(post.users_v() == pre.users_v());
    assert(post.reports_v() == pre.reports_v());
    assert(post.line_items_v() == pre.line_items_v());
    assert(post.grants_v() == pre.grants_v());
    pre.proofs_v().remove_ensures(k);
    assert forall|j: int| 0 <= j < post.proofs_v().len() implies #[trigger] post.proofs_v()[j] == (
    if j < k {
        pre.proofs_v()[j]
    } else {
        pre.proofs_v()[j + 1]
    }) by {
        assert(post.proofs_v()[j] == pre.proofs_v().remove(k)[j]);
    }
    assert forall|x: int| pre.has_report(x) implies post.has_report(x) by {
        let j = choose|j: int|
            0 <= j < pre.reports_v().len() && (#[trigger] pre.reports_v()[j]).id == x;
        assert(post.reports_v()[j].id == x);
    }
    assert forall|x: int| pre.has_user(x) implies post.has_user(x) by {
        let j = choose|j: int| 0 <= j < pre.users_v().len() && (#[trigger] pre.users_v()[j]).id
            == x;
        assert(post.users_v()[j].id == x);
    }
}

/// Drops every proof scoped to `report_id`; other tables stay put.
pub(crate) fn remove_proofs_of(conn: &mut Store, report_id: i64)
    requires
        old(conn).wf(),
    ensures
        final(conn).wf(),
        final(conn).proofs_v() == old(conn).proofs_v().filter(proof_not_of(report_id as int)),
        final(conn).users == old(conn).users,
        final(conn).reports == old(conn).reports,
        final(conn).line_items == old(conn).line_items,
        final(conn).access_grants == old(conn).access_grants,
        same_next_ids(*old(conn), *final(conn)),
{
    let ghost pred = proof_not_of(report_id as int);
    let mut kept: Vec<ReportProof> = Vec::new();
    proof {
        reveal(Seq::filter);
        assert(kept.deep_view() =~= conn.proofs_v().subrange(0, 0).filter(pred));
    }
    let mut i: usize = 0;
    while i < conn.proofs.len()
        invariant
            i <= conn.proofs.len(),
            kept.deep_view() == conn.proofs_v().subrange(0, i as int).filter(pred),
            pred == proof_not_of(report_id as int),
        decreases conn.proofs.len() - i,
    {
        let ghost prefix = conn.proofs_v().subrange(0, i as int);
        proof {
            assert(conn.proofs_v().subrange(0, i as int + 1) =~= prefix.push(
                conn.proofs_v()[i as int],
            ));
            lemma_filter_push(prefix, pred, conn.proofs_v()[i as int]);
        }
        if conn.proofs[i].report_id != report_id {
            let ghost kv = kept.deep_view();
            kept.push(conn.proofs[i].clone());
            proof {
                assert(kept.deep_view() =~= kv.push(conn.proofs_v()[i as int]));
            }
        }
        i = i + 1;
    }
    proof {
        assert(conn.proofs_v().subrange(0, conn.proofs.len() as int) =~= conn.proofs_v());
    }
    conn.proofs = kept;
    proof {
        let pre = *old(conn);
        let post = *conn;
        assert(post.users_v() == pre.users_v());
        assert(post.reports_v() == pre.reports_v());
        assert(post.line_items_v() == pre.line_items_v());
        assert(post.grants_v() == pre.grants_v());
        lemma_filter_contained(pre.proofs_v(), pred);
        let proj = |p: ReportProofV| p.id;
        lemma_filter_distinct(pre.proofs_v(), pred, proj);
        assert forall|a: int, b: int|
            0 <= a < b < post.proofs_v().len() implies (#[trigger] post.proofs_v()[a]).id != (
        #[trigger] post.proofs_v()[b]).id by {
            let f = pre.proofs_v().filter(pred);
            assert(proj(f[a]) != proj(f[b]));
        }
        assert forall|j: int| 0 <= j < post.proofs_v().len() implies 1 <= (
        #[trigger] post.proofs_v()[j]).id < post.next_proof_id && post.has_report(
            post.proofs_v()[j].report_id,
        ) by {
            assert(pre.proofs_v().contains(post.proofs_v()[j]));
            let k = choose|k: int|
                0 <= k < pre.proofs_v().len() && pre.proofs_v()[k] == post.proofs_v()[j];
            assert(pre.has_report(pre.proofs_v()[k].report_id));
            let m = choose|m: int|
                0 <= m < pre.reports_v().len() && (#[trigger] pre.reports_v()[m]).id
                    == pre.proofs_v()[k].report_id;
            assert(post.reports_v()[m].id == post.proofs_v()[j].report_id);
        }
        assert forall|x: int| pre.has_user(x) implies post.has_user(x) by {
            let k = choose|k: int|
                0 <= k < pre.users_v().len() && (#[trigger] pre.users_v()[k]).id == x;
            assert(post.users_v()[k].id == x);
        }
        assert forall|x: int| pre.has_report(x) implies post.has_report(x) by {
            let k = choose|k: int|
                0 <= k < pre.reports_v().len() && (#[trigger] pre.reports_v()[k]).id == x;
            assert(post.reports_v()[k].id == x);
        }
    }
}

// ------------------------------------------------------------------ positions
/// The position of the row addressed by the composite key, if the key
/// matches one.
fn proof_position(path_ids: (i64, i64), conn: &Store) -> (r: Option<usize>)
    requires
        conn.wf(),
    ensures
        match r {
            Some(i) => {
                &&& i < conn.proofs_v().len()
                &&& conn.proofs_v()[i as int].id == path_ids.1 as int
                &&& conn.proofs_v()[i as int].report_id == path_ids.0 as int
                &&& conn.has_proof_path(path_ids.0 as int, path_ids.1 as int)
                &&& conn.proof_index(path_ids.1 as int) == i as int
                &&& conn.proof_at(path_ids.1 as int) == conn.proofs_v()[i as int]
            },
            None => !conn.has_proof_path(path_ids.0 as int, path_ids.1 as int),
        },
{
    let report_id = path_ids.0;
    let id = path_ids.1;
    let mut i: usize = 0;
    while i < conn.proofs.len()
        invariant
            conn.wf(),
            i <= conn.proofs.len(),
            id == path_ids.1,
            report_id == path_ids.0,
            forall|j: int|
                0 <= j < i ==> !((#[trigger] conn.proofs_v()[j]).id == id as int
                    && conn.proofs_v()[j].report_id == report_id as int),
        decreases conn.proofs.len() - i,
    {
        if conn.proofs[i].id == id && conn.proofs[i].report_id == report_id {
            proof {
                conn.lemma_proof_pinned(i as int);
            }
            return Some(i);
        }
        i = i + 1;
    }
    proof {
        if conn.has_proof(id as int) {
            let k = conn.proof_index(id as int);
            assert(conn.proofs_v()[k].report_id != report_id as int);
        }
    }
    None
}

// --------------------------------------------------------------- repository
impl ReportProof {
    /// Empties the whole proof table; deleting zero rows is no error.
    pub fn clear(conn: &mut Store) -> (r: Result<(), RepoError>)
        requires
            old(conn).wf(),
        ensures
            final(conn).wf(),
            r is Ok,
            final(conn).proofs_v() == Seq::<ReportProofV>::empty(),
            final(conn).users == old(conn).users,
            final(conn).reports == old(conn).reports,
            final(conn).line_items == old(conn).line_items,
            final(conn).access_grants == old(conn).access_grants,
            same_next_ids(*old(conn), *final(conn)),
    {
        conn.proofs.clear();
        proof {
            assert(conn.proofs_v() =~= Seq::<ReportProofV>::empty());
            assert(conn.users_v() == old(conn).users_v());
            assert(conn.reports_v() == old(conn).reports_v());
            assert(conn.line_items_v() == old(conn).line_items_v());
            assert(conn.grants_v() == old(conn).grants_v());
            assert forall|x: int| old(conn).has_user(x) implies conn.has_user(x) by {
                let k = choose|k: int|
                    0 <= k < old(conn).users_v().len() && (#[trigger] old(conn).users_v()[k]).id
                        == x;
                assert(conn.users_v()[k].id == x);
            }
            assert forall|x: int| old(conn).has_report(x) implies conn.has_report(x) by {
                let k = choose|k: int|
                    0 <= k < old(conn).reports_v().len() && (#[trigger] old(
                        conn,
                    ).reports_v()[k]).id == x;
                assert(conn.reports_v()[k].id == x);
            }
        }
        Ok(())
    }

    /// Drops every proof of one report; idempotent, so deleting zero rows
    /// succeeds too.
    pub fn clear_by_report(report_id: i64, conn: &mut Store) -> (r: Result<(), RepoError>)
        requires
            old(conn).wf(),
        ensures
            final(conn).wf(),
            r is Ok,
            final(conn).proofs_v() == old(conn).proofs_v().filter(proof_not_of(report_id as int)),
            final(conn).proofs_of(report_id as int) == Seq::<ReportProofV>::empty(),
            final(conn).users == old(conn).users,
            final(conn).reports == old(conn).reports,
            final(conn).line_items == old(conn).line_items,
            final(conn).access_grants == old(conn).access_grants,
            same_next_ids(*old(conn), *final(conn)),
    {
        remove_proofs_of(conn, report_id);
        proof {
            assert forall|j: int| 0 <= j < conn.proofs_v().len() implies !(proof_of(
                report_id as int,
            )(#[trigger] conn.proofs_v()[j])) by {
                old(conn).proofs_v().lemma_filter_pred(proof_not_of(report_id as int), j);
            }
            lemma_filter_none(conn.proofs_v(), proof_of(report_id as int));
        }
        Ok(())
    }

    /// Returns the proof with `id`, or `NotFound` if no row has it.
    pub fn get_by_id(id: i64, conn: &Store) -> (r: Result<ReportProof, RepoError>)
        requires
            conn.wf(),
        ensures
            match r {
                Ok(p) => conn.has_proof(id as int) && p.deep_view() == conn.proof_at(id as int),
                Err(e) => e == RepoError::NotFound && !conn.has_proof(id as int),
            },
    {
        let mut i: usize = 0;
        while i < conn.proofs.len()
            invariant
                conn.wf(),
                i <= conn.proofs.len(),
                forall|j: int| 0 <= j < i ==> (#[trigger] conn.proofs_v()[j]).id != id as int,
            decreases conn.proofs.len() - i,
        {
            if conn.proofs[i].id == id {
                let p = conn.proofs[i].clone();
                proof {
                    conn.lemma_proof_pinned(i as int);
                }
                return Ok(p);
            }
            i = i + 1;
        }
        Err(RepoError::NotFound)
    }

    /// Returns every proof of one report, in table order; a report with no
    /// proofs yields the empty sequence, not an error.
    pub fn get_by_report(report_id: i64, conn: &Store) -> (r: Result<Vec<ReportProof>, RepoError>)
        requires
            conn.wf(),
        ensures
            r matches Ok(proofs) && proofs.deep_view() == conn.proofs_of(report_id as int),
    {
        let ghost pred = proof_of(report_id as int);
        let mut out: Vec<ReportProof> = Vec::new();
        proof {
            reveal(Seq::filter);
            assert(out.deep_view() =~= conn.proofs_v().subrange(0, 0).filter(pred));
        }
        let mut i: usize = 0;
        while i < conn.proofs.len()
            invariant
                i <= conn.proofs.len(),
                out.deep_view() == conn.proofs_v().subrange(0, i as int).filter(pred),
                pred == proof_of(report_id as int),
            decreases conn.proofs.len() - i,
        {
            let ghost prefix = conn.proofs_v().subrange(0, i as int);
            proof {
                assert(conn.proofs_v().subrange(0, i as int + 1) =~= prefix.push(
                    conn.proofs_v()[i as int],
                ));
                lemma_filter_push(prefix, pred, conn.proofs_v()[i as int]);
            }
            if conn.proofs[i].report_id == report_id {
                let ghost kv = out.deep_view();
                out.push(conn.proofs[i].clone());
                proof {
                    assert(out.deep_view() =~= kv.push(conn.proofs_v()[i as int]));
                }
            }
            i = i + 1;
        }
        proof {
            assert(conn.proofs_v().subrange(0, conn.proofs.len() as int) =~= conn.proofs_v());
        }
        Ok(out)
    }

    /// Composite-key lookup: the row must carry `id` *and* belong to
    /// `report_id`; an `id` match under another report is `NotFound`.
    pub fn get_by_path(path_ids: (i64, i64), conn: &Store) -> (r: Result<ReportProof, RepoError>)
        requires
            conn.wf(),
        ensures
            match r {
                Ok(p) => {
                    &&& conn.has_proof_path(path_ids.0 as int, path_ids.1 as int)
                    &&& p.deep_view() == conn.proof_at(path_ids.1 as int)
                },
                Err(e) => {
                    &&& e == RepoError::NotFound
                    &&& !conn.has_proof_path(path_ids.0 as int, path_ids.1 as int)
                },
            },
    {
        match proof_position(path_ids, conn) {
            Some(i) => Ok(conn.proofs[i].clone()),
            None => Err(RepoError::NotFound),
        }
    }

    /// Deletes the row addressed by the composite key and returns it;
    /// `NotFound` (and an unchanged store) if the key matches nothing.
    pub fn delete(path_ids: (i64, i64), conn: &mut Store) -> (r: Result<ReportProof, RepoError>)
        requires
            old(conn).wf(),
        ensures
            final(conn).wf(),
            match r {
                Ok(p) => {
                    &&& old(conn).has_proof_path(path_ids.0 as int, path_ids.1 as int)
                    &&& p.deep_view() == old(conn).proof_at(path_ids.1 as int)
                    &&& final(conn).proofs_v() == old(conn).proofs_v().remove(
                        old(conn).proof_index(path_ids.1 as int),
                    )
                    &&& final(conn).users == old(conn).users
                    &&& final(conn).reports == old(conn).reports
                    &&& final(conn).line_items == old(conn).line_items
                    &&& final(conn).access_grants == old(conn).access_grants
                    &&& same_next_ids(*old(conn), *final(conn))
                },
                Err(e) => {
                    &&& e == RepoError::NotFound
                    &&& !old(conn).has_proof_path(path_ids.0 as int, path_ids.1 as int)
                    &&& *final(conn) == *old(conn)
                },
            },
    {
        match proof_position(path_ids, conn) {
            Some(i) => {
                let p = conn.proofs.remove(i);
                proof {
                    old(conn).proofs@.remove_ensures(i as int);
                    old(conn).proofs_v().remove_ensures(i as int);
                    assert(conn.proofs_v() =~= old(conn).proofs_v().remove(i as int));
                    lemma_remove_proof_wf(*old(conn), *conn, i as int);
                }
                Ok(p)
            },
            None => Err(RepoError::NotFound),
        }
    }

    /// Rewrites the row addressed by the composite key with the given
    /// parent and bytes, and returns the refreshed row.
    ///
    /// `NotFound` if the key matches nothing; `ConstraintViolation` if the
    /// new parent report does not exist. Either failure leaves the store
    /// unchanged.
    pub fn update(path_ids: (i64, i64), report_id: i64, data: &[u8], conn: &mut Store) -> (r:
        Result<ReportProof, RepoError>)
        requires
            old(conn).wf(),
        ensures
            final(conn).wf(),
            match r {
                Ok(p) => {
                    &&& old(conn).has_proof_path(path_ids.0 as int, path_ids.1 as int)
                    &&& old(conn).has_report(report_id as int)
                    &&& p.deep_view() == (ReportProofV {
                        id: path_ids.1 as int,
                        report_id: report_id as int,
                        data: data@,
                    })
                    &&& final(conn).proofs_v() == old(conn).proofs_v().update(
                        old(conn).proof_index(path_ids.1 as int),
                        p.deep_view(),
                    )
                    &&& final(conn).users == old(conn).users
                    &&& final(conn).reports == old(conn).reports
                    &&& final(conn).line_items == old(conn).line_items
                    &&& final(conn).access_grants == old(conn).access_grants
                    &&& same_next_ids(*old(conn), *final(conn))
                },
                Err(e) => {
                    &&& *final(conn) == *old(conn)
                    &&& (e == RepoError::NotFound && !old(conn).has_proof_path(
                        path_ids.0 as int,
                        path_ids.1 as int,
                    ) || (e == RepoError::ConstraintViolation && old(conn).has_proof_path(
                        path_ids.0 as int,
                        path_ids.1 as int,
                    ) && !old(conn).has_report(report_id as int)))
                },
            },
    {
        let i = match proof_position(path_ids, conn) {
            Some(i) => i,
            None => {
                return Err(RepoError::NotFound);
            },
        };
        if !conn.contains_report(report_id) {
            return Err(RepoError::ConstraintViolation);
        }
        let row = ReportProof { id: path_ids.1, report_id, data: slice_to_vec(data) };
        let out = row.clone();
        proof {
            assert(out.deep_view() =~= (ReportProofV {
                id: path_ids.1 as int,
                report_id: report_id as int,
                data: data@,
            }));
        }
        conn.proofs[i] = row;
        proof {
            let pre = *old(conn);
            let post = *conn;
            let k = i as int;
            assert(post.users_v() == pre.users_v());
            assert(post.reports_v() == pre.reports_v());
            assert(post.line_items_v() == pre.line_items_v());
            assert(post.grants_v() == pre.grants_v());
            assert(post.proofs_v() =~= pre.proofs_v().update(k, out.deep_view()));
            assert forall|j: int|
                0 <= j < post.proofs_v().len() && j != k implies #[trigger] post.proofs_v()[j]
                == pre.proofs_v()[j] by {
                assert(post.proofs_v()[j] == pre.proofs_v().update(k, out.deep_view())[j]);
            }
            assert(post.proofs_v()[k] == out.deep_view());
            assert(out.deep_view().id == pre.proofs_v()[k].id);
            assert forall|x: int| pre.has_report(x) implies post.has_report(x) by {
                let j = choose|j: int|
                    0 <= j < pre.reports_v().len() && (#[trigger] pre.reports_v()[j]).id == x;
                assert(post.reports_v()[j].id == x);
            }
            assert forall|x: int| pre.has_user(x) implies post.has_user(x) by {
                let j = choose|j: int|
                    0 <= j < pre.users_v().len() && (#[trigger] pre.users_v()[j]).id == x;
                assert(post.users_v()[j].id == x);
            }
        }
        Ok(out)
    }

    /// Applies a whole new-proof value over the row addressed by the
    /// composite key; exactly `update` with that value's fields.
    pub fn replace(path_ids: (i64, i64), new: &NewReportProof, conn: &mut Store) -> (r: Result<
        ReportProof,
        RepoError,
    >)
        requires
            old(conn).wf(),
        ensures
            final(conn).wf(),
            match r {
                Ok(p) => {
                    &&& old(conn).has_proof_path(path_ids.0 as int, path_ids.1 as int)
                    &&& old(conn).has_report(new.report_id as int)
                    &&& p.deep_view() == (ReportProofV {
                        id: path_ids.1 as int,
                        report_id: new.report_id as int,
                        data: new.data@,
                    })
                    &&& final(conn).proofs_v() == old(conn).proofs_v().update(
                        old(conn).proof_index(path_ids.1 as int),
                        p.deep_view(),
                    )
                    &&& final(conn).users == old(conn).users
                    &&& final(conn).reports == old(conn).reports
                    &&& final(conn).line_items == old(conn).line_items
                    &&& final(conn).access_grants == old(conn).access_grants
                    &&& same_next_ids(*old(conn), *final(conn))
                },
                Err(e) => {
                    &&& *final(conn) == *old(conn)
                    &&& (e == RepoError::NotFound && !old(conn).has_proof_path(
                        path_ids.0 as int,
                        path_ids.1 as int,
                    ) || (e == RepoError::ConstraintViolation && old(conn).has_proof_path(
                        path_ids.0 as int,
                        path_ids.1 as int,
                    ) && !old(conn).has_report(new.report_id as int)))
                },
            },
    {
        Self::update(path_ids, new.report_id, new.data.as_slice(), conn)
    }
}

} // verus!
