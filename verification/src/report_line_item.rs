//! Line items: the monetary entries of a report, and their repository.
//!
//! A line item is addressed from outside by the composite key
//! `(report_id, id)`; a lookup with the right `id` under the wrong report
//! fails with `NotFound` rather than being corrected silently. Prices cross
//! this boundary as decimal dollars and are stored as cents, truncated
//! toward zero.

use crate::error::RepoError;
use crate::models::{NewReportLineItem, Report, ReportLineItem, ReportLineItemV};
use crate::money::{to_cents, Cents, Usd};
use crate::store::{
    item_not_of, item_of, lemma_filter_contained, lemma_filter_distinct, lemma_filter_none,
    lemma_filter_push, same_grants, same_next_ids, same_proofs, same_reports, same_users, Store,
};
use crate::traits::{Builder, HasBuilder};
use vstd::prelude::*;

verus! {

// -------------------------------------------------------------------- builder
/// Accumulates the fields of a new line item; `report_id`, `item_name`, and
/// a price are all required.
#[derive(Debug)]
pub struct NewReportLineItemBuilder {
    pub report_id: Option<i64>,
    pub item_name: Option<String>,
    pub item_price_usd: Option<Cents>,
}

impl NewReportLineItemBuilder {
    /// A builder with every slot empty.
    pub fn new() -> (r: Self)
        ensures
            r == (NewReportLineItemBuilder {
                report_id: None,
                item_name: None,
                item_price_usd: None,
            }),
    {
        NewReportLineItemBuilder { report_id: None, item_name: None, item_price_usd: None }
    }

    /// Takes the parent report id from an already-persisted report.
    pub fn report(&mut self, report: &Report) -> (r: &mut Self)
        ensures
            *r == (NewReportLineItemBuilder {
                report_id: Some(report.id),
                item_name: old(self).item_name,
                item_price_usd: old(self).item_price_usd,
            }),
            *final(self) == *final(r),
    {
        self.report_id = Some(report.id);
        self
    }

    /// Sets the parent report id; a later call overwrites an earlier one.
    pub fn report_id(&mut self, report_id: i64) -> (r: &mut Self)
        ensures
            *r == (NewReportLineItemBuilder {
                report_id: Some(report_id),
                item_name: old(self).item_name,
                item_price_usd: old(self).item_price_usd,
            }),
            *final(self) == *final(r),
    {
        self.report_id = Some(report_id);
        self
    }

    /// Sets the item name; a later call overwrites an earlier one.
    pub fn item_name(&mut self, item_name: String) -> (r: &mut Self)
        ensures
            *r == (NewReportLineItemBuilder {
                report_id: old(self).report_id,
                item_name: Some(item_name),
                item_price_usd: old(self).item_price_usd,
            }),
            *final(self) == *final(r),
    {
        self.item_name = Some(item_name);
        self
    }

    /// Sets the price from a decimal dollar amount, truncating toward zero
    /// to whole cents at once; a later call overwrites an earlier one.
    pub fn item_price_usd(&mut self, price_usd: Usd) -> (r: &mut Self)
        requires
            price_usd.wf(),
            -0x7fff_ffff_ffff_ffff <= price_usd.cents_value() <= 0x7fff_ffff_ffff_ffff,
        ensures
            *r == (NewReportLineItemBuilder {
                report_id: old(self).report_id,
                item_name: old(self).item_name,
                item_price_usd: Some(Cents(price_usd.cents_value() as i64)),
            }),
            *final(self) == *final(r),
    {
        let price_usd_cents = to_cents(price_usd);
        self.item_price_usd = Some(price_usd_cents);
        self
    }
}

impl Default for NewReportLineItemBuilder {
    /// A builder with every slot empty.
    fn default() -> (r: Self)
        ensures
            r == (NewReportLineItemBuilder {
                report_id: None,
                item_name: None,
                item_price_usd: None,
            }),
    {
        NewReportLineItemBuilder::new()
    }
}

impl Builder<NewReportLineItem> for NewReportLineItemBuilder {
    type Output = NewReportLineItem;

    /// Yields the new line item exactly when every required slot is set,
    /// carrying the last value each slot received.
    fn build(&self) -> (r: Option<NewReportLineItem>)
        ensures
            r is Some <==> (self.report_id is Some && self.item_name is Some
                && self.item_price_usd is Some),
            r is Some ==> r.unwrap() == (NewReportLineItem {
                report_id: self.report_id.unwrap(),
                item_name: self.item_name.unwrap(),
                item_price_usd: self.item_price_usd.unwrap(),
            }),
    {
        match (&self.report_id, &self.item_name, &self.item_price_usd) {
            (Some(report_id), Some(item_name), Some(item_price_usd)) => Some(
                NewReportLineItem {
                    report_id: *report_id,
                    item_name: item_name.clone(),
                    item_price_usd: *item_price_usd,
                },
            ),
            _ => None,
        }
    }
}

impl HasBuilder<NewReportLineItemBuilder, Self> for NewReportLineItem {
    fn builder() -> (r: NewReportLineItemBuilder)
        ensures
            r == (NewReportLineItemBuilder {
                report_id: None,
                item_name: None,
                item_price_usd: None,
            }),
    {
        NewReportLineItemBuilder::new()
    }
}

impl HasBuilder<NewReportLineItemBuilder, NewReportLineItem> for ReportLineItem {
    fn builder() -> (r: NewReportLineItemBuilder)
        ensures
            r == (NewReportLineItemBuilder {
                report_id: None,
                item_name: None,
                item_price_usd: None,
            }),
    {
        NewReportLineItemBuilder::new()
    }
}

// --------------------------------------------------------------------- insert
/// Appending one freshly-id'd row keeps the store well-formed.
proof fn lemma_insert_line_item_wf(pre: Store, post: Store, it: ReportLineItemV)
    requires
        pre.wf(),
        pre.next_line_item_id < i64::MAX,
        it.id == pre.next_line_item_id as int,
        pre.has_report(it.report_id),
        post.line_items_v() == pre.line_items_v().push(it),
        post.next_line_item_id == pre.next_line_item_id + 1,
        same_users(pre, post),
        same_reports(pre, post),
        same_proofs(pre, post),
        same_grants(pre, post),
    ensures
        post.wf(),
{
    assert(post.users_v() == pre.users_v());
    assert(post.reports_v() == pre.reports_v());
    assert(post.proofs_v() == pre.proofs_v());
    assert(post.grants_v() == pre.grants_v());
    assert forall|x: int| pre.has_report(x) implies post.has_report(x) by {
        let k = choose|k: int|
            0 <= k < pre.reports_v().len() && (#[trigger] pre.reports_v()[k]).id == x;
        assert(post.reports_v()[k].id == x);
    }
    assert forall|x: int| pre.has_user(x) implies post.has_user(x) by {
        let k = choose|k: int| 0 <= k < pre.users_v().len() && (#[trigger] pre.users_v()[k]).id == x;
        assert(post.users_v()[k].id == x);
    }
}

impl NewReportLineItem {
    /// Persists the line item under a fresh id and returns the stored row.
    ///
    /// Fails with `ConstraintViolation` exactly when the parent report does
    /// not exist; the store is then unchanged.
    pub fn insert(&self, conn: &mut Store) -> (r: Result<ReportLineItem, RepoError>)
        requires
            old(conn).wf(),
            old(conn).next_line_item_id < i64::MAX,
        ensures
            final(conn).wf(),
            match r {
                Ok(it) => {
                    &&& old(conn).has_report(self.report_id as int)
                    &&& it.deep_view() == self.with_id(old(conn).next_line_item_id as int)
                    &&& final(conn).line_items_v() == old(conn).line_items_v().push(
                        self.with_id(old(conn).next_line_item_id as int),
                    )
                    &&& final(conn).next_line_item_id == old(conn).next_line_item_id + 1
                    &&& same_users(*old(conn), *final(conn))
                    &&& same_reports(*old(conn), *final(conn))
                    &&& same_proofs(*old(conn), *final(conn))
                    &&& same_grants(*old(conn), *final(conn))
                },
                Err(e) => {
                    &&& e == RepoError::ConstraintViolation
                    &&& !old(conn).has_report(self.report_id as int)
                    &&& *final(conn) == *old(conn)
                },
            },
    {
        if !conn.contains_report(self.report_id) {
            return Err(RepoError::ConstraintViolation);
        }
        let id = conn.next_line_item_id;
        let row = ReportLineItem {
            id,
            report_id: self.report_id,
            item_name: self.item_name.clone(),
            item_price_usd: self.item_price_usd,
        };
        let out = row.clone();
        conn.line_items.push(row);
        conn.next_line_item_id = id + 1;
        proof {
            assert(conn.line_items_v() =~= old(conn).line_items_v().push(
                self.with_id(id as int),
            ));
            lemma_insert_line_item_wf(*old(conn), *conn, self.with_id(id as int));
        }
        Ok(out)
    }
}

// ------------------------------------------------------------------- removals
/// Removing one line-item row keeps the store well-formed.
proof fn lemma_remove_line_item_wf(pre: Store, post: Store, k: int)
    requires
        pre.wf(),
        0 <= k < pre.line_items_v().len(),
        post.line_items_v() == pre.line_items_v().remove(k),
        post.users == pre.users,
        post.reports == pre.reports,
        post.proofs == pre.proofs,
        post.access_grants == pre.access_grants,
        same_next_ids(pre, post),
    ensures
        post.wf(),
{
    assert(post.users_v() == pre.users_v());
    assert(post.reports_v() == pre.reports_v());
    assert(post.proofs_v() == pre.proofs_v());
    assert(post.grants_v() == pre.grants_v());
    pre.line_items_v().remove_ensures(k);
    assert forall|j: int| 0 <= j < post.line_items_v().len() implies #[trigger] post.line_items_v()[j] == (if j < k {
        pre.line_items_v()[j]
    } else {
        pre.line_items_v()[j + 1]
    }) by {
        assert(post.line_items_v()[j] == pre.line_items_v().remove(k)[j]);
    }
    assert forall|x: int| pre.has_report(x) implies post.has_report(x) by {
        let j = choose|j: int|
            0 <= j < pre.reports_v().len() && (#[trigger] pre.reports_v()[j]).id == x;
        assert(post.reports_v()[j].id == x);
    }
    assert forall|x: int| pre.has_user(x) implies post.has_user(x) by {
        let j = choose|j: int| 0 <= j < pre.users_v().len() && (#[trigger] pre.users_v()[j]).id
            == x;
        assert(post.users_v()[j].id == x);
    }
}

/// Drops every line item scoped to `report_id`; other tables stay put.
pub(crate) fn remove_items_of(conn: &mut Store, report_id: i64)
    requires
        old(conn).wf(),
    ensures
        final(conn).wf(),
        final(conn).line_items_v() == old(conn).line_items_v().filter(
            item_not_of(report_id as int),
        ),
        final(conn).users == old(conn).users,
        final(conn).reports == old(conn).reports,
        final(conn).proofs == old(conn).proofs,
        final(conn).access_grants == old(conn).access_grants,
        same_next_ids(*old(conn), *final(conn)),
{
    let ghost pred = item_not_of(report_id as int);
    let mut kept: Vec<ReportLineItem> = Vec::new();
    proof {
        reveal(Seq::filter);
        assert(kept.deep_view() =~= conn.line_items_v().subrange(0, 0).filter(pred));
    }
    let mut i: usize = 0;
    while i < conn.line_items.len()
        invariant
            i <= conn.line_items.len(),
            kept.deep_view() == conn.line_items_v().subrange(0, i as int).filter(pred),
            pred == item_not_of(report_id as int),
        decreases conn.line_items.len() - i,
    {
        let ghost prefix = conn.line_items_v().subrange(0, i as int);
        proof {
            assert(conn.line_items_v().subrange(0, i as int + 1) =~= prefix.push(
                conn.line_items_v()[i as int],
            ));
            lemma_filter_push(prefix, pred, conn.line_items_v()[i as int]);
        }
        if conn.line_items[i].report_id != report_id {
            let ghost kv = kept.deep_view();
            kept.push(conn.line_items[i].clone());
            proof {
                assert(kept.deep_view() =~= kv.push(conn.line_items_v()[i as int]));
            }
        }
        i = i + 1;
    }
    proof {
        assert(conn.line_items_v().subrange(0, conn.line_items.len() as int) =~= conn
            .line_items_v());
    }
    conn.line_items = kept;
    proof {
        let pre = *old(conn);
        let post = *conn;
        assert(post.users_v() == pre.users_v());
        assert(post.reports_v() == pre.reports_v());
        assert(post.proofs_v() == pre.proofs_v());
        assert(post.grants_v() == pre.grants_v());
        lemma_filter_contained(pre.line_items_v(), pred);
        let proj = |it: ReportLineItemV| it.id;
        lemma_filter_distinct(pre.line_items_v(), pred, proj);
        assert forall|a: int, b: int|
            0 <= a < b < post.line_items_v().len() implies (#[trigger] post.line_items_v()[a]).id
            != (#[trigger] post.line_items_v()[b]).id by {
            let f = pre.line_items_v().filter(pred);
            assert(proj(f[a]) != proj(f[b]));
        }
        assert forall|j: int| 0 <= j < post.line_items_v().len() implies 1 <= (
        #[trigger] post.line_items_v()[j]).id < post.next_line_item_id && post.has_report(
            post.line_items_v()[j].report_id,
        ) by {
            assert(pre.line_items_v().contains(post.line_items_v()[j]));
            let k = choose|k: int|
                0 <= k < pre.line_items_v().len() && pre.line_items_v()[k]
                    == post.line_items_v()[j];
            assert(pre.has_report(pre.line_items_v()[k].report_id));
            let m = choose|m: int|
                0 <= m < pre.reports_v().len() && (#[trigger] pre.reports_v()[m]).id
                    == pre.line_items_v()[k].report_id;
            assert(post.reports_v()[m].id == post.line_items_v()[j].report_id);
        }
        assert forall|x: int| pre.has_user(x) implies post.has_user(x) by {
            let k = choose|k: int|
                0 <= k < pre.users_v().len() && (#[trigger] pre.users_v()[k]).id == x;
            assert(post.users_v()[k].id == x);
        }
        assert forall|x: int| pre.has_report(x) implies post.has_report(x) by {
            let k = choose|k: int|
                0 <= k < pre.reports_v().len() && (#[trigger] pre.reports_v()[k]).id == x;
            assert(post.reports_v()[k].id == x);
        }
    }
}

// ------------------------------------------------------------------ positions
/// The position of the row addressed by the composite key, if the key
/// matches one.
fn line_item_position(path_ids: (i64, i64), conn: &Store) -> (r: Option<usize>)
    requires
        conn.wf(),
    ensures
        match r {
            Some(i) => {
                &&& i < conn.line_items_v().len()
                &&& conn.line_items_v()[i as int].id == path_ids.1 as int
                &&& conn.line_items_v()[i as int].report_id == path_ids.0 as int
                &&& conn.has_line_item_path(path_ids.0 as int, path_ids.1 as int)
                &&& conn.line_item_index(path_ids.1 as int) == i as int
                &&& conn.line_item_at(path_ids.1 as int) == conn.line_items_v()[i as int]
            },
            None => !conn.has_line_item_path(path_ids.0 as int, path_ids.1 as int),
        },
{
    let report_id = path_ids.0;
    let id = path_ids.1;
    let mut i: usize = 0;
    while i < conn.line_items.len()
        invariant
            conn.wf(),
            i <= conn.line_items.len(),
            id == path_ids.1,
            report_id == path_ids.0,
            forall|j: int|
                0 <= j < i ==> !((#[trigger] conn.line_items_v()[j]).id == id as int
                    && conn.line_items_v()[j].report_id == report_id as int),
        decreases conn.line_items.len() - i,
    {
        if conn.line_items[i].id == id && conn.line_items[i].report_id == report_id {
            proof {
                conn.lemma_line_item_pinned(i as int);
            }
            return Some(i);
        }
        i = i + 1;
    }
    proof {
        if conn.has_line_item(id as int) {
            let k = conn.line_item_index(id as int);
            assert(conn.line_items_v()[k].report_id != report_id as int);
        }
    }
    None
}

// ------------------------------------------------------------------ read side
impl ReportLineItem {
    /// Empties the whole line-item table; deleting zero rows is no error.
    pub fn clear(conn: &mut Store) -> (r: Result<(), RepoError>)
        requires
            old(conn).wf(),
        ensures
            final(conn).wf(),
            r is Ok,
            final(conn).line_items_v() == Seq::<ReportLineItemV>::empty(),
            final(conn).users == old(conn).users,
            final(conn).reports == old(conn).reports,
            final(conn).proofs == old(conn).proofs,
            final(conn).access_grants == old(conn).access_grants,
            same_next_ids(*old(conn), *final(conn)),
    {
        conn.line_items.clear();
        proof {
            assert(conn.line_items_v() =~= Seq::<ReportLineItemV>::empty());
            assert(conn.users_v() == old(conn).users_v());
            assert(conn.reports_v() == old(conn).reports_v());
            assert(conn.proofs_v() == old(conn).proofs_v());
            assert(conn.grants_v() == old(conn).grants_v());
            assert forall|x: int| old(conn).has_user(x) implies conn.has_user(x) by {
                let k = choose|k: int|
                    0 <= k < old(conn).users_v().len() && (#[trigger] old(conn).users_v()[k]).id
                        == x;
                assert(conn.users_v()[k].id == x);
            }
            assert forall|x: int| old(conn).has_report(x) implies conn.has_report(x) by {
                let k = choose|k: int|
                    0 <= k < old(conn).reports_v().len() && (#[trigger] old(
                        conn,
                    ).reports_v()[k]).id == x;
                assert(conn.reports_v()[k].id == x);
            }
        }
        Ok(())
    }

    /// Drops every line item of one report; idempotent, so deleting zero
    /// rows succeeds too.
    pub fn clear_by_report(report_id: i64, conn: &mut Store) -> (r: Result<(), RepoError>)
        requires
            old(conn).wf(),
        ensures
            final(conn).wf(),
            r is Ok,
            final(conn).line_items_v() == old(conn).line_items_v().filter(
                item_not_of(report_id as int),
            ),
            final(conn).items_of(report_id as int) == Seq::<ReportLineItemV>::empty(),
            final(conn).users == old(conn).users,
            final(conn).reports == old(conn).reports,
            final(conn).proofs == old(conn).proofs,
            final(conn).access_grants == old(conn).access_grants,
            same_next_ids(*old(conn), *final(conn)),
    {
        remove_items_of(conn, report_id);
        proof {
            assert forall|j: int| 0 <= j < conn.line_items_v().len() implies !(item_of(
                report_id as int,
            )(#[trigger] conn.line_items_v()[j])) by {
                old(conn).line_items_v().lemma_filter_pred(item_not_of(report_id as int), j);
            }
            lemma_filter_none(conn.line_items_v(), item_of(report_id as int));
        }
        Ok(())
    }

    /// Returns the line item with `id`, or `NotFound` if no row has it.
    pub fn get_by_id(id: i64, conn: &Store) -> (r: Result<ReportLineItem, RepoError>)
        requires
            conn.wf(),
        ensures
            match r {
                Ok(it) => conn.has_line_item(id as int) && it.deep_view() == conn.line_item_at(
                    id as int,
                ),
                Err(e) => e == RepoError::NotFound && !conn.has_line_item(id as int),
            },
    {
        let mut i: usize = 0;
        while i < conn.line_items.len()
            invariant
                conn.wf(),
                i <= conn.line_items.len(),
                forall|j: int| 0 <= j < i ==> (#[trigger] conn.line_items_v()[j]).id != id as int,
            decreases conn.line_items.len() - i,
        {
            if conn.line_items[i].id == id {
                let it = conn.line_items[i].clone();
                proof {
                    conn.lemma_line_item_pinned(i as int);
                }
                return Ok(it);
            }
            i = i + 1;
        }
        Err(RepoError::NotFound)
    }

    /// Returns every line item of one report, in table order; a report with
    /// no items yields the empty sequence, not an error.
    pub fn get_by_report(report_id: i64, conn: &Store) -> (r: Result<
        Vec<ReportLineItem>,
        RepoError,
    >)
        requires
            conn.wf(),
        ensures
            r matches Ok(items) && items.deep_view() == conn.items_of(report_id as int),
    {
        let ghost pred = item_of(report_id as int);
        let mut out: Vec<ReportLineItem> = Vec::new();
        proof {
            reveal(Seq::filter);
            assert(out.deep_view() =~= conn.line_items_v().subrange(0, 0).filter(pred));
        }
        let mut i: usize = 0;
        while i < conn.line_items.len()
            invariant
                i <= conn.line_items.len(),
                out.deep_view() == conn.line_items_v().subrange(0, i as int).filter(pred),
                pred == item_of(report_id as int),
            decreases conn.line_items.len() - i,
        {
            let ghost prefix = conn.line_items_v().subrange(0, i as int);
            proof {
                assert(conn.line_items_v().subrange(0, i as int + 1) =~= prefix.push(
                    conn.line_items_v()[i as int],
                ));
                lemma_filter_push(prefix, pred, conn.line_items_v()[i as int]);
            }
            if conn.line_items[i].report_id == report_id {
                let ghost kv = out.deep_view();
                out.push(conn.line_items[i].clone());
                proof {
                    assert(out.deep_view() =~= kv.push(conn.line_items_v()[i as int]));
                }
            }
            i = i + 1;
        }
        proof {
            assert(conn.line_items_v().subrange(0, conn.line_items.len() as int) =~= conn
                .line_items_v());
        }
        Ok(out)
    }

    /// Composite-key lookup: the row must carry `id` *and* belong to
    /// `report_id`; an `id` match under another report is `NotFound`.
    pub fn get_by_path(path_ids: (i64, i64), conn: &Store) -> (r: Result<
        ReportLineItem,
        RepoError,
    >)
        requires
            conn.wf(),
        ensures
            match r {
                Ok(it) => {
                    &&& conn.has_line_item_path(path_ids.0 as int, path_ids.1 as int)
                    &&& it.deep_view() == conn.line_item_at(path_ids.1 as int)
                },
                Err(e) => {
                    &&& e == RepoError::NotFound
                    &&& !conn.has_line_item_path(path_ids.0 as int, path_ids.1 as int)
                },
            },
    {
        match line_item_position(path_ids, conn) {
            Some(i) => Ok(conn.line_items[i].clone()),
            None => Err(RepoError::NotFound),
        }
    }

    /// Deletes the row addressed by the composite key and returns it;
    /// `NotFound` (and an unchanged store) if the key matches nothing.
    pub fn delete(path_ids: (i64, i64), conn: &mut Store) -> (r: Result<ReportLineItem, RepoError>)
        requires
            old(conn).wf(),
        ensures
            final(conn).wf(),
            match r {
                Ok(it) => {
                    &&& old(conn).has_line_item_path(path_ids.0 as int, path_ids.1 as int)
                    &&& it.deep_view() == old(conn).line_item_at(path_ids.1 as int)
                    &&& final(conn).line_items_v() == old(conn).line_items_v().remove(
                        old(conn).line_item_index(path_ids.1 as int),
                    )
                    &&& final(conn).users == old(conn).users
                    &&& final(conn).reports == old(conn).reports
                    &&& final(conn).proofs == old(conn).proofs
                    &&& final(conn).access_grants == old(conn).access_grants
                    &&& same_next_ids(*old(conn), *final(conn))
                },
                Err(e) => {
                    &&& e == RepoError::NotFound
                    &&& !old(conn).has_line_item_path(path_ids.0 as int, path_ids.1 as int)
                    &&& *final(conn) == *old(conn)
                },
            },
    {
        match line_item_position(path_ids, conn) {
            Some(i) => {
                let it = conn.line_items.remove(i);
                proof {
                    old(conn).line_items@.remove_ensures(i as int);
                    old(conn).line_items_v().remove_ensures(i as int);
                    assert(conn.line_items_v() =~= old(conn).line_items_v().remove(i as int));
                    lemma_remove_line_item_wf(*old(conn), *conn, i as int);
                }
                Ok(it)
            },
            None => Err(RepoError::NotFound),
        }
    }
}

// ----------------------------------------------------------------- update side
impl ReportLineItem {
    /// Rewrites the row addressed by the composite key with the given
    /// parent, name, and cent price, and returns the refreshed row.
    ///
    /// `NotFound` if the key matches nothing; `ConstraintViolation` if the
    /// new parent report does not exist. Either failure leaves the store
    /// unchanged.
    fn update_using_cents(
        path_ids: (i64, i64),
        report_id: i64,
        name: &str,
        price_usd: Cents,
        conn: &mut Store,
    ) -> (r: Result<ReportLineItem, RepoError>)
        requires
            old(conn).wf(),
        ensures
            final(conn).wf(),
            match r {
                Ok(it) => {
                    &&& old(conn).has_line_item_path(path_ids.0 as int, path_ids.1 as int)
                    &&& old(conn).has_report(report_id as int)
                    &&& it.deep_view() == (ReportLineItemV {
                        id: path_ids.1 as int,
                        report_id: report_id as int,
                        item_name: name@,
                        item_price_cents: price_usd.0 as int,
                    })
                    &&& final(conn).line_items_v() == old(conn).line_items_v().update(
                        old(conn).line_item_index(path_ids.1 as int),
                        it.deep_view(),
                    )
                    &&& final(conn).users == old(conn).users
                    &&& final(conn).reports == old(conn).reports
                    &&& final(conn).proofs == old(conn).proofs
                    &&& final(conn).access_grants == old(conn).access_grants
                    &&& same_next_ids(*old(conn), *final(conn))
                },
                Err(e) => {
                    &&& *final(conn) == *old(conn)
                    &&& (e == RepoError::NotFound && !old(conn).has_line_item_path(
                        path_ids.0 as int,
                        path_ids.1 as int,
                    ) || (e == RepoError::ConstraintViolation && old(conn).has_line_item_path(
                        path_ids.0 as int,
                        path_ids.1 as int,
                    ) && !old(conn).has_report(report_id as int)))
                },
            },
    {
        let i = match line_item_position(path_ids, conn) {
            Some(i) => i,
            None => {
                return Err(RepoError::NotFound);
            },
        };
        if !conn.contains_report(report_id) {
            return Err(RepoError::ConstraintViolation);
        }
        let row = ReportLineItem {
            id: path_ids.1,
            report_id,
            item_name: name.to_string(),
            item_price_usd: price_usd,
        };
        let out = row.clone();
        conn.line_items[i] = row;
        proof {
            let pre = *old(conn);
            let post = *conn;
            let k = i as int;
            assert(post.users_v() == pre.users_v());
            assert(post.reports_v() == pre.reports_v());
            assert(post.proofs_v() == pre.proofs_v());
            assert(post.grants_v() == pre.grants_v());
            assert(post.line_items_v() =~= pre.line_items_v().update(k, out.deep_view()));
            assert forall|j: int|
                0 <= j < post.line_items_v().len() && j != k implies #[trigger] post.line_items_v()[j]
                == pre.line_items_v()[j] by {
                assert(post.line_items_v()[j] == pre.line_items_v().update(k, out.deep_view())[j]);
            }
            assert(post.line_items_v()[k] == out.deep_view());
            assert(out.deep_view().id == pre.line_items_v()[k].id);
            assert forall|x: int| pre.has_report(x) implies post.has_report(x) by {
                let j = choose|j: int|
                    0 <= j < pre.reports_v().len() && (#[trigger] pre.reports_v()[j]).id == x;
                assert(post.reports_v()[j].id == x);
            }
            assert forall|x: int| pre.has_user(x) implies post.has_user(x) by {
                let j = choose|j: int|
                    0 <= j < pre.users_v().len() && (#[trigger] pre.users_v()[j]).id == x;
                assert(post.users_v()[j].id == x);
            }
        }
        Ok(out)
    }

    /// Rewrites the row addressed by the composite key, taking the price as
    /// decimal dollars and truncating it toward zero to cents.
    pub fn update(
        path_ids: (i64, i64),
        report_id: i64,
        name: &str,
        price_usd: Usd,
        conn: &mut Store,
    ) -> (r: Result<ReportLineItem, RepoError>)
        requires
            old(conn).wf(),
            price_usd.wf(),
            -0x7fff_ffff_ffff_ffff <= price_usd.cents_value() <= 0x7fff_ffff_ffff_ffff,
        ensures
            final(conn).wf(),
            match r {
                Ok(it) => {
                    &&& old(conn).has_line_item_path(path_ids.0 as int, path_ids.1 as int)
                    &&& old(conn).has_report(report_id as int)
                    &&& it.deep_view() == (ReportLineItemV {
                        id: path_ids.1 as int,
                        report_id: report_id as int,
                        item_name: name@,
                        item_price_cents: price_usd.cents_value(),
                    })
                    &&& final(conn).line_items_v() == old(conn).line_items_v().update(
                        old(conn).line_item_index(path_ids.1 as int),
                        it.deep_view(),
                    )
                    &&& final(conn).users == old(conn).users
                    &&& final(conn).reports == old(conn).reports
                    &&& final(conn).proofs == old(conn).proofs
                    &&& final(conn).access_grants == old(conn).access_grants
                    &&& same_next_ids(*old(conn), *final(conn))
                },
                Err(e) => {
                    &&& *final(conn) == *old(conn)
                    &&& (e == RepoError::NotFound && !old(conn).has_line_item_path(
                        path_ids.0 as int,
                        path_ids.1 as int,
                    ) || (e == RepoError::ConstraintViolation && old(conn).has_line_item_path(
                        path_ids.0 as int,
                        path_ids.1 as int,
                    ) && !old(conn).has_report(report_id as int)))
                },
            },
    {
        let price_usd_cents = to_cents(price_usd);
        Self::update_using_cents(path_ids, report_id, name, price_usd_cents, conn)
    }

    /// Applies a whole new-line-item value over the row addressed by the
    /// composite key; exactly `update` with that value's fields.
    pub fn replace(path_ids: (i64, i64), new: &NewReportLineItem, conn: &mut Store) -> (r: Result<
        ReportLineItem,
        RepoError,
    >)
        requires
            old(conn).wf(),
        ensures
            final(conn).wf(),
            match r {
                Ok(it) => {
                    &&& old(conn).has_line_item_path(path_ids.0 as int, path_ids.1 as int)
                    &&& old(conn).has_report(new.report_id as int)
                    &&& it.deep_view() == (ReportLineItemV {
                        id: path_ids.1 as int,
                        report_id: new.report_id as int,
                        item_name: new.item_name@,
                        item_price_cents: new.item_price_usd.0 as int,
                    })
                    &&& final(conn).line_items_v() == old(conn).line_items_v().update(
                        old(conn).line_item_index(path_ids.1 as int),
                        it.deep_view(),
                    )
                    &&& final(conn).users == old(conn).users
                    &&& final(conn).reports == old(conn).reports
                    &&& final(conn).proofs == old(conn).proofs
                    &&& final(conn).access_grants == old(conn).access_grants
                    &&& same_next_ids(*old(conn), *final(conn))
                },
                Err(e) => {
                    &&& *final(conn) == *old(conn)
                    &&& (e == RepoError::NotFound && !old(conn).has_line_item_path(
                        path_ids.0 as int,
                        path_ids.1 as int,
                    ) || (e == RepoError::ConstraintViolation && old(conn).has_line_item_path(
                        path_ids.0 as int,
                        path_ids.1 as int,
                    ) && !old(conn).has_report(new.report_id as int)))
                },
            },
    {
        Self::update_using_cents(
            path_ids,
            new.report_id,
            new.item_name.as_str(),
            new.item_price_usd,
            conn,
        )
    }
}

} // verus!
