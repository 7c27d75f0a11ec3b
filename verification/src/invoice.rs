//! Builders in the invoice vocabulary.
//!
//! An invoice is a report under its other name. These builders accept that
//! vocabulary — `invoice_id` instead of `report_id`, a whole-dollar price —
//! and construct the same canonical new-entity values as the report-named
//! builders, so both families of callers feed one data model.

use crate::models::{NewReport, NewReportAccess, NewReportLineItem, NewReportProof, Report, User};
use crate::money::Cents;
use crate::traits::Builder;
use vstd::prelude::*;

verus! {

// ------------------------------------------------------------------- invoice
/// Accumulates a new report (an invoice) from owner and title; this
/// vocabulary carries no description, so the built value leaves it absent.
#[derive(Debug)]
pub struct NewInvoiceBuilder {
    pub owner_id: Option<i64>,
    pub title: Option<String>,
}

impl NewInvoiceBuilder {
    /// A builder with every slot empty.
    pub fn new() -> (r: Self)
        ensures
            r == (NewInvoiceBuilder { owner_id: None, title: None }),
    {
        NewInvoiceBuilder { owner_id: None, title: None }
    }

    /// Takes the owner id from an already-persisted user.
    pub fn owner(&mut self, owner: &User) -> (r: &mut Self)
        ensures
            *r == (NewInvoiceBuilder { owner_id: Some(owner.id), title: old(self).title }),
            *final(self) == *final(r),
    {
        self.owner_id = Some(owner.id);
        self
    }

    /// Sets the owner id; a later call overwrites an earlier one.
    pub fn owner_id(&mut self, owner_id: i64) -> (r: &mut Self)
        ensures
            *r == (NewInvoiceBuilder { owner_id: Some(owner_id), title: old(self).title }),
            *final(self) == *final(r),
    {
        self.owner_id = Some(owner_id);
        self
    }

    /// Sets the title; a later call overwrites an earlier one.
    pub fn title(&mut self, title: String) -> (r: &mut Self)
        ensures
            *r == (NewInvoiceBuilder { owner_id: old(self).owner_id, title: Some(title) }),
            *final(self) == *final(r),
    {
        self.title = Some(title);
        self
    }
}

impl Default for NewInvoiceBuilder {
    /// A builder with every slot empty.
    fn default() -> (r: Self)
        ensures
            r == (NewInvoiceBuilder { owner_id: None, title: None }),
    {
        NewInvoiceBuilder::new()
    }
}

impl Builder<NewReport> for NewInvoiceBuilder {
    type Output = NewReport;

    /// Yields the new report exactly when owner and title are both set; the
    /// description stays absent.
    fn build(&self) -> (r: Option<NewReport>)
        ensures
            r is Some <==> (self.owner_id is Some && self.title is Some),
            r is Some ==> r.unwrap() == (NewReport {
                owner_id: self.owner_id.unwrap(),
                title: self.title.unwrap(),
                description: None,
            }),
    {
        match (&self.owner_id, &self.title) {
            (Some(owner_id), Some(title)) => Some(
                NewReport { owner_id: *owner_id, title: title.clone(), description: None },
            ),
            _ => None,
        }
    }
}

// ----------------------------------------------------------------- line item
/// Accumulates a new line item under the invoice vocabulary; the price
/// comes in as whole dollars.
#[derive(Debug)]
pub struct NewInvoiceLineItemBuilder {
    pub invoice_id: Option<i64>,
    pub item_name: Option<String>,
    pub item_price_usd: Option<Cents>,
}

impl NewInvoiceLineItemBuilder {
    /// A builder with every slot empty.
    pub fn new() -> (r: Self)
        ensures
            r == (NewInvoiceLineItemBuilder {
                invoice_id: None,
                item_name: None,
                item_price_usd: None,
            }),
    {
        NewInvoiceLineItemBuilder { invoice_id: None, item_name: None, item_price_usd: None }
    }

    /// Takes the parent id from an already-persisted report.
    pub fn invoice(&mut self, invoice: &Report) -> (r: &mut Self)
        ensures
            *r == (NewInvoiceLineItemBuilder { invoice_id: Some(invoice.id), ..*old(self) }),
            *final(self) == *final(r),
    {
        self.invoice_id = Some(invoice.id);
        self
    }

    /// Sets the parent id; a later call overwrites an earlier one.
    pub fn invoice_id(&mut self, invoice_id: i64) -> (r: &mut Self)
        ensures
            *r == (NewInvoiceLineItemBuilder { invoice_id: Some(invoice_id), ..*old(self) }),
            *final(self) == *final(r),
    {
        self.invoice_id = Some(invoice_id);
        self
    }

    /// Sets the item name; a later call overwrites an earlier one.
    pub fn item_name(&mut self, item_name: String) -> (r: &mut Self)
        ensures
            *r == (NewInvoiceLineItemBuilder { item_name: Some(item_name), ..*old(self) }),
            *final(self) == *final(r),
    {
        self.item_name = Some(item_name);
        self
    }

    /// Sets the price from a whole number of dollars; a later call
    /// overwrites an earlier one.
    pub fn item_price_usd(&mut self, price_usd: i64) -> (r: &mut Self)
        requires
            -92233720368547758 <= price_usd <= 92233720368547758,
        ensures
            *r == (NewInvoiceLineItemBuilder {
                item_price_usd: Some(Cents((price_usd * 100) as i64)),
                ..*old(self)
            }),
            *final(self) == *final(r),
    {
        let price_usd_cents = Cents(price_usd * 100);
        self.item_price_usd = Some(price_usd_cents);
        self
    }
}

impl Default for NewInvoiceLineItemBuilder {
    /// A builder with every slot empty.
    fn default() -> (r: Self)
        ensures
            r == (NewInvoiceLineItemBuilder {
                invoice_id: None,
                item_name: None,
                item_price_usd: None,
            }),
    {
        NewInvoiceLineItemBuilder::new()
    }
}

impl Builder<NewReportLineItem> for NewInvoiceLineItemBuilder {
    type Output = NewReportLineItem;

    /// Yields the new line item exactly when every slot is set, carrying
    /// the last value each slot received.
    fn build(&self) -> (r: Option<NewReportLineItem>)
        ensures
            r is Some <==> (self.invoice_id is Some && self.item_name is Some
                && self.item_price_usd is Some),
            r is Some ==> r.unwrap() == (NewReportLineItem {
                report_id: self.invoice_id.unwrap(),
                item_name: self.item_name.unwrap(),
                item_price_usd: self.item_price_usd.unwrap(),
            }),
    {
        match (&self.invoice_id, &self.item_name, &self.item_price_usd) {
            (Some(invoice_id), Some(item_name), Some(item_price_usd)) => Some(
                NewReportLineItem {
                    report_id: *invoice_id,
                    item_name: item_name.clone(),
                    item_price_usd: *item_price_usd,
                },
            ),
            _ => None,
        }
    }
}

// --------------------------------------------------------------- permissions
/// Accumulates a new access grant under the invoice vocabulary; both id
/// slots are required, the two flags default to `false`.
#[derive(Debug)]
pub struct NewInvoicePermissionsBuilder {
    pub borrower_id: Option<i64>,
    pub invoice_id: Option<i64>,
    pub read_access: bool,
    pub write_access: bool,
}

impl NewInvoicePermissionsBuilder {
    /// A builder with both id slots empty and both flags down.
    pub fn new() -> (r: Self)
        ensures
            r == (NewInvoicePermissionsBuilder {
                borrower_id: None,
                invoice_id: None,
                read_access: false,
                write_access: false,
            }),
    {
        NewInvoicePermissionsBuilder {
            borrower_id: None,
            invoice_id: None,
            read_access: false,
            write_access: false,
        }
    }

    /// Takes the borrower id from an already-persisted user.
    pub fn borrower(&mut self, borrower: &User) -> (r: &mut Self)
        ensures
            *r == (NewInvoicePermissionsBuilder { borrower_id: Some(borrower.id), ..*old(self) }),
            *final(self) == *final(r),
    {
        self.borrower_id = Some(borrower.id);
        self
    }

    /// Sets the borrower id; a later call overwrites an earlier one.
    pub fn borrower_id(&mut self, borrower_id: i64) -> (r: &mut Self)
        ensures
            *r == (NewInvoicePermissionsBuilder { borrower_id: Some(borrower_id), ..*old(self) }),
            *final(self) == *final(r),
    {
        self.borrower_id = Some(borrower_id);
        self
    }

    /// Takes the granted report's id from an already-persisted report.
    pub fn invoice(&mut self, invoice: &Report) -> (r: &mut Self)
        ensures
            *r == (NewInvoicePermissionsBuilder { invoice_id: Some(invoice.id), ..*old(self) }),
            *final(self) == *final(r),
    {
        self.invoice_id = Some(invoice.id);
        self
    }

    /// Sets the granted report's id; a later call overwrites an earlier
    /// one.
    pub fn invoice_id(&mut self, invoice_id: i64) -> (r: &mut Self)
        ensures
            *r == (NewInvoicePermissionsBuilder { invoice_id: Some(invoice_id), ..*old(self) }),
            *final(self) == *final(r),
    {
        self.invoice_id = Some(invoice_id);
        self
    }

    /// Sets the read flag; a later call overwrites an earlier one.
    pub fn read_access(&mut self, access: bool) -> (r: &mut Self)
        ensures
            *r == (NewInvoicePermissionsBuilder { read_access: access, ..*old(self) }),
            *final(self) == *final(r),
    {
        self.read_access = access;
        self
    }

    /// Sets the write flag; a later call overwrites an earlier one.
    pub fn write_access(&mut self, access: bool) -> (r: &mut Self)
        ensures
            *r == (NewInvoicePermissionsBuilder { write_access: access, ..*old(self) }),
            *final(self) == *final(r),
    {
        self.write_access = access;
        self
    }
}

impl Default for NewInvoicePermissionsBuilder {
    /// A builder with both id slots empty and both flags down.
    fn default() -> (r: Self)
        ensures
            r == (NewInvoicePermissionsBuilder {
                borrower_id: None,
                invoice_id: None,
                read_access: false,
                write_access: false,
            }),
    {
        NewInvoicePermissionsBuilder::new()
    }
}

impl Builder<NewReportAccess> for NewInvoicePermissionsBuilder {
    type Output = NewReportAccess;

    /// Yields the new grant exactly when both id slots are set; the value
    /// carries each flag as it was last set.
    fn build(&self) -> (r: Option<NewReportAccess>)
        ensures
            r is Some <==> (self.borrower_id is Some && self.invoice_id is Some),
            r is Some ==> r.unwrap() == (NewReportAccess {
                borrower_id: self.borrower_id.unwrap(),
                report_id: self.invoice_id.unwrap(),
                read_access: self.read_access,
                write_access: self.write_access,
            }),
    {
        match (&self.borrower_id, &self.invoice_id) {
            (Some(borrower_id), Some(invoice_id)) => Some(
                NewReportAccess {
                    borrower_id: *borrower_id,
                    report_id: *invoice_id,
                    read_access: self.read_access,
                    write_access: self.write_access,
                },
            ),
            _ => None,
        }
    }
}

// --------------------------------------------------------------------- proof
/// Accumulates a new proof attachment under the invoice vocabulary; both
/// slots are required.
#[derive(Debug)]
pub struct NewInvoiceProofBuilder {
    pub invoice_id: Option<i64>,
    pub data: Option<Vec<u8>>,
}

impl NewInvoiceProofBuilder {
    /// A builder with every slot empty.
    pub fn new() -> (r: Self)
        ensures
            r.invoice_id is None,
            r.data is None,
    {
        NewInvoiceProofBuilder { invoice_id: None, data: None }
    }

    /// Takes the parent id from an already-persisted report.
    pub fn invoice(&mut self, invoice: &Report) -> (r: &mut Self)
        ensures
            r.invoice_id == Some(invoice.id),
            r.data == old(self).data,
            *final(self) == *final(r),
    {
        self.invoice_id = Some(invoice.id);
        self
    }

    /// Sets the parent id; a later call overwrites an earlier one.
    pub fn invoice_id(&mut self, invoice_id: i64) -> (r: &mut Self)
        ensures
            r.invoice_id == Some(invoice_id),
            r.data == old(self).data,
            *final(self) == *final(r),
    {
        self.invoice_id = Some(invoice_id);
        self
    }

    /// Sets the attachment bytes; a later call overwrites an earlier one.
    pub fn data(&mut self, data: Vec<u8>) -> (r: &mut Self)
        ensures
            r.invoice_id == old(self).invoice_id,
            r.data == Some(data),
            *final(self) == *final(r),
    {
        self.data = Some(data);
        self
    }
}

impl Default for NewInvoiceProofBuilder {
    /// A builder with every slot empty.
    fn default() -> (r: Self)
        ensures
            r.invoice_id is None,
            r.data is None,
    {
        NewInvoiceProofBuilder::new()
    }
}

impl Builder<NewReportProof> for NewInvoiceProofBuilder {
    type Output = NewReportProof;

    /// Yields the new proof exactly when both slots are set, carrying the
    /// last value each slot received.
    fn build(&self) -> (r: Option<NewReportProof>)
        ensures
            r is Some <==> (self.invoice_id is Some && self.data is Some),
            r is Some ==> r.unwrap().report_id == self.invoice_id.unwrap()
                && r.unwrap().data.deep_view() == self.data.unwrap().deep_view(),
    {
        match (&self.invoice_id, &self.data) {
            (Some(invoice_id), Some(data)) => {
                let d = data.clone();
                proof {
                    assert(d@ =~= data@);
                    assert(d.deep_view() =~= data.deep_view());
                }
                Some(NewReportProof { report_id: *invoice_id, data: d })
            },
            _ => None,
        }
    }
}

} // verus!
