//! The data model: stored rows and the "new row" shapes that create them.
//!
//! Each stored entity has a ghost view (`UserV`, `ReportV`, ...) over
//! mathematical types; contracts throughout the crate speak of rows through
//! `deep_view()`. A `New*` value carries everything a row needs except its
//! id, which the store generates on insertion.

use crate::money::Cents;
use vstd::prelude::*;

verus! {

// ---------------------------------------------------------------- ghost views
/// Ghost view of a stored user row.
#[verifier::ext_equal]
pub struct UserV {
    pub id: int,
    pub username: Seq<char>,
    pub email: Seq<char>,
    pub profile_picture: Option<Seq<u8>>,
    pub password_hash: Seq<char>,
}

/// Ghost view of a stored report row.
#[verifier::ext_equal]
pub struct ReportV {
    pub id: int,
    pub owner_id: int,
    pub title: Seq<char>,
    pub description: Option<Seq<char>>,
}

/// Ghost view of a stored line-item row; the price is in cents.
#[verifier::ext_equal]
pub struct ReportLineItemV {
    pub id: int,
    pub report_id: int,
    pub item_name: Seq<char>,
    pub item_price_cents: int,
}

/// Ghost view of a stored proof row.
#[verifier::ext_equal]
pub struct ReportProofV {
    pub id: int,
    pub report_id: int,
    pub data: Seq<u8>,
}

/// Ghost view of a stored access-grant row.
#[verifier::ext_equal]
pub struct ReportAccessV {
    pub id: int,
    pub borrower_id: int,
    pub report_id: int,
    pub read_access: bool,
    pub write_access: bool,
}

// ------------------------------------------------------------------- entities
/// A registered user. `username` and `email` are unique across the store;
/// `password_hash` is the opaque output of the external hashing collaborator.
#[derive(Debug, PartialEq)]
pub struct User {
    pub id: i64,
    pub username: String,
    pub email: String,
    pub profile_picture: Option<Vec<u8>>,
    pub password_hash: String,
}

/// Everything a user row holds except its generated id.
#[derive(Debug, PartialEq)]
pub struct NewUser {
    pub username: String,
    pub email: String,
    pub profile_picture: Option<Vec<u8>>,
    pub password_hash: String,
}

/// A financial report, owned by exactly one user.
#[derive(Debug, PartialEq)]
pub struct Report {
    pub id: i64,
    pub owner_id: i64,
    pub title: String,
    pub description: Option<String>,
}

/// Everything a report row holds except its generated id.
#[derive(Debug, PartialEq)]
pub struct NewReport {
    pub owner_id: i64,
    pub title: String,
    pub description: Option<String>,
}

/// A monetary entry scoped to one report, addressed from outside by the
/// composite key `(report_id, id)`.
#[derive(Debug, PartialEq)]
pub struct ReportLineItem {
    pub id: i64,
    pub report_id: i64,
    pub item_name: String,
    pub item_price_usd: Cents,
}

/// Everything a line-item row holds except its generated id.
#[derive(Debug, PartialEq)]
pub struct NewReportLineItem {
    pub report_id: i64,
    pub item_name: String,
    pub item_price_usd: Cents,
}

/// An opaque attachment (receipt, document) scoped to one report.
#[derive(Debug, PartialEq)]
pub struct ReportProof {
    pub id: i64,
    pub report_id: i64,
    pub data: Vec<u8>,
}

/// Everything a proof row holds except its generated id.
#[derive(Debug, PartialEq)]
pub struct NewReportProof {
    pub report_id: i64,
    pub data: Vec<u8>,
}

/// A capability row giving a borrower read and/or write visibility into one
/// report; it never conveys ownership.
#[derive(Clone, Copy, Debug, PartialEq, Eq, Structural)]
pub struct ReportAccess {
    pub id: i64,
    pub borrower_id: i64,
    pub report_id: i64,
    pub read_access: bool,
    pub write_access: bool,
}

/// Everything an access-grant row holds except its generated id.
#[derive(Clone, Copy, Debug, PartialEq, Eq, Structural)]
pub struct NewReportAccess {
    pub borrower_id: i64,
    pub report_id: i64,
    pub read_access: bool,
    pub write_access: bool,
}

// ----------------------------------------------------------------- deep views
impl DeepView for User {
    type V = UserV;

    open spec fn deep_view(&self) -> UserV {
        UserV {
            id: self.id as int,
            username: self.username.deep_view(),
            email: self.email.deep_view(),
            profile_picture: self.profile_picture.deep_view(),
            password_hash: self.password_hash.deep_view(),
        }
    }
}

impl DeepView for Report {
    type V = ReportV;

    open spec fn deep_view(&self) -> ReportV {
        ReportV {
            id: self.id as int,
            owner_id: self.owner_id as int,
            title: self.title.deep_view(),
            description: self.description.deep_view(),
        }
    }
}

impl DeepView for ReportLineItem {
    type V = ReportLineItemV;

    open spec fn deep_view(&self) -> ReportLineItemV {
        ReportLineItemV {
            id: self.id as int,
            report_id: self.report_id as int,
            item_name: self.item_name.deep_view(),
            item_price_cents: self.item_price_usd.0 as int,
        }
    }
}

impl DeepView for ReportProof {
    type V = ReportProofV;

    open spec fn deep_view(&self) -> ReportProofV {
        ReportProofV {
            id: self.id as int,
            report_id: self.report_id as int,
            data: self.data.deep_view(),
        }
    }
}

impl DeepView for ReportAccess {
    type V = ReportAccessV;

    open spec fn deep_view(&self) -> ReportAccessV {
        ReportAccessV {
            id: self.id as int,
            borrower_id: self.borrower_id as int,
            report_id: self.report_id as int,
            read_access: self.read_access,
            write_access: self.write_access,
        }
    }
}

// ------------------------------------------------------- rows from new values
impl NewUser {
    /// The row this value makes once the store assigns it `id`.
    pub open spec fn with_id(self, id: int) -> UserV {
        UserV {
            id,
            username: self.username.deep_view(),
            email: self.email.deep_view(),
            profile_picture: self.profile_picture.deep_view(),
            password_hash: self.password_hash.deep_view(),
        }
    }
}

impl NewReport {
    /// The row this value makes once the store assigns it `id`.
    pub open spec fn with_id(self, id: int) -> ReportV {
        ReportV {
            id,
            owner_id: self.owner_id as int,
            title: self.title.deep_view(),
            description: self.description.deep_view(),
        }
    }
}

impl NewReportLineItem {
    /// The row this value makes once the store assigns it `id`.
    pub open spec fn with_id(self, id: int) -> ReportLineItemV {
        ReportLineItemV {
            id,
            report_id: self.report_id as int,
            item_name: self.item_name.deep_view(),
            item_price_cents: self.item_price_usd.0 as int,
        }
    }
}

impl NewReportProof {
    /// The row this value makes once the store assigns it `id`.
    pub open spec fn with_id(self, id: int) -> ReportProofV {
        ReportProofV { id, report_id: self.report_id as int, data: self.data.deep_view() }
    }
}

impl NewReportAccess {
    /// The row this value makes once the store assigns it `id`.
    pub open spec fn with_id(self, id: int) -> ReportAccessV {
        ReportAccessV {
            id,
            borrower_id: self.borrower_id as int,
            report_id: self.report_id as int,
            read_access: self.read_access,
            write_access: self.write_access,
        }
    }
}

// ---------------------------------------------------------------------- clone
impl Clone for User {
    fn clone(&self) -> (res: Self)
        ensures
            res.deep_view() == self.deep_view(),
    {
        let res = User {
            id: self.id,
            username: self.username.clone(),
            email: self.email.clone(),
            profile_picture: match &self.profile_picture {
                Some(p) => Some(p.clone()),
                None => None,
            },
            password_hash: self.password_hash.clone(),
        };
        proof {
            assert(res.deep_view() =~~= self.deep_view());
        }
        res
    }
}

impl Clone for Report {
    fn clone(&self) -> (res: Self)
        ensures
            res == *self,
    {
        Report {
            id: self.id,
            owner_id: self.owner_id,
            title: self.title.clone(),
            description: match &self.description {
                Some(d) => Some(d.clone()),
                None => None,
            },
        }
    }
}

impl Clone for ReportLineItem {
    fn clone(&self) -> (res: Self)
        ensures
            res == *self,
    {
        ReportLineItem {
            id: self.id,
            report_id: self.report_id,
            item_name: self.item_name.clone(),
            item_price_usd: self.item_price_usd,
        }
    }
}

impl Clone for ReportProof {
    fn clone(&self) -> (res: Self)
        ensures
            res.deep_view() == self.deep_view(),
    {
        let res = ReportProof { id: self.id, report_id: self.report_id, data: self.data.clone() };
        proof {
            assert(res.deep_view() =~~= self.deep_view());
        }
        res
    }
}

impl Clone for NewUser {
    fn clone(&self) -> (res: Self)
        ensures
            res.deep_view() == self.deep_view(),
    {
        let res = NewUser {
            username: self.username.clone(),
            email: self.email.clone(),
            profile_picture: match &self.profile_picture {
                Some(p) => Some(p.clone()),
                None => None,
            },
            password_hash: self.password_hash.clone(),
        };
        proof {
            assert(res.deep_view() =~~= self.deep_view());
        }
        res
    }
}

impl Clone for NewReport {
    fn clone(&self) -> (res: Self)
        ensures
            res == *self,
    {
        NewReport {
            owner_id: self.owner_id,
            title: self.title.clone(),
            description: match &self.description {
                Some(d) => Some(d.clone()),
                None => None,
            },
        }
    }
}

impl Clone for NewReportLineItem {
    fn clone(&self) -> (res: Self)
        ensures
            res == *self,
    {
        NewReportLineItem {
            report_id: self.report_id,
            item_name: self.item_name.clone(),
            item_price_usd: self.item_price_usd,
        }
    }
}

impl Clone for NewReportProof {
    fn clone(&self) -> (res: Self)
        ensures
            res.deep_view() == self.deep_view(),
    {
        let res = NewReportProof { report_id: self.report_id, data: self.data.clone() };
        proof {
            assert(res.deep_view() =~~= self.deep_view());
        }
        res
    }
}

// NewUser needs a deep view too: builder and insert contracts relate the
// stored row to the new value's fields.
/// Ghost view of a new-user value.
#[verifier::ext_equal]
pub struct NewUserV {
    pub username: Seq<char>,
    pub email: Seq<char>,
    pub profile_picture: Option<Seq<u8>>,
    pub password_hash: Seq<char>,
}

impl DeepView for NewUser {
    type V = NewUserV;

    open spec fn deep_view(&self) -> NewUserV {
        NewUserV {
            username: self.username.deep_view(),
            email: self.email.deep_view(),
            profile_picture: self.profile_picture.deep_view(),
            password_hash: self.password_hash.deep_view(),
        }
    }
}

/// Ghost view of a new-proof value.
#[verifier::ext_equal]
pub struct NewReportProofV {
    pub report_id: int,
    pub data: Seq<u8>,
}

impl DeepView for NewReportProof {
    type V = NewReportProofV;

    open spec fn deep_view(&self) -> NewReportProofV {
        NewReportProofV { report_id: self.report_id as int, data: self.data.deep_view() }
    }
}

} // verus!
