//! Persistence and authorization core for user-owned financial reports.
//!
//! A store holds users, reports, and the rows scoped to a report:
//! line items, proof attachments, and access grants. Each entity module
//! offers the repository operations for that entity, a builder that yields a
//! complete "new entity" value only once every required field is set, and the
//! access-resolver queries that filter reports by grant. Money is kept as an
//! integer number of cents; the [`money`] module converts between decimal
//! dollar amounts and cents by truncation toward zero.

pub mod error;
pub mod info;
pub mod invoice;
pub mod models;
pub mod money;
pub mod report;
pub mod report_access;
pub mod report_line_item;
pub mod report_proof;
pub mod store;
pub mod traits;
pub mod user;

pub use error::RepoError;
pub use info::CrateInfo;
pub use invoice::{
    NewInvoiceBuilder, NewInvoiceLineItemBuilder, NewInvoicePermissionsBuilder,
    NewInvoiceProofBuilder,
};
pub use models::{
    NewReport, NewReportAccess, NewReportLineItem, NewReportProof, NewUser, Report, ReportAccess,
    ReportLineItem, ReportProof, User,
};
pub use money::{Cents, Usd};
pub use report::NewReportBuilder;
pub use report_access::NewReportAccessBuilder;
pub use report_line_item::NewReportLineItemBuilder;
pub use report_proof::NewReportProofBuilder;
pub use store::Store;
pub use traits::{Builder, HasBuilder};
pub use user::{NewUserBuilder, Password, UserInfo};
