use expenser::error::require_complete;
use expenser::{
    Builder, Cents, HasBuilder, NewInvoiceBuilder, NewInvoiceLineItemBuilder,
    NewInvoicePermissionsBuilder, NewInvoiceProofBuilder, NewReport, NewReportAccessBuilder,
    NewReportBuilder, NewReportLineItemBuilder, NewReportProofBuilder, NewUser, NewUserBuilder,
    RepoError, Report, Usd, User,
};

fn sample_user(id: i64) -> User {
    User {
        id,
        username: "ann".to_string(),
        email: "ann@x.com".to_string(),
        profile_picture: None,
        password_hash: "h1".to_string(),
    }
}

fn sample_report(id: i64) -> Report {
    Report { id, owner_id: 1, title: "Trip".to_string(), description: None }
}

// ------------------------------------------------------------------- reports
#[test]
fn report_builder_incomplete_yields_nothing() {
    let b = NewReportBuilder::new();
    assert!(b.build().is_none());

    let mut only_owner = NewReportBuilder::new();
    only_owner.owner_id(1);
    assert!(only_owner.build().is_none());

    let mut only_title = NewReportBuilder::new();
    only_title.title("Trip".to_string());
    assert!(only_title.build().is_none());
}

#[test]
fn report_builder_complete_yields_exactly_the_slots() {
    let mut b = NewReportBuilder::new();
    b.owner_id(1).title("Trip".to_string());
    let n = b.build().unwrap();
    assert_eq!(n.owner_id, 1);
    assert_eq!(n.title, "Trip".to_string());
    assert_eq!(n.description, None);
}

#[test]
fn report_builder_last_set_value_wins() {
    let mut b = NewReportBuilder::new();
    b.owner_id(1).title("First".to_string());
    b.title("Second".to_string()).owner_id(9);
    let n = b.build().unwrap();
    assert_eq!(n.owner_id, 9);
    assert_eq!(n.title, "Second".to_string());
}

#[test]
fn report_builder_optional_description_never_blocks() {
    let mut b = NewReportBuilder::new();
    b.owner_id(1).title("Trip".to_string()).description("June".to_string());
    let n = b.build().unwrap();
    assert_eq!(n.description, Some("June".to_string()));
}

#[test]
fn report_builder_owner_takes_id_from_user() {
    let ann = sample_user(17);
    let mut b = NewReportBuilder::new();
    b.owner(&ann).title("Trip".to_string());
    assert_eq!(b.build().unwrap().owner_id, 17);
}

#[test]
fn report_has_builder_is_empty() {
    let b = <NewReport as HasBuilder<NewReportBuilder, NewReport>>::builder();
    assert!(b.owner_id.is_none());
    assert!(b.title.is_none());
    assert!(b.description.is_none());
    let b2 = <Report as HasBuilder<NewReportBuilder, NewReport>>::builder();
    assert!(b2.build().is_none());
}

// ----------------------------------------------------------------- line items
#[test]
fn line_item_builder_requires_all_three_slots() {
    let mut b = NewReportLineItemBuilder::new();
    assert!(b.build().is_none());
    b.report_id(1);
    assert!(b.build().is_none());
    b.item_name("Taxi".to_string());
    assert!(b.build().is_none());
    b.item_price_usd(Usd { mantissa: 1250, scale: 2 });
    let n = b.build().unwrap();
    assert_eq!(n.report_id, 1);
    assert_eq!(n.item_name, "Taxi".to_string());
    assert_eq!(n.item_price_usd, Cents(1250));
}

#[test]
fn line_item_builder_truncates_price() {
    let mut b = NewReportLineItemBuilder::new();
    b.report_id(1).item_name("Taxi".to_string()).item_price_usd(Usd {
        mantissa: 12349,
        scale: 3,
    });
    assert_eq!(b.build().unwrap().item_price_usd, Cents(1234));
}

#[test]
fn line_item_builder_report_takes_id() {
    let rep = sample_report(5);
    let mut b = NewReportLineItemBuilder::new();
    b.report(&rep).item_name("Taxi".to_string()).item_price_usd(Usd { mantissa: 1, scale: 0 });
    let n = b.build().unwrap();
    assert_eq!(n.report_id, 5);
    assert_eq!(n.item_price_usd, Cents(100));
}

// -------------------------------------------------------------------- proofs
#[test]
fn proof_builder_requires_both_slots() {
    let mut b = NewReportProofBuilder::new();
    assert!(b.build().is_none());
    b.report_id(3);
    assert!(b.build().is_none());
    b.data(vec![1, 2, 3]);
    let n = b.build().unwrap();
    assert_eq!(n.report_id, 3);
    assert_eq!(n.data, vec![1, 2, 3]);
}

#[test]
fn proof_builder_last_set_data_wins() {
    let mut b = NewReportProofBuilder::new();
    b.report_id(3).data(vec![1]).data(vec![9, 9]);
    assert_eq!(b.build().unwrap().data, vec![9, 9]);
}

// -------------------------------------------------------------------- grants
#[test]
fn access_builder_requires_both_ids() {
    let mut b = NewReportAccessBuilder::new();
    assert!(b.build().is_none());
    b.borrower_id(2);
    assert!(b.build().is_none());
    b.report_id(1);
    let n = b.build().unwrap();
    assert_eq!(n.borrower_id, 2);
    assert_eq!(n.report_id, 1);
    assert!(!n.read_access);
    assert!(!n.write_access);
}

#[test]
fn access_builder_carries_each_flag_separately() {
    // The built value carries the write flag exactly as set, independent of
    // the read flag.
    let mut b = NewReportAccessBuilder::new();
    b.borrower_id(2).report_id(1).read_access(true).write_access(false);
    let n = b.build().unwrap();
    assert!(n.read_access);
    assert!(!n.write_access);

    let mut b2 = NewReportAccessBuilder::new();
    b2.borrower_id(2).report_id(1).read_access(false).write_access(true);
    let n2 = b2.build().unwrap();
    assert!(!n2.read_access);
    assert!(n2.write_access);
}

// --------------------------------------------------------------------- users
#[test]
fn user_builder_requires_username_email_and_hash() {
    let mut b = NewUserBuilder::new();
    assert!(b.build().is_none());
    b.username("ann".to_string());
    assert!(b.build().is_none());
    b.email("ann@x.com".to_string());
    assert!(b.build().is_none());
    b.password_hash("h1".to_string());
    let n = b.build().unwrap();
    assert_eq!(n.username, "ann".to_string());
    assert_eq!(n.email, "ann@x.com".to_string());
    assert_eq!(n.password_hash, "h1".to_string());
    assert_eq!(n.profile_picture, None);
}

#[test]
fn user_builder_optional_picture_never_blocks() {
    let mut b = NewUserBuilder::new();
    b.username("ann".to_string()).email("ann@x.com".to_string()).password_hash("h1".to_string());
    b.profile_picture(vec![0xFF, 0xD8]);
    let n = b.build().unwrap();
    assert_eq!(n.profile_picture, Some(vec![0xFF, 0xD8]));
}

#[test]
fn user_has_builder_is_empty() {
    let b = <NewUser as HasBuilder<NewUserBuilder, NewUser>>::builder();
    assert!(b.build().is_none());
}

// ------------------------------------------------------------------ invoices
#[test]
fn invoice_builder_builds_a_report_without_description() {
    let mut b = NewInvoiceBuilder::new();
    assert!(b.build().is_none());
    b.owner_id(4).title("Consulting".to_string());
    let n = b.build().unwrap();
    assert_eq!(n.owner_id, 4);
    assert_eq!(n.title, "Consulting".to_string());
    assert_eq!(n.description, None);
}

#[test]
fn invoice_line_item_builder_takes_whole_dollars() {
    let mut b = NewInvoiceLineItemBuilder::new();
    b.invoice_id(4).item_name("Hours".to_string()).item_price_usd(12);
    let n = b.build().unwrap();
    assert_eq!(n.report_id, 4);
    assert_eq!(n.item_price_usd, Cents(1200));
}

#[test]
fn invoice_permissions_builder_carries_flags_exactly() {
    let mut b = NewInvoicePermissionsBuilder::new();
    assert!(b.build().is_none());
    b.borrower_id(2).invoice_id(4).read_access(true).write_access(false);
    let n = b.build().unwrap();
    assert_eq!(n.borrower_id, 2);
    assert_eq!(n.report_id, 4);
    assert!(n.read_access);
    assert!(!n.write_access);
}

#[test]
fn invoice_proof_builder_requires_both_slots() {
    let mut b = NewInvoiceProofBuilder::new();
    assert!(b.build().is_none());
    b.invoice_id(4).data(vec![7]);
    let n = b.build().unwrap();
    assert_eq!(n.report_id, 4);
    assert_eq!(n.data, vec![7]);
}

// ------------------------------------------------------------------ outcomes
#[test]
fn require_complete_passes_built_values_through() {
    let mut b = NewReportBuilder::new();
    b.owner_id(1).title("Trip".to_string());
    let n = require_complete(b.build()).unwrap();
    assert_eq!(n.owner_id, 1);
}

#[test]
fn require_complete_flags_incomplete_builders() {
    let b = NewReportBuilder::new();
    assert_eq!(require_complete(b.build()).unwrap_err(), RepoError::ValidationIncomplete);
}
