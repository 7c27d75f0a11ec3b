use expenser::money::{to_cents, to_dollars};
use expenser::{
    Builder, Cents, NewReportAccess, NewReportBuilder, NewReportLineItemBuilder, NewReportProof,
    NewUserBuilder, RepoError, Report, ReportAccess, ReportLineItem, ReportProof, Store, Usd,
};

// The full life of one report: a user, a report, a priced line item, a
// grant, the visibility queries, and the cascade on deletion.
#[test]
fn report_lifecycle_end_to_end() {
    let mut conn = Store::new();

    let mut ub = NewUserBuilder::new();
    ub.username("ann".to_string())
        .email("ann@x.com".to_string())
        .password_hash("h1".to_string());
    let ann = ub.build().unwrap().insert(&mut conn).unwrap();
    assert_eq!(ann.username, "ann".to_string());
    assert_eq!(conn.users[0].id, 1);

    let mut ub2 = NewUserBuilder::new();
    ub2.username("bob".to_string())
        .email("bob@x.com".to_string())
        .password_hash("h2".to_string());
    ub2.build().unwrap().insert(&mut conn).unwrap();
    assert_eq!(conn.users[1].id, 2);

    let mut rb = NewReportBuilder::new();
    rb.owner_id(1).title("Trip".to_string());
    let report = rb.build().unwrap().insert(&mut conn).unwrap();
    assert_eq!(report.id, 1);
    assert_eq!(report.owner_id, 1);

    // $12.50 arrives as decimal dollars and is stored as 1250 cents
    let mut ib = NewReportLineItemBuilder::new();
    ib.report(&report)
        .item_name("Taxi".to_string())
        .item_price_usd(Usd { mantissa: 1250, scale: 2 });
    let item = ib.build().unwrap().insert(&mut conn).unwrap();
    assert_eq!(item.item_price_usd, Cents(1250));

    // reading it back yields $12.50 again
    let stored = ReportLineItem::get_by_path((1, item.id), &conn).unwrap();
    assert_eq!(to_dollars(stored.item_price_usd), Usd { mantissa: 1250, scale: 2 });

    // grant bob read-only visibility
    NewReportAccess { borrower_id: 2, report_id: 1, read_access: true, write_access: false }
        .insert(&mut conn)
        .unwrap();

    let readable = ReportAccess::get_report_by_read_access(2, &conn).unwrap();
    assert_eq!(readable.len(), 1);
    assert_eq!(readable[0].id, 1);

    let writable = ReportAccess::get_report_by_write_access(2, &conn).unwrap();
    assert!(writable.is_empty());

    // deleting the report cascades over every scoped row
    Report::delete(1, &mut conn).unwrap();
    assert!(ReportLineItem::get_by_report(1, &conn).unwrap().is_empty());
    assert_eq!(Report::get_by_id(1, &conn).unwrap_err(), RepoError::NotFound);
}

// Cascading delete: a report with several line items, proofs, and grants
// loses them all at once, and rows of other reports stay put.
#[test]
fn delete_report_cascades_over_children() {
    let mut conn = Store::new();
    let mut ub = NewUserBuilder::new();
    ub.username("ann".to_string())
        .email("ann@x.com".to_string())
        .password_hash("h1".to_string());
    ub.build().unwrap().insert(&mut conn).unwrap();
    let mut ub2 = NewUserBuilder::new();
    ub2.username("bob".to_string())
        .email("bob@x.com".to_string())
        .password_hash("h2".to_string());
    ub2.build().unwrap().insert(&mut conn).unwrap();

    for title in ["Doomed", "Spared"] {
        let mut rb = NewReportBuilder::new();
        rb.owner_id(1).title(title.to_string());
        rb.build().unwrap().insert(&mut conn).unwrap();
    }

    for rid in [1i64, 2] {
        for k in 0..3i64 {
            let mut ib = NewReportLineItemBuilder::new();
            ib.report_id(rid)
                .item_name(format!("item-{k}"))
                .item_price_usd(Usd { mantissa: 100 + k, scale: 2 });
            ib.build().unwrap().insert(&mut conn).unwrap();
        }
        for _ in 0..2 {
            NewReportProof { report_id: rid, data: vec![rid as u8] }.insert(&mut conn).unwrap();
        }
        NewReportAccess { borrower_id: 2, report_id: rid, read_access: true, write_access: true }
            .insert(&mut conn)
            .unwrap();
    }
    assert_eq!(conn.line_items.len(), 6);
    assert_eq!(conn.proofs.len(), 4);
    assert_eq!(conn.access_grants.len(), 2);

    let removed = Report::delete(1, &mut conn).unwrap();
    assert_eq!(removed.title, "Doomed".to_string());

    // every child of report 1 is gone
    assert!(ReportLineItem::get_by_report(1, &conn).unwrap().is_empty());
    assert!(ReportProof::get_by_report(1, &conn).unwrap().is_empty());
    assert!(ReportAccess::get_by_report(1, &conn).unwrap().is_empty());

    // report 2 keeps all of its rows
    assert_eq!(ReportLineItem::get_by_report(2, &conn).unwrap().len(), 3);
    assert_eq!(ReportProof::get_by_report(2, &conn).unwrap().len(), 2);
    assert_eq!(ReportAccess::get_by_report(2, &conn).unwrap().len(), 1);
}

// The read resolver returns exactly the read-granted reports: a grant with
// the read flag down contributes nothing.
#[test]
fn readable_reports_follow_the_read_flag_exactly() {
    let mut conn = Store::new();
    let mut ub = NewUserBuilder::new();
    ub.username("ann".to_string())
        .email("ann@x.com".to_string())
        .password_hash("h1".to_string());
    ub.build().unwrap().insert(&mut conn).unwrap();
    let mut ub2 = NewUserBuilder::new();
    ub2.username("bob".to_string())
        .email("bob@x.com".to_string())
        .password_hash("h2".to_string());
    ub2.build().unwrap().insert(&mut conn).unwrap();

    for title in ["Readable", "Hidden", "Ungranted"] {
        let mut rb = NewReportBuilder::new();
        rb.owner_id(1).title(title.to_string());
        rb.build().unwrap().insert(&mut conn).unwrap();
    }
    NewReportAccess { borrower_id: 2, report_id: 1, read_access: true, write_access: false }
        .insert(&mut conn)
        .unwrap();
    NewReportAccess { borrower_id: 2, report_id: 2, read_access: false, write_access: true }
        .insert(&mut conn)
        .unwrap();

    let readable = ReportAccess::get_report_by_read_access(2, &conn).unwrap();
    assert_eq!(readable.len(), 1);
    assert_eq!(readable[0].title, "Readable".to_string());

    let writable = ReportAccess::get_report_by_write_access(2, &conn).unwrap();
    assert_eq!(writable.len(), 1);
    assert_eq!(writable[0].title, "Hidden".to_string());

    // any grant at all makes a report visible, whatever its flags
    let visible = ReportAccess::get_report_by_borrower(2, &conn).unwrap();
    assert_eq!(visible.len(), 2);

    // and a borrower with no grants sees nothing
    assert!(ReportAccess::get_report_by_read_access(1, &conn).unwrap().is_empty());
}

// Composite-key addressing rejects an id that lives under another parent.
#[test]
fn composite_key_mismatch_is_not_found() {
    let mut conn = Store::new();
    let mut ub = NewUserBuilder::new();
    ub.username("ann".to_string())
        .email("ann@x.com".to_string())
        .password_hash("h1".to_string());
    ub.build().unwrap().insert(&mut conn).unwrap();

    // reports 1..=9 so that ids 5 and 9 both exist
    for k in 1..=9 {
        let mut rb = NewReportBuilder::new();
        rb.owner_id(1).title(format!("r{k}"));
        rb.build().unwrap().insert(&mut conn).unwrap();
    }
    // line items 1..=7, the 7th under report 9
    for k in 1..=7i64 {
        let rid = if k == 7 { 9 } else { 1 };
        let mut ib = NewReportLineItemBuilder::new();
        ib.report_id(rid).item_name(format!("i{k}")).item_price_usd(Usd {
            mantissa: k,
            scale: 0,
        });
        ib.build().unwrap().insert(&mut conn).unwrap();
    }

    // item 7 exists, but under report 9: the pair (5, 7) matches nothing
    assert_eq!(
        ReportLineItem::get_by_path((5, 7), &conn).unwrap_err(),
        RepoError::NotFound
    );
    // the right pair finds it
    assert_eq!(ReportLineItem::get_by_path((9, 7), &conn).unwrap().id, 7);
    // the same discipline holds for updates and deletes
    assert_eq!(
        ReportLineItem::update((5, 7), 9, "x", Usd { mantissa: 1, scale: 0 }, &mut conn)
            .unwrap_err(),
        RepoError::NotFound
    );
    assert_eq!(
        ReportLineItem::delete((5, 7), &mut conn).unwrap_err(),
        RepoError::NotFound
    );
}

// The same composite-key discipline holds for proofs and grants.
#[test]
fn composite_key_mismatch_for_proofs_and_grants() {
    let mut conn = Store::new();
    let mut ub = NewUserBuilder::new();
    ub.username("ann".to_string())
        .email("ann@x.com".to_string())
        .password_hash("h1".to_string());
    ub.build().unwrap().insert(&mut conn).unwrap();
    for k in 1..=2 {
        let mut rb = NewReportBuilder::new();
        rb.owner_id(1).title(format!("r{k}"));
        rb.build().unwrap().insert(&mut conn).unwrap();
    }
    NewReportProof { report_id: 2, data: vec![1] }.insert(&mut conn).unwrap();
    NewReportAccess { borrower_id: 1, report_id: 2, read_access: true, write_access: false }
        .insert(&mut conn)
        .unwrap();

    assert_eq!(ReportProof::get_by_path((1, 1), &conn).unwrap_err(), RepoError::NotFound);
    assert_eq!(ReportProof::get_by_path((2, 1), &conn).unwrap().id, 1);
    assert_eq!(ReportAccess::get_by_path((1, 1), &conn).unwrap_err(), RepoError::NotFound);
    assert_eq!(ReportAccess::get_by_path((2, 1), &conn).unwrap().id, 1);
}

// A builder-made value and a to_cents round trip meet the stored row.
#[test]
fn builder_price_equals_codec_price() {
    let price = Usd { mantissa: 12349, scale: 3 };
    let mut ib = NewReportLineItemBuilder::new();
    ib.report_id(1).item_name("x".to_string()).item_price_usd(price);
    assert_eq!(ib.build().unwrap().item_price_usd, to_cents(price));
}
