use expenser::{
    Cents, NewReport, NewReportAccess, NewReportLineItem, NewReportProof, NewUser, RepoError,
    Report, ReportAccess, ReportLineItem, ReportProof, Store, Usd, User,
};

fn new_user(name: &str, email: &str) -> NewUser {
    NewUser {
        username: name.to_string(),
        email: email.to_string(),
        profile_picture: None,
        password_hash: "h".to_string(),
    }
}

fn seeded() -> Store {
    // One user (id 1) owning one report (id 1).
    let mut conn = Store::new();
    new_user("ann", "ann@x.com").insert(&mut conn).unwrap();
    NewReport { owner_id: 1, title: "Trip".to_string(), description: None }
        .insert(&mut conn)
        .unwrap();
    conn
}

// --------------------------------------------------------------------- users
#[test]
fn user_ids_start_at_one_and_grow() {
    let mut conn = Store::new();
    let a = new_user("ann", "ann@x.com").insert(&mut conn).unwrap();
    assert_eq!(a.username, "ann".to_string());
    new_user("bob", "bob@x.com").insert(&mut conn).unwrap();
    assert_eq!(conn.users[0].id, 1);
    assert_eq!(conn.users[1].id, 2);
}

#[test]
fn duplicate_username_is_a_unique_violation() {
    let mut conn = Store::new();
    new_user("ann", "ann@x.com").insert(&mut conn).unwrap();
    let err = new_user("ann", "other@x.com").insert(&mut conn).unwrap_err();
    assert_eq!(err, RepoError::UniqueViolation);
    assert_eq!(conn.users.len(), 1);
}

#[test]
fn duplicate_email_is_a_unique_violation() {
    let mut conn = Store::new();
    new_user("ann", "ann@x.com").insert(&mut conn).unwrap();
    let err = new_user("bob", "ann@x.com").insert(&mut conn).unwrap_err();
    assert_eq!(err, RepoError::UniqueViolation);
}

#[test]
fn user_get_by_id_not_found() {
    let conn = Store::new();
    assert_eq!(User::get_by_id(1, &conn).unwrap_err(), RepoError::NotFound);
}

#[test]
fn user_get_by_id_returns_identity() {
    let conn = seeded();
    let info = User::get_by_id(1, &conn).unwrap();
    assert_eq!(info.username, "ann".to_string());
    assert_eq!(info.email, "ann@x.com".to_string());
}

#[test]
fn profile_picture_roundtrip_and_default() {
    let mut conn = seeded();
    // no picture stored: the empty byte string, not an error
    assert_eq!(User::get_profile_picture(1, &conn).unwrap(), Vec::<u8>::new());
    let u = User::update_profile_picture(1, &[1, 2, 3], &mut conn).unwrap();
    assert_eq!(u.profile_picture, Some(vec![1, 2, 3]));
    assert_eq!(User::get_profile_picture(1, &conn).unwrap(), vec![1, 2, 3]);
    assert_eq!(
        User::get_profile_picture(9, &conn).unwrap_err(),
        RepoError::NotFound
    );
}

#[test]
fn update_password_hash_touches_only_the_hash() {
    let mut conn = seeded();
    let u = User::update_password_hash(1, "h2", &mut conn).unwrap();
    assert_eq!(u.password_hash, "h2".to_string());
    assert_eq!(u.username, "ann".to_string());
    assert_eq!(conn.users[0].password_hash, "h2".to_string());
}

#[test]
fn update_info_rejects_taken_identity() {
    let mut conn = Store::new();
    new_user("ann", "ann@x.com").insert(&mut conn).unwrap();
    new_user("bob", "bob@x.com").insert(&mut conn).unwrap();
    let err = User::update_info(2, "ann", "bob@x.com", &mut conn).unwrap_err();
    assert_eq!(err, RepoError::UniqueViolation);
    let info = User::update_info(2, "bert", "bert@x.com", &mut conn).unwrap();
    assert_eq!(info.username, "bert".to_string());
    assert_eq!(conn.users[1].email, "bert@x.com".to_string());
    // the untouched columns survive a partial update
    assert_eq!(conn.users[1].password_hash, "h".to_string());
}

#[test]
fn user_update_rewrites_every_column() {
    let mut conn = seeded();
    let info = User::update(
        1,
        "anna".to_string(),
        "anna@x.com".to_string(),
        Some(vec![5]),
        "h9".to_string(),
        &mut conn,
    )
    .unwrap();
    assert_eq!(info.username, "anna".to_string());
    assert_eq!(conn.users[0].profile_picture, Some(vec![5]));
    assert_eq!(conn.users[0].password_hash, "h9".to_string());
}

#[test]
fn user_replace_applies_a_new_value() {
    let mut conn = Store::new();
    new_user("ann", "ann@x.com").insert(&mut conn).unwrap();
    let n = new_user("anna", "anna@x.com");
    let info = User::replace(1, &n, &mut conn).unwrap();
    assert_eq!(info.username, "anna".to_string());
    assert_eq!(conn.users[0].username, "anna".to_string());
}

#[test]
fn deleting_an_owner_is_restricted() {
    let mut conn = seeded();
    assert_eq!(User::delete(1, &mut conn).unwrap_err(), RepoError::ConstraintViolation);
    // the user survives the refused delete
    assert_eq!(conn.users.len(), 1);
    Report::delete(1, &mut conn).unwrap();
    let info = User::delete(1, &mut conn).unwrap();
    assert_eq!(info.username, "ann".to_string());
    assert!(conn.users.is_empty());
}

#[test]
fn deleting_a_borrower_is_restricted() {
    let mut conn = seeded();
    new_user("bob", "bob@x.com").insert(&mut conn).unwrap();
    NewReportAccess { borrower_id: 2, report_id: 1, read_access: true, write_access: false }
        .insert(&mut conn)
        .unwrap();
    assert_eq!(User::delete(2, &mut conn).unwrap_err(), RepoError::ConstraintViolation);
    ReportAccess::delete((1, 1), &mut conn).unwrap();
    User::delete(2, &mut conn).unwrap();
}

#[test]
fn user_delete_not_found() {
    let mut conn = Store::new();
    assert_eq!(User::delete(4, &mut conn).unwrap_err(), RepoError::NotFound);
}

#[test]
fn user_clear_is_restricted_while_reports_exist() {
    let mut conn = seeded();
    assert_eq!(User::clear(&mut conn).unwrap_err(), RepoError::ConstraintViolation);
    Report::clear(&mut conn).unwrap();
    User::clear(&mut conn).unwrap();
    assert!(conn.users.is_empty());
}

// ------------------------------------------------------------------- reports
#[test]
fn report_insert_needs_an_owner() {
    let mut conn = Store::new();
    let err = NewReport { owner_id: 1, title: "Trip".to_string(), description: None }
        .insert(&mut conn)
        .unwrap_err();
    assert_eq!(err, RepoError::ConstraintViolation);
}

#[test]
fn report_get_by_id_and_not_found() {
    let conn = seeded();
    let rep = Report::get_by_id(1, &conn).unwrap();
    assert_eq!(rep.title, "Trip".to_string());
    assert_eq!(rep.owner_id, 1);
    assert_eq!(Report::get_by_id(2, &conn).unwrap_err(), RepoError::NotFound);
}

#[test]
fn report_get_by_owner_filters_by_ownership() {
    let mut conn = seeded();
    new_user("bob", "bob@x.com").insert(&mut conn).unwrap();
    NewReport { owner_id: 2, title: "Bob's".to_string(), description: None }
        .insert(&mut conn)
        .unwrap();
    NewReport { owner_id: 1, title: "Second".to_string(), description: Some("d".to_string()) }
        .insert(&mut conn)
        .unwrap();
    let anns = Report::get_by_owner(1, &conn).unwrap();
    assert_eq!(anns.len(), 2);
    assert_eq!(anns[0].title, "Trip".to_string());
    assert_eq!(anns[1].title, "Second".to_string());
    let nobody = Report::get_by_owner(9, &conn).unwrap();
    assert!(nobody.is_empty());
}

#[test]
fn report_update_rewrites_the_row() {
    let mut conn = seeded();
    let rep = Report::update(1, 1, "Renamed".to_string(), Some("d".to_string()), &mut conn)
        .unwrap();
    assert_eq!(rep.title, "Renamed".to_string());
    assert_eq!(rep.description, Some("d".to_string()));
    assert_eq!(conn.reports[0].title, "Renamed".to_string());
}

#[test]
fn report_update_checks_the_new_owner() {
    let mut conn = seeded();
    assert_eq!(
        Report::update(1, 9, "T".to_string(), None, &mut conn).unwrap_err(),
        RepoError::ConstraintViolation
    );
    assert_eq!(
        Report::update(5, 1, "T".to_string(), None, &mut conn).unwrap_err(),
        RepoError::NotFound
    );
}

#[test]
fn report_replace_equals_update_with_the_new_fields() {
    let mut conn = seeded();
    let n = NewReport { owner_id: 1, title: "Replaced".to_string(), description: None };
    let rep = Report::replace(1, &n, &mut conn).unwrap();
    assert_eq!(rep.title, "Replaced".to_string());
    assert_eq!(rep.id, 1);
    assert_eq!(conn.reports[0].title, "Replaced".to_string());
}

#[test]
fn report_delete_returns_the_row_or_not_found() {
    let mut conn = seeded();
    let rep = Report::delete(1, &mut conn).unwrap();
    assert_eq!(rep.id, 1);
    assert_eq!(Report::delete(1, &mut conn).unwrap_err(), RepoError::NotFound);
}

// ---------------------------------------------------------------- line items
#[test]
fn line_item_insert_needs_its_report() {
    let mut conn = Store::new();
    let err = NewReportLineItem {
        report_id: 1,
        item_name: "Taxi".to_string(),
        item_price_usd: Cents(100),
    }
    .insert(&mut conn)
    .unwrap_err();
    assert_eq!(err, RepoError::ConstraintViolation);
}

#[test]
fn line_item_crud_within_its_report() {
    let mut conn = seeded();
    let it = NewReportLineItem {
        report_id: 1,
        item_name: "Taxi".to_string(),
        item_price_usd: Cents(1250),
    }
    .insert(&mut conn)
    .unwrap();
    assert_eq!(it.id, 1);
    assert_eq!(it.item_price_usd, Cents(1250));

    let got = ReportLineItem::get_by_id(1, &conn).unwrap();
    assert_eq!(got.item_name, "Taxi".to_string());

    let by_path = ReportLineItem::get_by_path((1, 1), &conn).unwrap();
    assert_eq!(by_path.id, 1);

    let listed = ReportLineItem::get_by_report(1, &conn).unwrap();
    assert_eq!(listed.len(), 1);

    let updated = ReportLineItem::update(
        (1, 1),
        1,
        "Train",
        Usd { mantissa: 999, scale: 2 },
        &mut conn,
    )
    .unwrap();
    assert_eq!(updated.item_name, "Train".to_string());
    assert_eq!(updated.item_price_usd, Cents(999));

    let removed = ReportLineItem::delete((1, 1), &mut conn).unwrap();
    assert_eq!(removed.item_name, "Train".to_string());
    assert!(ReportLineItem::get_by_report(1, &conn).unwrap().is_empty());
}

#[test]
fn line_item_update_truncates_the_decimal_price() {
    let mut conn = seeded();
    NewReportLineItem { report_id: 1, item_name: "Taxi".to_string(), item_price_usd: Cents(0) }
        .insert(&mut conn)
        .unwrap();
    let updated = ReportLineItem::update(
        (1, 1),
        1,
        "Taxi",
        Usd { mantissa: 12349, scale: 3 },
        &mut conn,
    )
    .unwrap();
    assert_eq!(updated.item_price_usd, Cents(1234));
}

#[test]
fn line_item_replace_applies_a_new_value() {
    let mut conn = seeded();
    NewReportLineItem { report_id: 1, item_name: "Taxi".to_string(), item_price_usd: Cents(1) }
        .insert(&mut conn)
        .unwrap();
    let n = NewReportLineItem {
        report_id: 1,
        item_name: "Bus".to_string(),
        item_price_usd: Cents(250),
    };
    let it = ReportLineItem::replace((1, 1), &n, &mut conn).unwrap();
    assert_eq!(it.item_name, "Bus".to_string());
    assert_eq!(it.item_price_usd, Cents(250));
    assert_eq!(conn.line_items[0].item_name, "Bus".to_string());
}

#[test]
fn line_item_clear_by_report_is_idempotent() {
    let mut conn = seeded();
    NewReportLineItem { report_id: 1, item_name: "A".to_string(), item_price_usd: Cents(1) }
        .insert(&mut conn)
        .unwrap();
    ReportLineItem::clear_by_report(1, &mut conn).unwrap();
    assert!(conn.line_items.is_empty());
    // deleting zero rows is not an error
    ReportLineItem::clear_by_report(1, &mut conn).unwrap();
    ReportLineItem::clear(&mut conn).unwrap();
}

// -------------------------------------------------------------------- proofs
#[test]
fn proof_crud_within_its_report() {
    let mut conn = seeded();
    let p = NewReportProof { report_id: 1, data: vec![0xAB] }.insert(&mut conn).unwrap();
    assert_eq!(p.id, 1);
    assert_eq!(p.data, vec![0xAB]);

    assert_eq!(ReportProof::get_by_id(1, &conn).unwrap().data, vec![0xAB]);
    assert_eq!(ReportProof::get_by_path((1, 1), &conn).unwrap().id, 1);
    assert_eq!(ReportProof::get_by_report(1, &conn).unwrap().len(), 1);

    let updated = ReportProof::update((1, 1), 1, &[1, 2], &mut conn).unwrap();
    assert_eq!(updated.data, vec![1, 2]);

    let n = NewReportProof { report_id: 1, data: vec![9] };
    let replaced = ReportProof::replace((1, 1), &n, &mut conn).unwrap();
    assert_eq!(replaced.data, vec![9]);

    let removed = ReportProof::delete((1, 1), &mut conn).unwrap();
    assert_eq!(removed.data, vec![9]);
    assert_eq!(ReportProof::delete((1, 1), &mut conn).unwrap_err(), RepoError::NotFound);
}

#[test]
fn proof_insert_needs_its_report() {
    let mut conn = Store::new();
    let err = NewReportProof { report_id: 1, data: vec![] }.insert(&mut conn).unwrap_err();
    assert_eq!(err, RepoError::ConstraintViolation);
}

#[test]
fn proof_clears_are_idempotent() {
    let mut conn = seeded();
    NewReportProof { report_id: 1, data: vec![1] }.insert(&mut conn).unwrap();
    ReportProof::clear_by_report(1, &mut conn).unwrap();
    ReportProof::clear_by_report(1, &mut conn).unwrap();
    ReportProof::clear(&mut conn).unwrap();
    assert!(conn.proofs.is_empty());
}

// -------------------------------------------------------------------- grants
#[test]
fn grant_insert_checks_both_foreign_keys() {
    let mut conn = seeded();
    let missing_user = NewReportAccess {
        borrower_id: 9,
        report_id: 1,
        read_access: true,
        write_access: false,
    };
    assert_eq!(missing_user.insert(&mut conn).unwrap_err(), RepoError::ConstraintViolation);
    let missing_report = NewReportAccess {
        borrower_id: 1,
        report_id: 9,
        read_access: true,
        write_access: false,
    };
    assert_eq!(missing_report.insert(&mut conn).unwrap_err(), RepoError::ConstraintViolation);
}

#[test]
fn grant_crud_and_queries() {
    let mut conn = seeded();
    new_user("bob", "bob@x.com").insert(&mut conn).unwrap();
    let g = NewReportAccess { borrower_id: 2, report_id: 1, read_access: true, write_access: false }
        .insert(&mut conn)
        .unwrap();
    assert_eq!(g.id, 1);

    assert_eq!(ReportAccess::get_by_id(1, &conn).unwrap(), g);
    assert_eq!(ReportAccess::get_by_path((1, 1), &conn).unwrap(), g);
    assert_eq!(ReportAccess::get_by_report(1, &conn).unwrap(), vec![g]);
    assert_eq!(ReportAccess::get_by_borrower(2, &conn).unwrap(), vec![g]);
    assert_eq!(ReportAccess::get_by_view_access(2, &conn).unwrap(), vec![g]);

    let updated = ReportAccess::update((1, 1), 2, 1, false, true, &mut conn).unwrap();
    assert!(!updated.read_access);
    assert!(updated.write_access);
    // a read flag lowered to false drops the grant from the view query
    assert!(ReportAccess::get_by_view_access(2, &conn).unwrap().is_empty());

    let removed = ReportAccess::delete((1, 1), &mut conn).unwrap();
    assert_eq!(removed.id, 1);
    assert_eq!(ReportAccess::delete((1, 1), &mut conn).unwrap_err(), RepoError::NotFound);
}

#[test]
fn grant_partial_updaters_touch_one_column() {
    let mut conn = seeded();
    new_user("bob", "bob@x.com").insert(&mut conn).unwrap();
    NewReport { owner_id: 1, title: "Second".to_string(), description: None }
        .insert(&mut conn)
        .unwrap();
    let g = NewReportAccess { borrower_id: 2, report_id: 1, read_access: false, write_access: false }
        .insert(&mut conn)
        .unwrap();

    let g = g.update_read_access(true, &mut conn).unwrap();
    assert!(g.read_access && !g.write_access);

    let g = g.update_write_access(true, &mut conn).unwrap();
    assert!(g.read_access && g.write_access);

    let g = g.update_report_id(2, &mut conn).unwrap();
    assert_eq!(g.report_id, 2);
    assert!(g.read_access && g.write_access);

    let g = g.update_borrower_id(1, &mut conn).unwrap();
    assert_eq!(g.borrower_id, 1);
    assert_eq!(g.report_id, 2);

    assert_eq!(
        g.update_borrower_id(9, &mut conn).unwrap_err(),
        RepoError::ConstraintViolation
    );
    assert_eq!(
        g.update_report_id(9, &mut conn).unwrap_err(),
        RepoError::ConstraintViolation
    );
}

#[test]
fn grant_replace_applies_a_new_value() {
    let mut conn = seeded();
    new_user("bob", "bob@x.com").insert(&mut conn).unwrap();
    NewReportAccess { borrower_id: 2, report_id: 1, read_access: false, write_access: false }
        .insert(&mut conn)
        .unwrap();
    let n = NewReportAccess { borrower_id: 2, report_id: 1, read_access: true, write_access: true };
    let g = ReportAccess::replace((1, 1), &n, &mut conn).unwrap();
    assert!(g.read_access && g.write_access);
}

#[test]
fn grant_clears_are_idempotent() {
    let mut conn = seeded();
    new_user("bob", "bob@x.com").insert(&mut conn).unwrap();
    NewReportAccess { borrower_id: 2, report_id: 1, read_access: true, write_access: true }
        .insert(&mut conn)
        .unwrap();
    ReportAccess::clear_by_report(1, &mut conn).unwrap();
    ReportAccess::clear_by_report(1, &mut conn).unwrap();
    assert!(conn.access_grants.is_empty());
    ReportAccess::clear(&mut conn).unwrap();
}

#[test]
fn update_reports_not_found_before_constraint() {
    // a missing row is reported as NotFound even when the new value would
    // also violate a foreign key
    let mut conn = seeded();
    assert_eq!(
        ReportLineItem::update((1, 9), 9, "x", Usd { mantissa: 1, scale: 0 }, &mut conn)
            .unwrap_err(),
        RepoError::NotFound
    );
    // with an existing row, the bad foreign key is the error
    NewReportLineItem { report_id: 1, item_name: "a".to_string(), item_price_usd: Cents(1) }
        .insert(&mut conn)
        .unwrap();
    assert_eq!(
        ReportLineItem::update((1, 1), 9, "x", Usd { mantissa: 1, scale: 0 }, &mut conn)
            .unwrap_err(),
        RepoError::ConstraintViolation
    );
}

#[test]
fn freed_identities_can_be_reused() {
    let mut conn = Store::new();
    new_user("ann", "ann@x.com").insert(&mut conn).unwrap();
    User::delete(1, &mut conn).unwrap();
    // the name is free again, but the id sequence never goes back
    let info = new_user("ann", "ann@x.com").insert(&mut conn).unwrap();
    assert_eq!(info.username, "ann".to_string());
    assert_eq!(conn.users[0].id, 2);
}
