use exposure_core::Report;
use exposure_core::Store;

#[test]
fn new_personal_clamps_negative_counts() {
    let r = Report::new_personal(String::from("U1"), -10, String::from("r1"), 100);
    assert_eq!(r.exposed_count, 0);
    assert_eq!(r.user_uuid.as_deref(), Some("U1"));
    assert!(r.org_uuid.is_none());
    assert_eq!(r.created_at, 100);
    assert_eq!(r.last_updated_at, 100);
}

#[test]
fn new_org_keeps_nonnegative_counts() {
    let r = Report::new_org(String::from("O1"), 42, String::from("r1"), 100);
    assert_eq!(r.exposed_count, 42);
    assert!(r.user_uuid.is_none());
    assert_eq!(r.org_uuid.as_deref(), Some("O1"));
}

#[test]
fn update_overwrites_clamps_and_refreshes() {
    let mut r = Report::new_personal(String::from("U1"), 7, String::from("r1"), 100);
    r.update_exposed_count(3, 150);
    assert_eq!(r.exposed_count, 3);
    assert_eq!(r.last_updated_at, 150);
    assert_eq!(r.created_at, 100);
    r.update_exposed_count(i32::MIN, 200);
    assert_eq!(r.exposed_count, 0);
    assert_eq!(r.last_updated_at, 200);
}

#[test]
fn save_inserts_then_overwrites_by_row_id() {
    let mut store = Store::new();
    let first = Report::new_personal(String::from("U1"), 1, String::from("r1"), 100);
    first.save(&mut store);
    assert_eq!(store.reports.len(), 1);
    assert_eq!(store.reports[0].exposed_count, 1);

    let mut second = store.reports[0].clone();
    second.update_exposed_count(9, 200);
    second.save(&mut store);
    assert_eq!(store.reports.len(), 1);
    assert_eq!(store.reports[0].exposed_count, 9);
    assert_eq!(store.reports[0].last_updated_at, 200);
    assert_eq!(store.reports[0].created_at, 100);

    let other = Report::new_org(String::from("O1"), 5, String::from("r2"), 300);
    other.save(&mut store);
    assert_eq!(store.reports.len(), 2);
}

#[test]
fn find_functions_distinguish_shapes() {
    let mut store = Store::new();
    Report::new_personal(String::from("X"), 1, String::from("r1"), 100).save(&mut store);
    Report::new_org(String::from("X"), 2, String::from("r2"), 100).save(&mut store);
    let x = String::from("X");
    let p = Report::find_by_user_personal(&x, &store).unwrap();
    let o = Report::find_by_org(&x, &store).unwrap();
    assert_ne!(p, o);
    assert_eq!(store.reports[p].exposed_count, 1);
    assert_eq!(store.reports[o].exposed_count, 2);
    let y = String::from("Y");
    assert!(Report::find_by_user_personal(&y, &store).is_none());
    assert!(Report::find_by_org(&y, &store).is_none());
}
