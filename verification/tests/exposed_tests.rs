use exposure_core::exposed::exposed;
use exposure_core::Membership;
use exposure_core::Store;
use exposure_core::User;

fn store_with_user(uuid: &str) -> Store {
    let mut store = Store::new();
    store.users.push(User {
        uuid: String::from(uuid),
        email: String::from("a@x.com"),
        akey: String::new(),
        private_key: None,
    });
    store
}

fn add_membership(store: &mut Store, muuid: &str, user: &str, org: &str) {
    store.memberships.push(Membership {
        uuid: String::from(muuid),
        user_uuid: String::from(user),
        org_uuid: String::from(org),
    });
}

fn fresh(n: usize) -> Vec<String> {
    (0..n).map(|i| format!("fresh-{}", i)).collect()
}

fn personal_count(store: &Store, user: &str) -> Option<i32> {
    store
        .reports
        .iter()
        .find(|r| r.user_uuid.as_deref() == Some(user) && r.org_uuid.is_none())
        .map(|r| r.exposed_count)
}

fn org_count(store: &Store, org: &str) -> Option<i32> {
    store
        .reports
        .iter()
        .find(|r| r.org_uuid.as_deref() == Some(org) && r.user_uuid.is_none())
        .map(|r| r.exposed_count)
}

#[test]
fn unknown_user_is_a_silent_no_op() {
    let mut store = Store::new();
    let uid = String::from("nobody");
    exposed(&mut store, &uid, 3, &vec![], &fresh(1), 100);
    assert!(store.reports.is_empty());
}

#[test]
fn personal_count_created_and_unauthorized_org_skipped() {
    // Report {userId:U1, org:{O1:5}, me:3} where U1 is not a member of O1.
    let mut store = store_with_user("U1");
    let uid = String::from("U1");
    let entries = vec![(String::from("O1"), 5)];
    exposed(&mut store, &uid, 3, &entries, &fresh(2), 100);
    assert_eq!(personal_count(&store, "U1"), Some(3));
    assert_eq!(org_count(&store, "O1"), None);
    assert_eq!(store.reports.len(), 1);
}

#[test]
fn negative_count_is_clamped_to_zero() {
    let mut store = store_with_user("U1");
    let uid = String::from("U1");
    exposed(&mut store, &uid, -10, &vec![], &fresh(1), 100);
    assert_eq!(personal_count(&store, "U1"), Some(0));
}

#[test]
fn large_negative_count_is_clamped_to_zero() {
    let mut store = store_with_user("U1");
    let uid = String::from("U1");
    add_membership(&mut store, "m1", "U1", "O1");
    let entries = vec![(String::from("O1"), i32::MIN)];
    exposed(&mut store, &uid, i32::MIN, &entries, &fresh(2), 100);
    assert_eq!(personal_count(&store, "U1"), Some(0));
    assert_eq!(org_count(&store, "O1"), Some(0));
}

#[test]
fn authorized_org_count_is_recorded_anonymously() {
    let mut store = store_with_user("U1");
    let uid = String::from("U1");
    add_membership(&mut store, "m1", "U1", "O1");
    let entries = vec![(String::from("O1"), 5)];
    exposed(&mut store, &uid, 3, &entries, &fresh(2), 100);
    assert_eq!(org_count(&store, "O1"), Some(5));
    let row = store
        .reports
        .iter()
        .find(|r| r.org_uuid.as_deref() == Some("O1"))
        .unwrap();
    assert!(row.user_uuid.is_none());
}

#[test]
fn unauthorized_org_report_stays_unchanged() {
    let mut store = store_with_user("U1");
    let uid = String::from("U1");
    add_membership(&mut store, "m1", "U1", "O1");
    // O2 has a report already, contributed by someone else.
    store.users.push(User {
        uuid: String::from("U2"),
        email: String::from("b@x.com"),
        akey: String::new(),
        private_key: None,
    });
    add_membership(&mut store, "m2", "U2", "O2");
    let uid2 = String::from("U2");
    let entries2 = vec![(String::from("O2"), 7)];
    exposed(&mut store, &uid2, 0, &entries2, &fresh(2), 50);
    assert_eq!(org_count(&store, "O2"), Some(7));

    // U1 submits for O1 (member) and O2 (not a member).
    let entries = vec![(String::from("O1"), 4), (String::from("O2"), 999)];
    let fresh2: Vec<String> = (0..3).map(|i| format!("second-{}", i)).collect();
    exposed(&mut store, &uid, 1, &entries, &fresh2, 100);
    assert_eq!(org_count(&store, "O1"), Some(4));
    assert_eq!(org_count(&store, "O2"), Some(7));
}

#[test]
fn repeated_reports_overwrite_and_advance_timestamp() {
    let mut store = store_with_user("U1");
    let uid = String::from("U1");
    add_membership(&mut store, "m1", "U1", "O1");
    let entries = vec![(String::from("O1"), 5)];
    exposed(&mut store, &uid, 3, &entries, &fresh(2), 100);
    let first_uuid = store.reports[0].uuid.id.clone();
    let entries2 = vec![(String::from("O1"), 9)];
    let fresh2: Vec<String> = (0..2).map(|i| format!("later-{}", i)).collect();
    exposed(&mut store, &uid, 8, &entries2, &fresh2, 200);

    // Overwritten, not accumulated; still one row per key; identity kept.
    assert_eq!(store.reports.len(), 2);
    assert_eq!(personal_count(&store, "U1"), Some(8));
    assert_eq!(org_count(&store, "O1"), Some(9));
    let personal = store
        .reports
        .iter()
        .find(|r| r.user_uuid.as_deref() == Some("U1"))
        .unwrap();
    assert_eq!(personal.uuid.id, first_uuid);
    assert_eq!(personal.created_at, 100);
    assert_eq!(personal.last_updated_at, 200);
    assert!(personal.last_updated_at > 100);
}
