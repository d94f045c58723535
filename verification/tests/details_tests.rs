use exposure_core::details::get_user_details;
use exposure_core::DetailsError;
use exposure_core::Membership;
use exposure_core::Report;
use exposure_core::Store;
use exposure_core::User;
use exposure_core::UserStatus;

fn user(uuid: &str, email: &str) -> User {
    User {
        uuid: String::from(uuid),
        email: String::from(email),
        akey: String::new(),
        private_key: None,
    }
}

fn membership(muuid: &str, user: &str, org: &str) -> Membership {
    Membership {
        uuid: String::from(muuid),
        user_uuid: String::from(user),
        org_uuid: String::from(org),
    }
}

#[test]
fn unknown_user_is_not_found() {
    let store = Store::new();
    let uid = String::from("missing");
    assert!(matches!(get_user_details(&store, &uid), Err(DetailsError::UserNotFound)));
}

#[test]
fn user_without_membership_is_pending_and_empty() {
    let mut store = Store::new();
    store.users.push(user("U1", "a@x.com"));
    let uid = String::from("U1");
    let d = get_user_details(&store, &uid).unwrap();
    assert_eq!(d.status, UserStatus::Pending);
    assert_eq!(d.status.as_str(), "Pending");
    assert!(d.org_id.is_none());
    assert_eq!(d.members_count, 0);
    assert_eq!(d.exposed_count, 0);
    assert!(d.last_updated_at.is_none());
}

#[test]
fn member_is_active_with_org_size_and_report() {
    let mut store = Store::new();
    store.users.push(user("U1", "a@x.com"));
    store.users.push(user("U2", "b@x.com"));
    store.memberships.push(membership("m1", "U1", "O1"));
    store.memberships.push(membership("m2", "U2", "O1"));
    store.reports.push(Report::new_org(String::from("O1"), 12, String::from("r1"), 5));
    let uid = String::from("U1");
    let d = get_user_details(&store, &uid).unwrap();
    assert_eq!(d.status, UserStatus::Active);
    assert_eq!(d.status.as_str(), "Active");
    assert_eq!(d.org_id.as_deref(), Some("O1"));
    assert_eq!(d.members_count, 2);
    assert_eq!(d.exposed_count, 12);
    // Rendered by the real formatter: five seconds past the epoch.
    assert_eq!(d.last_updated_at.as_deref(), Some("1970-01-01T00:00:05+00:00"));
}

#[test]
fn member_without_report_sees_zero() {
    let mut store = Store::new();
    store.users.push(user("U1", "a@x.com"));
    store.memberships.push(membership("m1", "U1", "O1"));
    let uid = String::from("U1");
    let d = get_user_details(&store, &uid).unwrap();
    assert_eq!(d.status, UserStatus::Active);
    assert_eq!(d.org_id.as_deref(), Some("O1"));
    assert_eq!(d.members_count, 1);
    assert_eq!(d.exposed_count, 0);
    assert!(d.last_updated_at.is_none());
}

#[test]
fn first_membership_decides_the_view() {
    let mut store = Store::new();
    store.users.push(user("U1", "a@x.com"));
    store.memberships.push(membership("m1", "U1", "O1"));
    store.memberships.push(membership("m2", "U1", "O2"));
    let uid = String::from("U1");
    let d = get_user_details(&store, &uid).unwrap();
    assert_eq!(d.org_id.as_deref(), Some("O1"));
}

#[test]
fn personal_reports_do_not_feed_the_org_view() {
    let mut store = Store::new();
    store.users.push(user("U1", "a@x.com"));
    store.memberships.push(membership("m1", "U1", "O1"));
    store.reports.push(Report::new_personal(String::from("U1"), 9, String::from("r1"), 5));
    let uid = String::from("U1");
    let d = get_user_details(&store, &uid).unwrap();
    // The dashboard reads the anonymized organizational report only.
    assert_eq!(d.exposed_count, 0);
    assert!(d.last_updated_at.is_none());
}
