use exposure_core::details::get_user_details;
use exposure_core::exposed::exposed;
use exposure_core::invite::invite_user;
use exposure_core::InviteStep;
use exposure_core::Membership;
use exposure_core::Store;
use exposure_core::UserStatus;

#[test]
fn invite_report_and_summarize() {
    let mut store = Store::new();

    // Provision a placeholder account.
    let step = invite_user(&mut store, String::from("a@x.com"), String::from("U1"), false);
    let user_id = match step {
        InviteStep::Completed { user_id } => user_id,
        _ => panic!("expected a new user"),
    };
    assert_eq!(user_id, "U1");

    // The user later joins an organization (written by the wider system).
    store.memberships.push(Membership {
        uuid: String::from("m1"),
        user_uuid: String::from("U1"),
        org_uuid: String::from("O1"),
    });

    // A monitoring client reports exposures.
    let entries = vec![(String::from("O1"), 4)];
    let fresh = vec![String::from("r1"), String::from("r2")];
    let uid = String::from("U1");
    exposed(&mut store, &uid, 2, &entries, &fresh, 60);

    // The dashboard reflects the membership and the organizational count.
    let d = get_user_details(&store, &uid).unwrap();
    assert_eq!(d.status, UserStatus::Active);
    assert_eq!(d.org_id.as_deref(), Some("O1"));
    assert_eq!(d.members_count, 1);
    assert_eq!(d.exposed_count, 4);
    assert_eq!(d.last_updated_at.as_deref(), Some("1970-01-01T00:01:00+00:00"));
}
