use exposure_core::link::build_invite_link;
use exposure_core::link::org_user_flag;
use exposure_core::Config;
use exposure_core::User;

fn config(sso_enabled: bool) -> Config {
    Config {
        mail_enabled: true,
        sso_enabled,
        invitation_org_name: String::from("Acme"),
        base_url: String::from("https://vault.example.com"),
        admin_token: None,
        vw_api_key: None,
    }
}

fn placeholder_user() -> User {
    User {
        uuid: String::from("u1"),
        email: String::from("a@x.com"),
        akey: String::new(),
        private_key: None,
    }
}

#[test]
fn placeholder_user_always_gets_a_link() {
    let user = placeholder_user();
    let token = String::from("TOK");
    let link = build_invite_link(&user, &token, &config(false)).unwrap();
    assert_eq!(link.email, "a@x.com");
    assert!(link.url.is_some());
}

#[test]
fn onboarded_user_never_gets_a_link() {
    let mut user = placeholder_user();
    user.akey = String::from("master-key-material");
    let token = String::from("TOK");
    let link = build_invite_link(&user, &token, &config(false)).unwrap();
    assert_eq!(link.email, "a@x.com");
    assert!(link.url.is_none());
}

#[test]
fn url_carries_every_parameter() {
    let user = placeholder_user();
    let token = String::from("TOK");
    let link = build_invite_link(&user, &token, &config(false)).unwrap();
    let url = link.url.unwrap();
    let expected = String::from("https://vault.example.com/#/accept-organization?")
        + "email=a@x.com"
        + "&organizationName=Acme"
        + "&organizationId=00000000-0000-0000-0000-000000000000"
        + "&organizationUserId=00000000-0000-0000-0000-000000000000"
        + "&token=TOK";
    assert_eq!(url, expected);
}

#[test]
fn flag_is_false_under_sso_only() {
    let user = placeholder_user();
    assert_eq!(org_user_flag(&user, true), Some(false));
    let token = String::from("TOK");
    let link = build_invite_link(&user, &token, &config(true)).unwrap();
    let url = link.url.unwrap();
    assert!(url.ends_with("&orgUserHasExistingUser=false"));
}

#[test]
fn flag_is_true_with_vault_material_and_no_sso() {
    let mut user = placeholder_user();
    user.private_key = Some(String::from("pk"));
    assert_eq!(org_user_flag(&user, false), Some(true));
    let token = String::from("TOK");
    let link = build_invite_link(&user, &token, &config(false)).unwrap();
    let url = link.url.unwrap();
    assert!(url.ends_with("&orgUserHasExistingUser=true"));
}

#[test]
fn flag_is_absent_otherwise() {
    let user = placeholder_user();
    assert_eq!(org_user_flag(&user, false), None);
    let token = String::from("TOK");
    let link = build_invite_link(&user, &token, &config(false)).unwrap();
    let url = link.url.unwrap();
    assert!(!url.contains("orgUserHasExistingUser"));
}

#[test]
fn sso_only_wins_over_vault_material() {
    let mut user = placeholder_user();
    user.private_key = Some(String::from("pk"));
    assert_eq!(org_user_flag(&user, true), Some(false));
}

#[test]
fn claim_uses_sentinel_organization() {
    let user = placeholder_user();
    let claim = user.make_invite_claim();
    assert_eq!(claim.user_id, "u1");
    assert_eq!(claim.email, "a@x.com");
    assert_eq!(claim.org_id, "00000000-0000-0000-0000-000000000000");
    assert_eq!(claim.member_id, "00000000-0000-0000-0000-000000000000");
}
