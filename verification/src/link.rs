//! Invite-link building: for a placeholder user, derive the transient invite
//! claim handed to the token signer, and build the onboarding URL around the
//! signed token. An already-onboarded user never gets a link.

use vstd::prelude::*;
use vstd::string::StringExecFns;

use crate::config::Config;
use crate::invite::FAKE_ADMIN_UUID;
use crate::store::User;

verus! {

/// The transient claim set handed to the token signer; never stored. The
/// organization and membership ids are the all-zero sentinel: the user has
/// no real organization yet. Expiry is the signer's default window, so it is
/// not carried here.
pub struct InviteClaim {
    pub user_id: String,
    pub email: String,
    pub org_id: String,
    pub member_id: String,
}

/// A failure of the builder itself.
#[derive(Clone, Copy, PartialEq, Eq, Structural, Debug)]
pub enum LinkError {
    /// The built URL would carry no query at all; defended against, proven
    /// never to happen.
    EmptyQuery,
}

/// What one lookup hands back: the user's email, and an onboarding URL
/// exactly when the account is still a placeholder.
pub struct InviteLink {
    pub email: String,
    pub url: Option<String>,
}

impl User {
    /// The claim set signed into an invite token for this user.
    pub fn make_invite_claim(&self) -> (c: InviteClaim)
        ensures
            c.user_id@ == self.uuid@,
            c.email@ == self.email@,
            c.org_id@ == FAKE_ADMIN_UUID@,
            c.member_id@ == FAKE_ADMIN_UUID@,
    {
        InviteClaim {
            user_id: self.uuid.clone(),
            email: self.email.clone(),
            org_id: String::from_str(FAKE_ADMIN_UUID),
            member_id: String::from_str(FAKE_ADMIN_UUID),
        }
    }
}

/// The conditional `orgUserHasExistingUser` query flag: `false` under
/// SSO-only login, `true` when the user has prior vault material and SSO-only
/// is off, absent otherwise.
pub open spec fn org_user_flag_spec(user: User, sso_only: bool) -> Option<bool> {
    if sso_only {
        Some(false)
    } else if user.private_key is Some {
        Some(true)
    } else {
        None
    }
}

/// The three cases of the `orgUserHasExistingUser` flag are mutually
/// exclusive and cover every input: `"false"` exactly under SSO-only,
/// `"true"` exactly for prior vault material without SSO-only, absent
/// exactly otherwise.
pub proof fn law_org_user_flag_cases(user: User, sso_only: bool)
    ensures
        org_user_flag_spec(user, sso_only) == Some(false) <==> sso_only,
        org_user_flag_spec(user, sso_only) == Some(true) <==> (!sso_only && user.private_key
            is Some),
        org_user_flag_spec(user, sso_only) is None <==> (!sso_only && user.private_key is None),
{
}

pub fn org_user_flag(user: &User, sso_only: bool) -> (r: Option<bool>)
    ensures
        r == org_user_flag_spec(*user, sso_only),
{
    if sso_only {
        Some(false)
    } else if user.private_key.is_some() {
        Some(true)
    } else {
        None
    }
}

/// What the flag appends to the query.
pub open spec fn flag_part_spec(flag: Option<bool>) -> Seq<char> {
    match flag {
        Some(true) => "&orgUserHasExistingUser=true"@,
        Some(false) => "&orgUserHasExistingUser=false"@,
        None => Seq::<char>::empty(),
    }
}

/// The onboarding URL's query: email, organization display name, the
/// sentinel organization and membership ids, the signed token, and the
/// conditional flag.
pub open spec fn invite_query_spec(
    email: Seq<char>,
    org_name: Seq<char>,
    token: Seq<char>,
    flag: Option<bool>,
) -> Seq<char> {
    "email="@ + email + "&organizationName="@ + org_name + "&organizationId="@
        + "00000000-0000-0000-0000-000000000000"@ + "&organizationUserId="@
        + "00000000-0000-0000-0000-000000000000"@ + "&token="@ + token + flag_part_spec(flag)
}

/// The absolute onboarding URL.
pub open spec fn invite_url_spec(
    base: Seq<char>,
    email: Seq<char>,
    org_name: Seq<char>,
    token: Seq<char>,
    flag: Option<bool>,
) -> Seq<char> {
    base + "/#/accept-organization?"@ + invite_query_spec(email, org_name, token, flag)
}

/// Build the onboarding link for a user, around an already-signed invite
/// token. A placeholder user (empty account-key) always gets a URL; an
/// onboarded user never does. The empty-query failure is defended against
/// and proven unreachable: the result is always `Ok`.
pub fn build_invite_link(user: &User, token: &String, config: &Config) -> (r: Result<
    InviteLink,
    LinkError,
>)
    ensures
        r matches Ok(link) ==> link.email@ == user.email@,
        r matches Ok(link) ==> (link.url is Some <==> user.is_uninitialized()),
        user.is_uninitialized() ==> (r matches Ok(link) && link.url matches Some(u) && u@
            == invite_url_spec(
            config.base_url@,
            user.email@,
            config.invitation_org_name@,
            token@,
            org_user_flag_spec(*user, config.sso_enabled),
        )),
        r is Ok,
{
    if !user.akey.as_str().is_empty() {
        return Ok(InviteLink { email: user.email.clone(), url: None });
    }
    let mut query = String::new();
    query.append("email=");
    query.append(user.email.as_str());
    query.append("&organizationName=");
    query.append(config.invitation_org_name.as_str());
    query.append("&organizationId=");
    query.append(FAKE_ADMIN_UUID);
    query.append("&organizationUserId=");
    query.append(FAKE_ADMIN_UUID);
    query.append("&token=");
    query.append(token.as_str());
    match org_user_flag(user, config.sso_enabled) {
        Some(true) => query.append("&orgUserHasExistingUser=true"),
        Some(false) => query.append("&orgUserHasExistingUser=false"),
        None => (),
    }
    proof {
        reveal_strlit("email=");
        assert(query@.len() > 0);
    }
    if query.as_str().is_empty() {
        // The parameters above are always appended, so an empty query cannot
        // occur; the check mirrors the service's defensive invariant.
        return Err(LinkError::EmptyQuery);
    }
    let mut url = config.base_url.clone();
    url.append("/#/accept-organization?");
    url.append(query.as_str());
    proof {
        assert(url@ =~= invite_url_spec(
            config.base_url@,
            user.email@,
            config.invitation_org_name@,
            token@,
            org_user_flag_spec(*user, config.sso_enabled),
        ));
    }
    Ok(InviteLink { email: user.email.clone(), url: Some(url) })
}

} // verus!
