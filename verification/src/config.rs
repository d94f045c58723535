//! Service configuration: immutable after startup, constructed once and
//! passed to the components that need it.

use vstd::prelude::*;

verus! {

/// Read-only service configuration.
pub struct Config {
    /// Whether outbound mail is enabled; decides how an invitation is
    /// dispatched.
    pub mail_enabled: bool,
    /// Whether the service only accepts single-sign-on logins.
    pub sso_enabled: bool,
    /// Display name carried in onboarding links.
    pub invitation_org_name: String,
    /// Absolute origin the onboarding URL is built on.
    pub base_url: String,
    /// Expected secret of the administrative guard, if configured.
    pub admin_token: Option<String>,
    /// Expected secret of the system-integration guard, if configured.
    pub vw_api_key: Option<String>,
}

} // verus!
