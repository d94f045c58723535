//! Exposure-reporting and invitation-issuance core of a multi-tenant
//! account service: placeholder-user provisioning, onboarding-link
//! construction, and clamped, membership-authorized exposure-count
//! aggregation, over an in-memory model of the credential store.

pub mod config;
pub mod details;
pub mod exposed;
pub mod guard;
pub mod invite;
pub mod link;
pub mod report;
pub mod store;
pub mod time;

pub use config::Config;
pub use details::DetailsError;
pub use details::UserDetails;
pub use details::UserStatus;
pub use guard::GuardError;
pub use guard::VWApi;
pub use invite::InviteStep;
pub use link::InviteClaim;
pub use link::InviteLink;
pub use link::LinkError;
pub use report::Report;
pub use report::ReportId;
pub use store::Membership;
pub use store::Store;
pub use store::User;
