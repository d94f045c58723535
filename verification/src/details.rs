//! Status summarizer: the read-only dashboard view of one user, composed
//! from point lookups. A user is modeled as belonging to at most one
//! organization for this view: only the first membership row is consulted.

use vstd::prelude::*;

use crate::report::Report;
use crate::store::is_org_for;
use crate::store::Store;
use crate::time::format_rfc3339;
use crate::time::rfc3339_of;

verus! {

/// Activation status shown on the dashboard.
#[derive(Clone, Copy, PartialEq, Eq, Structural, Debug)]
pub enum UserStatus {
    /// The user holds no membership yet.
    Pending,
    /// The user holds at least one membership.
    Active,
}

impl UserStatus {
    /// The status's wire name.
    pub fn as_str(&self) -> (r: &'static str)
        ensures
            *self is Pending ==> r@ == "Pending"@,
            *self is Active ==> r@ == "Active"@,
    {
        match self {
            UserStatus::Pending => "Pending",
            UserStatus::Active => "Active",
        }
    }
}

/// Why the summarizer failed.
#[derive(Clone, Copy, PartialEq, Eq, Structural, Debug)]
pub enum DetailsError {
    /// No user row carries the requested id.
    UserNotFound,
}

/// The dashboard view: activation status, the user's organization (if any),
/// that organization's member count, and its latest exposure report.
pub struct UserDetails {
    pub status: UserStatus,
    pub org_id: Option<String>,
    pub members_count: usize,
    pub exposed_count: i32,
    pub last_updated_at: Option<String>,
}

/// The fields derived from one organization: its id, its member count, and
/// its report's count and update time (zero and absent without a report).
pub open spec fn org_view_ok(store: Store, org: Seq<char>, d: UserDetails) -> bool {
    &&& d.org_id matches Some(o) && o@ == org
    &&& d.members_count == store.org_member_count_spec(org)
    &&& (exists|i: int| 0 <= i < store.reports@.len() && is_org_for(#[trigger] store.reports@[i], org))
        ==> (exists|i: int|
        {
            &&& 0 <= i < store.reports@.len()
            &&& is_org_for(#[trigger] store.reports@[i], org)
            &&& d.exposed_count == store.reports@[i].exposed_count
            &&& d.last_updated_at matches Some(s) && s@ == rfc3339_of(
                store.reports@[i].last_updated_at as int,
            )
        })
    &&& (forall|i: int|
        0 <= i < store.reports@.len() ==> !is_org_for(#[trigger] store.reports@[i], org)) ==> {
        &&& d.exposed_count == 0
        &&& d.last_updated_at is None
    }
}

/// Derive the dashboard view of one user: `Pending` with an empty
/// organization view when the user holds no membership, else `Active` with
/// the view of the first membership's organization.
pub fn get_user_details(store: &Store, user_id: &String) -> (r: Result<UserDetails, DetailsError>)
    requires
        store.wf(),
    ensures
        r is Err <==> !store.has_user_uuid(user_id@),
        r matches Ok(d) ==> {
            &&& d.status is Active <==> store.has_membership(user_id@)
            &&& !store.has_membership(user_id@) ==> {
                &&& d.status is Pending
                &&& d.org_id is None
                &&& d.members_count == 0
                &&& d.exposed_count == 0
                &&& d.last_updated_at is None
            }
            &&& store.has_membership(user_id@) ==> exists|m: int|
                {
                    &&& 0 <= m < store.memberships@.len()
                    &&& (#[trigger] store.memberships@[m]).user_uuid@ == user_id@
                    &&& forall|j: int|
                        0 <= j < m ==> #[trigger] store.memberships@[j].user_uuid@ != user_id@
                    &&& org_view_ok(*store, store.memberships@[m].org_uuid@, d)
                }
        },
{
    if store.find_user_by_uuid(user_id).is_none() {
        return Err(DetailsError::UserNotFound);
    }
    match store.first_membership_of(user_id) {
        None => Ok(
            UserDetails {
                status: UserStatus::Pending,
                org_id: None,
                members_count: 0,
                exposed_count: 0,
                last_updated_at: None,
            },
        ),
        Some(m) => {
            let org_uuid = &store.memberships[m].org_uuid;
            let members_count = store.count_org_members(org_uuid);
            let (exposed_count, last_updated_at): (i32, Option<String>) = match Report::find_by_org(
                org_uuid,
                store,
            ) {
                Some(i) => {
                    let row = &store.reports[i];
                    (row.exposed_count, Some(format_rfc3339(row.last_updated_at)))
                },
                None => (0, None),
            };
            let d = UserDetails {
                status: UserStatus::Active,
                org_id: Some(org_uuid.clone()),
                members_count,
                exposed_count,
                last_updated_at,
            };
            Ok(d)
        },
    }
}

} // verus!
