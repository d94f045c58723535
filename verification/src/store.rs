//! In-memory model of the credential store: users, memberships, pending
//! invitation records and exposure reports, with point lookups and the
//! well-formedness invariant every operation preserves.

use vstd::prelude::*;

use crate::report::Report;

verus! {

/// An account. `akey` is empty until the owner completes onboarding; such a
/// user is a placeholder.
pub struct User {
    pub uuid: String,
    pub email: String,
    pub akey: String,
    pub private_key: Option<String>,
}

impl User {
    /// A placeholder account: created by an invitation, not yet onboarded.
    pub open spec fn is_uninitialized(self) -> bool {
        self.akey@.len() == 0
    }
}

/// Links a user to an organization; read here only for authorization and
/// status derivation, never written.
pub struct Membership {
    pub uuid: String,
    pub user_uuid: String,
    pub org_uuid: String,
}

/// The personal report row for `user` carries that user and no organization.
pub open spec fn is_personal_for(r: Report, user: Seq<char>) -> bool {
    r.user_uuid matches Some(u) && u@ == user && r.org_uuid is None
}

/// The organizational report row for `org` carries that organization and no
/// user identity.
pub open spec fn is_org_for(r: Report, org: Seq<char>) -> bool {
    r.user_uuid is None && (r.org_uuid matches Some(o) && o@ == org)
}

/// At most one personal row per user and one organizational row per
/// organization.
pub open spec fn reports_unique_keys(reports: Seq<Report>) -> bool {
    &&& forall|i: int, j: int, u: Seq<char>|
        #![trigger is_personal_for(reports[i], u), is_personal_for(reports[j], u)]
        0 <= i < reports.len() && 0 <= j < reports.len() && i != j
            && is_personal_for(reports[i], u) ==> !is_personal_for(reports[j], u)
    &&& forall|i: int, j: int, o: Seq<char>|
        #![trigger is_org_for(reports[i], o), is_org_for(reports[j], o)]
        0 <= i < reports.len() && 0 <= j < reports.len() && i != j
            && is_org_for(reports[i], o) ==> !is_org_for(reports[j], o)
}

/// Durable state, modeled as plain rows.
pub struct Store {
    pub users: Vec<User>,
    pub memberships: Vec<Membership>,
    /// Emails with a pending local invitation record (written when outbound
    /// mail is disabled).
    pub invitations: Vec<String>,
    pub reports: Vec<Report>,
}

impl Store {
    /// Row invariants: unique user emails and uuids, well-formed report rows
    /// with unique row ids and unique personal/organizational keys.
    pub open spec fn wf(self) -> bool {
        &&& forall|i: int, j: int|
            0 <= i < self.users@.len() && 0 <= j < self.users@.len() && i != j
                ==> #[trigger] self.users@[i].email@ != #[trigger] self.users@[j].email@
        &&& forall|i: int, j: int|
            0 <= i < self.users@.len() && 0 <= j < self.users@.len() && i != j
                ==> #[trigger] self.users@[i].uuid@ != #[trigger] self.users@[j].uuid@
        &&& forall|i: int| 0 <= i < self.reports@.len() ==> (#[trigger] self.reports@[i]).wf()
        &&& forall|i: int, j: int|
            0 <= i < self.reports@.len() && 0 <= j < self.reports@.len() && i != j
                ==> #[trigger] self.reports@[i].uuid.id@ != #[trigger] self.reports@[j].uuid.id@
        &&& reports_unique_keys(self.reports@)
    }

    /// Some user row carries this email.
    pub open spec fn has_user_email(self, email: Seq<char>) -> bool {
        exists|i: int| 0 <= i < self.users@.len() && #[trigger] self.users@[i].email@ == email
    }

    /// Some user row carries this uuid.
    pub open spec fn has_user_uuid(self, uuid: Seq<char>) -> bool {
        exists|i: int| 0 <= i < self.users@.len() && #[trigger] self.users@[i].uuid@ == uuid
    }

    /// Some report row carries this row id.
    pub open spec fn has_report_uuid(self, id: Seq<char>) -> bool {
        exists|i: int| 0 <= i < self.reports@.len() && #[trigger] self.reports@[i].uuid.id@ == id
    }

    /// The user belongs to the organization.
    pub open spec fn is_member_spec(self, user: Seq<char>, org: Seq<char>) -> bool {
        exists|i: int|
            0 <= i < self.memberships@.len()
                && (#[trigger] self.memberships@[i]).user_uuid@ == user
                && self.memberships@[i].org_uuid@ == org
    }

    pub fn new() -> (s: Store)
        ensures
            s.users@.len() == 0,
            s.memberships@.len() == 0,
            s.invitations@.len() == 0,
            s.reports@.len() == 0,
            s.wf(),
    {
        Store { users: Vec::new(), memberships: Vec::new(), invitations: Vec::new(), reports: Vec::new() }
    }

    /// Point lookup of a user row by exact email match.
    pub fn find_user_by_mail(&self, email: &String) -> (r: Option<usize>)
        ensures
            match r {
                Some(i) => i < self.users@.len() && self.users@[i as int].email@ == email@,
                None => !self.has_user_email(email@),
            },
    {
        let n = self.users.len();
        let mut k: usize = 0;
        while k < n
            invariant
                n == self.users@.len(),
                k <= n,
                forall|j: int| 0 <= j < k ==> #[trigger] self.users@[j].email@ != email@,
            decreases n - k,
        {
            if self.users[k].email == *email {
                return Some(k);
            }
            k = k + 1;
        }
        None
    }

    /// Point lookup of a user row by uuid.
    pub fn find_user_by_uuid(&self, uuid: &String) -> (r: Option<usize>)
        ensures
            match r {
                Some(i) => i < self.users@.len() && self.users@[i as int].uuid@ == uuid@,
                None => !self.has_user_uuid(uuid@),
            },
    {
        let n = self.users.len();
        let mut k: usize = 0;
        while k < n
            invariant
                n == self.users@.len(),
                k <= n,
                forall|j: int| 0 <= j < k ==> #[trigger] self.users@[j].uuid@ != uuid@,
            decreases n - k,
        {
            if self.users[k].uuid == *uuid {
                return Some(k);
            }
            k = k + 1;
        }
        None
    }

    /// The first membership row of the user, in row order: the stable
    /// arbitrary choice the status view is derived from.
    pub fn first_membership_of(&self, user_uuid: &String) -> (r: Option<usize>)
        ensures
            match r {
                Some(i) => {
                    &&& i < self.memberships@.len()
                    &&& self.memberships@[i as int].user_uuid@ == user_uuid@
                    &&& forall|j: int|
                        0 <= j < i ==> #[trigger] self.memberships@[j].user_uuid@ != user_uuid@
                },
                None => forall|j: int|
                    0 <= j < self.memberships@.len()
                        ==> #[trigger] self.memberships@[j].user_uuid@ != user_uuid@,
            },
    {
        let n = self.memberships.len();
        let mut k: usize = 0;
        while k < n
            invariant
                n == self.memberships@.len(),
                k <= n,
                forall|j: int| 0 <= j < k ==> #[trigger] self.memberships@[j].user_uuid@ != user_uuid@,
            decreases n - k,
        {
            if self.memberships[k].user_uuid == *user_uuid {
                return Some(k);
            }
            k = k + 1;
        }
        None
    }

    /// How many membership rows the user holds.
    pub open spec fn membership_count_spec(self, user: Seq<char>) -> int {
        count_user_memberships(self.memberships@, user)
    }

    /// How many membership rows the organization holds.
    pub open spec fn org_member_count_spec(self, org: Seq<char>) -> int {
        count_org_memberships(self.memberships@, org)
    }

    /// Whether the user holds any membership at all.
    pub open spec fn has_membership(self, user: Seq<char>) -> bool {
        exists|i: int|
            0 <= i < self.memberships@.len() && (#[trigger] self.memberships@[i]).user_uuid@ == user
    }

    /// Count of all memberships in one organization (its member count).
    pub fn count_org_members(&self, org_uuid: &String) -> (r: usize)
        ensures
            r == self.org_member_count_spec(org_uuid@),
    {
        let n = self.memberships.len();
        let mut k: usize = 0;
        let mut acc: usize = 0;
        proof {
            assert(self.memberships@.take(0) =~= Seq::<Membership>::empty());
        }
        while k < n
            invariant
                n == self.memberships@.len(),
                k <= n,
                acc == count_org_memberships(self.memberships@.take(k as int), org_uuid@),
                acc <= k,
            decreases n - k,
        {
            proof {
                assert(self.memberships@.take(k + 1).drop_last() =~= self.memberships@.take(
                    k as int,
                ));
                assert(self.memberships@.take(k + 1).last() == self.memberships@[k as int]);
            }
            if self.memberships[k].org_uuid == *org_uuid {
                acc = acc + 1;
            }
            k = k + 1;
        }
        proof {
            assert(self.memberships@.take(n as int) =~= self.memberships@);
        }
        acc
    }

    /// Authorization gate: does the user hold a membership in the
    /// organization?
    pub fn is_member(&self, user_uuid: &String, org_uuid: &String) -> (r: bool)
        ensures
            r == self.is_member_spec(user_uuid@, org_uuid@),
    {
        let n = self.memberships.len();
        let mut k: usize = 0;
        while k < n
            invariant
                n == self.memberships@.len(),
                k <= n,
                forall|j: int|
                    0 <= j < k
                        ==> !((#[trigger] self.memberships@[j]).user_uuid@ == user_uuid@
                        && self.memberships@[j].org_uuid@ == org_uuid@),
            decreases n - k,
        {
            if self.memberships[k].user_uuid == *user_uuid && self.memberships[k].org_uuid
                == *org_uuid {
                return true;
            }
            k = k + 1;
        }
        false
    }
}

/// A well-formed store never holds a negative exposed count, whatever was
/// submitted: every stored row's count was clamped at zero on the way in.
pub proof fn law_counts_never_negative(s: Store)
    requires
        s.wf(),
    ensures
        forall|i: int| 0 <= i < s.reports@.len() ==> (#[trigger] s.reports@[i]).exposed_count >= 0,
{
}

/// Number of membership rows of one user in a row sequence.
pub open spec fn count_user_memberships(membs: Seq<Membership>, user: Seq<char>) -> int
    decreases membs.len(),
{
    if membs.len() == 0 {
        0
    } else {
        count_user_memberships(membs.drop_last(), user) + if membs.last().user_uuid@ == user {
            1int
        } else {
            0int
        }
    }
}

/// Number of membership rows of one organization in a row sequence.
pub open spec fn count_org_memberships(membs: Seq<Membership>, org: Seq<char>) -> int
    decreases membs.len(),
{
    if membs.len() == 0 {
        0
    } else {
        count_org_memberships(membs.drop_last(), org) + if membs.last().org_uuid@ == org {
            1int
        } else {
            0int
        }
    }
}

} // verus!
