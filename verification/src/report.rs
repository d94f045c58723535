//! Exposed-credential report rows: one personal row per user, one
//! anonymized aggregate row per organization.

use vstd::prelude::*;

use crate::store::is_org_for;
use crate::store::is_personal_for;
use crate::store::Store;
use crate::time::MAX_TIMESTAMP;

verus! {

/// Opaque identifier of a report row.
pub struct ReportId {
    pub id: String,
}

/// A stored exposed-credential count. Exactly one of `user_uuid` (personal
/// shape) and `org_uuid` (organizational shape) is set; the count is never
/// negative; timestamps are seconds since the Unix epoch.
pub struct Report {
    pub uuid: ReportId,
    pub user_uuid: Option<String>,
    pub org_uuid: Option<String>,
    pub exposed_count: i32,
    pub created_at: i64,
    pub last_updated_at: i64,
}

/// A submitted count is clamped at zero before it is stored.
pub open spec fn clamp_count(c: int) -> int {
    if c < 0 {
        0
    } else {
        c
    }
}

impl Report {
    /// Exactly one of the two key fields is set.
    pub open spec fn shape_ok(self) -> bool {
        self.user_uuid is Some <==> self.org_uuid is None
    }

    /// What every stored row satisfies: a valid shape, a clamped count, and
    /// timestamps within the representable span.
    pub open spec fn wf(self) -> bool {
        &&& self.shape_ok()
        &&& self.exposed_count >= 0
        &&& 0 <= self.created_at <= MAX_TIMESTAMP
        &&& 0 <= self.last_updated_at <= MAX_TIMESTAMP
    }

    pub fn new_personal(user_uuid: String, exposed_count: i32, uuid: String, now: i64) -> (r: Report)
        requires
            0 <= now <= MAX_TIMESTAMP,
        ensures
            r.uuid.id@ == uuid@,
            r.user_uuid == Some(user_uuid),
            r.org_uuid is None,
            r.exposed_count == clamp_count(exposed_count as int),
            r.created_at == now,
            r.last_updated_at == now,
            r.wf(),
    {
        let count: i32 = if exposed_count < 0 { 0 } else { exposed_count };
        Report {
            uuid: ReportId { id: uuid },
            user_uuid: Some(user_uuid),
            org_uuid: None,
            exposed_count: count,
            created_at: now,
            last_updated_at: now,
        }
    }

    pub fn new_org(org_uuid: String, exposed_count: i32, uuid: String, now: i64) -> (r: Report)
        requires
            0 <= now <= MAX_TIMESTAMP,
        ensures
            r.uuid.id@ == uuid@,
            r.user_uuid is None,
            r.org_uuid == Some(org_uuid),
            r.exposed_count == clamp_count(exposed_count as int),
            r.created_at == now,
            r.last_updated_at == now,
            r.wf(),
    {
        let count: i32 = if exposed_count < 0 { 0 } else { exposed_count };
        Report {
            uuid: ReportId { id: uuid },
            user_uuid: None,
            org_uuid: Some(org_uuid),
            exposed_count: count,
            created_at: now,
            last_updated_at: now,
        }
    }

    /// Overwrite (never accumulate) the stored count, clamped at zero, and
    /// refresh the update timestamp.
    pub fn update_exposed_count(&mut self, new_count: i32, now: i64)
        requires
            0 <= now <= MAX_TIMESTAMP,
        ensures
            final(self).exposed_count == clamp_count(new_count as int),
            final(self).last_updated_at == now,
            final(self).uuid == old(self).uuid,
            final(self).user_uuid == old(self).user_uuid,
            final(self).org_uuid == old(self).org_uuid,
            final(self).created_at == old(self).created_at,
    {
        self.exposed_count = if new_count < 0 { 0 } else { new_count };
        self.last_updated_at = now;
    }

    /// Point lookup of the personal report row of one user (none or one in a
    /// well-formed store; this returns the first in row order).
    pub fn find_by_user_personal(user_uuid: &String, store: &Store) -> (r: Option<usize>)
        ensures
            match r {
                Some(i) => {
                    &&& i < store.reports@.len()
                    &&& is_personal_for(store.reports@[i as int], user_uuid@)
                    &&& forall|j: int|
                        0 <= j < i ==> !is_personal_for(#[trigger] store.reports@[j], user_uuid@)
                },
                None => forall|j: int|
                    0 <= j < store.reports@.len() ==> !is_personal_for(
                        #[trigger] store.reports@[j],
                        user_uuid@,
                    ),
            },
    {
        let n = store.reports.len();
        let mut k: usize = 0;
        while k < n
            invariant
                n == store.reports@.len(),
                k <= n,
                forall|j: int|
                    0 <= j < k ==> !is_personal_for(#[trigger] store.reports@[j], user_uuid@),
            decreases n - k,
        {
            let row = &store.reports[k];
            let hit = match (&row.user_uuid, &row.org_uuid) {
                (Some(u), None) => *u == *user_uuid,
                _ => false,
            };
            if hit {
                return Some(k);
            }
            k = k + 1;
        }
        None
    }

    /// Point lookup of the organizational report row of one organization
    /// (none or one in a well-formed store; this returns the first in row
    /// order).
    pub fn find_by_org(org_uuid: &String, store: &Store) -> (r: Option<usize>)
        ensures
            match r {
                Some(i) => {
                    &&& i < store.reports@.len()
                    &&& is_org_for(store.reports@[i as int], org_uuid@)
                    &&& forall|j: int|
                        0 <= j < i ==> !is_org_for(#[trigger] store.reports@[j], org_uuid@)
                },
                None => forall|j: int|
                    0 <= j < store.reports@.len() ==> !is_org_for(
                        #[trigger] store.reports@[j],
                        org_uuid@,
                    ),
            },
    {
        let n = store.reports.len();
        let mut k: usize = 0;
        while k < n
            invariant
                n == store.reports@.len(),
                k <= n,
                forall|j: int| 0 <= j < k ==> !is_org_for(#[trigger] store.reports@[j], org_uuid@),
            decreases n - k,
        {
            let row = &store.reports[k];
            let hit = match (&row.user_uuid, &row.org_uuid) {
                (None, Some(o)) => *o == *org_uuid,
                _ => false,
            };
            if hit {
                return Some(k);
            }
            k = k + 1;
        }
        None
    }

    /// Persist the row: an atomic upsert keyed by the row id. An existing
    /// row with the same id is overwritten in place; otherwise the row is
    /// appended.
    #[verifier::loop_isolation(false)]
    pub fn save(self, store: &mut Store)
        requires
            old(store).wf(),
            self.wf(),
            forall|j: int, u: Seq<char>|
                #![trigger is_personal_for(old(store).reports@[j], u)]
                0 <= j < old(store).reports@.len() && old(store).reports@[j].uuid.id@
                    != self.uuid.id@ && is_personal_for(self, u) ==> !is_personal_for(
                    old(store).reports@[j],
                    u,
                ),
            forall|j: int, o: Seq<char>|
                #![trigger is_org_for(old(store).reports@[j], o)]
                0 <= j < old(store).reports@.len() && old(store).reports@[j].uuid.id@
                    != self.uuid.id@ && is_org_for(self, o) ==> !is_org_for(
                    old(store).reports@[j],
                    o,
                ),
        ensures
            final(store).wf(),
            final(store).users@ == old(store).users@,
            final(store).memberships@ == old(store).memberships@,
            final(store).invitations@ == old(store).invitations@,
            old(store).has_report_uuid(self.uuid.id@) ==> exists|i: int|
                0 <= i < old(store).reports@.len() && old(store).reports@[i].uuid.id@
                    == self.uuid.id@ && final(store).reports@ == old(store).reports@.update(
                    i,
                    self,
                ),
            !old(store).has_report_uuid(self.uuid.id@) ==> final(store).reports@ == old(
                store,
            ).reports@.push(self),
    {
        let n = store.reports.len();
        let mut k: usize = 0;
        while k < n
            invariant
                *store == *old(store),
                n == store.reports@.len(),
                k <= n,
                forall|j: int| 0 <= j < k ==> #[trigger] store.reports@[j].uuid.id@ != self.uuid.id@,
            decreases n - k,
        {
            if store.reports[k].uuid.id == self.uuid.id {
                store.reports.set(k, self);
                proof {
                    let pre = old(store).reports@;
                    let post = store.reports@;
                    let ki = k as int;
                    assert(post == pre.update(ki, self));
                    assert(pre[ki].uuid.id@ == self.uuid.id@);
                    assert forall|i: int, j: int, u: Seq<char>|
                        #![trigger is_personal_for(post[i], u), is_personal_for(post[j], u)]
                        0 <= i < post.len() && 0 <= j < post.len() && i != j && is_personal_for(
                            post[i],
                            u,
                        ) implies !is_personal_for(post[j], u) by {
                        if i == ki {
                            assert(is_personal_for(self, u));
                            assert(pre[j].uuid.id@ != self.uuid.id@);
                            assert(!is_personal_for(pre[j], u));
                        } else if j == ki {
                            assert(is_personal_for(pre[i], u));
                            if is_personal_for(self, u) {
                                assert(pre[i].uuid.id@ != self.uuid.id@);
                                assert(!is_personal_for(pre[i], u));
                            }
                        } else {
                            assert(is_personal_for(pre[i], u));
                            assert(!is_personal_for(pre[j], u));
                        }
                    }
                    assert forall|i: int, j: int, o: Seq<char>|
                        #![trigger is_org_for(post[i], o), is_org_for(post[j], o)]
                        0 <= i < post.len() && 0 <= j < post.len() && i != j && is_org_for(
                            post[i],
                            o,
                        ) implies !is_org_for(post[j], o) by {
                        if i == ki {
                            assert(is_org_for(self, o));
                            assert(pre[j].uuid.id@ != self.uuid.id@);
                            assert(!is_org_for(pre[j], o));
                        } else if j == ki {
                            assert(is_org_for(pre[i], o));
                            if is_org_for(self, o) {
                                assert(pre[i].uuid.id@ != self.uuid.id@);
                                assert(!is_org_for(pre[i], o));
                            }
                        } else {
                            assert(is_org_for(pre[i], o));
                            assert(!is_org_for(pre[j], o));
                        }
                    }
                }
                return ;
            }
            k = k + 1;
        }
        store.reports.push(self);
    }
}

impl Clone for ReportId {
    fn clone(&self) -> (r: ReportId)
        ensures
            r == *self,
    {
        ReportId { id: self.id.clone() }
    }
}

/// A one-for-one copy of an optional id.
fn clone_opt_string(s: &Option<String>) -> (r: Option<String>)
    ensures
        r == *s,
{
    match s {
        Some(x) => Some(x.clone()),
        None => None,
    }
}

impl Clone for Report {
    fn clone(&self) -> (r: Report)
        ensures
            r == *self,
    {
        Report {
            uuid: self.uuid.clone(),
            user_uuid: clone_opt_string(&self.user_uuid),
            org_uuid: clone_opt_string(&self.org_uuid),
            exposed_count: self.exposed_count,
            created_at: self.created_at,
            last_updated_at: self.last_updated_at,
        }
    }
}

} // verus!
