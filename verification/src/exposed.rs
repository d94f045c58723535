//! Exposure aggregation: record per-user and per-organization
//! exposed-credential counts submitted by a reporting client. Counts are
//! clamped at zero and overwrite (never accumulate); an entry for an
//! organization the reporting user does not belong to is silently dropped;
//! an unknown reporting user makes the whole call a silent no-op.

use vstd::prelude::*;

use crate::report::clamp_count;
use crate::report::Report;
use crate::store::is_org_for;
use crate::store::is_personal_for;
use crate::store::Store;
use crate::time::MAX_TIMESTAMP;

verus! {

/// The personal report rows of `user` are the same rows, untouched, at the
/// same positions.
pub open spec fn personal_rows_unchanged(pre: Seq<Report>, post: Seq<Report>, user: Seq<char>) -> bool {
    &&& forall|i: int|
        0 <= i < post.len() && is_personal_for(#[trigger] post[i], user) ==> 0 <= i < pre.len()
            && post[i] == pre[i]
    &&& forall|i: int|
        0 <= i < pre.len() && is_personal_for(#[trigger] pre[i], user) ==> i < post.len() && post[i]
            == pre[i]
}

/// The organizational report rows of `org` are the same rows, untouched, at
/// the same positions.
pub open spec fn org_rows_unchanged(pre: Seq<Report>, post: Seq<Report>, org: Seq<char>) -> bool {
    &&& forall|i: int|
        0 <= i < post.len() && is_org_for(#[trigger] post[i], org) ==> 0 <= i < pre.len() && post[i]
            == pre[i]
    &&& forall|i: int|
        0 <= i < pre.len() && is_org_for(#[trigger] pre[i], org) ==> i < post.len() && post[i]
            == pre[i]
}

/// After the step, `user` has a personal row holding the clamped count and
/// the fresh timestamp; if a personal row existed before, its identity and
/// creation time were kept (updated in place, not replaced).
pub open spec fn personal_upserted(
    pre: Seq<Report>,
    post: Seq<Report>,
    user: Seq<char>,
    c: int,
    now: int,
) -> bool {
    exists|i: int|
        {
            &&& 0 <= i < post.len()
            &&& is_personal_for(#[trigger] post[i], user)
            &&& post[i].exposed_count == clamp_count(c)
            &&& post[i].last_updated_at == now
            &&& forall|j: int|
                0 <= j < pre.len() && is_personal_for(#[trigger] pre[j], user) ==> post[i].uuid
                    == pre[j].uuid && post[i].created_at == pre[j].created_at
        }
}

/// The organizational counterpart of `personal_upserted`.
pub open spec fn org_upserted(
    pre: Seq<Report>,
    post: Seq<Report>,
    org: Seq<char>,
    c: int,
    now: int,
) -> bool {
    exists|i: int|
        {
            &&& 0 <= i < post.len()
            &&& is_org_for(#[trigger] post[i], org)
            &&& post[i].exposed_count == clamp_count(c)
            &&& post[i].last_updated_at == now
            &&& forall|j: int|
                0 <= j < pre.len() && is_org_for(#[trigger] pre[j], org) ==> post[i].uuid
                    == pre[j].uuid && post[i].created_at == pre[j].created_at
        }
}

/// Some submitted entry names this organization and the reporting user
/// belongs to it: only then may the organization's row change.
pub open spec fn org_submitted_authorized(
    s: Store,
    user: Seq<char>,
    entries: Seq<(String, i32)>,
    org: Seq<char>,
) -> bool {
    exists|k: int|
        0 <= k < entries.len() && (#[trigger] entries[k]).0@ == org && s.is_member_spec(user, org)
}

/// Update-or-create the personal report row of one user.
#[verifier::loop_isolation(false)]
fn upsert_personal_report(
    store: &mut Store,
    user_uuid: &String,
    count: i32,
    fresh_uuid: String,
    now: i64,
)
    requires
        old(store).wf(),
        0 <= now <= MAX_TIMESTAMP,
        !old(store).has_report_uuid(fresh_uuid@),
    ensures
        final(store).wf(),
        final(store).users@ == old(store).users@,
        final(store).memberships@ == old(store).memberships@,
        final(store).invitations@ == old(store).invitations@,
        personal_upserted(
            old(store).reports@,
            final(store).reports@,
            user_uuid@,
            count as int,
            now as int,
        ),
        forall|u: Seq<char>|
            u != user_uuid@ ==> #[trigger] personal_rows_unchanged(
                old(store).reports@,
                final(store).reports@,
                u,
            ),
        forall|o: Seq<char>|
            #[trigger] org_rows_unchanged(old(store).reports@, final(store).reports@, o),
        forall|i: int|
            0 <= i < final(store).reports@.len() ==> old(store).has_report_uuid(
                (#[trigger] final(store).reports@[i]).uuid.id@,
            ) || final(store).reports@[i].uuid.id@ == fresh_uuid@,
{
    match Report::find_by_user_personal(user_uuid, store) {
        Some(i) => {
            let mut row = store.reports[i].clone();
            row.update_exposed_count(count, now);
            proof {
                let pre = store.reports@;
                let ki = i as int;
                assert forall|j: int, u: Seq<char>|
                    #![trigger is_personal_for(pre[j], u)]
                    0 <= j < pre.len() && pre[j].uuid.id@ != row.uuid.id@ && is_personal_for(
                        row,
                        u,
                    ) implies !is_personal_for(pre[j], u) by {
                    if is_personal_for(pre[j], u) {
                        assert(u == user_uuid@);
                        assert(is_personal_for(pre[ki], u));
                        assert(j == ki);
                    }
                }
            }
            row.save(store);
            proof {
                let pre = old(store).reports@;
                let post = store.reports@;
                let ki = i as int;
                assert(pre[ki].uuid.id@ == row.uuid.id@);
                assert(old(store).has_report_uuid(row.uuid.id@));
                let si = choose|si: int|
                    0 <= si < pre.len() && pre[si].uuid.id@ == row.uuid.id@ && post == pre.update(
                        si,
                        row,
                    );
                assert(si == ki);
                assert(is_personal_for(post[ki], user_uuid@));
                assert forall|j: int|
                    0 <= j < pre.len() && is_personal_for(#[trigger] pre[j], user_uuid@) implies post[ki].uuid
                    == pre[j].uuid && post[ki].created_at == pre[j].created_at by {
                    if j != ki {
                        assert(is_personal_for(pre[ki], user_uuid@));
                        assert(!is_personal_for(pre[j], user_uuid@));
                    }
                }
                assert(personal_upserted(pre, post, user_uuid@, count as int, now as int));
            }
        },
        None => {
            let row = Report::new_personal(user_uuid.clone(), count, fresh_uuid, now);
            proof {
                let pre = store.reports@;
                assert forall|j: int, u: Seq<char>|
                    #![trigger is_personal_for(pre[j], u)]
                    0 <= j < pre.len() && pre[j].uuid.id@ != row.uuid.id@ && is_personal_for(
                        row,
                        u,
                    ) implies !is_personal_for(pre[j], u) by {
                    if is_personal_for(pre[j], u) {
                        assert(u == user_uuid@);
                    }
                }
                assert(!old(store).has_report_uuid(row.uuid.id@));
            }
            row.save(store);
            proof {
                let pre = old(store).reports@;
                let post = store.reports@;
                let ni = pre.len() as int;
                assert(post == pre.push(row));
                assert(post[ni] == row);
                assert(is_personal_for(post[ni], user_uuid@));
                assert(personal_upserted(pre, post, user_uuid@, count as int, now as int));
            }
        },
    }
}

/// Update-or-create the organizational report row of one organization.
#[verifier::loop_isolation(false)]
fn upsert_org_report(store: &mut Store, org_uuid: &String, count: i32, fresh_uuid: String, now: i64)
    requires
        old(store).wf(),
        0 <= now <= MAX_TIMESTAMP,
        !old(store).has_report_uuid(fresh_uuid@),
    ensures
        final(store).wf(),
        final(store).users@ == old(store).users@,
        final(store).memberships@ == old(store).memberships@,
        final(store).invitations@ == old(store).invitations@,
        org_upserted(
            old(store).reports@,
            final(store).reports@,
            org_uuid@,
            count as int,
            now as int,
        ),
        forall|o: Seq<char>|
            o != org_uuid@ ==> #[trigger] org_rows_unchanged(
                old(store).reports@,
                final(store).reports@,
                o,
            ),
        forall|u: Seq<char>|
            #[trigger] personal_rows_unchanged(old(store).reports@, final(store).reports@, u),
        forall|i: int|
            0 <= i < final(store).reports@.len() ==> old(store).has_report_uuid(
                (#[trigger] final(store).reports@[i]).uuid.id@,
            ) || final(store).reports@[i].uuid.id@ == fresh_uuid@,
{
    match Report::find_by_org(org_uuid, store) {
        Some(i) => {
            let mut row = store.reports[i].clone();
            row.update_exposed_count(count, now);
            proof {
                let pre = store.reports@;
                let ki = i as int;
                assert forall|j: int, o: Seq<char>|
                    #![trigger is_org_for(pre[j], o)]
                    0 <= j < pre.len() && pre[j].uuid.id@ != row.uuid.id@ && is_org_for(
                        row,
                        o,
                    ) implies !is_org_for(pre[j], o) by {
                    if is_org_for(pre[j], o) {
                        assert(o == org_uuid@);
                        assert(is_org_for(pre[ki], o));
                        assert(j == ki);
                    }
                }
            }
            row.save(store);
            proof {
                let pre = old(store).reports@;
                let post = store.reports@;
                let ki = i as int;
                assert(pre[ki].uuid.id@ == row.uuid.id@);
                assert(old(store).has_report_uuid(row.uuid.id@));
                let si = choose|si: int|
                    0 <= si < pre.len() && pre[si].uuid.id@ == row.uuid.id@ && post == pre.update(
                        si,
                        row,
                    );
                assert(si == ki);
                assert(is_org_for(post[ki], org_uuid@));
                assert forall|j: int|
                    0 <= j < pre.len() && is_org_for(#[trigger] pre[j], org_uuid@) implies post[ki].uuid
                    == pre[j].uuid && post[ki].created_at == pre[j].created_at by {
                    if j != ki {
                        assert(is_org_for(pre[ki], org_uuid@));
                        assert(!is_org_for(pre[j], org_uuid@));
                    }
                }
                assert(org_upserted(pre, post, org_uuid@, count as int, now as int));
            }
        },
        None => {
            let row = Report::new_org(org_uuid.clone(), count, fresh_uuid, now);
            proof {
                let pre = store.reports@;
                assert forall|j: int, o: Seq<char>|
                    #![trigger is_org_for(pre[j], o)]
                    0 <= j < pre.len() && pre[j].uuid.id@ != row.uuid.id@ && is_org_for(
                        row,
                        o,
                    ) implies !is_org_for(pre[j], o) by {
                    if is_org_for(pre[j], o) {
                        assert(o == org_uuid@);
                    }
                }
                assert(!old(store).has_report_uuid(row.uuid.id@));
            }
            row.save(store);
            proof {
                let pre = old(store).reports@;
                let post = store.reports@;
                let ni = pre.len() as int;
                assert(post == pre.push(row));
                assert(post[ni] == row);
                assert(is_org_for(post[ni], org_uuid@));
                assert(org_upserted(pre, post, org_uuid@, count as int, now as int));
            }
        },
    }
}

/// An untouched set of personal rows stays untouched across a second step.
proof fn lemma_personal_unchanged_trans(
    pre: Seq<Report>,
    mid: Seq<Report>,
    post: Seq<Report>,
    user: Seq<char>,
)
    requires
        personal_rows_unchanged(pre, mid, user),
        personal_rows_unchanged(mid, post, user),
    ensures
        personal_rows_unchanged(pre, post, user),
{
}

/// An untouched set of organizational rows stays untouched across a second
/// step.
proof fn lemma_org_unchanged_trans(
    pre: Seq<Report>,
    mid: Seq<Report>,
    post: Seq<Report>,
    org: Seq<char>,
)
    requires
        org_rows_unchanged(pre, mid, org),
        org_rows_unchanged(mid, post, org),
    ensures
        org_rows_unchanged(pre, post, org),
{
}

/// A finished personal upsert survives any later step that leaves the
/// user's personal rows untouched.
proof fn lemma_personal_upserted_preserved(
    pre: Seq<Report>,
    mid: Seq<Report>,
    post: Seq<Report>,
    user: Seq<char>,
    c: int,
    now: int,
)
    requires
        personal_upserted(pre, mid, user, c, now),
        personal_rows_unchanged(mid, post, user),
    ensures
        personal_upserted(pre, post, user, c, now),
{
    let i = choose|i: int|
        {
            &&& 0 <= i < mid.len()
            &&& is_personal_for(#[trigger] mid[i], user)
            &&& mid[i].exposed_count == clamp_count(c)
            &&& mid[i].last_updated_at == now
            &&& forall|j: int|
                0 <= j < pre.len() && is_personal_for(#[trigger] pre[j], user) ==> mid[i].uuid
                    == pre[j].uuid && mid[i].created_at == pre[j].created_at
        };
    assert(is_personal_for(post[i], user));
}

/// A finished organizational upsert survives any later step that leaves the
/// organization's rows untouched.
proof fn lemma_org_upserted_preserved(
    pre: Seq<Report>,
    mid: Seq<Report>,
    post: Seq<Report>,
    org: Seq<char>,
    c: int,
    now: int,
)
    requires
        org_upserted(pre, mid, org, c, now),
        org_rows_unchanged(mid, post, org),
    ensures
        org_upserted(pre, post, org, c, now),
{
    let i = choose|i: int|
        {
            &&& 0 <= i < mid.len()
            &&& is_org_for(#[trigger] mid[i], org)
            &&& mid[i].exposed_count == clamp_count(c)
            &&& mid[i].last_updated_at == now
            &&& forall|j: int|
                0 <= j < pre.len() && is_org_for(#[trigger] pre[j], org) ==> mid[i].uuid
                    == pre[j].uuid && mid[i].created_at == pre[j].created_at
        };
    assert(is_org_for(post[i], org));
}

/// An upsert against a state whose rows for the organization are the ones of
/// an earlier state is an upsert against the earlier state too.
proof fn lemma_org_upserted_compose(
    pre: Seq<Report>,
    mid: Seq<Report>,
    post: Seq<Report>,
    org: Seq<char>,
    c: int,
    now: int,
)
    requires
        org_rows_unchanged(pre, mid, org),
        org_upserted(mid, post, org, c, now),
    ensures
        org_upserted(pre, post, org, c, now),
{
    let i = choose|i: int|
        {
            &&& 0 <= i < post.len()
            &&& is_org_for(#[trigger] post[i], org)
            &&& post[i].exposed_count == clamp_count(c)
            &&& post[i].last_updated_at == now
            &&& forall|j: int|
                0 <= j < mid.len() && is_org_for(#[trigger] mid[j], org) ==> post[i].uuid
                    == mid[j].uuid && post[i].created_at == mid[j].created_at
        };
    assert forall|j: int|
        0 <= j < pre.len() && is_org_for(#[trigger] pre[j], org) implies post[i].uuid == pre[j].uuid
        && post[i].created_at == pre[j].created_at by {
        assert(mid[j] == pre[j]);
        assert(is_org_for(mid[j], org));
    }
    assert(is_org_for(post[i], org));
}

/// Record one exposure submission: the reporting user's personal count, and
/// one count per submitted organization the user belongs to. An unknown
/// reporting user leaves the store untouched; an entry for an organization
/// the user does not belong to leaves that organization's rows untouched.
///
/// `fresh_uuids` supplies distinct, unused row ids for the rows the call may
/// create: one for the personal row and one per submitted entry.
#[verifier::loop_isolation(false)]
pub fn exposed(
    store: &mut Store,
    user_id: &String,
    me: i32,
    org_counts: &Vec<(String, i32)>,
    fresh_uuids: &Vec<String>,
    now: i64,
)
    requires
        old(store).wf(),
        0 <= now <= MAX_TIMESTAMP,
        fresh_uuids@.len() >= 1 + org_counts@.len(),
        forall|a: int, b: int|
            0 <= a < b < fresh_uuids@.len() ==> #[trigger] fresh_uuids@[a]@ != #[trigger] fresh_uuids@[b]@,
        forall|a: int|
            0 <= a < fresh_uuids@.len() ==> !old(store).has_report_uuid(
                (#[trigger] fresh_uuids@[a])@,
            ),
        forall|a: int, b: int|
            0 <= a < b < org_counts@.len() ==> (#[trigger] org_counts@[a]).0@ != (
            #[trigger] org_counts@[b]).0@,
    ensures
        final(store).wf(),
        final(store).users@ == old(store).users@,
        final(store).memberships@ == old(store).memberships@,
        final(store).invitations@ == old(store).invitations@,
        !old(store).has_user_uuid(user_id@) ==> final(store).reports@ == old(store).reports@,
        old(store).has_user_uuid(user_id@) ==> {
            &&& personal_upserted(
                old(store).reports@,
                final(store).reports@,
                user_id@,
                me as int,
                now as int,
            )
            &&& forall|u: Seq<char>|
                u != user_id@ ==> #[trigger] personal_rows_unchanged(
                    old(store).reports@,
                    final(store).reports@,
                    u,
                )
            &&& forall|k: int|
                0 <= k < org_counts@.len() && old(store).is_member_spec(
                    user_id@,
                    (#[trigger] org_counts@[k]).0@,
                ) ==> org_upserted(
                    old(store).reports@,
                    final(store).reports@,
                    org_counts@[k].0@,
                    org_counts@[k].1 as int,
                    now as int,
                )
            &&& forall|o: Seq<char>|
                !org_submitted_authorized(*old(store), user_id@, org_counts@, o)
                    ==> #[trigger] org_rows_unchanged(
                    old(store).reports@,
                    final(store).reports@,
                    o,
                )
        },
{
    if store.find_user_by_uuid(user_id).is_none() {
        return ;
    }
    upsert_personal_report(store, user_id, me, fresh_uuids[0].clone(), now);
    let n = org_counts.len();
    let mut k: usize = 0;
    while k < n
        invariant
            k <= n,
            store.wf(),
            store.users@ == old(store).users@,
            store.memberships@ == old(store).memberships@,
            store.invitations@ == old(store).invitations@,
            personal_upserted(
                old(store).reports@,
                store.reports@,
                user_id@,
                me as int,
                now as int,
            ),
            forall|u: Seq<char>|
                u != user_id@ ==> #[trigger] personal_rows_unchanged(
                    old(store).reports@,
                    store.reports@,
                    u,
                ),
            forall|j: int|
                0 <= j < k && old(store).is_member_spec(user_id@, (#[trigger] org_counts@[j]).0@)
                    ==> org_upserted(
                    old(store).reports@,
                    store.reports@,
                    org_counts@[j].0@,
                    org_counts@[j].1 as int,
                    now as int,
                ),
            forall|o: Seq<char>|
                !org_submitted_authorized(*old(store), user_id@, org_counts@.take(k as int), o)
                    ==> #[trigger] org_rows_unchanged(old(store).reports@, store.reports@, o),
            forall|a: int|
                1 + k <= a < fresh_uuids@.len() ==> !store.has_report_uuid(
                    (#[trigger] fresh_uuids@[a])@,
                ),
        decreases n - k,
    {
        let ghost cur = store.reports@;
        let entry_org = &org_counts[k].0;
        let cnt = org_counts[k].1;
        let authorized = store.is_member(user_id, entry_org);
        if authorized {
            assert(!store.has_report_uuid(fresh_uuids@[1 + k as int]@));
            upsert_org_report(store, entry_org, cnt, fresh_uuids[1 + k].clone(), now);
            proof {
                let pre = old(store).reports@;
                let post = store.reports@;
                assert forall|u: Seq<char>|
                    u != user_id@ implies #[trigger] personal_rows_unchanged(
                    pre,
                    post,
                    u,
                ) by {
                    lemma_personal_unchanged_trans(pre, cur, post, u);
                }
                lemma_personal_upserted_preserved(
                    pre,
                    cur,
                    post,
                    user_id@,
                    me as int,
                    now as int,
                );
                assert forall|j: int|
                    0 <= j < k + 1 && old(store).is_member_spec(
                        user_id@,
                        (#[trigger] org_counts@[j]).0@,
                    ) implies org_upserted(
                    pre,
                    post,
                    org_counts@[j].0@,
                    org_counts@[j].1 as int,
                    now as int,
                ) by {
                    if j < k {
                        assert(org_counts@[j].0@ != entry_org@);
                        lemma_org_upserted_preserved(
                            pre,
                            cur,
                            post,
                            org_counts@[j].0@,
                            org_counts@[j].1 as int,
                            now as int,
                        );
                    } else {
                        assert(j == k);
                        assert(!org_submitted_authorized(
                            *old(store),
                            user_id@,
                            org_counts@.take(k as int),
                            entry_org@,
                        ));
                        assert(org_rows_unchanged(pre, cur, entry_org@));
                        lemma_org_upserted_compose(
                            pre,
                            cur,
                            post,
                            entry_org@,
                            cnt as int,
                            now as int,
                        );
                    }
                }
                assert forall|o: Seq<char>|
                    !org_submitted_authorized(
                        *old(store),
                        user_id@,
                        org_counts@.take(k + 1),
                        o,
                    ) implies #[trigger] org_rows_unchanged(pre, post, o) by {
                    assert(org_counts@.take(k + 1)[k as int] == org_counts@[k as int]);
                    assert(o != entry_org@);
                    assert forall|j: int|
                        0 <= j < k && (#[trigger] org_counts@.take(k as int)[j]).0@ == o implies (
                    org_counts@.take(k + 1)[j]).0@ == o by {}
                    assert(!org_submitted_authorized(
                        *old(store),
                        user_id@,
                        org_counts@.take(k as int),
                        o,
                    ));
                    lemma_org_unchanged_trans(pre, cur, post, o);
                }
                assert forall|a: int|
                    1 + k + 1 <= a < fresh_uuids@.len() implies !store.has_report_uuid(
                    (#[trigger] fresh_uuids@[a])@,
                ) by {
                    if store.has_report_uuid(fresh_uuids@[a]@) {
                        let i = choose|i: int|
                            0 <= i < post.len() && (#[trigger] post[i]).uuid.id@
                                == fresh_uuids@[a]@;
                        assert(post[i].uuid.id@ == fresh_uuids@[a]@);
                    }
                }
            }
        } else {
            proof {
                assert forall|o: Seq<char>|
                    !org_submitted_authorized(
                        *old(store),
                        user_id@,
                        org_counts@.take(k + 1),
                        o,
                    ) implies #[trigger] org_rows_unchanged(
                    old(store).reports@,
                    store.reports@,
                    o,
                ) by {
                    assert forall|j: int|
                        0 <= j < k && (#[trigger] org_counts@.take(k as int)[j]).0@ == o implies (
                    org_counts@.take(k + 1)[j]).0@ == o by {}
                    assert(!org_submitted_authorized(
                        *old(store),
                        user_id@,
                        org_counts@.take(k as int),
                        o,
                    ));
                }
            }
        }
        k = k + 1;
    }
    proof {
        assert(org_counts@.take(n as int) =~= org_counts@);
    }
}

/// Repeated exposure reports for the same user overwrite the stored
/// personal count — the second count stands alone, never a sum — while the
/// row keeps its identity and creation time, and its update time strictly
/// advances when the second report comes later.
pub proof fn law_repeated_personal_overwrites(
    pre: Seq<Report>,
    mid: Seq<Report>,
    post: Seq<Report>,
    user: Seq<char>,
    c1: int,
    c2: int,
    t1: int,
    t2: int,
)
    requires
        personal_upserted(pre, mid, user, c1, t1),
        personal_upserted(mid, post, user, c2, t2),
        t1 < t2,
    ensures
        exists|i: int, j: int|
            {
                &&& 0 <= i < post.len()
                &&& 0 <= j < mid.len()
                &&& is_personal_for(#[trigger] post[i], user)
                &&& is_personal_for(#[trigger] mid[j], user)
                &&& post[i].exposed_count == clamp_count(c2)
                &&& post[i].uuid == mid[j].uuid
                &&& post[i].created_at == mid[j].created_at
                &&& mid[j].last_updated_at == t1
                &&& post[i].last_updated_at == t2
                &&& post[i].last_updated_at > mid[j].last_updated_at
            },
{
    let i1 = choose|i: int|
        {
            &&& 0 <= i < mid.len()
            &&& is_personal_for(#[trigger] mid[i], user)
            &&& mid[i].exposed_count == clamp_count(c1)
            &&& mid[i].last_updated_at == t1
            &&& forall|j: int|
                0 <= j < pre.len() && is_personal_for(#[trigger] pre[j], user) ==> mid[i].uuid
                    == pre[j].uuid && mid[i].created_at == pre[j].created_at
        };
    let i2 = choose|i: int|
        {
            &&& 0 <= i < post.len()
            &&& is_personal_for(#[trigger] post[i], user)
            &&& post[i].exposed_count == clamp_count(c2)
            &&& post[i].last_updated_at == t2
            &&& forall|j: int|
                0 <= j < mid.len() && is_personal_for(#[trigger] mid[j], user) ==> post[i].uuid
                    == mid[j].uuid && post[i].created_at == mid[j].created_at
        };
    assert(is_personal_for(mid[i1], user));
    assert(is_personal_for(post[i2], user));
    assert(post[i2].uuid == mid[i1].uuid && post[i2].created_at == mid[i1].created_at);
}

/// The organizational counterpart: repeated reports for the same
/// organization overwrite its count, keep the row's identity and creation
/// time, and strictly advance its update time.
pub proof fn law_repeated_org_overwrites(
    pre: Seq<Report>,
    mid: Seq<Report>,
    post: Seq<Report>,
    org: Seq<char>,
    c1: int,
    c2: int,
    t1: int,
    t2: int,
)
    requires
        org_upserted(pre, mid, org, c1, t1),
        org_upserted(mid, post, org, c2, t2),
        t1 < t2,
    ensures
        exists|i: int, j: int|
            {
                &&& 0 <= i < post.len()
                &&& 0 <= j < mid.len()
                &&& is_org_for(#[trigger] post[i], org)
                &&& is_org_for(#[trigger] mid[j], org)
                &&& post[i].exposed_count == clamp_count(c2)
                &&& post[i].uuid == mid[j].uuid
                &&& post[i].created_at == mid[j].created_at
                &&& mid[j].last_updated_at == t1
                &&& post[i].last_updated_at == t2
                &&& post[i].last_updated_at > mid[j].last_updated_at
            },
{
    let i1 = choose|i: int|
        {
            &&& 0 <= i < mid.len()
            &&& is_org_for(#[trigger] mid[i], org)
            &&& mid[i].exposed_count == clamp_count(c1)
            &&& mid[i].last_updated_at == t1
            &&& forall|j: int|
                0 <= j < pre.len() && is_org_for(#[trigger] pre[j], org) ==> mid[i].uuid
                    == pre[j].uuid && mid[i].created_at == pre[j].created_at
        };
    let i2 = choose|i: int|
        {
            &&& 0 <= i < post.len()
            &&& is_org_for(#[trigger] post[i], org)
            &&& post[i].exposed_count == clamp_count(c2)
            &&& post[i].last_updated_at == t2
            &&& forall|j: int|
                0 <= j < mid.len() && is_org_for(#[trigger] mid[j], org) ==> post[i].uuid
                    == mid[j].uuid && post[i].created_at == mid[j].created_at
        };
    assert(is_org_for(mid[i1], org));
    assert(is_org_for(post[i2], org));
    assert(post[i2].uuid == mid[i1].uuid && post[i2].created_at == mid[i1].created_at);
}

} // verus!
