//! Invitation issuance: find-or-create a placeholder user for an email,
//! idempotently, and decide which notification is dispatched. Sending mail
//! is outside work; when it is required the caller performs it and then
//! completes the invitation, so the user row is only durable once the
//! notification step has succeeded.

use vstd::prelude::*;

use crate::store::Store;
use crate::store::User;

verus! {

/// The all-zero sentinel organization/membership id: the placeholder used
/// when no real organization context exists yet.
pub const FAKE_ADMIN_UUID: &'static str = "00000000-0000-0000-0000-000000000000";

impl User {
    /// A fresh placeholder user: bound to the email, with an empty
    /// account-key and no private key.
    pub fn new(email: String, uuid: String) -> (u: User)
        ensures
            u.email == email,
            u.uuid == uuid,
            u.is_uninitialized(),
            u.private_key is None,
    {
        User { uuid, email, akey: String::new(), private_key: None }
    }
}

/// What one invitation call decided.
pub enum InviteStep {
    /// A user with this email already exists: nothing was created or
    /// dispatched, and this is its id.
    Existing { user_id: String },
    /// Outbound mail is enabled: the caller must dispatch the
    /// administrative-invite email for this not-yet-persisted user, then
    /// call `complete_invite`. The store is untouched until then.
    AwaitMail { user: User },
    /// Outbound mail is disabled: a local pending-invitation record and the
    /// user row were persisted; this is the new user's id.
    Completed { user_id: String },
}

/// The transition a successful create performs on the user table: one new
/// placeholder row for a previously unknown email, everything else kept.
pub open spec fn invite_created(pre: Store, post: Store, email: Seq<char>, uuid: Seq<char>) -> bool {
    &&& !pre.has_user_email(email)
    &&& post.users@.len() == pre.users@.len() + 1
    &&& forall|i: int| 0 <= i < pre.users@.len() ==> post.users@[i] == pre.users@[i]
    &&& post.users@.last().email@ == email
    &&& post.users@.last().uuid@ == uuid
    &&& post.users@.last().is_uninitialized()
    &&& post.users@.last().private_key is None
}

/// Find-or-create a placeholder user for `email`.
///
/// `new_uuid` is the identity a newly created user would get and must be
/// fresh; `mail_enabled` is the service's outbound-mail switch. On an
/// existing email nothing changes and the existing identity is returned; on
/// a new email with mail disabled the pending-invitation record and the user
/// row are persisted; with mail enabled nothing is persisted until
/// `complete_invite`.
pub fn invite_user(store: &mut Store, email: String, new_uuid: String, mail_enabled: bool) -> (r:
    InviteStep)
    requires
        old(store).wf(),
        !old(store).has_user_uuid(new_uuid@),
    ensures
        final(store).wf(),
        final(store).memberships@ == old(store).memberships@,
        final(store).reports@ == old(store).reports@,
        old(store).has_user_email(email@) ==> {
            &&& *final(store) == *old(store)
            &&& r matches InviteStep::Existing { user_id } && exists|i: int|
                0 <= i < old(store).users@.len() && (#[trigger] old(store).users@[i]).email@
                    == email@ && old(store).users@[i].uuid@ == user_id@
        },
        !old(store).has_user_email(email@) && mail_enabled ==> {
            &&& *final(store) == *old(store)
            &&& r matches InviteStep::AwaitMail { user } && user.email@ == email@ && user.uuid@
                == new_uuid@ && user.is_uninitialized() && user.private_key is None
        },
        !old(store).has_user_email(email@) && !mail_enabled ==> {
            &&& r matches InviteStep::Completed { user_id } && user_id@ == new_uuid@
            &&& invite_created(*old(store), *final(store), email@, new_uuid@)
            &&& final(store).invitations@ == old(store).invitations@.push(email)
        },
{
    match store.find_user_by_mail(&email) {
        Some(i) => {
            let user_id = store.users[i].uuid.clone();
            InviteStep::Existing { user_id }
        },
        None => {
            let user = User::new(email, new_uuid);
            if mail_enabled {
                InviteStep::AwaitMail { user }
            } else {
                // Mail is disabled: the local pending-invitation record is
                // written first, then the user row; both under this one call.
                store.invitations.push(user.email.clone());
                let user_id = user.uuid.clone();
                store.users.push(user);
                InviteStep::Completed { user_id }
            }
        },
    }
}

/// Persist a user handed back by `InviteStep::AwaitMail` once its
/// notification was dispatched; returns the new user's id. Not to be called
/// when the dispatch failed: the invitation then fails with no partial
/// state.
pub fn complete_invite(store: &mut Store, user: User) -> (r: String)
    requires
        old(store).wf(),
        !old(store).has_user_email(user.email@),
        !old(store).has_user_uuid(user.uuid@),
    ensures
        final(store).wf(),
        final(store).memberships@ == old(store).memberships@,
        final(store).reports@ == old(store).reports@,
        final(store).invitations@ == old(store).invitations@,
        r@ == user.uuid@,
        final(store).users@ == old(store).users@.push(user),
{
    let user_id = user.uuid.clone();
    store.users.push(user);
    user_id
}

/// Inviting the same email twice never creates two users. After a create
/// for an email, every user row carrying that email holds the created
/// identity — so a later invitation finds it and returns it unchanged — and
/// no further create for that email is possible from the new state.
pub proof fn law_invite_idempotent(pre: Store, post: Store, email: Seq<char>, uuid: Seq<char>)
    requires
        post.wf(),
        invite_created(pre, post, email, uuid),
    ensures
        post.has_user_email(email),
        forall|i: int|
            0 <= i < post.users@.len() && (#[trigger] post.users@[i]).email@ == email
                ==> post.users@[i].uuid@ == uuid,
        forall|later: Store, other: Seq<char>| !invite_created(post, later, email, other),
{
    let n = post.users@.len() - 1;
    assert(post.users@[n].email@ == email);
    assert forall|i: int|
        0 <= i < post.users@.len() && (#[trigger] post.users@[i]).email@ == email implies post.users@[i].uuid@
        == uuid by {
        if i != n {
            assert(post.users@[i].email@ != post.users@[n].email@);
        }
    }
    assert forall|later: Store, other: Seq<char>| !invite_created(post, later, email, other) by {
        assert(post.has_user_email(email));
    }
}

} // verus!
