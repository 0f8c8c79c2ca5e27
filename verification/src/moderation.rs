//! Private moderation rules: report filters, the report state machine, comment
//! deletion and member bans decided from the locked state, and administrator
//! role changes.
use crate::auth::AuthError;
use crate::text::{chars_eq_str, chars_of};
use vstd::prelude::*;

verus! {

#[derive(Clone, Copy, Debug, PartialEq, Eq, Structural)]
pub enum Error {
    Auth(AuthError),
    Forbidden,
    Invalid,
    Missing,
    Conflict,
    Protected,
    Unavailable,
}

/// A moderator's decision on a report.
#[derive(Clone, Copy, Debug, PartialEq, Eq, Structural)]
pub enum Action {
    Resolve,
    Dismiss,
    Reopen,
    DeleteComment,
    Ban,
    Unban,
}

impl Action {
    /// The key recorded in the moderation audit log.
    pub fn key(&self) -> (k: &'static str)
        ensures
            *self == Action::Resolve ==> k@ == "resolve"@,
            *self == Action::Dismiss ==> k@ == "dismiss"@,
            *self == Action::Reopen ==> k@ == "reopen"@,
            *self == Action::DeleteComment ==> k@ == "delete_comment"@,
            *self == Action::Ban ==> k@ == "ban"@,
            *self == Action::Unban ==> k@ == "unban"@,
    {
        match self {
            Action::Resolve => "resolve",
            Action::Dismiss => "dismiss",
            Action::Reopen => "reopen",
            Action::DeleteComment => "delete_comment",
            Action::Ban => "ban",
            Action::Unban => "unban",
        }
    }
}

/// The report statuses, and `all` for an unfiltered list.
pub open spec fn status_filter_ok(s: Seq<char>) -> bool {
    s == "all"@ || s == "pending"@ || s == "resolved"@ || s == "dismissed"@
}

pub fn filter(status: &str) -> (r: Result<&'static str, Error>)
    ensures
        r is Ok <==> status_filter_ok(status@),
        r matches Ok(s) ==> s@ == status@,
        r matches Err(e) ==> e == Error::Invalid,
{
    let v = chars_of(status);
    if chars_eq_str(&v, "all") {
        Ok("all")
    } else if chars_eq_str(&v, "pending") {
        Ok("pending")
    } else if chars_eq_str(&v, "resolved") {
        Ok("resolved")
    } else if chars_eq_str(&v, "dismissed") {
        Ok("dismissed")
    } else {
        Err(Error::Invalid)
    }
}

pub fn page(value: u32) -> (r: Result<(), Error>)
    ensures
        r is Ok <==> value <= 10_000,
        r matches Err(e) ==> e == Error::Invalid,
{
    if value > 10_000 {
        Err(Error::Invalid)
    } else {
        Ok(())
    }
}

/// The status a status action moves a report to.
pub open spec fn target_status(a: Action) -> Seq<char> {
    match a {
        Action::Resolve => "resolved"@,
        Action::Dismiss => "dismissed"@,
        _ => "pending"@,
    }
}

pub open spec fn is_status_action(a: Action) -> bool {
    a == Action::Resolve || a == Action::Dismiss || a == Action::Reopen
}

/// A status action: the report moves to the action's status, which must differ
/// from its current one.
pub fn next_status(action: Action, current: &str) -> (r: Result<&'static str, Error>)
    requires
        is_status_action(action),
    ensures
        r is Ok <==> current@ != target_status(action),
        r matches Ok(s) ==> s@ == target_status(action),
        r matches Err(e) ==> e == Error::Conflict,
{
    let next = match action {
        Action::Resolve => "resolved",
        Action::Dismiss => "dismissed",
        _ => "pending",
    };
    let v = chars_of(current);
    if chars_eq_str(&v, next) {
        Err(Error::Conflict)
    } else {
        Ok(next)
    }
}

/// Every successful status action changes the report's status to the action's target.
pub proof fn status_actions_always_change_status(action: Action, current: Seq<char>, next: Seq<char>)
    requires
        is_status_action(action),
        current != target_status(action),
        next == target_status(action),
    ensures
        next != current,
        next == "resolved"@ || next == "dismissed"@ || next == "pending"@,
{
}

/// The author state a moderator saw when deciding on a ban.
pub struct AuthorView {
    pub id: Option<u128>,
    pub banned: Option<bool>,
    pub revision: Option<i64>,
}

/// A ban or unban targets the reported comment's author: never the moderator
/// or another administrator, and only while the author is exactly as the
/// moderator saw them.
pub fn member_action_allowed(
    actor: u128,
    seen: &AuthorView,
    target_is_admin: bool,
    current_banned: Option<bool>,
    current_revision: Option<i64>,
) -> (r: Result<u128, Error>)
    ensures
        seen.id is None ==> r == Err::<u128, Error>(Error::Conflict),
        seen.id matches Some(t) ==> (t == actor || target_is_admin ==> r == Err::<u128, Error>(
            Error::Protected,
        )),
        seen.id matches Some(t) ==> (!(t == actor || target_is_admin) ==> (r is Ok <==> (
        current_banned is Some && current_banned == seen.banned && current_revision is Some
            && current_revision == seen.revision))),
        seen.id matches Some(t) ==> (r matches Ok(x) ==> x == t),
        seen.id matches Some(t) ==> (!(t == actor || target_is_admin) ==> (r matches Err(e)
            ==> e == Error::Conflict)),
{
    let target = match seen.id {
        Some(t) => t,
        None => {
            return Err(Error::Conflict);
        },
    };
    if target == actor || target_is_admin {
        return Err(Error::Protected);
    }
    match (current_banned, current_revision) {
        (Some(b), Some(rev)) => {
            if seen.banned != Some(b) || seen.revision != Some(rev) {
                Err(Error::Conflict)
            } else {
                Ok(target)
            }
        },
        _ => Err(Error::Conflict),
    }
}

/// The comment state read under the comment lock.
pub struct CommentView {
    pub id: u128,
    pub user_id: Option<u128>,
    pub banned: Option<bool>,
    pub deleted: bool,
}

/// Deleting a reported comment: it must exist and still be visible.
pub fn delete_allowed(comment: Option<&CommentView>) -> (r: Result<u128, Error>)
    ensures
        comment is None ==> r == Err::<u128, Error>(Error::Missing),
        comment matches Some(c) ==> (c.deleted ==> r == Err::<u128, Error>(Error::Conflict)),
        comment matches Some(c) ==> (!c.deleted ==> r == Ok::<u128, Error>(c.id)),
{
    match comment {
        None => Err(Error::Missing),
        Some(c) => if c.deleted {
            Err(Error::Conflict)
        } else {
            Ok(c.id)
        },
    }
}

/// Banning (`ban`) or unbanning the author of a reported comment: the comment
/// must still belong to the author the moderator saw, the ban state must be as
/// seen, and the action must change it.
pub fn ban_allowed(comment: Option<&CommentView>, seen: &AuthorView, ban: bool) -> (r: Result<
    u128,
    Error,
>)
    ensures
        comment is None ==> r == Err::<u128, Error>(Error::Missing),
        comment matches Some(c) ==> (r is Ok <==> (c.user_id == seen.id && c.banned
            == seen.banned && c.banned != Some(ban) && c.user_id is Some)),
        comment matches Some(c) ==> (r matches Ok(t) ==> c.user_id == Some(t)),
        comment matches Some(c) ==> (r matches Err(e) ==> e == Error::Conflict),
{
    match comment {
        None => Err(Error::Missing),
        Some(c) => {
            if c.user_id != seen.id || c.banned != seen.banned || c.banned == Some(ban) {
                return Err(Error::Conflict);
            }
            match c.user_id {
                Some(t) => Ok(t),
                None => Err(Error::Conflict),
            }
        },
    }
}

/// The audit labels of a ban change: (before, after).
pub fn ban_states(ban: bool) -> (r: (&'static str, &'static str))
    ensures
        ban ==> r.0@ == "active"@ && r.1@ == "banned"@,
        !ban ==> r.0@ == "banned"@ && r.1@ == "active"@,
{
    if ban {
        ("active", "banned")
    } else {
        ("banned", "active")
    }
}

/// The snapshot a moderator decided on, compared with the locked report: it
/// must be the same revision of the same report about the same comment and
/// site, and the comment must be at the revision the moderator saw.
pub fn snapshot_current(
    report_revision: i64,
    seen_revision: i64,
    comment: Option<u128>,
    initial_comment: Option<u128>,
    site: Option<u128>,
    initial_site: Option<u128>,
    comment_revision: Option<i64>,
    seen_comment_revision: Option<i64>,
) -> (r: Result<(), Error>)
    ensures
        r is Ok <==> (report_revision == seen_revision && comment == initial_comment && site
            == initial_site && comment_revision == seen_comment_revision),
        r matches Err(e) ==> e == Error::Conflict,
{
    if report_revision != seen_revision || comment != initial_comment || site != initial_site
        || comment_revision != seen_comment_revision {
        Err(Error::Conflict)
    } else {
        Ok(())
    }
}

/// What granting or revoking the administrator role does: a banned member
/// cannot be granted it, and a request that matches the current role changes
/// nothing (`Ok(false)`).
pub fn admin_role_change(grant: bool, banned: bool, is_admin: bool) -> (r: Result<bool, Error>)
    ensures
        grant && banned ==> r == Err::<bool, Error>(Error::Protected),
        !(grant && banned) ==> r == Ok::<bool, Error>(is_admin != grant),
{
    if grant && banned {
        return Err(Error::Protected);
    }
    Ok(is_admin != grant)
}

/// The role a member holds after an administrator role request.
pub open spec fn role_after(grant: bool, banned: bool, is_admin: bool) -> bool {
    if grant && banned {
        is_admin
    } else {
        grant
    }
}

/// Role requests are idempotent: repeating a request changes nothing more.
pub proof fn admin_role_requests_are_idempotent(grant: bool, banned: bool, is_admin: bool)
    ensures
        role_after(grant, banned, role_after(grant, banned, is_admin)) == role_after(
            grant,
            banned,
            is_admin,
        ),
        !(grant && banned) ==> role_after(grant, banned, is_admin) == grant,
{
}

/// The audit labels of a role change: (action, before, after).
pub fn role_labels(grant: bool) -> (r: (&'static str, &'static str, &'static str))
    ensures
        grant ==> r.0@ == "grant"@ && r.1@ == "member"@ && r.2@ == "admin"@,
        !grant ==> r.0@ == "revoke"@ && r.1@ == "admin"@ && r.2@ == "member"@,
{
    if grant {
        ("grant", "member", "admin")
    } else {
        ("revoke", "admin", "member")
    }
}

/// Access to moderation: an authorized session of an administrator.
pub fn require_admin(is_admin: bool) -> (r: Result<(), Error>)
    ensures
        r is Ok <==> is_admin,
        r matches Err(e) ==> e == Error::Forbidden,
{
    if is_admin {
        Ok(())
    } else {
        Err(Error::Forbidden)
    }
}

/// Moderation failures seen by catalog administration keep authentication and
/// authorization errors; anything else is reported as unavailable.
pub fn catalog_error(e: Error) -> (r: crate::catalog_editing::Error)
    ensures
        e matches Error::Auth(a) ==> r == crate::catalog_editing::Error::Auth(a),
        e == Error::Forbidden ==> r == crate::catalog_editing::Error::Forbidden,
        !(e is Auth) && e != Error::Forbidden ==> r == crate::catalog_editing::Error::Unavailable,
{
    match e {
        Error::Auth(a) => crate::catalog_editing::Error::Auth(a),
        Error::Forbidden => crate::catalog_editing::Error::Forbidden,
        _ => crate::catalog_editing::Error::Unavailable,
    }
}

} // verus!
