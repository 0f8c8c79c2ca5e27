//! Profile picture refresh rules: who may start a refresh, when a result still
//! applies, and how batch jobs finish.
use crate::auth::AuthError;
use crate::text::{chars_eq, chars_eq_str, chars_of};
use vstd::prelude::*;

verus! {

#[derive(Clone, Copy, Debug, PartialEq, Eq, Structural)]
pub enum Error {
    Auth(AuthError),
    Busy,
    Superseded,
    ActorChanged,
    Unavailable,
}

/// Whether a refresh starts. An automatic refresh never switches the profile
/// source the member chose; a refresh within a minute of the last one is busy.
pub fn refresh_start(
    automatic: bool,
    chosen_source: Option<u128>,
    account: u128,
    cooling: bool,
) -> (r: Result<bool, Error>)
    ensures
        automatic && chosen_source is Some && chosen_source.unwrap() != account ==> r == Ok::<
            bool,
            Error,
        >(false),
        !(automatic && chosen_source is Some && chosen_source.unwrap() != account) && cooling
            ==> r == Err::<bool, Error>(Error::Busy),
        !(automatic && chosen_source is Some && chosen_source.unwrap() != account) && !cooling
            ==> r == Ok::<bool, Error>(true),
{
    if automatic {
        if let Some(source) = chosen_source {
            if source != account {
                return Ok(false);
            }
        }
    }
    if cooling {
        return Err(Error::Busy);
    }
    Ok(true)
}

/// The terminal outcomes a batch job may report.
pub open spec fn outcome_ok(s: Seq<char>) -> bool {
    s == "succeeded"@ || s == "partial"@ || s == "failed"@ || s == "skipped"@
}

pub fn job_outcome(outcome: &str) -> (r: Result<(), Error>)
    ensures
        r is Ok <==> outcome_ok(outcome@),
        r matches Err(e) ==> e == Error::Unavailable,
{
    let v = chars_of(outcome);
    if chars_eq_str(&v, "succeeded") || chars_eq_str(&v, "partial") || chars_eq_str(&v, "failed")
        || chars_eq_str(&v, "skipped") {
        Ok(())
    } else {
        Err(Error::Unavailable)
    }
}

/// A member's refresh result still applies only to the member who asked, for
/// the same linked account and actor, and for the latest request.
pub fn member_ticket_current(
    session_member: u128,
    ticket_member: u128,
    ticket_account: Option<u128>,
    current_actor: Option<u128>,
    ticket_actor: Option<u128>,
    stored_request: Option<u128>,
    ticket_request: u128,
) -> (r: Result<(), Error>)
    ensures
        session_member != ticket_member || ticket_account is None ==> r == Err::<(), Error>(
            Error::Superseded,
        ),
        session_member == ticket_member && ticket_account is Some && current_actor
            != ticket_actor ==> r == Err::<(), Error>(Error::ActorChanged),
        session_member == ticket_member && ticket_account is Some && current_actor
            == ticket_actor ==> (r is Ok <==> stored_request == Some(ticket_request)),
        session_member == ticket_member && ticket_account is Some && current_actor
            == ticket_actor ==> (r matches Err(e) ==> e == Error::Superseded),
{
    if session_member != ticket_member || ticket_account.is_none() {
        return Err(Error::Superseded);
    }
    if current_actor != ticket_actor {
        return Err(Error::ActorChanged);
    }
    if stored_request != Some(ticket_request) {
        return Err(Error::Superseded);
    }
    Ok(())
}

/// A new batch snapshots every member once; with no member it is complete at once.
pub fn batch_state_after_start(jobs: usize) -> (r: &'static str)
    ensures
        jobs == 0 ==> r@ == "complete"@,
        jobs > 0 ==> r@ == "running"@,
{
    if jobs == 0 {
        "complete"
    } else {
        "running"
    }
}

pub open spec fn opt_view(o: Option<String>) -> Option<Seq<char>> {
    match o {
        Some(s) => Some(s@),
        None => None,
    }
}

/// A batch job's result still applies only while the member's profile source
/// is the one the job snapshotted and the job's request is the latest.
pub fn batch_ticket_current(
    job_member: u128,
    ticket_member: u128,
    source: Option<(Option<u128>, Option<String>, String)>,
    ticket_account: Option<u128>,
    ticket_actor: &Option<String>,
    ticket_handle: &str,
    stored_request: Option<u128>,
    ticket_request: u128,
) -> (r: Result<(), Error>)
    ensures
        r is Ok <==> (source matches Some(s) && job_member == ticket_member && s.0 == ticket_account
            && opt_view(s.1) == opt_view(*ticket_actor) && s.2@ == ticket_handle@
            && stored_request == Some(ticket_request)),
        r matches Err(e) ==> e == Error::Superseded,
{
    let (account, actor, handle) = match source {
        None => {
            return Err(Error::Superseded);
        },
        Some(s) => s,
    };
    let same_actor = match (&actor, ticket_actor) {
        (None, None) => true,
        (Some(a), Some(b)) => {
            let x = chars_of(a.as_str());
            let y = chars_of(b.as_str());
            chars_eq(&x, &y)
        },
        _ => false,
    };
    let h = chars_of(handle.as_str());
    if job_member != ticket_member || account != ticket_account || !same_actor || !chars_eq_str(
        &h,
        ticket_handle,
    ) {
        return Err(Error::Superseded);
    }
    if stored_request != Some(ticket_request) {
        return Err(Error::Superseded);
    }
    Ok(())
}

/// How one profile image ended: not offered, offered but not fetched, or
/// fetched and published under a new storage key.
pub enum Fetched {
    Absent,
    Failed,
    Published(String),
}

/// The storage key a refreshed profile keeps for one image: a failed fetch
/// keeps the old image, an absent one removes it, a published one replaces it.
pub fn kept_key(fetched: Fetched, old: Option<String>) -> (r: Option<String>)
    ensures
        fetched is Absent ==> r is None,
        fetched is Failed ==> opt_view(r) == opt_view(old),
        fetched matches Fetched::Published(k) ==> opt_view(r) == Some(k@),
{
    match fetched {
        Fetched::Absent => None,
        Fetched::Failed => old,
        Fetched::Published(k) => Some(k),
    }
}

} // verus!
