//! Federated membership rules: which member a verified identity proof attaches
//! to, when a historical (legacy) membership may be claimed, and the checks of
//! the account-management writes.
use crate::auth::{sha256, sha256_digest, AuthError};
use crate::text::{chars_eq, chars_of};
use vstd::prelude::*;
use vstd::string::StringSliceAdditionalSpecFns;

verus! {

#[derive(Clone, Copy, Debug, PartialEq, Eq, Structural)]
pub enum FlowError {
    InvalidChallenge,
    AlreadyLinked,
    LegacyIdentity,
    Unauthenticated,
    Unavailable,
}

/// A historical membership reserved for the owner of a handle.
pub struct Claim {
    pub member_id: u128,
    pub handle: String,
    pub actor_url: Option<String>,
    pub claimed_at: Option<i64>,
}

/// An identity already linked: (member, actor address).
pub struct Owner {
    pub member: u128,
    pub actor_url: String,
}

pub open spec fn opt_view(o: Option<String>) -> Option<Seq<char>> {
    match o {
        Some(s) => Some(s@),
        None => None,
    }
}

/// Whether a legacy claim may be used by a proof of `actor`.
pub open spec fn claim_ok(
    claim: Option<(u128, Option<Seq<char>>)>,
    actor: Seq<char>,
    owners: Seq<(u128, Seq<char>)>,
    session: Option<u128>,
) -> Result<(), FlowError> {
    match claim {
        None => Ok(()),
        Some((member, bound)) => if bound is Some && bound.unwrap() != actor {
            Err(FlowError::LegacyIdentity)
        } else if (exists|i: int| 0 <= i < owners.len() && (#[trigger] owners[i]).0 != member)
            || (session is Some && session.unwrap() != member) {
            Err(FlowError::AlreadyLinked)
        } else if bound is Some && owners.len() == 0 && session is None {
            Err(FlowError::LegacyIdentity)
        } else {
            Ok(())
        },
    }
}

pub open spec fn owners_view(owners: Seq<Owner>) -> Seq<(u128, Seq<char>)> {
    owners.map_values(|o: Owner| (o.member, o.actor_url@))
}

/// First-login continuity: a handle-reserved membership is claimed only by the
/// identity bound to it, never merged into another membership, and an
/// intentionally unlinked identity is not an anonymous recovery path.
pub fn validate_claim(
    claim: Option<&Claim>,
    actor: &str,
    owners: &Vec<Owner>,
    session: Option<u128>,
) -> (r: Result<(), FlowError>)
    ensures
        r == claim_ok(
            match claim {
                Some(c) => Some((c.member_id, opt_view(c.actor_url))),
                None => None,
            },
            actor@,
            owners_view(owners@),
            session,
        ),
{
    let c = match claim {
        None => {
            return Ok(());
        },
        Some(c) => c,
    };
    let a = chars_of(actor);
    if let Some(old) = &c.actor_url {
        let o = chars_of(old.as_str());
        if !chars_eq(&o, &a) {
            return Err(FlowError::LegacyIdentity);
        }
        assert(old@ == actor@);
    }
    let n = owners.len();
    let mut i: usize = 0;
    while i < n
        invariant
            i <= n,
            n == owners.len(),
            forall|k: int| 0 <= k < i ==> owners@[k].member == c.member_id,
            claim == Some(c),
            c.actor_url is Some ==> c.actor_url.unwrap()@ == actor@,
        decreases n - i,
    {
        if owners[i].member != c.member_id {
            proof {
                assert(owners_view(owners@)[i as int].0 != c.member_id);
            }
            return Err(FlowError::AlreadyLinked);
        }
        i = i + 1;
    }
    proof {
        assert(!(exists|k: int|
            0 <= k < owners_view(owners@).len() && (#[trigger] owners_view(owners@)[k]).0
                != c.member_id)) by {
            assert forall|k: int| 0 <= k < owners_view(owners@).len() implies (
            #[trigger] owners_view(owners@)[k]).0 == c.member_id by {
                assert(owners_view(owners@)[k].0 == owners@[k].member);
            }
        }
    }
    if let Some(s) = session {
        if s != c.member_id {
            return Err(FlowError::AlreadyLinked);
        }
    }
    if c.actor_url.is_some() && n == 0 && session.is_none() {
        return Err(FlowError::LegacyIdentity);
    }
    Ok(())
}

/// Whether the existing links of an actor or handle forbid attaching a proof:
/// another actor holds the handle, several links exist, or they belong to a
/// member other than the one signed in.
pub open spec fn owners_conflict(
    owners: Seq<(u128, Seq<char>)>,
    actor: Seq<char>,
    session: Option<u128>,
) -> bool {
    ||| exists|i: int| 0 <= i < owners.len() && (#[trigger] owners[i]).1 != actor
    ||| owners.len() > 1
    ||| session is Some && exists|i: int|
        0 <= i < owners.len() && (#[trigger] owners[i]).0 != session.unwrap()
}

pub fn check_owners(owners: &Vec<Owner>, actor: &str, session: Option<u128>) -> (r: Result<
    (),
    FlowError,
>)
    ensures
        r is Ok <==> !owners_conflict(owners_view(owners@), actor@, session),
        r matches Err(e) ==> e == FlowError::AlreadyLinked,
{
    let a = chars_of(actor);
    let n = owners.len();
    let ghost ov = owners_view(owners@);
    let mut i: usize = 0;
    while i < n
        invariant
            i <= n,
            n == owners.len(),
            ov == owners_view(owners@),
            a@ == actor@,
            forall|k: int| 0 <= k < i ==> (#[trigger] ov[k]).1 == actor@ && (session is Some
                ==> ov[k].0 == session.unwrap()),
        decreases n - i,
    {
        let o = chars_of(owners[i].actor_url.as_str());
        proof {
            assert(ov[i as int] == (owners@[i as int].member, owners@[i as int].actor_url@));
        }
        if !chars_eq(&o, &a) {
            return Err(FlowError::AlreadyLinked);
        }
        if let Some(s) = session {
            if owners[i].member != s {
                return Err(FlowError::AlreadyLinked);
            }
        }
        i = i + 1;
    }
    if n > 1 {
        return Err(FlowError::AlreadyLinked);
    }
    Ok(())
}

/// The member a proof attaches to: the signed-in member, else the existing
/// owner of the identity, else the legacy membership reserved for the handle;
/// `None` creates a new member.
pub fn proof_target(session: Option<u128>, owners: &Vec<Owner>, claim_member: Option<u128>) -> (r:
    Option<u128>)
    ensures
        r == if session is Some {
            session
        } else if owners@.len() > 0 {
            Some(owners@[0].member)
        } else {
            claim_member
        },
{
    match session {
        Some(s) => Some(s),
        None => if owners.len() > 0 {
            Some(owners[0].member)
        } else {
            claim_member
        },
    }
}

/// A proof signs in with federated authentication, except that linking a new
/// identity to a signed-in member keeps that session's authentication times:
/// proving a new identity does not reauthenticate the membership.
pub fn proof_authentication(signed_in: bool, already_linked: bool) -> (r:
    crate::auth::SessionAuthentication)
    ensures
        !signed_in || already_linked ==> r == crate::auth::SessionAuthentication::Federated,
        signed_in && !already_linked ==> r == crate::auth::SessionAuthentication::Preserve,
{
    if !signed_in || already_linked {
        crate::auth::SessionAuthentication::Federated
    } else {
        crate::auth::SessionAuthentication::Preserve
    }
}

/// The stored link a creation date is fetched for.
pub struct LinkRow {
    pub actor_url: String,
    pub handle: String,
    pub created_at: Option<i64>,
}

/// A fetched account creation date is stored only for the exact identity read
/// before the fetch and only where none is stored; dates in the future are refused.
pub fn creation_date_update(
    date: i64,
    now: i64,
    row: Option<&LinkRow>,
    actor_url: &str,
    handle: &str,
) -> (r: Result<bool, AuthError>)
    ensures
        date > now ==> r == Err::<bool, AuthError>(AuthError::Unavailable),
        date <= now && row is None ==> r == Err::<bool, AuthError>(AuthError::AccountNotFound),
        date <= now && row is Some ==> r == (if row.unwrap().actor_url@ != actor_url@
            || row.unwrap().handle@ != handle@ {
            Err::<bool, AuthError>(AuthError::AccountNotFound)
        } else {
            Ok::<bool, AuthError>(row.unwrap().created_at is None)
        }),
{
    if date > now {
        return Err(AuthError::Unavailable);
    }
    let x = match row {
        None => {
            return Err(AuthError::AccountNotFound);
        },
        Some(x) => x,
    };
    let a1 = chars_of(x.actor_url.as_str());
    let a2 = chars_of(actor_url);
    let h1 = chars_of(x.handle.as_str());
    let h2 = chars_of(handle);
    if !chars_eq(&a1, &a2) || !chars_eq(&h1, &h2) {
        return Err(AuthError::AccountNotFound);
    }
    Ok(x.created_at.is_none())
}

/// A write that must touch exactly one owned row: any other count means the
/// account is not the member's.
pub fn exactly_one(changed: usize) -> (r: Result<(), AuthError>)
    ensures
        r is Ok <==> changed == 1,
        r matches Err(e) ==> e == AuthError::AccountNotFound,
{
    if changed != 1 {
        Err(AuthError::AccountNotFound)
    } else {
        Ok(())
    }
}

/// Consuming a proof challenge must update exactly one live challenge row.
pub fn challenge_consumed(changed: usize) -> (r: Result<(), FlowError>)
    ensures
        r is Ok <==> changed == 1,
        r matches Err(e) ==> e == FlowError::InvalidChallenge,
{
    if changed != 1 {
        Err(FlowError::InvalidChallenge)
    } else {
        Ok(())
    }
}

/// Eight bytes read as a big-endian unsigned number.
pub open spec fn be_u64(b: Seq<u8>) -> int {
    b[0] * 0x100_0000_0000_0000 + b[1] * 0x1_0000_0000_0000 + b[2] * 0x100_0000_0000 + b[3]
        * 0x1_0000_0000 + b[4] * 0x100_0000 + b[5] * 0x1_0000 + b[6] * 0x100 + b[7]
}

/// The advisory lock that serializes proofs of one actor: the first eight
/// bytes of the SHA-256 of its address, read as a big-endian signed number.
pub fn actor_lock_key(actor_url: &str) -> (r: i64)
    ensures
        r == (be_u64(sha256(actor_url.spec_bytes())) as u64) as i64,
{
    let d = sha256_digest(actor_url.as_bytes());
    let mut v: u64 = d[0] as u64;
    v = v * 256 + d[1] as u64;
    v = v * 256 + d[2] as u64;
    v = v * 256 + d[3] as u64;
    v = v * 256 + d[4] as u64;
    v = v * 256 + d[5] as u64;
    v = v * 256 + d[6] as u64;
    v = v * 256 + d[7] as u64;
    v as i64
}

/// The links of an identity read again under the member lock must be exactly
/// those read before it: a login never reattaches an identity from a stale
/// ownership snapshot.
pub fn owners_unchanged(before: &Vec<Owner>, after: &Vec<Owner>) -> (r: Result<(), FlowError>)
    ensures
        r is Ok <==> owners_view(before@) == owners_view(after@),
        r matches Err(e) ==> e == FlowError::Unauthenticated,
{
    if before.len() != after.len() {
        proof {
            assert(owners_view(before@).len() != owners_view(after@).len());
        }
        return Err(FlowError::Unauthenticated);
    }
    let ghost bv = owners_view(before@);
    let ghost av = owners_view(after@);
    let mut i: usize = 0;
    while i < before.len()
        invariant
            i <= before.len(),
            before.len() == after.len(),
            bv == owners_view(before@),
            av == owners_view(after@),
            forall|k: int| 0 <= k < i ==> #[trigger] bv[k] == av[k],
        decreases before.len() - i,
    {
        if before[i].member != after[i].member || before[i].actor_url != after[i].actor_url {
            proof {
                assert(bv[i as int] != av[i as int]);
            }
            return Err(FlowError::Unauthenticated);
        }
        i = i + 1;
    }
    proof {
        assert(bv =~= av);
    }
    Ok(())
}

/// A proof never signs in to a banned member.
pub fn proof_member_allowed(banned: bool) -> (r: Result<(), FlowError>)
    ensures
        r is Ok <==> !banned,
        r matches Err(e) ==> e == FlowError::Unauthenticated,
{
    if banned {
        Err(FlowError::Unauthenticated)
    } else {
        Ok(())
    }
}

/// How attaching a proven identity ended in the database.
#[derive(Clone, Copy, Debug, PartialEq, Eq, Structural)]
pub enum AttachResult {
    /// The statement changed this many rows.
    Rows(usize),
    /// The identity is linked to another member.
    UniqueViolation,
    /// Any other failure.
    Failed,
}

/// Attaching must write exactly one row owned by the member; a link owned by
/// another member is refused, and any other failure is unavailable.
pub fn attach_outcome(result: AttachResult) -> (r: Result<(), FlowError>)
    ensures
        result == AttachResult::Rows(1) ==> r is Ok,
        (result matches AttachResult::Rows(n) && n != 1) ==> r == Err::<(), FlowError>(
            FlowError::AlreadyLinked,
        ),
        result == AttachResult::UniqueViolation ==> r == Err::<(), FlowError>(
            FlowError::AlreadyLinked,
        ),
        result == AttachResult::Failed ==> r == Err::<(), FlowError>(FlowError::Unavailable),
{
    match result {
        AttachResult::Rows(n) => if n == 1 {
            Ok(())
        } else {
            Err(FlowError::AlreadyLinked)
        },
        AttachResult::UniqueViolation => Err(FlowError::AlreadyLinked),
        AttachResult::Failed => Err(FlowError::Unavailable),
    }
}

} // verus!
