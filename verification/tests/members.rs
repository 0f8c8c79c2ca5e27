use sha2::{Digest, Sha256};
use fediversekr::auth::{AuthError, SessionAuthentication};
use fediversekr::members::{
    actor_lock_key, attach_outcome, owners_unchanged, proof_member_allowed, AttachResult,
    challenge_consumed, check_owners, creation_date_update, exactly_one, proof_authentication,
    proof_target, validate_claim, Claim, FlowError, LinkRow, Owner,
};
use fediversekr::profile_refresh::{
    batch_ticket_current, kept_key, Fetched, batch_state_after_start, job_outcome, member_ticket_current, refresh_start, Error as RefreshError,
};
use fediversekr::store::{page_offset, page_rows, public_name, StoreError};

fn owner(member: u128, actor: &str) -> Owner {
    Owner { member, actor_url: actor.to_string() }
}

const ACTOR: &str = "https://dog.example/users/shuna";

#[test]
fn legacy_claims_attach_only_to_their_bound_identity() {
    let open = Claim { member_id: 5, handle: "shuna@dog.example".into(), actor_url: None, claimed_at: None };
    assert_eq!(validate_claim(None, ACTOR, &vec![], None), Ok(()));
    assert_eq!(validate_claim(Some(&open), ACTOR, &vec![], None), Ok(()));
    assert_eq!(validate_claim(Some(&open), ACTOR, &vec![owner(5, ACTOR)], Some(5)), Ok(()));
    assert_eq!(
        validate_claim(Some(&open), ACTOR, &vec![owner(6, ACTOR)], None),
        Err(FlowError::AlreadyLinked)
    );
    assert_eq!(validate_claim(Some(&open), ACTOR, &vec![], Some(6)), Err(FlowError::AlreadyLinked));

    let bound = Claim { actor_url: Some(ACTOR.into()), claimed_at: Some(1), ..open };
    assert_eq!(
        validate_claim(Some(&bound), "https://dog.example/users/other", &vec![], Some(5)),
        Err(FlowError::LegacyIdentity)
    );
    assert_eq!(validate_claim(Some(&bound), ACTOR, &vec![], None), Err(FlowError::LegacyIdentity));
    assert_eq!(validate_claim(Some(&bound), ACTOR, &vec![], Some(5)), Ok(()));
    assert_eq!(validate_claim(Some(&bound), ACTOR, &vec![owner(5, ACTOR)], None), Ok(()));
}

#[test]
fn existing_links_must_be_one_identity_of_the_signed_in_member() {
    assert_eq!(check_owners(&vec![], ACTOR, None), Ok(()));
    assert_eq!(check_owners(&vec![owner(5, ACTOR)], ACTOR, None), Ok(()));
    assert_eq!(check_owners(&vec![owner(5, ACTOR)], ACTOR, Some(5)), Ok(()));
    assert_eq!(check_owners(&vec![owner(5, ACTOR)], ACTOR, Some(6)), Err(FlowError::AlreadyLinked));
    assert_eq!(
        check_owners(&vec![owner(5, "https://dog.example/users/old")], ACTOR, None),
        Err(FlowError::AlreadyLinked)
    );
    assert_eq!(
        check_owners(&vec![owner(5, ACTOR), owner(5, ACTOR)], ACTOR, None),
        Err(FlowError::AlreadyLinked)
    );
    assert_eq!(proof_target(Some(1), &vec![owner(5, ACTOR)], Some(9)), Some(1));
    assert_eq!(proof_target(None, &vec![owner(5, ACTOR)], Some(9)), Some(5));
    assert_eq!(proof_target(None, &vec![], Some(9)), Some(9));
    assert_eq!(proof_target(None, &vec![], None), None);
    assert_eq!(proof_authentication(false, false), SessionAuthentication::Federated);
    assert_eq!(proof_authentication(true, true), SessionAuthentication::Federated);
    assert_eq!(proof_authentication(true, false), SessionAuthentication::Preserve);
}

#[test]
fn creation_dates_fill_only_the_same_identity_once() {
    let row = LinkRow { actor_url: ACTOR.into(), handle: "shuna@dog.example".into(), created_at: None };
    assert_eq!(creation_date_update(10, 20, Some(&row), ACTOR, "shuna@dog.example"), Ok(true));
    assert_eq!(creation_date_update(30, 20, Some(&row), ACTOR, "shuna@dog.example"), Err(AuthError::Unavailable));
    assert_eq!(
        creation_date_update(10, 20, Some(&row), ACTOR, "other@dog.example"),
        Err(AuthError::AccountNotFound)
    );
    assert_eq!(creation_date_update(10, 20, None, ACTOR, "shuna@dog.example"), Err(AuthError::AccountNotFound));
    let dated = LinkRow { created_at: Some(5), ..row };
    assert_eq!(creation_date_update(10, 20, Some(&dated), ACTOR, "shuna@dog.example"), Ok(false));
    assert_eq!(exactly_one(1), Ok(()));
    assert_eq!(exactly_one(0), Err(AuthError::AccountNotFound));
    assert_eq!(exactly_one(2), Err(AuthError::AccountNotFound));
    assert_eq!(challenge_consumed(1), Ok(()));
    assert_eq!(challenge_consumed(0), Err(FlowError::InvalidChallenge));
}

#[test]
fn profile_refreshes_respect_the_chosen_source_and_latest_request() {
    assert_eq!(refresh_start(true, Some(2), 3, false), Ok(false));
    assert_eq!(refresh_start(true, Some(2), 3, true), Ok(false));
    assert_eq!(refresh_start(true, Some(3), 3, false), Ok(true));
    assert_eq!(refresh_start(false, Some(2), 3, false), Ok(true));
    assert_eq!(refresh_start(false, None, 3, true), Err(RefreshError::Busy));
    for outcome in ["succeeded", "partial", "failed", "skipped"] {
        assert_eq!(job_outcome(outcome), Ok(()));
    }
    assert_eq!(job_outcome("done"), Err(RefreshError::Unavailable));
    assert_eq!(member_ticket_current(1, 1, Some(4), Some(8), Some(8), Some(9), 9), Ok(()));
    assert_eq!(member_ticket_current(1, 2, Some(4), Some(8), Some(8), Some(9), 9), Err(RefreshError::Superseded));
    assert_eq!(member_ticket_current(1, 1, None, Some(8), Some(8), Some(9), 9), Err(RefreshError::Superseded));
    assert_eq!(member_ticket_current(1, 1, Some(4), Some(7), Some(8), Some(9), 9), Err(RefreshError::ActorChanged));
    assert_eq!(member_ticket_current(1, 1, Some(4), Some(8), Some(8), Some(10), 9), Err(RefreshError::Superseded));
    assert_eq!(batch_state_after_start(0), "complete");
    assert_eq!(batch_state_after_start(3), "running");
}

#[test]
fn pages_read_one_row_ahead_and_errors_carry_no_detail() {
    assert_eq!(page_rows(vec![1, 2, 3], 2), (vec![1, 2], true));
    assert_eq!(page_rows(vec![1, 2], 2), (vec![1, 2], false));
    assert_eq!(page_rows(Vec::<u8>::new(), 20), (vec![], false));
    assert_eq!(page_offset(3, 20), 60);
    assert_eq!(page_offset(u32::MAX, 20), u32::MAX as i64 * 20);
    assert_eq!(StoreError.message(), "Database operation failed");
    assert_eq!(AuthError::from(StoreError), AuthError::Unavailable);
    assert_eq!(public_name("mastodon"), Ok(()));
    assert_eq!(public_name("legacy.name/../x"), Ok(()));
    assert_eq!(public_name(""), Err(StoreError));
    assert_eq!(public_name("a\u{7}b"), Err(StoreError));
    assert_eq!(public_name(&"x".repeat(129)), Err(StoreError));
}

#[test]
fn proofs_lock_per_actor_and_recheck_what_they_read() {
    let expected = i64::from_be_bytes(Sha256::digest(ACTOR.as_bytes())[..8].try_into().unwrap());
    assert_eq!(actor_lock_key(ACTOR), expected);
    assert_ne!(actor_lock_key(ACTOR), actor_lock_key("https://dog.example/users/other"));
    let before = vec![owner(5, ACTOR)];
    assert_eq!(owners_unchanged(&before, &vec![owner(5, ACTOR)]), Ok(()));
    assert_eq!(owners_unchanged(&before, &vec![]), Err(FlowError::Unauthenticated));
    assert_eq!(owners_unchanged(&before, &vec![owner(6, ACTOR)]), Err(FlowError::Unauthenticated));
    assert_eq!(owners_unchanged(&vec![], &vec![]), Ok(()));
    assert_eq!(proof_member_allowed(false), Ok(()));
    assert_eq!(proof_member_allowed(true), Err(FlowError::Unauthenticated));
    assert_eq!(attach_outcome(AttachResult::Rows(1)), Ok(()));
    assert_eq!(attach_outcome(AttachResult::Rows(0)), Err(FlowError::AlreadyLinked));
    assert_eq!(attach_outcome(AttachResult::UniqueViolation), Err(FlowError::AlreadyLinked));
    assert_eq!(attach_outcome(AttachResult::Failed), Err(FlowError::Unavailable));
}

#[test]
fn batch_refreshes_apply_to_the_snapshotted_source_and_keep_failed_images() {
    let actor = Some(ACTOR.to_string());
    let source = || Some((Some(4u128), actor.clone(), "shuna@dog.example".to_string()));
    assert_eq!(batch_ticket_current(1, 1, source(), Some(4), &actor, "shuna@dog.example", Some(9), 9), Ok(()));
    assert_eq!(batch_ticket_current(1, 2, source(), Some(4), &actor, "shuna@dog.example", Some(9), 9), Err(RefreshError::Superseded));
    assert_eq!(batch_ticket_current(1, 1, None, Some(4), &actor, "shuna@dog.example", Some(9), 9), Err(RefreshError::Superseded));
    assert_eq!(batch_ticket_current(1, 1, source(), Some(5), &actor, "shuna@dog.example", Some(9), 9), Err(RefreshError::Superseded));
    assert_eq!(batch_ticket_current(1, 1, source(), Some(4), &None, "shuna@dog.example", Some(9), 9), Err(RefreshError::Superseded));
    assert_eq!(batch_ticket_current(1, 1, source(), Some(4), &actor, "other@dog.example", Some(9), 9), Err(RefreshError::Superseded));
    assert_eq!(batch_ticket_current(1, 1, source(), Some(4), &actor, "shuna@dog.example", None, 9), Err(RefreshError::Superseded));
    assert_eq!(kept_key(Fetched::Absent, Some("avatars/old".into())), None);
    assert_eq!(kept_key(Fetched::Failed, Some("avatars/old".into())), Some("avatars/old".to_string()));
    assert_eq!(kept_key(Fetched::Failed, None), None);
    assert_eq!(kept_key(Fetched::Published("avatars/new".into()), Some("avatars/old".into())), Some("avatars/new".to_string()));
}
