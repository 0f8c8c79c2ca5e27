use fediversekr::auth::AuthError;
use fediversekr::catalog_editing::Error as CatalogError;
use fediversekr::moderation::{
    admin_role_change, ban_allowed, ban_states, catalog_error, delete_allowed, filter,
    member_action_allowed, next_status, page, require_admin, role_labels, snapshot_current,
    Action, AuthorView, CommentView, Error,
};

#[test]
fn report_filters_pages_and_audit_keys_are_fixed() {
    for s in ["all", "pending", "resolved", "dismissed"] {
        assert_eq!(filter(s), Ok(s));
    }
    assert_eq!(filter("Pending"), Err(Error::Invalid));
    assert_eq!(filter("all' OR 1=1"), Err(Error::Invalid));
    assert_eq!(page(10_000), Ok(()));
    assert_eq!(page(10_001), Err(Error::Invalid));
    assert_eq!(Action::Resolve.key(), "resolve");
    assert_eq!(Action::Dismiss.key(), "dismiss");
    assert_eq!(Action::Reopen.key(), "reopen");
    assert_eq!(Action::DeleteComment.key(), "delete_comment");
    assert_eq!(Action::Ban.key(), "ban");
    assert_eq!(Action::Unban.key(), "unban");
}

#[test]
fn status_actions_move_reports_and_refuse_no_op_changes() {
    assert_eq!(next_status(Action::Resolve, "pending"), Ok("resolved"));
    assert_eq!(next_status(Action::Dismiss, "resolved"), Ok("dismissed"));
    assert_eq!(next_status(Action::Reopen, "dismissed"), Ok("pending"));
    assert_eq!(next_status(Action::Resolve, "resolved"), Err(Error::Conflict));
    assert_eq!(next_status(Action::Reopen, "pending"), Err(Error::Conflict));
}

#[test]
fn bans_target_only_the_seen_author_and_never_admins() {
    let seen = AuthorView { id: Some(7), banned: Some(false), revision: Some(3) };
    assert_eq!(member_action_allowed(1, &seen, false, Some(false), Some(3)), Ok(7));
    assert_eq!(member_action_allowed(7, &seen, false, Some(false), Some(3)), Err(Error::Protected));
    assert_eq!(member_action_allowed(1, &seen, true, Some(false), Some(3)), Err(Error::Protected));
    assert_eq!(member_action_allowed(1, &seen, false, Some(true), Some(3)), Err(Error::Conflict));
    assert_eq!(member_action_allowed(1, &seen, false, Some(false), Some(4)), Err(Error::Conflict));
    assert_eq!(member_action_allowed(1, &seen, false, None, None), Err(Error::Conflict));
    let unknown = AuthorView { id: None, banned: None, revision: None };
    assert_eq!(member_action_allowed(1, &unknown, false, None, None), Err(Error::Conflict));

    let comment = CommentView { id: 40, user_id: Some(7), banned: Some(false), deleted: false };
    assert_eq!(ban_allowed(Some(&comment), &seen, true), Ok(7));
    assert_eq!(ban_allowed(Some(&comment), &seen, false), Err(Error::Conflict));
    let other = AuthorView { id: Some(8), banned: Some(false), revision: Some(3) };
    assert_eq!(ban_allowed(Some(&comment), &other, true), Err(Error::Conflict));
    assert_eq!(ban_allowed(None, &seen, true), Err(Error::Missing));
    let orphan = CommentView { id: 41, user_id: None, banned: None, deleted: false };
    assert_eq!(ban_allowed(Some(&orphan), &unknown, true), Err(Error::Conflict));
    assert_eq!(ban_states(true), ("active", "banned"));
    assert_eq!(ban_states(false), ("banned", "active"));
}

#[test]
fn deletions_and_snapshots_are_checked_under_lock() {
    let visible = CommentView { id: 40, user_id: Some(7), banned: Some(false), deleted: false };
    let deleted = CommentView { deleted: true, ..visible };
    assert_eq!(delete_allowed(Some(&visible)), Ok(40));
    assert_eq!(delete_allowed(Some(&deleted)), Err(Error::Conflict));
    assert_eq!(delete_allowed(None), Err(Error::Missing));
    assert_eq!(snapshot_current(2, 2, Some(1), Some(1), Some(9), Some(9), Some(5), Some(5)), Ok(()));
    assert_eq!(
        snapshot_current(3, 2, Some(1), Some(1), Some(9), Some(9), Some(5), Some(5)),
        Err(Error::Conflict)
    );
    assert_eq!(
        snapshot_current(2, 2, None, Some(1), Some(9), Some(9), Some(5), Some(5)),
        Err(Error::Conflict)
    );
    assert_eq!(
        snapshot_current(2, 2, Some(1), Some(1), Some(9), Some(9), Some(6), Some(5)),
        Err(Error::Conflict)
    );
}

#[test]
fn admin_roles_are_idempotent_and_never_granted_to_banned_members() {
    assert_eq!(admin_role_change(true, false, false), Ok(true));
    assert_eq!(admin_role_change(true, false, true), Ok(false));
    assert_eq!(admin_role_change(false, true, true), Ok(true));
    assert_eq!(admin_role_change(false, false, false), Ok(false));
    assert_eq!(admin_role_change(true, true, false), Err(Error::Protected));
    assert_eq!(role_labels(true), ("grant", "member", "admin"));
    assert_eq!(role_labels(false), ("revoke", "admin", "member"));
    assert_eq!(require_admin(true), Ok(()));
    assert_eq!(require_admin(false), Err(Error::Forbidden));
    assert_eq!(
        catalog_error(Error::Auth(AuthError::Unauthenticated)),
        CatalogError::Auth(AuthError::Unauthenticated)
    );
    assert_eq!(catalog_error(Error::Forbidden), CatalogError::Forbidden);
    assert_eq!(catalog_error(Error::Conflict), CatalogError::Unavailable);
}
