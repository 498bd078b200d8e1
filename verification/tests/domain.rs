use coop_deployer::errors::{AuthError, DbError, DeployError, FsError, GitError, GithubError};
use coop_deployer::models::{Campaign, CallerIdentity, CoopMap, DeployResult};

#[test]
fn auth_error_display() {
    let e = AuthError::new("invalid token");
    assert_eq!(e.to_string(), "invalid token");
}

#[test]
fn auth_error_forbidden() {
    let e = AuthError::forbidden("role required");
    assert_eq!(e.to_string(), "role required");
}

#[test]
fn db_error_display() {
    let e = DbError::new("connection refused");
    assert_eq!(e.to_string(), "connection refused");
}

#[test]
fn deploy_error_display() {
    let e = DeployError::new("map not found");
    assert_eq!(e.to_string(), "map not found");
}

#[test]
fn caller_identity_has_role_true() {
    let identity = CallerIdentity {
        user_id: 1,
        username: "alice".into(),
        roles: vec!["COOP_DEPLOYER".into(), "USER".into()],
    };
    assert!(identity.has_role("COOP_DEPLOYER"));
}

#[test]
fn caller_identity_has_role_false() {
    let identity = CallerIdentity {
        user_id: 1,
        username: "alice".into(),
        roles: vec!["USER".into()],
    };
    assert!(!identity.has_role("COOP_DEPLOYER"));
}

#[test]
fn deploy_result_default_is_zero() {
    let result = DeployResult::default();
    assert_eq!(result.updated, 0);
    assert_eq!(result.skipped, 0);
}

#[test]
fn coop_map_fields() {
    let map = CoopMap {
        id: 42,
        name: "Fort Clarke".into(),
        version: 3,
        filename: "maps/fort.v0003.zip".into(),
        checksum: "abc".into(),
    };
    assert_eq!(map.id, 42);
    assert_eq!(map.version, 3);
}

#[test]
fn campaign_map_ids_ordered() {
    let campaign = Campaign { id: 1, name: "UEF".into(), map_ids: vec![10, 20, 30] };
    assert_eq!(campaign.map_ids, vec![10, 20, 30]);
}

#[test]
fn other_errors_display_their_message() {
    assert_eq!(GitError::new("clone failed").to_string(), "clone failed");
    assert_eq!(FsError::new("disk full").to_string(), "disk full");
    assert_eq!(GithubError::new("rate limited").to_string(), "rate limited");
    assert_eq!(AuthError::unauthorized("no token").to_string(), "no token");
}

#[test]
fn deploy_error_with_cause_joins_context_and_cause() {
    let cause = String::from("timeout");
    let e = DeployError::with_cause("git checkout failed: ", &cause);
    assert_eq!(e.to_string(), "git checkout failed: timeout");
}

#[test]
fn has_role_matches_whole_names_only() {
    let identity = CallerIdentity {
        user_id: 7,
        username: "bob".into(),
        roles: vec!["COOP_DEPLOYER_X".into(), "coop_deployer".into()],
    };
    assert!(!identity.has_role("COOP_DEPLOYER"));
    let nobody = CallerIdentity { user_id: 8, username: "eve".into(), roles: vec![] };
    assert!(!nobody.has_role(""));
}
