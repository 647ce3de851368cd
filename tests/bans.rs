use cs2kz_api::auth::Session;
use cs2kz_api::bans::{
    check_patch, check_revert, expect_one_row, patch_query, AuditKind, BanError, BanLedger,
    BanState, BanUpdate,
};
use cs2kz_api::error::AuthError;
use cs2kz_api::permissions::{Permissions, MANAGE_BANS, MANAGE_MAPS};

const ADMIN: u64 = 76561198282622073;
const PLAYER: u64 = 76561198000000001;

fn admin() -> Session {
    Session { user_id: ADMIN, permissions: Permissions { bits: MANAGE_BANS }, exp: u64::MAX }
}

fn no_update() -> BanUpdate {
    BanUpdate { reason: None, expires_on: None }
}

#[test]
fn create_then_patch_reason() {
    let mut ledger = BanLedger::new();
    let id = ledger.create(&admin(), PLAYER, String::from("cheating"), None, 100).unwrap();
    assert_eq!(id, 1);
    let update = BanUpdate { reason: Some(String::from("confirmed cheating")), expires_on: None };
    assert_eq!(ledger.patch(&admin(), id, update, 200), Ok(1));
    let ban = ledger.get(id).unwrap();
    assert_eq!(ban.reason, "confirmed cheating");
    assert_eq!(ban.player_id, PLAYER);
    assert_eq!(ban.admin_id, ADMIN);
    assert_eq!(ban.expires_on, None);
    let log = ledger.audit_log();
    assert_eq!(log.len(), 2);
    assert_eq!(log[0].kind, AuditKind::CreatedBan);
    assert_eq!(log[1].kind, AuditKind::UpdatedBan);
    assert_eq!(log[1].timestamp, 200);
}

fn ledger_with_bans(n: u64) -> BanLedger {
    let mut ledger = BanLedger::new();
    for i in 0..n {
        ledger.create(&admin(), PLAYER + i, format!("ban {i}"), Some(1000), 10).unwrap();
    }
    ledger
}

#[test]
fn revert_then_revert_again_conflicts() {
    let mut ledger = ledger_with_bans(7);
    let unban_id = ledger.revert(&admin(), 7, String::from("appeal accepted"), 500).unwrap();
    assert_eq!(ledger.unban_of(7), Some(unban_id));
    assert_eq!(ledger.get(7).unwrap().expires_on, Some(500));
    assert_eq!(
        ledger.revert(&admin(), 7, String::from("x"), 600),
        Err(BanError::Conflict { unban_id })
    );
    assert_eq!(BanError::Conflict { unban_id }.status(), 409);
    assert_eq!(ledger.unban_count(), 1);
}

#[test]
fn patch_after_revert_conflicts() {
    let mut ledger = ledger_with_bans(2);
    let unban_id = ledger.revert(&admin(), 2, String::from("mistake"), 50).unwrap();
    let update = BanUpdate { reason: None, expires_on: Some(99) };
    assert_eq!(ledger.patch(&admin(), 2, update, 60), Err(BanError::Conflict { unban_id }));
    assert_eq!(ledger.get(2).unwrap().expires_on, Some(50));
}

#[test]
fn patch_without_ban_permission_changes_nothing() {
    let mut ledger = ledger_with_bans(3);
    let maps_only = Session { user_id: 9, permissions: Permissions { bits: MANAGE_MAPS }, exp: 1 };
    let update = BanUpdate { reason: Some(String::from("edited")), expires_on: Some(5) };
    let r = ledger.patch(&maps_only, 2, update, 70);
    assert_eq!(r, Err(BanError::Unauthorized(AuthError::InsufficientPermissions)));
    assert_eq!(r.unwrap_err().status(), 401);
    assert_eq!(ledger.get(2).unwrap().reason, "ban 1");
    assert_eq!(ledger.get(2).unwrap().expires_on, Some(1000));
    assert_eq!(ledger.audit_log().len(), 3);
}

#[test]
fn empty_patch_is_a_successful_noop() {
    let mut ledger = ledger_with_bans(1);
    ledger.revert(&admin(), 1, String::from("r"), 20).unwrap();
    let entries = ledger.audit_log().len();
    assert_eq!(ledger.patch(&admin(), 1, no_update(), 30), Ok(0));
    assert_eq!(ledger.patch(&admin(), 99, no_update(), 30), Ok(0));
    assert_eq!(ledger.audit_log().len(), entries);
}

#[test]
fn unknown_ban_is_not_found() {
    let mut ledger = ledger_with_bans(2);
    let update = BanUpdate { reason: Some(String::from("x")), expires_on: None };
    assert_eq!(ledger.patch(&admin(), 3, update, 1), Err(BanError::NotFound));
    assert_eq!(ledger.revert(&admin(), 0, String::from("x"), 1), Err(BanError::NotFound));
    assert_eq!(BanError::NotFound.status(), 404);
    assert!(ledger.get(0).is_none());
    assert!(ledger.get(3).is_none());
}

#[test]
fn one_audit_entry_per_mutation() {
    let mut ledger = ledger_with_bans(2);
    let unban = ledger.revert(&admin(), 1, String::from("appeal"), 40).unwrap();
    let log = ledger.audit_log();
    assert_eq!(log.len(), 3);
    assert_eq!(log[2].kind, AuditKind::RevertedBan);
    assert_eq!(log[2].ban_id, 1);
    assert_eq!(log[2].unban_id, Some(unban));
    assert_eq!(log[2].actor_id, ADMIN);
}

#[test]
fn reverting_one_ban_leaves_others_active() {
    let mut ledger = ledger_with_bans(3);
    let u1 = ledger.revert(&admin(), 1, String::from("a"), 5).unwrap();
    let u3 = ledger.revert(&admin(), 3, String::from("b"), 6).unwrap();
    assert_ne!(u1, u3);
    assert_eq!(ledger.unban_of(2), None);
    let update = BanUpdate { reason: Some(String::from("still banned")), expires_on: None };
    assert_eq!(ledger.patch(&admin(), 2, update, 7), Ok(1));
    assert_eq!(ledger.ban_count(), 3);
}

#[test]
fn unauthorized_create_and_revert() {
    let mut ledger = ledger_with_bans(1);
    let nobody = Session { user_id: 1, permissions: Permissions { bits: 0 }, exp: 1 };
    assert!(ledger.create(&nobody, 5, String::from("x"), None, 1).is_err());
    assert!(ledger.revert(&nobody, 1, String::from("x"), 1).is_err());
    assert_eq!(ledger.ban_count(), 1);
    assert_eq!(ledger.unban_count(), 0);
}

#[test]
fn store_decisions() {
    let nobody = Session { user_id: 1, permissions: Permissions { bits: MANAGE_MAPS }, exp: 1 };
    let edit = BanUpdate { reason: Some(String::from("r")), expires_on: None };
    assert_eq!(check_patch(&admin(), &no_update(), Some(4)), Ok(false));
    assert_eq!(check_patch(&admin(), &edit, None), Ok(true));
    assert_eq!(check_patch(&admin(), &edit, Some(4)), Err(BanError::Conflict { unban_id: 4 }));
    assert!(matches!(check_patch(&nobody, &edit, None), Err(BanError::Unauthorized(_))));
    assert_eq!(check_revert(&admin(), None), Ok(()));
    assert_eq!(check_revert(&admin(), Some(9)), Err(BanError::Conflict { unban_id: 9 }));
    assert!(check_revert(&nobody, None).is_err());
    assert_eq!(expect_one_row(1), Ok(()));
    assert_eq!(expect_one_row(0), Err(BanError::NotFound));
}

#[test]
fn patch_statement_writes_supplied_fields_only() {
    let reason_only = BanUpdate { reason: Some(String::from("r")), expires_on: None };
    assert_eq!(
        patch_query(&reason_only).build().unwrap(),
        "UPDATE Bans SET reason = ? WHERE id = ?"
    );
    let both = BanUpdate { reason: Some(String::from("r")), expires_on: Some(5) };
    assert_eq!(
        patch_query(&both).build().unwrap(),
        "UPDATE Bans SET reason = ?, expires_on = FROM_UNIXTIME(?) WHERE id = ?"
    );
    let expiry_only = BanUpdate { reason: None, expires_on: Some(5) };
    assert_eq!(
        patch_query(&expiry_only).build().unwrap(),
        "UPDATE Bans SET expires_on = FROM_UNIXTIME(?) WHERE id = ?"
    );
    assert_eq!(patch_query(&no_update()).build(), None);
}

#[test]
fn lifecycle_states() {
    let mut ledger = BanLedger::new();
    let timed = ledger.create(&admin(), PLAYER, String::from("a"), Some(100), 10).unwrap();
    let forever = ledger.create(&admin(), PLAYER, String::from("b"), None, 10).unwrap();
    assert_eq!(ledger.state(timed, 99), Some(BanState::Active));
    assert_eq!(ledger.state(timed, 100), Some(BanState::NaturallyExpired));
    assert_eq!(ledger.state(forever, u64::MAX), Some(BanState::Active));
    assert_eq!(ledger.state(3, 0), None);
    let unban_id = ledger.revert(&admin(), timed, String::from("late appeal"), 200).unwrap();
    assert_eq!(ledger.state(timed, 300), Some(BanState::Reverted { unban_id }));
    assert_eq!(ledger.state(timed, 0), Some(BanState::Reverted { unban_id }));
}
