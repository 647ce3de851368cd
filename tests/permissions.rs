use cs2kz_api::error::AuthError;
use cs2kz_api::permissions::{
    authorize, Permissions, Role, MANAGE_ADMINS, MANAGE_BANS, MANAGE_MAPS, MANAGE_SERVERS,
};

fn mask(bits: u32) -> Permissions {
    Permissions { bits }
}

#[test]
fn authorize_empty_requirement_by_empty_mask() {
    assert_eq!(authorize(mask(0), mask(0)), Ok(()));
}

#[test]
fn authorize_superset_succeeds() {
    assert_eq!(authorize(mask(MANAGE_BANS | MANAGE_MAPS), mask(MANAGE_BANS)), Ok(()));
    assert_eq!(authorize(mask(u32::MAX), mask(0x8000_0001)), Ok(()));
}

#[test]
fn authorize_missing_bit_fails() {
    assert_eq!(
        authorize(mask(MANAGE_MAPS), mask(MANAGE_BANS)),
        Err(AuthError::InsufficientPermissions)
    );
    assert_eq!(
        authorize(mask(MANAGE_BANS), mask(MANAGE_BANS | MANAGE_SERVERS)),
        Err(AuthError::InsufficientPermissions)
    );
    assert_eq!(authorize(mask(0), mask(0x8000_0000)), Err(AuthError::InsufficientPermissions));
}

#[test]
fn contains_is_subset_not_equality() {
    assert!(mask(0b1111).contains(mask(0b0101)));
    assert!(!mask(0b0101).contains(mask(0b1111)));
    assert!(mask(7).contains(mask(0)));
}

#[test]
fn roles_expand_to_distinct_nonzero_masks() {
    assert_eq!(Role::Bans.to_mask().bits, MANAGE_BANS);
    assert_eq!(Role::Servers.to_mask().bits, MANAGE_SERVERS);
    assert_eq!(Role::Maps.to_mask().bits, MANAGE_MAPS);
    assert_eq!(Role::Admins.to_mask().bits, MANAGE_ADMINS);
}

#[test]
fn roles_combine_with_or() {
    let roles = vec![Role::Bans, Role::Maps, Role::Bans];
    assert_eq!(Permissions::from_roles(&roles).bits, MANAGE_BANS | MANAGE_MAPS);
    assert_eq!(Permissions::from_roles(&Vec::new()).bits, 0);
    assert_eq!(mask(1).union(mask(8)).bits, 9);
}
