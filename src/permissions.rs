//! Permission masks: a fixed-width bit set of named capabilities, and roles
//! that expand to such masks.

use vstd::prelude::*;
use crate::error::AuthError;

verus! {

/// Bit of the capability to create, edit and revert bans.
pub const MANAGE_BANS: u32 = 1;

/// Bit of the capability to approve and edit servers.
pub const MANAGE_SERVERS: u32 = 2;

/// Bit of the capability to edit maps, courses and filters.
pub const MANAGE_MAPS: u32 = 4;

/// Bit of the capability to grant and revoke roles.
pub const MANAGE_ADMINS: u32 = 8;

/// Whether bit `i` is set in `mask`.
pub open spec fn has_bit(mask: u32, i: u32) -> bool {
    (mask >> i) & 1u32 == 1u32
}

/// Every bit set in `required` is also set in `held`.
pub open spec fn covers(held: u32, required: u32) -> bool {
    forall|i: u32| i < 32 && #[trigger] has_bit(required, i) ==> has_bit(held, i)
}

/// A set of capabilities, one bit each.
#[derive(Clone, Copy, Debug, PartialEq, Eq, Structural, Hash)]
pub struct Permissions {
    pub bits: u32,
}

/// A named bundle of capabilities.
#[derive(Clone, Copy, Debug, PartialEq, Eq, Structural, Hash)]
pub enum Role {
    Bans,
    Servers,
    Maps,
    Admins,
}

impl Role {
    pub open spec fn spec_mask(self) -> u32 {
        match self {
            Role::Bans => MANAGE_BANS,
            Role::Servers => MANAGE_SERVERS,
            Role::Maps => MANAGE_MAPS,
            Role::Admins => MANAGE_ADMINS,
        }
    }

    /// The mask this role expands to.
    pub fn to_mask(&self) -> (r: Permissions)
        ensures
            r.bits == self.spec_mask(),
            r.bits != 0,
    {
        match self {
            Role::Bans => Permissions { bits: MANAGE_BANS },
            Role::Servers => Permissions { bits: MANAGE_SERVERS },
            Role::Maps => Permissions { bits: MANAGE_MAPS },
            Role::Admins => Permissions { bits: MANAGE_ADMINS },
        }
    }
}

/// The OR of the masks of all `roles`.
pub open spec fn roles_mask(roles: Seq<Role>) -> u32
    decreases roles.len(),
{
    if roles.len() == 0 {
        0
    } else {
        roles_mask(roles.drop_last()) | roles.last().spec_mask()
    }
}

/// A nonzero mask has some bit below 32 set.
proof fn lemma_nonzero_has_bit(x: u32)
    requires
        x != 0,
    ensures
        exists|i: u32| i < 32 && #[trigger] has_bit(x, i),
{
    assert(x == 0 || (x >> 0u32) & 1 == 1 || (x >> 1u32) & 1 == 1 || (x >> 2u32) & 1 == 1
        || (x >> 3u32) & 1 == 1 || (x >> 4u32) & 1 == 1 || (x >> 5u32) & 1 == 1 || (x >> 6u32)
        & 1 == 1 || (x >> 7u32) & 1 == 1 || (x >> 8u32) & 1 == 1 || (x >> 9u32) & 1 == 1 || (x
        >> 10u32) & 1 == 1 || (x >> 11u32) & 1 == 1 || (x >> 12u32) & 1 == 1 || (x >> 13u32) & 1
        == 1 || (x >> 14u32) & 1 == 1 || (x >> 15u32) & 1 == 1 || (x >> 16u32) & 1 == 1 || (x
        >> 17u32) & 1 == 1 || (x >> 18u32) & 1 == 1 || (x >> 19u32) & 1 == 1 || (x >> 20u32) & 1
        == 1 || (x >> 21u32) & 1 == 1 || (x >> 22u32) & 1 == 1 || (x >> 23u32) & 1 == 1 || (x
        >> 24u32) & 1 == 1 || (x >> 25u32) & 1 == 1 || (x >> 26u32) & 1 == 1 || (x >> 27u32) & 1
        == 1 || (x >> 28u32) & 1 == 1 || (x >> 29u32) & 1 == 1 || (x >> 30u32) & 1 == 1 || (x
        >> 31u32) & 1 == 1) by (bit_vector);
    if has_bit(x, 0) {
    } else if has_bit(x, 1) {
    } else if has_bit(x, 2) {
    } else if has_bit(x, 3) {
    } else if has_bit(x, 4) {
    } else if has_bit(x, 5) {
    } else if has_bit(x, 6) {
    } else if has_bit(x, 7) {
    } else if has_bit(x, 8) {
    } else if has_bit(x, 9) {
    } else if has_bit(x, 10) {
    } else if has_bit(x, 11) {
    } else if has_bit(x, 12) {
    } else if has_bit(x, 13) {
    } else if has_bit(x, 14) {
    } else if has_bit(x, 15) {
    } else if has_bit(x, 16) {
    } else if has_bit(x, 17) {
    } else if has_bit(x, 18) {
    } else if has_bit(x, 19) {
    } else if has_bit(x, 20) {
    } else if has_bit(x, 21) {
    } else if has_bit(x, 22) {
    } else if has_bit(x, 23) {
    } else if has_bit(x, 24) {
    } else if has_bit(x, 25) {
    } else if has_bit(x, 26) {
    } else if has_bit(x, 27) {
    } else if has_bit(x, 28) {
    } else if has_bit(x, 29) {
    } else if has_bit(x, 30) {
    } else {
        assert(has_bit(x, 31));
    }
}

/// The subset test on masks is exactly "every required bit is held".
pub proof fn lemma_subset_test(held: u32, required: u32)
    ensures
        (required & held == required) <==> covers(held, required),
{
    if required & held == required {
        assert forall|i: u32| i < 32 && #[trigger] has_bit(required, i) implies has_bit(held, i) by {
            assert((required & held == required && i < 32 && (required >> i) & 1u32 == 1u32) ==> (
            held >> i) & 1u32 == 1u32) by (bit_vector);
        }
    } else {
        let d: u32 = required & !held;
        assert(required & held != required ==> required & !held != 0) by (bit_vector);
        lemma_nonzero_has_bit(d);
        let i = choose|i: u32| i < 32 && #[trigger] has_bit(d, i);
        assert(((d == required & !held) && i < 32 && (d >> i) & 1u32 == 1u32) ==> ((required >> i)
            & 1u32 == 1u32 && (held >> i) & 1u32 != 1u32)) by (bit_vector);
        assert(has_bit(required, i) && !has_bit(held, i));
    }
}

impl Permissions {
    /// The empty set of capabilities.
    pub fn none() -> (r: Permissions)
        ensures
            r.bits == 0,
    {
        Permissions { bits: 0 }
    }

    /// Whether `self` holds at least the capabilities of `required`.
    pub fn contains(&self, required: Permissions) -> (r: bool)
        ensures
            r == covers(self.bits, required.bits),
    {
        proof {
            lemma_subset_test(self.bits, required.bits);
        }
        required.bits & self.bits == required.bits
    }

    /// The capabilities of `self` and of `other` together.
    pub fn union(&self, other: Permissions) -> (r: Permissions)
        ensures
            r.bits == self.bits | other.bits,
    {
        Permissions { bits: self.bits | other.bits }
    }

    /// The mask of a principal holding all of `roles`.
    pub fn from_roles(roles: &Vec<Role>) -> (r: Permissions)
        ensures
            r.bits == roles_mask(roles@),
    {
        let mut acc = Permissions::none();
        let mut i: usize = 0;
        while i < roles.len()
            invariant
                i <= roles@.len(),
                acc.bits == roles_mask(roles@.subrange(0, i as int)),
            decreases roles@.len() - i,
        {
            let m = roles[i].to_mask();
            proof {
                let next = roles@.subrange(0, i as int + 1);
                assert(next.drop_last() =~= roles@.subrange(0, i as int));
            }
            acc = acc.union(m);
            i = i + 1;
        }
        assert(roles@.subrange(0, roles@.len() as int) =~= roles@);
        acc
    }
}

/// Lets a principal holding `held` act where `required` is needed: it
/// succeeds exactly when every bit of `required` is also in `held`.
pub fn authorize(held: Permissions, required: Permissions) -> (r: Result<(), AuthError>)
    ensures
        r is Ok <==> covers(held.bits, required.bits),
        r is Err ==> r == Err::<(), AuthError>(AuthError::InsufficientPermissions),
{
    if held.contains(required) {
        Ok(())
    } else {
        Err(AuthError::InsufficientPermissions)
    }
}

/// Authorization is the subset test: it holds exactly when every bit of
/// `required` is in `held`; no requirement is met by anyone (in particular by
/// the empty mask); and a required bit missing from `held` always refuses.
pub proof fn lemma_authorize(held: u32, required: u32)
    ensures
        covers(held, required) <==> (required & held == required),
        covers(held, 0),
        covers(0, 0),
        (exists|i: u32| i < 32 && has_bit(required, i) && !has_bit(held, i)) ==> !covers(
            held,
            required,
        ),
{
    lemma_subset_test(held, required);
    lemma_subset_test(held, 0);
    lemma_subset_test(0, 0);
    assert(0u32 & held == 0u32) by (bit_vector);
    assert(0u32 & 0u32 == 0u32) by (bit_vector);
}

} // verus!
