//! The ban lifecycle: bans are created, patched while active, and reverted
//! by exactly one unban. Every successful mutation appends one audit entry.
//!
//! `BanLedger` is the transactional view that a handler holds of the store:
//! each operation reads and writes it in one step, so an operation that
//! fails leaves it as it was.

use vstd::prelude::*;
use crate::auth::Session;
use crate::error::AuthError;
use crate::permissions::{covers, Permissions, MANAGE_BANS};
use crate::query::UpdateQuery;

verus! {

/// A punitive record against a player.
#[derive(Debug)]
pub struct Ban {
    pub id: u64,
    pub player_id: u64,
    pub admin_id: u64,
    pub reason: String,
    pub created_on: u64,
    pub expires_on: Option<u64>,
}

pub struct BanView {
    pub id: u64,
    pub player_id: u64,
    pub admin_id: u64,
    pub reason: Seq<char>,
    pub created_on: u64,
    pub expires_on: Option<u64>,
}

impl View for Ban {
    type V = BanView;

    open spec fn view(&self) -> BanView {
        BanView {
            id: self.id,
            player_id: self.player_id,
            admin_id: self.admin_id,
            reason: self.reason@,
            created_on: self.created_on,
            expires_on: self.expires_on,
        }
    }
}

/// The record that reverts a ban.
#[derive(Debug)]
pub struct Unban {
    pub id: u64,
    pub ban_id: u64,
    pub admin_id: u64,
    pub reason: String,
    pub created_on: u64,
}

pub struct UnbanView {
    pub id: u64,
    pub ban_id: u64,
    pub admin_id: u64,
    pub reason: Seq<char>,
    pub created_on: u64,
}

impl View for Unban {
    type V = UnbanView;

    open spec fn view(&self) -> UnbanView {
        UnbanView {
            id: self.id,
            ban_id: self.ban_id,
            admin_id: self.admin_id,
            reason: self.reason@,
            created_on: self.created_on,
        }
    }
}

/// The fields of a ban that a patch may change; `None` leaves a field as it
/// is.
#[derive(Debug)]
pub struct BanUpdate {
    pub reason: Option<String>,
    pub expires_on: Option<u64>,
}

pub struct BanUpdateView {
    pub reason: Option<Seq<char>>,
    pub expires_on: Option<u64>,
}

impl View for BanUpdate {
    type V = BanUpdateView;

    open spec fn view(&self) -> BanUpdateView {
        BanUpdateView {
            reason: match self.reason {
                Some(r) => Some(r@),
                None => None,
            },
            expires_on: self.expires_on,
        }
    }
}

impl BanUpdate {
    /// Whether the update supplies no field at all.
    pub fn is_empty(&self) -> (r: bool)
        ensures
            r == is_empty_update(self@),
    {
        self.reason.is_none() && self.expires_on.is_none()
    }
}

pub open spec fn is_empty_update(u: BanUpdateView) -> bool {
    u.reason is None && u.expires_on is None
}

/// What an audit entry records.
#[derive(Clone, Copy, Debug, PartialEq, Eq, Structural, Hash)]
pub enum AuditKind {
    CreatedBan,
    UpdatedBan,
    RevertedBan,
}

/// One entry of the append-only audit log.
#[derive(Clone, Copy, Debug, PartialEq, Eq, Structural, Hash)]
pub struct AuditEntry {
    pub kind: AuditKind,
    pub actor_id: u64,
    pub ban_id: u64,
    pub unban_id: Option<u64>,
    pub timestamp: u64,
}

/// Why a ban operation failed.
#[derive(Clone, Copy, Debug, PartialEq, Eq, Structural, Hash)]
pub enum BanError {
    /// The session may not manage bans.
    Unauthorized(AuthError),
    /// The ban was already reverted, by the unban named here.
    Conflict { unban_id: u64 },
    /// No ban has this ID.
    NotFound,
    /// No further ID can be handed out.
    Exhausted,
}

pub struct LedgerView {
    pub bans: Seq<BanView>,
    pub unbans: Seq<UnbanView>,
    pub audit: Seq<AuditEntry>,
}

/// The unban that references `ban_id`, if any.
pub open spec fn find_unban(unbans: Seq<UnbanView>, ban_id: u64) -> Option<u64>
    decreases unbans.len(),
{
    if unbans.len() == 0 {
        None
    } else if unbans.last().ban_id == ban_id {
        Some(unbans.last().id)
    } else {
        find_unban(unbans.drop_last(), ban_id)
    }
}

/// Ban `i` has ID `i + 1`, unban `j` has ID `j + 1` and references an
/// existing ban, and no ban is referenced by two unbans.
pub open spec fn ledger_wf(v: LedgerView) -> bool {
    &&& forall|i: int| 0 <= i < v.bans.len() ==> (#[trigger] v.bans[i]).id == i + 1
    &&& forall|j: int|
        0 <= j < v.unbans.len() ==> (#[trigger] v.unbans[j]).id == j + 1 && 1 <= v.unbans[j].ban_id
            <= v.bans.len()
    &&& forall|j: int, k: int|
        0 <= j < k < v.unbans.len() ==> (#[trigger] v.unbans[j]).ban_id != (
        #[trigger] v.unbans[k]).ban_id
}

/// No ID can follow the `n`-th.
pub open spec fn ids_exhausted(n: nat) -> bool {
    n >= u64::MAX || n >= usize::MAX
}

pub open spec fn has_ban(v: LedgerView, ban_id: u64) -> bool {
    1 <= ban_id <= v.bans.len()
}

pub open spec fn may_manage_bans(s: Session) -> bool {
    covers(s.permissions.bits, MANAGE_BANS)
}

pub open spec fn refused() -> BanError {
    BanError::Unauthorized(AuthError::InsufficientPermissions)
}

pub open spec fn entry(kind: AuditKind, s: Session, ban_id: u64, unban_id: Option<u64>, now: u64) -> AuditEntry {
    AuditEntry { kind, actor_id: s.user_id, ban_id, unban_id, timestamp: now }
}

/// Creating a ban: the new ledger and the new ban's ID.
pub open spec fn create_step(
    v: LedgerView,
    s: Session,
    player_id: u64,
    reason: Seq<char>,
    expires_on: Option<u64>,
    now: u64,
) -> (LedgerView, Result<u64, BanError>) {
    if !may_manage_bans(s) {
        (v, Err(refused()))
    } else if ids_exhausted(v.bans.len()) {
        (v, Err(BanError::Exhausted))
    } else {
        let id = (v.bans.len() + 1) as u64;
        let ban = BanView { id, player_id, admin_id: s.user_id, reason, created_on: now, expires_on };
        (
            LedgerView {
                bans: v.bans.push(ban),
                unbans: v.unbans,
                audit: v.audit.push(entry(AuditKind::CreatedBan, s, id, None, now)),
            },
            Ok(id),
        )
    }
}

/// `b` with the fields that `u` supplies.
pub open spec fn patched(b: BanView, u: BanUpdateView) -> BanView {
    BanView {
        reason: match u.reason {
            Some(r) => r,
            None => b.reason,
        },
        expires_on: match u.expires_on {
            Some(e) => Some(e),
            None => b.expires_on,
        },
        ..b
    }
}

/// Patching a ban: the new ledger and the number of rows changed.
pub open spec fn patch_step(
    v: LedgerView,
    s: Session,
    ban_id: u64,
    u: BanUpdateView,
    now: u64,
) -> (LedgerView, Result<u64, BanError>) {
    if !may_manage_bans(s) {
        (v, Err(refused()))
    } else if is_empty_update(u) {
        (v, Ok(0))
    } else if let Some(unban_id) = find_unban(v.unbans, ban_id) {
        (v, Err(BanError::Conflict { unban_id }))
    } else if !has_ban(v, ban_id) {
        (v, Err(BanError::NotFound))
    } else {
        (
            LedgerView {
                bans: v.bans.update(ban_id - 1, patched(v.bans[ban_id - 1], u)),
                unbans: v.unbans,
                audit: v.audit.push(entry(AuditKind::UpdatedBan, s, ban_id, None, now)),
            },
            Ok(1),
        )
    }
}

/// Reverting a ban: the new ledger and the new unban's ID.
pub open spec fn revert_step(
    v: LedgerView,
    s: Session,
    ban_id: u64,
    reason: Seq<char>,
    now: u64,
) -> (LedgerView, Result<u64, BanError>) {
    if !may_manage_bans(s) {
        (v, Err(refused()))
    } else if let Some(unban_id) = find_unban(v.unbans, ban_id) {
        (v, Err(BanError::Conflict { unban_id }))
    } else if !has_ban(v, ban_id) {
        (v, Err(BanError::NotFound))
    } else if ids_exhausted(v.unbans.len()) {
        (v, Err(BanError::Exhausted))
    } else {
        let id = (v.unbans.len() + 1) as u64;
        let unban = UnbanView { id, ban_id, admin_id: s.user_id, reason, created_on: now };
        (
            LedgerView {
                bans: v.bans.update(
                    ban_id - 1,
                    BanView { expires_on: Some(now), ..v.bans[ban_id - 1] },
                ),
                unbans: v.unbans.push(unban),
                audit: v.audit.push(entry(AuditKind::RevertedBan, s, ban_id, Some(id), now)),
            },
            Ok(id),
        )
    }
}

/// `find_unban` finds an unban exactly when one references the ban, and then
/// gives that unban's ID.
pub proof fn lemma_find_unban(unbans: Seq<UnbanView>, ban_id: u64)
    ensures
        find_unban(unbans, ban_id) is None <==> forall|j: int|
            0 <= j < unbans.len() ==> (#[trigger] unbans[j]).ban_id != ban_id,
        find_unban(unbans, ban_id) is Some ==> exists|j: int|
            0 <= j < unbans.len() && (#[trigger] unbans[j]).ban_id == ban_id && unbans[j].id
                == find_unban(unbans, ban_id)->Some_0,
    decreases unbans.len(),
{
    if unbans.len() > 0 {
        let p = unbans.drop_last();
        lemma_find_unban(p, ban_id);
        if unbans.last().ban_id != ban_id {
            if find_unban(p, ban_id) is Some {
                let j = choose|j: int|
                    0 <= j < p.len() && (#[trigger] p[j]).ban_id == ban_id && p[j].id == find_unban(
                        p,
                        ban_id,
                    )->Some_0;
                assert(unbans[j] == p[j]);
            } else {
                assert forall|j: int| 0 <= j < unbans.len() implies (
                #[trigger] unbans[j]).ban_id != ban_id by {
                    if j < p.len() {
                        assert(unbans[j] == p[j]);
                    }
                }
            }
        } else {
            assert(unbans[unbans.len() - 1].ban_id == ban_id);
        }
    }
}

/// Appending an unban for another ban leaves what `find_unban` gives for
/// `ban_id` as it was.
proof fn lemma_find_unban_push(unbans: Seq<UnbanView>, u: UnbanView, ban_id: u64)
    requires
        u.ban_id != ban_id,
    ensures
        find_unban(unbans.push(u), ban_id) == find_unban(unbans, ban_id),
{
    assert(unbans.push(u).drop_last() =~= unbans);
}

/// Every step keeps the ledger well formed, and keeps every ban that was
/// reverted reverted by the same unban.
pub proof fn lemma_steps_preserve(
    v: LedgerView,
    s: Session,
    ban_id: u64,
    player_id: u64,
    reason: Seq<char>,
    expires_on: Option<u64>,
    u: BanUpdateView,
    now: u64,
    other: u64,
)
    requires
        ledger_wf(v),
    ensures
        ledger_wf(create_step(v, s, player_id, reason, expires_on, now).0),
        ledger_wf(patch_step(v, s, ban_id, u, now).0),
        ledger_wf(revert_step(v, s, ban_id, reason, now).0),
        find_unban(v.unbans, other) is Some ==> {
            &&& find_unban(create_step(v, s, player_id, reason, expires_on, now).0.unbans, other)
                == find_unban(v.unbans, other)
            &&& find_unban(patch_step(v, s, ban_id, u, now).0.unbans, other) == find_unban(
                v.unbans,
                other,
            )
            &&& find_unban(revert_step(v, s, ban_id, reason, now).0.unbans, other) == find_unban(
                v.unbans,
                other,
            )
        },
{
    let (w, r) = revert_step(v, s, ban_id, reason, now);
    if r is Ok {
        lemma_find_unban(v.unbans, ban_id);
        let nu = w.unbans.last();
        assert forall|j: int, k: int|
            0 <= j < k < w.unbans.len() implies (#[trigger] w.unbans[j]).ban_id != (
            #[trigger] w.unbans[k]).ban_id by {
            if k == w.unbans.len() - 1 {
                assert(v.unbans[j] == w.unbans[j]);
            } else {
                assert(v.unbans[j] == w.unbans[j]);
                assert(v.unbans[k] == w.unbans[k]);
            }
        }
        assert forall|j: int| 0 <= j < w.unbans.len() implies (#[trigger] w.unbans[j]).id == j + 1
            && 1 <= w.unbans[j].ban_id <= w.bans.len() by {
            if j < v.unbans.len() {
                assert(v.unbans[j] == w.unbans[j]);
            }
        }
        assert forall|i: int| 0 <= i < w.bans.len() implies (#[trigger] w.bans[i]).id == i + 1 by {
            if i != ban_id - 1 {
                assert(w.bans[i] == v.bans[i]);
            } else {
                assert(v.bans[i].id == i + 1);
            }
        }
        if find_unban(v.unbans, other) is Some {
            if other == ban_id {
            } else {
                lemma_find_unban_push(v.unbans, nu, other);
            }
        }
    }
    let (w2, r2) = patch_step(v, s, ban_id, u, now);
    if r2 is Ok && !is_empty_update(u) {
        assert forall|i: int| 0 <= i < w2.bans.len() implies (#[trigger] w2.bans[i]).id == i + 1 by {
            if i != ban_id - 1 {
                assert(w2.bans[i] == v.bans[i]);
            } else {
                assert(v.bans[i].id == i + 1);
            }
        }
    }
    let (w3, r3) = create_step(v, s, player_id, reason, expires_on, now);
    if r3 is Ok {
        assert forall|i: int| 0 <= i < w3.bans.len() implies (#[trigger] w3.bans[i]).id == i + 1 by {
            if i < v.bans.len() {
                assert(w3.bans[i] == v.bans[i]);
            }
        }
    }
}

/// A patch that supplies no field changes nothing and succeeds, whatever
/// the ban's state.
pub proof fn lemma_empty_patch_is_noop(v: LedgerView, s: Session, ban_id: u64, u: BanUpdateView, now: u64)
    requires
        may_manage_bans(s),
        is_empty_update(u),
    ensures
        patch_step(v, s, ban_id, u, now) == (v, Ok::<u64, BanError>(0)),
{
}

/// Once a ban is reverted, every later revert of it, and every patch that
/// supplies a field, fails with a conflict naming that same unban.
pub proof fn lemma_conflict_after_revert(
    v: LedgerView,
    s: Session,
    ban_id: u64,
    reason: Seq<char>,
    now: u64,
    again: Session,
    again_reason: Seq<char>,
    u: BanUpdateView,
    later: u64,
)
    requires
        ledger_wf(v),
        revert_step(v, s, ban_id, reason, now).1 is Ok,
        may_manage_bans(again),
    ensures
        ({
            let (w, r) = revert_step(v, s, ban_id, reason, now);
            &&& ledger_wf(w)
            &&& find_unban(w.unbans, ban_id) == Some(r->Ok_0)
            &&& revert_step(w, again, ban_id, again_reason, later).1 == Err::<u64, BanError>(
                BanError::Conflict { unban_id: r->Ok_0 },
            )
            &&& !is_empty_update(u) ==> patch_step(w, again, ban_id, u, later).1 == Err::<
                u64,
                BanError,
            >(BanError::Conflict { unban_id: r->Ok_0 })
        }),
{
    lemma_steps_preserve(v, s, ban_id, 0, reason, None, u, now, ban_id);
}

/// Where a ban stands in its lifecycle.
#[derive(Clone, Copy, Debug, PartialEq, Eq, Structural, Hash)]
pub enum BanState {
    /// No unban references it and it has not run out.
    Active,
    /// An unban references it; this is final.
    Reverted { unban_id: u64 },
    /// It ran out on its own, with no unban.
    NaturallyExpired,
}

/// The state of ban `ban_id` at time `now`, if there is such a ban.
pub open spec fn state_of(v: LedgerView, ban_id: u64, now: u64) -> Option<BanState> {
    if !has_ban(v, ban_id) {
        None
    } else if let Some(unban_id) = find_unban(v.unbans, ban_id) {
        Some(BanState::Reverted { unban_id })
    } else if v.bans[ban_id - 1].expires_on matches Some(e) && e <= now {
        Some(BanState::NaturallyExpired)
    } else {
        Some(BanState::Active)
    }
}

/// A reverted ban stays reverted by the same unban through every later
/// step, at every later time.
pub proof fn lemma_reverted_is_terminal(
    v: LedgerView,
    s: Session,
    reverted: u64,
    unban_id: u64,
    now: u64,
    later: u64,
    ban_id: u64,
    player_id: u64,
    reason: Seq<char>,
    expires_on: Option<u64>,
    u: BanUpdateView,
)
    requires
        ledger_wf(v),
        state_of(v, reverted, now) == Some(BanState::Reverted { unban_id }),
    ensures
        state_of(create_step(v, s, player_id, reason, expires_on, now).0, reverted, later) == Some(
            BanState::Reverted { unban_id },
        ),
        state_of(patch_step(v, s, ban_id, u, now).0, reverted, later) == Some(
            BanState::Reverted { unban_id },
        ),
        state_of(revert_step(v, s, ban_id, reason, now).0, reverted, later) == Some(
            BanState::Reverted { unban_id },
        ),
{
    lemma_steps_preserve(v, s, ban_id, player_id, reason, expires_on, u, now, reverted);
}

/// The decision before patching a ban held in an outside store, once the
/// store has said which unban (if any) references it: `Ok(false)` when there
/// is nothing to write, `Ok(true)` when the update is to be written. The
/// same decision as in `patch_step`.
pub fn check_patch(session: &Session, update: &BanUpdate, existing_unban: Option<u64>) -> (r:
    Result<bool, BanError>)
    ensures
        !may_manage_bans(*session) ==> r == Err::<bool, BanError>(refused()),
        may_manage_bans(*session) && is_empty_update(update@) ==> r == Ok::<bool, BanError>(false),
        may_manage_bans(*session) && !is_empty_update(update@) ==> r == match existing_unban {
            Some(unban_id) => Err(BanError::Conflict { unban_id }),
            None => Ok::<bool, BanError>(true),
        },
{
    if !session.permissions.contains(Permissions { bits: MANAGE_BANS }) {
        return Err(BanError::Unauthorized(AuthError::InsufficientPermissions));
    }
    if update.is_empty() {
        return Ok(false);
    }
    match existing_unban {
        Some(unban_id) => Err(BanError::Conflict { unban_id }),
        None => Ok(true),
    }
}

/// The decision before reverting a ban held in an outside store, once the
/// store has said which unban (if any) references it.
pub fn check_revert(session: &Session, existing_unban: Option<u64>) -> (r: Result<(), BanError>)
    ensures
        !may_manage_bans(*session) ==> r == Err::<(), BanError>(refused()),
        may_manage_bans(*session) ==> r == match existing_unban {
            Some(unban_id) => Err(BanError::Conflict { unban_id }),
            None => Ok::<(), BanError>(()),
        },
{
    if !session.permissions.contains(Permissions { bits: MANAGE_BANS }) {
        return Err(BanError::Unauthorized(AuthError::InsufficientPermissions));
    }
    match existing_unban {
        Some(unban_id) => Err(BanError::Conflict { unban_id }),
        None => Ok(()),
    }
}

/// The verdict on a write that must change exactly one row, given how many
/// it changed (more than one is a broken store, which callers treat as
/// fatal before asking).
pub fn expect_one_row(rows_affected: u64) -> (r: Result<(), BanError>)
    requires
        rows_affected <= 1,
    ensures
        rows_affected == 1 <==> r is Ok,
        rows_affected == 0 <==> r == Err::<(), BanError>(BanError::NotFound),
{
    if rows_affected == 0 {
        Err(BanError::NotFound)
    } else {
        Ok(())
    }
}

/// The assignments that a patch with `u` writes, in the order their values
/// are bound: the reason, then the expiry.
pub open spec fn ban_assignments(u: BanUpdateView) -> Seq<Seq<char>> {
    (if u.reason is Some {
        seq!["reason"@ + " = ?"@]
    } else {
        Seq::empty()
    }) + (if u.expires_on is Some {
        seq!["expires_on"@ + " = FROM_UNIXTIME(?)"@]
    } else {
        Seq::empty()
    })
}

/// The update of a row of `Bans` that writes exactly the fields that
/// `update` supplies.
pub fn patch_query(update: &BanUpdate) -> (r: UpdateQuery)
    ensures
        r@.table == "Bans"@,
        r@.assignments == ban_assignments(update@),
{
    let mut q = UpdateQuery::new("Bans");
    if update.reason.is_some() {
        q.set("reason");
    }
    if update.expires_on.is_some() {
        q.set_timestamp("expires_on");
    }
    assert(q@.assignments =~= ban_assignments(update@));
    q
}

/// The bans, unbans and audit log, as a handler sees them inside one
/// transaction.
pub struct BanLedger {
    bans: Vec<Ban>,
    unbans: Vec<Unban>,
    audit: Vec<AuditEntry>,
}

impl View for BanLedger {
    type V = LedgerView;

    closed spec fn view(&self) -> LedgerView {
        LedgerView {
            bans: self.bans@.map_values(|b: Ban| b@),
            unbans: self.unbans@.map_values(|u: Unban| u@),
            audit: self.audit@,
        }
    }
}

impl BanLedger {
    pub open spec fn wf(&self) -> bool {
        ledger_wf(self@)
    }

    /// A ledger with no bans, no unbans and an empty audit log.
    pub fn new() -> (r: BanLedger)
        ensures
            r.wf(),
            r@.bans.len() == 0,
            r@.unbans.len() == 0,
            r@.audit.len() == 0,
    {
        let r = BanLedger { bans: Vec::new(), unbans: Vec::new(), audit: Vec::new() };
        assert(r@.bans =~= Seq::<BanView>::empty());
        assert(r@.unbans =~= Seq::<UnbanView>::empty());
        r
    }

    /// The unban that reverted ban `ban_id`, if it was reverted.
    pub fn unban_of(&self, ban_id: u64) -> (r: Option<u64>)
        ensures
            r == find_unban(self@.unbans, ban_id),
    {
        let mut j: usize = self.unbans.len();
        assert(self@.unbans.subrange(0, j as int) =~= self@.unbans);
        while j > 0
            invariant
                j <= self.unbans@.len(),
                find_unban(self@.unbans, ban_id) == find_unban(
                    self@.unbans.subrange(0, j as int),
                    ban_id,
                ),
            decreases j,
        {
            let u = &self.unbans[j - 1];
            proof {
                let s = self@.unbans.subrange(0, j as int);
                assert(s.last() == u@);
                assert(s.drop_last() =~= self@.unbans.subrange(0, j - 1));
            }
            if u.ban_id == ban_id {
                return Some(u.id);
            }
            j = j - 1;
        }
        None
    }

    /// The ban with ID `ban_id`, if there is one.
    pub fn get(&self, ban_id: u64) -> (r: Option<&Ban>)
        requires
            self.wf(),
        ensures
            has_ban(self@, ban_id) <==> r is Some,
            r is Some ==> r->Some_0@ == self@.bans[ban_id - 1] && r->Some_0.id == ban_id,
    {
        if ban_id == 0 || ban_id > self.bans.len() as u64 {
            None
        } else {
            assert(self@.bans[ban_id - 1] == self.bans@[ban_id - 1]@);
            Some(&self.bans[(ban_id - 1) as usize])
        }
    }

    /// Where ban `ban_id` stands at time `now`, if there is such a ban.
    pub fn state(&self, ban_id: u64, now: u64) -> (r: Option<BanState>)
        requires
            self.wf(),
        ensures
            r == state_of(self@, ban_id, now),
    {
        match self.get(ban_id) {
            None => None,
            Some(ban) => match self.unban_of(ban_id) {
                Some(unban_id) => Some(BanState::Reverted { unban_id }),
                None => match ban.expires_on {
                    Some(e) => if e <= now {
                        Some(BanState::NaturallyExpired)
                    } else {
                        Some(BanState::Active)
                    },
                    None => Some(BanState::Active),
                },
            },
        }
    }

    /// The audit log, oldest entry first.
    pub fn audit_log(&self) -> (r: &Vec<AuditEntry>)
        ensures
            r@ == self@.audit,
    {
        &self.audit
    }

    /// The number of bans.
    pub fn ban_count(&self) -> (r: usize)
        ensures
            r == self@.bans.len(),
    {
        self.bans.len()
    }

    /// The number of unbans.
    pub fn unban_count(&self) -> (r: usize)
        ensures
            r == self@.unbans.len(),
    {
        self.unbans.len()
    }

    /// Creates an active ban of `player_id` by the session's user.
    pub fn create(
        &mut self,
        session: &Session,
        player_id: u64,
        reason: String,
        expires_on: Option<u64>,
        now: u64,
    ) -> (r: Result<u64, BanError>)
        requires
            old(self).wf(),
        ensures
            final(self).wf(),
            (final(self)@, r) == create_step(old(self)@, *session, player_id, reason@, expires_on, now),
    {
        proof {
            lemma_steps_preserve(self@, *session, 0, player_id, reason@, expires_on, BanUpdateView { reason: None, expires_on: None }, now, 0);
        }
        let need = Permissions { bits: MANAGE_BANS };
        if !session.permissions.contains(need) {
            return Err(BanError::Unauthorized(AuthError::InsufficientPermissions));
        }
        if self.bans.len() >= usize::MAX || self.bans.len() as u64 >= u64::MAX {
            return Err(BanError::Exhausted);
        }
        let id = (self.bans.len() + 1) as u64;
        let ban = Ban { id, player_id, admin_id: session.user_id, reason, created_on: now, expires_on };
        self.bans.push(ban);
        self.audit.push(
            AuditEntry {
                kind: AuditKind::CreatedBan,
                actor_id: session.user_id,
                ban_id: id,
                unban_id: None,
                timestamp: now,
            },
        );
        let ghost expected = create_step(old(self)@, *session, player_id, reason@, expires_on, now).0;
        assert(self@.bans =~= expected.bans);
        assert(self@.unbans =~= expected.unbans);
        Ok(id)
    }

    /// Changes the fields of ban `ban_id` that `update` supplies. Returns the
    /// number of rows changed: 0 when `update` supplies nothing, else 1.
    pub fn patch(&mut self, session: &Session, ban_id: u64, update: BanUpdate, now: u64) -> (r:
        Result<u64, BanError>)
        requires
            old(self).wf(),
        ensures
            final(self).wf(),
            (final(self)@, r) == patch_step(old(self)@, *session, ban_id, update@, now),
    {
        proof {
            lemma_steps_preserve(self@, *session, ban_id, 0, Seq::empty(), None, update@, now, 0);
        }
        let need = Permissions { bits: MANAGE_BANS };
        if !session.permissions.contains(need) {
            return Err(BanError::Unauthorized(AuthError::InsufficientPermissions));
        }
        if update.is_empty() {
            return Ok(0);
        }
        if let Some(unban_id) = self.unban_of(ban_id) {
            return Err(BanError::Conflict { unban_id });
        }
        if ban_id == 0 || ban_id > self.bans.len() as u64 {
            return Err(BanError::NotFound);
        }
        let i = (ban_id - 1) as usize;
        let old_ban = &self.bans[i];
        let reason = match update.reason {
            Some(r) => r,
            None => old_ban.reason.clone(),
        };
        let expires_on = match update.expires_on {
            Some(e) => Some(e),
            None => old_ban.expires_on,
        };
        let ban = Ban {
            id: old_ban.id,
            player_id: old_ban.player_id,
            admin_id: old_ban.admin_id,
            reason,
            created_on: old_ban.created_on,
            expires_on,
        };
        self.bans.set(i, ban);
        self.audit.push(
            AuditEntry {
                kind: AuditKind::UpdatedBan,
                actor_id: session.user_id,
                ban_id,
                unban_id: None,
                timestamp: now,
            },
        );
        let ghost expected = patch_step(old(self)@, *session, ban_id, update@, now).0;
        assert(self@.bans =~= expected.bans);
        assert(self@.unbans =~= expected.unbans);
        Ok(1)
    }

    /// Reverts ban `ban_id`: its expiry becomes `now` and an unban by the
    /// session's user references it, both in one step. Returns the unban's
    /// ID.
    pub fn revert(&mut self, session: &Session, ban_id: u64, reason: String, now: u64) -> (r:
        Result<u64, BanError>)
        requires
            old(self).wf(),
        ensures
            final(self).wf(),
            (final(self)@, r) == revert_step(old(self)@, *session, ban_id, reason@, now),
    {
        proof {
            lemma_steps_preserve(self@, *session, ban_id, 0, reason@, None, BanUpdateView { reason: None, expires_on: None }, now, 0);
        }
        let need = Permissions { bits: MANAGE_BANS };
        if !session.permissions.contains(need) {
            return Err(BanError::Unauthorized(AuthError::InsufficientPermissions));
        }
        if let Some(unban_id) = self.unban_of(ban_id) {
            return Err(BanError::Conflict { unban_id });
        }
        if ban_id == 0 || ban_id > self.bans.len() as u64 {
            return Err(BanError::NotFound);
        }
        if self.unbans.len() >= usize::MAX || self.unbans.len() as u64 >= u64::MAX {
            return Err(BanError::Exhausted);
        }
        let i = (ban_id - 1) as usize;
        let old_ban = &self.bans[i];
        let ban = Ban {
            id: old_ban.id,
            player_id: old_ban.player_id,
            admin_id: old_ban.admin_id,
            reason: old_ban.reason.clone(),
            created_on: old_ban.created_on,
            expires_on: Some(now),
        };
        self.bans.set(i, ban);
        let id = (self.unbans.len() + 1) as u64;
        self.unbans.push(
            Unban { id, ban_id, admin_id: session.user_id, reason, created_on: now },
        );
        self.audit.push(
            AuditEntry {
                kind: AuditKind::RevertedBan,
                actor_id: session.user_id,
                ban_id,
                unban_id: Some(id),
                timestamp: now,
            },
        );
        let ghost expected = revert_step(old(self)@, *session, ban_id, reason@, now).0;
        assert(self@.bans =~= expected.bans);
        assert(self@.unbans =~= expected.unbans);
        Ok(id)
    }
}

} // verus!
