//! The per-user position ledger: one record per user, created on first
//! deposit and never deleted, only reset to an empty record.

use vstd::prelude::*;

verus! {

/// Lifecycle state of a user's position.
#[derive(Clone, Copy, Debug, PartialEq, Eq, Structural)]
pub enum VaultStatus {
    /// No live position: all fields are zero.
    Empty,
    /// Collateral is locked; deposits, borrows and withdrawal requests are open.
    Active,
    /// A withdrawal is pending; only `finalize_withdraw` may act on the position.
    Withdrawing,
}

/// A user's position.
#[derive(Clone, Copy, Debug, PartialEq, Eq, Structural)]
pub struct Position {
    /// Locked collateral, in motes (9 decimals).
    pub collateral: u64,
    /// Debt principal as of `last_accrual_time`, in wad (18 decimals),
    /// excluding interest accrued since.
    pub debt_principal: u128,
    /// Timestamp of the last interest application, in seconds.
    pub last_accrual_time: u64,
    /// Lifecycle state.
    pub status: VaultStatus,
    /// Amount of an open withdrawal, in motes; non-zero exactly while
    /// `status` is `Withdrawing`.
    pub pending_withdraw: u64,
}

/// A ledger row: a user identity and their position.
#[derive(Clone, Copy, Debug, PartialEq, Eq, Structural)]
pub struct PositionEntry {
    pub user: u64,
    pub position: Position,
}

impl Position {
    /// The position of a user the ledger has never seen.
    pub open spec fn spec_empty() -> Position {
        Position {
            collateral: 0,
            debt_principal: 0,
            last_accrual_time: 0,
            status: VaultStatus::Empty,
            pending_withdraw: 0,
        }
    }

    /// An empty position.
    pub fn empty() -> (r: Position)
        ensures
            r == Position::spec_empty(),
    {
        Position {
            collateral: 0,
            debt_principal: 0,
            last_accrual_time: 0,
            status: VaultStatus::Empty,
            pending_withdraw: 0,
        }
    }

    /// Internal consistency of one position: a withdrawal amount is pending
    /// exactly while the position is withdrawing, and an empty position has
    /// nothing locked and nothing owed.
    pub open spec fn valid(self) -> bool {
        &&& (self.status is Withdrawing <==> self.pending_withdraw > 0)
        &&& (self.status is Empty ==> self.collateral == 0 && self.debt_principal == 0)
    }
}

/// Whether some row of `s` belongs to `user`.
pub open spec fn has_user(s: Seq<PositionEntry>, user: u64) -> bool {
    exists|i: int| 0 <= i < s.len() && s[i].user == user
}

/// The position of `user` in `s`: the first row with their identity, or the
/// empty position if there is none.
pub open spec fn position_of(s: Seq<PositionEntry>, user: u64) -> Position
    decreases s.len(),
{
    if s.len() == 0 {
        Position::spec_empty()
    } else if s[0].user == user {
        s[0].position
    } else {
        position_of(s.drop_first(), user)
    }
}

/// No two rows of `s` share a user identity.
pub open spec fn users_distinct(s: Seq<PositionEntry>) -> bool {
    forall|i: int, j: int| 0 <= i < j < s.len() ==> s[i].user != s[j].user
}

/// The collateral locked across all rows of `s`, in motes.
pub open spec fn sum_collateral(s: Seq<PositionEntry>) -> int
    decreases s.len(),
{
    if s.len() == 0 {
        0
    } else {
        sum_collateral(s.drop_last()) + s.last().position.collateral
    }
}

/// A row found at index `i`, with no earlier row for the same user, is the
/// user's position.
pub proof fn lemma_position_of_found(s: Seq<PositionEntry>, user: u64, i: int)
    requires
        0 <= i < s.len(),
        s[i].user == user,
        forall|k: int| 0 <= k < i ==> s[k].user != user,
    ensures
        has_user(s, user),
        position_of(s, user) == s[i].position,
    decreases i,
{
    if i == 0 {
    } else {
        lemma_position_of_found(s.drop_first(), user, i - 1);
    }
}

/// A user with no row in `s` has the empty position.
pub proof fn lemma_position_of_absent(s: Seq<PositionEntry>, user: u64)
    requires
        forall|k: int| 0 <= k < s.len() ==> s[k].user != user,
    ensures
        !has_user(s, user),
        position_of(s, user) == Position::spec_empty(),
    decreases s.len(),
{
    if s.len() > 0 {
        lemma_position_of_absent(s.drop_first(), user);
    }
}

/// Replacing the row at `i` with a row for the same user changes only that
/// user's position.
pub proof fn lemma_position_of_update(s: Seq<PositionEntry>, i: int, e: PositionEntry, user: u64)
    requires
        users_distinct(s),
        0 <= i < s.len(),
        e.user == s[i].user,
    ensures
        position_of(s.update(i, e), user) == if user == e.user {
            e.position
        } else {
            position_of(s, user)
        },
        has_user(s.update(i, e), user) == has_user(s, user),
    decreases s.len(),
{
    let t = s.update(i, e);
    assert(t.len() == s.len());
    if i == 0 {
        if s[0].user != user {
            assert(t.drop_first() =~= s.drop_first());
        }
    } else {
        assert(t[0] == s[0]);
        if s[0].user == user {
        } else {
            assert(t.drop_first() =~= s.drop_first().update(i - 1, e));
            lemma_position_of_update(s.drop_first(), i - 1, e, user);
        }
    }
    if has_user(s, user) {
        let w = choose|k: int| 0 <= k < s.len() && s[k].user == user;
        assert(t[w].user == user);
    }
    if has_user(t, user) {
        let w = choose|k: int| 0 <= k < t.len() && t[k].user == user;
        assert(s[w].user == user);
    }
}

/// Appending a row for a new user changes only that user's position.
pub proof fn lemma_position_of_push(s: Seq<PositionEntry>, e: PositionEntry, user: u64)
    requires
        !has_user(s, e.user),
    ensures
        position_of(s.push(e), user) == if user == e.user {
            e.position
        } else {
            position_of(s, user)
        },
        has_user(s.push(e), user) == (has_user(s, user) || user == e.user),
    decreases s.len(),
{
    let t = s.push(e);
    if s.len() == 0 {
        assert(t[0] == e);
        assert(t.drop_first() =~= s);
    } else {
        assert(t[0] == s[0]);
        assert(t.drop_first() =~= s.drop_first().push(e));
        assert(!has_user(s.drop_first(), e.user)) by {
            if has_user(s.drop_first(), e.user) {
                let w = choose|k: int|
                    0 <= k < s.drop_first().len() && s.drop_first()[k].user == e.user;
                assert(s[w + 1].user == e.user);
            }
        }
        lemma_position_of_push(s.drop_first(), e, user);
    }
    if has_user(s, user) {
        let w = choose|k: int| 0 <= k < s.len() && s[k].user == user;
        assert(t[w].user == user);
    }
    if user == e.user {
        assert(t[s.len() as int].user == user);
    }
    if has_user(t, user) && user != e.user {
        let w = choose|k: int| 0 <= k < t.len() && t[k].user == user;
        assert(w < s.len());
        assert(s[w].user == user);
    }
}

/// Replacing the row at `i` changes the collateral sum by the difference at
/// that row.
pub proof fn lemma_sum_collateral_update(s: Seq<PositionEntry>, i: int, e: PositionEntry)
    requires
        0 <= i < s.len(),
    ensures
        sum_collateral(s.update(i, e)) == sum_collateral(s) - s[i].position.collateral
            + e.position.collateral,
    decreases s.len(),
{
    let t = s.update(i, e);
    if i == s.len() - 1 {
        assert(t.drop_last() =~= s.drop_last());
        assert(t.last() == e);
    } else {
        assert(t.drop_last() =~= s.drop_last().update(i, e));
        assert(t.last() == s.last());
        lemma_sum_collateral_update(s.drop_last(), i, e);
    }
}

/// Appending a row adds its collateral to the sum.
pub proof fn lemma_sum_collateral_push(s: Seq<PositionEntry>, e: PositionEntry)
    ensures
        sum_collateral(s.push(e)) == sum_collateral(s) + e.position.collateral,
{
    let t = s.push(e);
    assert(t.drop_last() =~= s);
    assert(t.last() == e);
}

/// No row's collateral exceeds the collateral sum.
pub proof fn lemma_sum_collateral_bounds_entry(s: Seq<PositionEntry>, i: int)
    requires
        0 <= i < s.len(),
    ensures
        s[i].position.collateral <= sum_collateral(s),
    decreases s.len(),
{
    if i == s.len() - 1 {
        lemma_sum_collateral_nonnegative(s.drop_last());
    } else {
        assert(s.drop_last()[i] == s[i]);
        lemma_sum_collateral_bounds_entry(s.drop_last(), i);
    }
}

/// The collateral sum is never negative.
pub proof fn lemma_sum_collateral_nonnegative(s: Seq<PositionEntry>)
    ensures
        sum_collateral(s) >= 0,
    decreases s.len(),
{
    if s.len() > 0 {
        lemma_sum_collateral_nonnegative(s.drop_last());
    }
}

/// In a ledger whose rows are all valid, every user's position is valid.
pub proof fn lemma_position_of_valid(s: Seq<PositionEntry>, user: u64)
    requires
        forall|i: int| 0 <= i < s.len() ==> (#[trigger] s[i]).position.valid(),
    ensures
        position_of(s, user).valid(),
    decreases s.len(),
{
    if s.len() == 0 {
    } else if s[0].user == user {
        assert(s[0].position.valid());
    } else {
        assert(forall|i: int|
            0 <= i < s.drop_first().len() ==> (#[trigger] s.drop_first()[i]).position.valid());
        lemma_position_of_valid(s.drop_first(), user);
    }
}

} // verus!
