use vstd::prelude::*;

verus! {

/// Every way an operation of this library can fail.
#[derive(Clone, Copy, Debug, PartialEq, Eq, Structural)]
pub enum WagerError {
    /// The team has no empty slot within the mode's player count.
    TeamIsFull,
    /// The team selector is neither 0 nor 1.
    InvalidTeam,
    /// The player is not on the given team (or on either team).
    PlayerNotFound,
    /// A statistic was changed while the game is not in progress.
    GameNotInProgress,
    /// The evidence list is empty, of odd length, or not two entries per slot.
    InvalidRemainingAccounts,
    /// A destination is not a token account, or not owned by its player.
    InvalidPlayerTokenAccount,
    /// A participant has no matching claim in the evidence list.
    InvalidPlayer,
    /// The same non-empty player occupies two slots.
    DuplicatePlayer,
    /// `session_bet` times the number of participants does not fit in a `u64`.
    TotalPotCalculationError,
    /// The pool holds less than the total owed to the participants.
    InsufficientVaultBalance,
    /// A per-player refund amount does not fit in a `u64`.
    WinningsCalculationError,
    /// A destination holds another token than the pool's.
    InvalidTokenMint,
    /// Settlement was asked for by someone other than the session's authority.
    UnauthorizedDistribution,
    /// The session has already been settled.
    GameAlreadyCompleted,
    /// A kill, spawn or score counter would exceed its `u16` range.
    CounterOverflow,
    /// The victim has no spawn credit left to lose.
    SpawnCreditUnderflow,
}

} // verus!
