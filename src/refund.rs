use vstd::prelude::*;

use crate::error::WagerError;
use crate::state::{has_duplicate, is_sentinel, lemma_well_formed_by_roster, GameSession, GameStatus, Pubkey};

verus! {

/// What the ledger holds for a destination that is a token account.
#[derive(Clone, Copy, Debug)]
pub struct TokenAccountData {
    /// Identity that owns the token account
    pub owner: Pubkey,
    /// Token the account is denominated in
    pub mint: Pubkey,
}

/// One entry of the evidence list handed to settlement.
///
/// The list alternates a player claim and that player's destination; for a
/// destination, `token` is the account's token data, or `None` when the
/// account is not a token account.
#[derive(Clone, Copy, Debug)]
pub struct AccountEvidence {
    /// Key of the account
    pub key: Pubkey,
    /// Token account data, where the account is one
    pub token: Option<TokenAccountData>,
}

/// One payment from the pool that settlement asks for.
#[derive(Clone, Copy, Debug)]
pub struct Transfer {
    /// The participant being paid
    pub player: Pubkey,
    /// Position of the destination in the evidence list
    pub destination: usize,
    /// Amount to move, in the pool's token units
    pub amount: u64,
}

/// Number of non-sentinel keys in `players`.
pub open spec fn participant_count(players: Seq<Pubkey>) -> nat
    decreases players.len(),
{
    if players.len() == 0 {
        0
    } else {
        participant_count(players.drop_last()) + if is_sentinel(players.last()) {
            0nat
        } else {
            1nat
        }
    }
}

/// Every destination entry (odd position) of the evidence list is a token account.
pub open spec fn destinations_are_token_accounts(acc: Seq<AccountEvidence>) -> bool {
    forall|j: int| 0 <= j < acc.len() / 2 ==> (#[trigger] acc[2 * j + 1]).token is Some
}

/// The first pair among the first `n` whose claim is `p`.
pub open spec fn first_claim(acc: Seq<AccountEvidence>, p: Pubkey, n: nat) -> Option<int>
    decreases n,
{
    if n == 0 {
        None
    } else {
        match first_claim(acc, p, (n - 1) as nat) {
            Some(j) => Some(j),
            None => if acc[2 * (n - 1)].key == p {
                Some(n - 1)
            } else {
                None
            },
        }
    }
}

/// The transfer owed to participant `p`, or why it cannot be made.
pub open spec fn transfer_for(acc: Seq<AccountEvidence>, p: Pubkey, mint: Pubkey, amount: u64) -> Result<Transfer, WagerError> {
    match first_claim(acc, p, acc.len() / 2) {
        None => Err(WagerError::InvalidPlayer),
        Some(j) => match acc[2 * j + 1].token {
            None => Err(WagerError::InvalidPlayerTokenAccount),
            Some(d) => if d.owner != acc[2 * j].key {
                Err(WagerError::InvalidPlayerTokenAccount)
            } else if d.mint != mint {
                Err(WagerError::InvalidTokenMint)
            } else {
                Ok(Transfer { player: p, destination: (2 * j + 1) as usize, amount })
            },
        },
    }
}

/// The transfers for the participants of `players`, in slot order, or the
/// first participant's failure.
pub open spec fn payouts(players: Seq<Pubkey>, acc: Seq<AccountEvidence>, mint: Pubkey, amount: u64) -> Result<Seq<Transfer>, WagerError>
    decreases players.len(),
{
    if players.len() == 0 {
        Ok(Seq::empty())
    } else {
        match payouts(players.drop_last(), acc, mint, amount) {
            Err(e) => Err(e),
            Ok(ts) => if is_sentinel(players.last()) {
                Ok(ts)
            } else {
                match transfer_for(acc, players.last(), mint, amount) {
                    Err(e) => Err(e),
                    Ok(t) => Ok(ts.push(t)),
                }
            },
        }
    }
}

/// What settling session `s` with a refund to every participant yields: the
/// transfers to issue, or the first check that fails.
pub open spec fn refund_outcome(
    s: GameSession,
    caller: Pubkey,
    vault_balance: u64,
    acc: Seq<AccountEvidence>,
    mint: Pubkey,
) -> Result<Seq<Transfer>, WagerError> {
    let players = s.all_players();
    let total = s.session_bet * participant_count(players);
    if caller != s.authority {
        Err(WagerError::UnauthorizedDistribution)
    } else if s.status == GameStatus::Completed {
        Err(WagerError::GameAlreadyCompleted)
    } else if acc.len() == 0 || acc.len() % 2 != 0 || acc.len() != 2 * players.len() {
        Err(WagerError::InvalidRemainingAccounts)
    } else if !destinations_are_token_accounts(acc) {
        Err(WagerError::InvalidPlayerTokenAccount)
    } else if has_duplicate(players) {
        Err(WagerError::DuplicatePlayer)
    } else if total > u64::MAX {
        Err(WagerError::TotalPotCalculationError)
    } else if vault_balance < total {
        Err(WagerError::InsufficientVaultBalance)
    } else {
        payouts(players, acc, mint, s.session_bet)
    }
}

/// `s` with its status replaced by `status`.
pub open spec fn with_status(s: GameSession, status: GameStatus) -> GameSession {
    GameSession { status, ..s }
}

/// Number of non-sentinel keys in `players`.
fn count_participants(players: &Vec<Pubkey>) -> (r: usize)
    ensures
        r == participant_count(players@),
{
    let mut n: usize = 0;
    let mut i: usize = 0;
    while i < players.len()
        invariant
            i <= players.len(),
            n == participant_count(players@.subrange(0, i as int)),
            n <= i,
        decreases players.len() - i,
    {
        assert(players@.subrange(0, i + 1).drop_last() =~= players@.subrange(0, i as int));
        if !players[i].is_empty() {
            n += 1;
        }
        i += 1;
    }
    assert(players@.subrange(0, i as int) =~= players@);
    n
}

/// Whether some non-sentinel key occurs twice in `players`.
fn find_duplicate(players: &Vec<Pubkey>) -> (r: bool)
    ensures
        r == has_duplicate(players@),
{
    let mut j: usize = 0;
    while j < players.len()
        invariant
            j <= players.len(),
            forall|a: int, b: int|
                0 <= a < b < j ==> !(!is_sentinel(#[trigger] players@[a]) && players@[a] == #[trigger] players@[b]),
        decreases players.len() - j,
    {
        if !players[j].is_empty() {
            let mut i: usize = 0;
            while i < j
                invariant
                    i <= j < players.len(),
                    !is_sentinel(players@[j as int]),
                    forall|a: int| 0 <= a < i ==> #[trigger] players@[a] != players@[j as int],
                decreases j - i,
            {
                if players[i] == players[j] {
                    assert(!is_sentinel(players@[i as int]));
                    return true;
                }
                i += 1;
            }
        }
        j += 1;
    }
    false
}

/// Whether every destination entry of the evidence list is a token account.
fn check_destinations(acc: &Vec<AccountEvidence>) -> (r: bool)
    ensures
        r == destinations_are_token_accounts(acc@),
{
    let pairs = acc.len() / 2;
    let mut j: usize = 0;
    while j < pairs
        invariant
            pairs == acc@.len() / 2,
            2 * pairs <= acc@.len(),
            j <= pairs,
            forall|k: int| 0 <= k < j ==> (#[trigger] acc@[2 * k + 1]).token is Some,
        decreases pairs - j,
    {
        assert(2 * j + 1 < acc.len());
        if acc[2 * j + 1].token.is_none() {
            return false;
        }
        j += 1;
    }
    true
}

/// Index of the first pair whose claim is `player`.
fn find_claim(acc: &Vec<AccountEvidence>, player: Pubkey) -> (r: Option<usize>)
    ensures
        match first_claim(acc@, player, acc@.len() / 2) {
            Some(j) => r == Some(j as usize) && 0 <= j < acc@.len() / 2,
            None => r is None,
        },
{
    let pairs = acc.len() / 2;
    let mut j: usize = 0;
    while j < pairs
        invariant
            pairs == acc@.len() / 2,
            2 * pairs <= acc@.len(),
            j <= pairs,
            first_claim(acc@, player, j as nat) is None,
        decreases pairs - j,
    {
        assert(2 * j + 1 < acc.len());
        if acc[2 * j].key == player {
            assert(first_claim(acc@, player, (j + 1) as nat) == Some(j as int));
            proof { lemma_first_claim_stable(acc@, player, (j + 1) as nat, pairs as nat); }
            return Some(j);
        }
        j += 1;
    }
    None
}

/// Once a claim is found among the first `n` pairs, looking further keeps it.
proof fn lemma_first_claim_stable(acc: Seq<AccountEvidence>, p: Pubkey, n: nat, m: nat)
    requires
        n <= m,
        first_claim(acc, p, n) is Some,
    ensures
        first_claim(acc, p, m) == first_claim(acc, p, n),
        first_claim(acc, p, n).unwrap() < n,
    decreases m - n,
{
    lemma_first_claim_below(acc, p, n);
    if n < m {
        lemma_first_claim_stable(acc, p, n, (m - 1) as nat);
    }
}

/// A claim found among the first `n` pairs lies below `n` and claims `p`.
proof fn lemma_first_claim_below(acc: Seq<AccountEvidence>, p: Pubkey, n: nat)
    ensures
        first_claim(acc, p, n) matches Some(j) ==> 0 <= j < n && acc[2 * j].key == p,
    decreases n,
{
    if n > 0 {
        lemma_first_claim_below(acc, p, (n - 1) as nat);
    }
}

/// The transfer of `amount` owed to `player`, checked against the evidence.
fn make_transfer(acc: &Vec<AccountEvidence>, player: Pubkey, mint: Pubkey, amount: u64) -> (r: Result<Transfer, WagerError>)
    ensures
        match transfer_for(acc@, player, mint, amount) {
            Ok(t) => r matches Ok(u) && u == t,
            Err(e) => r == Err::<Transfer, WagerError>(e),
        },
{
    let j = match find_claim(acc, player) {
        None => return Err(WagerError::InvalidPlayer),
        Some(j) => j,
    };
    assert(2 * j + 1 < acc.len());
    let claim = acc[2 * j];
    let dest = match acc[2 * j + 1].token {
        None => return Err(WagerError::InvalidPlayerTokenAccount),
        Some(d) => d,
    };
    if dest.owner != claim.key {
        return Err(WagerError::InvalidPlayerTokenAccount);
    }
    if dest.mint != mint {
        return Err(WagerError::InvalidTokenMint);
    }
    Ok(Transfer { player, destination: 2 * j + 1, amount })
}

/// A failure among the first `k` slots is the failure of the whole list.
proof fn lemma_payouts_err_extends(players: Seq<Pubkey>, k: int, acc: Seq<AccountEvidence>, mint: Pubkey, amount: u64)
    requires
        0 <= k <= players.len(),
        payouts(players.subrange(0, k), acc, mint, amount) is Err,
    ensures
        payouts(players, acc, mint, amount) == payouts(players.subrange(0, k), acc, mint, amount),
    decreases players.len() - k,
{
    if k == players.len() {
        assert(players.subrange(0, k) =~= players);
    } else {
        assert(players.subrange(0, k + 1).drop_last() =~= players.subrange(0, k));
        lemma_payouts_err_extends(players, k + 1, acc, mint, amount);
    }
}

/// The refund transfers for the participants of `players`, in slot order.
fn collect_payouts(players: &Vec<Pubkey>, acc: &Vec<AccountEvidence>, mint: Pubkey, bet: u64) -> (r: Result<Vec<Transfer>, WagerError>)
    ensures
        match payouts(players@, acc@, mint, bet) {
            Ok(ts) => r matches Ok(v) && v@ == ts,
            Err(e) => r == Err::<Vec<Transfer>, WagerError>(e),
        },
{
    let mut out: Vec<Transfer> = Vec::new();
    let mut i: usize = 0;
    while i < players.len()
        invariant
            i <= players.len(),
            payouts(players@.subrange(0, i as int), acc@, mint, bet) == Ok::<Seq<Transfer>, WagerError>(out@),
        decreases players.len() - i,
    {
        let player = players[i];
        assert(players@.subrange(0, i + 1).drop_last() =~= players@.subrange(0, i as int));
        if !player.is_empty() {
            let refund = match bet.checked_add(0) {
                Some(v) => v,
                None => return Err(WagerError::WinningsCalculationError),
            };
            match make_transfer(acc, player, mint, refund) {
                Err(e) => {
                    proof { lemma_payouts_err_extends(players@, i + 1, acc@, mint, bet); }
                    return Err(e);
                },
                Ok(t) => out.push(t),
            }
        }
        i += 1;
    }
    assert(players@.subrange(0, i as int) =~= players@);
    Ok(out)
}

/// Settles `session` by refunding `session_bet` to every participant.
///
/// `game_server` is the identity asking for settlement, `vault_balance` what
/// the pool holds, and `remaining_accounts` the evidence list: for each of the
/// ten slots a player claim followed by that player's destination. On success
/// the session is marked `Completed` and the transfers to issue are returned,
/// one per participant in slot order; on failure nothing changes.
pub fn refund_wager_handler(
    session: &mut GameSession,
    game_server: Pubkey,
    vault_balance: u64,
    remaining_accounts: &Vec<AccountEvidence>,
    token_mint: Pubkey,
) -> (r: Result<Vec<Transfer>, WagerError>)
    ensures
        match refund_outcome(*old(session), game_server, vault_balance, remaining_accounts@, token_mint) {
            Ok(ts) => r matches Ok(v) && v@ == ts && *final(session) == with_status(
                *old(session),
                GameStatus::Completed,
            ),
            Err(e) => r == Err::<Vec<Transfer>, WagerError>(e) && *final(session) == *old(session),
        },
        old(session).well_formed() ==> final(session).well_formed(),
{
    if game_server != session.authority {
        return Err(WagerError::UnauthorizedDistribution);
    }
    if session.status == GameStatus::Completed {
        return Err(WagerError::GameAlreadyCompleted);
    }
    let players = session.get_all_players();
    let n_accounts = remaining_accounts.len();
    if n_accounts == 0 || n_accounts % 2 != 0 || n_accounts != 2 * players.len() {
        return Err(WagerError::InvalidRemainingAccounts);
    }
    if !check_destinations(remaining_accounts) {
        return Err(WagerError::InvalidPlayerTokenAccount);
    }
    if find_duplicate(&players) {
        return Err(WagerError::DuplicatePlayer);
    }
    let participants = count_participants(&players);
    let total_refund = match session.session_bet.checked_mul(participants as u64) {
        Some(t) => t,
        None => return Err(WagerError::TotalPotCalculationError),
    };
    if vault_balance < total_refund {
        return Err(WagerError::InsufficientVaultBalance);
    }
    let transfers = collect_payouts(&players, remaining_accounts, token_mint, session.session_bet)?;
    let ghost before = *session;
    session.status = GameStatus::Completed;
    proof { lemma_well_formed_by_roster(before, *session); }
    Ok(transfers)
}

/// Every participant of `players` has a claim pair whose destination is a
/// token account of that participant, in the pool's token `mint`.
pub open spec fn claims_cover(players: Seq<Pubkey>, acc: Seq<AccountEvidence>, mint: Pubkey) -> bool {
    forall|i: int|
        0 <= i < players.len() && !is_sentinel(#[trigger] players[i]) ==> match first_claim(acc, players[i], acc.len() / 2) {
            Some(j) => acc[2 * j + 1].token matches Some(d) && d.owner == players[i] && d.mint == mint,
            None => false,
        }
}

/// With every participant covered by the evidence, each one gets exactly one
/// transfer of `amount`.
proof fn lemma_payouts_ok(players: Seq<Pubkey>, acc: Seq<AccountEvidence>, mint: Pubkey, amount: u64)
    requires
        claims_cover(players, acc, mint),
    ensures
        payouts(players, acc, mint, amount) matches Ok(ts) && ts.len() == participant_count(players)
            && forall|k: int| 0 <= k < ts.len() ==> (#[trigger] ts[k]).amount == amount,
    decreases players.len(),
{
    if players.len() > 0 {
        let init = players.drop_last();
        assert forall|i: int| 0 <= i < init.len() && !is_sentinel(#[trigger] init[i]) implies
            match first_claim(acc, init[i], acc.len() / 2) {
                Some(j) => acc[2 * j + 1].token matches Some(d) && d.owner == init[i] && d.mint == mint,
                None => false,
            } by {
            assert(init[i] == players[i]);
        }
        lemma_payouts_ok(init, acc, mint, amount);
        let last = players.last();
        if !is_sentinel(last) {
            assert(players[players.len() - 1] == last);
            lemma_first_claim_below(acc, last, acc.len() / 2);
            let ts = payouts(init, acc, mint, amount)->Ok_0;
            let t = transfer_for(acc, last, mint, amount)->Ok_0;
            assert forall|k: int| 0 <= k < ts.push(t).len() implies (#[trigger] ts.push(t)[k]).amount == amount by {
                if k < ts.len() {
                    assert(ts.push(t)[k] == ts[k]);
                }
            }
        }
    }
}

/// Settlement of an authorized, unsettled session with well-formed evidence,
/// no duplicate player and a pool holding at least `session_bet` times the
/// number of participants succeeds, with exactly one transfer of `session_bet`
/// per participant.
pub proof fn lemma_funded_refund_pays_everyone(
    s: GameSession,
    caller: Pubkey,
    vault_balance: u64,
    acc: Seq<AccountEvidence>,
    mint: Pubkey,
)
    requires
        caller == s.authority,
        s.status != GameStatus::Completed,
        acc.len() == 2 * s.all_players().len(),
        destinations_are_token_accounts(acc),
        !has_duplicate(s.all_players()),
        claims_cover(s.all_players(), acc, mint),
        s.session_bet * participant_count(s.all_players()) <= vault_balance,
    ensures
        refund_outcome(s, caller, vault_balance, acc, mint) matches Ok(ts)
            && ts.len() == participant_count(s.all_players())
            && forall|k: int| 0 <= k < ts.len() ==> (#[trigger] ts[k]).amount == s.session_bet,
{
    lemma_payouts_ok(s.all_players(), acc, mint, s.session_bet);
}

/// A pool holding less than `session_bet` times the number of participants
/// is never settled; once the earlier checks pass and the total fits in a
/// `u64`, the failure is `InsufficientVaultBalance`.
pub proof fn lemma_underfunded_refund_fails(
    s: GameSession,
    caller: Pubkey,
    vault_balance: u64,
    acc: Seq<AccountEvidence>,
    mint: Pubkey,
)
    requires
        vault_balance < s.session_bet * participant_count(s.all_players()),
    ensures
        refund_outcome(s, caller, vault_balance, acc, mint) is Err,
        (caller == s.authority && s.status != GameStatus::Completed && acc.len() == 2 * s.all_players().len()
            && destinations_are_token_accounts(acc) && !has_duplicate(s.all_players())
            && s.session_bet * participant_count(s.all_players()) <= u64::MAX) ==> refund_outcome(
            s,
            caller,
            vault_balance,
            acc,
            mint,
        ) == Err::<Seq<Transfer>, WagerError>(WagerError::InsufficientVaultBalance),
{
}

/// An evidence list whose length is not two entries per slot is never
/// settled; for an authorized, unsettled session the failure is
/// `InvalidRemainingAccounts`.
pub proof fn lemma_evidence_length_mismatch_fails(
    s: GameSession,
    caller: Pubkey,
    vault_balance: u64,
    acc: Seq<AccountEvidence>,
    mint: Pubkey,
)
    requires
        acc.len() != 2 * s.all_players().len(),
    ensures
        refund_outcome(s, caller, vault_balance, acc, mint) is Err,
        (caller == s.authority && s.status != GameStatus::Completed) ==> refund_outcome(
            s,
            caller,
            vault_balance,
            acc,
            mint,
        ) == Err::<Seq<Transfer>, WagerError>(WagerError::InvalidRemainingAccounts),
{
}

/// A session in which one non-empty player holds two slots is never settled;
/// once the authorization, status and evidence checks pass, the failure is
/// `DuplicatePlayer`.
pub proof fn lemma_duplicate_player_fails(
    s: GameSession,
    caller: Pubkey,
    vault_balance: u64,
    acc: Seq<AccountEvidence>,
    mint: Pubkey,
)
    requires
        has_duplicate(s.all_players()),
    ensures
        refund_outcome(s, caller, vault_balance, acc, mint) is Err,
        (caller == s.authority && s.status != GameStatus::Completed && acc.len() == 2 * s.all_players().len()
            && destinations_are_token_accounts(acc)) ==> refund_outcome(s, caller, vault_balance, acc, mint)
            == Err::<Seq<Transfer>, WagerError>(WagerError::DuplicatePlayer),
{
}

} // verus!
