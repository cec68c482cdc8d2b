use wager_program::error::WagerError;
use wager_program::refund::{refund_wager_handler, AccountEvidence, TokenAccountData, Transfer};
use wager_program::state::{GameMode, GameSession, GameStatus, Pubkey, Team};

fn key(b: u8) -> Pubkey {
    Pubkey::new([b; 32])
}

fn server() -> Pubkey {
    key(200)
}

fn mint() -> Pubkey {
    key(150)
}

fn session(mode: GameMode, bet: u64, a: &[u8], b: &[u8]) -> GameSession {
    let mut team_a = Team::default();
    let mut team_b = Team::default();
    for (i, k) in a.iter().enumerate() {
        team_a.players[i] = key(*k);
    }
    for (i, k) in b.iter().enumerate() {
        team_b.players[i] = key(*k);
    }
    GameSession {
        session_id: String::from("match-7"),
        authority: server(),
        session_bet: bet,
        game_mode: mode,
        team_a,
        team_b,
        status: GameStatus::InProgress,
        created_at: 1_700_000_000,
        bump: 1,
        vault_bump: 2,
        vault_token_bump: 3,
    }
}

/// Destination of player `k`: a token account it owns, in the pool's token.
fn dest(k: u8) -> AccountEvidence {
    AccountEvidence {
        key: key(k + 100),
        token: Some(TokenAccountData { owner: key(k), mint: mint() }),
    }
}

fn claim(k: u8) -> AccountEvidence {
    AccountEvidence { key: key(k), token: None }
}

/// Ten pairs: one per listed player, then filler pairs for a player `250`.
fn evidence(players: &[u8]) -> Vec<AccountEvidence> {
    let mut acc = Vec::new();
    for k in players {
        acc.push(claim(*k));
        acc.push(dest(*k));
    }
    while acc.len() < 20 {
        acc.push(claim(250));
        acc.push(dest(250));
    }
    acc
}

fn summary(ts: &[Transfer]) -> Vec<(Pubkey, usize, u64)> {
    ts.iter().map(|t| (t.player, t.destination, t.amount)).collect()
}

#[test]
fn one_vs_one_refund_pays_both_players() {
    let alice = 1;
    let bob = 2;
    let mut s = session(GameMode::WinnerTakesAllOneVsOne, 100, &[alice], &[bob]);
    let acc = evidence(&[alice, bob]);
    let r = refund_wager_handler(&mut s, server(), 200, &acc, mint()).unwrap();
    assert!(summary(&r) == vec![(key(alice), 1, 100), (key(bob), 3, 100)]);
    assert_eq!(acc[r[0].destination].key, key(101));
    assert_eq!(acc[r[1].destination].key, key(102));
    assert_eq!(s.status, GameStatus::Completed);
}

#[test]
fn one_vs_one_refund_with_short_pool_fails() {
    let mut s = session(GameMode::WinnerTakesAllOneVsOne, 100, &[1], &[2]);
    let acc = evidence(&[1, 2]);
    let r = refund_wager_handler(&mut s, server(), 150, &acc, mint());
    assert_eq!(r.err(), Some(WagerError::InsufficientVaultBalance));
    assert_eq!(s.status, GameStatus::InProgress);
}

#[test]
fn full_refund_issues_one_transfer_per_participant() {
    let mut s = session(GameMode::PayToSpawnThreeVsThree, 40, &[1, 2, 3], &[4, 5, 6]);
    // claims in another order than the slots: lookup is by identity
    let acc = evidence(&[6, 5, 4, 3, 2, 1]);
    let r = refund_wager_handler(&mut s, server(), 240, &acc, mint()).unwrap();
    assert!(
        summary(&r)
            == vec![
                (key(1), 11, 40),
                (key(2), 9, 40),
                (key(3), 7, 40),
                (key(4), 5, 40),
                (key(5), 3, 40),
                (key(6), 1, 40),
            ]
    );
    assert_eq!(s.status, GameStatus::Completed);
}

#[test]
fn refund_with_surplus_pool_succeeds() {
    let mut s = session(GameMode::WinnerTakesAllFiveVsFive, 7, &[1, 2, 3, 4, 5], &[6, 7, 8, 9, 10]);
    let acc = evidence(&[1, 2, 3, 4, 5, 6, 7, 8, 9, 10]);
    let r = refund_wager_handler(&mut s, server(), 1000, &acc, mint()).unwrap();
    assert_eq!(r.len(), 10);
    assert!(r.iter().all(|t| t.amount == 7));
}

#[test]
fn empty_session_refund_pays_nobody() {
    let mut s = session(GameMode::WinnerTakesAllOneVsOne, 100, &[], &[]);
    let acc = evidence(&[]);
    let r = refund_wager_handler(&mut s, server(), 0, &acc, mint()).unwrap();
    assert!(r.is_empty());
    assert_eq!(s.status, GameStatus::Completed);
}

#[test]
fn evidence_length_must_be_two_per_slot() {
    for len in [0usize, 18, 19, 21, 22] {
        let mut s = session(GameMode::WinnerTakesAllOneVsOne, 100, &[1], &[2]);
        let mut acc = evidence(&[1, 2]);
        while acc.len() < len {
            acc.push(claim(250));
        }
        acc.truncate(len);
        let r = refund_wager_handler(&mut s, server(), 200, &acc, mint());
        assert_eq!(r.err(), Some(WagerError::InvalidRemainingAccounts));
        assert_eq!(s.status, GameStatus::InProgress);
    }
}

#[test]
fn duplicate_player_across_teams_fails() {
    let mut s = session(GameMode::WinnerTakesAllThreeVsThree, 10, &[1, 2, 3], &[4, 2, 6]);
    let acc = evidence(&[1, 2, 3, 4, 6]);
    let r = refund_wager_handler(&mut s, server(), 1000, &acc, mint());
    assert_eq!(r.err(), Some(WagerError::DuplicatePlayer));
    assert_eq!(s.status, GameStatus::InProgress);
}

#[test]
fn only_the_authority_may_settle() {
    let mut s = session(GameMode::WinnerTakesAllOneVsOne, 100, &[1], &[2]);
    let acc = evidence(&[1, 2]);
    let r = refund_wager_handler(&mut s, key(1), 200, &acc, mint());
    assert_eq!(r.err(), Some(WagerError::UnauthorizedDistribution));
}

#[test]
fn settled_session_is_not_settled_again() {
    let mut s = session(GameMode::WinnerTakesAllOneVsOne, 100, &[1], &[2]);
    let acc = evidence(&[1, 2]);
    assert!(refund_wager_handler(&mut s, server(), 200, &acc, mint()).is_ok());
    let r = refund_wager_handler(&mut s, server(), 200, &acc, mint());
    assert_eq!(r.err(), Some(WagerError::GameAlreadyCompleted));
}

#[test]
fn destination_that_is_not_a_token_account_fails() {
    let mut s = session(GameMode::WinnerTakesAllOneVsOne, 100, &[1], &[2]);
    let mut acc = evidence(&[1, 2]);
    acc[19] = claim(77);
    let r = refund_wager_handler(&mut s, server(), 200, &acc, mint());
    assert_eq!(r.err(), Some(WagerError::InvalidPlayerTokenAccount));
}

#[test]
fn destination_owned_by_someone_else_fails() {
    let mut s = session(GameMode::WinnerTakesAllOneVsOne, 100, &[1], &[2]);
    let mut acc = evidence(&[1, 2]);
    acc[3] = dest(9);
    let r = refund_wager_handler(&mut s, server(), 200, &acc, mint());
    assert_eq!(r.err(), Some(WagerError::InvalidPlayerTokenAccount));
    assert_eq!(s.status, GameStatus::InProgress);
}

#[test]
fn destination_in_another_token_fails() {
    let mut s = session(GameMode::WinnerTakesAllOneVsOne, 100, &[1], &[2]);
    let mut acc = evidence(&[1, 2]);
    acc[1] = AccountEvidence {
        key: key(101),
        token: Some(TokenAccountData { owner: key(1), mint: key(151) }),
    };
    let r = refund_wager_handler(&mut s, server(), 200, &acc, mint());
    assert_eq!(r.err(), Some(WagerError::InvalidTokenMint));
}

#[test]
fn participant_without_claim_fails() {
    let mut s = session(GameMode::WinnerTakesAllOneVsOne, 100, &[1], &[2]);
    let acc = evidence(&[1]);
    let r = refund_wager_handler(&mut s, server(), 200, &acc, mint());
    assert_eq!(r.err(), Some(WagerError::InvalidPlayer));
    assert_eq!(s.status, GameStatus::InProgress);
}

#[test]
fn total_pot_overflow_fails() {
    let mut s = session(GameMode::WinnerTakesAllOneVsOne, u64::MAX / 2 + 1, &[1], &[2]);
    let acc = evidence(&[1, 2]);
    let r = refund_wager_handler(&mut s, server(), u64::MAX, &acc, mint());
    assert_eq!(r.err(), Some(WagerError::TotalPotCalculationError));
}

#[test]
fn largest_bet_that_fits_is_refunded() {
    let mut s = session(GameMode::WinnerTakesAllOneVsOne, u64::MAX / 2, &[1], &[2]);
    let acc = evidence(&[1, 2]);
    let r = refund_wager_handler(&mut s, server(), u64::MAX - 1, &acc, mint()).unwrap();
    assert!(r.iter().all(|t| t.amount == u64::MAX / 2));
}
