use vstd::prelude::*;

use crate::error::WagerError;

verus! {

/// Number of slots every team has, whatever the game mode.
pub const TEAM_SLOTS: usize = 5;

/// A 32-byte account identity. The all-zero key marks an empty slot.
#[derive(Clone, Copy, Debug)]
pub struct Pubkey {
    pub bytes: [u8; 32],
}

/// Whether `k` is the all-zero key, the "no player" sentinel.
pub open spec fn is_sentinel(k: Pubkey) -> bool {
    forall|i: int| 0 <= i < 32 ==> k.bytes[i] == 0
}

impl PartialEq for Pubkey {
    fn eq(&self, o: &Pubkey) -> (r: bool) {
        let mut i: usize = 0;
        while i < 32
            invariant
                0 <= i <= 32,
                forall|j: int| 0 <= j < i ==> self.bytes[j] == o.bytes[j],
            decreases 32 - i,
        {
            if self.bytes[i] != o.bytes[i] {
                return false;
            }
            i += 1;
        }
        assert(self.bytes =~= o.bytes);
        true
    }
}

impl vstd::std_specs::cmp::PartialEqSpecImpl for Pubkey {
    open spec fn obeys_eq_spec() -> bool {
        true
    }

    open spec fn eq_spec(&self, o: &Pubkey) -> bool {
        *self == *o
    }
}

impl Eq for Pubkey {
}

impl Pubkey {
    pub fn new(bytes: [u8; 32]) -> (r: Pubkey)
        ensures
            r.bytes == bytes,
    {
        Pubkey { bytes }
    }

    /// Returns the all-zero sentinel key.
    pub fn empty() -> (r: Pubkey)
        ensures
            is_sentinel(r),
    {
        Pubkey { bytes: [0u8; 32] }
    }

    /// Whether this key is the empty-slot sentinel.
    pub fn is_empty(&self) -> (r: bool)
        ensures
            r == is_sentinel(*self),
    {
        let mut i: usize = 0;
        while i < 32
            invariant
                0 <= i <= 32,
                forall|j: int| 0 <= j < i ==> self.bytes[j] == 0,
            decreases 32 - i,
        {
            if self.bytes[i] != 0 {
                return false;
            }
            i += 1;
        }
        true
    }
}

impl Default for Pubkey {
    fn default() -> (r: Pubkey)
        ensures
            is_sentinel(r),
    {
        Pubkey::empty()
    }
}

/// Game mode: payout policy times team size.
#[derive(Clone, Copy, Debug, PartialEq, Eq, Structural)]
pub enum GameMode {
    /// 1v1 winner-takes-all
    WinnerTakesAllOneVsOne,
    /// 3v3 winner-takes-all
    WinnerTakesAllThreeVsThree,
    /// 5v5 winner-takes-all
    WinnerTakesAllFiveVsFive,
    /// 1v1 pay-to-spawn
    PayToSpawnOneVsOne,
    /// 3v3 pay-to-spawn
    PayToSpawnThreeVsThree,
    /// 5v5 pay-to-spawn
    PayToSpawnFiveVsFive,
}

impl GameMode {
    pub open spec fn players_per_team_spec(&self) -> nat {
        match self {
            GameMode::WinnerTakesAllOneVsOne | GameMode::PayToSpawnOneVsOne => 1,
            GameMode::WinnerTakesAllThreeVsThree | GameMode::PayToSpawnThreeVsThree => 3,
            GameMode::WinnerTakesAllFiveVsFive | GameMode::PayToSpawnFiveVsFive => 5,
        }
    }

    pub open spec fn is_pay_to_spawn_spec(&self) -> bool {
        match self {
            GameMode::PayToSpawnOneVsOne
            | GameMode::PayToSpawnThreeVsThree
            | GameMode::PayToSpawnFiveVsFive => true,
            _ => false,
        }
    }

    /// Number of live slots per team in this mode: 1, 3 or 5.
    pub fn players_per_team(&self) -> (r: usize)
        ensures
            r == self.players_per_team_spec(),
            1 <= r <= TEAM_SLOTS,
    {
        match self {
            GameMode::WinnerTakesAllOneVsOne => 1,
            GameMode::WinnerTakesAllThreeVsThree => 3,
            GameMode::WinnerTakesAllFiveVsFive => 5,
            GameMode::PayToSpawnOneVsOne => 1,
            GameMode::PayToSpawnThreeVsThree => 3,
            GameMode::PayToSpawnFiveVsFive => 5,
        }
    }
}

/// Status of a game session; it only moves forward.
#[derive(Clone, Copy, Debug, PartialEq, Eq, Structural)]
pub enum GameStatus {
    /// Waiting for players to join
    WaitingForPlayers,
    /// Game is active with all players joined
    InProgress,
    /// Game has finished and the pool has been settled
    Completed,
}

impl Default for GameStatus {
    fn default() -> (r: GameStatus)
        ensures
            r == GameStatus::WaitingForPlayers,
    {
        GameStatus::WaitingForPlayers
    }
}

/// `i` is the lowest slot below `count` that holds the sentinel.
pub open spec fn is_first_empty(players: Seq<Pubkey>, count: int, i: int) -> bool {
    &&& 0 <= i < count
    &&& i < players.len()
    &&& is_sentinel(players[i])
    &&& forall|j: int| 0 <= j < i ==> !is_sentinel(#[trigger] players[j])
}

/// Every slot below `count` is occupied.
pub open spec fn is_full(players: Seq<Pubkey>, count: int) -> bool {
    forall|j: int| 0 <= j < count && j < players.len() ==> !is_sentinel(#[trigger] players[j])
}

/// `i` is the first position at which `p` occurs in `players`.
pub open spec fn is_first_index(players: Seq<Pubkey>, p: Pubkey, i: int) -> bool {
    &&& 0 <= i < players.len()
    &&& players[i] == p
    &&& forall|j: int| 0 <= j < i ==> #[trigger] players[j] != p
}

/// The first position of `p` in `players`, if it occurs.
pub open spec fn index_of(players: Seq<Pubkey>, p: Pubkey) -> Option<int> {
    if players.contains(p) {
        Some(choose|i: int| is_first_index(players, p, i))
    } else {
        None
    }
}

/// Some non-sentinel key occupies two slots.
pub open spec fn has_duplicate(players: Seq<Pubkey>) -> bool {
    exists|i: int, j: int|
        0 <= i < j < players.len() && !is_sentinel(#[trigger] players[i]) && players[i] == #[trigger] players[j]
}

/// A fixed roster of five slots with per-slot statistics.
#[derive(Clone, Copy, Debug)]
pub struct Team {
    /// Occupant of each slot; the sentinel key marks an empty slot
    pub players: [Pubkey; 5],
    /// Total amount bet by the team
    pub total_bet: u64,
    /// Spawn credits left for each slot
    pub player_spawns: [u16; 5],
    /// Kills scored by each slot
    pub player_kills: [u16; 5],
}

impl Default for Team {
    fn default() -> (r: Team)
        ensures
            forall|i: int| 0 <= i < 5 ==> is_sentinel(#[trigger] r.players@[i]),
            r.total_bet == 0,
            r.player_spawns@ == seq![0u16, 0, 0, 0, 0],
            r.player_kills@ == seq![0u16, 0, 0, 0, 0],
    {
        let e = Pubkey::empty();
        let r = Team {
            players: [e, e, e, e, e],
            total_bet: 0,
            player_spawns: [0u16, 0, 0, 0, 0],
            player_kills: [0u16, 0, 0, 0, 0],
        };
        assert(r.player_spawns@ =~= seq![0u16, 0, 0, 0, 0]);
        assert(r.player_kills@ =~= seq![0u16, 0, 0, 0, 0]);
        r
    }
}

impl Team {
    /// The lowest empty slot among the first `player_count`, or `TeamIsFull`.
    pub fn get_empty_slot(&self, player_count: usize) -> (r: Result<usize, WagerError>)
        ensures
            r is Err <==> is_full(self.players@, player_count as int),
            r matches Ok(i) ==> is_first_empty(self.players@, player_count as int, i as int),
            r matches Err(e) ==> e == WagerError::TeamIsFull,
    {
        let mut i: usize = 0;
        while i < 5 && i < player_count
            invariant
                i <= 5,
                i <= player_count,
                forall|j: int| 0 <= j < i ==> !is_sentinel(#[trigger] self.players@[j]),
            decreases 5 - i,
        {
            if self.players[i].is_empty() {
                return Ok(i);
            }
            i += 1;
        }
        Err(WagerError::TeamIsFull)
    }

    /// Slot of the first occurrence of `player`, or `PlayerNotFound`.
    pub fn position_of(&self, player: Pubkey) -> (r: Result<usize, WagerError>)
        ensures
            r matches Ok(i) ==> index_of(self.players@, player) == Some(i as int),
            r matches Ok(i) ==> is_first_index(self.players@, player, i as int),
            r is Err <==> index_of(self.players@, player) is None,
            r matches Err(e) ==> e == WagerError::PlayerNotFound,
    {
        let mut i: usize = 0;
        while i < 5
            invariant
                i <= 5,
                forall|j: int| 0 <= j < i ==> #[trigger] self.players@[j] != player,
            decreases 5 - i,
        {
            if self.players[i] == player {
                proof {
                    assert(is_first_index(self.players@, player, i as int));
                    assert(self.players@.contains(player));
                    lemma_first_index_unique(self.players@, player, i as int);
                }
                return Ok(i);
            }
            i += 1;
        }
        assert(!self.players@.contains(player));
        Err(WagerError::PlayerNotFound)
    }
}

/// A first index, when one is known, is what `index_of` picks.
pub proof fn lemma_first_index_unique(players: Seq<Pubkey>, p: Pubkey, i: int)
    requires
        is_first_index(players, p, i),
    ensures
        index_of(players, p) == Some(i),
{
    assert(players.contains(p));
    let k = choose|k: int| is_first_index(players, p, k);
    assert(is_first_index(players, p, k));
    if k < i {
        assert(players[k] != p);
    } else if i < k {
        assert(players[i] != p);
    }
}

/// One escrow-and-match unit: two teams, a fixed bet and a status.
#[derive(Clone, Debug)]
pub struct GameSession {
    /// Unique identifier for the game
    pub session_id: String,
    /// Creator of the game session, the only one allowed to settle it
    pub authority: Pubkey,
    /// Required bet amount per player
    pub session_bet: u64,
    /// Game configuration (1v1, 3v3, 5v5, payout policy)
    pub game_mode: GameMode,
    /// First team
    pub team_a: Team,
    /// Second team
    pub team_b: Team,
    /// Current game state
    pub status: GameStatus,
    /// Creation timestamp
    pub created_at: i64,
    /// Bump seed of the session's storage address
    pub bump: u8,
    /// Bump seed of the vault authority
    pub vault_bump: u8,
    /// Bump seed of the vault's token account
    pub vault_token_bump: u8,
}

/// Spawn credits granted by one call of `add_spawns`.
pub const SPAWN_GRANT: u16 = 10;

impl GameSession {
    /// The team that selector 0 or 1 names.
    pub open spec fn team(&self, t: u8) -> Team {
        if t == 0 {
            self.team_a
        } else {
            self.team_b
        }
    }

    /// Occupants of all ten slots: team A's five, then team B's five.
    pub open spec fn all_players(&self) -> Seq<Pubkey> {
        self.team_a.players@ + self.team_b.players@
    }

    /// What `get_player_index` returns, as a position or an error.
    pub open spec fn player_index_spec(&self, t: u8, p: Pubkey) -> Result<int, WagerError> {
        if t > 1 {
            Err(WagerError::InvalidTeam)
        } else {
            match index_of(self.team(t).players@, p) {
                Some(i) => Ok(i),
                None => Err(WagerError::PlayerNotFound),
            }
        }
    }

    /// The checks of `add_kill` in order; on success, the killer's and the victim's slots.
    pub open spec fn kill_check(&self, kt: u8, k: Pubkey, vt: u8, v: Pubkey) -> Result<(int, int), WagerError> {
        if self.status != GameStatus::InProgress {
            Err(WagerError::GameNotInProgress)
        } else {
            match self.player_index_spec(kt, k) {
                Err(e) => Err(e),
                Ok(ki) => match self.player_index_spec(vt, v) {
                    Err(e) => Err(e),
                    Ok(vi) => if self.team(kt).player_kills[ki] == u16::MAX {
                        Err(WagerError::CounterOverflow)
                    } else if self.team(vt).player_spawns[vi] == 0 {
                        Err(WagerError::SpawnCreditUnderflow)
                    } else {
                        Ok((ki, vi))
                    },
                },
            }
        }
    }

    /// Slots past the mode's player count are empty on both teams, and no
    /// non-empty player holds two slots.
    pub open spec fn well_formed(&self) -> bool {
        &&& forall|t: u8, i: int|
            t <= 1 && self.game_mode.players_per_team_spec() <= i < TEAM_SLOTS ==> is_sentinel(
                #[trigger] self.team(t).players@[i],
            )
        &&& !has_duplicate(self.all_players())
    }

    /// `a` and `b` agree on everything but the kill and spawn counters.
    pub open spec fn same_but_stats(a: GameSession, b: GameSession) -> bool {
        &&& a.session_id == b.session_id
        &&& a.authority == b.authority
        &&& a.session_bet == b.session_bet
        &&& a.game_mode == b.game_mode
        &&& a.status == b.status
        &&& a.created_at == b.created_at
        &&& a.bump == b.bump
        &&& a.vault_bump == b.vault_bump
        &&& a.vault_token_bump == b.vault_token_bump
        &&& a.team_a.players == b.team_a.players
        &&& a.team_b.players == b.team_b.players
        &&& a.team_a.total_bet == b.team_a.total_bet
        &&& a.team_b.total_bet == b.team_b.total_bet
    }

    /// The lowest empty live slot of team `team`.
    pub fn get_player_empty_slot(&self, team: u8) -> (r: Result<usize, WagerError>)
        ensures
            team > 1 ==> r == Err::<usize, WagerError>(WagerError::InvalidTeam),
            team <= 1 ==> (r is Err <==> is_full(
                self.team(team).players@,
                self.game_mode.players_per_team_spec() as int,
            )),
            r matches Ok(i) ==> is_first_empty(
                self.team(team).players@,
                self.game_mode.players_per_team_spec() as int,
                i as int,
            ),
            team <= 1 && r is Err ==> r == Err::<usize, WagerError>(WagerError::TeamIsFull),
    {
        let player_count = self.game_mode.players_per_team();
        match team {
            0 => self.team_a.get_empty_slot(player_count),
            1 => self.team_b.get_empty_slot(player_count),
            _ => Err(WagerError::InvalidTeam),
        }
    }

    /// Whether every live slot of both teams is occupied.
    pub fn check_all_filled(&self) -> (r: Result<bool, WagerError>)
        ensures
            r == Ok::<bool, WagerError>(
                is_full(self.team_a.players@, self.game_mode.players_per_team_spec() as int)
                    && is_full(self.team_b.players@, self.game_mode.players_per_team_spec() as int),
            ),
    {
        let player_count = self.game_mode.players_per_team();
        let a = self.team_a.get_empty_slot(player_count);
        let b = self.team_b.get_empty_slot(player_count);
        let full = match (a, b) {
            (Err(e1), Err(e2)) => is_team_full_error(&e1) && is_team_full_error(&e2),
            _ => false,
        };
        Ok(full)
    }

    /// Whether the session's mode is one of the pay-to-spawn modes.
    pub fn is_pay_to_spawn(&self) -> (r: bool)
        ensures
            r == self.game_mode.is_pay_to_spawn_spec(),
    {
        match self.game_mode {
            GameMode::PayToSpawnOneVsOne
            | GameMode::PayToSpawnThreeVsThree
            | GameMode::PayToSpawnFiveVsFive => true,
            _ => false,
        }
    }

    /// All ten slot occupants, team A first, sentinels included.
    pub fn get_all_players(&self) -> (r: Vec<Pubkey>)
        ensures
            r@ == self.all_players(),
    {
        let mut players: Vec<Pubkey> = Vec::new();
        let mut i: usize = 0;
        while i < 5
            invariant
                i <= 5,
                players@ == self.team_a.players@.subrange(0, i as int),
            decreases 5 - i,
        {
            players.push(self.team_a.players[i]);
            i += 1;
            assert(players@ =~= self.team_a.players@.subrange(0, i as int));
        }
        let mut j: usize = 0;
        while j < 5
            invariant
                j <= 5,
                players@ == self.team_a.players@ + self.team_b.players@.subrange(0, j as int),
            decreases 5 - j,
        {
            players.push(self.team_b.players[j]);
            j += 1;
            assert(players@ =~= self.team_a.players@ + self.team_b.players@.subrange(0, j as int));
        }
        assert(self.team_a.players@.subrange(0, 5) =~= self.team_a.players@);
        assert(self.team_b.players@.subrange(0, 5) =~= self.team_b.players@);
        players
    }

    /// Slot of `player` in team `team`.
    pub fn get_player_index(&self, team: u8, player: Pubkey) -> (r: Result<usize, WagerError>)
        ensures
            r matches Ok(i) ==> self.player_index_spec(team, player) == Ok::<int, WagerError>(i as int),
            r matches Err(e) ==> self.player_index_spec(team, player) == Err::<int, WagerError>(e),
    {
        match team {
            0 => self.team_a.position_of(player),
            1 => self.team_b.position_of(player),
            _ => Err(WagerError::InvalidTeam),
        }
    }

    /// Kills plus spawn credits of `player`, looked up in team A, then team B.
    pub fn get_kills_and_spawns(&self, player_pubkey: Pubkey) -> (r: Result<u16, WagerError>)
        ensures
            ({
                let t: u8 = if self.team_a.players@.contains(player_pubkey) { 0 } else { 1 };
                match index_of(self.team(t).players@, player_pubkey) {
                    None => r == Err::<u16, WagerError>(WagerError::PlayerNotFound),
                    Some(i) => {
                        let sum = self.team(t).player_kills[i] + self.team(t).player_spawns[i];
                        if sum <= u16::MAX {
                            r == Ok::<u16, WagerError>(sum as u16)
                        } else {
                            r == Err::<u16, WagerError>(WagerError::CounterOverflow)
                        }
                    },
                }
            }),
    {
        let team = if let Ok(i) = self.team_a.position_of(player_pubkey) {
            proof { lemma_index_of_contains(self.team_a.players@, player_pubkey, i as int); }
            Some((&self.team_a, i))
        } else if let Ok(i) = self.team_b.position_of(player_pubkey) {
            Some((&self.team_b, i))
        } else {
            None
        };
        match team {
            None => Err(WagerError::PlayerNotFound),
            Some((t, i)) => {
                let kills = t.player_kills[i];
                let spawns = t.player_spawns[i];
                match kills.checked_add(spawns) {
                    Some(sum) => Ok(sum),
                    None => Err(WagerError::CounterOverflow),
                }
            },
        }
    }

    /// Adds a kill to `killer` and takes one spawn credit from `victim`.
    pub fn add_kill(&mut self, killer_team: u8, killer: Pubkey, victim_team: u8, victim: Pubkey) -> (r: Result<(), WagerError>)
        ensures
            match old(self).kill_check(killer_team, killer, victim_team, victim) {
                Err(e) => r == Err::<(), WagerError>(e) && *final(self) == *old(self),
                Ok((ki, vi)) => {
                    &&& r is Ok
                    &&& GameSession::same_but_stats(*old(self), *final(self))
                    &&& forall|t: u8| t <= 1 ==> #[trigger] final(self).team(t).player_kills@ == if t == killer_team {
                        old(self).team(t).player_kills@.update(ki, (old(self).team(t).player_kills[ki] + 1) as u16)
                    } else {
                        old(self).team(t).player_kills@
                    }
                    &&& forall|t: u8| t <= 1 ==> #[trigger] final(self).team(t).player_spawns@ == if t == victim_team {
                        old(self).team(t).player_spawns@.update(vi, (old(self).team(t).player_spawns[vi] - 1) as u16)
                    } else {
                        old(self).team(t).player_spawns@
                    }
                },
            },
            old(self).status != GameStatus::InProgress ==> r == Err::<(), WagerError>(WagerError::GameNotInProgress)
                && *final(self) == *old(self),
            (old(self).player_index_spec(victim_team, victim) matches Ok(vi)
                && old(self).team(victim_team).player_spawns[vi] == 0) ==> r is Err && *final(self) == *old(self),
            old(self).well_formed() ==> final(self).well_formed(),
    {
        if self.status != GameStatus::InProgress {
            return Err(WagerError::GameNotInProgress);
        }
        let ki = self.get_player_index(killer_team, killer)?;
        let vi = self.get_player_index(victim_team, victim)?;
        proof {
            lemma_index_of_contains(self.team(killer_team).players@, killer, ki as int);
            lemma_index_of_contains(self.team(victim_team).players@, victim, vi as int);
        }
        let kills = if killer_team == 0 { self.team_a.player_kills[ki] } else { self.team_b.player_kills[ki] };
        let spawns = if victim_team == 0 { self.team_a.player_spawns[vi] } else { self.team_b.player_spawns[vi] };
        if kills == u16::MAX {
            return Err(WagerError::CounterOverflow);
        }
        if spawns == 0 {
            return Err(WagerError::SpawnCreditUnderflow);
        }
        let ghost before = *self;
        if killer_team == 0 {
            self.team_a.player_kills[ki] = kills + 1;
        } else {
            self.team_b.player_kills[ki] = kills + 1;
        }
        if victim_team == 0 {
            self.team_a.player_spawns[vi] = spawns - 1;
        } else {
            self.team_b.player_spawns[vi] = spawns - 1;
        }
        proof { lemma_well_formed_by_roster(before, *self); }
        Ok(())
    }

    /// Grants `SPAWN_GRANT` spawn credits to slot `player_index` of team `team`.
    pub fn add_spawns(&mut self, team: u8, player_index: usize) -> (r: Result<(), WagerError>)
        requires
            player_index < TEAM_SLOTS,
        ensures
            old(self).status != GameStatus::InProgress ==> r == Err::<(), WagerError>(WagerError::GameNotInProgress),
            old(self).status == GameStatus::InProgress && team > 1 ==> r == Err::<(), WagerError>(WagerError::InvalidTeam),
            old(self).status == GameStatus::InProgress && team <= 1 ==> (r is Ok <==> old(self).team(team).player_spawns[player_index as int] + SPAWN_GRANT <= u16::MAX),
            r matches Err(e) ==> *final(self) == *old(self) && (old(self).status == GameStatus::InProgress && team <= 1 ==> e == WagerError::CounterOverflow),
            r is Ok ==> {
                &&& GameSession::same_but_stats(*old(self), *final(self))
                &&& final(self).team_a.player_kills == old(self).team_a.player_kills
                &&& final(self).team_b.player_kills == old(self).team_b.player_kills
                &&& final(self).team(team).player_spawns@ == old(self).team(team).player_spawns@.update(
                    player_index as int,
                    (old(self).team(team).player_spawns[player_index as int] + SPAWN_GRANT) as u16,
                )
                &&& forall|t: u8| t <= 1 && t != team ==> #[trigger] final(self).team(t).player_spawns == old(self).team(t).player_spawns
            },
            old(self).well_formed() ==> final(self).well_formed(),
    {
        if self.status != GameStatus::InProgress {
            return Err(WagerError::GameNotInProgress);
        }
        if team > 1 {
            return Err(WagerError::InvalidTeam);
        }
        let spawns = if team == 0 { self.team_a.player_spawns[player_index] } else { self.team_b.player_spawns[player_index] };
        match spawns.checked_add(SPAWN_GRANT) {
            None => Err(WagerError::CounterOverflow),
            Some(n) => {
                let ghost before = *self;
                if team == 0 {
                    self.team_a.player_spawns[player_index] = n;
                } else {
                    self.team_b.player_spawns[player_index] = n;
                }
                proof { lemma_well_formed_by_roster(before, *self); }
                Ok(())
            },
        }
    }
}

/// Well-formedness depends only on the mode and the slot occupants.
pub proof fn lemma_well_formed_by_roster(a: GameSession, b: GameSession)
    requires
        a.game_mode == b.game_mode,
        a.team_a.players == b.team_a.players,
        a.team_b.players == b.team_b.players,
    ensures
        a.well_formed() == b.well_formed(),
{
    assert(a.all_players() == b.all_players());
    assert forall|t: u8, i: int|
        #![trigger a.team(t).players@[i]]
        #![trigger b.team(t).players@[i]]
        t <= 1 implies a.team(t).players@[i] == b.team(t).players@[i] by {}
}

/// Where `index_of` finds a position, the key occurs there.
pub proof fn lemma_index_of_contains(players: Seq<Pubkey>, p: Pubkey, i: int)
    requires
        index_of(players, p) == Some(i),
    ensures
        players.contains(p),
        is_first_index(players, p, i),
{
    if !players.contains(p) {
        assert(index_of(players, p) is None);
    } else {
        let k = choose|k: int| 0 <= k < players.len() && players[k] == p;
        lemma_first_index_exists(players, p, k);
    }
}

/// If `p` occurs at or before `k`, it has a first position.
pub proof fn lemma_first_index_exists(players: Seq<Pubkey>, p: Pubkey, k: int)
    requires
        0 <= k < players.len(),
        players[k] == p,
    ensures
        exists|i: int| is_first_index(players, p, i),
    decreases k,
{
    if forall|j: int| 0 <= j < k ==> #[trigger] players[j] != p {
        assert(is_first_index(players, p, k));
    } else {
        let j = choose|j: int| 0 <= j < k && #[trigger] players[j] == p;
        lemma_first_index_exists(players, p, j);
    }
}

/// Whether `e` is the error that a full team gives.
fn is_team_full_error(e: &WagerError) -> (r: bool)
    ensures
        r == (*e == WagerError::TeamIsFull),
{
    *e == WagerError::TeamIsFull
}

/// Putting a player who is not yet on a team into the slot that
/// `get_empty_slot` picks, then looking that player up, gives back the same slot.
pub proof fn lemma_assign_then_index(players: Seq<Pubkey>, count: int, i: int, p: Pubkey)
    requires
        players.len() == TEAM_SLOTS,
        is_first_empty(players, count, i),
        !players.contains(p),
    ensures
        index_of(players.update(i, p), p) == Some(i),
{
    let after = players.update(i, p);
    assert forall|j: int| 0 <= j < i implies #[trigger] after[j] != p by {
        assert(after[j] == players[j]);
    }
    lemma_first_index_unique(after, p, i);
}

} // verus!
