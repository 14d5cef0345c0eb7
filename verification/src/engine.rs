//! The engine: a store of game records plus the ledger, and the three
//! operations — create, join, advance — each validated against the current
//! state and committed atomically or rejected whole.

use vstd::prelude::*;
use crate::game::{
    advance_error, advance_post, board_after, board_full, check_winner, created, is_board_full,
    join_error, joined, lemma_no_new_win, mover, other, player2_of, wins, Game, GameError,
    GameStatus, Player,
};
use crate::ledger::{
    balance_of, credit, debit, find_account, lemma_balance_absent, lemma_balance_at_index,
    sum_balances, unique_owners, Account,
};

verus! {

/// The whole engine state: every game record, keyed by identifier, and the
/// ledger of participant balances.
pub struct Engine {
    pub games: Vec<Game>,
    pub accounts: Vec<Account>,
}

/// No two game records share an identifier.
pub open spec fn unique_ids(s: Seq<Game>) -> bool {
    forall|i: int, j: int| 0 <= i < j < s.len() ==> s[i].game_id@ != s[j].game_id@
}

/// The game record stored under `id`, if any.
pub open spec fn spec_game(s: Seq<Game>, id: Seq<char>) -> Option<Game>
    decreases s.len(),
{
    if s.len() == 0 {
        None
    } else if s.last().game_id@ == id {
        Some(s.last())
    } else {
        spec_game(s.drop_last(), id)
    }
}

/// With identifiers unique, the record at index `i` is the one stored
/// under its identifier.
pub proof fn lemma_game_at_index(s: Seq<Game>, i: int)
    requires
        unique_ids(s),
        0 <= i < s.len(),
    ensures
        spec_game(s, s[i].game_id@) == Some(s[i]),
    decreases s.len(),
{
    if i == s.len() - 1 {
    } else {
        assert(s.last().game_id@ != s[i].game_id@);
        assert(s.drop_last()[i] == s[i]);
        lemma_game_at_index(s.drop_last(), i);
    }
}

/// An identifier under which no record is stored resolves to nothing.
pub proof fn lemma_game_absent(s: Seq<Game>, id: Seq<char>)
    requires
        forall|i: int| 0 <= i < s.len() ==> s[i].game_id@ != id,
    ensures
        spec_game(s, id) is None,
    decreases s.len(),
{
    if s.len() > 0 {
        lemma_game_absent(s.drop_last(), id);
    }
}

/// Replacing the record at index `i` by one with the same identifier
/// changes what that identifier resolves to and nothing else.
pub proof fn lemma_game_update(s: Seq<Game>, i: int, g: Game, id: Seq<char>)
    requires
        unique_ids(s),
        0 <= i < s.len(),
        g.game_id@ == s[i].game_id@,
    ensures
        spec_game(s.update(i, g), id) == if id == g.game_id@ {
            Some(g)
        } else {
            spec_game(s, id)
        },
    decreases s.len(),
{
    let s2 = s.update(i, g);
    if i == s.len() - 1 {
        assert(s2.drop_last() =~= s.drop_last());
    } else {
        assert(s2.last() == s.last());
        assert(s2.drop_last() =~= s.drop_last().update(i, g));
        lemma_game_update(s.drop_last(), i, g, id);
    }
}

/// Appending a record under a fresh identifier makes that identifier
/// resolve to it and changes nothing else.
pub proof fn lemma_game_push(s: Seq<Game>, g: Game, id: Seq<char>)
    ensures
        spec_game(s.push(g), id) == if id == g.game_id@ {
            Some(g)
        } else {
            spec_game(s, id)
        },
{
    assert(s.push(g).drop_last() =~= s);
}

/// The total value held in escrow across all games.
pub open spec fn sum_escrows(s: Seq<Game>) -> int
    decreases s.len(),
{
    if s.len() == 0 {
        0
    } else {
        sum_escrows(s.drop_last()) + s.last().escrow
    }
}

/// Replacing the record at index `i` moves the escrow total by the
/// difference of the two escrows.
pub proof fn lemma_sum_escrows_update(s: Seq<Game>, i: int, g: Game)
    requires
        0 <= i < s.len(),
    ensures
        sum_escrows(s.update(i, g)) == sum_escrows(s) - s[i].escrow + g.escrow,
    decreases s.len(),
{
    let s2 = s.update(i, g);
    if i == s.len() - 1 {
        assert(s2.drop_last() =~= s.drop_last());
    } else {
        assert(s2.last() == s.last());
        assert(s2.drop_last() =~= s.drop_last().update(i, g));
        lemma_sum_escrows_update(s.drop_last(), i, g);
    }
}

/// Appending a record adds its escrow to the total.
pub proof fn lemma_sum_escrows_push(s: Seq<Game>, g: Game)
    ensures
        sum_escrows(s.push(g)) == sum_escrows(s) + g.escrow,
{
    assert(s.push(g).drop_last() =~= s);
}

impl Engine {
    /// Well-formedness of the whole engine: every record well formed,
    /// identifiers unique, one account per identity.
    pub open spec fn wf(self) -> bool {
        &&& (forall|i: int| 0 <= i < self.games@.len() ==> self.games@[i].wf())
        &&& unique_ids(self.games@)
        &&& unique_owners(self.accounts@)
    }

    /// Every unit of value the engine is custodian of: ledger balances
    /// plus the escrows of all games.  No game operation changes it —
    /// stakes only move between a balance and an escrow, and settlements
    /// only move them back.
    pub open spec fn total_funds(self) -> int {
        sum_balances(self.accounts@) + sum_escrows(self.games@)
    }

    /// An empty engine: no games, no accounts.
    pub fn new() -> (r: Engine)
        ensures
            r.wf(),
            r.games@.len() == 0,
            r.accounts@.len() == 0,
    {
        Engine { games: Vec::new(), accounts: Vec::new() }
    }

    /// Open a new game under `game_id`: the caller takes the first seat,
    /// plays X, and — when the game is staked — deposits `bet_amount` into
    /// the game's escrow.  Rejected with `DuplicateGame` when a game with
    /// that identifier already exists; nothing is touched then.
    ///
    /// The dispatch layer has already verified the caller's funds, so a
    /// staked create requires a covering balance; the identifier is
    /// bounded, and the stake must leave the doubled pot representable.
    pub fn initialize_game(&mut self, game_id: String, bet_amount: u64, player1: u64) -> (r:
        Result<(), GameError>)
        requires
            old(self).wf(),
            game_id@.len() <= 32,
            bet_amount <= u64::MAX / 2,
            bet_amount > 0 ==> balance_of(old(self).accounts@, player1) >= bet_amount,
        ensures
            final(self).wf(),
            final(self).total_funds() == old(self).total_funds(),
            match spec_game(old(self).games@, game_id@) {
                Some(_) => {
                    &&& r == Err::<(), GameError>(GameError::DuplicateGame)
                    &&& final(self).games@ == old(self).games@
                    &&& final(self).accounts@ == old(self).accounts@
                },
                None => {
                    &&& r == Ok::<(), GameError>(())
                    &&& final(self).games@.len() == old(self).games@.len() + 1
                    &&& final(self).games@ == old(self).games@.push(final(self).games@.last())
                    &&& created(final(self).games@.last(), game_id@, bet_amount, player1)
                    &&& spec_game(final(self).games@, game_id@) == Some(
                        final(self).games@.last(),
                    )
                    &&& (forall|id2: Seq<char>|
                        id2 != game_id@ ==> spec_game(final(self).games@, id2) == spec_game(
                            old(self).games@,
                            id2,
                        ))
                    &&& (if bet_amount > 0 {
                        &&& balance_of(final(self).accounts@, player1) == balance_of(
                            old(self).accounts@,
                            player1,
                        ) - bet_amount
                        &&& (forall|o: u64|
                            o != player1 ==> balance_of(final(self).accounts@, o) == balance_of(
                                old(self).accounts@,
                                o,
                            ))
                    } else {
                        final(self).accounts@ == old(self).accounts@
                    })
                },
            },
    {
        match self.find_game(&game_id) {
            Some(i) => {
                proof {
                    lemma_game_at_index(self.games@, i as int);
                }
                return Err(GameError::DuplicateGame);
            },
            None => {
                proof {
                    lemma_game_absent(self.games@, game_id@);
                }
            },
        }
        if bet_amount > 0 {
            debit(&mut self.accounts, player1, bet_amount);
        }
        let mut board: Vec<Option<Player>> = Vec::new();
        let mut i: usize = 0;
        while i < 9
            invariant
                board@.len() == i,
                i <= 9,
                forall|j: int| 0 <= j < i ==> board@[j] is None,
            decreases 9 - i,
        {
            board.push(None);
            i += 1;
        }
        let g = Game {
            game_id,
            player1,
            player2: None,
            current_turn: Player::X,
            status: GameStatus::Active,
            winner: None,
            board,
            bet_amount,
            escrow: bet_amount,
        };
        proof {
            assert forall|id2: Seq<char>| true implies spec_game(
                old(self).games@.push(g),
                id2,
            ) == (if id2 == g.game_id@ {
                Some(g)
            } else {
                spec_game(old(self).games@, id2)
            }) by {
                lemma_game_push(old(self).games@, g, id2);
            }
        }
        self.games.push(g);
        proof {
            lemma_sum_escrows_push(old(self).games@, g);
        }
        Ok(())
    }

    /// Take the second seat of the game stored under `game_id` and — when
    /// the game is staked — deposit the matching stake into its escrow.
    /// Rejected with `GameNotFound` when no such game exists, `GameFull`
    /// when the seat is already taken, and `GameNotActive` when the game
    /// has been decided; a rejected join touches nothing.
    ///
    /// The dispatch layer has already verified the caller's funds, so a
    /// join that would be accepted against a staked game requires a
    /// covering balance.
    pub fn join_game(&mut self, game_id: &String, player2: u64) -> (r: Result<(), GameError>)
        requires
            old(self).wf(),
            match spec_game(old(self).games@, game_id@) {
                Some(g) => (join_error(g) is None && g.bet_amount > 0) ==> balance_of(
                    old(self).accounts@,
                    player2,
                ) >= g.bet_amount,
                None => true,
            },
        ensures
            final(self).wf(),
            final(self).total_funds() == old(self).total_funds(),
            match spec_game(old(self).games@, game_id@) {
                None => {
                    &&& r == Err::<(), GameError>(GameError::GameNotFound)
                    &&& final(self).games@ == old(self).games@
                    &&& final(self).accounts@ == old(self).accounts@
                },
                Some(g) => match join_error(g) {
                    Some(e) => {
                        &&& r == Err::<(), GameError>(e)
                        &&& final(self).games@ == old(self).games@
                        &&& final(self).accounts@ == old(self).accounts@
                    },
                    None => {
                        &&& r == Ok::<(), GameError>(())
                        &&& match spec_game(final(self).games@, game_id@) {
                            Some(g2) => joined(g, g2, player2),
                            None => false,
                        }
                        &&& final(self).games@.len() == old(self).games@.len()
                        &&& (forall|id2: Seq<char>|
                            id2 != game_id@ ==> spec_game(final(self).games@, id2) == spec_game(
                                old(self).games@,
                                id2,
                            ))
                        &&& (if g.bet_amount > 0 {
                            &&& balance_of(final(self).accounts@, player2) == balance_of(
                                old(self).accounts@,
                                player2,
                            ) - g.bet_amount
                            &&& (forall|o: u64|
                                o != player2 ==> balance_of(final(self).accounts@, o)
                                    == balance_of(old(self).accounts@, o))
                        } else {
                            final(self).accounts@ == old(self).accounts@
                        })
                    },
                },
            },
    {
        let idx = match self.find_game(game_id) {
            None => {
                proof {
                    lemma_game_absent(self.games@, game_id@);
                }
                return Err(GameError::GameNotFound);
            },
            Some(i) => i,
        };
        proof {
            lemma_game_at_index(self.games@, idx as int);
        }
        if self.games[idx].player2.is_some() {
            return Err(GameError::GameFull);
        }
        if self.games[idx].status != GameStatus::Active {
            return Err(GameError::GameNotActive);
        }
        let mut gm = self.games.remove(idx);
        let bet = gm.bet_amount;
        gm.player2 = Some(player2);
        gm.escrow = gm.escrow + bet;
        let ghost g2 = gm;
        self.games.insert(idx, gm);
        proof {
            assert(self.games@ =~= old(self).games@.update(idx as int, g2));
            assert forall|id2: Seq<char>| id2 != game_id@ implies spec_game(
                self.games@,
                id2,
            ) == spec_game(old(self).games@, id2) by {
                lemma_game_update(old(self).games@, idx as int, g2, id2);
            }
            lemma_game_update(old(self).games@, idx as int, g2, game_id@);
            lemma_sum_escrows_update(old(self).games@, idx as int, g2);
        }
        if bet > 0 {
            debit(&mut self.accounts, player2, bet);
        }
        Ok(())
    }

    /// Submit a move for the game stored under `game_id`: validate it,
    /// write the mover's mark, and either settle a win (the whole pot to
    /// the winner), settle a draw (the stake back to each participant), or
    /// pass the turn.  A rejected move touches nothing; an accepted one
    /// commits the board, the status and the settlement together.
    ///
    /// Balances are plain machine words, so a staked game's participants
    /// must be able to receive the doubled pot.
    pub fn make_move(&mut self, game_id: &String, position: u8, player: u64) -> (r: Result<
        (),
        GameError,
    >)
        requires
            old(self).wf(),
            match spec_game(old(self).games@, game_id@) {
                Some(g) => {
                    &&& balance_of(old(self).accounts@, g.player1) + 2 * g.bet_amount
                        <= u64::MAX
                    &&& balance_of(old(self).accounts@, player2_of(g)) + 2 * g.bet_amount
                        <= u64::MAX
                },
                None => true,
            },
        ensures
            final(self).wf(),
            final(self).total_funds() == old(self).total_funds(),
            match spec_game(old(self).games@, game_id@) {
                None => {
                    &&& r == Err::<(), GameError>(GameError::GameNotFound)
                    &&& final(self).games@ == old(self).games@
                    &&& final(self).accounts@ == old(self).accounts@
                },
                Some(g) => match advance_error(g, position, player) {
                    Some(e) => {
                        &&& r == Err::<(), GameError>(e)
                        &&& final(self).games@ == old(self).games@
                        &&& final(self).accounts@ == old(self).accounts@
                    },
                    None => {
                        let b2 = board_after(g, position);
                        &&& r == Ok::<(), GameError>(())
                        &&& match spec_game(final(self).games@, game_id@) {
                            Some(g2) => advance_post(g, g2, position),
                            None => false,
                        }
                        &&& final(self).games@.len() == old(self).games@.len()
                        &&& (forall|id2: Seq<char>|
                            id2 != game_id@ ==> spec_game(final(self).games@, id2) == spec_game(
                                old(self).games@,
                                id2,
                            ))
                        &&& (if g.bet_amount > 0 && wins(b2, g.current_turn) {
                            &&& balance_of(final(self).accounts@, mover(g)) == balance_of(
                                old(self).accounts@,
                                mover(g),
                            ) + 2 * g.bet_amount
                            &&& (forall|o: u64|
                                o != mover(g) ==> balance_of(final(self).accounts@, o)
                                    == balance_of(old(self).accounts@, o))
                        } else if g.bet_amount > 0 && !wins(b2, g.current_turn) && board_full(
                            b2,
                        ) {
                            if g.player1 == player2_of(g) {
                                &&& balance_of(final(self).accounts@, g.player1) == balance_of(
                                    old(self).accounts@,
                                    g.player1,
                                ) + 2 * g.bet_amount
                                &&& (forall|o: u64|
                                    o != g.player1 ==> balance_of(final(self).accounts@, o)
                                        == balance_of(old(self).accounts@, o))
                            } else {
                                &&& balance_of(final(self).accounts@, g.player1) == balance_of(
                                    old(self).accounts@,
                                    g.player1,
                                ) + g.bet_amount
                                &&& balance_of(final(self).accounts@, player2_of(g))
                                    == balance_of(old(self).accounts@, player2_of(g))
                                    + g.bet_amount
                                &&& (forall|o: u64|
                                    o != g.player1 && o != player2_of(g) ==> balance_of(
                                        final(self).accounts@,
                                        o,
                                    ) == balance_of(old(self).accounts@, o))
                            }
                        } else {
                            final(self).accounts@ == old(self).accounts@
                        })
                    },
                },
            },
    {
        let idx = match self.find_game(game_id) {
            None => {
                proof {
                    lemma_game_absent(self.games@, game_id@);
                }
                return Err(GameError::GameNotFound);
            },
            Some(i) => i,
        };
        proof {
            lemma_game_at_index(self.games@, idx as int);
        }
        let ghost g = self.games@[idx as int];
        if position >= 9 {
            return Err(GameError::InvalidPosition);
        }
        if self.games[idx].board[position as usize].is_some() {
            return Err(GameError::PositionTaken);
        }
        if self.games[idx].status != GameStatus::Active {
            return Err(GameError::GameNotActive);
        }
        if self.games[idx].player2.is_none() {
            return Err(GameError::WaitingForPlayer);
        }
        let current_player = if self.games[idx].current_turn == Player::X {
            self.games[idx].player1
        } else {
            self.games[idx].player2.unwrap()
        };
        if player != current_player {
            return Err(GameError::NotPlayerTurn);
        }
        let mut gm = self.games.remove(idx);
        let mark = gm.current_turn;
        gm.board[position as usize] = Some(mark);
        proof {
            lemma_no_new_win(g.board@, position as int, mark, other(mark));
        }
        let mut won = false;
        let mut drawn = false;
        match check_winner(&gm.board) {
            Some(p) => {
                proof {
                    // the board had no line before this move, so only the
                    // mover's mark can hold one now
                    assert(p == mark);
                }
                gm.status = GameStatus::Won;
                gm.winner = Some(p);
                gm.escrow = 0;
                won = true;
            },
            None => {
                if is_board_full(&gm.board) {
                    gm.status = GameStatus::Draw;
                    gm.escrow = 0;
                    drawn = true;
                } else {
                    gm.current_turn = if mark == Player::X {
                        Player::O
                    } else {
                        Player::X
                    };
                }
            },
        }
        let bet = gm.bet_amount;
        let p1 = gm.player1;
        let p2 = gm.player2.unwrap();
        let ghost g2 = gm;
        self.games.insert(idx, gm);
        proof {
            assert(self.games@ =~= old(self).games@.update(idx as int, g2));
            assert forall|id2: Seq<char>| id2 != game_id@ implies spec_game(
                self.games@,
                id2,
            ) == spec_game(old(self).games@, id2) by {
                lemma_game_update(old(self).games@, idx as int, g2, id2);
            }
            lemma_game_update(old(self).games@, idx as int, g2, game_id@);
            lemma_sum_escrows_update(old(self).games@, idx as int, g2);
        }
        if won && bet > 0 {
            let winner_key = if mark == Player::X {
                p1
            } else {
                p2
            };
            credit(&mut self.accounts, winner_key, 2 * bet);
        } else if drawn && bet > 0 {
            credit(&mut self.accounts, p1, bet);
            credit(&mut self.accounts, p2, bet);
        }
        Ok(())
    }

    /// Move value into the system: credit `amount` to `owner`'s ledger
    /// balance, opening the account if none exists.  This is the external
    /// world depositing funds — no game operation mints or destroys value.
    pub fn fund_account(&mut self, owner: u64, amount: u64)
        requires
            old(self).wf(),
            balance_of(old(self).accounts@, owner) + amount <= u64::MAX,
        ensures
            final(self).wf(),
            balance_of(final(self).accounts@, owner) == balance_of(old(self).accounts@, owner)
                + amount,
            forall|o: u64|
                o != owner ==> balance_of(final(self).accounts@, o) == balance_of(
                    old(self).accounts@,
                    o,
                ),
            final(self).games@ == old(self).games@,
            final(self).total_funds() == old(self).total_funds() + amount,
    {
        credit(&mut self.accounts, owner, amount);
    }

    /// The ledger balance held for `owner`.
    pub fn balance(&self, owner: u64) -> (r: u64)
        requires
            self.wf(),
        ensures
            r == balance_of(self.accounts@, owner),
    {
        match find_account(&self.accounts, owner) {
            Some(i) => {
                proof {
                    lemma_balance_at_index(self.accounts@, i as int);
                }
                self.accounts[i].balance
            },
            None => {
                proof {
                    lemma_balance_absent(self.accounts@, owner);
                }
                0
            },
        }
    }

    /// The game record stored under `game_id`, if any.
    pub fn game(&self, game_id: &String) -> (r: Option<&Game>)
        requires
            self.wf(),
        ensures
            match r {
                Some(g) => spec_game(self.games@, game_id@) == Some(*g),
                None => spec_game(self.games@, game_id@) is None,
            },
    {
        match self.find_game(game_id) {
            Some(i) => {
                proof {
                    lemma_game_at_index(self.games@, i as int);
                }
                Some(&self.games[i])
            },
            None => {
                proof {
                    lemma_game_absent(self.games@, game_id@);
                }
                None
            },
        }
    }

    /// The index of the record stored under `game_id`, if any.
    fn find_game(&self, game_id: &String) -> (r: Option<usize>)
        ensures
            match r {
                Some(i) => i < self.games@.len() && self.games@[i as int].game_id@ == game_id@,
                None => forall|i: int|
                    0 <= i < self.games@.len() ==> self.games@[i].game_id@ != game_id@,
            },
    {
        let mut i: usize = 0;
        while i < self.games.len()
            invariant
                i <= self.games@.len(),
                forall|j: int| 0 <= j < i ==> self.games@[j].game_id@ != game_id@,
            decreases self.games@.len() - i,
        {
            if self.games[i].game_id.eq(game_id) {
                return Some(i);
            }
            i += 1;
        }
        None
    }
}

} // verus!

