//! The game record and the rules of play: marks, statuses, the board, the
//! winning lines, and the specification of a single move.

use vstd::prelude::*;

verus! {

/// One of the two marks a participant plays with.  The creator of a game
/// plays X and always moves first; the joiner plays O.
#[derive(Clone, Copy, Debug, PartialEq, Eq, Structural)]
pub enum Player {
    X,
    O,
}

/// The lifecycle status of a game.  A game starts `Active` and moves to
/// `Won` or `Draw` exactly once, after which no further move is accepted.
#[derive(Clone, Copy, Debug, PartialEq, Eq, Structural)]
pub enum GameStatus {
    Active,
    Won,
    Draw,
}

/// Every way a request can be rejected.  Each variant corresponds to
/// exactly one precondition of one operation.
#[derive(Clone, Copy, Debug, PartialEq, Eq, Structural)]
pub enum GameError {
    /// Create: a game with the requested identifier already exists.
    DuplicateGame,
    /// Join or advance: no game with the requested identifier exists.
    GameNotFound,
    /// Join: the game already has a second participant.
    GameFull,
    /// Join or advance: the game has already been decided.
    GameNotActive,
    /// Advance: the position is not in the range 0..9.
    InvalidPosition,
    /// Advance: the target cell is already marked.
    PositionTaken,
    /// Advance: no second participant has joined yet.
    WaitingForPlayer,
    /// Advance: the caller is not the participant whose turn it is.
    NotPlayerTurn,
}

/// The sole persisted entity: one record per game, keyed by `game_id`.
pub struct Game {
    /// Caller-supplied identifier, unique across the store.
    pub game_id: String,
    /// Identity of the creator; plays X.  Immutable after creation.
    pub player1: u64,
    /// Identity of the joiner; plays O.  Set exactly once, by join.
    pub player2: Option<u64>,
    /// The mark that must move next.  Meaningful only while `Active`.
    pub current_turn: Player,
    /// `Active`, `Won` or `Draw`.
    pub status: GameStatus,
    /// The winning mark once `status` is `Won`; `None` otherwise.
    pub winner: Option<Player>,
    /// Nine cells, row-major; each empty or holding a mark.  Write-once.
    pub board: Vec<Option<Player>>,
    /// The stake each participant commits.  Fixed at creation.
    pub bet_amount: u64,
    /// Value currently held for this game: `bet_amount` per deposit made,
    /// and zero again once settlement has run.
    pub escrow: u64,
}

/// The other mark.
pub open spec fn other(p: Player) -> Player {
    match p {
        Player::X => Player::O,
        Player::O => Player::X,
    }
}

/// Cells `a`, `b`, `c` all hold mark `p`.
pub open spec fn line_is(board: Seq<Option<Player>>, p: Player, a: int, b: int, c: int) -> bool {
    board[a] == Some(p) && board[b] == Some(p) && board[c] == Some(p)
}

/// Mark `p` holds one of the eight winning lines: three rows, three
/// columns, two diagonals.
pub open spec fn wins(board: Seq<Option<Player>>, p: Player) -> bool {
    ||| line_is(board, p, 0, 1, 2)
    ||| line_is(board, p, 3, 4, 5)
    ||| line_is(board, p, 6, 7, 8)
    ||| line_is(board, p, 0, 3, 6)
    ||| line_is(board, p, 1, 4, 7)
    ||| line_is(board, p, 2, 5, 8)
    ||| line_is(board, p, 0, 4, 8)
    ||| line_is(board, p, 2, 4, 6)
}

/// Every cell is marked.
pub open spec fn board_full(board: Seq<Option<Player>>) -> bool {
    forall|i: int| 0 <= i < 9 ==> board[i] is Some
}

/// The identity that must make the next move: X is the creator, O the
/// joiner.  Meaningful only once a second participant has joined.
pub open spec fn mover(g: Game) -> u64 {
    match g.current_turn {
        Player::X => g.player1,
        Player::O => match g.player2 {
            Some(p) => p,
            None => g.player1,
        },
    }
}

/// The identity of the second participant, once joined.
pub open spec fn player2_of(g: Game) -> u64 {
    match g.player2 {
        Some(p) => p,
        None => g.player1,
    }
}

impl Game {
    /// Well-formedness of a game record: the invariants every operation
    /// establishes and preserves.
    pub open spec fn wf(self) -> bool {
        &&& self.board@.len() == 9
        &&& self.bet_amount <= u64::MAX / 2
        &&& (self.status is Won <==> self.winner is Some)
        &&& (match self.winner {
            Some(p) => wins(self.board@, p),
            None => true,
        })
        &&& (self.status is Active ==> !wins(self.board@, Player::X) && !wins(
            self.board@,
            Player::O,
        ))
        &&& (self.player2 is None ==> self.status is Active && (forall|i: int|
            0 <= i < 9 ==> self.board@[i] is None))
        &&& (self.status is Active ==> self.escrow == self.bet_amount * (
        if self.player2 is Some {
            2int
        } else {
            1int
        }))
        &&& (!(self.status is Active) ==> self.escrow == 0)
    }
}

/// The first failing precondition of an advance request against game `g`,
/// or `None` when the move is accepted.  The checks run in this fixed
/// order; the first failure wins.
pub open spec fn advance_error(g: Game, position: u8, caller: u64) -> Option<GameError> {
    if position >= 9 {
        Some(GameError::InvalidPosition)
    } else if g.board@[position as int] is Some {
        Some(GameError::PositionTaken)
    } else if !(g.status is Active) {
        Some(GameError::GameNotActive)
    } else if g.player2 is None {
        Some(GameError::WaitingForPlayer)
    } else if caller != mover(g) {
        Some(GameError::NotPlayerTurn)
    } else {
        None
    }
}

/// The board after the pending mark is written into `position`.
pub open spec fn board_after(g: Game, position: u8) -> Seq<Option<Player>> {
    g.board@.update(position as int, Some(g.current_turn))
}

/// How a successful move transforms the game record `g` into `g2`:
/// the mover's mark lands in the chosen cell, and then exactly one of
/// win-settle, draw-settle or turn-flip happens.
pub open spec fn advance_post(g: Game, g2: Game, position: u8) -> bool {
    let b = board_after(g, position);
    &&& g2.game_id@ == g.game_id@
    &&& g2.player1 == g.player1
    &&& g2.player2 == g.player2
    &&& g2.bet_amount == g.bet_amount
    &&& g2.board@ == b
    &&& if wins(b, g.current_turn) {
        &&& g2.status is Won
        &&& g2.winner == Some(g.current_turn)
        &&& g2.current_turn == g.current_turn
        &&& g2.escrow == 0
    } else if board_full(b) {
        &&& g2.status is Draw
        &&& g2.winner is None
        &&& g2.current_turn == g.current_turn
        &&& g2.escrow == 0
    } else {
        &&& g2.status is Active
        &&& g2.winner is None
        &&& g2.current_turn == other(g.current_turn)
        &&& g2.escrow == g.escrow
    }
}

/// What a freshly created game record looks like: the creator holds X and
/// moves first, the board is empty, the game is active, and the escrow
/// holds exactly the creator's deposit.
pub open spec fn created(g: Game, id: Seq<char>, bet: u64, p1: u64) -> bool {
    &&& g.game_id@ == id
    &&& g.player1 == p1
    &&& g.player2 is None
    &&& g.current_turn is X
    &&& g.status is Active
    &&& g.winner is None
    &&& g.board@.len() == 9
    &&& (forall|i: int| 0 <= i < 9 ==> g.board@[i] is None)
    &&& g.bet_amount == bet
    &&& g.escrow == bet
}

/// The first failing precondition of a join request against game `g`, or
/// `None` when the join is accepted.  The fullness check runs first.
pub open spec fn join_error(g: Game) -> Option<GameError> {
    if g.player2 is Some {
        Some(GameError::GameFull)
    } else if !(g.status is Active) {
        Some(GameError::GameNotActive)
    } else {
        None
    }
}

/// How a successful join transforms the game record `g` into `g2`: the
/// second seat is taken and the matching deposit lands in escrow; nothing
/// else changes.
pub open spec fn joined(g: Game, g2: Game, p: u64) -> bool {
    &&& g2.game_id@ == g.game_id@
    &&& g2.player1 == g.player1
    &&& g2.player2 == Some(p)
    &&& g2.current_turn == g.current_turn
    &&& g2.status == g.status
    &&& g2.winner == g.winner
    &&& g2.board@ == g.board@
    &&& g2.bet_amount == g.bet_amount
    &&& g2.escrow == g.escrow + g.bet_amount
}

/// Writing one mark into an empty cell cannot create a line for the other
/// mark.
pub proof fn lemma_no_new_win(b: Seq<Option<Player>>, pos: int, placed: Player, p: Player)
    requires
        b.len() == 9,
        0 <= pos < 9,
        b[pos] is None,
        p != placed,
        !wins(b, p),
    ensures
        !wins(b.update(pos, Some(placed)), p),
{
}

/// Turn alternation: an accepted move that leaves the game active passes
/// the turn to the other mark, and a move that ends the game leaves the
/// turn untouched — after a terminal state the turn never changes again.
/// The first turn is X's, by `created`.
pub proof fn lemma_turn_alternation(g: Game, g2: Game, position: u8)
    requires
        position < 9,
        g.board@.len() == 9,
        advance_post(g, g2, position),
    ensures
        g2.status is Active ==> g2.current_turn == other(g.current_turn),
        !(g2.status is Active) ==> g2.current_turn == g.current_turn,
{
}

/// Write-once board: an accepted move fills exactly the chosen empty cell
/// with the mover's mark; every cell that already held a mark keeps it.
pub proof fn lemma_write_once(g: Game, g2: Game, position: u8)
    requires
        position < 9,
        g.board@.len() == 9,
        g.board@[position as int] is None,
        advance_post(g, g2, position),
    ensures
        forall|i: int| 0 <= i < 9 && g.board@[i] is Some ==> g2.board@[i] == g.board@[i],
        g2.board@[position as int] == Some(g.current_turn),
{
}

/// One terminal cause, and terminal means final: `status` is a single
/// value, so a game is never both won and drawn; an accepted move ends in
/// exactly one of win, draw or turn-flip; and a move against a decided
/// game aimed at an empty cell in range is rejected with `GameNotActive`,
/// so its board, turn and winner never change again.
pub proof fn lemma_terminal_is_final(g: Game, g2: Game, position: u8, caller: u64)
    requires
        position < 9,
        g.board@.len() == 9,
        g.board@[position as int] is None,
        advance_post(g, g2, position),
    ensures
        !(g2.status is Won && g2.status is Draw),
        g2.status is Won ==> g2.winner == Some(g.current_turn) && g2.escrow == 0,
        g2.status is Draw ==> g2.winner is None && g2.escrow == 0,
        g2.status is Active ==> g2.winner is None && g2.escrow == g.escrow,
        forall|pos2: u8, caller2: u64|
            pos2 < 9 && g2.board@[pos2 as int] is None && !(g2.status is Active)
                ==> advance_error(g2, pos2, caller2) == Some(GameError::GameNotActive),
        !(g.status is Active) ==> advance_error(g, position, caller) == Some(
            GameError::GameNotActive,
        ),
{
}

/// Escrow conservation: while a two-seated game is active its escrow
/// holds exactly one stake per deposit made — both of them — and an
/// accepted move either leaves the escrow alone or ends the game and
/// empties it, paying out exactly what was held.
pub proof fn lemma_escrow_conservation(g: Game, g2: Game, position: u8)
    requires
        g.wf(),
        g.status is Active,
        g.player2 is Some,
        position < 9,
        g.board@[position as int] is None,
        advance_post(g, g2, position),
    ensures
        g.escrow == 2 * g.bet_amount,
        !(g2.status is Active) ==> g2.escrow == 0,
        g2.status is Active ==> g2.escrow == 2 * g.bet_amount,
{
}

/// Turn authorization: a move from an identity that is not the expected
/// mover — in particular from anyone who is no participant at all — is
/// rejected with `NotPlayerTurn` and nothing else, whenever the earlier
/// checks pass.
pub proof fn lemma_turn_authorization(g: Game, position: u8, caller: u64)
    requires
        position < 9,
        g.board@.len() == 9,
        g.board@[position as int] is None,
        g.status is Active,
        g.player2 is Some,
        caller != g.player1,
        caller != player2_of(g),
    ensures
        advance_error(g, position, caller) == Some(GameError::NotPlayerTurn),
{
}

/// The winner of cells `a`, `b`, `c`: their shared mark when all three are
/// equal and marked, `None` otherwise.
pub open spec fn line_winner_spec(
    board: Seq<Option<Player>>,
    a: int,
    b: int,
    c: int,
) -> Option<Player> {
    if board[a] is Some && board[a] == board[b] && board[b] == board[c] {
        board[a]
    } else {
        None
    }
}

/// The shared mark of cells `a`, `b`, `c`, when all three are equal and
/// marked.
fn line_winner(board: &Vec<Option<Player>>, a: usize, b: usize, c: usize) -> (r: Option<Player>)
    requires
        board@.len() == 9,
        a < 9,
        b < 9,
        c < 9,
    ensures
        r == line_winner_spec(board@, a as int, b as int, c as int),
{
    match (board[a], board[b], board[c]) {
        (Some(x), Some(y), Some(z)) => {
            if x == y && y == z {
                Some(x)
            } else {
                None
            }
        },
        _ => None,
    }
}

/// Scan the eight winning lines for three equal, non-empty marks, and
/// return the mark that holds one.  On a board where only one mark can
/// have a line — every board reachable by valid play — the result is
/// exactly that mark, or `None` when neither has a line.
pub fn check_winner(board: &Vec<Option<Player>>) -> (r: Option<Player>)
    requires
        board@.len() == 9,
    ensures
        r is Some <==> (wins(board@, Player::X) || wins(board@, Player::O)),
        r == Some(Player::X) ==> wins(board@, Player::X),
        r == Some(Player::O) ==> wins(board@, Player::O),
        !(wins(board@, Player::X) && wins(board@, Player::O)) ==> r == (if wins(
            board@,
            Player::X,
        ) {
            Some(Player::X)
        } else if wins(board@, Player::O) {
            Some(Player::O)
        } else {
            None::<Player>
        }),
{
    proof {
        lemma_lines_cover(board@, Player::X);
        lemma_lines_cover(board@, Player::O);
    }
    let mut r = line_winner(board, 0, 1, 2);
    if r.is_none() {
        r = line_winner(board, 3, 4, 5);
    }
    if r.is_none() {
        r = line_winner(board, 6, 7, 8);
    }
    if r.is_none() {
        r = line_winner(board, 0, 3, 6);
    }
    if r.is_none() {
        r = line_winner(board, 1, 4, 7);
    }
    if r.is_none() {
        r = line_winner(board, 2, 5, 8);
    }
    if r.is_none() {
        r = line_winner(board, 0, 4, 8);
    }
    if r.is_none() {
        r = line_winner(board, 2, 4, 6);
    }
    proof {
        // Case analysis over the value scanned up: each arm follows from
        // the line-by-line results and `lemma_lines_cover`.
        assert(r is None ==> !wins(board@, Player::X) && !wins(board@, Player::O));
        assert(r == Some(Player::X) ==> wins(board@, Player::X));
        assert(r == Some(Player::O) ==> wins(board@, Player::O));
        assert(r is Some ==> r == Some(Player::X) || r == Some(Player::O));
    }
    r
}

/// Relates the eight `line_winner_spec` results to `wins`: a mark wins
/// exactly when one of the eight lines carries it.
proof fn lemma_lines_cover(board: Seq<Option<Player>>, p: Player)
    requires
        board.len() == 9,
    ensures
        wins(board, p) <==> {
            ||| line_winner_spec(board, 0, 1, 2) == Some(p)
            ||| line_winner_spec(board, 3, 4, 5) == Some(p)
            ||| line_winner_spec(board, 6, 7, 8) == Some(p)
            ||| line_winner_spec(board, 0, 3, 6) == Some(p)
            ||| line_winner_spec(board, 1, 4, 7) == Some(p)
            ||| line_winner_spec(board, 2, 5, 8) == Some(p)
            ||| line_winner_spec(board, 0, 4, 8) == Some(p)
            ||| line_winner_spec(board, 2, 4, 6) == Some(p)
        },
{
}

/// Every cell is marked.
pub fn is_board_full(board: &Vec<Option<Player>>) -> (r: bool)
    requires
        board@.len() == 9,
    ensures
        r == board_full(board@),
{
    let mut i: usize = 0;
    while i < 9
        invariant
            board@.len() == 9,
            i <= 9,
            forall|j: int| 0 <= j < i ==> board@[j] is Some,
        decreases 9 - i,
    {
        if board[i].is_none() {
            return false;
        }
        i += 1;
    }
    true
}

} // verus!
