use tic_tac_toe::engine::Engine;
use tic_tac_toe::game::{check_winner, is_board_full, GameError, GameStatus, Player};

const ALICE: u64 = 1;
const BOB: u64 = 2;
const CAROL: u64 = 3;

fn staked_game(stake: u64) -> (Engine, String) {
    let mut e = Engine::new();
    let id = String::from("g1");
    if stake > 0 {
        e.fund_account(ALICE, stake);
        e.fund_account(BOB, stake);
    }
    assert_eq!(e.initialize_game(id.clone(), stake, ALICE), Ok(()));
    assert_eq!(e.join_game(&id, BOB), Ok(()));
    (e, id)
}

#[test]
fn win_scenario() {
    let (mut e, id) = staked_game(0);
    assert_eq!(e.make_move(&id, 0, ALICE), Ok(()));
    assert_eq!(e.make_move(&id, 3, BOB), Ok(()));
    assert_eq!(e.make_move(&id, 1, ALICE), Ok(()));
    assert_eq!(e.make_move(&id, 4, BOB), Ok(()));
    assert_eq!(e.make_move(&id, 2, ALICE), Ok(()));
    let g = e.game(&id).unwrap();
    assert_eq!(g.status, GameStatus::Won);
    assert_eq!(g.winner, Some(Player::X));
    assert_eq!(g.board[0], Some(Player::X));
    assert_eq!(g.board[1], Some(Player::X));
    assert_eq!(g.board[2], Some(Player::X));
}

#[test]
fn draw_scenario() {
    let (mut e, id) = staked_game(100);
    assert_eq!(e.balance(ALICE), 0);
    assert_eq!(e.balance(BOB), 0);
    for (pos, who) in [
        (0, ALICE),
        (1, BOB),
        (2, ALICE),
        (4, BOB),
        (3, ALICE),
        (5, BOB),
        (7, ALICE),
        (6, BOB),
        (8, ALICE),
    ] {
        assert_eq!(e.make_move(&id, pos, who), Ok(()));
    }
    let g = e.game(&id).unwrap();
    assert_eq!(g.status, GameStatus::Draw);
    assert_eq!(g.winner, None);
    assert_eq!(g.escrow, 0);
    assert_eq!(e.balance(ALICE), 100);
    assert_eq!(e.balance(BOB), 100);
}

#[test]
fn staked_payout() {
    let (mut e, id) = staked_game(100);
    assert_eq!(e.game(&id).unwrap().escrow, 200);
    assert_eq!(e.make_move(&id, 0, ALICE), Ok(()));
    assert_eq!(e.make_move(&id, 3, BOB), Ok(()));
    assert_eq!(e.make_move(&id, 1, ALICE), Ok(()));
    assert_eq!(e.make_move(&id, 4, BOB), Ok(()));
    assert_eq!(e.make_move(&id, 2, ALICE), Ok(()));
    assert_eq!(e.balance(ALICE), 200);
    assert_eq!(e.balance(BOB), 0);
    assert_eq!(e.game(&id).unwrap().escrow, 0);
}

#[test]
fn rejected_move_leaves_state_unchanged() {
    let (mut e, id) = staked_game(0);
    assert_eq!(e.make_move(&id, 4, ALICE), Ok(()));
    assert_eq!(e.make_move(&id, 4, BOB), Err(GameError::PositionTaken));
    let g = e.game(&id).unwrap();
    assert_eq!(g.board[4], Some(Player::X));
    assert_eq!(g.current_turn, Player::O);
    assert_eq!(g.status, GameStatus::Active);
}

#[test]
fn move_before_join_is_rejected() {
    let mut e = Engine::new();
    let id = String::from("solo");
    assert_eq!(e.initialize_game(id.clone(), 0, ALICE), Ok(()));
    assert_eq!(e.make_move(&id, 0, ALICE), Err(GameError::WaitingForPlayer));
    let g = e.game(&id).unwrap();
    assert_eq!(g.board[0], None);
    assert_eq!(g.status, GameStatus::Active);
}

#[test]
fn turn_alternates_starting_with_x() {
    let (mut e, id) = staked_game(0);
    assert_eq!(e.game(&id).unwrap().current_turn, Player::X);
    assert_eq!(e.make_move(&id, 0, ALICE), Ok(()));
    assert_eq!(e.game(&id).unwrap().current_turn, Player::O);
    assert_eq!(e.make_move(&id, 3, BOB), Ok(()));
    assert_eq!(e.game(&id).unwrap().current_turn, Player::X);
    assert_eq!(e.make_move(&id, 1, ALICE), Ok(()));
    assert_eq!(e.make_move(&id, 4, BOB), Ok(()));
    assert_eq!(e.make_move(&id, 2, ALICE), Ok(()));
    // terminal: the turn stops changing, even across rejected requests
    assert_eq!(e.game(&id).unwrap().current_turn, Player::X);
    assert_eq!(e.make_move(&id, 5, BOB), Err(GameError::GameNotActive));
    assert_eq!(e.game(&id).unwrap().current_turn, Player::X);
}

#[test]
fn cells_are_write_once() {
    let (mut e, id) = staked_game(0);
    assert_eq!(e.make_move(&id, 0, ALICE), Ok(()));
    assert_eq!(e.make_move(&id, 0, BOB), Err(GameError::PositionTaken));
    assert_eq!(e.game(&id).unwrap().board[0], Some(Player::X));
    assert_eq!(e.make_move(&id, 1, BOB), Ok(()));
    assert_eq!(e.make_move(&id, 1, ALICE), Err(GameError::PositionTaken));
    assert_eq!(e.game(&id).unwrap().board[1], Some(Player::O));
    assert_eq!(e.game(&id).unwrap().board[0], Some(Player::X));
}

#[test]
fn terminal_game_rejects_all_further_moves() {
    let (mut e, id) = staked_game(0);
    for (pos, who) in [(0, ALICE), (3, BOB), (1, ALICE), (4, BOB), (2, ALICE)] {
        assert_eq!(e.make_move(&id, pos, who), Ok(()));
    }
    assert_eq!(e.game(&id).unwrap().status, GameStatus::Won);
    assert_eq!(e.make_move(&id, 5, BOB), Err(GameError::GameNotActive));
    assert_eq!(e.make_move(&id, 8, ALICE), Err(GameError::GameNotActive));
}

#[test]
fn escrow_tracks_deposits_then_settles() {
    let mut e = Engine::new();
    let id = String::from("pot");
    e.fund_account(ALICE, 250);
    e.fund_account(BOB, 70);
    assert_eq!(e.initialize_game(id.clone(), 70, ALICE), Ok(()));
    assert_eq!(e.game(&id).unwrap().escrow, 70);
    assert_eq!(e.balance(ALICE), 180);
    assert_eq!(e.join_game(&id, BOB), Ok(()));
    assert_eq!(e.game(&id).unwrap().escrow, 140);
    assert_eq!(e.balance(BOB), 0);
    // O wins the game: deposits in, the whole pot out, escrow empty
    for (pos, who) in [(0, ALICE), (3, BOB), (1, ALICE), (4, BOB), (8, ALICE), (5, BOB)] {
        assert_eq!(e.make_move(&id, pos, who), Ok(()));
    }
    let g = e.game(&id).unwrap();
    assert_eq!(g.status, GameStatus::Won);
    assert_eq!(g.winner, Some(Player::O));
    assert_eq!(g.escrow, 0);
    assert_eq!(e.balance(BOB), 140);
    assert_eq!(e.balance(ALICE), 180);
}

#[test]
fn stranger_and_wrong_participant_get_not_player_turn() {
    let (mut e, id) = staked_game(0);
    assert_eq!(e.make_move(&id, 0, CAROL), Err(GameError::NotPlayerTurn));
    assert_eq!(e.make_move(&id, 0, BOB), Err(GameError::NotPlayerTurn));
    assert_eq!(e.make_move(&id, 0, ALICE), Ok(()));
    assert_eq!(e.make_move(&id, 1, ALICE), Err(GameError::NotPlayerTurn));
    assert_eq!(e.make_move(&id, 1, CAROL), Err(GameError::NotPlayerTurn));
}

#[test]
fn duplicate_game_is_rejected() {
    let mut e = Engine::new();
    let id = String::from("dup");
    assert_eq!(e.initialize_game(id.clone(), 0, ALICE), Ok(()));
    assert_eq!(e.initialize_game(id.clone(), 0, BOB), Err(GameError::DuplicateGame));
    assert_eq!(e.game(&id).unwrap().player1, ALICE);
}

#[test]
fn unknown_game_is_not_found() {
    let mut e = Engine::new();
    let id = String::from("nope");
    assert_eq!(e.join_game(&id, BOB), Err(GameError::GameNotFound));
    assert_eq!(e.make_move(&id, 0, ALICE), Err(GameError::GameNotFound));
    assert!(e.game(&id).is_none());
}

#[test]
fn second_join_finds_game_full() {
    let (mut e, id) = staked_game(0);
    assert_eq!(e.join_game(&id, CAROL), Err(GameError::GameFull));
    assert_eq!(e.game(&id).unwrap().player2, Some(BOB));
}

#[test]
fn out_of_range_position_is_invalid() {
    let (mut e, id) = staked_game(0);
    assert_eq!(e.make_move(&id, 9, ALICE), Err(GameError::InvalidPosition));
    assert_eq!(e.make_move(&id, 200, ALICE), Err(GameError::InvalidPosition));
    assert_eq!(e.game(&id).unwrap().status, GameStatus::Active);
}

#[test]
fn zero_stake_settlement_moves_no_funds() {
    let (mut e, id) = staked_game(0);
    for (pos, who) in [(0, ALICE), (3, BOB), (1, ALICE), (4, BOB), (2, ALICE)] {
        assert_eq!(e.make_move(&id, pos, who), Ok(()));
    }
    assert_eq!(e.game(&id).unwrap().status, GameStatus::Won);
    assert_eq!(e.balance(ALICE), 0);
    assert_eq!(e.balance(BOB), 0);
}

#[test]
fn largest_stake_pays_the_doubled_pot() {
    let stake = u64::MAX / 2;
    let (mut e, id) = staked_game(stake);
    for (pos, who) in [(0, ALICE), (3, BOB), (1, ALICE), (4, BOB), (2, ALICE)] {
        assert_eq!(e.make_move(&id, pos, who), Ok(()));
    }
    assert_eq!(e.balance(ALICE), 2 * stake);
    assert_eq!(e.balance(BOB), 0);
}

#[test]
fn longest_identifier_is_accepted() {
    let mut e = Engine::new();
    let id = String::from("abcdefghijklmnopqrstuvwxyz012345");
    assert_eq!(id.len(), 32);
    assert_eq!(e.initialize_game(id.clone(), 0, ALICE), Ok(()));
    assert_eq!(e.game(&id).unwrap().player1, ALICE);
}

#[test]
fn games_are_independent() {
    let mut e = Engine::new();
    let a = String::from("a");
    let b = String::from("b");
    assert_eq!(e.initialize_game(a.clone(), 0, ALICE), Ok(()));
    assert_eq!(e.initialize_game(b.clone(), 0, CAROL), Ok(()));
    assert_eq!(e.join_game(&a, BOB), Ok(()));
    assert_eq!(e.make_move(&a, 0, ALICE), Ok(()));
    let gb = e.game(&b).unwrap();
    assert_eq!(gb.board[0], None);
    assert_eq!(gb.player2, None);
    assert_eq!(gb.current_turn, Player::X);
}

#[test]
fn funding_accumulates_and_unknown_accounts_hold_zero() {
    let mut e = Engine::new();
    assert_eq!(e.balance(ALICE), 0);
    e.fund_account(ALICE, 30);
    e.fund_account(ALICE, 12);
    assert_eq!(e.balance(ALICE), 42);
    assert_eq!(e.balance(BOB), 0);
}

fn held_value(e: &Engine) -> u64 {
    e.accounts.iter().map(|a| a.balance).sum::<u64>()
        + e.games.iter().map(|g| g.escrow).sum::<u64>()
}

#[test]
fn no_operation_mints_or_destroys_value() {
    let mut e = Engine::new();
    let id = String::from("g1");
    e.fund_account(ALICE, 150);
    e.fund_account(BOB, 90);
    assert_eq!(held_value(&e), 240);
    assert_eq!(e.initialize_game(id.clone(), 90, ALICE), Ok(()));
    assert_eq!(held_value(&e), 240);
    assert_eq!(e.join_game(&id, BOB), Ok(()));
    assert_eq!(held_value(&e), 240);
    for (pos, who) in [(0, ALICE), (3, BOB), (1, ALICE), (4, BOB), (2, ALICE)] {
        assert_eq!(e.make_move(&id, pos, who), Ok(()));
        assert_eq!(held_value(&e), 240);
    }
    assert_eq!(e.balance(ALICE), 240);
    assert_eq!(e.balance(BOB), 0);
}

#[test]
fn check_winner_reads_rows_columns_and_diagonals() {
    let x = Some(Player::X);
    let o = Some(Player::O);
    let n: Option<Player> = None;
    assert_eq!(check_winner(&vec![n, n, n, n, n, n, n, n, n]), None);
    assert_eq!(check_winner(&vec![x, x, x, o, o, n, n, n, n]), Some(Player::X));
    assert_eq!(check_winner(&vec![x, o, n, x, o, n, x, n, n]), Some(Player::X));
    assert_eq!(check_winner(&vec![o, x, x, n, o, x, n, n, o]), Some(Player::O));
    assert_eq!(check_winner(&vec![x, o, o, x, o, x, o, x, x]), Some(Player::O));
}

#[test]
fn board_fullness_is_exact() {
    let x = Some(Player::X);
    let o = Some(Player::O);
    let n: Option<Player> = None;
    assert!(!is_board_full(&vec![n, n, n, n, n, n, n, n, n]));
    assert!(!is_board_full(&vec![x, o, x, o, x, o, x, o, n]));
    assert!(is_board_full(&vec![x, o, x, o, x, o, x, o, x]));
}
