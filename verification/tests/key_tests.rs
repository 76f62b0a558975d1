use tstris::game::board::{empty_board, Cell, Color};
use tstris::game::piece::{Piece, PieceType, Rotation};
use tstris::game::state::{Game, GameState};
use tstris::input::direction::InputDirection;
use tstris::input::handler::{
    classify, execute, handle_input, handle_key_event, Command, Key, KeyKind, LoopControl,
};

fn game_with(piece_type: PieceType) -> Game {
    let mut game = Game::new(0);
    game.game_state = GameState::Playing;
    game.game_timer = Some(0);
    game.current_piece = Some(Piece::new(piece_type));
    game
}

#[test]
fn direction_keys_hold_and_release() {
    for kind in [KeyKind::Press, KeyKind::Repeat] {
        assert_eq!(classify(Key::Left, kind, false), Command::Press(InputDirection::Left));
        assert_eq!(classify(Key::Right, kind, false), Command::Press(InputDirection::Right));
        assert_eq!(classify(Key::Down, kind, true), Command::Press(InputDirection::Down));
    }
    let release = KeyKind::Release;
    assert_eq!(classify(Key::Left, release, false), Command::Release(InputDirection::Left));
    assert_eq!(classify(Key::Right, release, true), Command::Release(InputDirection::Right));
    assert_eq!(classify(Key::Down, release, false), Command::Release(InputDirection::Down));
}

#[test]
fn letter_keys_give_their_commands() {
    for kind in [KeyKind::Press, KeyKind::Repeat] {
        assert_eq!(classify(Key::Up, kind, false), Command::Rotate(Rotation::Clockwise));
        for letter in ['d', 'D'] {
            let command = classify(Key::Char(letter), kind, false);
            assert_eq!(command, Command::Rotate(Rotation::CounterClockwise));
        }
        for letter in ['a', 'A'] {
            assert_eq!(classify(Key::Char(letter), kind, false), Command::Rotate(Rotation::Half));
        }
        for letter in ['s', 'S'] {
            assert_eq!(classify(Key::Char(letter), kind, false), Command::HardDrop);
        }
        for letter in ['h', 'H'] {
            assert_eq!(classify(Key::Char(letter), kind, false), Command::HoldPiece);
        }
        assert_eq!(classify(Key::Char(' '), kind, false), Command::StartOrDrop);
        assert_eq!(classify(Key::Char('x'), kind, false), Command::Nothing);
        assert_eq!(classify(Key::Other, kind, false), Command::Nothing);
    }
}

#[test]
fn shift_holds_only_with_keys_that_mean_nothing_else() {
    assert_eq!(classify(Key::Other, KeyKind::Press, true), Command::HoldPiece);
    assert_eq!(classify(Key::Char('x'), KeyKind::Press, true), Command::HoldPiece);
    assert_eq!(classify(Key::Char('S'), KeyKind::Press, true), Command::HardDrop);
    assert_eq!(
        classify(Key::Char('D'), KeyKind::Press, true),
        Command::Rotate(Rotation::CounterClockwise)
    );
    assert_eq!(classify(Key::Up, KeyKind::Press, true), Command::Rotate(Rotation::Clockwise));
    assert_eq!(classify(Key::Left, KeyKind::Press, true), Command::Press(InputDirection::Left));
}

#[test]
fn releases_of_other_keys_mean_nothing() {
    for key in [Key::Up, Key::Char('s'), Key::Char(' '), Key::Char('h'), Key::Other] {
        assert_eq!(classify(key, KeyKind::Release, false), Command::Nothing);
        assert_eq!(classify(key, KeyKind::Release, true), Command::Nothing);
    }
}

#[test]
fn direction_key_presses_then_repeats() {
    let mut game = game_with(PieceType::O);
    handle_input(&mut game, Key::Left, KeyKind::Press, false, 100);
    assert!(game.input_state.is_pressed(InputDirection::Left));
    assert_eq!(game.input_state.left.das_timer, 100);
    assert_eq!(game.input_state.left.last_update, 100);
    handle_input(&mut game, Key::Left, KeyKind::Repeat, false, 150);
    assert_eq!(game.input_state.left.das_timer, 100);
    assert_eq!(game.input_state.left.last_update, 150);
    handle_input(&mut game, Key::Left, KeyKind::Press, false, 160);
    assert_eq!(game.input_state.left.das_timer, 100);
    assert_eq!(game.input_state.left.last_update, 160);
    handle_input(&mut game, Key::Left, KeyKind::Release, false, 170);
    assert!(!game.input_state.is_pressed(InputDirection::Left));
    // The key itself moves nothing; the next frame does.
    assert_eq!(game.current_piece, Some(Piece::new(PieceType::O)));
}

#[test]
fn repeat_of_an_idle_direction_presses_it() {
    let mut game = game_with(PieceType::O);
    handle_input(&mut game, Key::Down, KeyKind::Repeat, false, 100);
    assert!(game.input_state.is_pressed(InputDirection::Down));
    assert_eq!(game.input_state.down.das_timer, 100);
}

#[test]
fn opposite_direction_keys_exclude_each_other() {
    let mut game = game_with(PieceType::O);
    handle_input(&mut game, Key::Left, KeyKind::Press, false, 100);
    handle_input(&mut game, Key::Right, KeyKind::Press, false, 110);
    assert!(!game.input_state.is_pressed(InputDirection::Left));
    assert!(game.input_state.is_pressed(InputDirection::Right));
    handle_input(&mut game, Key::Left, KeyKind::Press, false, 120);
    assert!(game.input_state.is_pressed(InputDirection::Left));
    assert!(!game.input_state.is_pressed(InputDirection::Right));
}

#[test]
fn rotation_keys_turn_the_piece() {
    let mut game = game_with(PieceType::T);
    handle_input(&mut game, Key::Up, KeyKind::Press, false, 10);
    assert_eq!(game.current_piece, Some(Piece::new(PieceType::T).rotate_clockwise()));
    handle_input(&mut game, Key::Char('d'), KeyKind::Press, false, 10);
    assert_eq!(game.current_piece, Some(Piece::new(PieceType::T)));
    handle_input(&mut game, Key::Char('A'), KeyKind::Repeat, false, 10);
    assert_eq!(game.current_piece, Some(Piece::new(PieceType::T).rotate_180()));
    handle_input(&mut game, Key::Up, KeyKind::Release, false, 10);
    assert_eq!(game.current_piece, Some(Piece::new(PieceType::T).rotate_180()));
}

#[test]
fn drop_key_drops_and_locks() {
    let mut game = game_with(PieceType::O);
    handle_input(&mut game, Key::Char('s'), KeyKind::Press, false, 10);
    assert_eq!(game.board[19][3], Cell::Filled(Color::Yellow));
    assert_eq!(game.drop_timer, 10);
}

#[test]
fn space_starts_the_countdown_or_drops() {
    let mut game = Game::new(0);
    handle_input(&mut game, Key::Char(' '), KeyKind::Press, false, 10);
    assert_eq!(game.game_state, GameState::Countdown(3));
    assert_eq!(game.countdown_timer, 10);
    handle_input(&mut game, Key::Char(' '), KeyKind::Press, false, 20);
    assert_eq!(game.game_state, GameState::Countdown(3));
    assert_eq!(game.countdown_timer, 10);
    assert_eq!(game.board, empty_board());

    let mut game = game_with(PieceType::O);
    handle_input(&mut game, Key::Char(' '), KeyKind::Press, false, 10);
    assert_eq!(game.board[19][3], Cell::Filled(Color::Yellow));

    let mut game = game_with(PieceType::O);
    game.game_state = GameState::Finished;
    handle_input(&mut game, Key::Char(' '), KeyKind::Press, false, 10);
    assert_eq!(game.board, empty_board());
    assert_eq!(game.current_piece, Some(Piece::new(PieceType::O)));
}

#[test]
fn drop_key_on_a_finished_game_keeps_the_run_time() {
    let mut game = game_with(PieceType::O);
    game.game_state = GameState::Finished;
    game.final_time = Some(100);
    game.lines_remaining = 0;
    handle_input(&mut game, Key::Char('s'), KeyKind::Press, false, 5000);
    assert_eq!(game.final_time, Some(100));
    assert_eq!(game.game_state, GameState::Finished);
    assert_eq!(game.get_current_time(6000), Some(100));
}

#[test]
fn hold_key_and_shift_hold_the_piece() {
    let mut game = game_with(PieceType::O);
    handle_input(&mut game, Key::Char('h'), KeyKind::Press, false, 10);
    assert_eq!(game.hold_piece, Some(Piece::new(PieceType::O)));
    assert!(!game.can_hold);

    let mut game = game_with(PieceType::L);
    handle_input(&mut game, Key::Other, KeyKind::Press, true, 10);
    assert_eq!(game.hold_piece, Some(Piece::new(PieceType::L)));

    let mut game = game_with(PieceType::L);
    handle_input(&mut game, Key::Other, KeyKind::Release, true, 10);
    assert!(game.hold_piece.is_none());
}

#[test]
fn unknown_key_changes_nothing() {
    let mut game = game_with(PieceType::O);
    handle_input(&mut game, Key::Char('x'), KeyKind::Press, false, 10);
    handle_input(&mut game, Key::Other, KeyKind::Press, false, 10);
    assert_eq!(game.current_piece, Some(Piece::new(PieceType::O)));
    assert_eq!(game.board, empty_board());
    assert!(game.hold_piece.is_none());
    assert_eq!(game.game_state, GameState::Playing);
}

#[test]
fn execute_carries_out_each_command() {
    let mut game = game_with(PieceType::T);
    execute(&mut game, Command::Rotate(Rotation::Half), 10);
    assert_eq!(game.current_piece, Some(Piece::new(PieceType::T).rotate_180()));
    execute(&mut game, Command::Press(InputDirection::Right), 20);
    assert!(game.input_state.is_pressed(InputDirection::Right));
    execute(&mut game, Command::Release(InputDirection::Right), 30);
    assert!(!game.input_state.is_pressed(InputDirection::Right));
    execute(&mut game, Command::Nothing, 40);
    execute(&mut game, Command::HoldPiece, 50);
    assert!(game.hold_piece.is_some());
    execute(&mut game, Command::HardDrop, 60);
    assert_ne!(game.board, empty_board());
    assert!(game.is_well_formed());
}

#[test]
fn q_pressed_quits() {
    for letter in ['q', 'Q'] {
        let mut game = game_with(PieceType::O);
        let key = Key::Char(letter);
        let control = handle_key_event(&mut game, key, KeyKind::Press, false, true, 10);
        assert_eq!(control, LoopControl::Quit);
        for kind in [KeyKind::Repeat, KeyKind::Release] {
            let control = handle_key_event(&mut game, Key::Char(letter), kind, false, true, 10);
            assert_eq!(control, LoopControl::Continue);
        }
        assert_eq!(game.current_piece, Some(Piece::new(PieceType::O)));
        assert_eq!(game.game_state, GameState::Playing);
    }
}

#[test]
fn r_pressed_restarts() {
    for letter in ['r', 'R'] {
        let mut game = game_with(PieceType::O);
        game.board[19][0] = Cell::Filled(Color::Red);
        for kind in [KeyKind::Repeat, KeyKind::Release] {
            let control = handle_key_event(&mut game, Key::Char(letter), kind, false, true, 10);
            assert_eq!(control, LoopControl::Continue);
            assert_eq!(game.game_state, GameState::Playing);
        }
        let key = Key::Char(letter);
        let control = handle_key_event(&mut game, key, KeyKind::Press, false, true, 500);
        assert_eq!(control, LoopControl::Continue);
        assert_eq!(game.game_state, GameState::Countdown(3));
        assert_eq!(game.countdown_timer, 500);
        assert_eq!(game.board, empty_board());
        assert!(game.current_piece.is_none());
        assert!(game.input_state.keyboard_enhancement_active);
        assert!(game.is_well_formed());
    }
    let mut game = game_with(PieceType::O);
    handle_key_event(&mut game, Key::Char('r'), KeyKind::Press, false, false, 500);
    assert!(!game.input_state.keyboard_enhancement_active);
}

#[test]
fn other_keys_go_to_the_engine() {
    let mut game = game_with(PieceType::T);
    let control = handle_key_event(&mut game, Key::Up, KeyKind::Press, false, false, 10);
    assert_eq!(control, LoopControl::Continue);
    assert_eq!(game.current_piece, Some(Piece::new(PieceType::T).rotate_clockwise()));
    let control = handle_key_event(&mut game, Key::Left, KeyKind::Press, false, false, 10);
    assert_eq!(control, LoopControl::Continue);
    assert!(game.input_state.is_pressed(InputDirection::Left));
    assert!(!game.input_state.keyboard_enhancement_active);
}
