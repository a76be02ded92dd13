use mastermind::game::Game;
use mastermind::game::GameStatus;
use mastermind::game::GuessOutcome;
use mastermind::parse::parse_guess;
use mastermind::parse::parse_length_choice;
use mastermind::secret::generate_code;

#[test]
fn winning_guess_ends_the_game() {
    let mut game = Game::with_secret(vec![4, 2, 3]);
    let outcome = game.submit_guess("423");
    assert_eq!(outcome, GuessOutcome::Won);
    assert_eq!(game.status, GameStatus::Won);
    assert_eq!(game.attempts_used, 1);
    assert_eq!(game.secret, vec![4, 2, 3]);
}

#[test]
fn wrong_guess_spends_an_attempt_and_reports_counts() {
    let mut game = Game::with_secret(vec![4, 2, 3, 5, 1]);
    let outcome = game.submit_guess("12453");
    assert_eq!(outcome, GuessOutcome::Feedback { exact: 2, partial: 3 });
    assert_eq!(game.status, GameStatus::InProgress);
    assert_eq!(game.attempts_used, 1);
}

#[test]
fn attempts_exhausted_after_ten_wrong_guesses() {
    let mut game = Game::with_secret(vec![4, 2, 3]);
    for round in 1..=10usize {
        assert_eq!(game.status, GameStatus::InProgress);
        let outcome = game.submit_guess("000");
        assert!(matches!(outcome, GuessOutcome::Feedback { .. }));
        assert_eq!(game.attempts_used, round);
    }
    // The tenth miss loses the game: no eleventh attempt is accepted, and the
    // secret is there to be revealed.
    assert_eq!(game.status, GameStatus::Lost);
    assert_eq!(game.attempts_used, 10);
    assert_eq!(game.secret, vec![4, 2, 3]);
}

#[test]
fn short_guess_rejected_without_spending_an_attempt() {
    let mut game = Game::with_secret(vec![4, 2, 3]);
    let outcome = game.submit_guess("12");
    assert_eq!(outcome, GuessOutcome::Rejected);
    assert_eq!(game.status, GameStatus::InProgress);
    assert_eq!(game.attempts_used, 0);
}

#[test]
fn non_digit_guess_rejected_without_spending_an_attempt() {
    let mut game = Game::with_secret(vec![4, 2, 3]);
    let outcome = game.submit_guess("12a");
    assert_eq!(outcome, GuessOutcome::Rejected);
    assert_eq!(game.status, GameStatus::InProgress);
    assert_eq!(game.attempts_used, 0);
}

#[test]
fn rejected_lines_never_advance_the_attempt_counter() {
    let mut game = Game::with_secret(vec![4, 2, 3]);
    for line in ["", "4", "4444", "one", "4 2", "42x"] {
        let outcome = game.submit_guess(line);
        assert_eq!(outcome, GuessOutcome::Rejected);
        assert_eq!(game.attempts_used, 0);
        assert_eq!(game.status, GameStatus::InProgress);
    }
}

#[test]
fn parse_guess_accepts_exact_digit_lines() {
    assert_eq!(parse_guess("423", 3), Some(vec![4, 2, 3]));
    assert_eq!(parse_guess("0000000", 7), Some(vec![0, 0, 0, 0, 0, 0, 0]));
    assert_eq!(parse_guess("", 0), Some(vec![]));
}

#[test]
fn parse_guess_rejects_wrong_length() {
    assert_eq!(parse_guess("12", 3), None);
    assert_eq!(parse_guess("1234", 3), None);
}

#[test]
fn parse_guess_rejects_non_digits() {
    assert_eq!(parse_guess("12a", 3), None);
    assert_eq!(parse_guess(" 12", 3), None);
    assert_eq!(parse_guess("1.2", 3), None);
}

#[test]
fn menu_choices_map_to_lengths() {
    assert_eq!(parse_length_choice("1"), Some(3));
    assert_eq!(parse_length_choice("2"), Some(5));
    assert_eq!(parse_length_choice("3"), Some(7));
}

#[test]
fn other_menu_lines_are_rejected() {
    assert_eq!(parse_length_choice(""), None);
    assert_eq!(parse_length_choice("4"), None);
    assert_eq!(parse_length_choice("12"), None);
    assert_eq!(parse_length_choice("one"), None);
}

#[test]
fn generated_codes_have_the_asked_length_and_only_digits() {
    for length in [0usize, 3, 5, 7] {
        let code = generate_code(length);
        assert_eq!(code.len(), length);
        assert!(code.iter().all(|&d| d < 10));
    }
}

#[test]
fn random_game_accepts_a_guess_of_its_length() {
    let mut game = Game::new_random(5);
    assert_eq!(game.secret.len(), 5);
    let outcome = game.submit_guess("00000");
    assert_ne!(outcome, GuessOutcome::Rejected);
    assert_eq!(game.attempts_used, 1);
}
