use mastermind::eval::evaluate_guess;

#[test]
fn misplaced_and_exact_mix() {
    let secret: Vec<u8> = vec![4, 2, 3, 5, 1];
    let guess: Vec<u8> = vec![1, 2, 4, 5, 3];
    let (exact, partial) = evaluate_guess(&secret, &guess);
    assert_eq!(exact, 2);
    assert_eq!(partial, 3);
    assert_ne!(exact, secret.len());
}

#[test]
fn all_exact_is_a_win() {
    let secret: Vec<u8> = vec![0, 0, 0];
    let guess: Vec<u8> = vec![0, 0, 0];
    let (exact, partial) = evaluate_guess(&secret, &guess);
    assert_eq!(exact, 3);
    assert_eq!(partial, 0);
}

#[test]
fn duplicate_digits_never_overcounted() {
    let secret: Vec<u8> = vec![1, 1, 2];
    let guess: Vec<u8> = vec![1, 2, 2];
    let (exact, partial) = evaluate_guess(&secret, &guess);
    // Positions 0 and 2 match exactly; the guess's middle 2 finds no secret
    // occurrence left over, so the total is 2, never 3.
    assert_eq!(exact, 2);
    assert_eq!(partial, 0);
    assert_eq!(exact + partial, 2);
}

#[test]
fn guess_duplicates_consume_one_secret_occurrence_each() {
    let secret: Vec<u8> = vec![1, 2, 3];
    let guess: Vec<u8> = vec![2, 2, 2];
    let (exact, partial) = evaluate_guess(&secret, &guess);
    // Only the middle 2 matches exactly; the other two 2s find no further
    // occurrence in the secret.
    assert_eq!(exact, 1);
    assert_eq!(partial, 0);
}

#[test]
fn permutation_matches_completely() {
    let secret: Vec<u8> = vec![1, 2, 3];
    let guess: Vec<u8> = vec![3, 1, 2];
    let (exact, partial) = evaluate_guess(&secret, &guess);
    assert_eq!(exact, 0);
    assert_eq!(partial, 3);
    assert_eq!(exact + partial, secret.len());
}

#[test]
fn permutation_with_duplicates_matches_completely() {
    let secret: Vec<u8> = vec![7, 7, 1, 7];
    let guess: Vec<u8> = vec![7, 1, 7, 7];
    let (exact, partial) = evaluate_guess(&secret, &guess);
    assert_eq!(exact, 2);
    assert_eq!(partial, 2);
    assert_eq!(exact + partial, secret.len());
}

#[test]
fn disjoint_digits_match_nothing() {
    let secret: Vec<u8> = vec![1, 2, 3];
    let guess: Vec<u8> = vec![4, 5, 6];
    let (exact, partial) = evaluate_guess(&secret, &guess);
    assert_eq!(exact, 0);
    assert_eq!(partial, 0);
}

#[test]
fn totals_stay_within_length() {
    let secret: Vec<u8> = vec![9, 9, 9, 9, 9, 9, 9];
    let guess: Vec<u8> = vec![9, 9, 9, 9, 9, 9, 9];
    let (exact, partial) = evaluate_guess(&secret, &guess);
    assert!(exact + partial <= secret.len());
    assert_eq!(exact, 7);
    assert_eq!(partial, 0);
}

#[test]
fn empty_sequences_evaluate_to_zero() {
    let secret: Vec<u8> = vec![];
    let guess: Vec<u8> = vec![];
    let (exact, partial) = evaluate_guess(&secret, &guess);
    assert_eq!(exact, 0);
    assert_eq!(partial, 0);
}
