use typed_protocols::card_api::{
    AuthResult, AuthenticatedState, BlockedState, Card, ErrorState, Start, StartState,
};

fn wrong_attempt(card: Card<Start>) -> Card<Start> {
    match card.perform_authentication([1, 2, 3, 4]) {
        AuthResult::Error(e) => e.retry(),
        _ => panic!("a wrong pin is refused"),
    }
}

#[test]
fn new_card_has_pin_0000_and_three_attempts() {
    let card = Card::<Start>::new();
    assert_eq!(card.valid_pin, [0, 0, 0, 0]);
    assert_eq!(card.attempts_left, 3);
}

#[test]
fn right_pin_authenticates() {
    let card = Card::<Start>::new();
    match card.perform_authentication([0, 0, 0, 0]) {
        AuthResult::Authenticated(c) => {
            assert_eq!(c.attempts_left, 3);
            assert_eq!(c.valid_pin, [0, 0, 0, 0]);
            c.browse();
            c.disconnect();
        }
        _ => panic!("the right pin is accepted"),
    }
}

#[test]
fn wrong_pin_costs_one_attempt() {
    let card = Card::<Start>::new();
    match card.perform_authentication([0, 0, 0, 1]) {
        AuthResult::Error(e) => {
            assert_eq!(e.attempts_left, 2);
            let again = e.retry();
            assert_eq!(again.attempts_left, 2);
            assert_eq!(again.valid_pin, [0, 0, 0, 0]);
            again.disconnect();
        }
        _ => panic!("a wrong pin is refused"),
    }
}

#[test]
fn right_pin_after_two_wrong_ones_authenticates() {
    let card = wrong_attempt(wrong_attempt(Card::<Start>::new()));
    match card.perform_authentication([0, 0, 0, 0]) {
        AuthResult::Authenticated(c) => assert_eq!(c.attempts_left, 1),
        _ => panic!("one attempt was left"),
    }
}

#[test]
fn three_wrong_pins_block_the_card_even_for_the_right_pin() {
    let card = wrong_attempt(wrong_attempt(wrong_attempt(Card::<Start>::new())));
    assert_eq!(card.attempts_left, 0);
    match card.perform_authentication([0, 0, 0, 0]) {
        AuthResult::Blocked(c) => {
            assert_eq!(c.attempts_left, 0);
            c.disconnect();
        }
        _ => panic!("no attempt was left"),
    }
}

#[test]
fn card_without_attempts_is_blocked() {
    let card = Card { valid_pin: [9, 9, 9, 9], attempts_left: 0, state: Start };
    match card.perform_authentication([1, 2, 3, 4]) {
        AuthResult::Blocked(c) => assert_eq!(c.valid_pin, [9, 9, 9, 9]),
        _ => panic!("no attempt was left"),
    }
}
