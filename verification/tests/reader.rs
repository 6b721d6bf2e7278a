use typed_protocols::card_api;
use typed_protocols::card_api::Card;
use typed_protocols::reader_api::{
    AuthResult, AuthenticatedState, CardPresent, CardPresentState, CheckCardResult, ErrorState,
    Reader, Start, StartState,
};

fn present_card(card: Card<card_api::Start>) -> Reader<CardPresent> {
    Reader { state: CardPresent { card } }
}

#[test]
fn detected_card_is_fresh() {
    let reader = Reader::<Start>::start();
    match reader.detect_card(true) {
        CheckCardResult::CardPresent(r) => {
            assert_eq!(r.state.card.valid_pin, [0, 0, 0, 0]);
            assert_eq!(r.state.card.attempts_left, 3);
        }
        CheckCardResult::Error(_) => panic!("a card was inserted"),
    }
}

#[test]
fn missing_card_is_reported() {
    let reader = Reader::<Start>::start();
    match reader.detect_card(false) {
        CheckCardResult::Error(e) => {
            assert_eq!(e.state.message, "card has not been inserted");
            e.end();
        }
        CheckCardResult::CardPresent(_) => panic!("no card was inserted"),
    }
}

#[test]
fn random_check_gives_a_fresh_card_or_the_missing_card_error() {
    for _ in 0..20 {
        match Reader::<Start>::start().check_for_card() {
            CheckCardResult::CardPresent(r) => {
                assert_eq!(r.state.card.valid_pin, [0, 0, 0, 0]);
                assert_eq!(r.state.card.attempts_left, 3);
            }
            CheckCardResult::Error(e) => {
                assert_eq!(e.state.message, "card has not been inserted")
            }
        }
    }
}

#[test]
fn right_pin_authenticates_the_reader() {
    let reader = present_card(<Card<card_api::Start> as card_api::StartState>::new());
    match reader.authenticate([0, 0, 0, 0]) {
        AuthResult::Authenticated(r) => {
            assert_eq!(r.state.card.attempts_left, 3);
            r.browse();
            r.end();
        }
        AuthResult::Error(_) => panic!("the right pin is accepted"),
    }
}

#[test]
fn wrong_pin_is_reported() {
    let reader = present_card(<Card<card_api::Start> as card_api::StartState>::new());
    match reader.authenticate([0, 0, 0, 7]) {
        AuthResult::Error(e) => assert_eq!(e.state.message, "wrong pin"),
        AuthResult::Authenticated(_) => panic!("a wrong pin is refused"),
    }
}

#[test]
fn blocked_card_is_reported() {
    let card = Card { valid_pin: [0, 0, 0, 0], attempts_left: 0, state: card_api::Start };
    match present_card(card).authenticate([0, 0, 0, 0]) {
        AuthResult::Error(e) => assert_eq!(e.state.message, "card is blocked"),
        AuthResult::Authenticated(_) => panic!("a blocked card is refused"),
    }
}
