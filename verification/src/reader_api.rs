use vstd::prelude::*;

use crate::sealed::Sealed;
use vstd::string::StringExecFns;

use crate::card_api;
use crate::card_api::attempt;
use crate::card_api::AttemptOutcome;
use crate::card_api::Card;
use crate::coin::coin_flip;

verus! {

/// Marks the states of a reader.
pub trait ReaderState: Sealed {}

/// A card reader; `State` says where it stands and holds what it knows.
pub struct Reader<State: ReaderState> {
    pub state: State,
}

/// The reader waits for a card.
pub struct Start;

/// A card was inserted and waits for its PIN.
pub struct CardPresent {
    pub card: Card<card_api::Start>,
}

/// The inserted card accepted its PIN.
pub struct Authenticated {
    pub card: Card<card_api::Authenticated>,
}

/// The reader failed, for the reason in `message`.
pub struct Error {
    pub message: String,
}

impl Sealed for Start {}

impl Sealed for CardPresent {}

impl Sealed for Authenticated {}

impl Sealed for Error {}

impl ReaderState for Start {}

impl ReaderState for CardPresent {}

impl ReaderState for Authenticated {}

impl ReaderState for Error {}

/// Whether a card was found.
pub enum CheckCardResult {
    CardPresent(Reader<CardPresent>),
    Error(Reader<Error>),
}

/// Whether the card accepted the PIN.
pub enum AuthResult {
    Authenticated(Reader<Authenticated>),
    Error(Reader<Error>),
}

/// Transitions out of `Start`.
pub trait StartState: Sized {
    fn start() -> Self;

    /// Looks whether a card sits in the reader. No device is attached, so the
    /// answer is drawn at random.
    fn check_for_card(self) -> CheckCardResult;
}

/// Transitions out of `CardPresent`.
pub trait CardPresentState: Sized {
    fn authenticate(self, pin: [u8; 4]) -> AuthResult;
}

/// Transitions out of `Authenticated`.
pub trait AuthenticatedState: Sized {
    fn browse(&self);

    fn end(self);
}

/// Transitions out of `Error`.
pub trait ErrorState: Sized {
    fn end(self);
}

impl Reader<Start> {
    /// The reader's answer where `card_inserted` says whether a card is in it:
    /// a fresh card waiting for its PIN, or the error "card has not been
    /// inserted".
    pub fn detect_card(self, card_inserted: bool) -> (r: CheckCardResult)
        ensures
            match r {
                CheckCardResult::CardPresent(p) => {
                    &&& card_inserted
                    &&& p.state.card.valid_pin@ == seq![0u8, 0u8, 0u8, 0u8]
                    &&& p.state.card.attempts_left == 3
                },
                CheckCardResult::Error(e) => {
                    &&& !card_inserted
                    &&& e.state.message@ == "card has not been inserted"@
                },
            },
    {
        if card_inserted {
            let card = <Card<card_api::Start> as card_api::StartState>::new();
            CheckCardResult::CardPresent(Reader { state: CardPresent { card } })
        } else {
            CheckCardResult::Error(
                Reader { state: Error { message: String::from_str("card has not been inserted") } },
            )
        }
    }
}

impl StartState for Reader<Start> {
    /// A reader waiting for a card.
    fn start() -> (r: Self) {
        Reader { state: Start }
    }

    /// Looks for a card; whether one is there is drawn at random, with even
    /// odds. The answer for either draw is that of `detect_card`.
    fn check_for_card(self) -> (r: CheckCardResult)
        ensures
            match r {
                CheckCardResult::CardPresent(p) => {
                    &&& p.state.card.valid_pin@ == seq![0u8, 0u8, 0u8, 0u8]
                    &&& p.state.card.attempts_left == 3
                },
                CheckCardResult::Error(e) => e.state.message@ == "card has not been inserted"@,
            },
    {
        let card_inserted = coin_flip();
        self.detect_card(card_inserted)
    }
}

impl CardPresentState for Reader<CardPresent> {
    /// Presents `pin` to the inserted card. The reader keeps the card where it
    /// accepts the PIN, and otherwise fails with "card is blocked" or "wrong
    /// pin", as the card answered.
    fn authenticate(self, pin: [u8; 4]) -> (r: AuthResult)
        ensures
            self.state.card.attempts_left > 0 && pin@ == self.state.card.valid_pin@ ==> (
            r matches AuthResult::Authenticated(a) && a.state.card.attempts_left
                == self.state.card.attempts_left),
            self.state.card.attempts_left > 0 && pin@ != self.state.card.valid_pin@ ==> (
            r matches AuthResult::Error(e) && e.state.message@ == "wrong pin"@),
            self.state.card.attempts_left == 0 ==> (r matches AuthResult::Error(e)
                && e.state.message@ == "card is blocked"@),
            ({
                let card = self.state.card;
                let (outcome, left) = attempt(card.attempts_left, card.valid_pin@, pin@);
                match r {
                    AuthResult::Authenticated(a) => {
                        &&& outcome == AttemptOutcome::Accepted
                        &&& a.state.card.valid_pin == card.valid_pin
                        &&& a.state.card.attempts_left == left
                    },
                    AuthResult::Error(e) => {
                        ||| (outcome == AttemptOutcome::Blocked && e.state.message@
                            == "card is blocked"@)
                        ||| (outcome == AttemptOutcome::Refused && e.state.message@ == "wrong pin"@)
                    },
                }
            }),
    {
        let card = self.state.card;
        match card_api::StartState::perform_authentication(card, pin) {
            card_api::AuthResult::Authenticated(authenticated) => {
                AuthResult::Authenticated(Reader { state: Authenticated { card: authenticated } })
            },
            card_api::AuthResult::Blocked(_blocked) => {
                AuthResult::Error(
                    Reader { state: Error { message: String::from_str("card is blocked") } },
                )
            },
            card_api::AuthResult::Error(_error) => {
                AuthResult::Error(Reader { state: Error { message: String::from_str("wrong pin") } })
            },
        }
    }
}

impl AuthenticatedState for Reader<Authenticated> {
    /// Browsing leaves the reader as it is.
    fn browse(&self) {
    }

    /// Drops the reader and its card.
    fn end(self) {
    }
}

impl ErrorState for Reader<Error> {
    /// Drops the reader.
    fn end(self) {
    }
}

} // verus!
