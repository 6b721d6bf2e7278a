use vstd::prelude::*;

use crate::sealed::Sealed;

verus! {

/// Marks the states of a card.
pub trait CardState: Sealed {}

/// A PIN card: its PIN and the number of attempts it still grants.
pub struct Card<State: CardState> {
    pub valid_pin: [u8; 4],
    pub attempts_left: u8,
    pub state: State,
}

/// The card waits for a PIN.
pub struct Start;

/// The card accepted its PIN.
pub struct Authenticated;

/// The card refused a PIN.
pub struct Error;

/// The card has no attempts left.
pub struct Blocked;

impl Sealed for Start {}

impl Sealed for Authenticated {}

impl Sealed for Error {}

impl Sealed for Blocked {}

impl CardState for Start {}

impl CardState for Authenticated {}

impl CardState for Error {}

impl CardState for Blocked {}

/// What a card answers to a PIN.
pub enum AuthResult {
    Authenticated(Card<Authenticated>),
    Blocked(Card<Blocked>),
    Error(Card<Error>),
}

/// The kinds of answer a card gives to a PIN.
pub enum AttemptOutcome {
    Accepted,
    Refused,
    Blocked,
}

/// The answer of a card with `attempts_left` attempts and PIN `valid` to the
/// PIN `pin`, with the attempts it has left afterwards: a card with attempts
/// left accepts its own PIN and refuses any other at the cost of one attempt;
/// a card with none left is blocked, whatever the PIN.
pub open spec fn attempt(attempts_left: u8, valid: Seq<u8>, pin: Seq<u8>) -> (AttemptOutcome, u8) {
    if attempts_left > 0 {
        if valid == pin {
            (AttemptOutcome::Accepted, attempts_left)
        } else {
            (AttemptOutcome::Refused, (attempts_left - 1) as u8)
        }
    } else {
        (AttemptOutcome::Blocked, attempts_left)
    }
}

/// How a session with a card stands after PINs were presented in turn, the
/// card being retried after each refusal.
pub enum Session {
    /// Every PIN so far was refused; the card has this many attempts left.
    Open(u8),
    /// The card accepted the PIN presented as number `n` (counting from 1).
    Authenticated(nat),
    /// The card was blocked when PIN number `n` was presented.
    Blocked(nat),
}

/// A session as it stands counted from one PIN earlier.
pub open spec fn one_pin_later(s: Session) -> Session {
    match s {
        Session::Open(a) => Session::Open(a),
        Session::Authenticated(n) => Session::Authenticated(n + 1),
        Session::Blocked(n) => Session::Blocked(n + 1),
    }
}

/// The session of presenting `pins` in turn to a card with `attempts_left`
/// attempts and PIN `valid`; the session stops at the first answer that is
/// not a refusal.
pub open spec fn session(attempts_left: u8, valid: Seq<u8>, pins: Seq<Seq<u8>>) -> Session
    decreases pins.len(),
{
    if pins.len() == 0 {
        Session::Open(attempts_left)
    } else {
        let (outcome, left) = attempt(attempts_left, valid, pins[0]);
        match outcome {
            AttemptOutcome::Accepted => Session::Authenticated(1),
            AttemptOutcome::Blocked => Session::Blocked(1),
            AttemptOutcome::Refused => one_pin_later(session(left, valid, pins.drop_first())),
        }
    }
}

/// A card refuses at most as many wrong PINs as it has attempts: presented
/// that many wrong PINs in turn, it is blocked at the next one, whatever
/// that PIN is, its own included.
pub proof fn lemma_wrong_pins_block_the_card(attempts_left: u8, valid: Seq<u8>, pins: Seq<Seq<u8>>)
    requires
        pins.len() > attempts_left,
        forall|i: int| 0 <= i < attempts_left ==> pins[i] != valid,
    ensures
        session(attempts_left, valid, pins) == Session::Blocked(attempts_left as nat + 1),
    decreases attempts_left,
{
    if attempts_left > 0 {
        let rest = pins.drop_first();
        assert forall|i: int| 0 <= i < (attempts_left - 1) as u8 implies rest[i] != valid by {
            assert(rest[i] == pins[i + 1]);
        }
        lemma_wrong_pins_block_the_card((attempts_left - 1) as u8, valid, rest);
    }
}

/// A card with attempts left accepts its own PIN and keeps its attempts;
/// it refuses any other PIN at the cost of exactly one attempt; a card with
/// no attempts left is blocked whatever the PIN.
pub proof fn lemma_attempt_answers(attempts_left: u8, valid: Seq<u8>, pin: Seq<u8>)
    ensures
        attempts_left > 0 && pin == valid ==> attempt(attempts_left, valid, pin) == (
        AttemptOutcome::Accepted, attempts_left),
        attempts_left > 0 && pin != valid ==> attempt(attempts_left, valid, pin) == (
        AttemptOutcome::Refused, (attempts_left - 1) as u8),
        attempts_left == 0 ==> attempt(attempts_left, valid, pin).0 == AttemptOutcome::Blocked,
{
}

/// A session opens at the first right PIN where fewer wrong PINs than the
/// card's attempts came before it.
pub proof fn lemma_right_pin_opens_the_session(
    attempts_left: u8,
    valid: Seq<u8>,
    pins: Seq<Seq<u8>>,
    n: nat,
)
    requires
        1 <= n <= attempts_left,
        n <= pins.len(),
        pins[n - 1] == valid,
        forall|i: int| 0 <= i < n - 1 ==> pins[i] != valid,
    ensures
        session(attempts_left, valid, pins) == Session::Authenticated(n),
    decreases n,
{
    if n > 1 {
        let rest = pins.drop_first();
        assert(pins[0] != valid);
        assert forall|i: int| 0 <= i < n - 2 implies rest[i] != valid by {
            assert(rest[i] == pins[i + 1]);
        }
        assert(rest[n - 2] == pins[n - 1]);
        lemma_right_pin_opens_the_session((attempts_left - 1) as u8, valid, rest, (n - 1) as nat);
    }
}

/// A card lets a session in only with its own PIN, only while it has
/// attempts left, and only after fewer wrong PINs than it had attempts.
pub proof fn lemma_session_opens_only_with_the_pin(
    attempts_left: u8,
    valid: Seq<u8>,
    pins: Seq<Seq<u8>>,
    n: nat,
)
    requires
        session(attempts_left, valid, pins) == Session::Authenticated(n),
    ensures
        1 <= n <= attempts_left,
        n <= pins.len(),
        pins[n - 1] == valid,
        forall|i: int| 0 <= i < n - 1 ==> pins[i] != valid,
    decreases pins.len(),
{
    let (outcome, left) = attempt(attempts_left, valid, pins[0]);
    if outcome == AttemptOutcome::Refused {
        let rest = pins.drop_first();
        lemma_session_opens_only_with_the_pin(left, valid, rest, (n - 1) as nat);
        assert forall|i: int| 0 <= i < n - 1 implies pins[i] != valid by {
            if i > 0 {
                assert(pins[i] == rest[i - 1]);
            }
        }
    }
}

/// A session is the run of calls on a card: one call of
/// `perform_authentication` with `pin` answers as `attempt` says, and after a
/// refusal `retry` gives back a card with the attempts `attempt` leaves and
/// the same PIN, whose session on the PINs that follow carries the session on.
pub proof fn lemma_session_is_one_call_then_the_rest(
    attempts_left: u8,
    valid: Seq<u8>,
    pin: Seq<u8>,
    rest: Seq<Seq<u8>>,
)
    ensures
        session(attempts_left, valid, seq![pin] + rest) == match attempt(
            attempts_left,
            valid,
            pin,
        ).0 {
            AttemptOutcome::Accepted => Session::Authenticated(1),
            AttemptOutcome::Blocked => Session::Blocked(1),
            AttemptOutcome::Refused => one_pin_later(
                session(attempt(attempts_left, valid, pin).1, valid, rest),
            ),
        },
{
    let pins = seq![pin] + rest;
    assert(pins[0] == pin);
    assert(pins.drop_first() =~= rest);
}

/// Transitions out of `Start`.
pub trait StartState: Sized {
    fn new() -> Self;

    fn perform_authentication(self, pin: [u8; 4]) -> AuthResult;

    fn disconnect(self);
}

/// Transitions out of `Authenticated`.
pub trait AuthenticatedState: Sized {
    fn browse(&self);

    fn disconnect(self);
}

/// Transitions out of `Error`.
pub trait ErrorState: Sized {
    fn retry(self) -> Card<Start>;

    fn disconnect(self);
}

/// Transitions out of `Blocked`.
pub trait BlockedState: Sized {
    fn disconnect(self);
}

impl StartState for Card<Start> {
    /// A fresh card: PIN 0000, three attempts.
    fn new() -> (c: Self)
        ensures
            c.valid_pin@ == seq![0u8, 0u8, 0u8, 0u8],
            c.attempts_left == 3,
    {
        let c = Card { valid_pin: [0, 0, 0, 0], attempts_left: 3, state: Start };
        assert(c.valid_pin@ =~= seq![0u8, 0u8, 0u8, 0u8]);
        c
    }

    /// Presents `pin` to the card; the card answers as `attempt` says, and
    /// keeps its PIN.
    fn perform_authentication(self, pin: [u8; 4]) -> (r: AuthResult)
        ensures
            self.attempts_left > 0 && pin@ == self.valid_pin@ ==> (r matches AuthResult::Authenticated(
                c,
            ) && c.attempts_left == self.attempts_left),
            self.attempts_left > 0 && pin@ != self.valid_pin@ ==> (r matches AuthResult::Error(c)
                && c.attempts_left == self.attempts_left - 1),
            self.attempts_left == 0 ==> (r matches AuthResult::Blocked(c) && c.attempts_left == 0),
            match r {
                AuthResult::Authenticated(c) => {
                    &&& attempt(self.attempts_left, self.valid_pin@, pin@) == (
                    AttemptOutcome::Accepted, c.attempts_left)
                    &&& c.valid_pin == self.valid_pin
                },
                AuthResult::Error(c) => {
                    &&& attempt(self.attempts_left, self.valid_pin@, pin@) == (
                    AttemptOutcome::Refused, c.attempts_left)
                    &&& c.valid_pin == self.valid_pin
                },
                AuthResult::Blocked(c) => {
                    &&& attempt(self.attempts_left, self.valid_pin@, pin@) == (
                    AttemptOutcome::Blocked, c.attempts_left)
                    &&& c.valid_pin == self.valid_pin
                },
            },
    {
        if self.attempts_left > 0 {
            let matches = self.valid_pin[0] == pin[0] && self.valid_pin[1] == pin[1]
                && self.valid_pin[2] == pin[2] && self.valid_pin[3] == pin[3];
            proof {
                if matches {
                    assert(self.valid_pin@ =~= pin@);
                } else {
                    assert(self.valid_pin@ != pin@) by {
                        if self.valid_pin@ == pin@ {
                            assert(self.valid_pin@[0] == pin@[0]);
                            assert(self.valid_pin@[1] == pin@[1]);
                            assert(self.valid_pin@[2] == pin@[2]);
                            assert(self.valid_pin@[3] == pin@[3]);
                        }
                    }
                }
            }
            if matches {
                AuthResult::Authenticated(
                    Card {
                        attempts_left: self.attempts_left,
                        valid_pin: self.valid_pin,
                        state: Authenticated,
                    },
                )
            } else {
                AuthResult::Error(
                    Card {
                        attempts_left: self.attempts_left - 1,
                        valid_pin: self.valid_pin,
                        state: Error,
                    },
                )
            }
        } else {
            AuthResult::Blocked(
                Card { attempts_left: self.attempts_left, valid_pin: self.valid_pin, state: Blocked },
            )
        }
    }

    /// Drops the card.
    fn disconnect(self) {
    }
}

impl AuthenticatedState for Card<Authenticated> {
    /// Browsing leaves the card as it is.
    fn browse(&self) {
    }

    /// Drops the card.
    fn disconnect(self) {
    }
}

impl ErrorState for Card<Error> {
    /// Waits for another PIN, with the attempts and PIN unchanged.
    fn retry(self) -> (c: Card<Start>)
        ensures
            c.valid_pin == self.valid_pin,
            c.attempts_left == self.attempts_left,
    {
        Card { attempts_left: self.attempts_left, valid_pin: self.valid_pin, state: Start }
    }

    /// Drops the card.
    fn disconnect(self) {
    }
}

impl BlockedState for Card<Blocked> {
    /// Drops the card.
    fn disconnect(self) {
    }
}

} // verus!
