use vstd::prelude::*;

use crate::sealed::Sealed;

use crate::auction::after_bid;
use crate::auction::auction_inv;
use crate::auction::bid_is_taken;
use crate::auction::holds_highest_bid;
use crate::auction::Auction;
use crate::auction::AuctionView;

verus! {

/// The states of a bidding client, each with what it tells of the client's
/// name and auction.
pub trait ClientState: Sealed {
    /// What a client in this state knows of its name and its auction.
    spec fn admits(name: Seq<char>, auction: AuctionView) -> bool;
}

/// A client taking part in an auction; `State` says where it stands in the
/// bidding protocol.
pub struct Client<State: ClientState> {
    pub(crate) name: String,
    pub(crate) auction: Auction,
    pub(crate) state: State,
}

impl<State: ClientState> Client<State> {
    /// A client always stands where its state says.
    #[verifier::type_invariant]
    spec fn admitted(&self) -> bool {
        State::admits(self.name@, self.auction@)
    }
}

/// What a client is, as the contracts speak of it: its name and the auction.
pub struct ClientView {
    pub name: Seq<char>,
    pub auction: AuctionView,
}

impl<State: ClientState> View for Client<State> {
    type V = ClientView;

    closed spec fn view(&self) -> ClientView {
        ClientView { name: self.name@, auction: self.auction@ }
    }
}

/// The client watches a running auction.
pub struct AuctionRunning;

/// The client has not bid yet in an open auction.
pub struct NoBids;

/// The client holds a bid.
pub struct HasBidded;

/// Bidding closed while the client held a bid.
pub struct CheckWinner;

/// The client's bid was refused or overtaken.
pub struct Withdraw;

/// The client did not win.
pub struct Lost;

/// The client won.
pub struct Winner;

/// The client is done with the auction.
pub struct End;

impl Sealed for AuctionRunning {}

impl Sealed for NoBids {}

impl Sealed for HasBidded {}

impl Sealed for CheckWinner {}

impl Sealed for Withdraw {}

impl Sealed for Lost {}

impl Sealed for Winner {}

impl Sealed for End {}

impl ClientState for AuctionRunning {
    open spec fn admits(name: Seq<char>, auction: AuctionView) -> bool {
        true
    }
}

impl ClientState for NoBids {
    /// Bidding was open when the client looked.
    open spec fn admits(name: Seq<char>, auction: AuctionView) -> bool {
        auction_inv(auction) && !auction.ended
    }
}

impl ClientState for HasBidded {
    /// The client is not the owner and holds the highest bid.
    open spec fn admits(name: Seq<char>, auction: AuctionView) -> bool {
        auction_inv(auction) && name != auction.owner && holds_highest_bid(auction, name)
    }
}

impl ClientState for CheckWinner {
    /// Bidding is closed; the client is not the owner and holds the highest bid.
    open spec fn admits(name: Seq<char>, auction: AuctionView) -> bool {
        auction_inv(auction) && auction.ended && name != auction.owner && holds_highest_bid(
            auction,
            name,
        )
    }
}

impl ClientState for Withdraw {
    open spec fn admits(name: Seq<char>, auction: AuctionView) -> bool {
        auction_inv(auction)
    }
}

impl ClientState for Lost {
    /// Bidding is closed, and the client does not hold the highest bid.
    open spec fn admits(name: Seq<char>, auction: AuctionView) -> bool {
        auction_inv(auction) && auction.ended && !holds_highest_bid(auction, name)
    }
}

impl ClientState for Winner {
    /// Bidding is closed; the client is not the owner and holds the highest bid.
    open spec fn admits(name: Seq<char>, auction: AuctionView) -> bool {
        auction_inv(auction) && auction.ended && name != auction.owner && holds_highest_bid(
            auction,
            name,
        )
    }
}

impl ClientState for End {
    open spec fn admits(name: Seq<char>, auction: AuctionView) -> bool {
        true
    }
}

/// Whether the auction was still open.
pub enum AuctionState {
    NoBids(Client<NoBids>),
    /// Bidding closed.
    End(Client<End>),
}

/// Whether the client's bid beats the previous highest bid.
pub enum BidStatus {
    /// The bid was taken and is above the previous highest bid (bid > previous).
    HasBidded(Client<HasBidded>),
    /// The bid was refused, or is not above the previous highest bid
    /// (bid <= previous).
    Withdraw(Client<Withdraw>),
}

/// Whether bidding closed while the client held a bid.
pub enum AuctionEnded {
    HasBidded(Client<HasBidded>),
    CheckWinner(Client<CheckWinner>),
}

/// Whether the client won.
pub enum WinnerStatus {
    Lost(Client<Lost>),
    Winner(Client<Winner>),
}

/// Transitions out of `AuctionRunning`.
pub trait AuctionRunningState: Sized {
    fn start(name: String, auction: Auction) -> Self;

    fn has_ended(self) -> AuctionState;
}

/// Transitions out of `NoBids`.
pub trait NoBidsState: Sized {
    fn bid(self, bid: u64) -> BidStatus;
}

/// Transitions out of `HasBidded`.
pub trait HasBiddedState: Sized {
    fn check_bid(self) -> BidStatus;

    fn has_ended(self) -> AuctionEnded;
}

/// Transitions out of `CheckWinner`.
pub trait CheckWinnerState: Sized {
    fn is_highest_bid(self) -> WinnerStatus;
}

/// Transitions out of `Withdraw`.
pub trait WithdrawState: Sized {
    fn withdraw(self) -> Client<AuctionRunning>;
}

/// Transitions out of `Lost`.
pub trait LostState: Sized {
    fn withdraw(self) -> Client<End>;
}

/// Transitions out of `Winner`.
pub trait WinnerState: Sized {
    fn win(self) -> Client<End>;
}

/// Transitions out of `End`.
pub trait EndState: Sized {
    fn end(self);
}

impl AuctionRunningState for Client<AuctionRunning> {
    /// A client named `name` joins `auction`.
    fn start(name: String, auction: Auction) -> (c: Self)
        ensures
            c@ == (ClientView { name: name@, auction: auction@ }),
    {
        Client { name, auction, state: AuctionRunning }
    }

    /// Looks whether bidding closed; the client and the auction are handed on.
    fn has_ended(self) -> (r: AuctionState)
        ensures
            auction_inv(self@.auction),
            match r {
                AuctionState::NoBids(c) => !self@.auction.ended && c@ == self@,
                AuctionState::End(c) => self@.auction.ended && c@ == self@,
            },
    {
        if self.auction.has_ended() {
            AuctionState::End(Client { name: self.name, auction: self.auction, state: End })
        } else {
            AuctionState::NoBids(Client { name: self.name, auction: self.auction, state: NoBids })
        }
    }
}

impl NoBidsState for Client<NoBids> {
    /// Bids `bid` in the client's name. The client holds a leading bid
    /// exactly where the auction takes the bid and it is above the previous
    /// highest bid; a taken bid stays in the auction either way. Whether
    /// bidding closes with a taken bid is drawn at random.
    fn bid(self, bid: u64) -> (r: BidStatus)
        ensures
            self@.name != self@.auction.owner && !self@.auction.ended
                && self@.auction.highest_bid < bid ==> r is HasBidded,
            self@.name == self@.auction.owner || self@.auction.ended || bid
                <= self@.auction.highest_bid ==> r is Withdraw,
            self@.name != self@.auction.owner && !self@.auction.ended ==> (match r {
                BidStatus::HasBidded(c) => c@.auction.bids[self@.name] == bid,
                BidStatus::Withdraw(c) => c@.auction.bids[self@.name] == bid,
            }),
            match r {
                BidStatus::HasBidded(c) => {
                    &&& bid_is_taken(self@.auction, self@.name)
                    &&& self@.auction.highest_bid < bid
                    &&& auction_inv(c@.auction)
                    &&& c@.name == self@.name
                    &&& c@.auction == after_bid(self@.auction, self@.name, bid, c@.auction.ended)
                },
                BidStatus::Withdraw(c) => {
                    &&& !(bid_is_taken(self@.auction, self@.name) && self@.auction.highest_bid < bid)
                    &&& auction_inv(c@.auction)
                    &&& c@.name == self@.name
                    &&& if bid_is_taken(self@.auction, self@.name) {
                        c@.auction == after_bid(self@.auction, self@.name, bid, c@.auction.ended)
                    } else {
                        c@.auction == self@.auction
                    }
                },
            },
    {
        let Client { name, mut auction, state: _ } = self;
        let previous = auction.highest_bid();
        match auction.bid(name.clone(), bid) {
            Some(()) => {
                if previous < bid {
                    BidStatus::HasBidded(Client { name, auction, state: HasBidded })
                } else {
                    BidStatus::Withdraw(Client { name, auction, state: Withdraw })
                }
            },
            None => BidStatus::Withdraw(Client { name, auction, state: Withdraw }),
        }
    }
}

impl HasBiddedState for Client<HasBidded> {
    /// The client keeps its bid while it leads, and withdraws otherwise. A
    /// client that has bid is not the owner and leads, so it keeps its bid.
    fn check_bid(self) -> (r: BidStatus)
        ensures
            auction_inv(self@.auction),
            self@.name != self@.auction.owner,
            holds_highest_bid(self@.auction, self@.name),
            r is HasBidded,
            match r {
                BidStatus::HasBidded(c) => holds_highest_bid(self@.auction, self@.name) && c@ == self@,
                BidStatus::Withdraw(c) => !holds_highest_bid(self@.auction, self@.name) && c@ == self@,
            },
    {
        proof {
            use_type_invariant(&self);
        }
        if self.auction.is_highest_bid(&self.name) {
            BidStatus::HasBidded(self)
        } else {
            BidStatus::Withdraw(Client { name: self.name, auction: self.auction, state: Withdraw })
        }
    }

    /// Looks whether bidding closed; the client and the auction are handed on.
    fn has_ended(self) -> (r: AuctionEnded)
        ensures
            auction_inv(self@.auction),
            match r {
                AuctionEnded::HasBidded(c) => !self@.auction.ended && c@ == self@,
                AuctionEnded::CheckWinner(c) => self@.auction.ended && c@ == self@,
            },
    {
        proof {
            use_type_invariant(&self);
        }
        if self.auction.has_ended() {
            AuctionEnded::CheckWinner(Client { name: self.name, auction: self.auction, state: CheckWinner })
        } else {
            AuctionEnded::HasBidded(self)
        }
    }
}

impl CheckWinnerState for Client<CheckWinner> {
    /// The client wins exactly when it holds the highest bid. A client that
    /// gets here has a closed auction, is not its owner and holds the highest
    /// bid, which no other bid exceeds; so it wins.
    fn is_highest_bid(self) -> (r: WinnerStatus)
        ensures
            auction_inv(self@.auction),
            forall|c: Seq<char>| #[trigger]
                self@.auction.bids.contains_key(c) ==> self@.auction.bids[c]
                    <= self@.auction.bids[self@.name],
            self@.auction.ended,
            self@.name != self@.auction.owner,
            holds_highest_bid(self@.auction, self@.name),
            r is Winner,
            match r {
                WinnerStatus::Winner(c) => holds_highest_bid(self@.auction, self@.name) && c@ == self@,
                WinnerStatus::Lost(c) => !holds_highest_bid(self@.auction, self@.name) && c@ == self@,
            },
    {
        proof {
            use_type_invariant(&self);
        }
        if self.auction.is_highest_bid(&self.name) {
            WinnerStatus::Winner(Client { name: self.name, auction: self.auction, state: Winner })
        } else {
            WinnerStatus::Lost(Client { name: self.name, auction: self.auction, state: Lost })
        }
    }
}

impl WithdrawState for Client<Withdraw> {
    /// Goes back to watching the auction.
    fn withdraw(self) -> (c: Client<AuctionRunning>)
        ensures
            c@ == self@,
    {
        Client { name: self.name, auction: self.auction, state: AuctionRunning }
    }
}

impl LostState for Client<Lost> {
    /// Leaves the auction.
    fn withdraw(self) -> (c: Client<End>)
        ensures
            c@ == self@,
    {
        Client { name: self.name, auction: self.auction, state: End }
    }
}

impl WinnerState for Client<Winner> {
    /// Takes the win and leaves the auction.
    fn win(self) -> (c: Client<End>)
        ensures
            c@ == self@,
    {
        Client { name: self.name, auction: self.auction, state: End }
    }
}

impl EndState for Client<End> {
    /// Drops the client.
    fn end(self) {
    }
}

} // verus!
