use typed_protocols::auction::Auction;
use typed_protocols::auction_client_api::{
    AuctionEnded, AuctionRunning, AuctionRunningState, AuctionState, BidStatus, CheckWinner,
    CheckWinnerState, Client, EndState, HasBiddedState, NoBidsState, WinnerState,
    WinnerStatus, WithdrawState,
};

fn s(text: &str) -> String {
    text.to_string()
}

/// Runs the client's bid until a bid closes the auction, over fresh auctions.
fn reach_check_winner(rival_bid: Option<u64>, bid: u64) -> Client<CheckWinner> {
    for _ in 0..200 {
        let mut auction = Auction::new(s("owner"));
        if let Some(amount) = rival_bid {
            assert_eq!(auction.place_bid(s("rival"), amount, false), Some(()));
        }
        let client = Client::<AuctionRunning>::start(s("client"), auction);
        let client = match client.has_ended() {
            AuctionState::NoBids(c) => c,
            AuctionState::End(_) => panic!("the auction was open"),
        };
        let client = match client.bid(bid) {
            BidStatus::HasBidded(c) => c,
            BidStatus::Withdraw(_) => panic!("the bid was due to be taken"),
        };
        if let AuctionEnded::CheckWinner(c) = client.has_ended() {
            return c;
        }
    }
    panic!("no bid closed the auction")
}

#[test]
fn closed_auction_sends_client_to_end() {
    let mut auction = Auction::new(s("owner"));
    assert_eq!(auction.place_bid(s("rival"), 5, true), Some(()));
    let client = Client::<AuctionRunning>::start(s("client"), auction);
    match client.has_ended() {
        AuctionState::End(c) => c.end(),
        AuctionState::NoBids(_) => panic!("the auction was closed"),
    }
}

#[test]
fn owner_as_client_must_withdraw() {
    let auction = Auction::new(s("owner"));
    let client = Client::<AuctionRunning>::start(s("owner"), auction);
    let client = match client.has_ended() {
        AuctionState::NoBids(c) => c,
        AuctionState::End(_) => panic!("the auction was open"),
    };
    match client.bid(10) {
        BidStatus::Withdraw(c) => {
            let running = c.withdraw();
            match running.has_ended() {
                AuctionState::NoBids(_) => {}
                AuctionState::End(_) => panic!("a refused bid does not close the auction"),
            }
        }
        BidStatus::HasBidded(_) => panic!("the owner may not bid"),
    }
}

#[test]
fn leading_bid_is_kept_and_overtaken_bid_is_withdrawn() {
    let auction = Auction::new(s("owner"));
    let client = Client::<AuctionRunning>::start(s("client"), auction);
    let client = match client.has_ended() {
        AuctionState::NoBids(c) => c,
        AuctionState::End(_) => panic!("the auction was open"),
    };
    let client = match client.bid(10) {
        BidStatus::HasBidded(c) => c,
        BidStatus::Withdraw(_) => panic!("the bid was due to be taken"),
    };
    match client.check_bid() {
        BidStatus::HasBidded(_) => {}
        BidStatus::Withdraw(_) => panic!("the only bid leads"),
    }
}

#[test]
fn bid_not_above_the_highest_is_withdrawn_but_kept() {
    for rival in [10u64, 50u64] {
        let mut auction = Auction::new(s("owner"));
        assert_eq!(auction.place_bid(s("rival"), rival, false), Some(()));
        let client = Client::<AuctionRunning>::start(s("client"), auction);
        let client = match client.has_ended() {
            AuctionState::NoBids(c) => c,
            AuctionState::End(_) => panic!("the auction was open"),
        };
        match client.bid(10) {
            BidStatus::Withdraw(c) => {
                let running = c.withdraw();
                match running.has_ended() {
                    AuctionState::NoBids(_) | AuctionState::End(_) => {}
                }
            }
            BidStatus::HasBidded(_) => panic!("the bid does not beat the rival"),
        }
    }
}

#[test]
fn bid_above_the_rival_leads() {
    let mut auction = Auction::new(s("owner"));
    assert_eq!(auction.place_bid(s("rival"), 10, false), Some(()));
    let client = Client::<AuctionRunning>::start(s("client"), auction);
    let client = match client.has_ended() {
        AuctionState::NoBids(c) => c,
        AuctionState::End(_) => panic!("the auction was open"),
    };
    let client = match client.bid(11) {
        BidStatus::HasBidded(c) => c,
        BidStatus::Withdraw(_) => panic!("the bid beats the rival"),
    };
    match client.check_bid() {
        BidStatus::HasBidded(_) => {}
        BidStatus::Withdraw(_) => panic!("the bid leads"),
    }
}

#[test]
fn sole_bidder_wins() {
    let client = reach_check_winner(None, 10);
    match client.is_highest_bid() {
        WinnerStatus::Winner(c) => c.win().end(),
        WinnerStatus::Lost(_) => panic!("the only bid wins"),
    }
}

#[test]
fn client_that_beat_a_rival_wins() {
    let client = reach_check_winner(Some(10), 20);
    match client.is_highest_bid() {
        WinnerStatus::Winner(_) => {}
        WinnerStatus::Lost(_) => panic!("the client beat the rival"),
    }
}
