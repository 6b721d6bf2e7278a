use vstd::hash_map::StringHashMap;
use vstd::prelude::*;

use crate::coin::coin_flip;

verus! {

/// What an auction is, as the contracts speak of it.
pub struct AuctionView {
    /// Name of the owner, who may not bid.
    pub owner: Seq<char>,
    /// The last bid of each client that has bid.
    pub bids: Map<Seq<char>, u64>,
    /// The highest amount ever bid (0 before any bid).
    pub highest_bid: u64,
    /// Whether bidding is closed.
    pub ended: bool,
}

/// An auction run by its owner, taking bids from clients until it ends.
pub struct Auction {
    owner: String,
    bids: StringHashMap<u64>,
    highest_bid: u64,
    ended: bool,
}

impl View for Auction {
    type V = AuctionView;

    closed spec fn view(&self) -> AuctionView {
        AuctionView {
            owner: self.owner@,
            bids: self.bids@,
            highest_bid: self.highest_bid,
            ended: self.ended,
        }
    }
}

/// The auction takes a bid of `client` exactly when the client is not the
/// owner and bidding is still open.
pub open spec fn bid_is_taken(a: AuctionView, client: Seq<char>) -> bool {
    client != a.owner && !a.ended
}

/// The auction after it took `amount` from `client`, where `ends` says whether
/// bidding closed with this bid.
pub open spec fn after_bid(a: AuctionView, client: Seq<char>, amount: u64, ends: bool) -> AuctionView {
    AuctionView {
        owner: a.owner,
        bids: a.bids.insert(client, amount),
        highest_bid: if a.highest_bid < amount { amount } else { a.highest_bid },
        ended: ends,
    }
}

/// `client` holds a bid and that bid is the highest one.
pub open spec fn holds_highest_bid(a: AuctionView, client: Seq<char>) -> bool {
    a.bids.contains_key(client) && a.bids[client] == a.highest_bid
}

/// The invariant of an auction: the owner never holds a bid, and no bid
/// exceeds the highest bid.
pub open spec fn auction_inv(a: AuctionView) -> bool {
    &&& !a.bids.contains_key(a.owner)
    &&& forall|c: Seq<char>| #[trigger] a.bids.contains_key(c) ==> a.bids[c] <= a.highest_bid
}

/// An open auction takes the bid of every client but the owner: the bid is
/// recorded under the client's name and the highest bid reaches it. The
/// owner's bid, and any bid once bidding closed, leave the auction as it was.
pub proof fn lemma_open_auction_takes_other_clients(
    a: AuctionView,
    client: Seq<char>,
    amount: u64,
    ends: bool,
)
    ensures
        client != a.owner && !a.ended ==> {
            &&& bid_is_taken(a, client)
            &&& bid_step(a, client, amount, ends).bids.contains_key(client)
            &&& bid_step(a, client, amount, ends).bids[client] == amount
            &&& bid_step(a, client, amount, ends).highest_bid >= amount
            &&& bid_step(a, client, amount, ends).ended == ends
        },
        client == a.owner || a.ended ==> bid_step(a, client, amount, ends) == a,
{
}

/// Taking a bid keeps the invariant of an auction.
pub proof fn lemma_bid_keeps_invariant(a: AuctionView, client: Seq<char>, amount: u64, ends: bool)
    requires
        auction_inv(a),
        bid_is_taken(a, client),
    ensures
        auction_inv(after_bid(a, client, amount, ends)),
{
}

/// The highest bid never goes down: after a bid it is at least what it was,
/// and at least the amount just bid.
pub proof fn lemma_highest_bid_never_decreases(a: AuctionView, client: Seq<char>, amount: u64, ends: bool)
    ensures
        after_bid(a, client, amount, ends).highest_bid >= a.highest_bid,
        after_bid(a, client, amount, ends).highest_bid >= amount,
{
}

/// A client that bids at least the highest bid takes the lead, and one that
/// bids less does not. Every other client holds the highest bid afterwards
/// exactly when it held it before and the new amount did not exceed it.
pub proof fn lemma_bid_decides_the_lead(a: AuctionView, client: Seq<char>, amount: u64, ends: bool)
    requires
        auction_inv(a),
    ensures
        holds_highest_bid(after_bid(a, client, amount, ends), client) <==> a.highest_bid <= amount,
        forall|other: Seq<char>|
            other != client ==> (holds_highest_bid(after_bid(a, client, amount, ends), other) <==> (
            holds_highest_bid(a, other) && amount <= a.highest_bid)),
{
    let b = after_bid(a, client, amount, ends);
    assert forall|other: Seq<char>|
        other != client implies (holds_highest_bid(b, other) <==> (holds_highest_bid(a, other)
            && amount <= a.highest_bid)) by {
        if a.bids.contains_key(other) {
            assert(a.bids[other] <= a.highest_bid);
        }
    }
}

/// The auction after a call that bids `amount` in the name of `client`, where
/// `ends` is whether bidding closes with the bid if it is taken: the bid is
/// taken, or the auction is left as it was.
pub open spec fn bid_step(a: AuctionView, client: Seq<char>, amount: u64, ends: bool) -> AuctionView {
    if bid_is_taken(a, client) {
        after_bid(a, client, amount, ends)
    } else {
        a
    }
}

/// The auction after the calls `calls` in turn, each a client, an amount and
/// whether bidding closes with that bid if it is taken.
pub open spec fn run_bids(a: AuctionView, calls: Seq<(Seq<char>, u64, bool)>) -> AuctionView
    decreases calls.len(),
{
    if calls.len() == 0 {
        a
    } else {
        let c = calls.last();
        bid_step(run_bids(a, calls.drop_last()), c.0, c.1, c.2)
    }
}

/// Whether call `i` of `calls` is taken, run from the auction `a`.
pub open spec fn taken_at(a: AuctionView, calls: Seq<(Seq<char>, u64, bool)>, i: int) -> bool {
    bid_is_taken(run_bids(a, calls.take(i)), calls[i].0)
}

proof fn lemma_taken_at_prefix(a: AuctionView, calls: Seq<(Seq<char>, u64, bool)>)
    requires
        calls.len() > 0,
    ensures
        run_bids(a, calls.take(calls.len() - 1)) == run_bids(a, calls.drop_last()),
        taken_at(a, calls, calls.len() - 1) == bid_is_taken(
            run_bids(a, calls.drop_last()),
            calls.last().0,
        ),
        forall|i: int|
            0 <= i < calls.len() - 1 ==> #[trigger] taken_at(a, calls, i) == taken_at(
                a,
                calls.drop_last(),
                i,
            ) && calls[i] == calls.drop_last()[i],
{
    assert(calls.take(calls.len() - 1) =~= calls.drop_last());
    assert forall|i: int| 0 <= i < calls.len() - 1 implies #[trigger] taken_at(a, calls, i)
        == taken_at(a, calls.drop_last(), i) && calls[i] == calls.drop_last()[i] by {
        assert(calls.take(i) =~= calls.drop_last().take(i));
    }
}

/// Over any run of bids, the highest bid is the largest of the starting
/// highest bid and the amounts of the bids taken: no taken amount exceeds
/// it, and it is the starting one or one of them. From a new auction it is
/// the largest taken amount, or 0.
pub proof fn lemma_highest_bid_is_the_top_taken_amount(
    a: AuctionView,
    calls: Seq<(Seq<char>, u64, bool)>,
)
    ensures
        run_bids(a, calls).highest_bid >= a.highest_bid,
        forall|i: int|
            0 <= i < calls.len() && #[trigger] taken_at(a, calls, i) ==> calls[i].1 <= run_bids(
                a,
                calls,
            ).highest_bid,
        run_bids(a, calls).highest_bid == a.highest_bid || exists|i: int|
            0 <= i < calls.len() && #[trigger] taken_at(a, calls, i) && calls[i].1 == run_bids(
                a,
                calls,
            ).highest_bid,
    decreases calls.len(),
{
    if calls.len() > 0 {
        let init = calls.drop_last();
        let n = calls.len() - 1;
        lemma_highest_bid_is_the_top_taken_amount(a, init);
        lemma_taken_at_prefix(a, calls);
        let prev = run_bids(a, init);
        let now = run_bids(a, calls);
        assert forall|i: int|
            0 <= i < calls.len() && #[trigger] taken_at(a, calls, i) implies calls[i].1
            <= now.highest_bid by {
            if i < n {
                assert(taken_at(a, init, i));
            }
        }
        if now.highest_bid != a.highest_bid {
            if taken_at(a, calls, n) && calls[n].1 == now.highest_bid {
            } else {
                assert(now.highest_bid == prev.highest_bid);
                let i = choose|i: int|
                    0 <= i < init.len() && #[trigger] taken_at(a, init, i) && init[i].1
                        == prev.highest_bid;
                assert(taken_at(a, calls, i));
            }
        }
    }
}

/// Over any run of bids, a client holds a bid exactly when it held one at
/// the start or a bid of its was taken; and the amount it holds is that of
/// its last taken bid.
pub proof fn lemma_last_taken_bid_is_kept(a: AuctionView, calls: Seq<(Seq<char>, u64, bool)>)
    ensures
        forall|c: Seq<char>|
            #[trigger] run_bids(a, calls).bids.contains_key(c) <==> (a.bids.contains_key(c)
                || exists|i: int|
                0 <= i < calls.len() && #[trigger] taken_at(a, calls, i) && calls[i].0 == c),
        forall|i: int|
            0 <= i < calls.len() && #[trigger] taken_at(a, calls, i) && (forall|j: int|
                i < j < calls.len() && #[trigger] taken_at(a, calls, j) ==> calls[j].0
                    != calls[i].0) ==> run_bids(a, calls).bids[calls[i].0] == calls[i].1,
    decreases calls.len(),
{
    if calls.len() > 0 {
        let init = calls.drop_last();
        let n = calls.len() - 1;
        lemma_last_taken_bid_is_kept(a, init);
        lemma_taken_at_prefix(a, calls);
        let now = run_bids(a, calls);
        assert forall|c: Seq<char>|
            (a.bids.contains_key(c) || exists|i: int|
                0 <= i < calls.len() && #[trigger] taken_at(a, calls, i) && calls[i].0 == c)
                implies #[trigger] now.bids.contains_key(c) by {
            if !a.bids.contains_key(c) {
                let i = choose|i: int|
                    0 <= i < calls.len() && #[trigger] taken_at(a, calls, i) && calls[i].0 == c;
                if i < n {
                    assert(taken_at(a, init, i));
                }
            }
        }
        assert forall|c: Seq<char>| #[trigger]
            now.bids.contains_key(c) implies (a.bids.contains_key(c) || exists|i: int|
                0 <= i < calls.len() && #[trigger] taken_at(a, calls, i) && calls[i].0 == c) by {
            if !a.bids.contains_key(c) && !(taken_at(a, calls, n) && calls[n].0 == c) {
                let i = choose|i: int|
                    0 <= i < init.len() && #[trigger] taken_at(a, init, i) && init[i].0 == c;
                assert(taken_at(a, calls, i));
            }
        }
        assert forall|i: int|
            0 <= i < calls.len() && #[trigger] taken_at(a, calls, i) && (forall|j: int|
                i < j < calls.len() && #[trigger] taken_at(a, calls, j) ==> calls[j].0
                    != calls[i].0) implies now.bids[calls[i].0] == calls[i].1 by {
            if i < n {
                assert(taken_at(a, init, i));
                assert forall|j: int|
                    i < j < init.len() && #[trigger] taken_at(a, init, j) implies init[j].0
                    != init[i].0 by {
                    assert(taken_at(a, calls, j));
                }
            }
        }
    }
}

/// Over any run of bids from an open auction, bidding is closed exactly when
/// some taken bid drew the closing flag.
pub proof fn lemma_closed_by_a_taken_bid(a: AuctionView, calls: Seq<(Seq<char>, u64, bool)>)
    requires
        !a.ended,
    ensures
        run_bids(a, calls).ended <==> exists|i: int|
            0 <= i < calls.len() && #[trigger] taken_at(a, calls, i) && calls[i].2,
    decreases calls.len(),
{
    if calls.len() > 0 {
        let init = calls.drop_last();
        let n = calls.len() - 1;
        lemma_closed_by_a_taken_bid(a, init);
        lemma_taken_at_prefix(a, calls);
        if run_bids(a, calls).ended {
            if !(taken_at(a, calls, n) && calls[n].2) {
                let i = choose|i: int| 0 <= i < init.len() && #[trigger] taken_at(a, init, i) && init[i].2;
                assert(taken_at(a, calls, i));
            }
        } else {
            assert forall|i: int| 0 <= i < calls.len() && #[trigger] taken_at(a, calls, i) implies !calls[i].2 by {
                if i < n {
                    assert(taken_at(a, init, i));
                }
            }
        }
    }
}

impl Auction {
    #[verifier::type_invariant]
    spec fn keeps_invariant(&self) -> bool {
        auction_inv(self@)
    }

    /// Opens an auction of `owner`, with no bid yet.
    pub fn new(owner: String) -> (a: Auction)
        ensures
            auction_inv(a@),
            a@ == (AuctionView {
                owner: owner@,
                bids: Map::empty(),
                highest_bid: 0,
                ended: false,
            }),
    {
        Auction { owner, bids: StringHashMap::new(), highest_bid: 0, ended: false }
    }

    /// Takes `amount` from `client` where the auction takes the client's bid,
    /// with `ends` saying whether bidding closes with it; `None`, and the
    /// auction unchanged, where the client is the owner or bidding is closed.
    pub fn place_bid(&mut self, client: String, amount: u64, ends: bool) -> (r: Option<()>)
        ensures
            auction_inv(final(self)@),
            r is Some <==> bid_is_taken(old(self)@, client@),
            r is Some ==> final(self)@ == after_bid(old(self)@, client@, amount, ends),
            r is None ==> final(self)@ == old(self)@,
            final(self)@ == bid_step(old(self)@, client@, amount, ends),
            client@ != old(self)@.owner && !old(self)@.ended ==> {
                &&& r is Some
                &&& final(self)@.bids.contains_key(client@)
                &&& final(self)@.bids[client@] == amount
                &&& final(self)@.highest_bid >= amount
            },
            client@ == old(self)@.owner || old(self)@.ended ==> r is None && final(self)@ == old(
                self,
            )@,
    {
        proof {
            use_type_invariant(&*self);
        }
        if self.owner == client {
            return None;
        }
        if self.has_ended() {
            return None;
        }
        let ghost key = client@;
        self.ended = ends;
        if self.highest_bid < amount {
            self.highest_bid = amount;
        }
        let mut bids = StringHashMap::new();
        std::mem::swap(&mut bids, &mut self.bids);
        bids.insert(client, amount);
        self.bids = bids;
        assert(self@ == after_bid(old(self)@, key, amount, ends));
        Some(())
    }

    /// Takes `amount` from `client` where the auction takes the client's bid;
    /// whether bidding then closes is drawn at random. `None`, and the auction
    /// unchanged, where the client is the owner or bidding is closed.
    pub fn bid(&mut self, client: String, amount: u64) -> (r: Option<()>)
        ensures
            auction_inv(final(self)@),
            r is Some <==> bid_is_taken(old(self)@, client@),
            r is Some ==> final(self)@ == after_bid(old(self)@, client@, amount, final(self)@.ended),
            r is None ==> final(self)@ == old(self)@,
            final(self)@ == bid_step(old(self)@, client@, amount, final(self)@.ended),
            client@ != old(self)@.owner && !old(self)@.ended ==> {
                &&& r is Some
                &&& final(self)@.bids.contains_key(client@)
                &&& final(self)@.bids[client@] == amount
                &&& final(self)@.highest_bid >= amount
            },
            client@ == old(self)@.owner || old(self)@.ended ==> r is None && final(self)@ == old(
                self,
            )@,
    {
        proof {
            use_type_invariant(&*self);
        }
        if self.owner == client {
            return None;
        }
        if !self.has_ended() {
            let ends = coin_flip();
            self.place_bid(client, amount, ends)
        } else {
            None
        }
    }

    /// Whether `client` holds a bid equal to the highest bid.
    pub fn is_highest_bid(&self, client: &String) -> (r: bool)
        ensures
            r == holds_highest_bid(self@, client@),
            auction_inv(self@),
    {
        proof {
            use_type_invariant(self);
        }
        match self.bids.get(client.as_str()) {
            Some(b) => self.highest_bid == *b,
            None => false,
        }
    }

    /// The last bid of `client`, if the client has bid.
    pub fn get_bid(&self, client: String) -> (r: Option<&u64>)
        ensures
            match r {
                Some(b) => self@.bids.contains_key(client@) && *b == self@.bids[client@],
                None => !self@.bids.contains_key(client@),
            },
    {
        self.bids.get(client.as_str())
    }

    /// The highest amount bid so far (0 before any bid).
    pub fn highest_bid(&self) -> (h: u64)
        ensures
            h == self@.highest_bid,
    {
        self.highest_bid
    }

    /// Whether bidding is closed.
    pub fn has_ended(&self) -> (r: bool)
        ensures
            r == self@.ended,
            auction_inv(self@),
    {
        proof {
            use_type_invariant(self);
        }
        self.ended
    }
}

} // verus!
