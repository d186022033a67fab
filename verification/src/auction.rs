//! The market: consignments at a fixed price and auctions with rising
//! bids, listed newest first a page at a time.
use std::collections::HashMap;
use vstd::prelude::*;
use crate::item::{same_item, UserItemData};
use crate::maps::{keys_of, map_get_mut};
use crate::text::{decimal, int_text, is_err_with, join, text};

verus! {

broadcast use vstd::std_specs::hash::group_hash_axioms;

/// How a market entry is sold.
#[derive(Clone, Copy, Debug, PartialEq, Eq, Structural)]
pub enum MarketItemType {
    GameShop,
    Consign,
    Auction,
}

impl Default for MarketItemType {
    fn default() -> (r: Self)
        ensures
            r == MarketItemType::GameShop,
    {
        MarketItemType::GameShop
    }
}

/// The kind a stored number names; unknown numbers name the game shop.
pub open spec fn market_type_of(value: u8) -> MarketItemType {
    if value == 1 {
        MarketItemType::Consign
    } else if value == 2 {
        MarketItemType::Auction
    } else {
        MarketItemType::GameShop
    }
}

impl From<u8> for MarketItemType {
    fn from(value: u8) -> (r: Self) {
        match value {
            0 => MarketItemType::GameShop,
            1 => MarketItemType::Consign,
            2 => MarketItemType::Auction,
            _ => MarketItemType::GameShop,
        }
    }
}

impl vstd::std_specs::convert::FromSpecImpl<u8> for MarketItemType {
    open spec fn obeys_from_spec() -> bool {
        true
    }

    open spec fn from_spec(v: u8) -> MarketItemType {
        market_type_of(v)
    }
}

/// One entry on the market.
#[derive(Clone, Debug)]
pub struct AuctionInfo {
    pub auction_id: u64,
    pub item: UserItemData,
    /// Unix time in seconds when the entry was listed.
    pub consignment_date: u64,
    /// The starting price of an auction, the fixed price of a consignment.
    pub price: u32,
    /// The highest bid so far (auctions only).
    pub current_bid: u32,
    pub seller_index: i32,
    /// The highest bidder, -1 before any bid.
    pub current_buyer_index: i32,
    pub expired: bool,
    pub sold: bool,
    pub item_type: MarketItemType,
}

/// A fresh entry listed at `now`: an auction starts its bid at the price.
pub open spec fn is_new_listing(a: AuctionInfo, auction_id: u64, seller_index: i32, item: UserItemData, price: u32, item_type: MarketItemType, now: u64) -> bool {
    &&& a.auction_id == auction_id
    &&& a.item == item
    &&& a.consignment_date == now
    &&& a.price == price
    &&& a.current_bid == (if item_type == MarketItemType::Auction { price } else { 0 })
    &&& a.seller_index == seller_index
    &&& a.current_buyer_index == -1
    &&& !a.expired
    &&& !a.sold
    &&& a.item_type == item_type
}

/// A bid is taken: the entry is an open auction and the bid beats the
/// current one by at least a tenth of it (rounded down).
pub open spec fn bid_accepted(a: AuctionInfo, bid_amount: u32) -> bool {
    &&& a.item_type == MarketItemType::Auction
    &&& !a.expired
    &&& !a.sold
    &&& bid_amount > a.current_bid
    &&& bid_amount >= a.current_bid + a.current_bid / 10
}

/// The entry after an accepted bid.
pub open spec fn with_bid(a: AuctionInfo, buyer_index: i32, bid_amount: u32) -> AuctionInfo {
    AuctionInfo { current_bid: bid_amount, current_buyer_index: buyer_index, ..a }
}

/// The minimum raise of a bid can be computed without overflow.
pub open spec fn bid_fits(a: AuctionInfo, bid_amount: u32) -> bool {
    (a.item_type == MarketItemType::Auction && !a.expired && !a.sold && bid_amount > a.current_bid) ==> a.current_bid
        + a.current_bid / 10 <= u32::MAX
}

/// The entry after an expiry check at `now`: once the duration has passed
/// it is expired, and an auction with a bidder is sold.
pub open spec fn expiry_checked(a: AuctionInfo, duration_hours: u64, now: u64) -> AuctionInfo {
    if a.expired {
        a
    } else if now - a.consignment_date >= duration_hours * 3600 {
        AuctionInfo {
            expired: true,
            sold: a.sold || (a.item_type == MarketItemType::Auction && a.current_buyer_index != -1),
            ..a
        }
    } else {
        a
    }
}

/// The expiry check can be computed: time has not run backwards since the
/// listing and the duration fits in seconds.
pub open spec fn expiry_fits(a: AuctionInfo, duration_hours: u64, now: u64) -> bool {
    !a.expired ==> now >= a.consignment_date && duration_hours * 3600 <= u64::MAX
}

/// The price a listing shows: the current bid of an auction, else the price.
pub open spec fn display_price(a: AuctionInfo) -> u32 {
    if a.item_type == MarketItemType::Auction {
        a.current_bid
    } else {
        a.price
    }
}

/// The seller column: for the seller, the listing's state; for others, the
/// seller's number.
pub open spec fn seller_label(a: AuctionInfo, user_match: bool) -> Seq<char> {
    match a.item_type {
        MarketItemType::GameShop => Seq::empty(),
        MarketItemType::Consign => if user_match {
            if a.sold {
                "Sold"@
            } else if a.expired {
                "Expired"@
            } else {
                "For Sale"@
            }
        } else {
            "Seller_"@ + decimal(a.seller_index as int)
        },
        MarketItemType::Auction => if user_match {
            if a.sold {
                "Sold"@
            } else if a.expired {
                "Expired"@
            } else if a.current_bid > a.price {
                "Bid Met"@
            } else {
                "No Bid"@
            }
        } else {
            "Seller_"@ + decimal(a.seller_index as int)
        },
    }
}

impl AuctionInfo {
    /// A new entry listed at `now`.
    pub fn new(auction_id: u64, seller_index: i32, item: UserItemData, price: u32, item_type: MarketItemType, now: u64) -> (r: Self)
        ensures
            is_new_listing(r, auction_id, seller_index, item, price, item_type, now),
    {
        let current_bid: u32 = if item_type == MarketItemType::Auction { price } else { 0 };
        AuctionInfo {
            auction_id,
            item,
            consignment_date: now,
            price,
            current_bid,
            seller_index,
            current_buyer_index: -1,
            expired: false,
            sold: false,
            item_type,
        }
    }

    /// Places a bid; true when it was taken.
    pub fn place_bid(&mut self, buyer_index: i32, bid_amount: u32) -> (r: bool)
        requires
            bid_fits(*old(self), bid_amount),
        ensures
            r == bid_accepted(*old(self), bid_amount),
            r ==> *final(self) == with_bid(*old(self), buyer_index, bid_amount),
            !r ==> *final(self) == *old(self),
    {
        if self.item_type != MarketItemType::Auction {
            return false;
        }
        if self.expired || self.sold {
            return false;
        }
        if bid_amount <= self.current_bid {
            return false;
        }
        let min_increment = self.current_bid / 10;
        if bid_amount < self.current_bid + min_increment {
            return false;
        }
        self.current_bid = bid_amount;
        self.current_buyer_index = buyer_index;
        true
    }

    /// Checks the entry for expiry at `now`; true when it is expired.
    pub fn check_expired(&mut self, auction_duration_hours: u64, now: u64) -> (r: bool)
        requires
            expiry_fits(*old(self), auction_duration_hours, now),
        ensures
            *final(self) == expiry_checked(*old(self), auction_duration_hours, now),
            r == final(self).expired,
    {
        if self.expired {
            return true;
        }
        let elapsed = now - self.consignment_date;
        let duration_seconds = auction_duration_hours * 3600;
        if elapsed >= duration_seconds {
            self.expired = true;
            if self.item_type == MarketItemType::Auction && self.current_buyer_index != -1 {
                self.sold = true;
            }
            true
        } else {
            false
        }
    }

    /// The price a listing shows.
    pub fn get_display_price(&self) -> (r: u32)
        ensures
            r == display_price(*self),
    {
        match self.item_type {
            MarketItemType::Auction => self.current_bid,
            _ => self.price,
        }
    }

    /// The seller column of a listing.
    pub fn get_seller_label(&self, user_match: bool) -> (r: String)
        ensures
            r@ == seller_label(*self, user_match),
    {
        match self.item_type {
            MarketItemType::GameShop => String::new(),
            MarketItemType::Consign => {
                if user_match {
                    if self.sold {
                        text("Sold")
                    } else if self.expired {
                        text("Expired")
                    } else {
                        text("For Sale")
                    }
                } else {
                    let n = int_text(self.seller_index as i64);
                    join(text("Seller_"), n.as_str())
                }
            },
            MarketItemType::Auction => {
                if user_match {
                    if self.sold {
                        text("Sold")
                    } else if self.expired {
                        text("Expired")
                    } else if self.current_bid > self.price {
                        text("Bid Met")
                    } else {
                        text("No Bid")
                    }
                } else {
                    let n = int_text(self.seller_index as i64);
                    join(text("Seller_"), n.as_str())
                }
            },
        }
    }
}

/// A listing as a client sees it.
#[derive(Clone, Debug)]
pub struct ClientAuction {
    pub auction_id: u64,
    pub item: UserItemData,
    pub seller: String,
    pub price: u32,
    pub consignment_date: u64,
    pub item_type: MarketItemType,
}

/// `c` shows `a` to a client who is not its seller.
pub open spec fn shows(c: ClientAuction, a: AuctionInfo) -> bool {
    &&& c.auction_id == a.auction_id
    &&& same_item(c.item, a.item)
    &&& c.seller@ == seller_label(a, false)
    &&& c.price == display_price(a)
    &&& c.consignment_date == a.consignment_date
    &&& c.item_type == a.item_type
}

impl ClientAuction {
    /// The listing as a client who is not its seller sees it.
    pub fn from_auction(auction: &AuctionInfo) -> (r: Self)
        ensures
            shows(r, *auction),
    {
        ClientAuction {
            auction_id: auction.auction_id,
            item: auction.item.duplicate(),
            seller: auction.get_seller_label(false),
            price: auction.get_display_price(),
            consignment_date: auction.consignment_date,
            item_type: auction.item_type,
        }
    }
}

} // verus!

verus! {

/// Listing order: newest first.
pub open spec fn newest_first(s: Seq<(u64, u64)>) -> bool {
    forall|i: int, j: int| 0 <= i < j < s.len() ==> s[i].0 >= s[j].0
}

/// The first position whose date is older than `d`, or the length.
fn insertion_point(s: &Vec<(u64, u64)>, d: u64) -> (r: usize)
    ensures
        r <= s@.len(),
        forall|i: int| 0 <= i < r ==> s@[i].0 >= d,
        r < s@.len() ==> s@[r as int].0 < d,
{
    let mut i: usize = 0;
    while i < s.len()
        invariant
            0 <= i <= s@.len(),
            forall|j: int| 0 <= j < i ==> s@[j].0 >= d,
        decreases s@.len() - i,
    {
        if s[i].0 < d {
            return i;
        }
        i = i + 1;
    }
    i
}

/// The pairs (date, id) in newest-first order; equal dates keep their order.
fn sort_newest_first(items: Vec<(u64, u64)>) -> (r: Vec<(u64, u64)>)
    requires
        items@.no_duplicates(),
    ensures
        r@.len() == items@.len(),
        r@.no_duplicates(),
        forall|x: (u64, u64)| r@.contains(x) <==> items@.contains(x),
        newest_first(r@),
{
    let mut out: Vec<(u64, u64)> = Vec::new();
    let mut i: usize = 0;
    while i < items.len()
        invariant
            0 <= i <= items@.len(),
            items@.no_duplicates(),
            out@.len() == i,
            out@.no_duplicates(),
            forall|x: (u64, u64)| out@.contains(x) <==> items@.take(i as int).contains(x),
            newest_first(out@),
        decreases items@.len() - i,
    {
        let x = items[i];
        let p = insertion_point(&out, x.0);
        let ghost before = out@;
        proof {
            assert(!before.contains(x)) by {
                if before.contains(x) {
                    let w = choose|w: int| 0 <= w < i && items@.take(i as int)[w] == x;
                    assert(items@[w] == items@[i as int]);
                }
            }
        }
        out.insert(p, x);
        proof {
            assert(out@ == before.insert(p as int, x));
            assert forall|y: (u64, u64)| out@.contains(y) <==> items@.take(i as int + 1).contains(y) by {
                assert(items@.take(i as int + 1) == items@.take(i as int).push(x));
                if out@.contains(y) {
                    let w = choose|w: int| 0 <= w < out@.len() && out@[w] == y;
                    if w < p {
                        assert(before[w] == y);
                    } else if w > p {
                        assert(before[w - 1] == y);
                    }
                }
                if before.contains(y) {
                    let w = choose|w: int| 0 <= w < before.len() && before[w] == y;
                    if w < p {
                        assert(out@[w] == y);
                    } else {
                        assert(out@[w + 1] == y);
                    }
                }
                if y == x {
                    assert(out@[p as int] == x);
                }
                let t = items@.take(i as int);
                let t1 = items@.take(i as int + 1);
                if t1.contains(y) {
                    let w = choose|w: int| 0 <= w < t1.len() && t1[w] == y;
                    if w < i {
                        assert(t[w] == y);
                        assert(t.contains(y));
                    } else {
                        assert(y == x);
                    }
                }
                if t.contains(y) {
                    let w = choose|w: int| 0 <= w < t.len() && t[w] == y;
                    assert(t1[w] == y);
                }
                if y == x {
                    assert(t1[i as int] == x);
                }
            }
            assert forall|a: int, b: int| 0 <= a < out@.len() && 0 <= b < out@.len() && a != b implies out@[a] != out@[b] by {
                if a != p && b != p {
                    let a0 = if a < p { a } else { a - 1 };
                    let b0 = if b < p { b } else { b - 1 };
                    assert(out@[a] == before[a0] && out@[b] == before[b0]);
                } else if a == p {
                    let b0 = if b < p { b } else { b - 1 };
                    assert(out@[b] == before[b0]);
                } else {
                    let a0 = if a < p { a } else { a - 1 };
                    assert(out@[a] == before[a0]);
                }
            }
            assert forall|a: int, b: int| 0 <= a < b < out@.len() implies out@[a].0 >= out@[b].0 by {
                if b < p {
                    assert(out@[a] == before[a] && out@[b] == before[b]);
                } else if b == p {
                    assert(out@[a] == before[a]);
                } else if a < p {
                    assert(out@[a] == before[a] && out@[b] == before[b - 1]);
                    assert(before[p as int].0 < x.0);
                    assert(before[a].0 >= x.0);
                } else if a == p {
                    assert(out@[b] == before[b - 1]);
                    assert(before[p as int].0 < x.0);
                    assert(before[p as int].0 >= before[b - 1].0 || b - 1 == p);
                } else {
                    assert(out@[a] == before[a - 1] && out@[b] == before[b - 1]);
                }
            }
        }
        i = i + 1;
    }
    proof {
        assert(items@.take(items@.len() as int) == items@);
    }
    out
}

} // verus!

verus! {

/// `order` lists, newest first, every entry of `m` that passes `keep`, each
/// once.
pub open spec fn listed_in_order(m: Map<u64, AuctionInfo>, order: Seq<u64>, keep: spec_fn(AuctionInfo) -> bool) -> bool {
    &&& order.no_duplicates()
    &&& forall|k: u64| order.contains(k) <==> m.contains_key(k) && keep(m[k])
    &&& forall|i: int, j: int| 0 <= i < j < order.len() ==> m[order[i]].consignment_date >= m[order[j]].consignment_date
}

/// The number of entries on a page of a list of `n`.
pub open spec fn page_len(n: int, page: int, page_size: int) -> int {
    let start = page * page_size;
    if start < n {
        if page_size < n - start {
            page_size
        } else {
            n - start
        }
    } else {
        0
    }
}

/// `r` is page `page` of `order`, as clients see the entries.
pub open spec fn is_page(r: Seq<ClientAuction>, m: Map<u64, AuctionInfo>, order: Seq<u64>, page: int, page_size: int) -> bool {
    &&& r.len() == page_len(order.len() as int, page, page_size)
    &&& forall|j: int| 0 <= j < r.len() ==> shows(#[trigger] r[j], m[order[page * page_size + j]])
}

/// An entry shows in searches: not expired unsold, and of the asked kind.
pub open spec fn searchable(a: AuctionInfo, item_type: Option<MarketItemType>) -> bool {
    &&& !(a.expired && !a.sold)
    &&& (item_type matches Some(t) ==> a.item_type == t)
}

/// An entry expired without a sale or a bid: it goes back to its seller.
pub open spec fn returned_to_seller(a: AuctionInfo) -> bool {
    a.expired && !a.sold && a.current_buyer_index == -1
}

/// `order` lists the searchable entries newest first.
pub open spec fn search_order(m: Map<u64, AuctionInfo>, order: Seq<u64>, item_type: Option<MarketItemType>) -> bool {
    listed_in_order(m, order, |a: AuctionInfo| searchable(a, item_type))
}

/// `order` lists one seller's entries newest first.
pub open spec fn seller_order(m: Map<u64, AuctionInfo>, order: Seq<u64>, seller_index: i32) -> bool {
    listed_in_order(m, order, |a: AuctionInfo| a.seller_index == seller_index)
}

/// The market.
#[derive(Clone, Debug)]
pub struct AuctionHouse {
    pub auctions: HashMap<u64, AuctionInfo>,
    pub next_auction_id: u64,
    pub auction_duration_hours: u64,
    /// The consignment fee, in percent of the sale price.
    pub consignment_fee_percent: u32,
    pub listing_fee: u32,
}

impl AuctionHouse {
    /// The entries by id.
    pub closed spec fn listings(&self) -> Map<u64, AuctionInfo> {
        self.auctions@
    }

    /// An empty market: ids from 1, 48-hour auctions, a 5% consignment fee
    /// and a 1000 gold listing fee.
    pub fn new() -> (r: Self)
        ensures
            r.listings() == Map::<u64, AuctionInfo>::empty(),
            r.next_auction_id == 1,
            r.auction_duration_hours == 48,
            r.consignment_fee_percent == 5,
            r.listing_fee == 1000,
    {
        AuctionHouse {
            auctions: HashMap::new(),
            next_auction_id: 1,
            auction_duration_hours: 48,
            consignment_fee_percent: 5,
            listing_fee: 1000,
        }
    }

    /// Lists an item at `now` under the next id and returns the id. Errors:
    /// an item without an id, a zero price, or a game-shop entry.
    pub fn create_auction(&mut self, seller_index: i32, item: UserItemData, price: u32, item_type: MarketItemType, now: u64) -> (r: Result<u64, String>)
        requires
            old(self).next_auction_id < u64::MAX,
        ensures
            item.unique_id == 0 ==> is_err_with(r, "Invalid item"@),
            item.unique_id != 0 && price == 0 ==> is_err_with(r, "Price must be greater than 0"@),
            item.unique_id != 0 && price != 0 && item_type == MarketItemType::GameShop ==> is_err_with(
                r,
                "Cannot create GameShop auctions"@,
            ),
            r is Ok <==> item.unique_id != 0 && price != 0 && item_type != MarketItemType::GameShop,
            r is Err ==> *final(self) == *old(self),
            r is Ok ==> {
                let id = old(self).next_auction_id;
                &&& r == Ok::<u64, String>(id)
                &&& final(self).next_auction_id == id + 1
                &&& final(self).listings().dom() == old(self).listings().dom().insert(id)
                &&& is_new_listing(final(self).listings()[id], id, seller_index, item, price, item_type, now)
                &&& forall|k: u64| k != id && old(self).listings().contains_key(k) ==> #[trigger] final(self).listings()[k] == old(self).listings()[k]
                &&& final(self).auction_duration_hours == old(self).auction_duration_hours
                &&& final(self).consignment_fee_percent == old(self).consignment_fee_percent
                &&& final(self).listing_fee == old(self).listing_fee
            },
    {
        if item.unique_id == 0 {
            return Err(text("Invalid item"));
        }
        if price == 0 {
            return Err(text("Price must be greater than 0"));
        }
        if item_type == MarketItemType::GameShop {
            return Err(text("Cannot create GameShop auctions"));
        }
        let auction_id = self.next_auction_id;
        self.next_auction_id = self.next_auction_id + 1;
        let auction = AuctionInfo::new(auction_id, seller_index, item, price, item_type, now);
        self.auctions.insert(auction_id, auction);
        Ok(auction_id)
    }

    /// Bids on an entry. Errors: no such entry, or the bid is not taken.
    pub fn place_bid(&mut self, auction_id: u64, buyer_index: i32, bid_amount: u32) -> (r: Result<(), String>)
        requires
            old(self).listings().contains_key(auction_id) ==> bid_fits(old(self).listings()[auction_id], bid_amount),
        ensures
            final(self).next_auction_id == old(self).next_auction_id,
            final(self).auction_duration_hours == old(self).auction_duration_hours,
            !old(self).listings().contains_key(auction_id) ==> is_err_with(r, "Auction not found"@),
            old(self).listings().contains_key(auction_id) && !bid_accepted(old(self).listings()[auction_id], bid_amount)
                ==> is_err_with(r, "Failed to place bid"@),
            r is Ok <==> old(self).listings().contains_key(auction_id) && bid_accepted(old(self).listings()[auction_id], bid_amount),
            r is Err ==> final(self).listings() == old(self).listings(),
            r is Ok ==> final(self).listings() == old(self).listings().insert(
                auction_id,
                with_bid(old(self).listings()[auction_id], buyer_index, bid_amount),
            ),
    {
        match map_get_mut(&mut self.auctions, &auction_id) {
            None => Err(text("Auction not found")),
            Some(auction) => {
                if auction.place_bid(buyer_index, bid_amount) {
                    Ok(())
                } else {
                    Err(text("Failed to place bid"))
                }
            },
        }
    }

    /// Takes an entry off the market and gives its item back. Errors: no
    /// such entry, another seller's entry, a sold entry, or an auction with
    /// a bid.
    pub fn cancel_auction(&mut self, auction_id: u64, seller_index: i32) -> (r: Result<UserItemData, String>)
        ensures
            final(self).next_auction_id == old(self).next_auction_id,
            final(self).auction_duration_hours == old(self).auction_duration_hours,
            !old(self).listings().contains_key(auction_id) ==> is_err_with(r, "Auction not found"@),
            old(self).listings().contains_key(auction_id) ==> {
                let a = old(self).listings()[auction_id];
                &&& a.seller_index != seller_index ==> is_err_with(r, "Not the seller"@)
                &&& a.seller_index == seller_index && a.sold ==> is_err_with(r, "Item already sold"@)
                &&& a.seller_index == seller_index && !a.sold && a.current_buyer_index != -1 ==> is_err_with(
                    r,
                    "Cannot cancel auction with bids"@,
                )
                &&& a.seller_index == seller_index && !a.sold && a.current_buyer_index == -1 ==> (r matches Ok(item)
                    && same_item(item, a.item))
            },
            r is Ok <==> old(self).listings().contains_key(auction_id) && old(self).listings()[auction_id].seller_index
                == seller_index && !old(self).listings()[auction_id].sold
                && old(self).listings()[auction_id].current_buyer_index == -1,
            r is Err ==> final(self).listings() == old(self).listings(),
            r is Ok ==> final(self).listings() == old(self).listings().remove(auction_id),
    {
        let item = match self.auctions.get(&auction_id) {
            None => {
                return Err(text("Auction not found"));
            },
            Some(auction) => {
                if auction.seller_index != seller_index {
                    return Err(text("Not the seller"));
                }
                if auction.sold {
                    return Err(text("Item already sold"));
                }
                if auction.current_buyer_index != -1 {
                    return Err(text("Cannot cancel auction with bids"));
                }
                auction.item.duplicate()
            },
        };
        self.auctions.remove(&auction_id);
        Ok(item)
    }

    /// An entry by id.
    pub fn get_auction(&self, auction_id: u64) -> (r: Option<&AuctionInfo>)
        ensures
            match r {
                Some(a) => self.listings().contains_key(auction_id) && *a == self.listings()[auction_id],
                None => !self.listings().contains_key(auction_id),
            },
    {
        self.auctions.get(&auction_id)
    }

    /// The listing fee of a kind of entry: none for the game shop.
    pub fn calculate_listing_fee(&self, item_type: MarketItemType) -> (r: u32)
        ensures
            r == if item_type == MarketItemType::GameShop {
                0
            } else {
                self.listing_fee
            },
    {
        match item_type {
            MarketItemType::GameShop => 0,
            _ => self.listing_fee,
        }
    }
}

} // verus!

verus! {

impl AuctionHouse {
    /// Page `page` of the given entries, newest first.
    fn page_of(&self, ids: Vec<u64>, page: usize, page_size: usize) -> (r: Vec<ClientAuction>)
        requires
            ids@.no_duplicates(),
            forall|k: u64| ids@.contains(k) ==> self.auctions@.contains_key(k),
            page * page_size + page_size <= usize::MAX,
        ensures
            exists|order: Seq<u64>| {
                &&& order.no_duplicates()
                &&& forall|k: u64| order.contains(k) <==> ids@.contains(k)
                &&& forall|i: int, j: int| 0 <= i < j < order.len() ==> self.auctions@[order[i]].consignment_date
                    >= self.auctions@[order[j]].consignment_date
                &&& #[trigger] is_page(r@, self.auctions@, order, page as int, page_size as int)
            },
    {
        let mut pairs: Vec<(u64, u64)> = Vec::new();
        let mut i: usize = 0;
        while i < ids.len()
            invariant
                0 <= i <= ids@.len(),
                ids@.no_duplicates(),
                forall|k: u64| ids@.contains(k) ==> self.auctions@.contains_key(k),
                pairs@.len() == i,
                forall|j: int| 0 <= j < i ==> (#[trigger] pairs@[j]).1 == ids@[j] && pairs@[j].0
                    == self.auctions@[ids@[j]].consignment_date,
            decreases ids@.len() - i,
        {
            let k = ids[i];
            assert(ids@.contains(k));
            match self.auctions.get(&k) {
                Some(a) => {
                    pairs.push((a.consignment_date, k));
                },
                None => {
                    assert(false);
                },
            }
            i = i + 1;
        }
        proof {
            assert forall|a: int, b: int| 0 <= a < pairs@.len() && 0 <= b < pairs@.len() && a != b implies pairs@[a]
                != pairs@[b] by {
                assert(ids@[a] != ids@[b]);
            }
        }
        let ghost dated = pairs@;
        let sorted = sort_newest_first(pairs);
        let ghost order = sorted@.map_values(|p: (u64, u64)| p.1);
        proof {
            assert forall|x: (u64, u64)| #[trigger] sorted@.contains(x) implies x.1 == ids@[dated.index_of(x)] && x.0
                == self.auctions@[x.1].consignment_date && ids@.contains(x.1) by {
                assert(dated.contains(x));
                let w = dated.index_of(x);
                assert(dated[w] == x);
            }
            assert forall|j: int| 0 <= j < sorted@.len() implies #[trigger] order[j] == sorted@[j].1 && sorted@[j].0
                == self.auctions@[order[j]].consignment_date by {
                assert(sorted@.contains(sorted@[j]));
            }
            assert forall|k: u64| order.contains(k) <==> ids@.contains(k) by {
                if order.contains(k) {
                    let w = choose|w: int| 0 <= w < order.len() && order[w] == k;
                    assert(sorted@.contains(sorted@[w]));
                }
                if ids@.contains(k) {
                    let w = ids@.index_of(k);
                    assert(dated[w].1 == k);
                    assert(dated.contains(dated[w]));
                    assert(sorted@.contains(dated[w]));
                    let v = choose|v: int| 0 <= v < sorted@.len() && sorted@[v] == dated[w];
                    assert(order[v] == k);
                }
            }
            assert forall|a: int, b: int| 0 <= a < order.len() && 0 <= b < order.len() && a != b implies order[a]
                != order[b] by {
                assert(sorted@[a] != sorted@[b]);
                assert(sorted@.contains(sorted@[a]));
                assert(sorted@.contains(sorted@[b]));
                if order[a] == order[b] {
                    assert(sorted@[a].0 == self.auctions@[order[a]].consignment_date);
                    assert(sorted@[a] == sorted@[b]);
                }
            }
        }
        let start: usize = page * page_size;
        let end: usize = if start + page_size < sorted.len() { start + page_size } else { sorted.len() };
        let mut out: Vec<ClientAuction> = Vec::new();
        if start < sorted.len() {
            let mut j: usize = start;
            while j < end
                invariant
                    start <= j <= end <= sorted@.len(),
                    start == page * page_size,
                    out@.len() == j - start,
                    forall|x: (u64, u64)| #[trigger] sorted@.contains(x) ==> self.auctions@.contains_key(x.1),
                    forall|q: int| 0 <= q < sorted@.len() ==> #[trigger] order[q] == sorted@[q].1,
                    forall|q: int| 0 <= q < out@.len() ==> shows(#[trigger] out@[q], self.auctions@[order[start + q]]),
                decreases end - j,
            {
                let k = sorted[j].1;
                assert(sorted@.contains(sorted@[j as int]));
                match self.auctions.get(&k) {
                    Some(a) => {
                        out.push(ClientAuction::from_auction(a));
                    },
                    None => {
                        assert(false);
                    },
                }
                j = j + 1;
            }
        }
        proof {
            assert(is_page(out@, self.auctions@, order, page as int, page_size as int));
        }
        out
    }
}

} // verus!

verus! {

impl AuctionHouse {
    fn select_ids(&self, item_type: Option<MarketItemType>, seller: Option<i32>) -> (r: Vec<u64>)
        ensures
            r@.no_duplicates(),
            forall|k: u64| r@.contains(k) <==> self.auctions@.contains_key(k) && match seller {
                Some(s) => self.auctions@[k].seller_index == s,
                None => searchable(self.auctions@[k], item_type),
            },
    {
        let ks = keys_of(&self.auctions);
        let mut out: Vec<u64> = Vec::new();
        let mut i: usize = 0;
        while i < ks.len()
            invariant
                0 <= i <= ks@.len(),
                ks@.no_duplicates(),
                forall|k: u64| ks@.contains(k) <==> self.auctions@.contains_key(k),
                out@.no_duplicates(),
                forall|k: u64| out@.contains(k) <==> ks@.take(i as int).contains(k) && match seller {
                    Some(s) => self.auctions@[k].seller_index == s,
                    None => searchable(self.auctions@[k], item_type),
                },
            decreases ks@.len() - i,
        {
            let k = ks[i];
            assert(ks@.contains(k));
            let keep = match self.auctions.get(&k) {
                Some(a) => match seller {
                    Some(s) => a.seller_index == s,
                    None => {
                        let open = !(a.expired && !a.sold);
                        let kind_ok = match item_type {
                            Some(t) => a.item_type == t,
                            None => true,
                        };
                        open && kind_ok
                    },
                },
                None => false,
            };
            let ghost before = out@;
            proof {
                assert(!ks@.take(i as int).contains(k)) by {
                    if ks@.take(i as int).contains(k) {
                        let w = choose|w: int| 0 <= w < i && ks@.take(i as int)[w] == k;
                        assert(ks@[w] == ks@[i as int]);
                    }
                }
            }
            if keep {
                out.push(k);
            }
            proof {
                let t = ks@.take(i as int);
                let t1 = ks@.take(i as int + 1);
                assert forall|y: u64| t1.contains(y) <==> t.contains(y) || y == k by {
                    if t1.contains(y) {
                        let w = choose|w: int| 0 <= w < t1.len() && t1[w] == y;
                        if w < i {
                            assert(t[w] == y);
                        }
                    }
                    if t.contains(y) {
                        let w = choose|w: int| 0 <= w < t.len() && t[w] == y;
                        assert(t1[w] == y);
                    }
                    if y == k {
                        assert(t1[i as int] == k);
                    }
                }
                assert(keep == match seller {
                    Some(s) => self.auctions@[k].seller_index == s,
                    None => searchable(self.auctions@[k], item_type),
                });
                assert forall|y: u64| out@.contains(y) <==> before.contains(y) || (keep && y == k) by {
                    if out@.contains(y) && !before.contains(y) {
                        let w = choose|w: int| 0 <= w < out@.len() && out@[w] == y;
                        if w < before.len() {
                            assert(before[w] == y);
                        }
                    }
                    if before.contains(y) {
                        let w = choose|w: int| 0 <= w < before.len() && before[w] == y;
                        assert(out@[w] == y);
                    }
                    if keep && y == k {
                        assert(out@[before.len() as int] == k);
                    }
                }
                if keep {
                    assert forall|a: int, b: int| 0 <= a < out@.len() && 0 <= b < out@.len() && a != b implies out@[a]
                        != out@[b] by {
                        if a < before.len() && b < before.len() {
                            assert(before[a] != before[b]);
                        } else if a < before.len() {
                            assert(before.contains(before[a]));
                        } else {
                            assert(before.contains(before[b]));
                        }
                    }
                }
            }
            proof {
                assert forall|y: u64| out@.contains(y) <==> ks@.take(i as int + 1).contains(y) && match seller {
                    Some(s) => self.auctions@[y].seller_index == s,
                    None => searchable(self.auctions@[y], item_type),
                } by {
                    assert(ks@.take(i as int + 1).contains(y) <==> ks@.take(i as int).contains(y) || y == k);
                    assert(before.contains(y) <==> ks@.take(i as int).contains(y) && match seller {
                        Some(s) => self.auctions@[y].seller_index == s,
                        None => searchable(self.auctions@[y], item_type),
                    });
                }
            }
            i = i + 1;
        }
        proof {
            assert(ks@.take(ks@.len() as int) == ks@);
        }
        out
    }

    /// Page `page` of the searchable entries, newest first: entries that
    /// did not expire unsold and, when a kind is asked for, of that kind.
    /// The level and text filters are accepted and not applied.
    pub fn search_auctions(&self, item_type: Option<MarketItemType>, min_level: Option<u8>, max_level: Option<u8>, search_text: Option<String>, page: usize, page_size: usize) -> (r: Vec<ClientAuction>)
        requires
            page * page_size + page_size <= usize::MAX,
        ensures
            exists|order: Seq<u64>| #[trigger] search_order(self.listings(), order, item_type)
                && is_page(r@, self.listings(), order, page as int, page_size as int),
    {
        let ids = self.select_ids(item_type, None);
        let r = self.page_of(ids, page, page_size);
        proof {
            let order = choose|order: Seq<u64>| {
                &&& order.no_duplicates()
                &&& forall|k: u64| order.contains(k) <==> ids@.contains(k)
                &&& forall|i: int, j: int| 0 <= i < j < order.len() ==> self.auctions@[order[i]].consignment_date
                    >= self.auctions@[order[j]].consignment_date
                &&& #[trigger] is_page(r@, self.auctions@, order, page as int, page_size as int)
            };
            assert(search_order(self.listings(), order, item_type));
        }
        r
    }

    /// Page `page` of one seller's entries, newest first.
    pub fn get_user_auctions(&self, user_index: i32, page: usize, page_size: usize) -> (r: Vec<ClientAuction>)
        requires
            page * page_size + page_size <= usize::MAX,
        ensures
            exists|order: Seq<u64>| #[trigger] seller_order(self.listings(), order, user_index)
                && is_page(r@, self.listings(), order, page as int, page_size as int),
    {
        let ids = self.select_ids(None, Some(user_index));
        let r = self.page_of(ids, page, page_size);
        proof {
            let order = choose|order: Seq<u64>| {
                &&& order.no_duplicates()
                &&& forall|k: u64| order.contains(k) <==> ids@.contains(k)
                &&& forall|i: int, j: int| 0 <= i < j < order.len() ==> self.auctions@[order[i]].consignment_date
                    >= self.auctions@[order[j]].consignment_date
                &&& #[trigger] is_page(r@, self.auctions@, order, page as int, page_size as int)
            };
            assert(seller_order(self.listings(), order, user_index));
        }
        r
    }
}

} // verus!

verus! {

/// Every listed entry's expiry check can be computed at `now`.
pub open spec fn expiries_fit(m: Map<u64, AuctionInfo>, duration_hours: u64, now: u64) -> bool {
    forall|k: u64| #[trigger] m.contains_key(k) ==> expiry_fits(m[k], duration_hours, now)
}

/// Every entry after an expiry check at `now`.
pub open spec fn checked_all(m: Map<u64, AuctionInfo>, duration_hours: u64, now: u64) -> Map<u64, AuctionInfo> {
    m.map_values(|a: AuctionInfo| expiry_checked(a, duration_hours, now))
}

/// `r` hands back, one each, the entries of `m` listed under `gone`.
pub open spec fn hands_back(r: Seq<(u64, i32, UserItemData)>, m: Map<u64, AuctionInfo>, gone: Seq<u64>) -> bool {
    &&& r.len() == gone.len()
    &&& forall|j: int| 0 <= j < r.len() ==> {
        let a = m[#[trigger] gone[j]];
        &&& r[j].0 == a.auction_id
        &&& r[j].1 == a.seller_index
        &&& same_item(r[j].2, a.item)
    }
}

impl AuctionHouse {
    /// Checks every entry for expiry at `now`. Entries that expired without
    /// a sale or a bid leave the market and come back as (id, seller, item),
    /// in the map's order; the others stay, checked.
    pub fn process_expired_auctions(&mut self, now: u64) -> (r: Vec<(u64, i32, UserItemData)>)
        requires
            expiries_fit(old(self).listings(), old(self).auction_duration_hours, now),
        ensures
            final(self).next_auction_id == old(self).next_auction_id,
            final(self).auction_duration_hours == old(self).auction_duration_hours,
            final(self).consignment_fee_percent == old(self).consignment_fee_percent,
            final(self).listing_fee == old(self).listing_fee,
            forall|k: u64| #[trigger] final(self).listings().contains_key(k) <==> old(self).listings().contains_key(k)
                && !returned_to_seller(expiry_checked(old(self).listings()[k], old(self).auction_duration_hours, now)),
            forall|k: u64| #[trigger] final(self).listings().contains_key(k) ==> final(self).listings()[k] == expiry_checked(
                old(self).listings()[k],
                old(self).auction_duration_hours,
                now,
            ),
            exists|gone: Seq<u64>| {
                &&& gone.no_duplicates()
                &&& forall|k: u64| gone.contains(k) <==> old(self).listings().contains_key(k) && returned_to_seller(
                    expiry_checked(old(self).listings()[k], old(self).auction_duration_hours, now),
                )
                &&& #[trigger] hands_back(r@, checked_all(old(self).listings(), old(self).auction_duration_hours, now), gone)
            },
    {
        let ks = keys_of(&self.auctions);
        let duration = self.auction_duration_hours;
        let ghost start = self.auctions@;
        let ghost checked = checked_all(start, duration, now);
        let mut expired_items: Vec<(u64, i32, UserItemData)> = Vec::new();
        let mut to_remove: Vec<u64> = Vec::new();
        let mut i: usize = 0;
        while i < ks.len()
            invariant
                0 <= i <= ks@.len(),
                ks@.no_duplicates(),
                forall|k: u64| ks@.contains(k) <==> start.contains_key(k),
                self.auctions@.dom() == start.dom(),
                self.next_auction_id == old(self).next_auction_id,
                self.auction_duration_hours == duration,
                self.consignment_fee_percent == old(self).consignment_fee_percent,
                self.listing_fee == old(self).listing_fee,
                duration == old(self).auction_duration_hours,
                start == old(self).auctions@,
                checked == checked_all(start, duration, now),
                expiries_fit(start, duration, now),
                forall|j: int| 0 <= j < i ==> self.auctions@[#[trigger] ks@[j]] == checked[ks@[j]],
                forall|j: int| i <= j < ks@.len() ==> self.auctions@[#[trigger] ks@[j]] == start[ks@[j]],
                to_remove@.no_duplicates(),
                forall|k: u64| #[trigger] to_remove@.contains(k) <==> ks@.take(i as int).contains(k) && returned_to_seller(checked[k]),
                hands_back(expired_items@, checked, to_remove@),
            decreases ks@.len() - i,
        {
            let k = ks[i];
            assert(ks@.contains(k));
            assert(start.contains_key(k));
            let ghost before_remove = to_remove@;
            let ghost before_items = expired_items@;
            match map_get_mut(&mut self.auctions, &k) {
                Some(auction) => {
                    if auction.check_expired(duration, now) {
                        if !auction.sold && auction.current_buyer_index == -1 {
                            expired_items.push((auction.auction_id, auction.seller_index, auction.item.duplicate()));
                            to_remove.push(k);
                        }
                    }
                },
                None => {
                    assert(false);
                },
            }
            proof {
                assert(self.auctions@[k] == checked[k]);
                assert forall|j: int| 0 <= j < ks@.len() && j != i implies ks@[j] != k by {
                    assert(ks@[j] != ks@[i as int]);
                }
                assert(!ks@.take(i as int).contains(k)) by {
                    if ks@.take(i as int).contains(k) {
                        let w = choose|w: int| 0 <= w < i && ks@.take(i as int)[w] == k;
                        assert(ks@[w] == ks@[i as int]);
                    }
                }
                assert(!before_remove.contains(k));
                let t = ks@.take(i as int);
                let t1 = ks@.take(i as int + 1);
                assert forall|y: u64| t1.contains(y) <==> t.contains(y) || y == k by {
                    if t1.contains(y) {
                        let w = choose|w: int| 0 <= w < t1.len() && t1[w] == y;
                        if w < i {
                            assert(t[w] == y);
                        }
                    }
                    if t.contains(y) {
                        let w = choose|w: int| 0 <= w < t.len() && t[w] == y;
                        assert(t1[w] == y);
                    }
                    if y == k {
                        assert(t1[i as int] == k);
                    }
                }
                let pushed = to_remove@.len() > before_remove.len();
                assert(pushed == returned_to_seller(checked[k]));
                assert forall|y: u64| #[trigger] to_remove@.contains(y) <==> before_remove.contains(y) || (pushed && y == k) by {
                    if to_remove@.contains(y) && !before_remove.contains(y) {
                        let w = choose|w: int| 0 <= w < to_remove@.len() && to_remove@[w] == y;
                        if w < before_remove.len() {
                            assert(before_remove[w] == y);
                        }
                    }
                    if before_remove.contains(y) {
                        let w = choose|w: int| 0 <= w < before_remove.len() && before_remove[w] == y;
                        assert(to_remove@[w] == y);
                    }
                    if pushed && y == k {
                        assert(to_remove@[before_remove.len() as int] == k);
                    }
                }
                if pushed {
                    assert forall|a: int, b: int| 0 <= a < to_remove@.len() && 0 <= b < to_remove@.len() && a != b implies to_remove@[a]
                        != to_remove@[b] by {
                        if a < before_remove.len() && b < before_remove.len() {
                            assert(before_remove[a] != before_remove[b]);
                        } else if a < before_remove.len() {
                            assert(before_remove.contains(before_remove[a]));
                        } else {
                            assert(before_remove.contains(before_remove[b]));
                        }
                    }
                }
                assert forall|y: u64| #[trigger] to_remove@.contains(y) <==> t1.contains(y) && returned_to_seller(checked[y]) by {
                    assert(before_remove.contains(y) <==> t.contains(y) && returned_to_seller(checked[y]));
                }
            }
            i = i + 1;
        }
        let ghost middle = self.auctions@;
        proof {
            assert(ks@.take(ks@.len() as int) == ks@);
            assert forall|k: u64| #[trigger] start.contains_key(k) implies middle[k] == checked[k] by {
                assert(ks@.contains(k));
                let j = ks@.index_of(k);
                assert(ks@[j] == k);
            }
        }
        let mut j: usize = 0;
        while j < to_remove.len()
            invariant
                0 <= j <= to_remove@.len(),
                to_remove@.no_duplicates(),
                forall|k: u64| to_remove@.contains(k) ==> middle.contains_key(k),
                self.auctions@ == middle.remove_keys(to_remove@.take(j as int).to_set()),
                self.next_auction_id == old(self).next_auction_id,
                self.auction_duration_hours == old(self).auction_duration_hours,
                self.consignment_fee_percent == old(self).consignment_fee_percent,
                self.listing_fee == old(self).listing_fee,
            decreases to_remove@.len() - j,
        {
            let k = to_remove[j];
            self.auctions.remove(&k);
            proof {
                assert(to_remove@.take(j as int + 1).to_set() == to_remove@.take(j as int).to_set().insert(k)) by {
                    assert(to_remove@.take(j as int + 1) == to_remove@.take(j as int).push(k));
                    to_remove@.take(j as int).lemma_push_to_set_commute(k);
                }
                assert(self.auctions@ =~= middle.remove_keys(to_remove@.take(j as int + 1).to_set()));
            }
            j = j + 1;
        }
        proof {
            assert(to_remove@.take(to_remove@.len() as int) == to_remove@);
            assert(checked == checked_all(old(self).listings(), old(self).auction_duration_hours, now));
            assert(hands_back(expired_items@, checked_all(old(self).listings(), old(self).auction_duration_hours, now), to_remove@));
            assert forall|k: u64| #[trigger] self.listings().contains_key(k) <==> old(self).listings().contains_key(k)
                && !returned_to_seller(expiry_checked(old(self).listings()[k], old(self).auction_duration_hours, now)) by {
                if old(self).listings().contains_key(k) {
                    assert(ks@.contains(k));
                    assert(to_remove@.contains(k) <==> to_remove@.to_set().contains(k));
                }
            }
        }
        expired_items
    }
}

} // verus!

verus! {

/// An accepted bid raises the current bid by at least a tenth of it and
/// names the bidder; price, seller and item stay.
pub proof fn law_bids_only_rise(a: AuctionInfo, buyer_index: i32, bid_amount: u32)
    requires
        bid_accepted(a, bid_amount),
    ensures
        with_bid(a, buyer_index, bid_amount).current_bid > a.current_bid,
        with_bid(a, buyer_index, bid_amount).current_bid >= a.current_bid + a.current_bid / 10,
        with_bid(a, buyer_index, bid_amount).current_buyer_index == buyer_index,
        with_bid(a, buyer_index, bid_amount).price == a.price,
        with_bid(a, buyer_index, bid_amount).seller_index == a.seller_index,
        with_bid(a, buyer_index, bid_amount).item == a.item,
{
}

/// Once expired, an entry stays as it is under later checks.
pub proof fn law_expiry_sticks(a: AuctionInfo, duration_hours: u64, first: u64, later: u64)
    requires
        expiry_checked(a, duration_hours, first).expired,
    ensures
        expiry_checked(expiry_checked(a, duration_hours, first), duration_hours, later) == expiry_checked(
            a,
            duration_hours,
            first,
        ),
{
}

/// A fresh listing can be cancelled by its seller, and cancelling it right
/// away leaves the market as it was before the listing.
pub proof fn law_fresh_listing_cancels(m: Map<u64, AuctionInfo>, a: AuctionInfo, auction_id: u64, seller_index: i32, item: UserItemData, price: u32, item_type: MarketItemType, now: u64)
    requires
        is_new_listing(a, auction_id, seller_index, item, price, item_type, now),
        !m.contains_key(auction_id),
    ensures
        a.seller_index == seller_index && !a.sold && a.current_buyer_index == -1,
        m.insert(auction_id, a).remove(auction_id) == m,
{
    assert(m.insert(auction_id, a).remove(auction_id) =~= m);
}

} // verus!
