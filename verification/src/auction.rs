//! The auction pallet: items (NFTs and land spots) are put up for auction
//! for a fixed number of blocks, signed accounts bid with reserved funds,
//! and at the end block the highest bid pays the seller and receives the
//! item.
//!
//! Reserves, transfers and item hand-overs happen in the runtime's balances,
//! NFT and continuum pallets. A call returns them in the order the pallet
//! performs them; the runtime carries them out in that order and stops at
//! the first that fails, which then ends the call with its error. The
//! pallet's own state changes only when the call succeeds.

use vstd::prelude::*;
use crate::keyed_map::{KeyedMap, MapKey};
use crate::primitives::{AccountId, Balance, Origin, ensure_signed, signer_of};

verus! {

/// Identifier of an auction.
pub type AuctionId = u64;

/// A block height.
pub type BlockNumber = u32;

/// Identifier of an NFT asset.
pub type AssetId = u64;

/// Identifier of a metaverse country.
pub type CountryId = u64;

/// The kind of item an auction sells.
#[derive(Clone, Copy, Debug, PartialEq, Eq, Structural)]
pub enum ItemId {
    NFT(AssetId),
    Spot(u64, CountryId),
    Country(CountryId),
    Block(u64),
}

/// An auction: the current bid (bidder and price), the block it starts at
/// and the block it ends at, if it ends.
#[derive(Clone, Copy, Debug, PartialEq, Eq)]
pub struct AuctionInfo {
    pub bid: Option<(AccountId, Balance)>,
    pub start: BlockNumber,
    pub end: Option<BlockNumber>,
}

/// What an auction sells and to whom the proceeds go.
#[derive(Clone, Copy, Debug, PartialEq, Eq, Structural)]
pub struct AuctionItem {
    pub item_id: ItemId,
    pub recipient: AccountId,
    pub initial_amount: Balance,
    /// The current amount for sale.
    pub amount: Balance,
    pub start_time: BlockNumber,
    pub end_time: BlockNumber,
}

/// How the end of an auction changes after a bid.
#[derive(Clone, Copy, Debug, PartialEq, Eq, Structural)]
pub enum Change {
    NoChange,
    NewValue(Option<BlockNumber>),
}

/// The bid handler's answer to a new bid.
#[derive(Clone, Copy, Debug, PartialEq, Eq, Structural)]
pub struct OnNewBidResult {
    pub accept_bid: bool,
    pub auction_end_change: Change,
}

/// What the NFT pallet knows of an asset put up for auction.
#[derive(Clone, Copy, Debug, PartialEq, Eq, Structural)]
pub enum NftLookup {
    /// The asset does not exist.
    AssetNotFound,
    /// The asset's class does not exist.
    ClassNotFound,
    /// The class's owner and whether its tokens can be transferred.
    Class { owner: AccountId, transferable: bool },
}

/// Why a call was refused.
#[derive(Clone, Copy, Debug, PartialEq, Eq, Structural)]
pub enum Error {
    /// The origin is not a signed account.
    BadOrigin,
    AuctionNotExist,
    AssetIsNotExist,
    AuctionNotStarted,
    AuctionIsExpired,
    BidNotAccepted,
    InvalidBidPrice,
    NoAvailableAuctionId,
    NoPermissionToCreateAuction,
    AuctionTypeIsNotSupported,
    /// The bidder's free balance is below the bid.
    InsufficientFreeBalance,
    /// The auction has no item.
    AuctionItemNotExist,
}

/// What the pallet reports.
#[derive(Clone, Copy, Debug, PartialEq, Eq, Structural)]
pub enum Event {
    /// A bid is placed: auction, bidder, price.
    Bid(AuctionId, AccountId, Balance),
    /// An item is put up for auction: auction, seller, initial and current amount.
    NewAuctionItem(AuctionId, AccountId, Balance, Balance),
    /// An auction was settled: auction, winner, price.
    AuctionFinalized(AuctionId, AccountId, Balance),
}

/// An operation the runtime carries out for the pallet.
#[derive(Clone, Copy, Debug, PartialEq, Eq, Structural)]
pub enum AuctionOp {
    /// Reserve `amount` of `who`'s free balance.
    Reserve { who: AccountId, amount: Balance },
    /// Return up to `amount` of `who`'s reserved balance to the free balance.
    Unreserve { who: AccountId, amount: Balance },
    /// Transfer `amount` from `from` to `to`, keeping `from` alive.
    Transfer { from: AccountId, to: AccountId, amount: Balance },
    /// Hand the NFT `asset_id` from `from` to `to`.
    TransferNft { from: AccountId, to: AccountId, asset_id: AssetId },
    /// Hand the land spot `spot_id` of `country_id` from `from` to `to`.
    TransferSpot { spot_id: u64, from: AccountId, to: AccountId, country_id: CountryId },
}

/// The operations of a call, in order, and its outcome.
#[derive(Debug, PartialEq, Eq)]
pub struct Dispatched {
    pub ops: Vec<AuctionOp>,
    pub result: Result<Event, Error>,
}

/// The settlement of an ended auction that had a bid. The runtime releases
/// the reserve, pays the seller and hands the item over, in that order; when
/// the payment or the hand-over fails it stops there and the auction is
/// settled without an event, otherwise `finalized` is reported.
#[derive(Clone, Copy, Debug, PartialEq, Eq, Structural)]
pub struct Settlement {
    pub auction_id: AuctionId,
    pub unreserve: AuctionOp,
    pub payment: AuctionOp,
    /// The hand-over of the item, for NFTs and spots.
    pub delivery: Option<AuctionOp>,
    pub finalized: Option<Event>,
}

/// The abstract state of the pallet.
#[verifier::ext_equal]
pub struct AuctionView {
    /// How many blocks an auction runs.
    pub auction_time_to_close: BlockNumber,
    pub auctions: Map<AuctionId, AuctionInfo>,
    pub auction_items: Map<AuctionId, AuctionItem>,
    /// The id the next auction gets.
    pub auctions_index: AuctionId,
    /// The auctions indexed by end block.
    pub auction_end_time: Set<(BlockNumber, AuctionId)>,
}

impl AuctionView {
    /// The end-block index lists exactly the auctions that end, under their
    /// end block; every auction has an item; auction ids are below the index.
    pub open spec fn well_formed(self) -> bool {
        &&& forall|b: BlockNumber, id: AuctionId| #[trigger]
            self.auction_end_time.contains((b, id)) ==> self.auctions.contains_key(id)
                && self.auctions[id].end == Some(b)
        &&& forall|id: AuctionId| #[trigger]
            self.auctions.contains_key(id) ==> {
                &&& self.auction_items.contains_key(id)
                &&& id < self.auctions_index
                &&& self.auctions[id].end matches Some(b) ==> self.auction_end_time.contains((b, id))
            }
        &&& forall|id: AuctionId| #[trigger]
            self.auction_items.contains_key(id) ==> id < self.auctions_index
    }

    /// The auctions that end at block `now`.
    pub open spec fn ending_at(self, now: BlockNumber) -> Set<AuctionId> {
        Set::new(|id: AuctionId| self.auction_end_time.contains((now, id)))
    }
}

/// A bid reaches the check of the auction's end, which requires an end.
pub open spec fn bid_reaches_end(
    s: AuctionView,
    origin: Origin,
    id: AuctionId,
    now: BlockNumber,
) -> bool {
    signer_of(origin) is Some && s.auctions.contains_key(id) && now >= s.auctions[id].start
}

/// Why a bid of `value` is refused, if it is.
pub open spec fn bid_error(
    s: AuctionView,
    origin: Origin,
    id: AuctionId,
    value: Balance,
    now: BlockNumber,
    handler_accepts: bool,
    free_balance: Balance,
) -> Option<Error> {
    if signer_of(origin) is None {
        Some(Error::BadOrigin)
    } else if !s.auctions.contains_key(id) {
        Some(Error::AuctionNotExist)
    } else if now < s.auctions[id].start {
        Some(Error::AuctionNotStarted)
    } else if now >= s.auctions[id].end->0 {
        Some(Error::AuctionIsExpired)
    } else if (match s.auctions[id].bid {
        Some((_, price)) => value <= price,
        None => value == 0,
    }) {
        Some(Error::InvalidBidPrice)
    } else if !handler_accepts {
        Some(Error::BidNotAccepted)
    } else if free_balance < value {
        Some(Error::InsufficientFreeBalance)
    } else if !s.auction_items.contains_key(id) {
        Some(Error::AuctionItemNotExist)
    } else {
        None
    }
}

/// The reserve operations of an accepted bid: the previous bid's reserve is
/// released (when it is not zero), then the new bid is reserved.
pub open spec fn bid_ops(last_bid: Option<(AccountId, Balance)>, who: AccountId, value: Balance) -> Seq<
    AuctionOp,
> {
    let release = match last_bid {
        Some((last_bidder, price)) => if price != 0 {
            seq![AuctionOp::Unreserve { who: last_bidder, amount: price }]
        } else {
            seq![]
        },
        None => seq![],
    };
    release.push(AuctionOp::Reserve { who, amount: value })
}

/// `bid`: the new state, the operations and the outcome.
pub open spec fn bid_spec(
    s: AuctionView,
    origin: Origin,
    id: AuctionId,
    value: Balance,
    now: BlockNumber,
    handler_accepts: bool,
    free_balance: Balance,
) -> (AuctionView, Seq<AuctionOp>, Result<Event, Error>) {
    match bid_error(s, origin, id, value, now, handler_accepts, free_balance) {
        Some(e) => (s, seq![], Err(e)),
        None => {
            let who = signer_of(origin)->0;
            let auction = s.auctions[id];
            let item = s.auction_items[id];
            (
                AuctionView {
                    auctions: s.auctions.insert(
                        id,
                        AuctionInfo { bid: Some((who, value)), ..auction },
                    ),
                    auction_items: s.auction_items.insert(id, AuctionItem { amount: value, ..item }),
                    ..s
                },
                bid_ops(auction.bid, who, value),
                Ok(Event::Bid(id, who, value)),
            )
        },
    }
}

/// Why putting `item_id` up for auction by `who` is refused, if it is.
pub open spec fn create_auction_error(
    s: AuctionView,
    item_id: ItemId,
    who: AccountId,
    nft: NftLookup,
) -> Option<Error> {
    let item_error = match item_id {
        ItemId::NFT(_) => match nft {
            NftLookup::AssetNotFound => Some(Error::AssetIsNotExist),
            NftLookup::ClassNotFound => Some(Error::NoPermissionToCreateAuction),
            NftLookup::Class { owner, transferable } => if who != owner || !transferable {
                Some(Error::NoPermissionToCreateAuction)
            } else {
                None
            },
        },
        ItemId::Spot(_, _) => None,
        _ => Some(Error::AuctionTypeIsNotSupported),
    };
    if item_error is Some {
        item_error
    } else if s.auctions_index == u64::MAX {
        Some(Error::NoAvailableAuctionId)
    } else {
        None
    }
}

/// The state after an auction of `item_id` by `who` for `value` opens at
/// block `now` under the next auction id.
pub open spec fn opened_auction(
    s: AuctionView,
    item_id: ItemId,
    who: AccountId,
    value: Balance,
    now: BlockNumber,
) -> AuctionView {
    let id = s.auctions_index;
    let end = (now + s.auction_time_to_close) as BlockNumber;
    AuctionView {
        auctions: s.auctions.insert(id, AuctionInfo { bid: None, start: now, end: Some(end) }),
        auction_items: s.auction_items.insert(
            id,
            AuctionItem {
                item_id,
                recipient: who,
                initial_amount: value,
                amount: value,
                start_time: now,
                end_time: end,
            },
        ),
        auctions_index: (id + 1) as AuctionId,
        auction_end_time: s.auction_end_time.insert((end, id)),
        ..s
    }
}

/// The settlement of auction `id` when it ends, if it has a bid.
pub open spec fn settlement_of(s: AuctionView, id: AuctionId) -> Option<Settlement> {
    match s.auctions[id].bid {
        None => None,
        Some((bidder, price)) => {
            let item = s.auction_items[id];
            let delivery = match item.item_id {
                ItemId::NFT(asset_id) => Some(
                    AuctionOp::TransferNft { from: item.recipient, to: bidder, asset_id },
                ),
                ItemId::Spot(spot_id, country_id) => Some(
                    AuctionOp::TransferSpot { spot_id, from: item.recipient, to: bidder, country_id },
                ),
                _ => None,
            };
            Some(
                Settlement {
                    auction_id: id,
                    unreserve: AuctionOp::Unreserve { who: bidder, amount: price },
                    payment: AuctionOp::Transfer { from: bidder, to: item.recipient, amount: price },
                    delivery,
                    finalized: if delivery is Some {
                        Some(Event::AuctionFinalized(id, bidder, price))
                    } else {
                        None
                    },
                },
            )
        },
    }
}

/// The state after the auctions ending at `now` are closed.
pub open spec fn closed_at(s: AuctionView, now: BlockNumber) -> AuctionView {
    AuctionView {
        auctions: s.auctions.remove_keys(s.ending_at(now)),
        auction_end_time: s.auction_end_time.filter(|k: (BlockNumber, AuctionId)| k.0 != now),
        ..s
    }
}

/// The auction pallet's storage.
struct AuctionState {
    auction_time_to_close: BlockNumber,
    auctions: KeyedMap<AuctionId, AuctionInfo>,
    auction_items: KeyedMap<AuctionId, AuctionItem>,
    auctions_index: AuctionId,
    auction_end_time: KeyedMap<(BlockNumber, AuctionId), ()>,
}

impl View for AuctionState {
    type V = AuctionView;

    closed spec fn view(&self) -> AuctionView {
        AuctionView {
            auction_time_to_close: self.auction_time_to_close,
            auctions: self.auctions@,
            auction_items: self.auction_items@,
            auctions_index: self.auctions_index,
            auction_end_time: self.auction_end_time@.dom(),
        }
    }
}

/// The auction ids among the first `n` end-block keys that end at `now`.
pub open spec fn ids_ending_among(keys: Seq<(BlockNumber, AuctionId)>, now: BlockNumber, n: int) -> Set<
    AuctionId,
> {
    Set::new(|id: AuctionId| exists|j: int| 0 <= j < n && #[trigger] keys[j] == (now, id))
}

/// The state after the auctions in `ids`, all ending at `now`, are closed.
pub open spec fn closed_among(s: AuctionView, now: BlockNumber, ids: Set<AuctionId>) -> AuctionView {
    AuctionView {
        auctions: s.auctions.remove_keys(ids),
        auction_end_time: s.auction_end_time.filter(
            |k: (BlockNumber, AuctionId)| !(k.0 == now && ids.contains(k.1)),
        ),
        ..s
    }
}

impl AuctionState {
    /// A copy of the storage.
    fn duplicate(&self) -> (r: AuctionState)
        ensures
            r@ == self@,
    {
        AuctionState {
            auction_time_to_close: self.auction_time_to_close,
            auctions: self.auctions.duplicate(),
            auction_items: self.auction_items.duplicate(),
            auctions_index: self.auctions_index,
            auction_end_time: self.auction_end_time.duplicate(),
        }
    }

    /// A pallet whose auctions run `auction_time_to_close` blocks, with no
    /// auctions yet.
    fn new(auction_time_to_close: BlockNumber) -> (m: AuctionState)
        ensures
            m@.auction_time_to_close == auction_time_to_close,
            m@.auctions == Map::<AuctionId, AuctionInfo>::empty(),
            m@.auction_items == Map::<AuctionId, AuctionItem>::empty(),
            m@.auctions_index == 0,
            m@.auction_end_time == Set::<(BlockNumber, AuctionId)>::empty(),
            m@.well_formed(),
    {
        let m = AuctionState {
            auction_time_to_close,
            auctions: KeyedMap::new(),
            auction_items: KeyedMap::new(),
            auctions_index: 0,
            auction_end_time: KeyedMap::new(),
        };
        assert(m@.auction_end_time =~= Set::<(BlockNumber, AuctionId)>::empty());
        m
    }

    /// How many blocks an auction runs.
    fn auction_time_to_close(&self) -> (r: BlockNumber)
        ensures
            r == self@.auction_time_to_close,
    {
        self.auction_time_to_close
    }

    /// The auction `id`, if it is open.
    fn auctions(&self, id: AuctionId) -> (r: Option<AuctionInfo>)
        ensures
            r == (if self@.auctions.contains_key(id) {
                Some(self@.auctions[id])
            } else {
                None
            }),
    {
        match self.auctions.get(&id) {
            Some(a) => Some(*a),
            None => None,
        }
    }

    /// The item of auction `id`.
    fn get_auction_item(&self, id: AuctionId) -> (r: Option<AuctionItem>)
        ensures
            r == (if self@.auction_items.contains_key(id) {
                Some(self@.auction_items[id])
            } else {
                None
            }),
    {
        match self.auction_items.get(&id) {
            Some(a) => Some(*a),
            None => None,
        }
    }

    /// The id the next auction gets.
    fn auctions_index(&self) -> (r: AuctionId)
        ensures
            r == self@.auctions_index,
    {
        self.auctions_index
    }

    /// `Some(())` when auction `id` is indexed as ending at block `end`.
    fn auction_end_time(&self, end: BlockNumber, id: AuctionId) -> (r: Option<()>)
        ensures
            r is Some <==> self@.auction_end_time.contains((end, id)),
    {
        if self.auction_end_time.contains_key(&(end, id)) {
            Some(())
        } else {
            None
        }
    }

    /// Opens an auction from `start` to `end` under the next auction id.
    fn new_auction(
        &mut self,
        _recipient: AccountId,
        _initial_amount: Balance,
        start: BlockNumber,
        end: Option<BlockNumber>,
    ) -> (r: Result<AuctionId, Error>)
        ensures
            old(self)@.auctions_index == u64::MAX ==> r == Err::<AuctionId, Error>(
                Error::NoAvailableAuctionId,
            ) && final(self)@ == old(self)@,
            old(self)@.auctions_index != u64::MAX ==> r == Ok::<AuctionId, Error>(
                old(self)@.auctions_index,
            ) && final(self)@ == (AuctionView {
                auctions: old(self)@.auctions.insert(
                    old(self)@.auctions_index,
                    AuctionInfo { bid: None, start, end },
                ),
                auctions_index: (old(self)@.auctions_index + 1) as AuctionId,
                auction_end_time: match end {
                    Some(e) => old(self)@.auction_end_time.insert((e, old(self)@.auctions_index)),
                    None => old(self)@.auction_end_time,
                },
                ..old(self)@
            }),
    {
        let auction = AuctionInfo { bid: None, start, end };
        let auction_id = self.auctions_index;
        if auction_id == u64::MAX {
            return Err(Error::NoAvailableAuctionId);
        }
        let next = match auction_id.checked_add(1) {
            Some(n) => n,
            None => {
                return Err(Error::NoAvailableAuctionId);
            },
        };
        self.auctions_index = next;
        self.auctions.insert(auction_id, auction);
        if let Some(end_block) = end {
            self.auction_end_time.insert((end_block, auction_id), ());
        }
        proof {
            let o = old(self)@;
            let expected = match end {
                Some(e) => o.auction_end_time.insert((e, o.auctions_index)),
                None => o.auction_end_time,
            };
            assert(self@.auction_end_time =~= expected);
        }
        Ok(auction_id)
    }

    /// Puts `item_id` up for auction by `recipient` for `initial_amount`,
    /// opening at block `now` for the configured number of blocks. An NFT
    /// must exist and belong to a transferable class owned by `recipient`;
    /// `nft` is what the NFT pallet knows of it. Spots need no check; other
    /// items cannot be auctioned.
    fn create_auction(
        &mut self,
        item_id: ItemId,
        recipient: AccountId,
        initial_amount: Balance,
        now: BlockNumber,
        nft: NftLookup,
    ) -> (r: Result<(AuctionId, Event), Error>)
        requires
            now + old(self)@.auction_time_to_close <= u32::MAX,
        ensures
            create_auction_error(old(self)@, item_id, recipient, nft) matches Some(e) ==> r == Err::<
                (AuctionId, Event),
                Error,
            >(e) && final(self)@ == old(self)@,
            create_auction_error(old(self)@, item_id, recipient, nft) is None ==> r == Ok::<
                (AuctionId, Event),
                Error,
            >(
                (
                    old(self)@.auctions_index,
                    Event::NewAuctionItem(
                        old(self)@.auctions_index,
                        recipient,
                        initial_amount,
                        initial_amount,
                    ),
                ),
            ) && final(self)@ == opened_auction(old(self)@, item_id, recipient, initial_amount, now),
            old(self)@.well_formed() ==> final(self)@.well_formed(),
    {
        match item_id {
            ItemId::NFT(_) => {
                match nft {
                    NftLookup::AssetNotFound => {
                        return Err(Error::AssetIsNotExist);
                    },
                    NftLookup::ClassNotFound => {
                        return Err(Error::NoPermissionToCreateAuction);
                    },
                    NftLookup::Class { owner, transferable } => {
                        if recipient != owner {
                            return Err(Error::NoPermissionToCreateAuction);
                        }
                        if !transferable {
                            return Err(Error::NoPermissionToCreateAuction);
                        }
                    },
                }
            },
            ItemId::Spot(_, _) => {},
            _ => {
                return Err(Error::AuctionTypeIsNotSupported);
            },
        }
        let start_time = now;
        let end_time: BlockNumber = start_time + self.auction_time_to_close;
        let ghost before = self@;
        let auction_id = match self.new_auction(recipient, initial_amount, start_time, Some(end_time)) {
            Ok(id) => id,
            Err(e) => {
                return Err(e);
            },
        };
        let new_auction_item = AuctionItem {
            item_id,
            recipient,
            initial_amount,
            amount: initial_amount,
            start_time,
            end_time,
        };
        self.auction_items.insert(auction_id, new_auction_item);
        assert(self@ =~= opened_auction(before, item_id, recipient, initial_amount, now));
        proof {
            if before.well_formed() {
                let t = self@;
                let id = before.auctions_index;
                assert forall|b: BlockNumber, i: AuctionId| #[trigger]
                    t.auction_end_time.contains((b, i)) implies t.auctions.contains_key(i)
                    && t.auctions[i].end == Some(b) by {
                    if (b, i) != (end_time, id) {
                        assert(before.auction_end_time.contains((b, i)));
                        assert(i < before.auctions_index);
                    }
                }
                assert forall|i: AuctionId| #[trigger] t.auctions.contains_key(i) implies {
                    &&& t.auction_items.contains_key(i)
                    &&& i < t.auctions_index
                    &&& t.auctions[i].end matches Some(b) ==> t.auction_end_time.contains((b, i))
                } by {
                    if i != id {
                        assert(before.auctions.contains_key(i));
                    }
                }
                assert forall|i: AuctionId| #[trigger] t.auction_items.contains_key(i) implies i
                    < t.auctions_index by {
                    if i != id {
                        assert(before.auction_items.contains_key(i));
                    }
                }
            }
        }
        Ok(
            (
                auction_id,
                Event::NewAuctionItem(auction_id, recipient, initial_amount, initial_amount),
            ),
        )
    }

    /// Closes auction `id`: removes it and its end-block index entry. An
    /// auction without an end block is left in place.
    fn remove_auction(&mut self, id: AuctionId)
        ensures
            final(self)@ == (match (if old(self)@.auctions.contains_key(id) {
                old(self)@.auctions[id].end
            } else {
                None
            }) {
                Some(end) => AuctionView {
                    auctions: old(self)@.auctions.remove(id),
                    auction_end_time: old(self)@.auction_end_time.remove((end, id)),
                    ..old(self)@
                },
                None => old(self)@,
            }),
    {
        let auction = match self.auctions.get(&id) {
            Some(a) => *a,
            None => {
                return ;
            },
        };
        if let Some(end_block) = auction.end {
            self.auction_end_time.remove(&(end_block, id));
            self.auctions.remove(&id);
            assert(self@.auction_end_time =~= old(self)@.auction_end_time.remove((end_block, id)));
        }
    }

    /// Moves the reserve from the previous bid to the new one and records
    /// the new bid's price as the item's amount.
    fn auction_bid_handler(
        &mut self,
        _now: BlockNumber,
        id: AuctionId,
        new_bid: (AccountId, Balance),
        last_bid: Option<(AccountId, Balance)>,
    ) -> (r: (Vec<AuctionOp>, Result<(), Error>))
        ensures
            new_bid.1 == 0 ==> r.0@ == Seq::<AuctionOp>::empty() && r.1 == Err::<(), Error>(
                Error::InvalidBidPrice,
            ) && final(self)@ == old(self)@,
            new_bid.1 != 0 && !old(self)@.auction_items.contains_key(id) ==> r.0@ == Seq::<
                AuctionOp,
            >::empty() && r.1 == Err::<(), Error>(Error::AuctionItemNotExist) && final(self)@
                == old(self)@,
            new_bid.1 != 0 && old(self)@.auction_items.contains_key(id) ==> r.0@ == bid_ops(
                last_bid,
                new_bid.0,
                new_bid.1,
            ) && r.1 == Ok::<(), Error>(()) && final(self)@ == (AuctionView {
                auction_items: old(self)@.auction_items.insert(
                    id,
                    AuctionItem { amount: new_bid.1, ..old(self)@.auction_items[id] },
                ),
                ..old(self)@
            }),
    {
        let mut ops: Vec<AuctionOp> = Vec::new();
        let (new_bidder, new_bid_price) = new_bid;
        if new_bid_price == 0 {
            return (ops, Err(Error::InvalidBidPrice));
        }
        let mut auction_item = match self.auction_items.get(&id) {
            Some(item) => *item,
            None => {
                return (ops, Err(Error::AuctionItemNotExist));
            },
        };
        if let Some((last_bidder, last_bid_price)) = last_bid {
            if last_bid_price != 0 {
                ops.push(AuctionOp::Unreserve { who: last_bidder, amount: last_bid_price });
            }
        }
        ops.push(AuctionOp::Reserve { who: new_bidder, amount: new_bid_price });
        auction_item.amount = new_bid_price;
        self.auction_items.insert(id, auction_item);
        (ops, Ok(()))
    }

    /// Places a bid of `value` on auction `id` at block `now`. The auction
    /// must have started and not ended, the bid must exceed the current one
    /// (or be non-zero when there is none), the bid handler must accept it
    /// (`handler_accepts`) and the bidder's free balance (`free_balance`)
    /// must cover it.
    fn bid(
        &mut self,
        origin: Origin,
        id: AuctionId,
        value: Balance,
        now: BlockNumber,
        handler_accepts: bool,
        free_balance: Balance,
    ) -> (r: Dispatched)
        requires
            bid_reaches_end(old(self)@, origin, id, now) ==> old(self)@.auctions[id].end is Some,
        ensures
            (final(self)@, r.ops@, r.result) == bid_spec(
                old(self)@,
                origin,
                id,
                value,
                now,
                handler_accepts,
                free_balance,
            ),
            old(self)@.well_formed() ==> final(self)@.well_formed(),
    {
        let ops: Vec<AuctionOp> = Vec::new();
        let from = match ensure_signed(origin) {
            Some(who) => who,
            None => {
                return Dispatched { ops, result: Err(Error::BadOrigin) };
            },
        };
        let mut auction = match self.auctions.get(&id) {
            Some(a) => *a,
            None => {
                return Dispatched { ops, result: Err(Error::AuctionNotExist) };
            },
        };
        let block_number = now;
        if block_number < auction.start {
            return Dispatched { ops, result: Err(Error::AuctionNotStarted) };
        }
        let auction_end = auction.end;
        if block_number >= auction_end.unwrap() {
            return Dispatched { ops, result: Err(Error::AuctionIsExpired) };
        }
        match auction.bid {
            Some(current_bid) => {
                if value <= current_bid.1 {
                    return Dispatched { ops, result: Err(Error::InvalidBidPrice) };
                }
            },
            None => {
                if value == 0 {
                    return Dispatched { ops, result: Err(Error::InvalidBidPrice) };
                }
            },
        }
        if !handler_accepts {
            return Dispatched { ops, result: Err(Error::BidNotAccepted) };
        }
        if free_balance < value {
            return Dispatched { ops, result: Err(Error::InsufficientFreeBalance) };
        }
        let (ops, handled) = self.auction_bid_handler(block_number, id, (from, value), auction.bid);
        if let Err(e) = handled {
            return Dispatched { ops, result: Err(e) };
        }
        auction.bid = Some((from, value));
        self.auctions.insert(id, auction);
        proof {
            let o = old(self)@;
            if o.well_formed() {
                let t = self@;
                assert forall|b: BlockNumber, i: AuctionId| #[trigger]
                    t.auction_end_time.contains((b, i)) implies t.auctions.contains_key(i)
                    && t.auctions[i].end == Some(b) by {
                    assert(o.auction_end_time.contains((b, i)));
                }
                assert forall|i: AuctionId| #[trigger] t.auctions.contains_key(i) implies {
                    &&& t.auction_items.contains_key(i)
                    &&& i < t.auctions_index
                    &&& t.auctions[i].end matches Some(b) ==> t.auction_end_time.contains((b, i))
                } by {
                    assert(o.auctions.contains_key(i));
                }
                assert forall|i: AuctionId| #[trigger] t.auction_items.contains_key(i) implies i
                    < t.auctions_index by {
                    assert(o.auction_items.contains_key(i));
                }
            }
        }
        Dispatched { ops, result: Ok(Event::Bid(id, from, value)) }
    }

    /// Puts `item_id` up for auction by the signer for `value`, opening at
    /// block `now` for the configured number of blocks (see
    /// `create_auction`). The item announcement is reported twice: once when
    /// the auction is created and once by the call.
    fn create_new_auction(
        &mut self,
        origin: Origin,
        item_id: ItemId,
        value: Balance,
        now: BlockNumber,
        nft: NftLookup,
    ) -> (r: Result<Vec<Event>, Error>)
        requires
            signer_of(origin) is Some ==> now + old(self)@.auction_time_to_close <= u32::MAX,
        ensures
            signer_of(origin) is None ==> r == Err::<Vec<Event>, Error>(Error::BadOrigin)
                && final(self)@ == old(self)@,
            signer_of(origin) matches Some(who) ==> {
                &&& create_auction_error(old(self)@, item_id, who, nft) matches Some(e) ==> r
                    == Err::<Vec<Event>, Error>(e) && final(self)@ == old(self)@
                &&& create_auction_error(old(self)@, item_id, who, nft) is None ==> {
                    let announced = Event::NewAuctionItem(old(self)@.auctions_index, who, value, value);
                    &&& r matches Ok(events) && events@ == seq![announced, announced]
                    &&& final(self)@ == opened_auction(old(self)@, item_id, who, value, now)
                }
            },
            old(self)@.well_formed() ==> final(self)@.well_formed(),
    {
        let from = match ensure_signed(origin) {
            Some(who) => who,
            None => {
                return Err(Error::BadOrigin);
            },
        };
        let start_time = now;
        let (auction_id, created) = match self.create_auction(item_id, from, value, start_time, nft) {
            Ok(v) => v,
            Err(e) => {
                return Err(e);
            },
        };
        let mut events: Vec<Event> = Vec::new();
        events.push(created);
        events.push(Event::NewAuctionItem(auction_id, from, value, value));
        Ok(events)
    }

    /// Closes the auctions that end at block `now` and returns the
    /// settlement of each that had a bid.
    fn on_finalize(&mut self, now: BlockNumber) -> (r: Vec<Settlement>)
        requires
            old(self)@.well_formed(),
        ensures
            final(self)@ == closed_at(old(self)@, now),
            final(self)@.well_formed(),
            forall|i: int|
                0 <= i < r@.len() ==> old(self)@.ending_at(now).contains(#[trigger] r@[i].auction_id)
                    && settlement_of(old(self)@, r@[i].auction_id) == Some(r@[i]),
            forall|id: AuctionId|
                old(self)@.ending_at(now).contains(id) && old(self)@.auctions[id].bid is Some
                    ==> exists|i: int| 0 <= i < r@.len() && #[trigger] r@[i].auction_id == id,
            forall|i: int, j: int|
                0 <= i < r@.len() && 0 <= j < r@.len() && i != j ==> #[trigger] r@[i].auction_id
                    != #[trigger] r@[j].auction_id,
    {
        let ghost s0 = self@;
        let keys = self.auction_end_time.keys();
        let mut settlements: Vec<Settlement> = Vec::new();
        let mut i: usize = 0;
        assert(ids_ending_among(keys@, now, 0) =~= Set::<AuctionId>::empty());
        assert forall|j: int| 0 <= j < keys@.len() implies s0.auction_end_time.contains(
            #[trigger] keys@[j],
        ) by {
            assert(keys@[j].key_view() == keys@[j]);
        }
        assert forall|k: (BlockNumber, AuctionId)| s0.auction_end_time.contains(k) implies exists|
            j: int,
        | 0 <= j < keys@.len() && #[trigger] keys@[j] == k by {
            assert(k.key_view() == k);
            let j = choose|j: int| 0 <= j < keys@.len() && #[trigger] keys@[j].key_view() == k.key_view();
            assert(keys@[j].key_view() == keys@[j]);
        }
        assert forall|a: int, b: int|
            0 <= a < keys@.len() && 0 <= b < keys@.len() && a != b implies #[trigger] keys@[a]
            != #[trigger] keys@[b] by {
            assert(keys@[a].key_view() == keys@[a]);
            assert(keys@[b].key_view() == keys@[b]);
        }
        assert(self@ =~= closed_among(s0, now, Set::<AuctionId>::empty()));
        while i < keys.len()
            invariant
                s0 == old(self)@,
                s0.well_formed(),
                forall|j: int| 0 <= j < keys@.len() ==> s0.auction_end_time.contains(#[trigger] keys@[j]),
                forall|k: (BlockNumber, AuctionId)|
                    s0.auction_end_time.contains(k) ==> exists|j: int|
                        0 <= j < keys@.len() && #[trigger] keys@[j] == k,
                forall|a: int, b: int|
                    0 <= a < keys@.len() && 0 <= b < keys@.len() && a != b ==> #[trigger] keys@[a]
                        != #[trigger] keys@[b],
                i <= keys@.len(),
                self@ == closed_among(s0, now, ids_ending_among(keys@, now, i as int)),
                forall|k: int|
                    0 <= k < settlements@.len() ==> ids_ending_among(keys@, now, i as int).contains(
                        #[trigger] settlements@[k].auction_id,
                    ) && settlement_of(s0, settlements@[k].auction_id) == Some(settlements@[k]),
                forall|id: AuctionId|
                    ids_ending_among(keys@, now, i as int).contains(id) && s0.auctions[id].bid is Some
                        ==> exists|k: int|
                        0 <= k < settlements@.len() && #[trigger] settlements@[k].auction_id == id,
                forall|a: int, b: int|
                    0 <= a < settlements@.len() && 0 <= b < settlements@.len() && a != b
                        ==> #[trigger] settlements@[a].auction_id != #[trigger] settlements@[b].auction_id,
            decreases keys@.len() - i,
        {
            let (end_block, auction_id) = keys[i];
            let ghost done = ids_ending_among(keys@, now, i as int);
            let ghost done_next = ids_ending_among(keys@, now, i + 1);
            if end_block != now {
                assert(done_next =~= done) by {
                    assert forall|id: AuctionId| done_next.contains(id) implies done.contains(id) by {
                        let j = choose|j: int| 0 <= j < i + 1 && #[trigger] keys@[j] == (now, id);
                        assert(j != i);
                    }
                }
            } else {
                assert(!done.contains(auction_id)) by {
                    if done.contains(auction_id) {
                        let j = choose|j: int| 0 <= j < i && #[trigger] keys@[j] == (now, auction_id);
                        assert(keys@[j] == keys@[i as int]);
                    }
                }
                assert(done_next =~= done.insert(auction_id)) by {
                    assert(keys@[i as int] == (now, auction_id));
                    assert forall|id: AuctionId| done_next.contains(id) implies done.insert(
                        auction_id,
                    ).contains(id) by {
                        let j = choose|j: int| 0 <= j < i + 1 && #[trigger] keys@[j] == (now, id);
                        if j != i {
                            assert(done.contains(id));
                        }
                    }
                }
                assert(s0.auction_end_time.contains((now, auction_id)));
                self.auction_end_time.remove(&(now, auction_id));
                let ghost settled_before = settlements@;
                let auction = self.auctions(auction_id);
                let item = self.get_auction_item(auction_id);
                assert(s0.auctions.contains_key(auction_id));
                assert(self@.auctions.contains_key(auction_id));
                assert(auction == Some(s0.auctions[auction_id]));
                assert(item == Some(s0.auction_items[auction_id]));
                if let (Some(auction), Some(item)) = (auction, item) {
                    self.remove_auction(auction_id);
                    if let Some((bidder, price)) = auction.bid {
                        let delivery = match item.item_id {
                            ItemId::NFT(asset_id) => Some(
                                AuctionOp::TransferNft { from: item.recipient, to: bidder, asset_id },
                            ),
                            ItemId::Spot(spot_id, country_id) => Some(
                                AuctionOp::TransferSpot {
                                    spot_id,
                                    from: item.recipient,
                                    to: bidder,
                                    country_id,
                                },
                            ),
                            _ => None,
                        };
                        let finalized = if delivery.is_some() {
                            Some(Event::AuctionFinalized(auction_id, bidder, price))
                        } else {
                            None
                        };
                        settlements.push(
                            Settlement {
                                auction_id,
                                unreserve: AuctionOp::Unreserve { who: bidder, amount: price },
                                payment: AuctionOp::Transfer {
                                    from: bidder,
                                    to: item.recipient,
                                    amount: price,
                                },
                                delivery,
                                finalized,
                            },
                        );
                    }
                }
                assert(self@ =~= closed_among(s0, now, done_next));
                proof {
                    assert forall|k: int| 0 <= k < settlements@.len() implies done_next.contains(
                        #[trigger] settlements@[k].auction_id,
                    ) && settlement_of(s0, settlements@[k].auction_id) == Some(settlements@[k]) by {
                        if k < settled_before.len() {
                            assert(settlements@[k] == settled_before[k]);
                            assert(done.contains(settled_before[k].auction_id));
                        }
                    }
                    assert forall|id: AuctionId|
                        done_next.contains(id) && s0.auctions[id].bid is Some implies exists|k: int|
                        0 <= k < settlements@.len() && #[trigger] settlements@[k].auction_id == id by {
                        if id == auction_id {
                            assert(settlements@[settlements@.len() - 1].auction_id == id);
                        } else {
                            assert(done.contains(id));
                            let k = choose|k: int|
                                0 <= k < settled_before.len() && #[trigger] settled_before[k].auction_id
                                    == id;
                            assert(settlements@[k] == settled_before[k]);
                        }
                    }
                    assert forall|a: int, b: int|
                        0 <= a < settlements@.len() && 0 <= b < settlements@.len() && a != b
                            implies #[trigger] settlements@[a].auction_id
                        != #[trigger] settlements@[b].auction_id by {
                        if a < settled_before.len() && b < settled_before.len() {
                            assert(settlements@[a] == settled_before[a]);
                            assert(settlements@[b] == settled_before[b]);
                        } else if a < settled_before.len() {
                            assert(settlements@[a] == settled_before[a]);
                            assert(done.contains(settled_before[a].auction_id));
                        } else if b < settled_before.len() {
                            assert(settlements@[b] == settled_before[b]);
                            assert(done.contains(settled_before[b].auction_id));
                        }
                    }
                }
            }
            i = i + 1;
        }
        let ghost all = ids_ending_among(keys@, now, keys@.len() as int);
        assert(all =~= s0.ending_at(now)) by {
            assert forall|id: AuctionId| s0.ending_at(now).contains(id) implies all.contains(id) by {
                let j = choose|j: int| 0 <= j < keys@.len() && #[trigger] keys@[j] == (now, id);
            }
        }
        assert(self@ =~= closed_at(s0, now));
        settlements
    }
}

/// The auction pallet's state. Its storage is always well formed: the
/// end-block index lists exactly the auctions that end, every auction has an
/// item, and every id is below the next auction id.
pub struct Module {
    state: AuctionState,
}

impl View for Module {
    type V = AuctionView;

    closed spec fn view(&self) -> AuctionView {
        self.state@
    }
}

impl Module {
    #[verifier::type_invariant]
    spec fn inv(&self) -> bool {
        self.state@.well_formed()
    }

    /// A pallet whose auctions run `auction_time_to_close` blocks, with no
    /// auctions yet.
    pub fn new(auction_time_to_close: BlockNumber) -> (m: Module)
        ensures
            m@.auction_time_to_close == auction_time_to_close,
            m@.auctions == Map::<AuctionId, AuctionInfo>::empty(),
            m@.auction_items == Map::<AuctionId, AuctionItem>::empty(),
            m@.auctions_index == 0,
            m@.auction_end_time == Set::<(BlockNumber, AuctionId)>::empty(),
            m@.well_formed(),
    {
        Module { state: AuctionState::new(auction_time_to_close) }
    }

    /// A copy of the pallet's state.
    pub fn duplicate(&self) -> (r: Module)
        ensures
            r@ == self@,
    {
        proof {
            use_type_invariant(self);
        }
        Module { state: self.state.duplicate() }
    }

    /// Takes the storage out, leaving an empty (well-formed) one in its place.
    fn take_state(&mut self) -> (st: AuctionState)
        ensures
            st@ == old(self)@,
            st@.well_formed(),
    {
        proof {
            use_type_invariant(&*self);
        }
        let mut st = AuctionState::new(self.state.auction_time_to_close);
        std::mem::swap(&mut st, &mut self.state);
        st
    }

    /// How many blocks an auction runs.
    pub fn auction_time_to_close(&self) -> (r: BlockNumber)
        ensures
            r == self@.auction_time_to_close,
    {
        self.state.auction_time_to_close()
    }

    /// The auction `id`, if it is open.
    pub fn auctions(&self, id: AuctionId) -> (r: Option<AuctionInfo>)
        ensures
            r == (if self@.auctions.contains_key(id) {
                Some(self@.auctions[id])
            } else {
                None
            }),
    {
        self.state.auctions(id)
    }

    /// The item of auction `id`.
    pub fn get_auction_item(&self, id: AuctionId) -> (r: Option<AuctionItem>)
        ensures
            r == (if self@.auction_items.contains_key(id) {
                Some(self@.auction_items[id])
            } else {
                None
            }),
    {
        self.state.get_auction_item(id)
    }

    /// The id the next auction gets.
    pub fn auctions_index(&self) -> (r: AuctionId)
        ensures
            r == self@.auctions_index,
    {
        self.state.auctions_index()
    }

    /// `Some(())` when auction `id` is indexed as ending at block `end`.
    pub fn auction_end_time(&self, end: BlockNumber, id: AuctionId) -> (r: Option<()>)
        ensures
            r is Some <==> self@.auction_end_time.contains((end, id)),
    {
        self.state.auction_end_time(end, id)
    }

    /// The bid handler of this pallet: every bid is accepted and the end of
    /// the auction stays.
    pub fn on_new_bid(
        _now: BlockNumber,
        _id: AuctionId,
        _new_bid: (AccountId, Balance),
        _last_bid: Option<(AccountId, Balance)>,
    ) -> (r: OnNewBidResult)
        ensures
            r == (OnNewBidResult { accept_bid: true, auction_end_change: Change::NoChange }),
    {
        OnNewBidResult { accept_bid: true, auction_end_change: Change::NoChange }
    }

    /// Places a bid of `value` on auction `id` at block `now`. The auction
    /// must have started and not ended, the bid must exceed the current one
    /// (or be non-zero when there is none), the bid handler must accept it
    /// (`handler_accepts`) and the bidder's free balance (`free_balance`)
    /// must cover it.
    pub fn bid(
        &mut self,
        origin: Origin,
        id: AuctionId,
        value: Balance,
        now: BlockNumber,
        handler_accepts: bool,
        free_balance: Balance,
    ) -> (r: Dispatched)
        requires
            bid_reaches_end(old(self)@, origin, id, now) ==> old(self)@.auctions[id].end is Some,
        ensures
            (final(self)@, r.ops@, r.result) == bid_spec(
                old(self)@,
                origin,
                id,
                value,
                now,
                handler_accepts,
                free_balance,
            ),
            r.result == Err::<Event, Error>(Error::InvalidBidPrice) ==> match old(self)@.auctions[id].bid {
                Some((_, price)) => value <= price,
                None => value == 0,
            },
            final(self)@.well_formed(),
    {
        let mut st = self.take_state();
        let r = st.bid(origin, id, value, now, handler_accepts, free_balance);
        self.state = st;
        r
    }

    /// Puts `item_id` up for auction by the signer for `value`, opening at
    /// block `now` for the configured number of blocks (see
    /// `create_auction`). The item announcement is reported twice: once when
    /// the auction is created and once by the call.
    pub fn create_new_auction(
        &mut self,
        origin: Origin,
        item_id: ItemId,
        value: Balance,
        now: BlockNumber,
        nft: NftLookup,
    ) -> (r: Result<Vec<Event>, Error>)
        requires
            signer_of(origin) is Some ==> now + old(self)@.auction_time_to_close <= u32::MAX,
        ensures
            signer_of(origin) is None ==> r == Err::<Vec<Event>, Error>(Error::BadOrigin)
                && final(self)@ == old(self)@,
            signer_of(origin) matches Some(who) ==> {
                &&& create_auction_error(old(self)@, item_id, who, nft) matches Some(e) ==> r
                    == Err::<Vec<Event>, Error>(e) && final(self)@ == old(self)@
                &&& create_auction_error(old(self)@, item_id, who, nft) is None ==> {
                    let announced = Event::NewAuctionItem(old(self)@.auctions_index, who, value, value);
                    &&& r matches Ok(events) && events@ == seq![announced, announced]
                    &&& final(self)@ == opened_auction(old(self)@, item_id, who, value, now)
                }
            },
            final(self)@.well_formed(),
    {
        let mut st = self.take_state();
        let r = st.create_new_auction(origin, item_id, value, now, nft);
        self.state = st;
        r
    }

    /// Closes the auctions that end at block `now` and returns the
    /// settlement of each that had a bid.
    pub fn on_finalize(&mut self, now: BlockNumber) -> (r: Vec<Settlement>)
        ensures
            final(self)@ == closed_at(old(self)@, now),
            final(self)@.well_formed(),
            forall|i: int|
                0 <= i < r@.len() ==> old(self)@.ending_at(now).contains(#[trigger] r@[i].auction_id)
                    && settlement_of(old(self)@, r@[i].auction_id) == Some(r@[i]),
            forall|id: AuctionId|
                old(self)@.ending_at(now).contains(id) && old(self)@.auctions[id].bid is Some
                    ==> exists|i: int| 0 <= i < r@.len() && #[trigger] r@[i].auction_id == id,
            forall|i: int, j: int|
                0 <= i < r@.len() && 0 <= j < r@.len() && i != j ==> #[trigger] r@[i].auction_id
                    != #[trigger] r@[j].auction_id,
    {
        let mut st = self.take_state();
        let r = st.on_finalize(now);
        self.state = st;
        r
    }
}

/// An accepted bid beats the previous one: it is above the current bid,
/// or above zero when there is none, and becomes the auction's bid and the
/// item's amount.
pub proof fn law_accepted_bid_outbids(
    s: AuctionView,
    origin: Origin,
    id: AuctionId,
    value: Balance,
    now: BlockNumber,
    handler_accepts: bool,
    free_balance: Balance,
)
    ensures
        ({
            let (t, ops, result) = bid_spec(s, origin, id, value, now, handler_accepts, free_balance);
            result is Ok ==> {
                &&& match s.auctions[id].bid {
                    Some((_, price)) => value > price,
                    None => value > 0,
                }
                &&& t.auctions[id].bid == Some((signer_of(origin)->0, value))
                &&& t.auction_items[id].amount == value
                &&& s.auctions[id].start <= now < s.auctions[id].end->0
                &&& value <= free_balance
                &&& ops.last() == AuctionOp::Reserve { who: signer_of(origin)->0, amount: value }
            }
        }),
{
}

/// A refused bid leaves the pallet's state as it was and asks for nothing.
pub proof fn law_refused_bid_keeps_state(
    s: AuctionView,
    origin: Origin,
    id: AuctionId,
    value: Balance,
    now: BlockNumber,
    handler_accepts: bool,
    free_balance: Balance,
)
    ensures
        ({
            let (t, ops, result) = bid_spec(s, origin, id, value, now, handler_accepts, free_balance);
            result is Err ==> t == s && ops.len() == 0
        }),
{
}

/// A bid keeps the pallet's state well formed.
pub proof fn law_bid_keeps_well_formed(
    s: AuctionView,
    origin: Origin,
    id: AuctionId,
    value: Balance,
    now: BlockNumber,
    handler_accepts: bool,
    free_balance: Balance,
)
    requires
        s.well_formed(),
    ensures
        bid_spec(s, origin, id, value, now, handler_accepts, free_balance).0.well_formed(),
{
    let t = bid_spec(s, origin, id, value, now, handler_accepts, free_balance).0;
    assert forall|b: BlockNumber, i: AuctionId| #[trigger] t.auction_end_time.contains((b, i))
        implies t.auctions.contains_key(i) && t.auctions[i].end == Some(b) by {
        assert(s.auction_end_time.contains((b, i)));
    }
    assert forall|i: AuctionId| #[trigger] t.auctions.contains_key(i) implies {
        &&& t.auction_items.contains_key(i)
        &&& i < t.auctions_index
        &&& t.auctions[i].end matches Some(b) ==> t.auction_end_time.contains((b, i))
    } by {
        assert(s.auctions.contains_key(i));
    }
    assert forall|i: AuctionId| #[trigger] t.auction_items.contains_key(i) implies i
        < t.auctions_index by {
        assert(s.auction_items.contains_key(i));
    }
}

/// A new auction gets the next auction id, which no auction or item held,
/// runs from `now` for the configured number of blocks, is indexed under its
/// end block, and keeps the state well formed.
pub proof fn law_new_auction_gets_fresh_id(
    s: AuctionView,
    item_id: ItemId,
    who: AccountId,
    value: Balance,
    now: BlockNumber,
    nft: NftLookup,
)
    requires
        s.well_formed(),
        create_auction_error(s, item_id, who, nft) is None,
        now + s.auction_time_to_close <= u32::MAX,
    ensures
        ({
            let t = opened_auction(s, item_id, who, value, now);
            let id = s.auctions_index;
            &&& !s.auctions.contains_key(id)
            &&& !s.auction_items.contains_key(id)
            &&& t.auctions_index == id + 1
            &&& t.auctions[id].end == Some((now + s.auction_time_to_close) as BlockNumber)
            &&& t.auction_end_time.contains(((now + s.auction_time_to_close) as BlockNumber, id))
            &&& t.well_formed()
        }),
{
    let t = opened_auction(s, item_id, who, value, now);
    let id = s.auctions_index;
    let end = (now + s.auction_time_to_close) as BlockNumber;
    assert forall|b: BlockNumber, i: AuctionId| #[trigger] t.auction_end_time.contains((b, i))
        implies t.auctions.contains_key(i) && t.auctions[i].end == Some(b) by {
        if (b, i) != (end, id) {
            assert(s.auction_end_time.contains((b, i)));
        }
    }
    assert forall|i: AuctionId| #[trigger] t.auctions.contains_key(i) implies {
        &&& t.auction_items.contains_key(i)
        &&& i < t.auctions_index
        &&& t.auctions[i].end matches Some(b) ==> t.auction_end_time.contains((b, i))
    } by {
        if i != id {
            assert(s.auctions.contains_key(i));
        }
    }
    assert forall|i: AuctionId| #[trigger] t.auction_items.contains_key(i) implies i
        < t.auctions_index by {
        if i != id {
            assert(s.auction_items.contains_key(i));
        }
    }
}

/// Closing the auctions that end at a block removes exactly them, leaves
/// every other auction and every item in place, and keeps the state well
/// formed.
pub proof fn law_close_removes_exactly_ending_auctions(s: AuctionView, now: BlockNumber, id: AuctionId)
    requires
        s.well_formed(),
    ensures
        closed_at(s, now).well_formed(),
        closed_at(s, now).ending_at(now) == Set::<AuctionId>::empty(),
        closed_at(s, now).auctions.contains_key(id) == (s.auctions.contains_key(id)
            && s.auctions[id].end != Some(now)),
        closed_at(s, now).auctions.contains_key(id) ==> closed_at(s, now).auctions[id]
            == s.auctions[id],
        closed_at(s, now).auction_items == s.auction_items,
{
    let t = closed_at(s, now);
    let d = s.ending_at(now);
    assert(t.ending_at(now) =~= Set::<AuctionId>::empty());
    if s.auctions.contains_key(id) && s.auctions[id].end == Some(now) {
        assert(d.contains(id));
    }
    assert forall|b: BlockNumber, i: AuctionId| #[trigger] t.auction_end_time.contains((b, i))
        implies t.auctions.contains_key(i) && t.auctions[i].end == Some(b) by {
        assert(s.auction_end_time.contains((b, i)));
        assert(b != now);
        assert(!d.contains(i));
    }
    assert forall|i: AuctionId| #[trigger] t.auctions.contains_key(i) implies {
        &&& t.auction_items.contains_key(i)
        &&& i < t.auctions_index
        &&& t.auctions[i].end matches Some(b) ==> t.auction_end_time.contains((b, i))
    } by {
        assert(s.auctions.contains_key(i));
        assert(!d.contains(i));
        if let Some(b) = s.auctions[i].end {
            assert(s.auction_end_time.contains((b, i)));
            if b == now {
                assert(d.contains(i));
            }
        }
    }
}

/// A settled auction releases the winner's reserve, pays the seller the
/// winning price, and hands NFTs and spots from the seller to the winner;
/// only a handed-over item is reported as finalized.
pub proof fn law_settlement_pays_seller_and_delivers(s: AuctionView, id: AuctionId)
    ensures
        settlement_of(s, id) matches Some(st) ==> {
            let (winner, price) = s.auctions[id].bid->0;
            let seller = s.auction_items[id].recipient;
            &&& st.auction_id == id
            &&& st.unreserve == AuctionOp::Unreserve { who: winner, amount: price }
            &&& st.payment == AuctionOp::Transfer { from: winner, to: seller, amount: price }
            &&& st.delivery matches Some(op) ==> match op {
                AuctionOp::TransferNft { from, to, .. } => from == seller && to == winner,
                AuctionOp::TransferSpot { from, to, .. } => from == seller && to == winner,
                _ => false,
            }
            &&& (st.finalized is Some <==> st.delivery is Some)
        },
        settlement_of(s, id) is None <==> s.auctions[id].bid is None,
{
}


/// How much `ops` change the reserved balance of `who`: what they reserve
/// for `who` less what they release of it.
pub open spec fn reserve_change(ops: Seq<AuctionOp>, who: AccountId) -> int
    decreases ops.len(),
{
    if ops.len() == 0 {
        0
    } else {
        reserve_change(ops.drop_last(), who) + match ops.last() {
            AuctionOp::Reserve { who: w, amount } => if w == who { amount as int } else { 0 },
            AuctionOp::Unreserve { who: w, amount } => if w == who { -amount } else { 0 },
            _ => 0,
        }
    }
}

/// An accepted bid moves reserves and nothing else: the previous bid's
/// whole reserve is released from the previous bidder first (whoever bids
/// now, the previous bidder too), and the new bid is then reserved from the
/// bidder. So every account's reserve changes by what it now bids less
/// what it bid before; a bidder who raises its own bid ends with exactly
/// the new bid reserved.
pub proof fn law_accepted_bid_moves_reserves(
    s: AuctionView,
    origin: Origin,
    id: AuctionId,
    value: Balance,
    now: BlockNumber,
    handler_accepts: bool,
    free_balance: Balance,
)
    ensures
        ({
            let (t, ops, result) = bid_spec(s, origin, id, value, now, handler_accepts, free_balance);
            let who = signer_of(origin)->0;
            result is Ok ==> {
                &&& forall|a: AccountId| #[trigger]
                    reserve_change(ops, a) == (if a == who { value as int } else { 0 }) - (
                    match s.auctions[id].bid {
                        Some((last_bidder, price)) => if a == last_bidder { price as int } else { 0 },
                        None => 0,
                    })
                &&& match s.auctions[id].bid {
                    Some((last_bidder, price)) => price != 0 ==> ops[0] == AuctionOp::Unreserve {
                        who: last_bidder,
                        amount: price,
                    },
                    None => true,
                }
                &&& ops.last() == AuctionOp::Reserve { who, amount: value }
                &&& forall|i: int|
                    0 <= i < ops.len() ==> (#[trigger] ops[i] is Reserve || ops[i] is Unreserve)
            }
        }),
{
    let (t, ops, result) = bid_spec(s, origin, id, value, now, handler_accepts, free_balance);
    if result is Ok {
        let who = signer_of(origin)->0;
        let reserve = AuctionOp::Reserve { who, amount: value };
        assert(seq![reserve].drop_last() =~= Seq::<AuctionOp>::empty());
        match s.auctions[id].bid {
            Some((last_bidder, price)) => {
                if price != 0 {
                    let release = AuctionOp::Unreserve { who: last_bidder, amount: price };
                    assert(ops =~= seq![release, reserve]);
                    assert(ops.drop_last() =~= seq![release]);
                    assert(seq![release].drop_last() =~= Seq::<AuctionOp>::empty());
                    assert forall|a: AccountId| #[trigger]
                        reserve_change(ops, a) == (if a == who { value as int } else { 0 }) - (
                        if a == last_bidder { price as int } else { 0 }) by {
                        assert(reserve_change(Seq::<AuctionOp>::empty(), a) == 0);
                        assert(seq![release].last() == release);
                        assert(reserve_change(seq![release], a) == (if a == last_bidder {
                            -price
                        } else {
                            0
                        }));
                    }
                } else {
                    assert(ops =~= seq![reserve]);
                    assert forall|a: AccountId| #[trigger]
                        reserve_change(ops, a) == (if a == who { value as int } else { 0 }) - (
                        if a == last_bidder { price as int } else { 0 }) by {
                        assert(reserve_change(Seq::<AuctionOp>::empty(), a) == 0);
                    }
                }
            },
            None => {
                assert(ops =~= seq![reserve]);
                assert forall|a: AccountId| #[trigger]
                    reserve_change(ops, a) == (if a == who { value as int } else { 0 }) by {
                    assert(reserve_change(Seq::<AuctionOp>::empty(), a) == 0);
                }
            },
        }
    }
}

/// A bid is refused for its price only when it does not exceed the current
/// bid's price, or is zero when the auction has no bid; the current highest
/// bidder may outbid itself like anyone else.
pub proof fn law_bid_price_refusal_only_when_not_higher(
    s: AuctionView,
    origin: Origin,
    id: AuctionId,
    value: Balance,
    now: BlockNumber,
    handler_accepts: bool,
    free_balance: Balance,
)
    ensures
        bid_spec(s, origin, id, value, now, handler_accepts, free_balance).2 == Err::<Event, Error>(
            Error::InvalidBidPrice,
        ) ==> match s.auctions[id].bid {
            Some((_, price)) => value <= price,
            None => value == 0,
        },
{
}

/// A signed bid on an existing auction that has started and not ended, above
/// the current bid (or above zero when there is none), accepted by the bid
/// handler and covered by the bidder's free balance, on an auction with an
/// item, succeeds, whoever holds the current bid, and becomes the bid.
pub proof fn law_bid_succeeds_when_higher(
    s: AuctionView,
    who: AccountId,
    id: AuctionId,
    value: Balance,
    now: BlockNumber,
    free_balance: Balance,
)
    requires
        s.auctions.contains_key(id),
        s.auction_items.contains_key(id),
        s.auctions[id].start <= now,
        s.auctions[id].end matches Some(end) && now < end,
        match s.auctions[id].bid {
            Some((_, price)) => value > price,
            None => value > 0,
        },
        value <= free_balance,
    ensures
        ({
            let (t, ops, result) = bid_spec(s, Origin::Signed(who), id, value, now, true, free_balance);
            &&& result == Ok::<Event, Error>(Event::Bid(id, who, value))
            &&& t.auctions[id].bid == Some((who, value))
            &&& t.auction_items[id].amount == value
        }),
{
}

} // verus!
