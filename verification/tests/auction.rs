use metaverse_pallets::auction::{
    AuctionInfo, AuctionItem, AuctionOp, Change, Dispatched, Error, Event, ItemId, Module, NftLookup,
    OnNewBidResult, Settlement,
};
use metaverse_pallets::primitives::Origin;

const SELLER: u64 = 1;
const BOB: u64 = 2;
const CAROL: u64 = 3;

fn owned_nft() -> NftLookup {
    NftLookup::Class { owner: SELLER, transferable: true }
}

fn module_with_nft_auction() -> Module {
    let mut m = Module::new(100);
    m.create_new_auction(Origin::Signed(SELLER), ItemId::NFT(5), 50, 10, owned_nft()).unwrap();
    m
}

#[test]
fn create_new_auction_opens_an_auction() {
    let mut m = Module::new(100);
    let r = m.create_new_auction(Origin::Signed(SELLER), ItemId::NFT(5), 50, 10, owned_nft());
    let announced = Event::NewAuctionItem(0, SELLER, 50, 50);
    assert_eq!(r, Ok(vec![announced, announced]));
    assert_eq!(m.auctions(0), Some(AuctionInfo { bid: None, start: 10, end: Some(110) }));
    assert_eq!(
        m.get_auction_item(0),
        Some(AuctionItem {
            item_id: ItemId::NFT(5),
            recipient: SELLER,
            initial_amount: 50,
            amount: 50,
            start_time: 10,
            end_time: 110,
        })
    );
    assert_eq!(m.auctions_index(), 1);
    assert_eq!(m.auction_end_time(110, 0), Some(()));
    let r = m.create_new_auction(Origin::Signed(BOB), ItemId::Spot(7, 9), 5, 20, NftLookup::AssetNotFound);
    assert_eq!(r, Ok(vec![Event::NewAuctionItem(1, BOB, 5, 5), Event::NewAuctionItem(1, BOB, 5, 5)]));
    assert_eq!(m.auction_end_time(120, 1), Some(()));
    assert_eq!(m.auctions_index(), 2);
}

#[test]
fn create_new_auction_refusals() {
    let mut m = Module::new(100);
    assert_eq!(
        m.create_new_auction(Origin::Unsigned, ItemId::NFT(5), 50, 10, owned_nft()),
        Err(Error::BadOrigin)
    );
    assert_eq!(
        m.create_new_auction(Origin::Signed(SELLER), ItemId::NFT(5), 50, 10, NftLookup::AssetNotFound),
        Err(Error::AssetIsNotExist)
    );
    assert_eq!(
        m.create_new_auction(Origin::Signed(SELLER), ItemId::NFT(5), 50, 10, NftLookup::ClassNotFound),
        Err(Error::NoPermissionToCreateAuction)
    );
    assert_eq!(
        m.create_new_auction(
            Origin::Signed(BOB),
            ItemId::NFT(5),
            50,
            10,
            NftLookup::Class { owner: SELLER, transferable: true }
        ),
        Err(Error::NoPermissionToCreateAuction)
    );
    assert_eq!(
        m.create_new_auction(
            Origin::Signed(SELLER),
            ItemId::NFT(5),
            50,
            10,
            NftLookup::Class { owner: SELLER, transferable: false }
        ),
        Err(Error::NoPermissionToCreateAuction)
    );
    assert_eq!(
        m.create_new_auction(Origin::Signed(SELLER), ItemId::Country(1), 50, 10, owned_nft()),
        Err(Error::AuctionTypeIsNotSupported)
    );
    assert_eq!(
        m.create_new_auction(Origin::Signed(SELLER), ItemId::Block(1), 50, 10, owned_nft()),
        Err(Error::AuctionTypeIsNotSupported)
    );
    assert_eq!(m.auctions_index(), 0);
    assert_eq!(m.auctions(0), None);
}

#[test]
fn bids_move_the_reserve_to_the_highest_bidder() {
    let mut m = module_with_nft_auction();
    assert_eq!(
        m.bid(Origin::Signed(BOB), 0, 60, 20, true, 1000),
        Dispatched {
            ops: vec![AuctionOp::Reserve { who: BOB, amount: 60 }],
            result: Ok(Event::Bid(0, BOB, 60)),
        }
    );
    assert_eq!(m.auctions(0).unwrap().bid, Some((BOB, 60)));
    assert_eq!(m.get_auction_item(0).unwrap().amount, 60);
    assert_eq!(
        m.bid(Origin::Signed(CAROL), 0, 60, 21, true, 1000),
        Dispatched { ops: vec![], result: Err(Error::InvalidBidPrice) }
    );
    assert_eq!(
        m.bid(Origin::Signed(CAROL), 0, 70, 21, true, 1000),
        Dispatched {
            ops: vec![
                AuctionOp::Unreserve { who: BOB, amount: 60 },
                AuctionOp::Reserve { who: CAROL, amount: 70 },
            ],
            result: Ok(Event::Bid(0, CAROL, 70)),
        }
    );
    assert_eq!(m.auctions(0).unwrap().bid, Some((CAROL, 70)));
}

#[test]
fn bid_refusals() {
    let mut m = module_with_nft_auction();
    let refused = |e| Dispatched { ops: vec![], result: Err(e) };
    assert_eq!(m.bid(Origin::Root, 0, 60, 20, true, 1000), refused(Error::BadOrigin));
    assert_eq!(m.bid(Origin::Signed(BOB), 9, 60, 20, true, 1000), refused(Error::AuctionNotExist));
    assert_eq!(m.bid(Origin::Signed(BOB), 0, 60, 9, true, 1000), refused(Error::AuctionNotStarted));
    assert_eq!(m.bid(Origin::Signed(BOB), 0, 60, 110, true, 1000), refused(Error::AuctionIsExpired));
    assert_eq!(m.bid(Origin::Signed(BOB), 0, 0, 20, true, 1000), refused(Error::InvalidBidPrice));
    assert_eq!(m.bid(Origin::Signed(BOB), 0, 60, 20, false, 1000), refused(Error::BidNotAccepted));
    assert_eq!(m.bid(Origin::Signed(BOB), 0, 60, 20, true, 59), refused(Error::InsufficientFreeBalance));
    assert_eq!(m.auctions(0).unwrap().bid, None);
    assert_eq!(m.get_auction_item(0).unwrap().amount, 50);
    // The last block before the end still takes bids; the start block too.
    assert!(m.bid(Origin::Signed(BOB), 0, 60, 10, true, 60).result.is_ok());
    assert!(m.bid(Origin::Signed(CAROL), 0, 61, 109, true, 61).result.is_ok());
}

#[test]
fn on_finalize_settles_ended_auctions() {
    let mut m = module_with_nft_auction();
    m.create_new_auction(Origin::Signed(BOB), ItemId::Spot(7, 9), 5, 10, NftLookup::AssetNotFound).unwrap();
    m.create_new_auction(Origin::Signed(BOB), ItemId::Spot(8, 9), 5, 11, NftLookup::AssetNotFound).unwrap();
    m.bid(Origin::Signed(CAROL), 0, 70, 20, true, 1000);
    assert_eq!(m.on_finalize(109), vec![]);
    let settled = m.on_finalize(110);
    assert_eq!(
        settled,
        vec![Settlement {
            auction_id: 0,
            unreserve: AuctionOp::Unreserve { who: CAROL, amount: 70 },
            payment: AuctionOp::Transfer { from: CAROL, to: SELLER, amount: 70 },
            delivery: Some(AuctionOp::TransferNft { from: SELLER, to: CAROL, asset_id: 5 }),
            finalized: Some(Event::AuctionFinalized(0, CAROL, 70)),
        }]
    );
    // The spot auction without a bid closes without a settlement.
    assert_eq!(m.auctions(0), None);
    assert_eq!(m.auctions(1), None);
    assert_eq!(m.auction_end_time(110, 0), None);
    assert_eq!(m.auction_end_time(110, 1), None);
    assert!(m.get_auction_item(0).is_some());
    assert!(m.auctions(2).is_some());
    assert_eq!(m.auction_end_time(111, 2), Some(()));
}

#[test]
fn spot_settlement_hands_the_spot_over() {
    let mut m = Module::new(5);
    m.create_new_auction(Origin::Signed(SELLER), ItemId::Spot(7, 9), 5, 0, NftLookup::AssetNotFound).unwrap();
    m.bid(Origin::Signed(BOB), 0, 8, 1, true, 8);
    let settled = m.on_finalize(5);
    assert_eq!(settled.len(), 1);
    assert_eq!(
        settled[0].delivery,
        Some(AuctionOp::TransferSpot { spot_id: 7, from: SELLER, to: BOB, country_id: 9 })
    );
    assert_eq!(settled[0].finalized, Some(Event::AuctionFinalized(0, BOB, 8)));
}

#[test]
fn this_pallet_accepts_every_bid() {
    assert_eq!(
        Module::on_new_bid(1, 0, (BOB, 10), None),
        OnNewBidResult { accept_bid: true, auction_end_change: Change::NoChange }
    );
}
