use auction::Auction;
use auction::Id;
use auction::NFT;
use auction::User;

#[test]
fn test_id_fresh_and_nonzero() {
    let a = Id::new();
    let b = Id::new();
    assert!(a.get() >= 1);
    assert!(b.get() >= 1);
    assert_ne!(a.get(), b.get());
    assert!(a != b);
    assert_eq!(a, a);
}

#[test]
fn test_account_credit_debit() {
    let mut u = User::new(100);
    assert_eq!(u.get_balance(), 100);
    // debit needs strictly sufficient funds: taking the whole balance fails
    assert_eq!(u.dec(100), None);
    assert_eq!(u.get_balance(), 100);
    assert_eq!(u.dec(99), Some(99));
    assert_eq!(u.get_balance(), 1);
    assert_eq!(u.inc(41), Some(41));
    assert_eq!(u.get_balance(), 42);
}

#[test]
fn test_account_credit_overflow() {
    let mut u = User::new(u128::MAX - 1);
    assert_eq!(u.inc(2), None);
    assert_eq!(u.get_balance(), u128::MAX - 1);
    assert_eq!(u.inc(1), Some(1));
    assert_eq!(u.get_balance(), u128::MAX);
}

#[test]
fn test_immediate_redemption() {
    let mut owner = User::new(10000);
    let owner_id = owner.get_uid();
    let mut nft = NFT::new();
    nft.set_user(owner_id);
    let mut bidder = User::new(10000);

    let mut auction = Auction::new(nft.get_uid(), owner_id, 2000, 500);
    let bet = bidder.dec(2000).unwrap();
    // a single bid at the redemption price wins and ends the auction at once
    assert!(auction.bet(bidder.get_uid(), bet, &mut owner));
    assert_eq!(owner.get_balance(), 12000);

    // the auction is finished without any explicit finalize: a further bid is rejected
    assert!(!auction.bet(bidder.get_uid(), 1, &mut owner));

    // the winner claims the lot
    assert_eq!(auction.get_lot(bidder.get_uid(), &mut nft), None);
    assert_eq!(nft.get_user_uid().unwrap().get(), bidder.get_uid().get());
    assert_eq!(bidder.get_balance(), 8000);
}

#[test]
fn test_finalize_twice_no_extra_effect() {
    let mut owner = User::new(10000);
    let owner_id = owner.get_uid();
    let mut bidder = User::new(10000);
    let mut auction = Auction::new(Id::new(), owner_id, 2000, 500);

    let bet = bidder.dec(700).unwrap();
    assert!(auction.bet(bidder.get_uid(), bet, &mut owner));
    auction.finalize(owner_id, &mut owner);
    assert_eq!(owner.get_balance(), 10700);
    // a second finalize by the owner changes neither winner nor balance
    auction.finalize(owner_id, &mut owner);
    assert_eq!(owner.get_balance(), 10700);
}

#[test]
fn test_finalize_unauthorized() {
    let mut owner = User::new(10000);
    let owner_id = owner.get_uid();
    let mut bidder = User::new(10000);
    let mut auction = Auction::new(Id::new(), owner_id, 2000, 500);

    let bet = bidder.dec(700).unwrap();
    assert!(auction.bet(bidder.get_uid(), bet, &mut owner));
    // a caller other than the owner cannot end the auction
    auction.finalize(bidder.get_uid(), &mut owner);
    assert_eq!(owner.get_balance(), 10000);
    // the auction is still open: the bid can still be raised
    assert!(auction.bet(bidder.get_uid(), 1, &mut owner));
}

#[test]
fn test_leader_immune_keeps_amount() {
    let mut owner = User::new(10000);
    let owner_id = owner.get_uid();
    let mut bidder = User::new(10000);
    let mut auction = Auction::new(Id::new(), owner_id, 2000, 500);

    let bet = bidder.dec(600).unwrap();
    assert!(auction.bet(bidder.get_uid(), bet, &mut owner));
    // the leading bidder already meets the reserve: a further bet is handled
    // but adds nothing to the ledger
    let bet = bidder.dec(300).unwrap();
    assert!(auction.bet(bidder.get_uid(), bet, &mut owner));
    auction.finalize(owner_id, &mut owner);
    // the owner receives the first 600, not 900
    assert_eq!(owner.get_balance(), 10600);
}

#[test]
fn test_below_reserve_leader_accumulates() {
    let mut owner = User::new(10000);
    let owner_id = owner.get_uid();
    let mut bidder = User::new(10000);
    let mut auction = Auction::new(Id::new(), owner_id, 2000, 500);

    // below the reserve the leader may still raise their own bid
    let bet = bidder.dec(300).unwrap();
    assert!(auction.bet(bidder.get_uid(), bet, &mut owner));
    let bet = bidder.dec(300).unwrap();
    assert!(auction.bet(bidder.get_uid(), bet, &mut owner));
    auction.finalize(owner_id, &mut owner);
    assert_eq!(owner.get_balance(), 10600);
}

#[test]
fn test_reclaim_rules() {
    let mut owner = User::new(10000);
    let owner_id = owner.get_uid();
    let mut low = User::new(10000);
    let mut high = User::new(10000);
    let mut auction = Auction::new(Id::new(), owner_id, 2000, 500);

    let bet = low.dec(300).unwrap();
    assert!(auction.bet(low.get_uid(), bet, &mut owner));
    let bet = high.dec(800).unwrap();
    assert!(auction.bet(high.get_uid(), bet, &mut owner));

    // a stranger has nothing to reclaim, and the leader may not withdraw
    assert_eq!(auction.get_bet(Id::new()), None);
    assert_eq!(auction.get_bet(high.get_uid()), None);
    // a trailing bidder gets their full amount back
    assert_eq!(auction.get_bet(low.get_uid()), Some(300));
    // the entry is gone: a second withdrawal returns nothing
    assert_eq!(auction.get_bet(low.get_uid()), None);

    auction.finalize(owner_id, &mut owner);
    // after the end nothing can be withdrawn this way
    assert_eq!(auction.get_bet(high.get_uid()), None);
    assert_eq!(owner.get_balance(), 10800);
}

#[test]
fn test_claim_before_finish_and_repeat() {
    let mut owner = User::new(10000);
    let owner_id = owner.get_uid();
    let mut nft = NFT::new();
    nft.set_user(owner_id);
    let mut a = User::new(10000);
    let mut b = User::new(10000);
    let mut auction = Auction::new(nft.get_uid(), owner_id, 2000, 500);

    let bet = a.dec(500).unwrap();
    assert!(auction.bet(a.get_uid(), bet, &mut owner));
    let bet = b.dec(700).unwrap();
    assert!(auction.bet(b.get_uid(), bet, &mut owner));

    // before the end a claim returns nothing and moves nothing
    assert_eq!(auction.get_lot(a.get_uid(), &mut nft), None);
    assert_eq!(nft.get_user_uid().unwrap().get(), owner_id.get());

    auction.finalize(owner_id, &mut owner);

    // the loser is told their exact recorded amount; the entry stays, so a
    // repeated claim reports the same amount again
    assert_eq!(auction.get_lot(a.get_uid(), &mut nft), Some(500));
    assert_eq!(auction.get_lot(a.get_uid(), &mut nft), Some(500));
    // the winner's claim hands over the asset and refunds nothing
    assert_eq!(auction.get_lot(b.get_uid(), &mut nft), None);
    assert_eq!(nft.get_user_uid().unwrap().get(), b.get_uid().get());
    // a stranger's claim returns nothing
    assert_eq!(auction.get_lot(Id::new(), &mut nft), None);
}

#[test]
fn test_single_bidder_below_reserve_drained() {
    let mut owner = User::new(10000);
    let owner_id = owner.get_uid();
    let mut bidder = User::new(10000);
    let mut auction = Auction::new(Id::new(), owner_id, 2000, 500);

    let bet = bidder.dec(400).unwrap();
    assert!(auction.bet(bidder.get_uid(), bet, &mut owner));
    auction.finalize(owner_id, &mut owner);
    // the reserve was missed: no winner, owner unpaid
    assert_eq!(owner.get_balance(), 10000);
    // the sole entry was drained at settlement, so nothing is returned
    let mut nft = NFT::new();
    assert_eq!(auction.get_lot(bidder.get_uid(), &mut nft), None);
    assert_eq!(bidder.get_balance(), 9600);
}

#[test]
fn test_no_bidders_finalize() {
    let mut owner = User::new(10000);
    let owner_id = owner.get_uid();
    let mut auction = Auction::new(Id::new(), owner_id, 2000, 500);
    auction.finalize(owner_id, &mut owner);
    assert_eq!(owner.get_balance(), 10000);
    let mut nft = NFT::new();
    assert_eq!(auction.get_lot(owner_id, &mut nft), None);
}

#[test]
fn test_tie_breaks_to_earliest_bidder() {
    let mut owner = User::new(10000);
    let owner_id = owner.get_uid();
    let mut nft = NFT::new();
    nft.set_user(owner_id);
    let mut a = User::new(10000);
    let mut b = User::new(10000);
    let mut auction = Auction::new(nft.get_uid(), owner_id, 2000, 500);

    let bet = a.dec(700).unwrap();
    assert!(auction.bet(a.get_uid(), bet, &mut owner));
    let bet = b.dec(700).unwrap();
    assert!(auction.bet(b.get_uid(), bet, &mut owner));
    auction.finalize(owner_id, &mut owner);

    // equal maximal bids: the earliest entry wins
    assert_eq!(auction.get_lot(a.get_uid(), &mut nft), None);
    assert_eq!(nft.get_user_uid().unwrap().get(), a.get_uid().get());
    assert_eq!(auction.get_lot(b.get_uid(), &mut nft), Some(700));
}
