use vstd::prelude::*;

use crate::id::Id;
use crate::nft_lot::NFT;
use crate::user::User;

verus! {

/// True when no bidder appears twice in the ledger.
pub open spec fn distinct_bidders(s: Seq<(Id, u128)>) -> bool {
    forall|i: int, j: int| 0 <= i < j < s.len() ==> (#[trigger] s[i]).0 != (#[trigger] s[j]).0
}

/// True when `id` holds an entry in the ledger.
pub open spec fn has_bidder(s: Seq<(Id, u128)>, id: Id) -> bool {
    exists|i: int| 0 <= i < s.len() && (#[trigger] s[i]).0 == id
}

/// The position of `id`'s entry; meaningful only under `distinct_bidders`,
/// which makes the position unique.
pub open spec fn bidder_index(s: Seq<(Id, u128)>, id: Id) -> int {
    choose|i: int| 0 <= i < s.len() && (#[trigger] s[i]).0 == id
}

/// The cumulative amount recorded for `id`.
pub open spec fn amount_of(s: Seq<(Id, u128)>, id: Id) -> u128 {
    s[bidder_index(s, id)].1
}

/// The position of the maximal cumulative bid. Ties break to the earliest
/// entry, which makes the selection deterministic in ledger order.
pub open spec fn max_index(s: Seq<(Id, u128)>) -> int
    decreases s.len(),
{
    if s.len() <= 1 {
        0
    } else {
        let j = max_index(s.drop_last());
        if s.last().1 > s[j].1 {
            s.len() - 1
        } else {
            j
        }
    }
}

/// The funds currently held in the ledger on behalf of all bidders.
pub open spec fn ledger_sum(s: Seq<(Id, u128)>) -> int
    decreases s.len(),
{
    if s.len() == 0 {
        0
    } else {
        ledger_sum(s.drop_last()) + s.last().1
    }
}

/// Under `distinct_bidders`, an entry's position is the unique one, so
/// `bidder_index` names it.
pub proof fn lemma_bidder_index(s: Seq<(Id, u128)>, id: Id, i: int)
    requires
        distinct_bidders(s),
        0 <= i < s.len(),
        s[i].0 == id,
    ensures
        has_bidder(s, id),
        bidder_index(s, id) == i,
        amount_of(s, id) == s[i].1,
{
    assert(has_bidder(s, id));
    let j = bidder_index(s, id);
    assert(0 <= j < s.len() && s[j].0 == id);
    if i < j {
        assert(s[i].0 != s[j].0);
    } else if j < i {
        assert(s[j].0 != s[i].0);
    }
}

/// `max_index` names a position in a non-empty ledger whose amount no entry
/// exceeds, and which every strictly earlier entry stays strictly below.
pub proof fn lemma_max_index(s: Seq<(Id, u128)>)
    requires
        s.len() > 0,
    ensures
        0 <= max_index(s) < s.len(),
        forall|j: int| 0 <= j < s.len() ==> (#[trigger] s[j]).1 <= s[max_index(s)].1,
        forall|j: int| 0 <= j < max_index(s) ==> (#[trigger] s[j]).1 < s[max_index(s)].1,
    decreases s.len(),
{
    if s.len() > 1 {
        lemma_max_index(s.drop_last());
        assert(forall|j: int| 0 <= j < s.len() - 1 ==> s.drop_last()[j] == (#[trigger] s[j]));
    }
}

/// True when `id` leads the ledger with a cumulative bid that already meets
/// the reserve price: a further `bet` call by `id` is then handled without
/// touching the ledger.
pub open spec fn leader_immune(s: Seq<(Id, u128)>, id: Id, reserve: u128) -> bool {
    &&& s.len() > 0
    &&& s[max_index(s)].0 == id
    &&& s[max_index(s)].1 >= reserve
}

/// How a credit of `amount` relates an account's value before and after:
/// the balance grows by `amount` when the sum fits, and is otherwise left
/// unchanged; the identifier never changes.
pub open spec fn credited(pre: User, post: User, amount: u128) -> bool {
    &&& post.spec_uid() == pre.spec_uid()
    &&& post.spec_balance() == if pre.spec_balance() + amount <= u128::MAX {
        (pre.spec_balance() + amount) as u128
    } else {
        pre.spec_balance()
    }
}

/// The account is untouched.
pub open spec fn user_unchanged(pre: User, post: User) -> bool {
    &&& post.spec_uid() == pre.spec_uid()
    &&& post.spec_balance() == pre.spec_balance()
}

/// The auction's configuration (lot, owner, prices) is untouched.
pub open spec fn params_unchanged(pre: Auction, post: Auction) -> bool {
    &&& post.spec_lot() == pre.spec_lot()
    &&& post.spec_owner_id() == pre.spec_owner_id()
    &&& post.spec_redemption_price() == pre.spec_redemption_price()
    &&& post.spec_reserve_price() == pre.spec_reserve_price()
}

/// The auction's whole observable state is untouched.
pub open spec fn state_unchanged(pre: Auction, post: Auction) -> bool {
    &&& params_unchanged(pre, post)
    &&& post.bets() == pre.bets()
    &&& post.spec_win() == pre.spec_win()
    &&& post.spec_finished() == pre.spec_finished()
}

/// How settling relates the auction and the owner's account before and
/// after: the auction ends; a winner set earlier by immediate redemption is
/// kept; otherwise the maximal cumulative bid wins exactly when it meets the
/// reserve price, and a sole remaining entry is drained from the ledger
/// whatever the outcome; the owner is credited the winning amount exactly
/// when a winner is set.
pub open spec fn settle_post(pre: Auction, opre: User, post: Auction, opost: User) -> bool {
    &&& params_unchanged(pre, post)
    &&& post.spec_finished()
    &&& match pre.spec_win() {
        Some(w) => {
            &&& post.spec_win() == pre.spec_win()
            &&& post.bets() == pre.bets()
            &&& credited(opre, opost, w.1)
        },
        None => {
            if pre.bets().len() > 1 {
                let m = pre.bets()[max_index(pre.bets())];
                &&& post.bets() == pre.bets()
                &&& if m.1 >= pre.spec_reserve_price() {
                    post.spec_win() == Some(m) && credited(opre, opost, m.1)
                } else {
                    post.spec_win() is None && user_unchanged(opre, opost)
                }
            } else if pre.bets().len() == 1 {
                let m = pre.bets()[0];
                &&& post.bets() == Seq::<(Id, u128)>::empty()
                &&& if m.1 >= pre.spec_reserve_price() {
                    post.spec_win() == Some(m) && credited(opre, opost, m.1)
                } else {
                    post.spec_win() is None && user_unchanged(opre, opost)
                }
            } else {
                &&& post.bets() == pre.bets()
                &&& post.spec_win() is None
                &&& user_unchanged(opre, opost)
            }
        },
    }
}

/// How `finalize` relates the auction and the owner's account before and
/// after: only the first call by the owner settles; any other call changes
/// nothing.
pub open spec fn finalize_post(
    pre: Auction,
    opre: User,
    post: Auction,
    opost: User,
    caller: Id,
) -> bool {
    if caller == pre.spec_owner_id() && !pre.spec_finished() {
        settle_post(pre, opre, post, opost)
    } else {
        state_unchanged(pre, post) && user_unchanged(opre, opost)
    }
}

/// True when a `bet` call by `user_id` adds the submitted amount to the
/// ledger: the auction is open and `user_id` is not an immune leader.
pub open spec fn bet_deposit_kept(pre: Auction, user_id: Id) -> bool {
    &&& !pre.spec_finished()
    &&& !(has_bidder(pre.bets(), user_id) && leader_immune(
        pre.bets(),
        user_id,
        pre.spec_reserve_price(),
    ))
}

/// How `bet` relates the auction and the owner's account before and after.
/// A finished auction rejects the call untouched. An immune leader's call is
/// handled without touching the ledger. Otherwise the amount is added to the
/// caller's entry (or a new entry is appended), and a cumulative total at or
/// above the redemption price sets the winner and settles at once.
pub open spec fn bet_post(
    pre: Auction,
    opre: User,
    post: Auction,
    opost: User,
    user_id: Id,
    amount: u128,
    r: bool,
) -> bool {
    &&& r == !pre.spec_finished()
    &&& if pre.spec_finished() {
        state_unchanged(pre, post) && user_unchanged(opre, opost)
    } else if has_bidder(pre.bets(), user_id) {
        if leader_immune(pre.bets(), user_id, pre.spec_reserve_price()) {
            state_unchanged(pre, post) && user_unchanged(opre, opost)
        } else {
            let i = bidder_index(pre.bets(), user_id);
            let total = (pre.bets()[i].1 + amount) as u128;
            &&& params_unchanged(pre, post)
            &&& post.bets() == pre.bets().update(i, (user_id, total))
            &&& if total >= pre.spec_redemption_price() {
                &&& post.spec_win() == Some((user_id, total))
                &&& post.spec_finished()
                &&& credited(opre, opost, total)
            } else {
                &&& post.spec_win() == pre.spec_win()
                &&& post.spec_finished() == pre.spec_finished()
                &&& user_unchanged(opre, opost)
            }
        }
    } else {
        &&& params_unchanged(pre, post)
        &&& post.bets() == pre.bets().push((user_id, amount))
        &&& if amount >= pre.spec_redemption_price() {
            &&& post.spec_win() == Some((user_id, amount))
            &&& post.spec_finished()
            &&& credited(opre, opost, amount)
        } else {
            &&& post.spec_win() == pre.spec_win()
            &&& post.spec_finished() == pre.spec_finished()
            &&& user_unchanged(opre, opost)
        }
    }
}

/// Appending an entry grows the ledger sum by its amount.
proof fn lemma_ledger_sum_push(s: Seq<(Id, u128)>, e: (Id, u128))
    ensures
        ledger_sum(s.push(e)) == ledger_sum(s) + e.1,
{
    assert(s.push(e).drop_last() =~= s);
    assert(s.push(e).last() == e);
}

/// Replacing an entry moves the ledger sum by the difference of amounts.
proof fn lemma_ledger_sum_update(s: Seq<(Id, u128)>, i: int, e: (Id, u128))
    requires
        0 <= i < s.len(),
    ensures
        ledger_sum(s.update(i, e)) == ledger_sum(s) - s[i].1 + e.1,
    decreases s.len(),
{
    if i == s.len() - 1 {
        assert(s.update(i, e).drop_last() =~= s.drop_last());
        assert(s.update(i, e).last() == e);
    } else {
        assert(s.update(i, e).drop_last() =~= s.drop_last().update(i, e));
        assert(s.update(i, e).last() == s.last());
        lemma_ledger_sum_update(s.drop_last(), i, e);
    }
}

/// Removing an entry shrinks the ledger sum by its amount.
proof fn lemma_ledger_sum_remove(s: Seq<(Id, u128)>, i: int)
    requires
        0 <= i < s.len(),
    ensures
        ledger_sum(s.remove(i)) == ledger_sum(s) - s[i].1,
    decreases s.len(),
{
    if i == s.len() - 1 {
        assert(s.remove(i) =~= s.drop_last());
    } else {
        s.remove_ensures(i);
        assert(s.remove(i).drop_last() =~= s.drop_last().remove(i));
        assert(s.remove(i).last() == s[s.len() - 1]);
        lemma_ledger_sum_remove(s.drop_last(), i);
    }
}

/// Removing an entry keeps the remaining bidders distinct.
proof fn lemma_distinct_remove(s: Seq<(Id, u128)>, i: int)
    requires
        distinct_bidders(s),
        0 <= i < s.len(),
    ensures
        distinct_bidders(s.remove(i)),
{
    s.remove_ensures(i);
    assert forall|a: int, b: int| 0 <= a < b < s.remove(i).len() implies (#[trigger] s.remove(
        i,
    )[a]).0 != (#[trigger] s.remove(i)[b]).0 by {
        let a0 = if a < i {
            a
        } else {
            a + 1
        };
        let b0 = if b < i {
            b
        } else {
            b + 1
        };
        assert(s.remove(i)[a] == s[a0]);
        assert(s.remove(i)[b] == s[b0]);
    }
}

/// Replacing an entry without changing its bidder keeps bidders distinct.
proof fn lemma_distinct_update(s: Seq<(Id, u128)>, i: int, e: (Id, u128))
    requires
        distinct_bidders(s),
        0 <= i < s.len(),
        e.0 == s[i].0,
    ensures
        distinct_bidders(s.update(i, e)),
{
    assert forall|a: int, b: int| 0 <= a < b < s.update(i, e).len() implies (#[trigger] s.update(
        i,
        e,
    )[a]).0 != (#[trigger] s.update(i, e)[b]).0 by {
        assert(s[a].0 != s[b].0);
    }
}

/// Appending an entry for a bidder not yet present keeps bidders distinct.
proof fn lemma_distinct_push(s: Seq<(Id, u128)>, e: (Id, u128))
    requires
        distinct_bidders(s),
        !has_bidder(s, e.0),
    ensures
        distinct_bidders(s.push(e)),
{
    assert forall|a: int, b: int| 0 <= a < b < s.push(e).len() implies (#[trigger] s.push(
        e,
    )[a]).0 != (#[trigger] s.push(e)[b]).0 by {
        if b < s.len() {
            assert(s[a].0 != s[b].0);
        } else {
            assert(s.push(e)[a] == s[a]);
            assert(!(0 <= a < s.len() && s[a].0 == e.0));
        }
    }
}

/// Finalizing twice has no further effect: whatever the first call did, a
/// second call by the same caller leaves the auction and the owner's account
/// exactly as the first call left them.
pub proof fn lemma_finalize_idempotent(
    a0: Auction,
    u0: User,
    a1: Auction,
    u1: User,
    a2: Auction,
    u2: User,
    caller: Id,
)
    requires
        finalize_post(a0, u0, a1, u1, caller),
        finalize_post(a1, u1, a2, u2, caller),
    ensures
        state_unchanged(a1, a2),
        user_unchanged(u1, u2),
{
}

/// A single-lot auction: the ledger of cumulative bids, the winner once
/// determined, and the finished flag, governed by a redemption ("buy now")
/// price and a reserve price. The owner's account is passed to the calls
/// that may credit it; the auction itself stores only the owner's identifier.
pub struct Auction {
    lot: Id,
    owner_id: Id,
    redemption_price: u128,
    reserve_price: u128,
    user_bets: Vec<(Id, u128)>,
    win: Option<(Id, u128)>,
    is_finish: bool,
}

impl Auction {
    /// The identifier of the lot being sold.
    pub closed spec fn spec_lot(self) -> Id {
        self.lot
    }

    /// The identifier of the owner's account.
    pub closed spec fn spec_owner_id(self) -> Id {
        self.owner_id
    }

    /// A cumulative bid at or above this amount wins immediately.
    pub closed spec fn spec_redemption_price(self) -> u128 {
        self.redemption_price
    }

    /// The minimum cumulative bid that can win at finalization.
    pub closed spec fn spec_reserve_price(self) -> u128 {
        self.reserve_price
    }

    /// The ledger: one entry per bidder, in order of first bid.
    pub closed spec fn bets(self) -> Seq<(Id, u128)> {
        self.user_bets@
    }

    /// The winner and the winning amount, once determined.
    pub closed spec fn spec_win(self) -> Option<(Id, u128)> {
        self.win
    }

    /// Whether the auction has ended.
    pub closed spec fn spec_finished(self) -> bool {
        self.is_finish
    }

    /// The auction's invariant: each bidder holds at most one entry, and a
    /// winner exists only once the auction has ended.
    pub open spec fn wf(self) -> bool {
        &&& distinct_bidders(self.bets())
        &&& self.spec_win() is Some ==> self.spec_finished()
    }

    /// Open an auction for `lot` on behalf of the account identified by
    /// `owner_id`, with an empty ledger.
    pub fn new(lot: Id, owner_id: Id, redemption_price: u128, reserve_price: u128) -> (r: Auction)
        ensures
            r.spec_lot() == lot,
            r.spec_owner_id() == owner_id,
            r.spec_redemption_price() == redemption_price,
            r.spec_reserve_price() == reserve_price,
            r.bets() == Seq::<(Id, u128)>::empty(),
            r.spec_win() is None,
            !r.spec_finished(),
            r.wf(),
    {
        Auction {
            lot,
            owner_id,
            redemption_price,
            reserve_price,
            user_bets: Vec::new(),
            win: None,
            is_finish: false,
        }
    }

    /// Find the position of `user_id`'s ledger entry, if any.
    fn find_bidder(&self, user_id: Id) -> (r: Option<usize>)
        ensures
            match r {
                Some(i) => i < self.bets().len() && self.bets()[i as int].0 == user_id,
                None => !has_bidder(self.bets(), user_id),
            },
    {
        let mut i: usize = 0;
        while i < self.user_bets.len()
            invariant
                i <= self.user_bets@.len(),
                forall|j: int| 0 <= j < i ==> (#[trigger] self.user_bets@[j]).0 != user_id,
            decreases self.user_bets@.len() - i,
        {
            if self.user_bets[i].0 == user_id {
                return Some(i);
            }
            i = i + 1;
        }
        None
    }

    /// The entry holding the maximal cumulative bid, ties broken to the
    /// earliest entry; `None` only on an empty ledger.
    fn get_max_bet(&self) -> (r: Option<(Id, u128)>)
        ensures
            match r {
                Some(m) => self.bets().len() > 0 && m == self.bets()[max_index(self.bets())],
                None => self.bets().len() == 0,
            },
    {
        if self.user_bets.len() == 0 {
            return None;
        }
        let ghost s = self.user_bets@;
        let mut best: usize = 0;
        let mut i: usize = 1;
        while i < self.user_bets.len()
            invariant
                self.user_bets@ == s,
                1 <= i <= s.len(),
                best < i,
                best == max_index(s.take(i as int)),
            decreases s.len() - i,
        {
            proof {
                assert(s.take(i + 1).drop_last() =~= s.take(i as int));
                assert(s.take(i + 1).last() == s[i as int]);
                lemma_max_index(s.take(i as int));
            }
            if self.user_bets[i].1 > self.user_bets[best].1 {
                best = i;
            }
            i = i + 1;
        }
        proof {
            assert(s.take(s.len() as int) =~= s);
        }
        Some(self.user_bets[best])
    }

    /// End the auction and settle: keep a winner set earlier, otherwise
    /// select one from the ledger, then credit the owner the winning amount.
    fn settle(&mut self, owner: &mut User)
        ensures
            settle_post(*old(self), *old(owner), *final(self), *final(owner)),
    {
        self.is_finish = true;
        if self.win.is_none() {
            if self.user_bets.len() > 1 {
                let m = self.get_max_bet().unwrap();
                if m.1 >= self.reserve_price {
                    self.win = Some(m);
                }
            } else if self.user_bets.len() == 1 {
                let m = self.user_bets.remove(0);
                proof {
                    assert(self.user_bets@ =~= Seq::<(Id, u128)>::empty());
                }
                if m.1 >= self.reserve_price {
                    self.win = Some(m);
                }
            }
        }
        if let Some(p) = self.win {
            let _ = owner.inc(p.1);
        }
    }

    /// Submit `bet` on behalf of `user_id`; the caller must already have
    /// debited the amount from the bidder's account. The call is rejected
    /// (`false`) exactly when the auction is finished, and the caller must
    /// then refund the amount; it is otherwise handled (`true`), though an
    /// immune leader's amount is not added to the ledger and stays with the
    /// caller. A cumulative total reaching the redemption price wins and
    /// settles the auction at once.
    pub fn bet(&mut self, user_id: Id, bet: u128, owner: &mut User) -> (r: bool)
        requires
            old(self).wf(),
            old(owner).spec_uid() == old(self).spec_owner_id(),
            !old(self).spec_finished() && has_bidder(old(self).bets(), user_id) && !leader_immune(
                old(self).bets(),
                user_id,
                old(self).spec_reserve_price(),
            ) ==> amount_of(old(self).bets(), user_id) + bet <= u128::MAX,
        ensures
            bet_post(*old(self), *old(owner), *final(self), *final(owner), user_id, bet, r),
            final(self).wf(),
            ledger_sum(final(self).bets()) == ledger_sum(old(self).bets()) + (
            if bet_deposit_kept(*old(self), user_id) {
                bet as int
            } else {
                0
            }),
    {
        if !self.is_finish {
            let r = self.find_bidder(user_id);
            match r {
                Some(i) => {
                    let ghost s = self.user_bets@;
                    proof {
                        lemma_bidder_index(s, user_id, i as int);
                        lemma_max_index(s);
                    }
                    let m = self.get_max_bet().unwrap();
                    if m.0 != user_id || m.1 < self.reserve_price {
                        let total = self.user_bets[i].1 + bet;
                        self.user_bets[i] = (user_id, total);
                        proof {
                            lemma_distinct_update(s, i as int, (user_id, total));
                            lemma_ledger_sum_update(s, i as int, (user_id, total));
                        }
                        if total >= self.redemption_price {
                            self.win = Some((user_id, total));
                            self.settle(owner);
                        }
                    }
                },
                None => {
                    let ghost s = self.user_bets@;
                    self.user_bets.push((user_id, bet));
                    proof {
                        lemma_distinct_push(s, (user_id, bet));
                        lemma_ledger_sum_push(s, (user_id, bet));
                    }
                    if bet >= self.redemption_price {
                        self.win = Some((user_id, bet));
                        self.settle(owner);
                    }
                },
            }
            true
        } else {
            false
        }
    }

    /// Withdraw `user_id`'s cumulative bid before the auction ends. Returns
    /// the recorded amount and removes the entry exactly when the auction is
    /// open, the bidder holds an entry, and the bidder is not currently
    /// leading; the caller must credit the returned amount back to the
    /// bidder's account. Returns `None`, changing nothing, in every other
    /// case.
    pub fn get_bet(&mut self, user_id: Id) -> (r: Option<u128>)
        requires
            old(self).wf(),
        ensures
            final(self).wf(),
            params_unchanged(*old(self), *final(self)),
            final(self).spec_win() == old(self).spec_win(),
            final(self).spec_finished() == old(self).spec_finished(),
            if !old(self).spec_finished() && has_bidder(old(self).bets(), user_id) && old(
                self,
            ).bets()[max_index(old(self).bets())].0 != user_id {
                &&& r == Some(amount_of(old(self).bets(), user_id))
                &&& final(self).bets() == old(self).bets().remove(
                    bidder_index(old(self).bets(), user_id),
                )
            } else {
                &&& r is None
                &&& final(self).bets() == old(self).bets()
            },
            ledger_sum(final(self).bets()) == ledger_sum(old(self).bets()) - (match r {
                Some(a) => a as int,
                None => 0,
            }),
    {
        if !self.is_finish {
            let found = self.find_bidder(user_id);
            match found {
                Some(i) => {
                    let ghost s = self.user_bets@;
                    proof {
                        lemma_bidder_index(s, user_id, i as int);
                        lemma_max_index(s);
                    }
                    let m = self.get_max_bet().unwrap();
                    if m.0 != user_id {
                        let e = self.user_bets.remove(i);
                        proof {
                            lemma_distinct_remove(s, i as int);
                            lemma_ledger_sum_remove(s, i as int);
                        }
                        return Some(e.1);
                    }
                },
                None => {},
            }
        }
        None
    }

    /// Claim after the auction has ended. The declared winner's claim hands
    /// the asset to the winner and returns `None` (the winning amount was
    /// already credited to the owner at settlement); a recorded bidder who
    /// lost, or any recorded bidder when no winner was set, is returned their
    /// exact recorded amount, which the caller must credit back. Before the
    /// end, or without a recorded bid, the call returns `None` and changes
    /// nothing.
    pub fn get_lot(&mut self, user_id: Id, nft: &mut NFT) -> (r: Option<u128>)
        requires
            old(self).wf(),
        ensures
            *final(self) == *old(self),
            final(nft).spec_uid() == old(nft).spec_uid(),
            if old(self).spec_finished() && has_bidder(old(self).bets(), user_id) {
                match old(self).spec_win() {
                    Some(w) => if w.0 == user_id {
                        r is None && final(nft).spec_owner() == Some(user_id)
                    } else {
                        &&& r == Some(amount_of(old(self).bets(), user_id))
                        &&& final(nft).spec_owner() == old(nft).spec_owner()
                    },
                    None => {
                        &&& r == Some(amount_of(old(self).bets(), user_id))
                        &&& final(nft).spec_owner() == old(nft).spec_owner()
                    },
                }
            } else {
                r is None && final(nft).spec_owner() == old(nft).spec_owner()
            },
    {
        if self.is_finish {
            let found = self.find_bidder(user_id);
            match found {
                Some(i) => {
                    proof {
                        lemma_bidder_index(self.user_bets@, user_id, i as int);
                    }
                    match self.win {
                        Some(w) => {
                            if w.0 == user_id {
                                nft.set_user(user_id);
                            } else {
                                return Some(self.user_bets[i].1);
                            }
                        },
                        None => {
                            return Some(self.user_bets[i].1);
                        },
                    }
                },
                None => {},
            }
        }
        None
    }

    /// End the auction. Only the first call whose caller is the owner has an
    /// effect: it settles the auction, selecting the winner and crediting the
    /// owner's account with the winning amount; every other call, by anyone
    /// else or once finished, changes nothing.
    pub fn finalize(&mut self, user_id: Id, owner: &mut User)
        requires
            old(self).wf(),
            old(owner).spec_uid() == old(self).spec_owner_id(),
        ensures
            finalize_post(*old(self), *old(owner), *final(self), *final(owner), user_id),
            final(self).wf(),
            final(self).spec_finished() == (old(self).spec_finished() || user_id == old(
                self,
            ).spec_owner_id()),
            ledger_sum(final(self).bets()) == ledger_sum(old(self).bets()) - (
            if user_id == old(self).spec_owner_id() && !old(self).spec_finished() && old(
                self,
            ).spec_win() is None && old(self).bets().len() == 1 {
                old(self).bets()[0].1 as int
            } else {
                0
            }),
    {
        if self.owner_id == user_id && !self.is_finish {
            let ghost s = self.user_bets@;
            self.settle(owner);
            proof {
                if s.len() == 1 {
                    lemma_ledger_sum_remove(s, 0);
                    assert(s.remove(0) =~= Seq::<(Id, u128)>::empty());
                }
            }
        }
    }
}

} // verus!
