//! A blackjack table: one dealer, a fixed number of betting spots, one
//! shoe, and the phase the round is in.
use crate::card::Card;
use crate::hand::{classify, hard_total, is_natural, lemma_totals, Hand, Value};
use crate::shoe::{exceeds, pack, Shoe};
use vstd::prelude::*;

verus! {

/// Represents the outcome of a hand
#[derive(Debug, Clone, Copy, PartialEq, Eq, PartialOrd, Ord, Hash, Structural)]
pub enum Outcome {
    /// Pays 3:2 or 6:5
    Blackjack,
    /// Pays 1:1
    Win,
    /// A loss
    Lose,
    /// A push
    Push,
}

/// Where a round stands
#[derive(Debug, Clone, Copy, PartialEq, Eq, Hash, Structural)]
pub enum Phase {
    /// No cards are on the table
    Open,
    /// Every spot and the dealer hold their first two cards
    Dealt,
    /// The dealer's hand has been turned up
    Flipped,
}

/// How a player's hand fares against the dealer's, from what the two are
/// worth. The first line that fits decides.
pub open spec fn outcome_of(player: Value, dealer: Value) -> Outcome {
    if dealer == Value::Blackjack {
        if player == Value::Blackjack {
            Outcome::Push
        } else {
            Outcome::Lose
        }
    } else if player == Value::Blackjack {
        Outcome::Blackjack
    } else if player == Value::Bust {
        Outcome::Lose
    } else if dealer == Value::Bust {
        Outcome::Win
    } else if player.spec_value()->0 > dealer.spec_value()->0 {
        Outcome::Win
    } else if player.spec_value()->0 < dealer.spec_value()->0 {
        Outcome::Lose
    } else {
        Outcome::Push
    }
}

/// Whether `after` is `before` with its top card, `card`, dealt.
pub open spec fn drew(before: Shoe, after: Shoe, card: Card) -> bool {
    &&& before@.len() > 0
    &&& card == before@.last()
    &&& after@ == before@.drop_last()
    &&& after.dealt() == before.dealt().push(card)
    &&& after.spec_num_decks() == before.spec_num_decks()
}

/// How a player's hand fares against the dealer's.
pub fn outcome(player: &Hand, dealer: &Hand) -> (result: Outcome)
    requires
        player.wf(),
        dealer.wf(),
    ensures
        result == outcome_of(classify(player@), classify(dealer@)),
{
    if dealer.blackjack() {
        return if player.blackjack() {
            Outcome::Push
        } else {
            Outcome::Lose
        };
    }
    if player.blackjack() {
        return Outcome::Blackjack;
    }
    if player.busted() {
        return Outcome::Lose;
    }
    if dealer.busted() {
        return Outcome::Win;
    }
    let p = player.value().unwrap();
    let d = dealer.value().unwrap();
    if p > d {
        Outcome::Win
    } else if p < d {
        Outcome::Lose
    } else {
        Outcome::Push
    }
}

/// A blackjack table
pub struct Table {
    /// The dealer's hand
    dealer: Hand,
    /// The players' hands
    player_hands: Vec<Hand>,
    /// The shoe
    shoe: Shoe,
    /// The max deck penetration before reshuffle, in millionths
    max_penetration: u32,
    /// The number of decks to play with
    num_decks: usize,
    /// Where the round stands
    phase: Phase,
}

impl Table {
    /// Where the round stands.
    pub closed spec fn spec_phase(&self) -> Phase {
        self.phase
    }

    /// The dealer's cards.
    pub closed spec fn dealer_cards(&self) -> Seq<Card> {
        self.dealer@
    }

    /// The cards of each spot, spot by spot.
    pub closed spec fn players(&self) -> Seq<Seq<Card>> {
        Seq::new(self.player_hands@.len(), |i: int| self.player_hands@[i]@)
    }

    /// The number of betting spots.
    pub open spec fn spec_spots(&self) -> nat {
        self.players().len()
    }

    /// The shoe.
    pub closed spec fn spec_shoe(&self) -> Shoe {
        self.shoe
    }

    /// The share of the shoe, in millionths, past which it is reshuffled.
    pub closed spec fn limit(&self) -> nat {
        self.max_penetration as nat
    }

    /// The number of decks the table plays with.
    pub closed spec fn decks(&self) -> nat {
        self.num_decks as nat
    }

    /// Every hand and the shoe are well formed, the shoe has the table's
    /// number of decks, and the limit is no more than the whole shoe.
    closed spec fn sound(&self) -> bool {
        &&& self.dealer.wf()
        &&& forall|i: int|
            0 <= i < self.player_hands@.len() ==> (#[trigger] self.player_hands@[i]).wf()
        &&& self.shoe.wf()
        &&& self.shoe.spec_num_decks() == self.num_decks
        &&& self.max_penetration <= 1_000_000
    }

    /// The cards on the table are what the phase allows: none while the
    /// table is open, two for the dealer and two or more on every spot
    /// once the hands are dealt, and no fewer when the dealer's hand is up.
    pub open spec fn in_step(&self) -> bool {
        match self.spec_phase() {
            Phase::Open => self.hands_empty(),
            Phase::Dealt => {
                &&& self.dealer_cards().len() == 2
                &&& forall|i: int|
                    0 <= i < self.spec_spots() ==> (#[trigger] self.players()[i]).len() >= 2
            },
            Phase::Flipped => {
                &&& self.dealer_cards().len() >= 2
                &&& forall|i: int|
                    0 <= i < self.spec_spots() ==> (#[trigger] self.players()[i]).len() >= 2
            },
        }
    }

    /// The table's hands and shoe are well formed, and the cards on the
    /// table are what the phase allows.
    pub closed spec fn wf(&self) -> bool {
        &&& self.sound()
        &&& self.in_step()
    }

    /// A well-formed table is in step with its phase.
    pub proof fn lemma_in_step(&self)
        requires
            self.wf(),
        ensures
            self.in_step(),
    {
    }

    /// No spot holds a card, and neither does the dealer.
    pub open spec fn hands_empty(&self) -> bool {
        &&& self.dealer_cards().len() == 0
        &&& forall|i: int| 0 <= i < self.spec_spots() ==> (#[trigger] self.players()[i]).len() == 0
    }

    /// Whether the shoe is past the limit, so that the next deal starts
    /// from a fresh one.
    pub open spec fn reshuffle_due(&self) -> bool {
        exceeds(self.spec_shoe().dealt().len(), 52 * self.decks(), self.limit())
    }

    /// The cards a deal takes: two for each spot and two for the dealer.
    pub open spec fn cards_needed(&self) -> nat {
        2 * (self.spec_spots() + 1)
    }

    /// Whether the hands may be dealt: the table is open, and the shoe
    /// that the deal will draw from, fresh if a reshuffle is due, holds
    /// the cards the deal takes.
    pub open spec fn spec_can_deal(&self) -> bool {
        &&& self.spec_phase() == Phase::Open
        &&& if self.reshuffle_due() {
            52 * self.decks() >= self.cards_needed()
        } else {
            self.spec_shoe()@.len() >= self.cards_needed()
        }
    }

    /// Whether the dealer's hand may be peeked at: the hands have been
    /// dealt and the dealer's is not up yet.
    pub open spec fn spec_can_peek(&self) -> bool {
        self.spec_phase() == Phase::Dealt
    }

    /// Whether a spot may be hit: the table has the spot, the hands have
    /// been dealt and the dealer's is not up yet, and the shoe has a card
    /// unless the hand is bust and takes none.
    pub open spec fn spec_can_hit(&self, player: usize) -> bool {
        &&& self.spec_phase() == Phase::Dealt
        &&& player < self.spec_spots()
        &&& (hard_total(self.players()[player as int]) > 21 || self.spec_shoe()@.len() > 0)
    }

    /// Whether the dealer may be hit: the hands have been dealt, and the
    /// shoe has a card unless the dealer is bust and takes none.
    pub open spec fn spec_can_dealer_hit(&self) -> bool {
        &&& self.spec_phase() != Phase::Open
        &&& (hard_total(self.dealer_cards()) > 21 || self.spec_shoe()@.len() > 0)
    }

    /// Whether the hands may be cleared: the dealer's hand is up.
    pub open spec fn spec_can_clear(&self) -> bool {
        self.spec_phase() == Phase::Flipped
    }

    /// Whether the table may be reset: it is open.
    pub open spec fn spec_can_reset(&self) -> bool {
        self.spec_phase() == Phase::Open
    }

    /// No phase offers every move. An open table can neither be hit nor
    /// peeked at nor cleared. Once the hands are dealt there is no second
    /// deal and no reset, and no clearing before the dealer's hand is up.
    /// Once it is up, the players are done: no hit, no peek, no deal
    /// before the hands are cleared.
    pub proof fn lemma_phase_discipline(&self, player: usize)
        ensures
            self.spec_phase() == Phase::Open ==> !self.spec_can_peek() && !self.spec_can_hit(player)
                && !self.spec_can_dealer_hit() && !self.spec_can_clear(),
            self.spec_phase() == Phase::Dealt ==> !self.spec_can_deal() && !self.spec_can_clear()
                && !self.spec_can_reset(),
            self.spec_phase() == Phase::Flipped ==> !self.spec_can_deal() && !self.spec_can_peek()
                && !self.spec_can_hit(player) && !self.spec_can_reset(),
    {
    }

    /// Whether the hands on the table are `drawn` dealt out in turn: a
    /// first card to each spot and then to the dealer, and a second card
    /// to each in the same order.
    pub open spec fn dealt_out(&self, drawn: Seq<Card>) -> bool {
        let n = self.spec_spots() as int;
        &&& drawn.len() == 2 * (n + 1)
        &&& forall|i: int|
            0 <= i < n ==> #[trigger] self.players()[i] == seq![drawn[i], drawn[n + 1 + i]]
        &&& self.dealer_cards() == seq![drawn[n], drawn[2 * n + 1]]
    }

    /// Whether `self` is `before` after one card has gone from the top of
    /// the shoe to each spot in turn, and then one to the dealer.
    pub open spec fn round_dealt(&self, before: &Table) -> bool {
        let n = before.spec_spots() as int;
        let top = before.spec_shoe()@;
        let last = top.len() - 1;
        &&& top.len() >= n + 1
        &&& self.spec_spots() == n
        &&& forall|i: int|
            0 <= i < n ==> #[trigger] self.players()[i] == before.players()[i].push(top[last - i])
        &&& self.dealer_cards() == before.dealer_cards().push(top[last - n])
        &&& self.spec_shoe()@ == top.take(top.len() - (n + 1))
        &&& self.spec_shoe().dealt() == before.spec_shoe().dealt() + Seq::new(
            (n + 1) as nat,
            |t: int| top[last - t],
        )
        &&& self.spec_phase() == before.spec_phase()
        &&& self.limit() == before.limit()
        &&& self.decks() == before.decks()
    }

    /// Whether `self` is `before` in all but the phase.
    pub open spec fn same_cards(&self, before: &Table) -> bool {
        &&& self.dealer_cards() == before.dealer_cards()
        &&& self.players() == before.players()
        &&& self.spec_shoe() == before.spec_shoe()
        &&& self.limit() == before.limit()
        &&& self.decks() == before.decks()
    }

    /// Creates a new blackjack table with `num_decks` decks and `num_spots` bettings spots and
    /// `max_penetration`, the share of the shoe in millionths that may be dealt before shuffling
    ///
    /// A `max_penetration` above the whole shoe is taken as the whole shoe.
    pub fn new(num_decks: usize, num_spots: usize, max_penetration: u32) -> (table: Self)
        ensures
            table.wf(),
            table.spec_phase() == Phase::Open,
            table.spec_spots() == num_spots,
            table.hands_empty(),
            table.decks() == num_decks,
            table.limit() == if max_penetration > 1_000_000 {
                1_000_000
            } else {
                max_penetration
            },
            table.spec_shoe()@.to_multiset() == pack(num_decks as nat).to_multiset(),
            table.spec_shoe()@.len() == 52 * num_decks,
            table.spec_shoe().dealt() == Seq::<Card>::empty(),
    {
        Self::with_shoe(Shoe::new(num_decks), num_spots, max_penetration)
    }

    /// Creates a new blackjack table around a shoe that is already
    /// filled, with `num_spots` betting spots and `max_penetration` as in
    /// `new`. The table plays with as many decks as the shoe has.
    pub fn with_shoe(shoe: Shoe, num_spots: usize, max_penetration: u32) -> (table: Self)
        requires
            shoe.wf(),
        ensures
            table.wf(),
            table.spec_phase() == Phase::Open,
            table.spec_spots() == num_spots,
            table.hands_empty(),
            table.decks() == shoe.spec_num_decks(),
            table.limit() == if max_penetration > 1_000_000 {
                1_000_000
            } else {
                max_penetration
            },
            table.spec_shoe() == shoe,
    {
        let mut player_hands: Vec<Hand> = Vec::new();
        let mut i: usize = 0;
        while i < num_spots
            invariant
                i <= num_spots,
                player_hands@.len() == i,
                forall|j: int|
                    0 <= j < i ==> (#[trigger] player_hands@[j]).wf() && player_hands@[j]@.len()
                        == 0,
            decreases num_spots - i,
        {
            player_hands.push(Hand::default());
            i = i + 1;
        }
        let dealer = Hand::default();
        let max_penetration = if max_penetration > 1_000_000 {
            1_000_000
        } else {
            max_penetration
        };
        let num_decks = shoe.num_decks();
        Self { dealer, player_hands, shoe, max_penetration, num_decks, phase: Phase::Open }
    }

    /// Where the round stands.
    #[verifier::when_used_as_spec(spec_phase)]
    pub fn phase(&self) -> (phase: Phase)
        ensures
            phase == self.spec_phase(),
    {
        self.phase
    }

    /// The number of betting spots.
    #[verifier::when_used_as_spec(spec_spots_usize)]
    pub fn spots(&self) -> (spots: usize)
        ensures
            spots == self.spec_spots(),
    {
        self.player_hands.len()
    }

    /// The number of betting spots, in the width `spots` returns it.
    pub open spec fn spec_spots_usize(&self) -> usize {
        self.spec_spots() as usize
    }

    /// The shoe, to read its count and how far it has been dealt.
    pub fn shoe(&self) -> (shoe: &Shoe)
        requires
            self.wf(),
        ensures
            *shoe == self.spec_shoe(),
            shoe.wf(),
    {
        &self.shoe
    }

    /// Returns a reference to the dealer's hand
    pub fn dealer_hand(&self) -> (hand: &Hand)
        requires
            self.wf(),
        ensures
            hand@ == self.dealer_cards(),
            hand.wf(),
    {
        &self.dealer
    }

    /// Returns a reference to the hand of player `player`
    pub fn player_hand(&self, player: usize) -> (hand: &Hand)
        requires
            self.wf(),
            player < self.spec_spots(),
        ensures
            hand@ == self.players()[player as int],
            hand.wf(),
    {
        &self.player_hands[player]
    }

    /// The player hands, spot by spot
    pub fn player_hands(&self) -> (hands: &[Hand])
        requires
            self.wf(),
        ensures
            hands@.len() == self.spec_spots(),
            forall|i: int|
                0 <= i < hands@.len() ==> (#[trigger] hands@[i]).wf() && hands@[i]@
                    == self.players()[i],
    {
        self.player_hands.as_slice()
    }

    /// Returns true if the dealer has blackjack
    ///
    /// A dealer's blackjack ends the round: the hand is turned up.
    pub fn peek(&mut self) -> (natural: bool)
        requires
            old(self).wf(),
            old(self).spec_can_peek(),
        ensures
            final(self).wf(),
            natural == is_natural(old(self).dealer_cards()),
            final(self).spec_phase() == if natural {
                Phase::Flipped
            } else {
                Phase::Dealt
            },
            final(self).same_cards(old(self)),
    {
        let natural = self.dealer.blackjack();
        if natural {
            self.phase = Phase::Flipped;
        }
        assert(self.players() == old(self).players());
        natural
    }

    /// Turns the dealer's hand up without a draw: the dealer stands.
    pub fn flip(&mut self)
        requires
            old(self).wf(),
            old(self).spec_phase() != Phase::Open,
        ensures
            final(self).wf(),
            final(self).spec_phase() == Phase::Flipped,
            final(self).same_cards(old(self)),
    {
        self.phase = Phase::Flipped;
        assert(self.players() == old(self).players());
    }

    /// The dealer value
    pub fn dealer_value(&self) -> (points: Option<u8>)
        requires
            self.wf(),
        ensures
            points == if self.spec_phase() == Phase::Open {
                None
            } else {
                classify(self.dealer_cards()).spec_value()
            },
    {
        if self.phase == Phase::Open {
            return None;
        }
        self.dealer.value()
    }

    /// Get the outcome for a player's hand
    pub fn get_outcome(&self, player: usize) -> (result: Outcome)
        requires
            self.wf(),
            player < self.spec_spots(),
        ensures
            result == outcome_of(
                classify(self.players()[player as int]),
                classify(self.dealer_cards()),
            ),
    {
        outcome(&self.player_hands[player], &self.dealer)
    }

    /// Clear the current hands, once the round has been played out
    pub fn clear_hands(&mut self)
        requires
            old(self).wf(),
            old(self).spec_can_clear(),
        ensures
            final(self).wf(),
            final(self).spec_phase() == Phase::Open,
            final(self).hands_empty(),
            final(self).spec_spots() == old(self).spec_spots(),
            final(self).spec_shoe() == old(self).spec_shoe(),
            final(self).limit() == old(self).limit(),
            final(self).decks() == old(self).decks(),
    {
        self.dealer = Hand::default();
        self.empty_spots();
        self.phase = Phase::Open;
    }

    /// Resets the table
    ///
    /// The shoe is filled and shuffled again and the hands are cleared.
    pub fn reset(&mut self)
        requires
            old(self).wf(),
            old(self).spec_can_reset(),
        ensures
            final(self).wf(),
            final(self).spec_phase() == Phase::Open,
            final(self).hands_empty(),
            final(self).spec_spots() == old(self).spec_spots(),
            final(self).limit() == old(self).limit(),
            final(self).decks() == old(self).decks(),
            final(self).spec_shoe()@.to_multiset() == pack(old(self).decks()).to_multiset(),
            final(self).spec_shoe()@.len() == 52 * old(self).decks(),
            final(self).spec_shoe().dealt() == Seq::<Card>::empty(),
    {
        self.shoe = Shoe::new(self.num_decks);
        self.dealer = Hand::default();
        self.empty_spots();
    }

    /// Whether the hands may be dealt.
    #[verifier::when_used_as_spec(spec_can_deal)]
    pub fn can_deal(&self) -> (ok: bool)
        requires
            self.wf(),
        ensures
            ok == self.spec_can_deal(),
    {
        if self.phase != Phase::Open {
            return false;
        }
        let needed: u128 = 2 * (self.player_hands.len() as u128 + 1);
        let have: u128 = if self.shoe.penetrated_past(self.max_penetration) {
            self.num_decks as u128 * 52
        } else {
            self.shoe.len() as u128
        };
        have >= needed
    }

    /// Whether the dealer's hand may be peeked at.
    #[verifier::when_used_as_spec(spec_can_peek)]
    pub fn can_peek(&self) -> (ok: bool)
        ensures
            ok == self.spec_can_peek(),
    {
        self.phase == Phase::Dealt
    }

    /// Whether a spot may be hit.
    #[verifier::when_used_as_spec(spec_can_hit)]
    pub fn can_hit(&self, player: usize) -> (ok: bool)
        requires
            self.wf(),
        ensures
            ok == self.spec_can_hit(player),
    {
        self.phase == Phase::Dealt && player < self.player_hands.len() && (
        self.player_hands[player].busted() || !self.shoe.is_empty())
    }

    /// Whether the dealer may be hit.
    #[verifier::when_used_as_spec(spec_can_dealer_hit)]
    pub fn can_dealer_hit(&self) -> (ok: bool)
        requires
            self.wf(),
        ensures
            ok == self.spec_can_dealer_hit(),
    {
        self.phase != Phase::Open && (self.dealer.busted() || !self.shoe.is_empty())
    }

    /// Whether the hands may be cleared.
    #[verifier::when_used_as_spec(spec_can_clear)]
    pub fn can_clear(&self) -> (ok: bool)
        ensures
            ok == self.spec_can_clear(),
    {
        self.phase == Phase::Flipped
    }

    /// Whether the table may be reset.
    #[verifier::when_used_as_spec(spec_can_reset)]
    pub fn can_reset(&self) -> (ok: bool)
        ensures
            ok == self.spec_can_reset(),
    {
        self.phase == Phase::Open
    }

    /// One card from the top of the shoe to each spot in turn, then one
    /// to the dealer.
    fn deal_round(&mut self)
        requires
            old(self).sound(),
            old(self).spec_shoe()@.len() >= old(self).spec_spots() + 1,
        ensures
            final(self).sound(),
            final(self).round_dealt(old(self)),
    {
        let spots = self.player_hands.len();
        let ghost top = self.shoe@;
        let ghost last = top.len() - 1;
        let mut i: usize = 0;
        while i < spots
            invariant
                i <= spots,
                spots == self.player_hands@.len(),
                spots == old(self).player_hands@.len(),
                top == old(self).shoe@,
                last == top.len() - 1,
                top.len() >= spots + 1,
                self.sound(),
                self.dealer == old(self).dealer,
                self.phase == old(self).phase,
                self.max_penetration == old(self).max_penetration,
                self.num_decks == old(self).num_decks,
                self.shoe@ == top.take(top.len() - i),
                self.shoe.dealt() == old(self).shoe.dealt() + Seq::new(
                    i as nat,
                    |t: int| top[last - t],
                ),
                forall|j: int|
                    #![trigger self.player_hands@[j]]
                    0 <= j < i ==> self.player_hands@[j]@ == old(self).player_hands@[j]@.push(
                        top[last - j],
                    ),
                forall|j: int|
                    #![trigger self.player_hands@[j]]
                    i <= j < spots ==> self.player_hands@[j] == old(self).player_hands@[j],
            decreases spots - i,
        {
            let card = self.shoe.deal().unwrap();
            self.player_hands[i].insert(card);
            proof {
                assert(self.shoe@ =~= top.take(top.len() - (i + 1)));
                assert(self.shoe.dealt() =~= old(self).shoe.dealt() + Seq::new(
                    (i + 1) as nat,
                    |t: int| top[last - t],
                ));
            }
            i = i + 1;
        }
        let card = self.shoe.deal().unwrap();
        self.dealer.insert(card);
        proof {
            assert(self.shoe@ =~= top.take(top.len() - (spots + 1)));
            assert(self.shoe.dealt() =~= old(self).shoe.dealt() + Seq::new(
                (spots + 1) as nat,
                |t: int| top[last - t],
            ));
        }
    }

    /// Deal the initial hands for player and dealers, and say whether the
    /// shoe was reshuffled first
    ///
    /// Where the shoe is past the limit it is replaced by a fresh one.
    /// Then each spot in turn and the dealer get a card from the top of
    /// the shoe, and each a second one in the same order.
    pub fn deal(&mut self) -> (reshuffled: bool)
        requires
            old(self).wf(),
            old(self).spec_can_deal(),
        ensures
            final(self).wf(),
            final(self).spec_phase() == Phase::Dealt,
            reshuffled == old(self).reshuffle_due(),
            final(self).spec_spots() == old(self).spec_spots(),
            final(self).limit() == old(self).limit(),
            final(self).decks() == old(self).decks(),
            final(self).spec_shoe().spec_num_decks() == old(self).decks(),
            final(self).spec_shoe().dealt().len() >= old(self).cards_needed(),
            final(self).dealt_out(
                final(self).spec_shoe().dealt().skip(
                    final(self).spec_shoe().dealt().len() - old(self).cards_needed(),
                ),
            ),
            reshuffled ==> {
                let needed = old(self).cards_needed();
                &&& final(self).spec_shoe().dealt().len() == needed
                &&& final(self).spec_shoe()@.len() + needed == 52 * old(self).decks()
            },
            !reshuffled ==> {
                let top = old(self).spec_shoe()@;
                let needed = old(self).cards_needed();
                &&& final(self).spec_shoe()@ == top.take(top.len() - needed)
                &&& final(self).spec_shoe().dealt() == old(self).spec_shoe().dealt() + Seq::new(
                    needed,
                    |t: int| top[top.len() - 1 - t],
                )
            },
    {
        let reshuffled = self.shoe.penetrated_past(self.max_penetration);
        if reshuffled {
            self.shoe = Shoe::new(self.num_decks);
        }
        let ghost start = *self;
        self.deal_round();
        let ghost mid = *self;
        self.deal_round();
        self.phase = Phase::Dealt;
        proof {
            let n = start.spec_spots() as int;
            let needed = 2 * (n + 1);
            let top = start.spec_shoe()@;
            let last = top.len() - 1;
            let after_one = mid.spec_shoe()@;
            let the_dealt = self.spec_shoe().dealt();
            let all = Seq::new(needed as nat, |t: int| top[last - t]);
            assert(the_dealt =~= start.spec_shoe().dealt() + all);
            let drawn = the_dealt.skip(the_dealt.len() - needed);
            assert(drawn =~= all);
            assert(self.spec_shoe()@ =~= top.take(top.len() - needed));
            assert forall|i: int| 0 <= i < n implies #[trigger] self.players()[i] == seq![
                drawn[i],
                drawn[n + 1 + i],
            ] by {
                assert(start.players()[i] =~= Seq::<Card>::empty());
                assert(mid.players()[i] == start.players()[i].push(top[last - i]));
                assert(self.players()[i] == mid.players()[i].push(
                    after_one[after_one.len() - 1 - i],
                ));
                assert(self.players()[i] =~= seq![drawn[i], drawn[n + 1 + i]]);
            }
            assert(start.dealer_cards() =~= Seq::<Card>::empty());
            assert(self.dealer_cards() =~= seq![drawn[n], drawn[2 * n + 1]]);
            if reshuffled {
                self.shoe.lemma_invariants();
            }
        }
        reshuffled
    }

    /// Deal a player an additional card. Returns true if the player busted.
    ///
    /// A hand that is bust already gets no card.
    pub fn player_hit(&mut self, player: usize) -> (bust: bool)
        requires
            old(self).wf(),
            old(self).spec_can_hit(player),
        ensures
            final(self).wf(),
            final(self).spec_phase() == Phase::Dealt,
            final(self).dealer_cards() == old(self).dealer_cards(),
            final(self).limit() == old(self).limit(),
            final(self).decks() == old(self).decks(),
            bust == (hard_total(final(self).players()[player as int]) > 21),
            if hard_total(old(self).players()[player as int]) > 21 {
                &&& final(self).players() == old(self).players()
                &&& final(self).spec_shoe() == old(self).spec_shoe()
            } else {
                let card = old(self).spec_shoe()@.last();
                &&& final(self).players() == old(self).players().update(
                    player as int,
                    old(self).players()[player as int].push(card),
                )
                &&& drew(old(self).spec_shoe(), final(self).spec_shoe(), card)
            },
    {
        if self.player_hands[player].busted() {
            return true;
        }
        let card = self.shoe.deal().unwrap();
        self.player_hands[player].insert(card);
        proof {
            assert(self.players() =~= old(self).players().update(
                player as int,
                old(self).players()[player as int].push(card),
            ));
        }
        self.player_hands[player].busted()
    }

    /// The dealer hits. Returns true if the dealer busted.
    ///
    /// A dealer who is bust already gets no card. Any card the dealer
    /// draws turns the hand up.
    pub fn dealer_hit(&mut self) -> (bust: bool)
        requires
            old(self).wf(),
            old(self).spec_can_dealer_hit(),
        ensures
            final(self).wf(),
            final(self).players() == old(self).players(),
            final(self).limit() == old(self).limit(),
            final(self).decks() == old(self).decks(),
            final(self).spec_phase() == Phase::Flipped,
            bust == (hard_total(final(self).dealer_cards()) > 21),
            if hard_total(old(self).dealer_cards()) > 21 {
                &&& final(self).dealer_cards() == old(self).dealer_cards()
                &&& final(self).spec_shoe() == old(self).spec_shoe()
            } else {
                let card = old(self).spec_shoe()@.last();
                &&& final(self).dealer_cards() == old(self).dealer_cards().push(card)
                &&& drew(old(self).spec_shoe(), final(self).spec_shoe(), card)
            },
    {
        proof {
            lemma_totals(self.dealer@);
        }
        if self.dealer.busted() {
            return true;
        }
        let card = self.shoe.deal().unwrap();
        self.dealer.insert(card);
        self.phase = Phase::Flipped;
        assert(self.players() == old(self).players());
        self.dealer.busted()
    }

    /// Puts an empty hand on every spot.
    fn empty_spots(&mut self)
        requires
            old(self).shoe.wf(),
            old(self).dealer.wf(),
        ensures
            final(self).shoe == old(self).shoe,
            final(self).dealer == old(self).dealer,
            final(self).max_penetration == old(self).max_penetration,
            final(self).num_decks == old(self).num_decks,
            final(self).phase == old(self).phase,
            final(self).player_hands@.len() == old(self).player_hands@.len(),
            forall|i: int|
                #![trigger final(self).player_hands@[i]]
                0 <= i < final(self).player_hands@.len() ==> final(self).player_hands@[i].wf()
                    && final(self).player_hands@[i]@.len() == 0,
    {
        let spots = self.player_hands.len();
        let mut i: usize = 0;
        while i < spots
            invariant
                i <= spots,
                spots == self.player_hands@.len(),
                self.shoe == old(self).shoe,
                self.dealer == old(self).dealer,
                self.max_penetration == old(self).max_penetration,
                self.num_decks == old(self).num_decks,
                self.phase == old(self).phase,
                forall|j: int|
                    0 <= j < i ==> (#[trigger] self.player_hands@[j]).wf()
                        && self.player_hands@[j]@.len() == 0,
            decreases spots - i,
        {
            self.player_hands[i] = Hand::default();
            i = i + 1;
        }
    }
}

} // verus!
