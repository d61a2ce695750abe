//! A shoe from which to deal cards, and the count of what has left it.
use crate::card::{Card, Rank, Suit};
use crate::tally::{
    lemma_same_counts, lemma_tally_bounds, lemma_tally_concat, lemma_tally_permutation,
    lemma_tally_push, lemma_tally_run, lemma_tally_split, marks, run, tally,
};
use vstd::prelude::*;

verus! {

/// The high-low weight of a card, as a term to sum.
pub open spec fn weight() -> spec_fn(Card) -> int {
    |c: Card| c.spec_count()
}

/// One for a card that raises the count, nothing for any other.
pub open spec fn raises() -> spec_fn(Card) -> int {
    |c: Card|
        if c.spec_count() > 0 {
            1int
        } else {
            0int
        }
}

/// Minus one for a card that lowers the count, nothing for any other.
pub open spec fn lowers() -> spec_fn(Card) -> int {
    |c: Card|
        if c.spec_count() < 0 {
            -1int
        } else {
            0int
        }
}

/// The sum of the high-low weights of the cards.
pub open spec fn count_of(cards: Seq<Card>) -> int {
    tally(cards, weight())
}

/// The count of any cards is the number of them that raise it less the
/// number of them that lower it.
pub proof fn lemma_count_is_low_less_high(cards: Seq<Card>)
    ensures
        count_of(cards) == tally(cards, raises()) + tally(cards, lowers()),
        0 <= tally(cards, raises()) <= cards.len(),
        -cards.len() <= tally(cards, lowers()) <= 0,
{
    lemma_tally_split(cards, weight(), raises(), lowers());
    lemma_tally_bounds(cards, raises(), 0, 1);
    lemma_tally_bounds(cards, lowers(), -1, 0);
}

/// The suits, in the order a pack is laid out in.
pub open spec fn suit_at(i: int) -> Suit {
    if i == 0 {
        Suit::Heart
    } else if i == 1 {
        Suit::Diamond
    } else if i == 2 {
        Suit::Club
    } else {
        Suit::Spade
    }
}

/// The ranks, in the order a pack is laid out in.
pub open spec fn rank_at(i: int) -> Rank {
    if i == 0 {
        Rank::Ace
    } else if i == 1 {
        Rank::Two
    } else if i == 2 {
        Rank::Three
    } else if i == 3 {
        Rank::Four
    } else if i == 4 {
        Rank::Five
    } else if i == 5 {
        Rank::Six
    } else if i == 6 {
        Rank::Seven
    } else if i == 7 {
        Rank::Eight
    } else if i == 8 {
        Rank::Nine
    } else if i == 9 {
        Rank::Ten
    } else if i == 10 {
        Rank::Jack
    } else if i == 11 {
        Rank::Queen
    } else {
        Rank::King
    }
}

/// The first `ranks` ranks of one suit, `decks` cards of each, rank by rank.
pub open spec fn suit_rows(suit: Suit, ranks: nat, decks: nat) -> Seq<Card>
    decreases ranks,
{
    if ranks == 0 {
        Seq::empty()
    } else {
        suit_rows(suit, (ranks - 1) as nat, decks) + run(
            Card::spec_new(suit, rank_at(ranks - 1)),
            decks,
        )
    }
}

/// The first `suits` suits of `decks` decks, suit by suit.
pub open spec fn pack_rows(suits: nat, decks: nat) -> Seq<Card>
    decreases suits,
{
    if suits == 0 {
        Seq::empty()
    } else {
        pack_rows((suits - 1) as nat, decks) + suit_rows(suit_at(suits - 1), 13, decks)
    }
}

/// `decks` decks as they lie before the shuffle: the four suits in turn,
/// in each the thirteen ranks in turn, and of each card one per deck.
pub open spec fn pack(decks: nat) -> Seq<Card> {
    pack_rows(4, decks)
}

/// The fifty-two cards of a deck, in the order a pack is laid out in.
pub open spec fn kind(k: int) -> Card {
    Card::spec_new(suit_at(k / 13), rank_at(k % 13))
}

/// Every card is one of the fifty-two, and no two of them are the same.
pub proof fn lemma_kinds(card: Card) -> (k: int)
    ensures
        0 <= k < 52,
        kind(k) == card,
        forall|j: int| 0 <= j < 52 && j != k ==> kind(j) != card,
{
    broadcast use Card::lemma_new_fields;

    card.lemma_card_is_suit_and_rank();
    let s = card.spec_suit().spec_index() as int;
    let r = card.spec_rank().spec_index() as int;
    13 * s + r
}

/// A pack of `decks` decks holds every card `decks` times.
pub proof fn lemma_pack_counts(decks: nat, card: Card)
    ensures
        tally(pack(decks), marks(card)) == decks,
{
    broadcast use Card::lemma_new_fields;

    card.lemma_card_is_suit_and_rank();
    let f = marks(card);
    assert forall|suit: Suit| #[trigger]
        rank_sum(suit, 13, f) == if suit == card.spec_suit() {
            1int
        } else {
            0int
        } by {
        reveal_with_fuel(rank_sum, 14);
    }
    reveal_with_fuel(deck_sum, 5);
    assert(deck_sum(4, f) == 1);
    lemma_pack_rows_tally(4, decks, f);
    assert(decks * 1 == decks) by (nonlinear_arith);
}

/// The sum of `f` over one card of each of the first `ranks` ranks of a suit.
pub open spec fn rank_sum(suit: Suit, ranks: nat, f: spec_fn(Card) -> int) -> int
    decreases ranks,
{
    if ranks == 0 {
        0
    } else {
        rank_sum(suit, (ranks - 1) as nat, f) + f(Card::spec_new(suit, rank_at(ranks - 1)))
    }
}

/// The sum of `f` over one deck's cards of the first `suits` suits.
pub open spec fn deck_sum(suits: nat, f: spec_fn(Card) -> int) -> int
    decreases suits,
{
    if suits == 0 {
        0
    } else {
        deck_sum((suits - 1) as nat, f) + rank_sum(suit_at(suits - 1), 13, f)
    }
}

/// A sum over the rows of a suit is the sum over one card of each rank,
/// once per deck.
pub proof fn lemma_suit_rows_tally(suit: Suit, ranks: nat, decks: nat, f: spec_fn(Card) -> int)
    ensures
        tally(suit_rows(suit, ranks, decks), f) == decks * rank_sum(suit, ranks, f),
        suit_rows(suit, ranks, decks).len() == ranks * decks,
    decreases ranks,
{
    if ranks == 0 {
        assert(decks * 0 == 0) by (nonlinear_arith);
        assert(0 * decks == 0) by (nonlinear_arith);
    } else {
        let before = (ranks - 1) as nat;
        let card = Card::spec_new(suit, rank_at(ranks - 1));
        lemma_suit_rows_tally(suit, before, decks, f);
        lemma_tally_concat(suit_rows(suit, before, decks), run(card, decks), f);
        lemma_tally_run(card, decks, f);
        let a = rank_sum(suit, before, f);
        let b = f(card);
        assert(decks * (a + b) == decks * a + decks * b) by (nonlinear_arith);
        assert(ranks * decks == before * decks + decks) by (nonlinear_arith)
            requires
                ranks == before + 1,
        ;
    }
}

/// A sum over a pack is the sum over one deck, once per deck.
pub proof fn lemma_pack_rows_tally(suits: nat, decks: nat, f: spec_fn(Card) -> int)
    ensures
        tally(pack_rows(suits, decks), f) == decks * deck_sum(suits, f),
        pack_rows(suits, decks).len() == suits * 13 * decks,
    decreases suits,
{
    if suits == 0 {
        assert(decks * 0 == 0) by (nonlinear_arith);
        assert(0 * 13 * decks == 0) by (nonlinear_arith);
    } else {
        let before = (suits - 1) as nat;
        let suit = suit_at(suits - 1);
        lemma_pack_rows_tally(before, decks, f);
        lemma_suit_rows_tally(suit, 13, decks, f);
        lemma_tally_concat(pack_rows(before, decks), suit_rows(suit, 13, decks), f);
        let a = deck_sum(before, f);
        let b = rank_sum(suit, 13, f);
        assert(decks * (a + b) == decks * a + decks * b) by (nonlinear_arith);
        assert(suits * 13 * decks == before * 13 * decks + 13 * decks) by (nonlinear_arith)
            requires
                suits == before + 1,
        ;
    }
}

/// In one suit the weights cancel, five ranks raise the count and five
/// lower it.
pub proof fn lemma_suit_balance(suit: Suit)
    ensures
        rank_sum(suit, 13, weight()) == 0,
        rank_sum(suit, 13, raises()) == 5,
        rank_sum(suit, 13, lowers()) == -5,
{
    broadcast use Card::lemma_new_fields;

    reveal_with_fuel(rank_sum, 14);
}

/// A pack has fifty-two cards a deck; its weights cancel; twenty cards a
/// deck raise the count and twenty lower it.
pub proof fn lemma_pack_balance(decks: nat)
    ensures
        pack(decks).len() == 52 * decks,
        count_of(pack(decks)) == 0,
        tally(pack(decks), raises()) == 20 * decks,
        tally(pack(decks), lowers()) == -20 * decks,
{
    reveal_with_fuel(deck_sum, 5);
    lemma_suit_balance(Suit::Heart);
    lemma_suit_balance(Suit::Diamond);
    lemma_suit_balance(Suit::Club);
    lemma_suit_balance(Suit::Spade);
    lemma_pack_rows_tally(4, decks, weight());
    lemma_pack_rows_tally(4, decks, raises());
    lemma_pack_rows_tally(4, decks, lowers());
    assert(decks * 0 == 0) by (nonlinear_arith);
    assert(decks * 20 == 20 * decks) by (nonlinear_arith);
    assert(decks * -20 == -20 * decks) by (nonlinear_arith);
    assert(4 * 13 * decks == 52 * decks) by (nonlinear_arith);
}

/// A trait for card counting strategies
///
/// A strategy gives each card a weight and keeps the sum of the weights
/// of the cards it has seen. The count it reports is that sum over the
/// number of decks, as the two numbers of a fraction.
pub trait Counter: Sized {
    /// The weight the strategy gives each card.
    spec fn weights() -> spec_fn(Card) -> int;

    /// The sum of the weights of the cards seen since the last clear.
    spec fn total(&self) -> int;

    /// The number of decks the counter was made for.
    spec fn decks(&self) -> nat;

    /// Create a new counter on `num_decks` decks
    fn new(num_decks: usize) -> (counter: Self)
        ensures
            counter.total() == 0,
            counter.decks() == num_decks,
    ;

    /// Clears the counter
    fn clear(&mut self)
        ensures
            final(self).total() == 0,
            final(self).decks() == old(self).decks(),
    ;

    /// Get the current count: the running total, to be divided by the
    /// number of decks.
    fn count(&self) -> (ratio: (i64, usize))
        ensures
            ratio.0 == self.total(),
            ratio.1 == self.decks(),
    ;

    /// Update the count with a dealt card
    fn insert(&mut self, card: Card)
        requires
            i64::MIN <= old(self).total() + Self::weights()(card) <= i64::MAX,
        ensures
            final(self).total() == old(self).total() + Self::weights()(card),
            final(self).decks() == old(self).decks(),
    ;

    /// Update the count with multiple dealt cards
    ///
    /// The cards are counted one by one, first to last: the total must
    /// fit after each of them.
    fn update(&mut self, cards: &[Card])
        requires
            forall|k: int|
                0 <= k <= cards@.len() ==> i64::MIN <= old(self).total() + tally(
                    #[trigger] cards@.take(k),
                    Self::weights(),
                ) <= i64::MAX,
        ensures
            final(self).total() == old(self).total() + tally(cards@, Self::weights()),
            final(self).decks() == old(self).decks(),
    {
        let mut i: usize = 0;
        while i < cards.len()
            invariant
                i <= cards@.len(),
                self.total() == old(self).total() + tally(
                    cards@.take(i as int),
                    Self::weights(),
                ),
                self.decks() == old(self).decks(),
                forall|k: int|
                    0 <= k <= cards@.len() ==> i64::MIN <= old(self).total() + tally(
                        #[trigger] cards@.take(k),
                        Self::weights(),
                    ) <= i64::MAX,
            decreases cards@.len() - i,
        {
            proof {
                let seen = cards@.take(i as int);
                assert(cards@.take(i + 1) =~= seen.push(cards@[i as int]));
                lemma_tally_push(seen, cards@[i as int], Self::weights());
            }
            self.insert(cards[i]);
            i = i + 1;
        }
        assert(cards@.take(i as int) =~= cards@);
    }
}

/// The high-low card counting strategy
pub struct HiLoCounter {
    running_count: i64,
    num_decks: usize,
}

impl Counter for HiLoCounter {
    open spec fn weights() -> spec_fn(Card) -> int {
        weight()
    }

    closed spec fn total(&self) -> int {
        self.running_count as int
    }

    closed spec fn decks(&self) -> nat {
        self.num_decks as nat
    }

    fn new(num_decks: usize) -> (counter: Self) {
        Self { running_count: 0, num_decks }
    }

    fn clear(&mut self) {
        self.running_count = 0;
    }

    fn count(&self) -> (ratio: (i64, usize)) {
        (self.running_count, self.num_decks)
    }

    fn insert(&mut self, card: Card) {
        self.running_count = self.running_count + card.count() as i64;
    }
}

/// Whether `dealt` cards out of `total` are more than `limit` millionths of them.
pub open spec fn exceeds(dealt: nat, total: nat, limit: nat) -> bool {
    dealt * 1_000_000 > limit * total
}

/// The thread's random number generator, as `rand` hands it out. Nothing
/// in it is read here: it is made and passed on.
#[verifier::external_type_specification]
#[verifier::external_body]
pub struct ExThreadRng(rand::rngs::ThreadRng);

/// `rand::rng` hands out a handle to the thread's generator, which the
/// operating system has seeded. Nothing is claimed of it.
pub assume_specification[ rand::rng ]() -> (rng: rand::rngs::ThreadRng)
;

/// Shuffles the cards with `rand`'s `SliceRandom::shuffle`.
///
/// Claimed, and not proved: the shuffle only swaps items of the slice, so
/// afterwards the cards are the same cards, each as often as before, in
/// some order. Nothing is claimed of the order.
#[verifier::external_body]
fn shuffle_cards(cards: &mut Vec<Card>, rng: &mut rand::rngs::ThreadRng)
    ensures
        final(cards)@.to_multiset() == old(cards)@.to_multiset(),
{
    rand::seq::SliceRandom::shuffle(cards.as_mut_slice(), rng);
}

/// A shoe of cards
pub struct Shoe {
    /// the cards, the next one to deal last
    cards: Vec<Card>,
    /// The running count
    counter: HiLoCounter,
    /// the number of decks
    decks: usize,
    /// the cards dealt since the shoe was filled, the first one first
    dealt: Ghost<Seq<Card>>,
}

impl View for Shoe {
    type V = Seq<Card>;

    /// The cards still in the shoe; the last one is dealt next.
    closed spec fn view(&self) -> Seq<Card> {
        self.cards@
    }
}

impl core::ops::Index<usize> for Shoe {
    type Output = Card;

    /// The card at `index`, counted from the bottom of the shoe.
    fn index(&self, index: usize) -> (card: &Card)
        ensures
            *card == self@[index as int],
    {
        &self.cards[index]
    }
}

impl vstd::std_specs::core::IndexSpecImpl<usize> for Shoe {
    open spec fn index_req(&self, index: &usize) -> bool {
        *index < self@.len()
    }
}

impl Shoe {
    /// The cards dealt since the shoe was filled, in the order they left.
    pub closed spec fn dealt(&self) -> Seq<Card> {
        self.dealt@
    }

    /// The number of decks loaded into the shoe.
    pub closed spec fn spec_num_decks(&self) -> nat {
        self.decks as nat
    }

    /// The sum of the weights that the counter has seen.
    pub closed spec fn running_total(&self) -> int {
        self.counter.total()
    }

    /// How far the shoe has been dealt, as the two numbers of a fraction:
    /// the cards dealt, over the cards of the full shoe.
    pub open spec fn spec_penetration(&self) -> (nat, nat) {
        (self.dealt().len(), 52 * self.spec_num_decks())
    }

    /// The cards in the shoe and the cards dealt from it are together the
    /// cards of its decks, and the counter has counted the cards dealt.
    pub closed spec fn wf(&self) -> bool {
        &&& (self.dealt@ + self.cards@).to_multiset() == pack(self.decks as nat).to_multiset()
        &&& self.counter.total() == count_of(self.dealt@)
        &&& self.counter.decks() == self.decks
        &&& 52 * self.decks <= usize::MAX
    }

    /// What a well-formed shoe keeps at all times: no card is lost or
    /// made, the running total is the sum of the weights of the cards
    /// dealt, and it stays within twenty a deck either way.
    pub proof fn lemma_invariants(&self)
        requires
            self.wf(),
        ensures
            (self.dealt() + self@).to_multiset() == pack(self.spec_num_decks()).to_multiset(),
            self@.len() + self.dealt().len() == 52 * self.spec_num_decks() <= usize::MAX,
            self.running_total() == count_of(self.dealt()),
            -20 * self.spec_num_decks() <= self.running_total() <= 20 * self.spec_num_decks(),
    {
        broadcast use vstd::seq_lib::group_to_multiset_ensures;

        let all = self.dealt@ + self.cards@;
        let decks = self.decks as nat;
        lemma_pack_balance(decks);
        assert(all.to_multiset().len() == all.len());
        assert(pack(decks).to_multiset().len() == pack(decks).len());
        lemma_tally_permutation(all, pack(decks), raises());
        lemma_tally_permutation(all, pack(decks), lowers());
        lemma_tally_concat(self.dealt@, self.cards@, raises());
        lemma_tally_concat(self.dealt@, self.cards@, lowers());
        lemma_count_is_low_less_high(self.dealt@);
        lemma_count_is_low_less_high(self.cards@);
    }

    /// Once every card of a shoe has been dealt, its running total is
    /// back at zero, whatever order the cards came in.
    pub proof fn lemma_exhausted_is_balanced(&self)
        requires
            self.wf(),
            self@.len() == 0,
        ensures
            self.running_total() == 0,
            self.dealt().len() == 52 * self.spec_num_decks(),
    {
        self.lemma_invariants();
        let decks = self.decks as nat;
        assert(self.dealt@ + self.cards@ =~= self.dealt@);
        lemma_pack_balance(decks);
        lemma_tally_permutation(self.dealt@, pack(decks), weight());
    }

    /// A full shoe of `decks` decks as the cards lie before any shuffle:
    /// the last card of the pack is dealt first.
    pub fn unshuffled(decks: usize) -> (shoe: Self)
        ensures
            shoe.wf(),
            shoe@ == pack(decks as nat),
            shoe.dealt() == Seq::<Card>::empty(),
            shoe.spec_num_decks() == decks,
            shoe.running_total() == 0,
    {
        let suits = [Suit::Heart, Suit::Diamond, Suit::Club, Suit::Spade];
        let ranks = [
            Rank::Ace,
            Rank::Two,
            Rank::Three,
            Rank::Four,
            Rank::Five,
            Rank::Six,
            Rank::Seven,
            Rank::Eight,
            Rank::Nine,
            Rank::Ten,
            Rank::Jack,
            Rank::Queen,
            Rank::King,
        ];
        let mut cards: Vec<Card> = Vec::new();
        let mut s: usize = 0;
        while s < 4
            invariant
                s <= 4,
                cards@ == pack_rows(s as nat, decks as nat),
                forall|i: int| 0 <= i < 4 ==> suits@[i] == suit_at(i),
                forall|i: int| 0 <= i < 13 ==> ranks@[i] == rank_at(i),
            decreases 4 - s,
        {
            let suit = suits[s];
            let mut r: usize = 0;
            while r < 13
                invariant
                    s < 4,
                    r <= 13,
                    suit == suit_at(s as int),
                    cards@ == pack_rows(s as nat, decks as nat) + suit_rows(
                        suit,
                        r as nat,
                        decks as nat,
                    ),
                    forall|i: int| 0 <= i < 13 ==> ranks@[i] == rank_at(i),
                decreases 13 - r,
            {
                let rank = ranks[r];
                let mut d: usize = 0;
                while d < decks
                    invariant
                        d <= decks,
                        r < 13,
                        rank == rank_at(r as int),
                        cards@ == pack_rows(s as nat, decks as nat) + suit_rows(
                            suit,
                            r as nat,
                            decks as nat,
                        ) + run(Card::spec_new(suit, rank), d as nat),
                    decreases decks - d,
                {
                    cards.push(Card::new(suit, rank));
                    d = d + 1;
                }
                r = r + 1;
            }
            s = s + 1;
        }
        let counter = HiLoCounter::new(decks);
        let shoe = Self { cards, counter, decks, dealt: Ghost(Seq::empty()) };
        proof {
            assert(shoe.dealt@ + shoe.cards@ =~= shoe.cards@);
            lemma_pack_balance(decks as nat);
            assert(shoe.cards.len() == shoe.cards@.len());
        }
        shoe
    }

    /// A full shoe of `decks` decks in the order given, the last of
    /// `cards` to be dealt first; none where `cards` are not the cards of
    /// `decks` decks, each as often as there are decks.
    pub fn stacked(decks: usize, cards: Vec<Card>) -> (shoe: Option<Self>)
        ensures
            shoe is Some <==> cards@.to_multiset() == pack(decks as nat).to_multiset(),
            shoe matches Some(s) ==> {
                &&& s.wf()
                &&& s@ == cards@
                &&& s.dealt() == Seq::<Card>::empty()
                &&& s.spec_num_decks() == decks
                &&& s.running_total() == 0
            },
    {
        let mut counts: Vec<usize> = vec![0usize; 52];
        let mut i: usize = 0;
        while i < cards.len()
            invariant
                i <= cards@.len(),
                counts@.len() == 52,
                forall|k: int|
                    0 <= k < 52 ==> #[trigger] counts@[k] == tally(
                        cards@.take(i as int),
                        marks(kind(k)),
                    ),
            decreases cards@.len() - i,
        {
            let card = cards[i];
            let k = Self::kind_index(card);
            proof {
                let seen = cards@.take(i as int);
                assert(cards@.take(i + 1) =~= seen.push(card));
                lemma_kinds(card);
                assert forall|j: int| 0 <= j < 52 implies tally(
                    cards@.take(i + 1),
                    marks(kind(j)),
                ) == counts@[j] + if j == k {
                    1int
                } else {
                    0int
                } by {
                    lemma_tally_push(seen, card, marks(kind(j)));
                }
                lemma_tally_bounds(cards@.take(i + 1), marks(kind(k as int)), 0, 1);
            }
            counts[k] = counts[k] + 1;
            i = i + 1;
        }
        assert(cards@.take(i as int) =~= cards@);
        let mut k: usize = 0;
        while k < 52
            invariant
                k <= 52,
                counts@.len() == 52,
                forall|j: int| 0 <= j < k ==> #[trigger] counts@[j] == decks,
                forall|j: int|
                    0 <= j < 52 ==> #[trigger] counts@[j] == tally(cards@, marks(kind(j))),
            decreases 52 - k,
        {
            if counts[k] != decks {
                proof {
                    if cards@.to_multiset() == pack(decks as nat).to_multiset() {
                        lemma_tally_permutation(cards@, pack(decks as nat), marks(kind(k as int)));
                        lemma_pack_counts(decks as nat, kind(k as int));
                    }
                }
                return None;
            }
            k = k + 1;
        }
        proof {
            assert forall|card: Card| tally(cards@, #[trigger] marks(card)) == tally(
                pack(decks as nat),
                marks(card),
            ) by {
                let j = lemma_kinds(card);
                assert(counts@[j] == decks);
                lemma_pack_counts(decks as nat, card);
            }
            lemma_same_counts(cards@, pack(decks as nat));
            lemma_pack_balance(decks as nat);
            broadcast use vstd::seq_lib::group_to_multiset_ensures;

            assert(cards@.to_multiset().len() == cards@.len());
            assert(pack(decks as nat).to_multiset().len() == pack(decks as nat).len());
            assert(cards.len() == cards@.len());
        }
        let counter = HiLoCounter::new(decks);
        let shoe = Self { cards, counter, decks, dealt: Ghost(Seq::empty()) };
        proof {
            assert(shoe.dealt@ + shoe.cards@ =~= shoe.cards@);
        }
        Some(shoe)
    }

    /// Where a card stands among the fifty-two of a deck.
    fn kind_index(card: Card) -> (k: usize)
        ensures
            k < 52,
            kind(k as int) == card,
    {
        proof {
            card.lemma_card_is_suit_and_rank();
        }
        13 * (card.suit().index() as usize) + card.rank().index() as usize
    }

    /// Create a new shoe with the given number of decks
    ///
    /// The shoe is full and shuffled: it holds the cards of `decks` decks
    /// in an order that no contract can name, and nothing has been dealt.
    pub fn new(decks: usize) -> (shoe: Self)
        ensures
            shoe.wf(),
            shoe@.to_multiset() == pack(decks as nat).to_multiset(),
            shoe@.len() == 52 * decks,
            shoe.dealt() == Seq::<Card>::empty(),
            shoe.spec_num_decks() == decks,
            shoe.running_total() == 0,
    {
        let mut shoe = Self::unshuffled(decks);
        shoe.shuffle();
        proof {
            shoe.lemma_invariants();
        }
        shoe
    }

    /// Returns the number of cards in the shoe
    pub fn len(&self) -> (len: usize)
        ensures
            len == self@.len(),
    {
        self.cards.len()
    }

    /// Returns true if the shoe is empty
    pub fn is_empty(&self) -> (empty: bool)
        ensures
            empty == (self@.len() == 0),
    {
        self.cards.is_empty()
    }

    /// Shuffle the shoe
    fn shuffle(&mut self)
        requires
            old(self).wf(),
        ensures
            final(self).wf(),
            final(self)@.to_multiset() == old(self)@.to_multiset(),
            final(self).dealt() == old(self).dealt(),
            final(self).spec_num_decks() == old(self).spec_num_decks(),
            final(self).running_total() == old(self).running_total(),
    {
        let mut rng = rand::rng();
        shuffle_cards(&mut self.cards, &mut rng);
        proof {
            vstd::seq_lib::lemma_multiset_commutative(self.dealt@, self.cards@);
            vstd::seq_lib::lemma_multiset_commutative(old(self).dealt@, old(self).cards@);
        }
    }

    /// Deal a card from the shoe
    ///
    /// The card on top leaves the shoe and is counted; an empty shoe
    /// gives none and stays as it is. The share of the shoe that has
    /// been dealt never falls.
    pub fn deal(&mut self) -> (card: Option<Card>)
        requires
            old(self).wf(),
        ensures
            final(self).wf(),
            final(self).spec_num_decks() == old(self).spec_num_decks(),
            final(self).spec_penetration().0 >= old(self).spec_penetration().0,
            final(self).spec_penetration().1 == old(self).spec_penetration().1,
            match card {
                Some(c) => {
                    &&& old(self)@.len() > 0
                    &&& c == old(self)@.last()
                    &&& final(self)@ == old(self)@.drop_last()
                    &&& final(self).dealt() == old(self).dealt().push(c)
                    &&& final(self).running_total() == old(self).running_total() + c.spec_count()
                },
                None => {
                    &&& old(self)@.len() == 0
                    &&& final(self)@ == old(self)@
                    &&& final(self).dealt() == old(self).dealt()
                    &&& final(self).running_total() == old(self).running_total()
                },
            },
    {
        proof {
            self.lemma_invariants();
        }
        if let Some(card) = self.cards.pop() {
            proof {
                let before = old(self).cards@;
                let rest = before.drop_last();
                let gone = old(self).dealt@.push(card);
                assert(self.cards@ =~= rest);
                assert(before =~= rest.push(card));
                vstd::seq_lib::lemma_multiset_commutative(old(self).dealt@, before);
                vstd::seq_lib::lemma_multiset_commutative(gone, rest);
                vstd::seq_lib::to_multiset_build(old(self).dealt@, card);
                vstd::seq_lib::to_multiset_build(rest, card);
                assert((gone + rest).to_multiset() =~= (old(self).dealt@ + before).to_multiset());
                lemma_tally_push(old(self).dealt@, card, weight());
                assert(usize::MAX <= u64::MAX);
            }
            self.counter.insert(card);
            self.dealt = Ghost(self.dealt@.push(card));
            Some(card)
        } else {
            None
        }
    }

    /// Returns the number of decks loaded into the shoe
    pub fn num_decks(&self) -> (decks: usize)
        ensures
            decks == self.spec_num_decks(),
    {
        self.decks
    }

    /// Return the running count
    ///
    /// The count is the running total over the number of decks; the two
    /// come back as they are, for the caller to divide.
    pub fn running_count(&self) -> (ratio: (i64, usize))
        requires
            self.wf(),
        ensures
            ratio.0 == self.running_total(),
            ratio.0 == count_of(self.dealt()),
            ratio.1 == self.spec_num_decks(),
    {
        self.counter.count()
    }

    /// Returns how far the deck has been penetrated
    ///
    /// The penetration is the share of the shoe that has been dealt: the
    /// number of cards dealt over the number of cards of a full shoe. The
    /// two come back as they are, for the caller to divide.
    pub fn penetration(&self) -> (ratio: (usize, usize))
        requires
            self.wf(),
        ensures
            ratio.0 == self.spec_penetration().0,
            ratio.1 == self.spec_penetration().1,
            ratio.0 + self@.len() == ratio.1,
    {
        proof {
            self.lemma_invariants();
        }
        let total = self.decks * 52;
        (total - self.cards.len(), total)
    }

    /// Whether more than `limit` millionths of the shoe have been dealt.
    pub fn penetrated_past(&self, limit: u32) -> (past: bool)
        requires
            self.wf(),
        ensures
            past == exceeds(self.dealt().len(), 52 * self.spec_num_decks(), limit as nat),
    {
        let (dealt, total) = self.penetration();
        assert(dealt * 1_000_000 <= u128::MAX && limit * total <= u128::MAX) by (nonlinear_arith)
            requires
                dealt <= u64::MAX,
                total <= u64::MAX,
                limit <= u32::MAX,
        ;
        dealt as u128 * 1_000_000 > limit as u128 * total as u128
    }

    /// Forcibly reset the shoe
    ///
    /// The shoe is filled and shuffled again with as many decks as it
    /// has, and the count starts over.
    pub fn reset(&mut self)
        ensures
            final(self).wf(),
            final(self)@.to_multiset() == pack(old(self).spec_num_decks()).to_multiset(),
            final(self)@.len() == 52 * old(self).spec_num_decks(),
            final(self).dealt() == Seq::<Card>::empty(),
            final(self).spec_num_decks() == old(self).spec_num_decks(),
            final(self).running_total() == 0,
    {
        *self = Self::new(self.decks);
    }
}

} // verus!
