//! A hand in blackjack: the cards in the order they came, and what they
//! are worth under the ace rules.
use crate::card::Card;
use crate::tally::{
    lemma_tally_bounds, lemma_tally_monotone, lemma_tally_permutation, lemma_tally_push, tally,
};
use vstd::prelude::*;

verus! {

/// The value of a hand of cards
#[derive(Debug, Clone, Copy, PartialEq, Eq, Structural)]
pub enum Value {
    /// Ace and 10
    Blackjack,
    /// The highest value without going over 21, followed by number of hard aces (counted as 1)
    Soft(u8, u8),
    /// A hard value
    Hard(u8),
    /// Anything over 21
    Bust,
}

impl Value {
    /// The numeric value: none for a bust, twenty-one for a blackjack.
    pub open spec fn spec_value(self) -> Option<u8> {
        match self {
            Value::Blackjack => Some(21u8),
            Value::Soft(v, _) | Value::Hard(v) => Some(v),
            Value::Bust => None,
        }
    }

    /// What holds of every value a hand can have: no total above
    /// twenty-one, and a soft total that has room for its ace at eleven
    /// and for each ace counted as one.
    pub open spec fn in_range(self) -> bool {
        match self {
            Value::Blackjack | Value::Bust => true,
            Value::Hard(v) => v <= 21,
            Value::Soft(v, a) => 11 + a <= v <= 21,
        }
    }

    /// Get the numeric value of the hand.
    /// Returns None if the hand is bust.
    #[verifier::when_used_as_spec(spec_value)]
    pub fn value(self) -> (points: Option<u8>)
        ensures
            points == self.spec_value(),
    {
        match self {
            Value::Blackjack => Some(21),
            Value::Soft(v, _) | Value::Hard(v) => Some(v),
            Value::Bust => None,
        }
    }

    /// The value of a hand once `card` has joined the `held` cards that
    /// are worth `self`.
    ///
    /// A hard hand tries the card at each of its values. A soft hand has
    /// one ace at eleven, which may also drop to one: it tries the card
    /// against both. A blackjack with a third card is a hard hand.
    pub fn after(self, held: usize, card: Card) -> (next: Value)
        requires
            self.in_range(),
        ensures
            next == step(self, held as nat, card),
    {
        let values = card.values();
        let low: u8 = values[0];
        let high: u8 = values[values.len() - 1];
        if held == 0 {
            return if card.is_ace() {
                Value::Soft(11, 0)
            } else {
                Value::Hard(low)
            };
        }
        match self {
            Value::Bust => Value::Bust,
            Value::Hard(v) => {
                if held == 1 && v == 10 && card.is_ace() {
                    Value::Blackjack
                } else if v + low > 21 {
                    Value::Bust
                } else if !card.is_ace() || v + high > 21 {
                    Value::Hard(v + low)
                } else {
                    Value::Soft(v + high, 0)
                }
            },
            Value::Soft(v, a) => {
                // with the ace at eleven, and with it forced down to one
                let forced: u8 = v - 10;
                if held == 1 && v == 11 && low == 10 {
                    Value::Blackjack
                } else if forced + low > 21 {
                    Value::Bust
                } else if !card.is_ace() {
                    if v + low > 21 {
                        Value::Hard(forced + low)
                    } else {
                        Value::Soft(v + low, a)
                    }
                } else if v + low > 21 {
                    Value::Hard(forced + low)
                } else if v + high > 21 {
                    Value::Soft(v + low, a + 1)
                } else {
                    Value::Soft(v + high, a)
                }
            },
            Value::Blackjack => {
                if 11 + low > 21 {
                    Value::Bust
                } else {
                    Value::Hard(11 + low)
                }
            },
        }
    }
}

/// What a card adds to a total in which every ace counts as one.
pub open spec fn low_points() -> spec_fn(Card) -> int {
    |c: Card| c.spec_rank().low()
}

/// One for an ace, nothing for any other card.
pub open spec fn ace_mark() -> spec_fn(Card) -> int {
    |c: Card|
        if c.spec_is_ace() {
            1int
        } else {
            0int
        }
}

/// The total of the cards with every ace counted as one.
pub open spec fn hard_total(cards: Seq<Card>) -> int {
    tally(cards, low_points())
}

/// The number of aces among the cards.
pub open spec fn ace_count(cards: Seq<Card>) -> int {
    tally(cards, ace_mark())
}

/// Exactly two cards, an ace and a card worth ten, in either order.
pub open spec fn is_natural(cards: Seq<Card>) -> bool {
    &&& cards.len() == 2
    &&& {
        ||| cards[0].spec_is_ace() && cards[1].spec_rank().low() == 10
        ||| cards[0].spec_rank().low() == 10 && cards[1].spec_is_ace()
    }
}

/// What a sequence of cards is worth.
///
/// A bust where even with every ace at one the total passes twenty-one;
/// a blackjack for an ace and a ten-valued card alone; soft where one
/// ace can stand at eleven, with every other ace at one; hard otherwise.
pub open spec fn classify(cards: Seq<Card>) -> Value {
    let total = hard_total(cards);
    let aces = ace_count(cards);
    if total > 21 {
        Value::Bust
    } else if is_natural(cards) {
        Value::Blackjack
    } else if aces > 0 && total + 10 <= 21 {
        Value::Soft((total + 10) as u8, (aces - 1) as u8)
    } else {
        Value::Hard(total as u8)
    }
}

/// The value of a hand after one more card, from the value before it,
/// the number of cards held before it, and the card.
pub open spec fn step(val: Value, held: nat, card: Card) -> Value {
    let low = card.spec_rank().low();
    let high = card.spec_rank().high();
    let ace = card.spec_is_ace();
    if held == 0 {
        if ace {
            Value::Soft(11, 0)
        } else {
            Value::Hard(low as u8)
        }
    } else {
        match val {
            Value::Bust => Value::Bust,
            Value::Hard(v) => {
                if held == 1 && v == 10 && ace {
                    Value::Blackjack
                } else if v + low > 21 {
                    Value::Bust
                } else if !ace || v + high > 21 {
                    Value::Hard((v + low) as u8)
                } else {
                    Value::Soft((v + high) as u8, 0)
                }
            },
            Value::Soft(v, a) => {
                if held == 1 && v == 11 && low == 10 {
                    Value::Blackjack
                } else if v - 10 + low > 21 {
                    Value::Bust
                } else if !ace {
                    if v + low > 21 {
                        Value::Hard((v - 10 + low) as u8)
                    } else {
                        Value::Soft((v + low) as u8, a)
                    }
                } else if v + low > 21 {
                    Value::Hard((v - 10 + low) as u8)
                } else if v + high > 21 {
                    Value::Soft((v + low) as u8, (a + 1) as u8)
                } else {
                    Value::Soft((v + high) as u8, a)
                }
            },
            Value::Blackjack => {
                if 11 + low > 21 {
                    Value::Bust
                } else {
                    Value::Hard((11 + low) as u8)
                }
            },
        }
    }
}

/// The four things that must hold of a hand's cards, of the number of
/// aces it has counted and of its value: a blackjack has two cards; no
/// value passes twenty-one; a soft hand counts fewer aces as one than it
/// holds; and its total is the hard total with ten more for each ace not
/// counted as one.
pub open spec fn coherent(cards: Seq<Card>, aces: int, val: Value) -> bool {
    &&& val == Value::Blackjack ==> cards.len() == 2
    &&& val.spec_value() matches Some(v) ==> v <= 21
    &&& val matches Value::Soft(_, a) ==> a < aces
    &&& val matches Value::Soft(v, a) ==> v == hard_total(cards) + 10 * (aces - a)
}

/// Every card adds at least one point, and at least as many as it adds
/// aces: so a hand has no more cards, and no more aces, than points.
pub proof fn lemma_totals(cards: Seq<Card>)
    ensures
        0 <= ace_count(cards) <= cards.len() <= hard_total(cards) <= 10 * cards.len(),
        ace_count(cards) <= hard_total(cards),
{
    lemma_tally_bounds(cards, ace_mark(), 0, 1);
    lemma_tally_bounds(cards, low_points(), 1, 10);
    lemma_tally_monotone(cards, ace_mark(), low_points());
}

/// One more card adds its low value to the hard total, and one to the
/// number of aces if it is one.
pub proof fn lemma_totals_push(cards: Seq<Card>, card: Card)
    ensures
        hard_total(cards.push(card)) == hard_total(cards) + card.spec_rank().low(),
        ace_count(cards.push(card)) == ace_count(cards) + if card.spec_is_ace() {
            1int
        } else {
            0int
        },
{
    lemma_tally_push(cards, card, low_points());
    lemma_tally_push(cards, card, ace_mark());
}

/// The totals of one card and of two.
proof fn lemma_totals_small(cards: Seq<Card>)
    ensures
        cards.len() == 0 ==> hard_total(cards) == 0 && ace_count(cards) == 0,
        cards.len() == 1 ==> hard_total(cards) == cards[0].spec_rank().low() && ace_count(cards)
            == ace_mark()(cards[0]),
        cards.len() == 2 ==> hard_total(cards) == cards[0].spec_rank().low()
            + cards[1].spec_rank().low() && ace_count(cards) == ace_mark()(cards[0]) + ace_mark()(
            cards[1],
        ),
{
    if cards.len() == 1 {
        assert(cards =~= Seq::<Card>::empty().push(cards[0]));
        lemma_totals_push(Seq::<Card>::empty(), cards[0]);
    } else if cards.len() == 2 {
        let one = Seq::<Card>::empty().push(cards[0]);
        assert(cards =~= one.push(cards[1]));
        lemma_totals_push(Seq::<Card>::empty(), cards[0]);
        lemma_totals_push(one, cards[1]);
    }
}

/// A blackjack, told by numbers alone: two cards, one ace, eleven points
/// with the ace at one.
pub proof fn lemma_natural_by_totals(cards: Seq<Card>)
    ensures
        is_natural(cards) <==> cards.len() == 2 && ace_count(cards) == 1 && hard_total(cards)
            == 11,
{
    lemma_totals_small(cards);
}

/// Valuing a hand card by card gives what valuing it whole gives: the
/// value of a hand with one more card follows from the value before it,
/// the number of cards before it, and the card.
pub proof fn lemma_classify_push(cards: Seq<Card>, card: Card)
    ensures
        classify(cards.push(card)) == step(classify(cards), cards.len(), card),
{
    let more = cards.push(card);
    lemma_totals(cards);
    lemma_totals(more);
    lemma_totals_push(cards, card);
    lemma_totals_small(cards);
    lemma_natural_by_totals(cards);
    lemma_natural_by_totals(more);
}

/// Every value that `classify` gives is in range.
pub proof fn lemma_classify_in_range(cards: Seq<Card>)
    ensures
        classify(cards).in_range(),
{
    lemma_totals(cards);
}

/// A hand has no numeric value if and only if it is a bust, and a value
/// it has never passes twenty-one.
pub proof fn lemma_value_iff_not_bust(cards: Seq<Card>)
    ensures
        classify(cards).spec_value() is None <==> classify(cards) == Value::Bust,
        classify(cards).spec_value() matches Some(v) ==> v <= 21,
{
    lemma_totals(cards);
}

/// A hand is a blackjack if and only if it is exactly two cards, one of
/// them an ace and the other worth ten: never with fewer cards, never
/// with more.
pub proof fn lemma_blackjack_iff_natural(cards: Seq<Card>)
    ensures
        classify(cards) == Value::Blackjack <==> is_natural(cards),
        classify(cards) == Value::Blackjack ==> cards.len() == 2,
{
    lemma_totals(cards);
    lemma_natural_by_totals(cards);
}

/// The value of a hand does not depend on the order in which its cards
/// came: two sequences of the same cards are worth the same.
pub proof fn lemma_classify_any_order(a: Seq<Card>, b: Seq<Card>)
    requires
        a.to_multiset() == b.to_multiset(),
    ensures
        classify(a) == classify(b),
{
    broadcast use vstd::seq_lib::group_to_multiset_ensures;

    assert(a.to_multiset().len() == a.len());
    assert(b.to_multiset().len() == b.len());
    lemma_tally_permutation(a, b, low_points());
    lemma_tally_permutation(a, b, ace_mark());
    lemma_natural_by_totals(a);
    lemma_natural_by_totals(b);
}

/// With three cards or more a hand is never a blackjack, in whatever
/// order they came.
pub proof fn lemma_no_blackjack_past_two(cards: Seq<Card>)
    requires
        cards.len() != 2,
    ensures
        classify(cards) != Value::Blackjack,
{
}

/// What `classify` gives meets the four conditions of `coherent`.
pub proof fn lemma_classify_coherent(cards: Seq<Card>)
    ensures
        coherent(cards, ace_count(cards), classify(cards)),
{
    lemma_totals(cards);
    lemma_natural_by_totals(cards);
}

/// Represents a hand of cards in blackjack
#[derive(Debug)]
pub struct Hand {
    /// The cards in the order they were dealt
    cards: Vec<Card>,
    /// Number of aces in the hand
    num_aces: usize,
    /// The value of the hand
    val: Value,
}

impl View for Hand {
    type V = Seq<Card>;

    /// The cards of the hand, in the order they were dealt.
    closed spec fn view(&self) -> Seq<Card> {
        self.cards@
    }
}

impl Clone for Hand {
    /// A hand of the same cards.
    fn clone(&self) -> (copy: Hand)
        ensures
            copy@ == self@,
            copy.wf() == self.wf(),
    {
        let cards = self.cards.clone();
        assert(cards@ =~= self.cards@);
        Hand { cards, num_aces: self.num_aces, val: self.val }
    }
}

impl Default for Hand {
    /// The empty hand.
    fn default() -> (hand: Hand)
        ensures
            hand.wf(),
            hand@ == Seq::<Card>::empty(),
    {
        Hand { cards: Vec::new(), num_aces: 0, val: Value::Hard(0) }
    }
}

impl Hand {
    /// The value that the hand has on record.
    pub closed spec fn recorded_value(&self) -> Value {
        self.val
    }

    /// The number of aces that the hand has on record.
    pub closed spec fn recorded_aces(&self) -> nat {
        self.num_aces as nat
    }

    /// The hand's record of its value and of its aces is what its cards
    /// give. Every hand this module hands out is well formed.
    pub open spec fn wf(&self) -> bool {
        &&& self.recorded_value() == classify(self@)
        &&& self.recorded_aces() == ace_count(self@)
    }

    /// Deal a card to the hand
    ///
    /// The value moves on from the value before: it is not worked out
    /// again from all the cards.
    pub fn insert(&mut self, card: Card)
        requires
            old(self).wf(),
        ensures
            final(self).wf(),
            final(self)@ == old(self)@.push(card),
    {
        proof {
            lemma_classify_in_range(self.cards@);
            lemma_classify_push(self.cards@, card);
            lemma_totals_push(self.cards@, card);
            lemma_totals(self.cards@.push(card));
        }
        let next = self.val.after(self.cards.len(), card);
        self.cards.push(card);
        if card.is_ace() {
            assert(self.num_aces < self.cards.len()) by {
                assert(self.cards@ == old(self).cards@.push(card));
            }
            self.num_aces = self.num_aces + 1;
        }
        self.val = next;
    }

    /// The value of the hand, with its kind.
    pub fn valuation(&self) -> (val: Value)
        requires
            self.wf(),
        ensures
            val == classify(self@),
    {
        self.val
    }

    /// Get the value of the hand. Returns [None] if the hand is bust.
    pub fn value(&self) -> (points: Option<u8>)
        requires
            self.wf(),
        ensures
            points == classify(self@).spec_value(),
            points is None <==> classify(self@) == Value::Bust,
            points matches Some(v) ==> v <= 21,
    {
        proof {
            lemma_value_iff_not_bust(self.cards@);
        }
        self.val.value()
    }

    /// Returns true if the hand is a bust
    pub fn busted(&self) -> (bust: bool)
        requires
            self.wf(),
        ensures
            bust == (classify(self@) == Value::Bust),
            bust == (hard_total(self@) > 21),
    {
        proof {
            lemma_totals(self.cards@);
        }
        self.val == Value::Bust
    }

    /// Returns true if the hand is a blackjack
    pub fn blackjack(&self) -> (natural: bool)
        requires
            self.wf(),
        ensures
            natural == (classify(self@) == Value::Blackjack),
            natural == is_natural(self@),
    {
        proof {
            lemma_blackjack_iff_natural(self.cards@);
        }
        self.val == Value::Blackjack
    }

    /// Returns true if the hand is empty
    pub fn is_empty(&self) -> (empty: bool)
        ensures
            empty == (self@.len() == 0),
    {
        self.cards.is_empty()
    }

    /// Returns the number of cards in the hand
    pub fn len(&self) -> (len: usize)
        ensures
            len == self@.len(),
    {
        self.cards.len()
    }

    /// The cards of the hand, in the order they were dealt.
    pub fn cards(&self) -> (cards: &[Card])
        ensures
            cards@ == self@,
    {
        self.cards.as_slice()
    }

    /// Returns true if the hand is a pair (can split)
    pub fn pairs(&self) -> (pair: bool)
        ensures
            pair == (self@.len() == 2 && self@[0].spec_rank() == self@[1].spec_rank()),
    {
        self.cards.len() == 2 && self.cards[0].rank() == self.cards[1].rank()
    }

    /// Returns true if the hand may be doubled: it has exactly two cards.
    pub fn can_double(&self) -> (double: bool)
        ensures
            double == (self@.len() == 2),
    {
        self.cards.len() == 2
    }

    /// Returns true if the hand is a soft hand (contains an ace counted as 11)
    pub fn is_soft(&self) -> (soft: bool)
        requires
            self.wf(),
        ensures
            soft == (classify(self@) is Soft || classify(self@) is Blackjack),
            soft == (ace_count(self@) > 0 && hard_total(self@) + 10 <= 21),
    {
        proof {
            lemma_totals(self.cards@);
            lemma_natural_by_totals(self.cards@);
        }
        match self.val {
            Value::Soft(_, _) | Value::Blackjack => true,
            _ => false,
        }
    }

    /// Returns true if the hand is valid
    ///
    /// Holds the hand's record against its cards by the four conditions
    /// of `coherent`. A well-formed hand meets them.
    pub fn verify(&self) -> (valid: bool)
        ensures
            valid == coherent(self@, self.recorded_aces() as int, self.recorded_value()),
            self.wf() ==> valid,
    {
        proof {
            lemma_classify_coherent(self.cards@);
        }
        if self.val == Value::Blackjack && self.cards.len() != 2 {
            return false;
        }
        if let Some(v) = self.val.value() {
            if v > 21 {
                return false;
            }
        }
        if let Value::Soft(v, a) = self.val {
            if a as usize >= self.num_aces {
                return false;
            }
            let mut total: u128 = 0;
            let mut i: usize = 0;
            while i < self.cards.len()
                invariant
                    i <= self.cards.len(),
                    total == hard_total(self.cards@.take(i as int)),
                    total <= 10 * i,
                decreases self.cards.len() - i,
            {
                proof {
                    assert(self.cards@.take(i + 1) =~= self.cards@.take(i as int).push(
                        self.cards@[i as int],
                    ));
                    lemma_totals_push(self.cards@.take(i as int), self.cards@[i as int]);
                }
                total = total + self.cards[i].values()[0] as u128;
                i = i + 1;
            }
            assert(self.cards@.take(i as int) =~= self.cards@);
            if v as u128 != total + 10 * ((self.num_aces - a as usize) as u128) {
                return false;
            }
        }
        true
    }
}

} // verus!
