//! Cards: suit, rank, point values and counting weight.
use core::cmp::Ordering;
use vstd::prelude::*;
use vstd::string::StringExecFns;

verus! {

/// Suit of a card
#[derive(Debug, Clone, Copy, PartialEq, Eq, PartialOrd, Ord, Hash, Structural)]
pub enum Suit {
    /// Heart
    Heart,
    /// Diamond
    Diamond,
    /// Club
    Club,
    /// Spade
    Spade,
}

/// Rank of a card
#[derive(Debug, Clone, Copy, PartialEq, Eq, PartialOrd, Ord, Hash, Structural)]
pub enum Rank {
    /// 1/11
    Ace,
    /// 2
    Two,
    /// 3
    Three,
    /// 4
    Four,
    /// 5
    Five,
    /// 6
    Six,
    /// 7
    Seven,
    /// 8
    Eight,
    /// 9
    Nine,
    /// 10
    Ten,
    /// 10
    Jack,
    /// 10
    Queen,
    /// 10
    King,
}

impl Suit {
    /// Where the suit stands among the four: hearts first, spades last.
    pub open spec fn spec_index(self) -> u8 {
        match self {
            Suit::Heart => 0,
            Suit::Diamond => 1,
            Suit::Club => 2,
            Suit::Spade => 3,
        }
    }

    /// Where the suit stands among the four: hearts first, spades last.
    #[verifier::when_used_as_spec(spec_index)]
    pub fn index(self) -> (i: u8)
        ensures
            i == self.spec_index(),
    {
        match self {
            Suit::Heart => 0,
            Suit::Diamond => 1,
            Suit::Club => 2,
            Suit::Spade => 3,
        }
    }

    /// The glyph a suit is written with.
    pub open spec fn spec_symbol(self) -> Seq<char> {
        match self {
            Suit::Heart => "♡"@,
            Suit::Diamond => "♢"@,
            Suit::Club => "♧"@,
            Suit::Spade => "♤"@,
        }
    }

    /// The glyph a suit is written with.
    pub fn symbol(self) -> (s: &'static str)
        ensures
            s@ == self.spec_symbol(),
    {
        match self {
            Suit::Heart => "♡",
            Suit::Diamond => "♢",
            Suit::Club => "♧",
            Suit::Spade => "♤",
        }
    }
}

impl Rank {
    /// Where the rank stands among the thirteen: the ace first, the king
    /// last.
    pub open spec fn spec_index(self) -> u8 {
        match self {
            Rank::Ace => 0,
            Rank::Two => 1,
            Rank::Three => 2,
            Rank::Four => 3,
            Rank::Five => 4,
            Rank::Six => 5,
            Rank::Seven => 6,
            Rank::Eight => 7,
            Rank::Nine => 8,
            Rank::Ten => 9,
            Rank::Jack => 10,
            Rank::Queen => 11,
            Rank::King => 12,
        }
    }

    /// Where the rank stands among the thirteen: the ace first, the king
    /// last.
    #[verifier::when_used_as_spec(spec_index)]
    pub fn index(self) -> (i: u8)
        ensures
            i == self.spec_index(),
    {
        match self {
            Rank::Ace => 0,
            Rank::Two => 1,
            Rank::Three => 2,
            Rank::Four => 3,
            Rank::Five => 4,
            Rank::Six => 5,
            Rank::Seven => 6,
            Rank::Eight => 7,
            Rank::Nine => 8,
            Rank::Ten => 9,
            Rank::Jack => 10,
            Rank::Queen => 11,
            Rank::King => 12,
        }
    }

    /// The points a rank is worth when an ace counts as one.
    pub open spec fn low(self) -> int {
        match self {
            Rank::Ace => 1,
            Rank::Two => 2,
            Rank::Three => 3,
            Rank::Four => 4,
            Rank::Five => 5,
            Rank::Six => 6,
            Rank::Seven => 7,
            Rank::Eight => 8,
            Rank::Nine => 9,
            Rank::Ten | Rank::Jack | Rank::Queen | Rank::King => 10,
        }
    }

    /// The points a rank is worth when an ace counts as eleven.
    pub open spec fn high(self) -> int {
        if self == Rank::Ace {
            11
        } else {
            self.low()
        }
    }

    /// The high-low weight of a rank: low cards raise the count, tens,
    /// faces and aces lower it, and seven to nine leave it alone.
    pub open spec fn weight(self) -> int {
        match self {
            Rank::Two | Rank::Three | Rank::Four | Rank::Five | Rank::Six => 1,
            Rank::Seven | Rank::Eight | Rank::Nine => 0,
            Rank::Ten | Rank::Jack | Rank::Queen | Rank::King | Rank::Ace => -1,
        }
    }

    /// The text a rank is written with.
    pub open spec fn spec_label(self) -> Seq<char> {
        match self {
            Rank::Ace => "A"@,
            Rank::Two => "2"@,
            Rank::Three => "3"@,
            Rank::Four => "4"@,
            Rank::Five => "5"@,
            Rank::Six => "6"@,
            Rank::Seven => "7"@,
            Rank::Eight => "8"@,
            Rank::Nine => "9"@,
            Rank::Ten => "10"@,
            Rank::Jack => "J"@,
            Rank::Queen => "Q"@,
            Rank::King => "K"@,
        }
    }

    /// The text a rank is written with.
    pub fn label(self) -> (s: &'static str)
        ensures
            s@ == self.spec_label(),
    {
        match self {
            Rank::Ace => "A",
            Rank::Two => "2",
            Rank::Three => "3",
            Rank::Four => "4",
            Rank::Five => "5",
            Rank::Six => "6",
            Rank::Seven => "7",
            Rank::Eight => "8",
            Rank::Nine => "9",
            Rank::Ten => "10",
            Rank::Jack => "J",
            Rank::Queen => "Q",
            Rank::King => "K",
        }
    }
}

/// A playing card
#[derive(Debug, Clone, Copy, PartialEq, Eq, Ord, Hash, Structural)]
pub struct Card {
    suit: Suit,
    rank: Rank,
}

impl PartialOrd for Card {
    /// Cards are ordered by suit, and within a suit by rank.
    fn partial_cmp(&self, other: &Card) -> (order: Option<Ordering>) {
        let (suit, rank) = (self.suit.index(), self.rank.index());
        let (other_suit, other_rank) = (other.suit.index(), other.rank.index());
        if suit < other_suit || (suit == other_suit && rank < other_rank) {
            Some(Ordering::Less)
        } else if suit == other_suit && rank == other_rank {
            Some(Ordering::Equal)
        } else {
            Some(Ordering::Greater)
        }
    }
}

impl vstd::std_specs::cmp::PartialOrdSpecImpl for Card {
    open spec fn obeys_partial_cmp_spec() -> bool {
        true
    }

    open spec fn partial_cmp_spec(&self, other: &Card) -> Option<Ordering> {
        let (suit, rank) = (self.spec_suit().spec_index(), self.spec_rank().spec_index());
        let (other_suit, other_rank) = (
            other.spec_suit().spec_index(),
            other.spec_rank().spec_index(),
        );
        if suit < other_suit || (suit == other_suit && rank < other_rank) {
            Some(Ordering::Less)
        } else if suit == other_suit && rank == other_rank {
            Some(Ordering::Equal)
        } else {
            Some(Ordering::Greater)
        }
    }
}

impl Card {
    /// The suit of the card, for contracts.
    pub closed spec fn spec_suit(&self) -> Suit {
        self.suit
    }

    /// The rank of the card, for contracts.
    pub closed spec fn spec_rank(&self) -> Rank {
        self.rank
    }

    /// The point values the card may count for, lowest first: one and
    /// eleven for an ace, a single value for every other rank.
    pub open spec fn spec_values(&self) -> Seq<u8> {
        if self.spec_rank() == Rank::Ace {
            seq![1u8, 11u8]
        } else {
            seq![self.spec_rank().low() as u8]
        }
    }

    /// The high-low weight of the card.
    pub open spec fn spec_count(&self) -> int {
        self.spec_rank().weight()
    }

    /// Whether the card is an ace.
    pub open spec fn spec_is_ace(&self) -> bool {
        self.spec_rank() == Rank::Ace
    }

    /// The card of a suit and a rank, for contracts.
    pub closed spec fn spec_new(suit: Suit, rank: Rank) -> Card {
        Card { suit, rank }
    }

    /// The card made of a suit and a rank has that suit and that rank.
    pub broadcast proof fn lemma_new_fields(suit: Suit, rank: Rank)
        ensures
            (#[trigger] Card::spec_new(suit, rank)).spec_suit() == suit,
            Card::spec_new(suit, rank).spec_rank() == rank,
    {
    }

    /// A card is its suit and its rank, and nothing else.
    pub proof fn lemma_card_is_suit_and_rank(self)
        ensures
            self == Card::spec_new(self.spec_suit(), self.spec_rank()),
            forall|suit: Suit, rank: Rank|
                (#[trigger] Card::spec_new(suit, rank) == self) <==> (suit == self.spec_suit()
                    && rank == self.spec_rank()),
    {
    }

    /// The text a card is written with: its rank, then its suit.
    pub open spec fn spec_text(&self) -> Seq<char> {
        self.spec_rank().spec_label() + self.spec_suit().spec_symbol()
    }

    /// The text a card is written with: its rank, then its suit.
    pub fn text(&self) -> (s: String)
        ensures
            s@ == self.spec_text(),
    {
        String::from_str(self.rank.label()).concat(self.suit.symbol())
    }

    /// Create a new card
    #[verifier::when_used_as_spec(spec_new)]
    pub fn new(suit: Suit, rank: Rank) -> (card: Card)
        ensures
            card == Card::spec_new(suit, rank),
            card.spec_suit() == suit,
            card.spec_rank() == rank,
    {
        Card { suit, rank }
    }

    /// Get the Suit of the card
    #[verifier::when_used_as_spec(spec_suit)]
    pub fn suit(&self) -> (suit: Suit)
        ensures
            suit == self.spec_suit(),
    {
        self.suit
    }

    /// Get the rank of the card
    #[verifier::when_used_as_spec(spec_rank)]
    pub fn rank(&self) -> (rank: Rank)
        ensures
            rank == self.spec_rank(),
    {
        self.rank
    }

    /// Get the value of the card
    pub fn values(&self) -> (values: &'static [u8])
        ensures
            values@ == self.spec_values(),
    {
        match self.rank {
            Rank::Ace => &[1, 11],
            Rank::Two => &[2],
            Rank::Three => &[3],
            Rank::Four => &[4],
            Rank::Five => &[5],
            Rank::Six => &[6],
            Rank::Seven => &[7],
            Rank::Eight => &[8],
            Rank::Nine => &[9],
            Rank::Ten | Rank::Jack | Rank::Queen | Rank::King => &[10],
        }
    }

    /// Return the count of a card
    pub fn count(&self) -> (weight: i8)
        ensures
            weight == self.spec_count(),
    {
        match self.rank {
            Rank::Two | Rank::Three | Rank::Four | Rank::Five | Rank::Six => 1,
            Rank::Seven | Rank::Eight | Rank::Nine => 0,
            Rank::Ten | Rank::Jack | Rank::Queen | Rank::King | Rank::Ace => -1,
        }
    }

    /// Returns true if card is an ace
    #[verifier::when_used_as_spec(spec_is_ace)]
    pub fn is_ace(&self) -> (ace: bool)
        ensures
            ace == self.spec_is_ace(),
    {
        self.rank == Rank::Ace
    }
}

} // verus!
