use shoo::card::{Card, Rank, Suit};
use shoo::shoe::Shoe;
use shoo::table::{Outcome, Phase, Table};

const RANKS: [Rank; 13] = [
    Rank::Ace,
    Rank::Two,
    Rank::Three,
    Rank::Four,
    Rank::Five,
    Rank::Six,
    Rank::Seven,
    Rank::Eight,
    Rank::Nine,
    Rank::Ten,
    Rank::Jack,
    Rank::Queen,
    Rank::King,
];

const SUITS: [Suit; 4] = [Suit::Heart, Suit::Diamond, Suit::Club, Suit::Spade];

fn deck() -> Vec<Card> {
    let mut cards = Vec::new();
    for suit in SUITS {
        for rank in RANKS {
            cards.push(Card::new(suit, rank));
        }
    }
    cards
}

/// One deck with `first` on top, to be dealt in that order.
fn shoe_dealing(first: &[Card]) -> Shoe {
    let mut cards: Vec<Card> = deck().into_iter().filter(|c| !first.contains(c)).collect();
    cards.extend(first.iter().rev());
    Shoe::stacked(1, cards).expect("one deck, each card once")
}

/// A table of one spot that deals `first` in that order and never reshuffles.
fn table_dealing(first: &[Card]) -> Table {
    Table::with_shoe(shoe_dealing(first), 1, 1_000_000)
}

fn spade(rank: Rank) -> Card {
    Card::new(Suit::Spade, rank)
}

fn heart(rank: Rank) -> Card {
    Card::new(Suit::Heart, rank)
}

#[test]
fn stacked_shoe_deals_in_the_order_given() {
    let first = [spade(Rank::Ace), heart(Rank::Two), spade(Rank::Nine)];
    let mut shoe = shoe_dealing(&first);
    assert_eq!(shoe.len(), 52);
    assert_eq!(shoe.num_decks(), 1);
    assert_eq!(shoe.running_count(), (0, 1));
    assert_eq!(shoe.penetration(), (0, 52));
    assert_eq!(shoe.deal(), Some(spade(Rank::Ace)));
    assert_eq!(shoe.deal(), Some(heart(Rank::Two)));
    assert_eq!(shoe.deal(), Some(spade(Rank::Nine)));
    assert_eq!(shoe.running_count(), (0, 1));
    let mut dealt = 3;
    while shoe.deal().is_some() {
        dealt += 1;
    }
    assert_eq!(dealt, 52);
    assert_eq!(shoe.running_count(), (0, 1));
}

#[test]
fn stacked_shoe_takes_whole_decks_only() {
    assert!(Shoe::stacked(1, deck()).is_some());
    assert!(Shoe::stacked(0, Vec::new()).is_some());
    assert!(Shoe::stacked(1, Vec::new()).is_none());
    assert!(Shoe::stacked(0, deck()).is_none());
    assert!(Shoe::stacked(2, deck()).is_none());

    let mut short = deck();
    short.pop();
    assert!(Shoe::stacked(1, short).is_none());

    let mut long = deck();
    long.push(spade(Rank::Ace));
    assert!(Shoe::stacked(1, long).is_none());

    let mut twice = deck();
    twice[0] = twice[1];
    assert!(Shoe::stacked(1, twice).is_none());

    let mut two_decks = deck();
    two_decks.extend(deck().into_iter().rev());
    assert!(Shoe::stacked(2, two_decks.clone()).is_some());
    assert!(Shoe::stacked(1, two_decks.clone()).is_none());
    two_decks[3] = two_decks[4];
    assert!(Shoe::stacked(2, two_decks).is_none());
}

#[test]
fn dealer_blackjack_against_twenty_loses() {
    let mut table = table_dealing(&[
        spade(Rank::King),
        heart(Rank::Ace),
        spade(Rank::Queen),
        heart(Rank::King),
    ]);
    assert!(!table.deal());
    assert_eq!(table.player_hand(0).value(), Some(20));
    assert!(table.dealer_hand().blackjack());
    assert_eq!(table.get_outcome(0), Outcome::Lose);
}

#[test]
fn nineteen_against_seventeen_wins() {
    let mut table =
        table_dealing(&[spade(Rank::Ten), heart(Rank::Ten), spade(Rank::Nine), heart(Rank::Seven)]);
    table.deal();
    assert_eq!(table.player_hand(0).value(), Some(19));
    assert_eq!(table.dealer_value(), Some(17));
    assert!(!table.peek());
    assert_eq!(table.get_outcome(0), Outcome::Win);
}

#[test]
fn busted_player_loses_to_any_dealer() {
    let mut table = table_dealing(&[
        spade(Rank::Ten),
        heart(Rank::Ten),
        spade(Rank::Nine),
        heart(Rank::Eight),
        spade(Rank::Five),
        heart(Rank::Nine),
    ]);
    table.deal();
    assert_eq!(table.dealer_value(), Some(18));
    assert!(table.player_hit(0));
    assert_eq!(table.player_hand(0).value(), None);
    assert_eq!(table.get_outcome(0), Outcome::Lose);
    // the dealer busts too: the player has lost all the same
    assert!(table.dealer_hit());
    assert_eq!(table.dealer_value(), None);
    assert_eq!(table.get_outcome(0), Outcome::Lose);
}

#[test]
fn player_blackjack_against_sixteen() {
    let mut table =
        table_dealing(&[spade(Rank::Ace), heart(Rank::Ten), spade(Rank::King), heart(Rank::Six)]);
    table.deal();
    assert!(table.player_hand(0).blackjack());
    assert_eq!(table.dealer_value(), Some(16));
    assert!(!table.peek());
    assert_eq!(table.get_outcome(0), Outcome::Blackjack);
}

#[test]
fn two_blackjacks_push() {
    let mut table =
        table_dealing(&[spade(Rank::Ace), heart(Rank::Jack), spade(Rank::King), heart(Rank::Ace)]);
    table.deal();
    assert!(table.peek());
    assert_eq!(table.get_outcome(0), Outcome::Push);
}

#[test]
fn busted_dealer_pays_every_standing_hand() {
    let mut table = Table::with_shoe(
        shoe_dealing(&[
            spade(Rank::Two),
            spade(Rank::Ten),
            heart(Rank::Ten),
            spade(Rank::Three),
            spade(Rank::Nine),
            heart(Rank::Six),
            heart(Rank::King),
        ]),
        2,
        1_000_000,
    );
    table.deal();
    assert_eq!(table.player_hand(0).value(), Some(5));
    assert_eq!(table.player_hand(1).value(), Some(19));
    assert_eq!(table.dealer_value(), Some(16));
    assert_eq!(table.get_outcome(0), Outcome::Lose);
    assert_eq!(table.get_outcome(1), Outcome::Win);
    assert!(table.dealer_hit());
    assert_eq!(table.get_outcome(0), Outcome::Win);
    assert_eq!(table.get_outcome(1), Outcome::Win);
}

#[test]
fn phases_of_a_round() {
    let mut table =
        table_dealing(&[spade(Rank::Ten), heart(Rank::Ten), spade(Rank::Nine), heart(Rank::Seven)]);
    // open: nothing to clear, nothing to hit, nothing to peek at
    assert_eq!(table.phase(), Phase::Open);
    assert!(table.can_deal());
    assert!(table.can_reset());
    assert!(!table.can_clear());
    assert!(!table.can_peek());
    assert!(!table.can_hit(0));
    assert!(!table.can_dealer_hit());
    table.deal();
    // dealt: no second deal, no reset, no clearing yet
    assert_eq!(table.phase(), Phase::Dealt);
    assert!(!table.can_deal());
    assert!(!table.can_reset());
    assert!(!table.can_clear());
    assert!(table.can_peek());
    assert!(table.can_hit(0));
    assert!(!table.can_hit(1));
    assert!(table.can_dealer_hit());
    assert!(!table.peek());
    assert_eq!(table.phase(), Phase::Dealt);
    table.flip();
    // flipped: the players are done
    assert_eq!(table.phase(), Phase::Flipped);
    assert!(!table.can_deal());
    assert!(!table.can_reset());
    assert!(!table.can_peek());
    assert!(!table.can_hit(0));
    assert!(table.can_dealer_hit());
    assert!(table.can_clear());
    assert_eq!(table.dealer_value(), Some(17));
    assert_eq!(table.shoe().len(), 48);
    table.clear_hands();
    assert_eq!(table.phase(), Phase::Open);
    assert!(table.can_deal());
    assert!(!table.can_clear());
}

#[test]
fn dealer_blackjack_closes_the_hands_to_the_players() {
    let mut table = table_dealing(&[
        spade(Rank::King),
        heart(Rank::Ace),
        spade(Rank::Queen),
        heart(Rank::King),
    ]);
    table.deal();
    assert_eq!(table.phase(), Phase::Dealt);
    assert!(table.can_hit(0));
    assert!(table.peek());
    // past dealt: a hit is no longer on offer
    assert_eq!(table.phase(), Phase::Flipped);
    assert!(!table.can_hit(0));
    assert!(!table.can_peek());
    assert!(table.can_clear());
    assert_eq!(table.player_hand(0).len(), 2);
    assert_eq!(table.shoe().len(), 48);
}

#[test]
fn no_hit_from_an_empty_shoe() {
    let mut shoe = Shoe::unshuffled(1);
    for _ in 0..48 {
        shoe.deal();
    }
    // the four cards left: Four, Three, Two, Ace of hearts
    let mut table = Table::with_shoe(shoe, 1, 1_000_000);
    table.deal();
    assert!(table.shoe().is_empty());
    assert_eq!(table.player_hand(0).value(), Some(6));
    assert_eq!(table.dealer_value(), Some(14));
    assert!(!table.can_hit(0));
    assert!(!table.can_dealer_hit());
    assert!(table.can_peek());
    table.flip();
    table.clear_hands();
    assert!(!table.can_deal());
    assert!(table.can_reset());
}

#[test]
fn reset_starts_over() {
    let mut table = table_dealing(&[spade(Rank::Ten), heart(Rank::Ten)]);
    table.deal();
    table.flip();
    table.clear_hands();
    assert_eq!(table.shoe().len(), 48);
    table.reset();
    assert_eq!(table.phase(), Phase::Open);
    assert_eq!(table.spots(), 1);
    assert_eq!(table.shoe().len(), 52);
    assert_eq!(table.shoe().penetration(), (0, 52));
    assert_eq!(table.shoe().running_count(), (0, 1));
    assert!(table.dealer_hand().is_empty());
    assert!(table.player_hand(0).is_empty());
}
