use shoo::card::{Card, Rank, Suit};
use shoo::hand::{Hand, Value};
use shoo::shoe::{Counter, HiLoCounter, Shoe};
use shoo::table::{outcome, Outcome, Phase, Table};

const RANKS: [Rank; 13] = [
    Rank::Ace,
    Rank::Two,
    Rank::Three,
    Rank::Four,
    Rank::Five,
    Rank::Six,
    Rank::Seven,
    Rank::Eight,
    Rank::Nine,
    Rank::Ten,
    Rank::Jack,
    Rank::Queen,
    Rank::King,
];

const SUITS: [Suit; 4] = [Suit::Heart, Suit::Diamond, Suit::Club, Suit::Spade];

fn hand_of(ranks: &[Rank]) -> Hand {
    let mut hand = Hand::default();
    for rank in ranks {
        hand.insert(Card::new(Suit::Club, *rank));
    }
    hand
}

fn deal_all(shoe: &mut Shoe) -> Vec<Card> {
    let mut cards = Vec::new();
    while let Some(card) = shoe.deal() {
        cards.push(card);
    }
    cards
}

#[test]
fn card_keeps_suit_and_rank() {
    let card = Card::new(Suit::Diamond, Rank::Jack);
    assert_eq!(card.suit(), Suit::Diamond);
    assert_eq!(card.rank(), Rank::Jack);
    assert!(!card.is_ace());
    assert!(Card::new(Suit::Heart, Rank::Ace).is_ace());
    assert_eq!(card, Card::new(Suit::Diamond, Rank::Jack));
    assert!(Card::new(Suit::Heart, Rank::King) < Card::new(Suit::Diamond, Rank::Ace));
}

#[test]
fn cards_are_ordered_by_suit_then_rank() {
    assert_eq!(Suit::Heart.index(), 0);
    assert_eq!(Suit::Spade.index(), 3);
    assert_eq!(Rank::Ace.index(), 0);
    assert_eq!(Rank::Ten.index(), 9);
    assert_eq!(Rank::King.index(), 12);
    let mut cards = Vec::new();
    for suit in SUITS {
        for rank in RANKS {
            cards.push(Card::new(suit, rank));
        }
    }
    for (i, a) in cards.iter().enumerate() {
        for (j, b) in cards.iter().enumerate() {
            assert_eq!(a.partial_cmp(b), Some(i.cmp(&j)));
            assert_eq!(a.cmp(b), i.cmp(&j));
            assert_eq!(a < b, i < j);
            assert_eq!(a == b, i == j);
        }
    }
    assert!(Card::new(Suit::Club, Rank::Two) < Card::new(Suit::Club, Rank::Three));
    assert!(Card::new(Suit::Club, Rank::King) < Card::new(Suit::Spade, Rank::Ace));
    assert!(Card::new(Suit::Diamond, Rank::Ace) > Card::new(Suit::Heart, Rank::King));
}

#[test]
fn card_values_by_rank() {
    let expected: [&[u8]; 13] = [
        &[1, 11],
        &[2],
        &[3],
        &[4],
        &[5],
        &[6],
        &[7],
        &[8],
        &[9],
        &[10],
        &[10],
        &[10],
        &[10],
    ];
    for (rank, values) in RANKS.iter().zip(expected.iter()) {
        assert_eq!(Card::new(Suit::Spade, *rank).values(), *values);
    }
}

#[test]
fn card_count_by_rank() {
    let expected: [i8; 13] = [-1, 1, 1, 1, 1, 1, 0, 0, 0, -1, -1, -1, -1];
    for (rank, weight) in RANKS.iter().zip(expected.iter()) {
        assert_eq!(Card::new(Suit::Heart, *rank).count(), *weight);
    }
}

#[test]
fn card_text() {
    assert_eq!(Rank::Ace.label(), "A");
    assert_eq!(Rank::Ten.label(), "10");
    assert_eq!(Rank::Seven.label(), "7");
    assert_eq!(Rank::King.label(), "K");
    assert_eq!(Suit::Heart.symbol(), "♡");
    assert_eq!(Suit::Diamond.symbol(), "♢");
    assert_eq!(Suit::Club.symbol(), "♧");
    assert_eq!(Suit::Spade.symbol(), "♤");
    assert_eq!(Card::new(Suit::Spade, Rank::Ace).text(), "A♤");
    assert_eq!(Card::new(Suit::Heart, Rank::Ten).text(), "10♡");
    assert_eq!(Card::new(Suit::Club, Rank::Queen).text(), "Q♧");
    assert_eq!(Card::new(Suit::Diamond, Rank::Two).text(), "2♢");
}

#[test]
fn empty_hand() {
    let hand = Hand::default();
    assert!(hand.is_empty());
    assert_eq!(hand.len(), 0);
    assert_eq!(hand.valuation(), Value::Hard(0));
    assert_eq!(hand.value(), Some(0));
    assert!(!hand.busted());
    assert!(!hand.blackjack());
    assert!(!hand.is_soft());
    assert!(!hand.pairs());
    assert!(!hand.can_double());
    assert!(hand.verify());
}

#[test]
fn first_card_sets_the_value() {
    assert_eq!(hand_of(&[Rank::Ace]).valuation(), Value::Soft(11, 0));
    assert_eq!(hand_of(&[Rank::Seven]).valuation(), Value::Hard(7));
    assert_eq!(hand_of(&[Rank::Queen]).valuation(), Value::Hard(10));
}

#[test]
fn value_is_none_exactly_when_bust() {
    for first in RANKS {
        for second in RANKS {
            for third in RANKS {
                for fourth in RANKS {
                    let hand = hand_of(&[first, second, third, fourth]);
                    assert_eq!(hand.value().is_none(), hand.busted());
                    if let Some(points) = hand.value() {
                        assert!(points <= 21);
                    }
                    assert!(hand.verify());
                }
            }
        }
    }
}

#[test]
fn blackjack_takes_exactly_an_ace_and_a_ten() {
    for first in RANKS {
        assert!(!hand_of(&[first]).blackjack());
        for second in RANKS {
            let tens = [Rank::Ten, Rank::Jack, Rank::Queen, Rank::King];
            let natural = (first == Rank::Ace && tens.contains(&second))
                || (second == Rank::Ace && tens.contains(&first));
            assert_eq!(hand_of(&[first, second]).blackjack(), natural);
            for third in RANKS {
                assert!(!hand_of(&[first, second, third]).blackjack());
            }
        }
    }
}

#[test]
fn blackjack_in_either_order() {
    let ace_first = hand_of(&[Rank::Ace, Rank::King]);
    let king_first = hand_of(&[Rank::King, Rank::Ace]);
    assert_eq!(ace_first.valuation(), Value::Blackjack);
    assert_eq!(king_first.valuation(), Value::Blackjack);
    assert_eq!(ace_first.value(), Some(21));
    assert!(ace_first.is_soft());
}

#[test]
fn order_of_cards_does_not_change_the_value() {
    for first in RANKS {
        for second in RANKS {
            for third in RANKS {
                let expected = hand_of(&[first, second, third]).valuation();
                assert_eq!(hand_of(&[first, third, second]).valuation(), expected);
                assert_eq!(hand_of(&[second, first, third]).valuation(), expected);
                assert_eq!(hand_of(&[second, third, first]).valuation(), expected);
                assert_eq!(hand_of(&[third, first, second]).valuation(), expected);
                assert_eq!(hand_of(&[third, second, first]).valuation(), expected);
            }
        }
    }
}

#[test]
fn third_card_on_a_blackjack_makes_a_hard_hand() {
    assert_eq!(hand_of(&[Rank::Ace, Rank::King, Rank::Five]).valuation(), Value::Hard(16));
    assert_eq!(hand_of(&[Rank::King, Rank::Five, Rank::Ace]).valuation(), Value::Hard(16));
    assert_eq!(hand_of(&[Rank::Ace, Rank::King, Rank::Ace]).valuation(), Value::Hard(12));
    assert_eq!(hand_of(&[Rank::Ace, Rank::King, Rank::Queen]).valuation(), Value::Hard(21));
    assert_eq!(
        hand_of(&[Rank::Ace, Rank::King, Rank::Queen, Rank::Ace]).valuation(),
        Value::Bust
    );
}

#[test]
fn two_aces_and_a_nine() {
    let mut hand = hand_of(&[Rank::Ace, Rank::Ace]);
    assert_eq!(hand.valuation(), Value::Soft(12, 1));
    assert_eq!(hand.value(), Some(12));
    assert!(hand.is_soft());
    assert!(hand.pairs());
    hand.insert(Card::new(Suit::Heart, Rank::Nine));
    assert_eq!(hand.valuation(), Value::Soft(21, 1));
    assert_eq!(hand.value(), Some(21));
    assert!(hand.is_soft());
    assert!(!hand.blackjack());
    assert!(hand.verify());
    hand.insert(Card::new(Suit::Heart, Rank::Two));
    assert_eq!(hand.valuation(), Value::Hard(13));
    assert!(!hand.is_soft());
}

#[test]
fn soft_hands_count_the_aces_at_one() {
    assert_eq!(hand_of(&[Rank::Ace, Rank::Six]).valuation(), Value::Soft(17, 0));
    assert_eq!(hand_of(&[Rank::Six, Rank::Ace]).valuation(), Value::Soft(17, 0));
    assert_eq!(hand_of(&[Rank::Ace, Rank::Ace, Rank::Ace]).valuation(), Value::Soft(13, 2));
    assert_eq!(hand_of(&[Rank::Ace, Rank::Six, Rank::King]).valuation(), Value::Hard(17));
    assert_eq!(hand_of(&[Rank::King, Rank::Six, Rank::Ace]).valuation(), Value::Hard(17));
    assert_eq!(hand_of(&[Rank::King, Rank::Ace, Rank::Ace]).valuation(), Value::Hard(12));
    assert_eq!(hand_of(&[Rank::King, Rank::Queen, Rank::Ace]).valuation(), Value::Hard(21));
    assert_eq!(hand_of(&[Rank::King, Rank::Queen, Rank::Two]).valuation(), Value::Bust);
    assert_eq!(
        hand_of(&[Rank::King, Rank::Queen, Rank::Two, Rank::Ace]).valuation(),
        Value::Bust
    );
}

#[test]
fn value_after_one_more_card() {
    let ace = Card::new(Suit::Spade, Rank::Ace);
    let king = Card::new(Suit::Spade, Rank::King);
    let five = Card::new(Suit::Spade, Rank::Five);
    assert_eq!(Value::Hard(0).after(0, ace), Value::Soft(11, 0));
    assert_eq!(Value::Hard(0).after(0, five), Value::Hard(5));
    assert_eq!(Value::Hard(10).after(1, ace), Value::Blackjack);
    assert_eq!(Value::Hard(10).after(2, ace), Value::Soft(21, 0));
    assert_eq!(Value::Hard(16).after(2, king), Value::Bust);
    assert_eq!(Value::Hard(16).after(2, five), Value::Hard(21));
    assert_eq!(Value::Hard(16).after(2, ace), Value::Hard(17));
    assert_eq!(Value::Hard(21).after(3, ace), Value::Bust);
    assert_eq!(Value::Soft(11, 0).after(1, king), Value::Blackjack);
    assert_eq!(Value::Soft(16, 0).after(2, five), Value::Soft(21, 0));
    assert_eq!(Value::Soft(16, 0).after(2, king), Value::Hard(16));
    assert_eq!(Value::Soft(16, 0).after(2, ace), Value::Soft(17, 1));
    assert_eq!(Value::Soft(21, 0).after(2, ace), Value::Hard(12));
    assert_eq!(Value::Blackjack.after(2, five), Value::Hard(16));
    assert_eq!(Value::Blackjack.after(2, king), Value::Hard(21));
    assert_eq!(Value::Bust.after(3, ace), Value::Bust);
    assert_eq!(Value::Blackjack.value(), Some(21));
    assert_eq!(Value::Soft(17, 0).value(), Some(17));
    assert_eq!(Value::Hard(12).value(), Some(12));
    assert_eq!(Value::Bust.value(), None);
}

#[test]
fn clone_of_a_hand() {
    let hand = hand_of(&[Rank::Ace, Rank::Six]);
    let mut copy = hand.clone();
    assert_eq!(copy.cards(), hand.cards());
    assert_eq!(copy.valuation(), Value::Soft(17, 0));
    copy.insert(Card::new(Suit::Heart, Rank::Ace));
    assert_eq!(copy.valuation(), Value::Soft(18, 1));
    assert_eq!(hand.valuation(), Value::Soft(17, 0));
    assert_eq!(hand.len(), 2);
}

#[test]
fn pairs_and_doubling() {
    let pair = hand_of(&[Rank::Eight, Rank::Eight]);
    assert!(pair.pairs());
    assert!(pair.can_double());
    let faces = hand_of(&[Rank::King, Rank::Queen]);
    assert!(!faces.pairs());
    assert!(faces.can_double());
    let three = hand_of(&[Rank::Eight, Rank::Eight, Rank::Two]);
    assert!(!three.pairs());
    assert!(!three.can_double());
    assert_eq!(three.len(), 3);
    assert_eq!(three.cards()[2], Card::new(Suit::Club, Rank::Two));
}

#[test]
fn unshuffled_shoe_is_the_pack() {
    let mut shoe = Shoe::unshuffled(2);
    assert_eq!(shoe.len(), 104);
    assert_eq!(shoe.num_decks(), 2);
    assert_eq!(shoe[0], Card::new(Suit::Heart, Rank::Ace));
    assert_eq!(shoe[1], Card::new(Suit::Heart, Rank::Ace));
    assert_eq!(shoe[2], Card::new(Suit::Heart, Rank::Two));
    assert_eq!(shoe[26], Card::new(Suit::Diamond, Rank::Ace));
    assert_eq!(shoe[103], Card::new(Suit::Spade, Rank::King));
    assert_eq!(shoe.deal(), Some(Card::new(Suit::Spade, Rank::King)));
    assert_eq!(shoe.deal(), Some(Card::new(Suit::Spade, Rank::King)));
    assert_eq!(shoe.deal(), Some(Card::new(Suit::Spade, Rank::Queen)));
    assert_eq!(shoe.len(), 101);
}

#[test]
fn new_shoe_is_full_and_shuffled() {
    let mut plain = Shoe::unshuffled(2);
    let mut shoe = Shoe::new(2);
    assert_eq!(shoe.len(), 104);
    assert!(!shoe.is_empty());
    assert_eq!(shoe.running_count(), (0, 2));
    assert_eq!(shoe.penetration(), (0, 104));
    let in_order = deal_all(&mut plain);
    let mut shuffled = deal_all(&mut shoe);
    assert_ne!(shuffled, in_order);
    shuffled.sort();
    let mut sorted = in_order;
    sorted.sort();
    assert_eq!(shuffled, sorted);
    for suit in SUITS {
        for rank in RANKS {
            let card = Card::new(suit, rank);
            assert_eq!(shuffled.iter().filter(|c| **c == card).count(), 2);
        }
    }
}

#[test]
fn shoe_keeps_its_cards_and_its_count() {
    for decks in [1usize, 2, 6] {
        let mut shoe = Shoe::new(decks);
        let total = decks * 52;
        let mut dealt = 0usize;
        let mut running = 0i64;
        let mut last = shoe.penetration();
        assert_eq!(last, (0, total));
        while let Some(card) = shoe.deal() {
            dealt += 1;
            running += card.count() as i64;
            assert_eq!(shoe.len() + dealt, total);
            assert_eq!(shoe.running_count(), (running, decks));
            let now = shoe.penetration();
            assert_eq!(now, (dealt, total));
            assert!(now.0 >= last.0);
            last = now;
        }
        assert!(shoe.is_empty());
        assert_eq!(dealt, total);
        assert_eq!(shoe.running_count(), (0, decks));
        assert_eq!(shoe.penetration(), (total, total));
        assert_eq!(shoe.deal(), None);
        assert_eq!(shoe.len(), 0);
        assert_eq!(shoe.running_count(), (0, decks));
    }
}

#[test]
fn shoe_count_follows_the_cards() {
    let mut shoe = Shoe::unshuffled(1);
    // King, Queen, Jack, Ten of spades, then Nine, Eight, Seven, then Six
    for expected in [-1i64, -2, -3, -4, -4, -4, -4, -3] {
        shoe.deal();
        assert_eq!(shoe.running_count(), (expected, 1));
    }
    assert_eq!(shoe.penetration(), (8, 52));
    assert!(shoe.penetrated_past(0));
    assert!(shoe.penetrated_past(153_846));
    assert!(!shoe.penetrated_past(153_847));
    assert!(!shoe.penetrated_past(1_000_000));
}

#[test]
fn shoe_reset_fills_it_again() {
    let mut shoe = Shoe::new(1);
    for _ in 0..20 {
        shoe.deal();
    }
    assert_eq!(shoe.len(), 32);
    shoe.reset();
    assert_eq!(shoe.len(), 52);
    assert_eq!(shoe.num_decks(), 1);
    assert_eq!(shoe.running_count(), (0, 1));
    assert_eq!(shoe.penetration(), (0, 52));
    let mut cards = deal_all(&mut shoe);
    cards.sort();
    cards.dedup();
    assert_eq!(cards.len(), 52);
}

#[test]
fn empty_shoe_of_no_decks() {
    let mut shoe = Shoe::new(0);
    assert!(shoe.is_empty());
    assert_eq!(shoe.deal(), None);
    assert_eq!(shoe.penetration(), (0, 0));
    assert!(!shoe.penetrated_past(0));
}

#[test]
fn counter_counts_high_and_low() {
    let mut counter = HiLoCounter::new(4);
    assert_eq!(counter.count(), (0, 4));
    counter.insert(Card::new(Suit::Heart, Rank::Two));
    counter.insert(Card::new(Suit::Heart, Rank::Six));
    counter.insert(Card::new(Suit::Heart, Rank::Eight));
    assert_eq!(counter.count(), (2, 4));
    counter.update(&[
        Card::new(Suit::Club, Rank::Ace),
        Card::new(Suit::Club, Rank::King),
        Card::new(Suit::Club, Rank::Ten),
        Card::new(Suit::Club, Rank::Seven),
        Card::new(Suit::Club, Rank::Three),
    ]);
    assert_eq!(counter.count(), (0, 4));
    counter.insert(Card::new(Suit::Club, Rank::Jack));
    assert_eq!(counter.count(), (-1, 4));
    counter.clear();
    assert_eq!(counter.count(), (0, 4));
}

#[test]
fn outcome_dealer_blackjack_beats_twenty() {
    let dealer = hand_of(&[Rank::Ace, Rank::King]);
    let player = hand_of(&[Rank::King, Rank::Queen]);
    assert_eq!(player.value(), Some(20));
    assert_eq!(outcome(&player, &dealer), Outcome::Lose);
}

#[test]
fn outcome_two_blackjacks_push() {
    let dealer = hand_of(&[Rank::Ace, Rank::King]);
    let player = hand_of(&[Rank::Ten, Rank::Ace]);
    assert_eq!(outcome(&player, &dealer), Outcome::Push);
}

#[test]
fn outcome_higher_total_wins() {
    let dealer = hand_of(&[Rank::Ten, Rank::Seven]);
    let player = hand_of(&[Rank::Ten, Rank::Nine]);
    assert_eq!(dealer.value(), Some(17));
    assert_eq!(player.value(), Some(19));
    assert_eq!(outcome(&player, &dealer), Outcome::Win);
    assert_eq!(outcome(&dealer, &player), Outcome::Lose);
    assert_eq!(outcome(&player, &player), Outcome::Push);
}

#[test]
fn outcome_busted_player_loses() {
    let player = hand_of(&[Rank::Ten, Rank::Nine, Rank::Five]);
    assert!(player.busted());
    let dealer = hand_of(&[Rank::Ten, Rank::Eight]);
    assert_eq!(dealer.value(), Some(18));
    assert_eq!(outcome(&player, &dealer), Outcome::Lose);
    let busted_dealer = hand_of(&[Rank::Ten, Rank::Eight, Rank::Four]);
    assert_eq!(outcome(&player, &busted_dealer), Outcome::Lose);
    let low_dealer = hand_of(&[Rank::Two, Rank::Two]);
    assert_eq!(outcome(&player, &low_dealer), Outcome::Lose);
}

#[test]
fn outcome_player_blackjack() {
    let player = hand_of(&[Rank::Ace, Rank::King]);
    let dealer = hand_of(&[Rank::Ten, Rank::Six]);
    assert_eq!(dealer.value(), Some(16));
    assert_eq!(outcome(&player, &dealer), Outcome::Blackjack);
    let dealer_21 = hand_of(&[Rank::Ten, Rank::Six, Rank::Five]);
    assert_eq!(outcome(&player, &dealer_21), Outcome::Blackjack);
}

#[test]
fn outcome_busted_dealer_pays() {
    let player = hand_of(&[Rank::Two, Rank::Three]);
    let dealer = hand_of(&[Rank::Ten, Rank::Six, Rank::Six]);
    assert_eq!(outcome(&player, &dealer), Outcome::Win);
}

#[test]
fn new_table_is_open_and_empty() {
    let table = Table::new(2, 3, 400_000);
    assert_eq!(table.phase(), Phase::Open);
    assert_eq!(table.spots(), 3);
    assert_eq!(table.dealer_value(), None);
    assert!(table.dealer_hand().is_empty());
    assert_eq!(table.player_hands().len(), 3);
    for hand in table.player_hands() {
        assert!(hand.is_empty());
    }
    assert_eq!(table.shoe().len(), 104);
    assert_eq!(table.shoe().num_decks(), 2);
    assert!(table.can_deal());
}

#[test]
fn deal_goes_round_the_table_twice() {
    let mut table = Table::with_shoe(Shoe::unshuffled(1), 2, 1_000_000);
    assert!(!table.deal());
    assert_eq!(table.phase(), Phase::Dealt);
    let spade = |rank| Card::new(Suit::Spade, rank);
    assert_eq!(table.player_hand(0).cards(), [spade(Rank::King), spade(Rank::Ten)]);
    assert_eq!(table.player_hand(1).cards(), [spade(Rank::Queen), spade(Rank::Nine)]);
    assert_eq!(table.dealer_hand().cards(), [spade(Rank::Jack), spade(Rank::Eight)]);
    assert_eq!(table.shoe().len(), 46);
    assert_eq!(table.shoe().penetration(), (6, 52));
    assert_eq!(table.shoe().running_count(), (-4, 1));
    assert_eq!(table.dealer_value(), Some(18));
    assert_eq!(table.get_outcome(0), Outcome::Win);
    assert_eq!(table.get_outcome(1), Outcome::Win);
}

#[test]
fn round_from_deal_to_clear() {
    let mut table = Table::with_shoe(Shoe::unshuffled(1), 1, 1_000_000);
    assert!(table.can_deal());
    assert!(!table.deal());
    // player: King, Jack; dealer: Queen, Ten
    assert_eq!(table.player_hand(0).value(), Some(20));
    assert_eq!(table.dealer_value(), Some(20));
    assert!(!table.peek());
    assert_eq!(table.phase(), Phase::Dealt);
    assert_eq!(table.get_outcome(0), Outcome::Push);
    // the Nine busts the player
    assert!(table.player_hit(0));
    assert_eq!(table.player_hand(0).len(), 3);
    assert_eq!(table.phase(), Phase::Dealt);
    assert_eq!(table.get_outcome(0), Outcome::Lose);
    // a busted hand draws no more
    assert!(table.player_hit(0));
    assert_eq!(table.player_hand(0).len(), 3);
    assert_eq!(table.shoe().len(), 47);
    // the Eight busts the dealer
    assert!(table.dealer_hit());
    assert_eq!(table.phase(), Phase::Flipped);
    assert_eq!(table.dealer_value(), None);
    assert_eq!(table.get_outcome(0), Outcome::Lose);
    assert!(table.dealer_hit());
    assert_eq!(table.dealer_hand().len(), 3);
    assert_eq!(table.shoe().len(), 46);
    table.clear_hands();
    assert_eq!(table.phase(), Phase::Open);
    assert!(table.dealer_hand().is_empty());
    assert!(table.player_hand(0).is_empty());
    assert_eq!(table.dealer_value(), None);
    assert_eq!(table.shoe().len(), 46);
}

#[test]
fn peek_at_a_dealer_blackjack_ends_the_round() {
    let mut shoe = Shoe::unshuffled(1);
    for _ in 0..11 {
        shoe.deal();
    }
    let mut table = Table::with_shoe(shoe, 1, 1_000_000);
    assert!(!table.deal());
    assert_eq!(
        table.player_hand(0).cards(),
        [Card::new(Suit::Spade, Rank::Two), Card::new(Suit::Club, Rank::King)]
    );
    assert_eq!(
        table.dealer_hand().cards(),
        [Card::new(Suit::Spade, Rank::Ace), Card::new(Suit::Club, Rank::Queen)]
    );
    assert_eq!(table.phase(), Phase::Dealt);
    assert!(table.peek());
    assert_eq!(table.phase(), Phase::Flipped);
    assert_eq!(table.dealer_value(), Some(21));
    assert_eq!(table.get_outcome(0), Outcome::Lose);
    table.clear_hands();
    assert_eq!(table.phase(), Phase::Open);
}

#[test]
fn dealer_hit_turns_the_hand_up() {
    let mut shoe = Shoe::unshuffled(1);
    for _ in 0..4 {
        shoe.deal();
    }
    let mut table = Table::with_shoe(shoe, 1, 1_000_000);
    table.deal();
    // player: Nine, Seven; dealer: Eight, Six
    assert_eq!(table.player_hand(0).value(), Some(16));
    assert_eq!(table.dealer_value(), Some(14));
    assert!(!table.player_hit(0));
    assert_eq!(table.player_hand(0).value(), Some(21));
    assert!(!table.dealer_hit());
    assert_eq!(table.phase(), Phase::Flipped);
    assert_eq!(table.dealer_value(), Some(18));
    assert_eq!(table.get_outcome(0), Outcome::Win);
    assert!(!table.dealer_hit());
    assert_eq!(table.dealer_value(), Some(21));
    assert_eq!(table.get_outcome(0), Outcome::Push);
    assert!(table.dealer_hit());
    assert_eq!(table.dealer_value(), None);
    assert_eq!(table.get_outcome(0), Outcome::Win);
}

#[test]
fn deal_reshuffles_past_the_limit() {
    let mut shoe = Shoe::unshuffled(1);
    for _ in 0..27 {
        shoe.deal();
    }
    let mut table = Table::with_shoe(shoe, 1, 500_000);
    assert!(table.shoe().penetrated_past(500_000));
    assert!(table.deal());
    assert_eq!(table.shoe().len(), 48);
    assert_eq!(table.shoe().penetration(), (4, 52));
    assert_eq!(table.player_hand(0).len(), 2);
    assert_eq!(table.dealer_hand().len(), 2);
}

#[test]
fn deal_keeps_the_shoe_at_the_limit() {
    let mut shoe = Shoe::unshuffled(1);
    for _ in 0..26 {
        shoe.deal();
    }
    let mut table = Table::with_shoe(shoe, 1, 500_000);
    assert!(!table.deal());
    assert_eq!(table.shoe().len(), 22);
}

#[test]
fn limit_above_the_whole_shoe_is_the_whole_shoe() {
    let mut shoe = Shoe::unshuffled(1);
    for _ in 0..48 {
        shoe.deal();
    }
    let mut table = Table::with_shoe(shoe, 1, u32::MAX);
    assert!(table.can_deal());
    assert!(!table.deal());
    assert!(table.shoe().is_empty());
    assert_eq!(table.shoe().running_count(), (0, 1));
}

#[test]
fn deal_needs_two_cards_a_hand() {
    let mut shoe = Shoe::unshuffled(1);
    for _ in 0..49 {
        shoe.deal();
    }
    let table = Table::with_shoe(shoe, 1, 1_000_000);
    assert!(!table.can_deal());
    assert!(!Table::new(1, 26, 0).can_deal());
    assert!(Table::new(1, 25, 0).can_deal());
    assert!(!Table::new(0, 1, 1_000_000).can_deal());
}

#[test]
fn table_with_a_shuffled_shoe_plays_a_round() {
    let mut table = Table::new(1, 3, 400_000);
    assert!(!table.deal());
    assert_eq!(table.phase(), Phase::Dealt);
    assert_eq!(table.shoe().len(), 44);
    for spot in 0..3 {
        assert_eq!(table.player_hand(spot).len(), 2);
        assert!(table.player_hand(spot).verify());
    }
    assert_eq!(table.dealer_hand().len(), 2);
    assert_eq!(table.dealer_value(), table.dealer_hand().value());
    if !table.peek() {
        while !table.player_hit(1) {}
        assert!(table.player_hand(1).busted());
        assert_eq!(table.get_outcome(1), Outcome::Lose);
        while !table.dealer_hit() {}
    }
    assert_eq!(table.phase(), Phase::Flipped);
    table.clear_hands();
    assert_eq!(table.phase(), Phase::Open);
    table.reset();
    assert_eq!(table.phase(), Phase::Open);
    assert_eq!(table.shoe().len(), 52);
    assert_eq!(table.shoe().running_count(), (0, 1));
}
