//! `shoo`
//!
//! A blackjack rules engine: cards, hand valuation under the ace rules,
//! a shoe with a running count, and a table that walks each round through
//! its phases.
pub mod bet;
pub mod card;
pub mod hand;
pub mod shoe;
pub mod table;
pub mod tally;
