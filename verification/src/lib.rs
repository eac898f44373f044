//! A single-player blackjack simulator's verified core: cards and
//! their dual ace valuation, the deck and hand container, the
//! round-resolution engine with the dealer's drawing policy, and the
//! session's bet parsing and stake settlement.

pub mod card;
pub mod cards;
pub mod round;
pub mod session;
