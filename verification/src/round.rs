//! The round engine: deals one round's hands from a deck, applies the
//! player's hit/stand decisions, auto-plays the dealer, and resolves
//! the trinary outcome.
//!
//! The dealer's policy is deliberate and exact: after the player
//! stands, the dealer draws until it has a blackjack, strictly exceeds
//! the player's optimum without busting, or busts. It never stands on a
//! tie or on any value not exceeding the player's.

use vstd::prelude::*;
use crate::card::Card;
use crate::cards::{CardSet, optimum_value, is_blackjack, lemma_total_bounds};

verus! {

/// The outcome of one round, consumed by the session loop to adjust
/// the stake.
#[derive(Clone, Copy, Debug, PartialEq, Eq, Structural)]
pub enum GameResult {
    Win,
    Draw,
    Lose,
}

/// A player's intent at a decision point.
#[derive(Clone, Copy, Debug, PartialEq, Eq, Structural)]
pub enum Action {
    Hit,
    Stand,
}

/// The deck ran out mid-round: a fatal breach of the one-deck-per-round
/// invariant, never expected in normal 52-card play.
#[derive(Clone, Copy, Debug, PartialEq, Eq, Structural)]
pub struct DeckExhausted;

/// How the dealer's drawing loop ends.
#[derive(Clone, Copy, Debug, PartialEq, Eq, Structural)]
pub enum DealerEnd {
    DealerWins,
    PlayerWins,
    Exhausted,
}

/// The dealer's deterministic auto-play: draw the deck's last card,
/// then stop on dealer blackjack or on strictly exceeding the player's
/// optimum without busting (dealer wins), stop on busting (player
/// wins), and otherwise keep drawing. Yields how the loop ends together
/// with the remaining deck and the final dealer hand.
pub open spec fn dealer_play(deck: Seq<Card>, dealer: Seq<Card>, player_opt: int) -> (
    DealerEnd,
    Seq<Card>,
    Seq<Card>,
)
    decreases deck.len(),
{
    if deck.len() == 0 {
        (DealerEnd::Exhausted, deck, dealer)
    } else {
        let drawn = dealer.push(deck.last());
        let rest = deck.drop_last();
        if is_blackjack(drawn) {
            (DealerEnd::DealerWins, rest, drawn)
        } else if optimum_value(drawn) <= 21 && optimum_value(drawn) > player_opt {
            (DealerEnd::DealerWins, rest, drawn)
        } else if optimum_value(drawn) > 21 {
            (DealerEnd::PlayerWins, rest, drawn)
        } else {
            dealer_play(rest, drawn, player_opt)
        }
    }
}

/// The round's outcome from its two flags: both set is a draw, only
/// the player's a win, anything else a loss.
pub open spec fn result_of(player_wins: bool, dealer_wins: bool) -> GameResult {
    if player_wins && dealer_wins {
        GameResult::Draw
    } else if player_wins {
        GameResult::Win
    } else {
        GameResult::Lose
    }
}

/// One round in play: the remaining draw pile, the two hands, and the
/// two resolution flags.
#[derive(Debug)]
pub struct Round {
    pub deck: CardSet,
    pub player: CardSet,
    pub dealer: CardSet,
    pub player_wins: bool,
    pub dealer_wins: bool,
}

impl Round {
    /// All cards in play came from one 52-card deck.
    pub open spec fn wf(self) -> bool {
        self.deck@.len() + self.player@.len() + self.dealer@.len() <= 52
    }

    /// The round is still unresolved.
    pub open spec fn in_progress_spec(self) -> bool {
        !self.player_wins && !self.dealer_wins
    }

    /// Whether the round is still unresolved.
    pub fn in_progress(&self) -> (r: bool)
        ensures
            r == self.in_progress_spec(),
    {
        !self.player_wins && !self.dealer_wins
    }

    /// Deals a round from `deck`: two cards to the player, then one to
    /// the dealer, each drawn from the deck's end. A dealt player
    /// blackjack resolves the round at once in the player's favour (the
    /// dealer, one card behind, can never answer with a two-card
    /// blackjack of its own).
    pub fn deal(deck: CardSet) -> (r: Result<Round, DeckExhausted>)
        requires
            deck@.len() <= 52,
        ensures
            deck@.len() < 3 ==> r is Err,
            deck@.len() >= 3 ==> (r matches Ok(rd) && {
                let n = deck@.len() as int;
                &&& rd.deck@ == deck@.take(n - 3)
                &&& rd.player@ == seq![deck@[n - 1], deck@[n - 2]]
                &&& rd.dealer@ == seq![deck@[n - 3]]
                &&& rd.player_wins == is_blackjack(rd.player@)
                &&& rd.dealer_wins == false
                &&& rd.wf()
            }),
    {
        let ghost deck0 = deck@;
        let mut deck = deck;
        let mut player = CardSet::new();
        let mut dealer = CardSet::new();
        let c1 = match deck.pop() {
            Some(c) => c,
            None => {
                return Err(DeckExhausted);
            },
        };
        player.push(c1);
        let c2 = match deck.pop() {
            Some(c) => c,
            None => {
                return Err(DeckExhausted);
            },
        };
        player.push(c2);
        let c3 = match deck.pop() {
            Some(c) => c,
            None => {
                return Err(DeckExhausted);
            },
        };
        dealer.push(c3);
        let player_wins = player.has_blackjack();
        proof {
            let n = deck0.len() as int;
            assert(deck@ =~= deck0.take(n - 3));
            assert(player@ =~= seq![deck0[n - 1], deck0[n - 2]]);
            assert(dealer@ =~= seq![deck0[n - 3]]);
        }
        Ok(Round { deck, player, dealer, player_wins, dealer_wins: false })
    }

    /// The player hits: one card is drawn from the deck into the
    /// player's hand, and a hand whose optimum then exceeds 21 busts,
    /// resolving the round against the player. An empty deck leaves the
    /// round untouched and reports exhaustion.
    pub fn player_hit(&mut self) -> (r: Result<(), DeckExhausted>)
        requires
            old(self).in_progress_spec(),
            old(self).wf(),
        ensures
            final(self).wf(),
            old(self).deck@.len() == 0 ==> (r is Err && final(self).deck@ == old(self).deck@
                && final(self).player@ == old(self).player@ && final(self).dealer@
                == old(self).dealer@ && final(self).in_progress_spec()),
            old(self).deck@.len() > 0 ==> (r is Ok && final(self).deck@
                == old(self).deck@.drop_last() && final(self).player@
                == old(self).player@.push(old(self).deck@.last()) && final(self).dealer@
                == old(self).dealer@ && final(self).player_wins == false
                && final(self).dealer_wins == (optimum_value(final(self).player@) > 21)),
    {
        let c = match self.deck.pop() {
            Some(c) => c,
            None => {
                return Err(DeckExhausted);
            },
        };
        self.player.push(c);
        proof {
            lemma_total_bounds(self.player@);
        }
        if self.player.get_value_optimum() > 21 {
            self.dealer_wins = true;
        }
        Ok(())
    }

    /// The player stands: the dealer auto-plays to the end of its
    /// drawing policy. The round's final deck, dealer hand and flags
    /// are exactly what `dealer_play` yields; exhaustion of the deck is
    /// reported as an error with both flags still clear.
    pub fn player_stand(&mut self) -> (r: Result<(), DeckExhausted>)
        requires
            old(self).in_progress_spec(),
            old(self).wf(),
        ensures
            final(self).wf(),
            final(self).player@ == old(self).player@,
            ({
                let (end, rest, drawn) = dealer_play(
                    old(self).deck@,
                    old(self).dealer@,
                    optimum_value(old(self).player@),
                );
                &&& final(self).deck@ == rest
                &&& final(self).dealer@ == drawn
                &&& (r is Ok <==> !(end is Exhausted))
                &&& final(self).dealer_wins == (end is DealerWins)
                &&& final(self).player_wins == (end is PlayerWins)
            }),
    {
        let ghost orig = *self;
        proof {
            lemma_total_bounds(self.player@);
        }
        let p = self.player.get_value_optimum();
        while !self.dealer_wins && !self.player_wins
            invariant
                orig == *old(self),
                self.player@ == orig.player@,
                self.wf(),
                p == optimum_value(orig.player@),
                (!self.player_wins && !self.dealer_wins) ==> dealer_play(
                    self.deck@,
                    self.dealer@,
                    p as int,
                ) == dealer_play(orig.deck@, orig.dealer@, p as int),
                self.dealer_wins ==> dealer_play(orig.deck@, orig.dealer@, p as int) == (
                    DealerEnd::DealerWins,
                    self.deck@,
                    self.dealer@,
                ),
                self.player_wins ==> dealer_play(orig.deck@, orig.dealer@, p as int) == (
                    DealerEnd::PlayerWins,
                    self.deck@,
                    self.dealer@,
                ),
                !(self.player_wins && self.dealer_wins),
            decreases self.deck@.len(),
        {
            let c = match self.deck.pop() {
                Some(c) => c,
                None => {
                    return Err(DeckExhausted);
                },
            };
            self.dealer.push(c);
            if self.dealer.has_blackjack() {
                self.dealer_wins = true;
            } else {
                proof {
                    lemma_total_bounds(self.dealer@);
                }
                let d = self.dealer.get_value_optimum();
                if d <= 21 && d > p {
                    self.dealer_wins = true;
                } else if d > 21 {
                    self.player_wins = true;
                }
            }
        }
        Ok(())
    }

    /// The round's outcome, derived from the two flags.
    pub fn outcome(&self) -> (r: GameResult)
        ensures
            r == result_of(self.player_wins, self.dealer_wins),
    {
        match self.player_wins {
            true if self.dealer_wins => GameResult::Draw,
            true => GameResult::Win,
            false => GameResult::Lose,
        }
    }
}

/// What each end of the dealer's auto-play says of the final dealer
/// hand: a dealer win comes only with a dealer blackjack or with an
/// optimum that beats the player's without busting; a player win comes
/// only when the dealer busts; exhaustion empties the deck.
pub proof fn lemma_dealer_play_outcome(deck: Seq<Card>, dealer: Seq<Card>, player_opt: int)
    ensures
        ({
            let (end, rest, drawn) = dealer_play(deck, dealer, player_opt);
            &&& end is DealerWins ==> (is_blackjack(drawn) || (optimum_value(drawn) <= 21
                && optimum_value(drawn) > player_opt))
            &&& end is PlayerWins ==> (optimum_value(drawn) > 21 && !is_blackjack(drawn))
            &&& end is Exhausted ==> rest.len() == 0
        }),
    decreases deck.len(),
{
    if deck.len() > 0 {
        let drawn = dealer.push(deck.last());
        if !is_blackjack(drawn) && !(optimum_value(drawn) <= 21 && optimum_value(drawn)
            > player_opt) && !(optimum_value(drawn) > 21) {
            lemma_dealer_play_outcome(deck.drop_last(), drawn, player_opt);
        }
    }
}

} // verus!
