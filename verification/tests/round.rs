use blackjack::card::{Card, Suit};
use blackjack::cards::CardSet;
use blackjack::round::{Action, GameResult, Round};
use blackjack::session::{apply_result, parse_action, parse_i32, validate_bet};

// The deck is drawn from its end: the last card listed is dealt first.
fn deck_of(codes: &[(Suit, i32)]) -> CardSet {
    let mut set = CardSet::new();
    for (s, code) in codes {
        set.push(Card::from_value(*s, *code));
    }
    set
}

#[test]
fn dealt_blackjack_wins_immediately() {
    // deal order: Ace, King to the player, Two to the dealer
    let deck = deck_of(&[(Suit::Hearts, 5), (Suit::Clubs, 2), (Suit::Clubs, 13), (Suit::Spades, 1)]);
    let round = Round::deal(deck).unwrap();
    assert!(round.player.has_blackjack());
    assert!(!round.in_progress());
    assert_eq!(round.outcome(), GameResult::Win);
    // the dealer kept its single hole card: it never answers with a
    // two-card blackjack of its own
    assert_eq!(round.dealer.0.len(), 1);
}

#[test]
fn deal_gives_two_cards_then_one() {
    let deck = deck_of(&[(Suit::Hearts, 4), (Suit::Clubs, 6), (Suit::Diamonds, 5), (Suit::Spades, 10)]);
    let round = Round::deal(deck).unwrap();
    assert_eq!(round.player.0.len(), 2);
    assert_eq!(round.player.0[0], Card::from_value(Suit::Spades, 10));
    assert_eq!(round.player.0[1], Card::from_value(Suit::Diamonds, 5));
    assert_eq!(round.dealer.0.len(), 1);
    assert_eq!(round.dealer.0[0], Card::from_value(Suit::Clubs, 6));
    assert_eq!(round.deck.0.len(), 1);
    assert!(round.in_progress());
}

#[test]
fn deal_fails_on_short_deck() {
    let deck = deck_of(&[(Suit::Hearts, 5), (Suit::Spades, 10)]);
    assert!(Round::deal(deck).is_err());
}

#[test]
fn stand_at_15_dealer_busts_player_wins() {
    // player: Ten, Five (15); dealer: Six, then draws Seven (13), Nine (22): bust
    let deck = deck_of(&[
        (Suit::Clubs, 9),
        (Suit::Clubs, 7),
        (Suit::Clubs, 6),
        (Suit::Hearts, 5),
        (Suit::Spades, 10),
    ]);
    let mut round = Round::deal(deck).unwrap();
    assert_eq!(round.player.get_value_optimum(), 15);
    round.player_stand().unwrap();
    assert!(!round.in_progress());
    assert_eq!(round.outcome(), GameResult::Win);
    assert_eq!(round.dealer.get_value_optimum(), 22);
}

#[test]
fn stand_dealer_overtakes_player_loses() {
    // player: Ten, Five (15); dealer: Six, draws Ten (16 > 15): dealer wins
    let deck = deck_of(&[
        (Suit::Clubs, 10),
        (Suit::Clubs, 6),
        (Suit::Hearts, 5),
        (Suit::Spades, 10),
    ]);
    let mut round = Round::deal(deck).unwrap();
    round.player_stand().unwrap();
    assert_eq!(round.outcome(), GameResult::Lose);
}

#[test]
fn stand_dealer_blackjack_loses() {
    // player: Ten, Five (15); dealer: Ace, draws King: two-card 21
    let deck = deck_of(&[
        (Suit::Clubs, 13),
        (Suit::Clubs, 1),
        (Suit::Hearts, 5),
        (Suit::Spades, 10),
    ]);
    let mut round = Round::deal(deck).unwrap();
    round.player_stand().unwrap();
    assert!(round.dealer.has_blackjack());
    assert_eq!(round.outcome(), GameResult::Lose);
}

#[test]
fn dealer_never_stands_on_a_tie() {
    // player: Ten, Ten (20); dealer: Ten, draws Ten (20, a tie: keeps
    // drawing), draws Five (25): bust, player wins
    let deck = deck_of(&[
        (Suit::Hearts, 5),
        (Suit::Diamonds, 10),
        (Suit::Clubs, 10),
        (Suit::Hearts, 10),
        (Suit::Spades, 10),
    ]);
    let mut round = Round::deal(deck).unwrap();
    round.player_stand().unwrap();
    assert_eq!(round.dealer.0.len(), 3);
    assert_eq!(round.outcome(), GameResult::Win);
}

#[test]
fn hit_to_bust_loses_whatever_the_dealer_has() {
    // player: Ten, Five (15), hits King (25): bust
    let deck = deck_of(&[
        (Suit::Clubs, 13),
        (Suit::Clubs, 6),
        (Suit::Hearts, 5),
        (Suit::Spades, 10),
    ]);
    let mut round = Round::deal(deck).unwrap();
    round.player_hit().unwrap();
    assert!(round.player.get_value_optimum() > 21);
    assert!(!round.in_progress());
    assert_eq!(round.outcome(), GameResult::Lose);
    // the dealer never drew at all
    assert_eq!(round.dealer.0.len(), 1);
}

#[test]
fn hit_below_21_keeps_round_open() {
    // player: Ten, Five (15), hits Four (19): still in progress
    let deck = deck_of(&[
        (Suit::Clubs, 4),
        (Suit::Clubs, 6),
        (Suit::Hearts, 5),
        (Suit::Spades, 10),
    ]);
    let mut round = Round::deal(deck).unwrap();
    round.player_hit().unwrap();
    assert_eq!(round.player.get_value_optimum(), 19);
    assert!(round.in_progress());
}

#[test]
fn hit_on_empty_deck_reports_exhaustion() {
    let deck = deck_of(&[(Suit::Clubs, 2), (Suit::Hearts, 5), (Suit::Spades, 10)]);
    let mut round = Round::deal(deck).unwrap();
    assert!(round.in_progress());
    assert!(round.player_hit().is_err());
    assert!(round.in_progress());
}

#[test]
fn stand_exhausting_deck_reports_exhaustion() {
    // dealer: Two, draws Two (4): must keep drawing, but the deck is out
    let deck = deck_of(&[
        (Suit::Diamonds, 2),
        (Suit::Clubs, 2),
        (Suit::Hearts, 5),
        (Suit::Spades, 10),
    ]);
    let mut round = Round::deal(deck).unwrap();
    assert!(round.player_stand().is_err());
    assert!(round.in_progress());
}

#[test]
fn win_adds_bet_lose_subtracts_draw_keeps() {
    assert_eq!(apply_result(500, 100, GameResult::Win), 600);
    assert_eq!(apply_result(600, 600, GameResult::Lose), 0);
    assert_eq!(apply_result(500, 100, GameResult::Draw), 500);
}

#[test]
fn invalid_bet_is_rejected() {
    assert_eq!(validate_bet("abc", 500), None);
    assert_eq!(validate_bet("600", 500), None);
    assert_eq!(validate_bet("", 500), None);
    assert_eq!(validate_bet("100", 500), Some(100));
    assert_eq!(validate_bet("500", 500), Some(500));
    // negative and zero bets are accepted by the literal boundary
    assert_eq!(validate_bet("0", 500), Some(0));
    assert_eq!(validate_bet("-50", 500), Some(-50));
}

#[test]
fn parse_i32_matches_std() {
    let cases = [
        "0", "42", "+42", "-7", "042", "2147483647", "2147483648", "-2147483648", "-2147483649",
        "99999999999999999999", "", "+", "-", "4 2", "4.2", "abc", "0x10", " 42", "42 ", "-0",
        "+0", "000000000000000000042", "--4", "+-4", "2147483650",
    ];
    for s in cases {
        assert_eq!(parse_i32(s), s.parse::<i32>().ok(), "case {:?}", s);
    }
}

#[test]
fn parse_action_is_case_insensitive() {
    assert_eq!(parse_action("hit"), Some(Action::Hit));
    assert_eq!(parse_action("HIT"), Some(Action::Hit));
    assert_eq!(parse_action("Hit"), Some(Action::Hit));
    assert_eq!(parse_action("stand"), Some(Action::Stand));
    assert_eq!(parse_action("STAND"), Some(Action::Stand));
    assert_eq!(parse_action("sTaNd"), Some(Action::Stand));
    assert_eq!(parse_action(""), None);
    assert_eq!(parse_action("h"), None);
    assert_eq!(parse_action("hitt"), None);
    assert_eq!(parse_action("stan"), None);
    assert_eq!(parse_action("hit "), None);
}

#[test]
fn session_run_win_then_lose_reaches_zero() {
    // starting stake 500, bet 100, win: 600; then bet 600, lose: 0
    let mut stake: i32 = 500;
    let bet = validate_bet("100", stake).unwrap();
    stake = apply_result(stake, bet, GameResult::Win);
    assert_eq!(stake, 600);
    let bet = validate_bet("600", stake).unwrap();
    stake = apply_result(stake, bet, GameResult::Lose);
    assert_eq!(stake, 0);
    assert!(!(stake > 0));
}
