//! The three strategies of the computer-controlled players.
//!
//! A strategy is an ordered list of rules. Each rule accepts some cards; the
//! player plays the first card of its hand that the first rule with any
//! match accepts, and draws when no rule matches.

use vstd::prelude::*;
use crate::card::{color_at, Color, Difficulty, SpecialCard, UNOCard};
use crate::prng::{range_state, range_value, Randler};
use crate::rules::{allowed_move, is_playable};

verus! {

/// A test on the cards of a hand.
#[derive(Debug, Copy, Clone, PartialEq, Eq, Structural)]
pub enum Rule {
    /// A Draw 2 or a Draw 4, playable or not.
    Counter,
    /// A playable number card.
    LegalNumber,
    /// A playable Skip, Reverse or Draw 2.
    LegalAction,
    /// Any wild card.
    AnyWild,
    /// Any Draw 4.
    AnyDrawFour,
    /// A playable colour change or number card.
    LegalChangeOrNumber,
    /// A playable card that is no number card.
    LegalNotNumber,
    /// A playable number card of the given colour.
    LegalNumberOf(Color),
    /// A playable card of the given colour.
    LegalOf(Color),
}

/// Whether `rule` accepts `card` when `top` is the top card.
pub open spec fn rule_accepts(rule: Rule, card: UNOCard, top: UNOCard) -> bool {
    match rule {
        Rule::Counter => card.is_counter(),
        Rule::LegalNumber => card.special == SpecialCard::Base && is_playable(card, top),
        Rule::LegalAction => {
            (card.special == SpecialCard::PlusTwo || card.special == SpecialCard::Skip
                || card.special == SpecialCard::Reverse) && is_playable(card, top)
        },
        Rule::AnyWild => card.is_wild(),
        Rule::AnyDrawFour => card.special == SpecialCard::PlusFour,
        Rule::LegalChangeOrNumber => {
            (card.special == SpecialCard::ColorChange || card.special == SpecialCard::Base)
                && is_playable(card, top)
        },
        Rule::LegalNotNumber => card.special != SpecialCard::Base && is_playable(card, top),
        Rule::LegalNumberOf(color) => {
            card.color == color && card.special == SpecialCard::Base && is_playable(card, top)
        },
        Rule::LegalOf(color) => card.color == color && is_playable(card, top),
    }
}

/// The position of the first card of `hand`, from `start` on, that `rule`
/// accepts.
pub open spec fn first_accepted_from(
    hand: Seq<UNOCard>,
    rule: Rule,
    top: UNOCard,
    start: int,
) -> Option<int>
    decreases hand.len() - start,
{
    if start < 0 || start >= hand.len() {
        None
    } else if rule_accepts(rule, hand[start], top) {
        Some(start)
    } else {
        first_accepted_from(hand, rule, top, start + 1)
    }
}

/// The position of the first card of `hand` that `rule` accepts.
pub open spec fn first_accepted(hand: Seq<UNOCard>, rule: Rule, top: UNOCard) -> Option<int> {
    first_accepted_from(hand, rule, top, 0)
}

/// The choice that a list of rules makes: the first match of the first rule
/// that has one.
pub open spec fn choice_by(hand: Seq<UNOCard>, rules: Seq<Rule>, top: UNOCard) -> Option<int>
    decreases rules.len(),
{
    if rules.len() == 0 {
        None
    } else {
        match first_accepted(hand, rules[0], top) {
            Some(i) => Some(i),
            None => choice_by(hand, rules.drop_first(), top),
        }
    }
}

/// How many cards of `hand` have the colour `color`.
pub open spec fn color_count(hand: Seq<UNOCard>, color: Color) -> nat
    decreases hand.len(),
{
    if hand.len() == 0 {
        0
    } else {
        color_count(hand.drop_last(), color) + if hand.last().color == color {
            1nat
        } else {
            0nat
        }
    }
}

/// The largest of four counts.
pub open spec fn largest_count(reds: nat, blues: nat, yellows: nat, greens: nat) -> nat {
    let upper = if reds >= blues {
        reds
    } else {
        blues
    };
    let lower = if yellows >= greens {
        yellows
    } else {
        greens
    };
    if upper >= lower {
        upper
    } else {
        lower
    }
}

/// The colours whose count is the largest of the four, in the order Red,
/// Green, Yellow, Blue. There is always one; where all counts are zero,
/// there are all four.
pub open spec fn tied_colors(reds: nat, blues: nat, yellows: nat, greens: nat) -> Seq<Color> {
    let most = largest_count(reds, blues, yellows, greens);
    let red = if reds == most {
        seq![Color::Red]
    } else {
        Seq::<Color>::empty()
    };
    let green = if greens == most {
        seq![Color::Green]
    } else {
        Seq::<Color>::empty()
    };
    let yellow = if yellows == most {
        seq![Color::Yellow]
    } else {
        Seq::<Color>::empty()
    };
    let blue = if blues == most {
        seq![Color::Blue]
    } else {
        Seq::<Color>::empty()
    };
    red + green + yellow + blue
}

/// The colour that leads among four counts: of the colours whose count is
/// the largest, the first in the order Red, Blue, Yellow, Green. No colour
/// leads where all counts are zero.
pub open spec fn leading_color(
    reds: nat,
    blues: nat,
    yellows: nat,
    greens: nat,
) -> Option<Color> {
    let most = largest_count(reds, blues, yellows, greens);
    if most == 0 {
        None
    } else if reds == most {
        Some(Color::Red)
    } else if blues == most {
        Some(Color::Blue)
    } else if yellows == most {
        Some(Color::Yellow)
    } else {
        Some(Color::Green)
    }
}

/// The most common colours of a hand, in the order Red, Green, Yellow,
/// Blue: all four for a hand without a coloured card.
pub open spec fn most_common(hand: Seq<UNOCard>) -> Seq<Color> {
    tied_colors(
        color_count(hand, Color::Red),
        color_count(hand, Color::Blue),
        color_count(hand, Color::Yellow),
        color_count(hand, Color::Green),
    )
}

/// The colour that leads in a hand, if the hand holds a coloured card: the
/// most common one, and of several the first in the order Red, Blue,
/// Yellow, Green.
pub open spec fn common_color(hand: Seq<UNOCard>) -> Option<Color> {
    leading_color(
        color_count(hand, Color::Red),
        color_count(hand, Color::Blue),
        color_count(hand, Color::Yellow),
        color_count(hand, Color::Green),
    )
}

/// The colour that a computer-controlled player with the hand `hand` gives
/// a wild card when the generator is in state `state`: the most common
/// colour of the hand, and of several the one that a sample picks.
pub open spec fn wild_color(hand: Seq<UNOCard>, state: u64) -> Color {
    let tied = most_common(hand);
    if tied.len() == 1 {
        tied[0]
    } else {
        tied[range_value(state, 0, (tied.len() - 1) as u64)]
    }
}

/// The state of the generator after a computer-controlled player with the
/// hand `hand` has chosen a colour: as before where one colour is the most
/// common, and one sample on where several are.
pub open spec fn wild_color_state(hand: Seq<UNOCard>, state: u64) -> u64 {
    let tied = most_common(hand);
    if tied.len() == 1 {
        state
    } else {
        range_state(state, 0, (tied.len() - 1) as u64)
    }
}

/// The rules of a difficulty, in the order in which they are tried.
///
/// A Draw 2 on top is answered with a counter card before anything else.
/// Calm keeps its special cards for last; Aggressive plays them first;
/// Skilled sheds a card that is no number card when it is down to one card,
/// and otherwise plays the colour that leads in its hand: the most common
/// one, and of several the first in the order Red, Blue, Yellow, Green.
pub open spec fn strategy(
    hand: Seq<UNOCard>,
    top: UNOCard,
    difficulty: Difficulty,
    uno: bool,
) -> Seq<Rule> {
    let stacking = if top.special == SpecialCard::PlusTwo {
        seq![Rule::Counter]
    } else {
        Seq::<Rule>::empty()
    };
    stacking + match difficulty {
        Difficulty::Calm => seq![Rule::LegalNumber, Rule::LegalAction, Rule::AnyWild],
        Difficulty::Aggressive => seq![
            Rule::AnyDrawFour,
            Rule::LegalAction,
            Rule::LegalChangeOrNumber,
        ],
        Difficulty::Skilled => {
            let shedding = if uno {
                seq![Rule::LegalNotNumber]
            } else {
                Seq::<Rule>::empty()
            };
            let leading = match common_color(hand) {
                Some(color) => seq![Rule::LegalNumberOf(color), Rule::LegalOf(color)],
                None => Seq::<Rule>::empty(),
            };
            shedding + leading + seq![Rule::LegalNumber, Rule::AnyWild]
        },
    }
}

/// The move of a computer-controlled player: the position in its hand of the
/// card to play, or none to draw.
pub open spec fn ai_move(hand: Seq<UNOCard>, top: UNOCard, difficulty: Difficulty, uno: bool)
    -> Option<int> {
    choice_by(hand, strategy(hand, top, difficulty, uno), top)
}

/// Whether `rule` accepts `card` on `top`.
pub fn accepts(rule: Rule, card: UNOCard, top: UNOCard) -> (accepted: bool)
    ensures
        accepted == rule_accepts(rule, card, top),
{
    match rule {
        Rule::Counter => card.counter(),
        Rule::LegalNumber => card.special == SpecialCard::Base && allowed_move(card, top),
        Rule::LegalAction => {
            (card.special == SpecialCard::PlusTwo || card.special == SpecialCard::Skip
                || card.special == SpecialCard::Reverse) && allowed_move(card, top)
        },
        Rule::AnyWild => card.wild(),
        Rule::AnyDrawFour => card.special == SpecialCard::PlusFour,
        Rule::LegalChangeOrNumber => {
            (card.special == SpecialCard::ColorChange || card.special == SpecialCard::Base)
                && allowed_move(card, top)
        },
        Rule::LegalNotNumber => card.special != SpecialCard::Base && allowed_move(card, top),
        Rule::LegalNumberOf(color) => {
            card.color == color && card.special == SpecialCard::Base && allowed_move(card, top)
        },
        Rule::LegalOf(color) => card.color == color && allowed_move(card, top),
    }
}

/// The position of the first card of `hand` that `rule` accepts.
pub fn find_first(hand: &Vec<UNOCard>, rule: Rule, top: UNOCard) -> (found: Option<usize>)
    ensures
        match found {
            Some(i) => first_accepted(hand@, rule, top) == Some(i as int),
            None => first_accepted(hand@, rule, top) is None,
        },
{
    let mut i: usize = 0;
    while i < hand.len()
        invariant
            i <= hand.len(),
            first_accepted(hand@, rule, top) == first_accepted_from(hand@, rule, top, i as int),
        decreases hand.len() - i,
    {
        if accepts(rule, hand[i], top) {
            return Some(i);
        }
        i += 1;
    }
    None
}

/// Counts the red, blue, yellow and green cards of a hand, in this order.
pub fn count_color(hand: &Vec<UNOCard>) -> (counts: (usize, usize, usize, usize))
    ensures
        counts.0 == color_count(hand@, Color::Red),
        counts.1 == color_count(hand@, Color::Blue),
        counts.2 == color_count(hand@, Color::Yellow),
        counts.3 == color_count(hand@, Color::Green),
{
    let mut reds: usize = 0;
    let mut blues: usize = 0;
    let mut yellows: usize = 0;
    let mut greens: usize = 0;
    let mut i: usize = 0;
    while i < hand.len()
        invariant
            i <= hand.len(),
            reds <= i,
            blues <= i,
            yellows <= i,
            greens <= i,
            reds == color_count(hand@.take(i as int), Color::Red),
            blues == color_count(hand@.take(i as int), Color::Blue),
            yellows == color_count(hand@.take(i as int), Color::Yellow),
            greens == color_count(hand@.take(i as int), Color::Green),
        decreases hand.len() - i,
    {
        assert(hand@.take(i + 1).drop_last() =~= hand@.take(i as int));
        match hand[i].color {
            Color::Red => {
                reds += 1;
            },
            Color::Blue => {
                blues += 1;
            },
            Color::Yellow => {
                yellows += 1;
            },
            Color::Green => {
                greens += 1;
            },
            Color::NA => {},
        }
        i += 1;
    }
    assert(hand@.take(hand@.len() as int) =~= hand@);
    (reds, blues, yellows, greens)
}

/// The largest of four counts.
fn largest(reds: usize, blues: usize, yellows: usize, greens: usize) -> (most: usize)
    ensures
        most == largest_count(reds as nat, blues as nat, yellows as nat, greens as nat),
{
    let upper = if reds >= blues {
        reds
    } else {
        blues
    };
    let lower = if yellows >= greens {
        yellows
    } else {
        greens
    };
    if upper >= lower {
        upper
    } else {
        lower
    }
}

/// The colour that leads among four counts, if any count is above zero.
pub fn leading(
    reds: usize,
    blues: usize,
    yellows: usize,
    greens: usize,
) -> (color: Option<Color>)
    ensures
        color == leading_color(reds as nat, blues as nat, yellows as nat, greens as nat),
{
    let most = largest(reds, blues, yellows, greens);
    if most == 0 {
        None
    } else if reds == most {
        Some(Color::Red)
    } else if blues == most {
        Some(Color::Blue)
    } else if yellows == most {
        Some(Color::Yellow)
    } else {
        Some(Color::Green)
    }
}

/// The colours whose count is the largest of the four, in the order Red,
/// Green, Yellow, Blue.
pub fn tied(reds: usize, blues: usize, yellows: usize, greens: usize) -> (colors: Vec<Color>)
    ensures
        colors@ == tied_colors(reds as nat, blues as nat, yellows as nat, greens as nat),
        1 <= colors@.len() <= 4,
        forall|i: int| 0 <= i < colors@.len() ==> colors@[i] != Color::NA,
{
    let most = largest(reds, blues, yellows, greens);
    let mut colors: Vec<Color> = Vec::new();
    if reds == most {
        colors.push(Color::Red);
    }
    if greens == most {
        colors.push(Color::Green);
    }
    if yellows == most {
        colors.push(Color::Yellow);
    }
    if blues == most {
        colors.push(Color::Blue);
    }
    assert(colors@ =~= tied_colors(reds as nat, blues as nat, yellows as nat, greens as nat));
    colors
}

/// The colour that a computer-controlled player gives a wild card: the
/// most common colour of its hand. Where several colours are the most
/// common, one of them is sampled from `rand`; in a hand without a coloured
/// card all four are.
pub fn get_common_color(hand: &Vec<UNOCard>, rand: &mut Randler) -> (color: Color)
    ensures
        ({
            let tied = most_common(hand@);
            let last = (tied.len() - 1) as u64;
            &&& tied.len() == 1 ==> color == tied[0] && final(rand)@ == old(rand)@
            &&& tied.len() > 1 ==> color == tied[range_value(old(rand)@, 0, last)] && final(rand)@
                == range_state(old(rand)@, 0, last)
        }),
        color == wild_color(hand@, old(rand)@),
        final(rand)@ == wild_color_state(hand@, old(rand)@),
        color != Color::NA,
{
    let (reds, blues, yellows, greens) = count_color(hand);
    let colors = tied(reds, blues, yellows, greens);
    if colors.len() == 1 {
        colors[0]
    } else {
        let last = (colors.len() - 1) as u64;
        let sample = match rand.rand_range(0, last) {
            Some(sample) => sample,
            None => 0,
        };
        colors[sample as usize]
    }
}

/// The colour for a wild card is always one of the most common colours of
/// the hand, none of which is the missing colour; and where several are the
/// most common, choosing among them costs one sample.
pub proof fn lemma_wild_color_is_most_common(hand: Seq<UNOCard>, state: u64)
    ensures
        1 <= most_common(hand).len() <= 4,
        most_common(hand).contains(wild_color(hand, state)),
        wild_color(hand, state) != Color::NA,
        most_common(hand).len() > 1 ==> wild_color_state(hand, state) == range_state(
            state,
            0,
            (most_common(hand).len() - 1) as u64,
        ),
        most_common(hand).len() == 1 ==> wild_color_state(hand, state) == state,
{
    let tied = most_common(hand);
    assert(forall|i: int| 0 <= i < tied.len() ==> tied[i] != Color::NA);
    if tied.len() > 1 {
        let pick = range_value(state, 0, (tied.len() - 1) as u64);
        assert(tied[pick] == wild_color(hand, state));
    } else {
        assert(tied[0] == wild_color(hand, state));
    }
}

/// Where no card of the hand has a colour, the colour for a wild card is
/// sampled from all four, in the order Red, Green, Yellow, Blue.
pub proof fn lemma_wild_color_without_colors(hand: Seq<UNOCard>, state: u64)
    requires
        color_count(hand, Color::Red) == 0,
        color_count(hand, Color::Blue) == 0,
        color_count(hand, Color::Yellow) == 0,
        color_count(hand, Color::Green) == 0,
    ensures
        most_common(hand) == seq![Color::Red, Color::Green, Color::Yellow, Color::Blue],
        wild_color(hand, state) == color_at(range_value(state, 0, 3)),
        wild_color_state(hand, state) == range_state(state, 0, 3),
{
    assert(most_common(hand) =~= seq![Color::Red, Color::Green, Color::Yellow, Color::Blue]);
}

/// A colour that outnumbers every other is the one that leads and the one
/// that a wild card is given, without a sample.
pub proof fn lemma_strict_leader(hand: Seq<UNOCard>, state: u64, color: Color)
    requires
        color != Color::NA,
        forall|other: Color|
            other != color && other != Color::NA ==> color_count(hand, other) < color_count(
                hand,
                color,
            ),
    ensures
        common_color(hand) == Some(color),
        most_common(hand) == seq![color],
        wild_color(hand, state) == color,
        wild_color_state(hand, state) == state,
{
    assert(color_count(hand, Color::Red) < color_count(hand, color) || color == Color::Red);
    assert(color_count(hand, Color::Blue) < color_count(hand, color) || color == Color::Blue);
    assert(color_count(hand, Color::Yellow) < color_count(hand, color) || color
        == Color::Yellow);
    assert(color_count(hand, Color::Green) < color_count(hand, color) || color == Color::Green);
    assert(most_common(hand) =~= seq![color]);
}

/// Chooses the move of a computer-controlled player: the position in
/// `hand` of the card to play, or none to draw.
pub fn get_move_ai(hand: &Vec<UNOCard>, last_played: UNOCard, difficulty: Difficulty, uno: bool)
    -> (choice: Option<usize>)
    ensures
        match choice {
            Some(i) => ai_move(hand@, last_played, difficulty, uno) == Some(i as int) && i
                < hand@.len(),
            None => ai_move(hand@, last_played, difficulty, uno) is None,
        },
{
    let mut plan: Vec<Rule> = Vec::new();
    if last_played.special == SpecialCard::PlusTwo {
        plan.push(Rule::Counter);
    }
    match difficulty {
        Difficulty::Calm => {
            plan.push(Rule::LegalNumber);
            plan.push(Rule::LegalAction);
            plan.push(Rule::AnyWild);
        },
        Difficulty::Aggressive => {
            plan.push(Rule::AnyDrawFour);
            plan.push(Rule::LegalAction);
            plan.push(Rule::LegalChangeOrNumber);
        },
        Difficulty::Skilled => {
            if uno {
                plan.push(Rule::LegalNotNumber);
            }
            let (reds, blues, yellows, greens) = count_color(hand);
            match leading(reds, blues, yellows, greens) {
                Some(color) => {
                    plan.push(Rule::LegalNumberOf(color));
                    plan.push(Rule::LegalOf(color));
                },
                None => {},
            }
            plan.push(Rule::LegalNumber);
            plan.push(Rule::AnyWild);
        },
    }
    assert(plan@ =~= strategy(hand@, last_played, difficulty, uno));
    assert(plan@.skip(0) =~= plan@);
    let mut k: usize = 0;
    while k < plan.len()
        invariant
            k <= plan.len(),
            plan@ == strategy(hand@, last_played, difficulty, uno),
            choice_by(hand@, plan@, last_played) == choice_by(
                hand@,
                plan@.skip(k as int),
                last_played,
            ),
        decreases plan.len() - k,
    {
        let found = find_first(hand, plan[k], last_played);
        proof {
            assert(plan@.skip(k as int)[0] == plan@[k as int]);
            assert(plan@.skip(k as int).drop_first() =~= plan@.skip(k + 1));
        }
        match found {
            Some(i) => {
                proof {
                    lemma_first_accepted(hand@, plan@[k as int], last_played, 0);
                }
                return Some(i);
            },
            None => {},
        }
        k += 1;
    }
    None
}

/// What `first_accepted_from` finds is the least position from `start` on
/// whose card the rule accepts; it finds none only where there is none.
pub proof fn lemma_first_accepted(hand: Seq<UNOCard>, rule: Rule, top: UNOCard, start: int)
    requires
        0 <= start,
    ensures
        match first_accepted_from(hand, rule, top, start) {
            Some(i) => {
                &&& start <= i < hand.len()
                &&& rule_accepts(rule, hand[i], top)
                &&& forall|k: int| start <= k < i ==> !rule_accepts(rule, #[trigger] hand[k], top)
            },
            None => forall|k: int|
                start <= k < hand.len() ==> !rule_accepts(rule, #[trigger] hand[k], top),
        },
    decreases hand.len() - start,
{
    if start < hand.len() && !rule_accepts(rule, hand[start], top) {
        lemma_first_accepted(hand, rule, top, start + 1);
    }
}

/// What a list of rules chooses is the first match of one of its rules, and
/// it chooses nothing only where none of its rules has a match.
pub proof fn lemma_choice_by(hand: Seq<UNOCard>, rules: Seq<Rule>, top: UNOCard)
    ensures
        match choice_by(hand, rules, top) {
            Some(i) => exists|k: int|
                0 <= k < rules.len() && first_accepted(hand, #[trigger] rules[k], top) == Some(i),
            None => forall|k: int|
                0 <= k < rules.len() ==> first_accepted(hand, #[trigger] rules[k], top) is None,
        },
    decreases rules.len(),
{
    if rules.len() > 0 {
        let rest = rules.drop_first();
        lemma_choice_by(hand, rest, top);
        match first_accepted(hand, rules[0], top) {
            Some(i) => {},
            None => {
                match choice_by(hand, rest, top) {
                    Some(i) => {
                        let k = choose|k: int|
                            0 <= k < rest.len() && first_accepted(hand, #[trigger] rest[k], top)
                                == Some(i);
                        assert(rules[k + 1] == rest[k]);
                    },
                    None => {
                        assert forall|k: int| 0 <= k < rules.len() implies first_accepted(
                            hand,
                            #[trigger] rules[k],
                            top,
                        ) is None by {
                            if k > 0 {
                                assert(rules[k] == rest[k - 1]);
                            }
                        }
                    },
                }
            },
        }
    }
}

/// A computer-controlled player plays a card that is in its hand and that
/// may be played on the top card.
pub proof fn lemma_ai_move_is_legal(
    hand: Seq<UNOCard>,
    top: UNOCard,
    difficulty: Difficulty,
    uno: bool,
)
    ensures
        ai_move(hand, top, difficulty, uno) matches Some(i) ==> 0 <= i < hand.len()
            && is_playable(hand[i], top),
{
    let rules = strategy(hand, top, difficulty, uno);
    lemma_choice_by(hand, rules, top);
    if let Some(i) = choice_by(hand, rules, top) {
        let k = choose|k: int|
            0 <= k < rules.len() && first_accepted(hand, #[trigger] rules[k], top) == Some(i);
        lemma_first_accepted(hand, rules[k], top, 0);
        assert(rules[k] == Rule::Counter ==> top.special == SpecialCard::PlusTwo);
    }
}

/// A computer-controlled player that holds a wild card plays a card rather
/// than draw one.
pub proof fn lemma_wild_is_played(
    hand: Seq<UNOCard>,
    top: UNOCard,
    difficulty: Difficulty,
    uno: bool,
    at: int,
)
    requires
        0 <= at < hand.len(),
        hand[at].is_wild(),
    ensures
        ai_move(hand, top, difficulty, uno) is Some,
{
    let rules = strategy(hand, top, difficulty, uno);
    lemma_choice_by(hand, rules, top);
    let rule = match difficulty {
        Difficulty::Aggressive => if hand[at].special == SpecialCard::PlusFour {
            Rule::AnyDrawFour
        } else {
            Rule::LegalChangeOrNumber
        },
        _ => Rule::AnyWild,
    };
    assert(rule_accepts(rule, hand[at], top));
    lemma_first_accepted(hand, rule, top, 0);
    assert(first_accepted(hand, rule, top) is Some);
    assert(exists|k: int| 0 <= k < rules.len() && rules[k] == rule) by {
        let last = rules.len() - 1;
        match difficulty {
            Difficulty::Aggressive => {
                if hand[at].special == SpecialCard::PlusFour {
                    assert(rules[last - 2] == rule);
                } else {
                    assert(rules[last] == rule);
                }
            },
            _ => {
                assert(rules[last] == rule);
            },
        }
    }
}

/// A Skilled player that is down to one card plays a card that is no number
/// card wherever it holds one that may be played, whatever else may be
/// played too.
pub proof fn lemma_skilled_sheds_under_pressure(hand: Seq<UNOCard>, top: UNOCard, at: int)
    requires
        0 <= at < hand.len(),
        hand[at].special != SpecialCard::Base,
        is_playable(hand[at], top),
    ensures
        ai_move(hand, top, Difficulty::Skilled, true) matches Some(i) && 0 <= i < hand.len()
            && hand[i].special != SpecialCard::Base && is_playable(hand[i], top),
        !(top.special == SpecialCard::PlusTwo && exists|k: int|
            0 <= k < hand.len() && (#[trigger] hand[k]).is_counter()) ==> ai_move(
            hand,
            top,
            Difficulty::Skilled,
            true,
        ) == first_accepted(hand, Rule::LegalNotNumber, top),
{
    let rules = strategy(hand, top, Difficulty::Skilled, true);
    lemma_first_accepted(hand, Rule::LegalNotNumber, top, 0);
    lemma_first_accepted(hand, Rule::Counter, top, 0);
    assert(rule_accepts(Rule::LegalNotNumber, hand[at], top));
    if top.special == SpecialCard::PlusTwo {
        assert(rules[0] == Rule::Counter);
        assert(rules.drop_first()[0] == Rule::LegalNotNumber);
        assert(choice_by(hand, rules, top) == match first_accepted(hand, Rule::Counter, top) {
            Some(i) => Some(i),
            None => choice_by(hand, rules.drop_first(), top),
        });
    } else {
        assert(rules[0] == Rule::LegalNotNumber);
    }
}

} // verus!
