//! Cards: colours, kinds, difficulty levels, and their text forms.

use vstd::prelude::*;
use vstd::string::*;
use crate::error::GameError;
use crate::text::{is_word, lowercase, to_lowercase};

verus! {

/// Colour of a card. `NA` is carried only by wild cards that have not been
/// given a colour yet.
#[derive(Debug, Copy, Clone, PartialEq, Eq, Structural, PartialOrd, Ord, Hash)]
pub enum Color {
    Red,
    Green,
    Yellow,
    Blue,
    NA,
}

/// Kind of a card. `Base` is a number card.
#[derive(Debug, Copy, Clone, PartialEq, Eq, Structural, PartialOrd, Ord, Hash)]
pub enum SpecialCard {
    PlusFour,
    ColorChange,
    PlusTwo,
    Skip,
    Reverse,
    Base,
}

/// One card. `number` is 0 to 9 on a number card and -1 on every other kind.
#[derive(Debug, Copy, Clone, PartialEq, Eq, Structural, PartialOrd, Ord, Hash)]
pub struct UNOCard {
    pub color: Color,
    pub special: SpecialCard,
    pub number: i8,
}

/// How a computer-controlled player chooses its cards.
#[derive(Debug, Copy, Clone, PartialEq, Eq, Structural)]
pub enum Difficulty {
    Calm,
    Aggressive,
    Skilled,
}

impl UNOCard {
    /// A wild card: playable on anything, and given a colour when played.
    pub open spec fn is_wild(self) -> bool {
        self.special == SpecialCard::ColorChange || self.special == SpecialCard::PlusFour
    }

    /// A counter card: one that passes a pending draw penalty on.
    pub open spec fn is_counter(self) -> bool {
        self.special == SpecialCard::PlusFour || self.special == SpecialCard::PlusTwo
    }

    /// The card invariant: a number from 0 to 9 exactly on number cards, and
    /// no colour only on wild cards.
    pub open spec fn wf(self) -> bool {
        &&& self.special == SpecialCard::Base ==> 0 <= self.number <= 9
        &&& self.special != SpecialCard::Base ==> self.number == -1
        &&& self.color == Color::NA ==> self.is_wild()
    }

    /// The card of the given colour, kind and number.
    pub fn new(color: Color, special: SpecialCard, number: i8) -> (card: UNOCard)
        ensures
            card == (UNOCard { color, special, number }),
    {
        UNOCard { color, special, number }
    }

    /// Whether the card is wild.
    pub fn wild(&self) -> (wild: bool)
        ensures
            wild == self.is_wild(),
    {
        self.special == SpecialCard::ColorChange || self.special == SpecialCard::PlusFour
    }

    /// Whether the card is a counter card.
    pub fn counter(&self) -> (counter: bool)
        ensures
            counter == self.is_counter(),
    {
        self.special == SpecialCard::PlusFour || self.special == SpecialCard::PlusTwo
    }
}

/// The display name of a colour.
pub open spec fn color_name(color: Color) -> Seq<char> {
    match color {
        Color::Red => "Red"@,
        Color::Blue => "Blue"@,
        Color::Yellow => "Yellow"@,
        Color::Green => "Green"@,
        Color::NA => "None"@,
    }
}

/// The decimal digit `d`, for `d` below ten.
pub open spec fn digit_text(d: nat) -> Seq<char> {
    if d == 0 {
        "0"@
    } else if d == 1 {
        "1"@
    } else if d == 2 {
        "2"@
    } else if d == 3 {
        "3"@
    } else if d == 4 {
        "4"@
    } else if d == 5 {
        "5"@
    } else if d == 6 {
        "6"@
    } else if d == 7 {
        "7"@
    } else if d == 8 {
        "8"@
    } else {
        "9"@
    }
}

/// Decimal notation of a natural number, without leading zeros.
pub open spec fn natural_text(n: nat) -> Seq<char>
    decreases n,
{
    if n < 10 {
        digit_text(n)
    } else {
        natural_text(n / 10) + digit_text(n % 10)
    }
}

/// Decimal notation of an integer, with a minus sign when negative.
pub open spec fn number_text(n: int) -> Seq<char> {
    if n < 0 {
        "-"@ + natural_text((-n) as nat)
    } else {
        natural_text(n as nat)
    }
}

/// The display text of a card.
pub open spec fn card_text(card: UNOCard) -> Seq<char> {
    match card.special {
        SpecialCard::PlusFour => "Wild Draw 4 ("@ + color_name(card.color) + ")"@,
        SpecialCard::ColorChange => "Wild Card ("@ + color_name(card.color) + ")"@,
        SpecialCard::PlusTwo => color_name(card.color) + " Draw 2"@,
        SpecialCard::Skip => color_name(card.color) + " Skip"@,
        SpecialCard::Reverse => color_name(card.color) + " Reverse"@,
        SpecialCard::Base => color_name(card.color) + " "@ + number_text(card.number as int),
    }
}

/// The display name of a colour.
pub fn get_color(color: &Color) -> (name: String)
    ensures
        name@ == color_name(*color),
{
    match color {
        Color::Red => String::from_str("Red"),
        Color::Blue => String::from_str("Blue"),
        Color::Yellow => String::from_str("Yellow"),
        Color::Green => String::from_str("Green"),
        Color::NA => String::from_str("None"),
    }
}

/// The decimal digit `d`.
fn digit_str(d: u8) -> (s: &'static str)
    requires
        d < 10,
    ensures
        s@ == digit_text(d as nat),
{
    if d == 0 {
        "0"
    } else if d == 1 {
        "1"
    } else if d == 2 {
        "2"
    } else if d == 3 {
        "3"
    } else if d == 4 {
        "4"
    } else if d == 5 {
        "5"
    } else if d == 6 {
        "6"
    } else if d == 7 {
        "7"
    } else if d == 8 {
        "8"
    } else {
        "9"
    }
}

/// Appends the decimal notation of `n` to `out`.
fn append_number(out: &mut String, n: i8)
    ensures
        final(out)@ == old(out)@ + number_text(n as int),
{
    let wide: i16 = n as i16;
    let size: u8 = if wide < 0 {
        out.append("-");
        (-wide) as u8
    } else {
        wide as u8
    };
    let ghost signed = out@;
    if size >= 100 {
        out.append(digit_str(size / 100));
    }
    if size >= 10 {
        out.append(digit_str((size / 10) % 10));
    }
    out.append(digit_str(size % 10));
    proof {
        let m = size as nat;
        assert(out@ == signed + natural_text(m)) by {
            if m >= 100 {
                assert(natural_text(m / 10) == natural_text(m / 100) + digit_text((m / 10) % 10));
            } else if m >= 10 {
                assert(natural_text(m / 10) == digit_text(m / 10));
            }
        }
    }
}

/// The colour that a lower-case word names, if it names one.
pub open spec fn color_of_word(word: Seq<char>) -> Option<Color> {
    if word == "red"@ {
        Some(Color::Red)
    } else if word == "green"@ {
        Some(Color::Green)
    } else if word == "yellow"@ {
        Some(Color::Yellow)
    } else if word == "blue"@ {
        Some(Color::Blue)
    } else {
        None
    }
}

/// The difficulty that a lower-case word names, if it names one.
pub open spec fn difficulty_of_word(word: Seq<char>) -> Option<Difficulty> {
    if word == "calm"@ {
        Some(Difficulty::Calm)
    } else if word == "aggressive"@ {
        Some(Difficulty::Aggressive)
    } else if word == "skilled"@ {
        Some(Difficulty::Skilled)
    } else {
        None
    }
}

/// The colour with the given index in the order Red, Green, Yellow, Blue,
/// none.
pub open spec fn color_at(num: int) -> Color {
    if num == 0 {
        Color::Red
    } else if num == 1 {
        Color::Green
    } else if num == 2 {
        Color::Yellow
    } else if num == 3 {
        Color::Blue
    } else {
        Color::NA
    }
}

impl Color {
    /// The colour named by a word that is already in lower case.
    pub fn from_word(word: &String) -> (color: Option<Color>)
        ensures
            color == color_of_word(word@),
    {
        if is_word(word, "red") {
            Some(Color::Red)
        } else if is_word(word, "green") {
            Some(Color::Green)
        } else if is_word(word, "yellow") {
            Some(Color::Yellow)
        } else if is_word(word, "blue") {
            Some(Color::Blue)
        } else {
            None
        }
    }

    /// Reads one of the four colour names, in any mix of upper and lower
    /// case. Any other text is refused with a message that quotes it.
    pub fn from_str(s: &str) -> (parsed: Result<Color, String>)
        ensures
            match color_of_word(lowercase(s@)) {
                Some(color) => parsed == Ok::<Color, String>(color),
                None => parsed is Err && parsed->Err_0@ == s@ + " is not an UNO standard color"@,
            },
    {
        let lowered = to_lowercase(s);
        match Color::from_word(&lowered) {
            Some(color) => Ok(color),
            None => Err(String::from_str(s).concat(" is not an UNO standard color")),
        }
    }
}

impl Difficulty {
    /// The difficulty named by a word that is already in lower case.
    pub fn from_word(word: &String) -> (level: Option<Difficulty>)
        ensures
            level == difficulty_of_word(word@),
    {
        if is_word(word, "calm") {
            Some(Difficulty::Calm)
        } else if is_word(word, "aggressive") {
            Some(Difficulty::Aggressive)
        } else if is_word(word, "skilled") {
            Some(Difficulty::Skilled)
        } else {
            None
        }
    }

    /// Reads one of the three difficulty names, in any mix of upper and lower
    /// case. Any other text is refused with a message that quotes it.
    pub fn from_str(s: &str) -> (parsed: Result<Difficulty, String>)
        ensures
            match difficulty_of_word(lowercase(s@)) {
                Some(level) => parsed == Ok::<Difficulty, String>(level),
                None => parsed is Err && parsed->Err_0@ == s@
                    + " is not an avaliable difficulty"@,
            },
    {
        let lowered = to_lowercase(s);
        match Difficulty::from_word(&lowered) {
            Some(level) => Ok(level),
            None => Err(String::from_str(s).concat(" is not an avaliable difficulty")),
        }
    }
}

/// Maps an index to a colour: 0 to 3 are the four colours, 4 is no colour,
/// and anything larger is refused.
pub fn color_from_number(num: u8) -> (color: Result<Color, GameError>)
    ensures
        num <= 4 ==> color == Ok::<Color, GameError>(color_at(num as int)),
        num > 4 ==> color == Err::<Color, GameError>(GameError::UnknownColorNumber),
{
    match num {
        0 => Ok(Color::Red),
        1 => Ok(Color::Green),
        2 => Ok(Color::Yellow),
        3 => Ok(Color::Blue),
        4 => Ok(Color::NA),
        _ => Err(GameError::UnknownColorNumber),
    }
}

/// The display text of a card: a wild card with its colour in brackets,
/// any other card with its colour before its kind or number.
pub fn format_card_message(card: &UNOCard) -> (text: String)
    ensures
        text@ == card_text(*card),
{
    let color_str = get_color(&card.color);
    match card.special {
        SpecialCard::PlusFour => {
            let mut text = String::from_str("Wild Draw 4 (");
            text.append(color_str.as_str());
            text.append(")");
            text
        },
        SpecialCard::ColorChange => {
            let mut text = String::from_str("Wild Card (");
            text.append(color_str.as_str());
            text.append(")");
            text
        },
        SpecialCard::PlusTwo => color_str.concat(" Draw 2"),
        SpecialCard::Skip => color_str.concat(" Skip"),
        SpecialCard::Reverse => color_str.concat(" Reverse"),
        SpecialCard::Base => {
            let mut text = color_str.concat(" ");
            append_number(&mut text, card.number);
            text
        },
    }
}

} // verus!
