//! Meaning of the words a player types at the console prompts, after the
//! surrounding program has trimmed and lower-cased them.

use vstd::prelude::*;
use crate::game::TurnCommand;
use crate::player::TokenColor;

verus! {

/// Fewest players a game seats.
pub const MIN_NUM_PLAYERS: i32 = 2;

/// The token color a word names.
pub open spec fn spec_color_from_word(w: Seq<char>) -> Option<TokenColor> {
    if w == "red"@ {
        Some(TokenColor::Red)
    } else if w == "orange"@ {
        Some(TokenColor::Orange)
    } else if w == "yellow"@ {
        Some(TokenColor::Yellow)
    } else if w == "green"@ {
        Some(TokenColor::Green)
    } else if w == "blue"@ {
        Some(TokenColor::Blue)
    } else if w == "purple"@ {
        Some(TokenColor::Purple)
    } else {
        None
    }
}

/// The token color `word` names, if any.
pub fn color_from_word(word: &String) -> (r: Option<TokenColor>)
    ensures
        r == spec_color_from_word(word@),
{
    if *word == "red".to_owned() {
        Some(TokenColor::Red)
    } else if *word == "orange".to_owned() {
        Some(TokenColor::Orange)
    } else if *word == "yellow".to_owned() {
        Some(TokenColor::Yellow)
    } else if *word == "green".to_owned() {
        Some(TokenColor::Green)
    } else if *word == "blue".to_owned() {
        Some(TokenColor::Blue)
    } else if *word == "purple".to_owned() {
        Some(TokenColor::Purple)
    } else {
        None
    }
}

/// The answer `word` gives to a yes/no question, if any.
pub fn answer_from_word(word: &String) -> (r: Option<bool>)
    ensures
        r == if word@ == "yes"@ {
            Some(true)
        } else if word@ == "no"@ {
            Some(false)
        } else {
            None
        },
{
    if *word == "yes".to_owned() {
        Some(true)
    } else if *word == "no".to_owned() {
        Some(false)
    } else {
        None
    }
}

/// The command `word` names at the console, if any.
pub fn command_from_word(word: &String) -> (r: Option<TurnCommand>)
    ensures
        r == if word@ == "roll"@ {
            Some(TurnCommand::Roll)
        } else if word@ == "quit"@ {
            Some(TurnCommand::Quit)
        } else if word@ == "assets"@ {
            Some(TurnCommand::Assets)
        } else {
            None
        },
{
    if *word == "roll".to_owned() {
        Some(TurnCommand::Roll)
    } else if *word == "quit".to_owned() {
        Some(TurnCommand::Quit)
    } else if *word == "assets".to_owned() {
        Some(TurnCommand::Assets)
    } else {
        None
    }
}

/// A game seats from two to six players.
pub fn is_valid_player_count(n: i32) -> (r: bool)
    ensures
        r == (MIN_NUM_PLAYERS <= n <= crate::board::MAX_NUM_PLAYERS),
{
    MIN_NUM_PLAYERS <= n && n <= 6
}

} // verus!
