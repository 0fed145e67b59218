//! Mapping validated user input onto the engine's commands: the keyword a
//! player types for a move, and the bounds a bet must satisfy.

use vstd::prelude::*;

use crate::errors::CliError;
use crate::game::Command;

verus! {

/// Parses a player's keyword: `h` or `hit` to hit, `s` or `stay` to stand;
/// anything else is no command.
pub fn get_command(s: &str) -> (r: Result<Command, CliError>)
    ensures
        r == if s@ == "h"@ || s@ == "hit"@ {
            Result::<Command, CliError>::Ok(Command::Hit)
        } else if s@ == "s"@ || s@ == "stay"@ {
            Result::<Command, CliError>::Ok(Command::Stand)
        } else {
            Result::<Command, CliError>::Err(CliError::InvalidCommand)
        },
{
    let owned = s.to_owned();
    if owned == "h".to_owned() || owned == "hit".to_owned() {
        Ok(Command::Hit)
    } else if owned == "s".to_owned() || owned == "stay".to_owned() {
        Ok(Command::Stand)
    } else {
        Err(CliError::InvalidCommand)
    }
}

/// A bet is valid exactly when it is positive, within the bank, and the
/// bank is small enough that the round's payouts cannot overflow the
/// balance: four times the bank fits the balance type, which covers the
/// worst case of a split pair of blackjacks.
pub fn validate_bet(bet: u32, bank: u32) -> (r: bool)
    ensures
        r == (0 < bet <= bank && 4 * bank <= u32::MAX),
{
    0 < bet && bet <= bank && bank <= u32::MAX / 4
}

} // verus!
