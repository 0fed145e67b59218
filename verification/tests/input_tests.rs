use blackjack::errors::CliError;
use blackjack::game::Command;
use blackjack::input::{get_command, validate_bet};

#[test]
fn command_keywords() {
    assert!(matches!(get_command("h"), Ok(Command::Hit)));
    assert!(matches!(get_command("hit"), Ok(Command::Hit)));
    assert!(matches!(get_command("s"), Ok(Command::Stand)));
    assert!(matches!(get_command("stay"), Ok(Command::Stand)));
}

#[test]
fn unknown_keyword_is_invalid() {
    assert!(matches!(get_command("x"), Err(CliError::InvalidCommand)));
    assert!(matches!(get_command(""), Err(CliError::InvalidCommand)));
    assert!(matches!(get_command("hitt"), Err(CliError::InvalidCommand)));
}

#[test]
fn bet_bounds() {
    assert!(validate_bet(50, 100));
    assert!(validate_bet(100, 100));
    assert!(!validate_bet(0, 100));
    assert!(!validate_bet(101, 100));
    // A bank too large for payouts to fit the balance type.
    assert!(!validate_bet(10, u32::MAX / 2));
}
