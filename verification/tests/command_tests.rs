use mission_core::command::parse_command;
use mission_core::command::CountdownCommand;

#[test]
fn parse_number_starts_countdown() {
    assert_eq!(parse_command("5"), CountdownCommand::Start(5));
}

#[test]
fn parse_zero_starts_immediate_countdown() {
    assert_eq!(parse_command("0"), CountdownCommand::Start(0));
}

#[test]
fn parse_cancel_token() {
    assert_eq!(parse_command("-1"), CountdownCommand::Cancel);
}

#[test]
fn parse_reset_token() {
    assert_eq!(parse_command("reset"), CountdownCommand::Reset);
}

#[test]
fn parse_other_negative_is_invalid() {
    assert_eq!(parse_command("-2"), CountdownCommand::Invalid);
}

#[test]
fn parse_empty_is_invalid() {
    assert_eq!(parse_command(""), CountdownCommand::Invalid);
}

#[test]
fn parse_plus_sign_is_accepted() {
    assert_eq!(parse_command("+31"), CountdownCommand::Start(31));
}

#[test]
fn parse_sign_alone_is_invalid() {
    assert_eq!(parse_command("+"), CountdownCommand::Invalid);
}

#[test]
fn parse_largest_delay() {
    assert_eq!(
        parse_command("18446744073709551615"),
        CountdownCommand::Start(u64::MAX)
    );
}

#[test]
fn parse_too_large_delay_is_invalid() {
    assert_eq!(parse_command("18446744073709551616"), CountdownCommand::Invalid);
}

#[test]
fn parse_trailing_letter_is_invalid() {
    assert_eq!(parse_command("12a"), CountdownCommand::Invalid);
}

#[test]
fn parse_word_is_invalid() {
    assert_eq!(parse_command("launch"), CountdownCommand::Invalid);
}
