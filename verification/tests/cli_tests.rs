use task::cli::parse_command;
use task::cli::Command;
use task::cli::Outcome;
use task::digits::parse_u64;
use task::digits::u64_to_string;

fn args(parts: &[&str]) -> Vec<String> {
    parts.iter().map(|p| p.to_string()).collect()
}

#[test]
fn ls_lists() {
    assert_eq!(parse_command(&args(&["ls"])), Outcome::Run(Command::List));
}

#[test]
fn add_takes_one_description() {
    assert_eq!(
        parse_command(&args(&["add", "buy milk"])),
        Outcome::Run(Command::Add { description: "buy milk".to_string() })
    );
}

#[test]
fn del_takes_one_numeric_id() {
    assert_eq!(
        parse_command(&args(&["del", "7"])),
        Outcome::Run(Command::Delete { id: 7 })
    );
}

#[test]
fn update_takes_id_and_description() {
    assert_eq!(
        parse_command(&args(&["update", "3", "buy oat milk"])),
        Outcome::Run(Command::Update { id: 3, description: "buy oat milk".to_string() })
    );
}

#[test]
fn update_with_only_an_id_is_a_usage_error() {
    assert_eq!(parse_command(&args(&["update", "3"])), Outcome::Usage);
}

#[test]
fn arity_mistakes_are_usage_errors() {
    assert_eq!(parse_command(&args(&[])), Outcome::Usage);
    assert_eq!(parse_command(&args(&["ls", "extra"])), Outcome::Usage);
    assert_eq!(parse_command(&args(&["add"])), Outcome::Usage);
    assert_eq!(parse_command(&args(&["add", "a", "b"])), Outcome::Usage);
    assert_eq!(parse_command(&args(&["del"])), Outcome::Usage);
    assert_eq!(parse_command(&args(&["del", "1", "2"])), Outcome::Usage);
    assert_eq!(parse_command(&args(&["update"])), Outcome::Usage);
    assert_eq!(parse_command(&args(&["update", "1", "a", "b"])), Outcome::Usage);
}

#[test]
fn malformed_ids_are_fatal_parse_errors() {
    assert_eq!(parse_command(&args(&["del", "seven"])), Outcome::BadId);
    assert_eq!(parse_command(&args(&["del", ""])), Outcome::BadId);
    assert_eq!(parse_command(&args(&["del", "-3"])), Outcome::BadId);
    assert_eq!(parse_command(&args(&["update", "1x", "text"])), Outcome::BadId);
    assert_eq!(
        parse_command(&args(&["del", "18446744073709551616"])),
        Outcome::BadId
    );
}

#[test]
fn unknown_verbs_are_reported_not_implemented() {
    assert_eq!(parse_command(&args(&["frobnicate"])), Outcome::Unknown);
    assert_eq!(parse_command(&args(&["list"])), Outcome::Unknown);
}

#[test]
fn parse_u64_reads_decimal_digits() {
    assert_eq!(parse_u64("0"), Some(0));
    assert_eq!(parse_u64("42"), Some(42));
    assert_eq!(parse_u64("007"), Some(7));
    assert_eq!(parse_u64("18446744073709551615"), Some(u64::MAX));
}

#[test]
fn parse_u64_rejects_everything_else() {
    assert_eq!(parse_u64(""), None);
    assert_eq!(parse_u64("abc"), None);
    assert_eq!(parse_u64("4 2"), None);
    assert_eq!(parse_u64("+1"), None);
    assert_eq!(parse_u64("18446744073709551616"), None);
    assert_eq!(parse_u64("99999999999999999999"), None);
}

#[test]
fn u64_to_string_writes_decimal_digits() {
    assert_eq!(u64_to_string(0), "0");
    assert_eq!(u64_to_string(42), "42");
    assert_eq!(u64_to_string(10), "10");
    assert_eq!(u64_to_string(u64::MAX), "18446744073709551615");
}

#[test]
fn decimal_round_trip_on_sample_values() {
    for n in [0u64, 1, 9, 10, 99, 100, 12345, u64::MAX] {
        assert_eq!(parse_u64(&u64_to_string(n)), Some(n));
    }
}
