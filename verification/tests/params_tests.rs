use bytevm::params::get_parameter;
use bytevm::params::get_parameter_uint;
use bytevm::params::parse_u64;

fn args(parts: &[&str]) -> Vec<String> {
    parts.iter().map(|p| p.to_string()).collect()
}

#[test]
fn get_parameter_finds_the_value_after_the_name() {
    let found = get_parameter("-f", args(&["vm", "-f", "program.bin"]));
    assert_eq!(found, Some("program.bin".to_string()));
}

#[test]
fn get_parameter_takes_the_last_occurrence() {
    let found = get_parameter("-f", args(&["vm", "-f", "first.bin", "-f", "second.bin"]));
    assert_eq!(found, Some("second.bin".to_string()));
}

#[test]
fn get_parameter_misses() {
    assert_eq!(get_parameter("-f", args(&["vm", "-hz", "500"])), None);
    // A name in the last position has no value after it.
    assert_eq!(get_parameter("-f", args(&["vm", "-f"])), None);
    assert_eq!(get_parameter("-f", args(&[])), None);
}

#[test]
fn parse_u64_accepts_plain_and_plus_signed_numbers() {
    assert_eq!(parse_u64("123"), Some(123));
    assert_eq!(parse_u64("0"), Some(0));
    assert_eq!(parse_u64("+7"), Some(7));
    assert_eq!(parse_u64("18446744073709551615"), Some(u64::MAX));
}

#[test]
fn parse_u64_rejects_what_is_not_a_number() {
    assert_eq!(parse_u64(""), None);
    assert_eq!(parse_u64("+"), None);
    assert_eq!(parse_u64("12a"), None);
    assert_eq!(parse_u64("-5"), None);
    assert_eq!(parse_u64("4.2"), None);
    assert_eq!(parse_u64("18446744073709551616"), None);
}

#[test]
fn get_parameter_uint_parses_the_found_value() {
    assert_eq!(get_parameter_uint("-hz", args(&["vm", "-hz", "500"])), Some(500));
    assert_eq!(get_parameter_uint("-hz", args(&["vm", "-hz", "fast"])), None);
    assert_eq!(get_parameter_uint("-hz", args(&["vm"])), None);
}
