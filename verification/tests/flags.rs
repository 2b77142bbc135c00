use efivar::error::Error;
use efivar::flags::{
    parse_flag_lines, parse_flag_token, render_attributes, serialize_flag_tokens, VariableFlags,
    BOOTSERVICE_ACCESS, NON_VOLATILE, RUNTIME_ACCESS,
};

#[test]
fn parse_single_tokens() {
    assert_eq!(parse_flag_token("NON_VOLATILE").unwrap().bits, NON_VOLATILE);
    assert_eq!(parse_flag_token("RUNTIME_ACCESS").unwrap().bits, RUNTIME_ACCESS);
    assert_eq!(parse_flag_token("APPEND_WRITE").unwrap().bits, 0x40);
}

#[test]
fn parse_unknown_token_fails() {
    let err = parse_flag_token("SHINY").unwrap_err();
    match err {
        Error::UnknownFlag { token } => assert_eq!(token, "SHINY"),
        _ => panic!("expected an unknown-flag error"),
    }
}

#[test]
fn lines_fold_by_union() {
    let lines = vec![String::from("NON_VOLATILE"), String::from("BOOTSERVICE_ACCESS")];
    let flags = parse_flag_lines(&lines).unwrap();
    assert_eq!(flags.bits, NON_VOLATILE | BOOTSERVICE_ACCESS);
}

#[test]
fn lines_fail_on_unknown_token() {
    let lines = vec![String::from("NON_VOLATILE"), String::from("SHINY")];
    assert!(parse_flag_lines(&lines).is_err());
}

#[test]
fn flag_round_trip() {
    let flags = VariableFlags::from_bits(NON_VOLATILE | RUNTIME_ACCESS | 0x80);
    let lines = serialize_flag_tokens(flags);
    assert_eq!(parse_flag_lines(&lines).unwrap(), flags);
}

#[test]
fn flag_round_trip_empty() {
    let flags = VariableFlags::empty();
    let lines = serialize_flag_tokens(flags);
    assert!(lines.is_empty());
    assert_eq!(parse_flag_lines(&lines).unwrap(), flags);
}

#[test]
fn flag_round_trip_all_known() {
    let flags = VariableFlags::from_bits(0xff);
    let lines = serialize_flag_tokens(flags);
    assert_eq!(lines.len(), 8);
    assert_eq!(parse_flag_lines(&lines).unwrap(), flags);
}

#[test]
fn rendered_text_round_trips_through_lines() {
    let flags = VariableFlags::from_bits(NON_VOLATILE | BOOTSERVICE_ACCESS);
    let text = render_attributes(flags);
    assert_eq!(text, "NON_VOLATILE\nBOOTSERVICE_ACCESS\n");
    let lines: Vec<String> = text.lines().map(String::from).collect();
    assert_eq!(parse_flag_lines(&lines).unwrap(), flags);
}

#[test]
fn union_and_contains() {
    let a = VariableFlags::from_bits(NON_VOLATILE);
    let b = VariableFlags::from_bits(RUNTIME_ACCESS);
    let u = a.union(b);
    assert_eq!(u.bits, NON_VOLATILE | RUNTIME_ACCESS);
    assert!(u.contains(a));
    assert!(u.contains(b));
    assert!(!a.contains(b));
}
