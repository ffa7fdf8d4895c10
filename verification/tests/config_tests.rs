use nfq_filter::config::{parse_line, parse_token, split_line};
use nfq_filter::rules::{CheckVerdict, Direction, Polarity};

fn is_blocked(v: CheckVerdict) -> bool {
    matches!(v, CheckVerdict::Block(_))
}

#[test]
fn token_installs_case_sensitive_cs_blacklist_rule() {
    // "1C" + hex("evil")
    let line = b"1C6576696c";
    let set = parse_line(line);
    assert_eq!(set.cs_blacklist.len(), 1);
    assert_eq!(set.cs_whitelist.len(), 0);
    assert_eq!(set.sc_blacklist.len(), 0);
    assert_eq!(set.sc_whitelist.len(), 0);
    let rule = &set.cs_blacklist[0];
    assert_eq!(rule.raw_id, b"1C6576696c".to_vec());
    assert!(rule.case_sensitive);
    assert_eq!(rule.direction, Direction::ClientToServer);
    assert_eq!(rule.polarity, Polarity::Blacklist);
    assert_eq!(rule.pattern, b"evil".to_vec());
    // the literal bytes in a client-to-server payload are blocked ...
    assert!(is_blocked(set.check(b"an evil payload", Direction::ClientToServer)));
    // ... and the same bytes the other way are accepted (direction isolation)
    assert!(!is_blocked(set.check(b"an evil payload", Direction::ServerToClient)));
}

#[test]
fn all_four_flag_bytes_select_their_sequence() {
    let set = parse_line(b"1C41 0c42 1S43 0s44");
    assert_eq!(set.cs_blacklist.len(), 1);
    assert_eq!(set.cs_whitelist.len(), 1);
    assert_eq!(set.sc_blacklist.len(), 1);
    assert_eq!(set.sc_whitelist.len(), 1);
    assert_eq!(set.cs_blacklist[0].pattern, b"A".to_vec());
    assert!(set.cs_blacklist[0].case_sensitive);
    assert_eq!(set.cs_whitelist[0].pattern, b"B".to_vec());
    assert!(!set.cs_whitelist[0].case_sensitive);
    assert_eq!(set.sc_blacklist[0].pattern, b"C".to_vec());
    assert_eq!(set.sc_whitelist[0].pattern, b"D".to_vec());
}

#[test]
fn malformed_token_is_skipped_and_siblings_survive() {
    // odd-length hex in the middle, unknown flag byte at the start
    let set = parse_line(b"1X41 1C657 1C6576696c");
    assert_eq!(set.cs_blacklist.len(), 1);
    assert_eq!(set.cs_blacklist[0].raw_id, b"1C6576696c".to_vec());
    assert_eq!(set.cs_blacklist[0].pattern, b"evil".to_vec());
}

#[test]
fn odd_length_hex_token_is_rejected() {
    assert!(parse_token(b"1C657").is_none());
}

#[test]
fn bad_flag_byte_is_rejected() {
    assert!(parse_token(b"1X6576").is_none());
}

#[test]
fn bad_case_byte_is_rejected() {
    assert!(parse_token(b"2C6576").is_none());
}

#[test]
fn too_short_token_is_rejected() {
    assert!(parse_token(b"1").is_none());
    assert!(parse_token(b"").is_none());
}

#[test]
fn invalid_hex_digit_is_rejected() {
    assert!(parse_token(b"1C65zz").is_none());
}

#[test]
fn empty_pattern_token_is_valid() {
    let tok = parse_token(b"0s").expect("bare flag token should parse");
    assert_eq!(tok.pattern, Vec::<u8>::new());
    assert!(!tok.case_sensitive);
    assert_eq!(tok.direction, Direction::ServerToClient);
    assert_eq!(tok.polarity, Polarity::Whitelist);
}

#[test]
fn hex_decoding_takes_both_letter_cases() {
    let tok = parse_token(b"1C4aFF").expect("mixed-case hex should parse");
    assert_eq!(tok.pattern, vec![0x4a, 0xff]);
}

#[test]
fn line_with_no_valid_token_gives_empty_set() {
    let set = parse_line(b"zz 1X themes 9");
    assert_eq!(set.cs_blacklist.len(), 0);
    assert_eq!(set.cs_whitelist.len(), 0);
    assert_eq!(set.sc_blacklist.len(), 0);
    assert_eq!(set.sc_whitelist.len(), 0);
}

#[test]
fn blank_line_gives_empty_set() {
    let set = parse_line(b"   \t  ");
    assert_eq!(set.cs_blacklist.len(), 0);
    let set = parse_line(b"");
    assert_eq!(set.cs_blacklist.len(), 0);
}

#[test]
fn split_line_separates_on_any_whitespace() {
    let toks = split_line(b"  one\ttwo  three\r\n");
    let toks: Vec<&[u8]> = toks.iter().map(|t| t.as_slice()).collect();
    assert_eq!(toks, vec![b"one".as_slice(), b"two".as_slice(), b"three".as_slice()]);
}

#[test]
fn rules_keep_line_order_within_a_sequence() {
    let set = parse_line(b"1C41 1C42 1C43");
    assert_eq!(set.cs_blacklist.len(), 3);
    assert_eq!(set.cs_blacklist[0].pattern, b"A".to_vec());
    assert_eq!(set.cs_blacklist[1].pattern, b"B".to_vec());
    assert_eq!(set.cs_blacklist[2].pattern, b"C".to_vec());
}
