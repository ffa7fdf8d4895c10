use nfq_filter::rules::{CheckVerdict, Direction, Polarity, Rule, RuleSet};

fn mk_rule(id: &str, d: Direction, p: Polarity, case_sensitive: bool, pattern: &[u8]) -> Rule {
    Rule {
        raw_id: id.as_bytes().to_vec(),
        direction: d,
        polarity: p,
        case_sensitive,
        pattern: pattern.to_vec(),
    }
}

fn blocked_id(v: CheckVerdict) -> Option<Vec<u8>> {
    match v {
        CheckVerdict::Accept => None,
        CheckVerdict::Block(id) => Some(id),
    }
}

#[test]
fn empty_rule_set_accepts_everything() {
    let set = RuleSet::new();
    assert!(blocked_id(set.check(b"anything at all", Direction::ClientToServer)).is_none());
    assert!(blocked_id(set.check(b"", Direction::ServerToClient)).is_none());
    assert!(blocked_id(set.check(&[0u8, 255u8, 7u8], Direction::ClientToServer)).is_none());
}

#[test]
fn blacklist_match_blocks_with_that_rules_id() {
    let mut set = RuleSet::new();
    set.cs_blacklist.push(mk_rule(
        "r1",
        Direction::ClientToServer,
        Polarity::Blacklist,
        true,
        b"alpha",
    ));
    set.cs_blacklist.push(mk_rule(
        "r2",
        Direction::ClientToServer,
        Polarity::Blacklist,
        true,
        b"beta",
    ));
    let got = blocked_id(set.check(b"xx beta yy", Direction::ClientToServer));
    assert_eq!(got, Some(b"r2".to_vec()));
}

#[test]
fn first_matching_blacklist_rule_wins() {
    let mut set = RuleSet::new();
    set.cs_blacklist.push(mk_rule(
        "r1",
        Direction::ClientToServer,
        Polarity::Blacklist,
        true,
        b"alpha",
    ));
    set.cs_blacklist.push(mk_rule(
        "r2",
        Direction::ClientToServer,
        Polarity::Blacklist,
        true,
        b"beta",
    ));
    let got = blocked_id(set.check(b"beta alpha", Direction::ClientToServer));
    assert_eq!(got, Some(b"r1".to_vec()));
}

#[test]
fn blacklist_blocks_regardless_of_whitelist() {
    let mut set = RuleSet::new();
    set.cs_blacklist.push(mk_rule(
        "black",
        Direction::ClientToServer,
        Polarity::Blacklist,
        true,
        b"bad",
    ));
    set.cs_whitelist.push(mk_rule(
        "white",
        Direction::ClientToServer,
        Polarity::Whitelist,
        true,
        b"bad",
    ));
    let got = blocked_id(set.check(b"a bad payload", Direction::ClientToServer));
    assert_eq!(got, Some(b"black".to_vec()));
}

#[test]
fn whitelist_is_conjunctive() {
    let mut set = RuleSet::new();
    set.cs_whitelist.push(mk_rule(
        "w1",
        Direction::ClientToServer,
        Polarity::Whitelist,
        true,
        b"sig1",
    ));
    set.cs_whitelist.push(mk_rule(
        "w2",
        Direction::ClientToServer,
        Polarity::Whitelist,
        true,
        b"sig2",
    ));
    assert!(blocked_id(set.check(b"sig1 and sig2", Direction::ClientToServer)).is_none());
    let got = blocked_id(set.check(b"only sig1 here", Direction::ClientToServer));
    assert_eq!(got, Some(b"w2".to_vec()));
    let got = blocked_id(set.check(b"neither", Direction::ClientToServer));
    assert_eq!(got, Some(b"w1".to_vec()));
}

#[test]
fn directions_are_isolated() {
    let mut set = RuleSet::new();
    set.cs_blacklist.push(mk_rule(
        "cs",
        Direction::ClientToServer,
        Polarity::Blacklist,
        true,
        b"evil",
    ));
    assert!(blocked_id(set.check(b"evil", Direction::ClientToServer)).is_some());
    assert!(blocked_id(set.check(b"evil", Direction::ServerToClient)).is_none());
}

#[test]
fn case_insensitive_rule_folds_ascii() {
    let mut set = RuleSet::new();
    set.cs_blacklist.push(mk_rule(
        "ci",
        Direction::ClientToServer,
        Polarity::Blacklist,
        false,
        b"EvIl",
    ));
    assert!(blocked_id(set.check(b"xxeViLxx", Direction::ClientToServer)).is_some());
    assert!(blocked_id(set.check(b"EVIL", Direction::ClientToServer)).is_some());
    assert!(blocked_id(set.check(b"evi", Direction::ClientToServer)).is_none());
}

#[test]
fn case_sensitive_rule_does_not_fold() {
    let mut set = RuleSet::new();
    set.cs_blacklist.push(mk_rule(
        "cs",
        Direction::ClientToServer,
        Polarity::Blacklist,
        true,
        b"EvIl",
    ));
    assert!(blocked_id(set.check(b"EvIl", Direction::ClientToServer)).is_some());
    assert!(blocked_id(set.check(b"evil", Direction::ClientToServer)).is_none());
}

#[test]
fn empty_pattern_matches_every_payload() {
    let mut set = RuleSet::new();
    set.cs_blacklist.push(mk_rule(
        "all",
        Direction::ClientToServer,
        Polarity::Blacklist,
        true,
        b"",
    ));
    assert!(blocked_id(set.check(b"", Direction::ClientToServer)).is_some());
    assert!(blocked_id(set.check(b"whatever", Direction::ClientToServer)).is_some());
}

#[test]
fn pattern_longer_than_payload_does_not_match() {
    let mut set = RuleSet::new();
    set.cs_blacklist.push(mk_rule(
        "long",
        Direction::ClientToServer,
        Polarity::Blacklist,
        true,
        b"abcdef",
    ));
    assert!(blocked_id(set.check(b"abc", Direction::ClientToServer)).is_none());
}
