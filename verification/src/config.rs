//! Configuration line parsing.
//!
//! A configuration line is a whitespace-separated list of rule tokens. A
//! token has the fixed shape `<case:0|1><flag:C|c|S|s><hex pattern>`: `C`
//! is a client-to-server blacklist rule, `c` a client-to-server whitelist
//! rule, `S` and `s` the same for server-to-client traffic, and the rest of
//! the token is the hex-encoded pattern. A malformed token is skipped and
//! never disturbs the remaining tokens of the line.

use vstd::prelude::*;
use vstd::slice::{slice_subrange, slice_to_vec};
use crate::rules::{Direction, Polarity, Rule, RuleSet};

verus! {

/// ASCII code of a decimal digit or hex letter, either case.
pub open spec fn is_hex_digit(b: u8) -> bool {
    (48 <= b && b <= 57) || (97 <= b && b <= 102) || (65 <= b && b <= 70)
}

/// Numeric value of a hex digit.
pub open spec fn hex_val(b: u8) -> u8 {
    if 48 <= b && b <= 57 {
        (b - 48) as u8
    } else if 97 <= b && b <= 102 {
        (b - 87) as u8
    } else {
        (b - 55) as u8
    }
}

/// The bytes encoded by the hex digit pairs of `s` from index `i` on.
pub open spec fn hex_decode_from(s: Seq<u8>, i: int) -> Seq<u8>
    decreases s.len() - i,
{
    if i < 0 || i + 2 > s.len() {
        seq![]
    } else {
        seq![(hex_val(s[i]) * 16 + hex_val(s[i + 1])) as u8] + hex_decode_from(s, i + 2)
    }
}

/// The token's flag byte is one of the four direction/polarity codes.
pub open spec fn is_flag(b: u8) -> bool {
    b == 67 || b == 99 || b == 83 || b == 115
}

/// Direction encoded by a flag byte: `C` and `c` are client-to-server,
/// `S` and `s` server-to-client.
pub open spec fn flag_dir(b: u8) -> Direction {
    if b == 67 || b == 99 {
        Direction::ClientToServer
    } else {
        Direction::ServerToClient
    }
}

/// Polarity encoded by a flag byte: upper case is blacklist, lower case
/// whitelist.
pub open spec fn flag_pol(b: u8) -> Polarity {
    if b == 67 || b == 83 {
        Polarity::Blacklist
    } else {
        Polarity::Whitelist
    }
}

/// A well-formed token: a case byte, a flag byte, and an even number of hex
/// digits.
pub open spec fn token_valid(t: Seq<u8>) -> bool {
    &&& t.len() >= 2
    &&& (t[0] == 48 || t[0] == 49)
    &&& is_flag(t[1])
    &&& (t.len() - 2) % 2 == 0
    &&& forall|k: int| 2 <= k < t.len() ==> is_hex_digit(#[trigger] t[k])
}

/// The rule `r` is exactly what the valid token `t` encodes.
pub open spec fn rule_of_token(r: Rule, t: Seq<u8>) -> bool {
    &&& r.raw_id@ == t
    &&& r.case_sensitive == (t[0] == 49)
    &&& r.direction == flag_dir(t[1])
    &&& r.polarity == flag_pol(t[1])
    &&& r.pattern@ == hex_decode_from(t, 2)
}

/// Each rule of `rs`, in order, encodes the corresponding token of `ts`.
pub open spec fn rules_of_tokens(rs: Seq<Rule>, ts: Seq<Seq<u8>>) -> bool {
    &&& rs.len() == ts.len()
    &&& forall|i: int| 0 <= i < rs.len() ==> rule_of_token(#[trigger] rs[i], ts[i])
}

fn hex_digit_value(b: u8) -> (r: Option<u8>)
    ensures
        (match r {
            Some(v) => is_hex_digit(b) && v == hex_val(b),
            None => !is_hex_digit(b),
        }),
{
    if 48 <= b && b <= 57 {
        Some(b - 48)
    } else if 97 <= b && b <= 102 {
        Some(b - 87)
    } else if 65 <= b && b <= 70 {
        Some(b - 55)
    } else {
        None
    }
}

/// Parse one rule token. A malformed token (too short, bad case byte, bad
/// flag byte, odd or invalid hex) yields `None`; a valid token yields the
/// rule it encodes, with the whole token retained as the rule identifier.
pub fn parse_token(t: &[u8]) -> (r: Option<Rule>)
    ensures
        (match r {
            Some(rule) => token_valid(t@) && rule_of_token(rule, t@),
            None => !token_valid(t@),
        }),
{
    if t.len() < 2 {
        return None;
    }
    let case_byte = t[0];
    if case_byte != 48 && case_byte != 49 {
        return None;
    }
    let flag = t[1];
    if flag != 67 && flag != 99 && flag != 83 && flag != 115 {
        return None;
    }
    if (t.len() - 2) % 2 != 0 {
        return None;
    }
    let mut pattern: Vec<u8> = Vec::new();
    let mut i: usize = 2;
    while i < t.len()
        invariant
            2 <= i <= t@.len(),
            t@.len() >= 2,
            (t@.len() - 2) % 2 == 0,
            i % 2 == 0,
            forall|k: int| 2 <= k < i ==> is_hex_digit(#[trigger] t@[k]),
            hex_decode_from(t@, 2) == pattern@ + hex_decode_from(t@, i as int),
        decreases t@.len() - i,
    {
        assert(i + 2 <= t@.len()) by {
            assert((t@.len() - i) % 2 == 0);
        }
        let hi = match hex_digit_value(t[i]) {
            Some(v) => v,
            None => {
                return None;
            },
        };
        let lo = match hex_digit_value(t[i + 1]) {
            Some(v) => v,
            None => {
                return None;
            },
        };
        let b: u8 = hi * 16 + lo;
        proof {
            assert(hex_decode_from(t@, i as int) == seq![b] + hex_decode_from(t@, i + 2));
            assert(hex_decode_from(t@, 2) == pattern@.push(b) + hex_decode_from(t@, i + 2));
        }
        pattern.push(b);
        i += 2;
    }
    assert(hex_decode_from(t@, i as int) == Seq::<u8>::empty());
    assert(hex_decode_from(t@, 2) == pattern@);
    Some(
        Rule {
            raw_id: slice_to_vec(t),
            direction: if flag == 67 || flag == 99 {
                Direction::ClientToServer
            } else {
                Direction::ServerToClient
            },
            polarity: if flag == 67 || flag == 83 {
                Polarity::Blacklist
            } else {
                Polarity::Whitelist
            },
            case_sensitive: case_byte == 49,
            pattern,
        },
    )
}

/// A whitespace byte: space, tab, carriage return or line feed.
pub open spec fn is_space(b: u8) -> bool {
    b == 32 || b == 9 || b == 13 || b == 10
}

/// Index of the first whitespace byte at or after `i`, or the end of `s`.
pub open spec fn token_end(s: Seq<u8>, i: int) -> int
    decreases s.len() - i,
{
    if i < 0 || i >= s.len() || is_space(s[i]) {
        i
    } else {
        token_end(s, i + 1)
    }
}

proof fn lemma_token_end_bounds(s: Seq<u8>, i: int)
    requires
        0 <= i <= s.len(),
    ensures
        i <= token_end(s, i) <= s.len(),
        i < s.len() && !is_space(s[i]) ==> i < token_end(s, i),
    decreases s.len() - i,
{
    if i < s.len() && !is_space(s[i]) {
        lemma_token_end_bounds(s, i + 1);
    }
}

#[via_fn]
proof fn spec_tokens_decreases(s: Seq<u8>, i: int)
{
    if 0 <= i && i < s.len() && !is_space(s[i]) {
        lemma_token_end_bounds(s, i);
    }
}

/// The maximal whitespace-free runs of `s` from index `i` on, in order.
pub open spec fn spec_tokens(s: Seq<u8>, i: int) -> Seq<Seq<u8>>
    decreases s.len() - i,
    via spec_tokens_decreases
{
    if i < 0 || i >= s.len() {
        seq![]
    } else if is_space(s[i]) {
        spec_tokens(s, i + 1)
    } else {
        seq![s.subrange(i, token_end(s, i))] + spec_tokens(s, token_end(s, i))
    }
}

proof fn lemma_token_end_at(s: Seq<u8>, i: int, j: int)
    requires
        0 <= i <= j <= s.len(),
        forall|k: int| i <= k < j ==> !is_space(s[k]),
        j == s.len() || is_space(s[j]),
    ensures
        token_end(s, i) == j,
    decreases j - i,
{
    if i < j {
        lemma_token_end_at(s, i + 1, j);
    }
}

/// The valid tokens of `ts`, in order, that encode rules for the given
/// direction and polarity.
pub open spec fn sel_tokens(ts: Seq<Seq<u8>>, d: Direction, p: Polarity) -> Seq<Seq<u8>>
    decreases ts.len(),
{
    if ts.len() == 0 {
        seq![]
    } else {
        let rest = sel_tokens(ts.drop_last(), d, p);
        let t = ts.last();
        if token_valid(t) && flag_dir(t[1]) == d && flag_pol(t[1]) == p {
            rest.push(t)
        } else {
            rest
        }
    }
}

impl RuleSet {
    /// Append one rule at the end of the sequence its direction and polarity
    /// select; the three other sequences are unchanged.
    pub fn add_rule(&mut self, r: Rule)
        ensures
            final(self).cs_blacklist@ == (if r.direction == Direction::ClientToServer
                && r.polarity == Polarity::Blacklist {
                old(self).cs_blacklist@.push(r)
            } else {
                old(self).cs_blacklist@
            }),
            final(self).cs_whitelist@ == (if r.direction == Direction::ClientToServer
                && r.polarity == Polarity::Whitelist {
                old(self).cs_whitelist@.push(r)
            } else {
                old(self).cs_whitelist@
            }),
            final(self).sc_blacklist@ == (if r.direction == Direction::ServerToClient
                && r.polarity == Polarity::Blacklist {
                old(self).sc_blacklist@.push(r)
            } else {
                old(self).sc_blacklist@
            }),
            final(self).sc_whitelist@ == (if r.direction == Direction::ServerToClient
                && r.polarity == Polarity::Whitelist {
                old(self).sc_whitelist@.push(r)
            } else {
                old(self).sc_whitelist@
            }),
    {
        match (r.direction, r.polarity) {
            (Direction::ClientToServer, Polarity::Blacklist) => self.cs_blacklist.push(r),
            (Direction::ClientToServer, Polarity::Whitelist) => self.cs_whitelist.push(r),
            (Direction::ServerToClient, Polarity::Blacklist) => self.sc_blacklist.push(r),
            (Direction::ServerToClient, Polarity::Whitelist) => self.sc_whitelist.push(r),
        }
    }
}

/// Split a line into its whitespace-separated tokens.
pub fn split_line(line: &[u8]) -> (toks: Vec<Vec<u8>>)
    ensures
        toks@.len() == spec_tokens(line@, 0).len(),
        forall|k: int| 0 <= k < toks@.len() ==> (#[trigger] toks@[k])@ == spec_tokens(line@, 0)[k],
{
    let n: usize = line.len();
    let mut toks: Vec<Vec<u8>> = Vec::new();
    let mut i: usize = 0;
    while i < n
        invariant
            n == line@.len(),
            i <= n,
            spec_tokens(line@, 0) == toks@.map_values(|t: Vec<u8>| t@) + spec_tokens(
                line@,
                i as int,
            ),
        decreases n - i,
    {
        if is_space_byte(line[i]) {
            assert(spec_tokens(line@, i as int) == spec_tokens(line@, i + 1));
            i += 1;
        } else {
            let start = i;
            let mut j: usize = i;
            while j < n && !is_space_byte(line[j])
                invariant
                    n == line@.len(),
                    i <= j <= n,
                    forall|k: int| i <= k < j ==> !is_space(line@[k]),
                decreases n - j,
            {
                j += 1;
            }
            proof {
                lemma_token_end_at(line@, i as int, j as int);
            }
            let tok: Vec<u8> = slice_to_vec(slice_subrange(line, start, j));
            proof {
                assert(spec_tokens(line@, i as int) == seq![
                    line@.subrange(i as int, j as int),
                ] + spec_tokens(line@, j as int));
                assert((toks@.push(tok)).map_values(|t: Vec<u8>| t@) =~= toks@.map_values(
                    |t: Vec<u8>| t@,
                ).push(tok@));
                assert(toks@.map_values(|t: Vec<u8>| t@).push(tok@) + spec_tokens(line@, j as int)
                    =~= toks@.map_values(|t: Vec<u8>| t@) + spec_tokens(line@, i as int));
            }
            toks.push(tok);
            i = j;
        }
    }
    assert(spec_tokens(line@, i as int) == Seq::<Seq<u8>>::empty());
    assert(spec_tokens(line@, 0) =~= toks@.map_values(|t: Vec<u8>| t@));
    assert(forall|k: int|
        0 <= k < toks@.len() ==> (#[trigger] toks@[k])@ == toks@.map_values(|t: Vec<u8>| t@)[k]);
    toks
}

fn is_space_byte(b: u8) -> (r: bool)
    ensures
        r == is_space(b),
{
    b == 32 || b == 9 || b == 13 || b == 10
}

/// Parse one configuration line into a fresh rule set: every valid token of
/// the line contributes exactly the rule it encodes, in line order, to the
/// sequence its flag byte selects; malformed tokens are skipped. A line with
/// no valid token yields the empty (all-accept) set.
pub fn parse_line(line: &[u8]) -> (r: RuleSet)
    ensures
        r.wf(),
        rules_of_tokens(
            r.cs_blacklist@,
            sel_tokens(spec_tokens(line@, 0), Direction::ClientToServer, Polarity::Blacklist),
        ),
        rules_of_tokens(
            r.cs_whitelist@,
            sel_tokens(spec_tokens(line@, 0), Direction::ClientToServer, Polarity::Whitelist),
        ),
        rules_of_tokens(
            r.sc_blacklist@,
            sel_tokens(spec_tokens(line@, 0), Direction::ServerToClient, Polarity::Blacklist),
        ),
        rules_of_tokens(
            r.sc_whitelist@,
            sel_tokens(spec_tokens(line@, 0), Direction::ServerToClient, Polarity::Whitelist),
        ),
{
    let toks = split_line(line);
    let ghost all = spec_tokens(line@, 0);
    let mut set = RuleSet::new();
    proof {
        assert(all.take(0) =~= Seq::<Seq<u8>>::empty());
        assert(sel_tokens(all.take(0), Direction::ClientToServer, Polarity::Blacklist)
            =~= Seq::<Seq<u8>>::empty());
        assert(sel_tokens(all.take(0), Direction::ClientToServer, Polarity::Whitelist)
            =~= Seq::<Seq<u8>>::empty());
        assert(sel_tokens(all.take(0), Direction::ServerToClient, Polarity::Blacklist)
            =~= Seq::<Seq<u8>>::empty());
        assert(sel_tokens(all.take(0), Direction::ServerToClient, Polarity::Whitelist)
            =~= Seq::<Seq<u8>>::empty());
    }
    let mut idx: usize = 0;
    while idx < toks.len()
        invariant
            toks@.len() == all.len(),
            forall|k: int| 0 <= k < toks@.len() ==> (#[trigger] toks@[k])@ == all[k],
            idx <= toks@.len(),
            set.wf(),
            rules_of_tokens(
                set.cs_blacklist@,
                sel_tokens(
                    all.take(idx as int),
                    Direction::ClientToServer,
                    Polarity::Blacklist,
                ),
            ),
            rules_of_tokens(
                set.cs_whitelist@,
                sel_tokens(
                    all.take(idx as int),
                    Direction::ClientToServer,
                    Polarity::Whitelist,
                ),
            ),
            rules_of_tokens(
                set.sc_blacklist@,
                sel_tokens(
                    all.take(idx as int),
                    Direction::ServerToClient,
                    Polarity::Blacklist,
                ),
            ),
            rules_of_tokens(
                set.sc_whitelist@,
                sel_tokens(
                    all.take(idx as int),
                    Direction::ServerToClient,
                    Polarity::Whitelist,
                ),
            ),
        decreases toks@.len() - idx,
    {
        proof {
            assert(all.take(idx + 1).drop_last() =~= all.take(idx as int));
            assert(all.take(idx + 1).last() == all[idx as int]);
        }
        match parse_token(toks[idx].as_slice()) {
            Some(rule) => {
                set.add_rule(rule);
            },
            None => {
            },
        }
        idx += 1;
    }
    assert(all.take(all.len() as int) =~= all);
    set
}

} // verus!
