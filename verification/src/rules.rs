//! Pattern rules and the accept/block decision for one payload.
//!
//! A rule set holds four ordered rule sequences, keyed by traffic direction
//! and polarity. For one payload and direction, every blacklist rule that
//! matches forces a block; every whitelist rule is mandatory, so a whitelist
//! rule that fails to match also forces a block.

use vstd::prelude::*;
use vstd::slice::slice_to_vec;

verus! {

/// Which way the inspected traffic flows.
#[derive(Clone, Copy, PartialEq, Eq, Structural, Debug)]
pub enum Direction {
    ClientToServer,
    ServerToClient,
}

/// Whether a rule forbids a match (blacklist) or demands one (whitelist).
#[derive(Clone, Copy, PartialEq, Eq, Structural, Debug)]
pub enum Polarity {
    Blacklist,
    Whitelist,
}

/// One compiled pattern rule. `raw_id` is the original encoded token,
/// retained for diagnostics on a block decision.
pub struct Rule {
    pub raw_id: Vec<u8>,
    pub direction: Direction,
    pub polarity: Polarity,
    pub case_sensitive: bool,
    pub pattern: Vec<u8>,
}

/// ASCII upper-case letters folded to lower case; every other byte unchanged.
pub open spec fn fold_byte(b: u8) -> u8 {
    if 65 <= b && b <= 90 {
        (b + 32) as u8
    } else {
        b
    }
}

/// Byte equality, folded when the comparison is case-insensitive.
pub open spec fn byte_eq(a: u8, b: u8, case_sensitive: bool) -> bool {
    if case_sensitive {
        a == b
    } else {
        fold_byte(a) == fold_byte(b)
    }
}

/// The pattern occurs in the haystack starting at position `i`.
pub open spec fn match_at(hay: Seq<u8>, pat: Seq<u8>, case_sensitive: bool, i: int) -> bool {
    forall|j: int| 0 <= j < pat.len() ==> byte_eq(hay[i + j], pat[j], case_sensitive)
}

/// The pattern occurs somewhere in the haystack.
pub open spec fn spec_matches(hay: Seq<u8>, pat: Seq<u8>, case_sensitive: bool) -> bool {
    exists|i: int| 0 <= i && i + pat.len() <= hay.len() && match_at(hay, pat, case_sensitive, i)
}

fn to_lower(b: u8) -> (r: u8)
    ensures
        r == fold_byte(b),
{
    if 65 <= b && b <= 90 {
        b + 32
    } else {
        b
    }
}

fn bytes_agree(a: u8, b: u8, case_sensitive: bool) -> (r: bool)
    ensures
        r == byte_eq(a, b, case_sensitive),
{
    if case_sensitive {
        a == b
    } else {
        to_lower(a) == to_lower(b)
    }
}

fn match_here(hay: &[u8], pat: &[u8], case_sensitive: bool, i: usize) -> (r: bool)
    requires
        i + pat@.len() <= hay@.len(),
    ensures
        r == match_at(hay@, pat@, case_sensitive, i as int),
{
    let hn: usize = hay.len();
    let mut j: usize = 0;
    while j < pat.len()
        invariant
            j <= pat@.len(),
            i + pat@.len() <= hay@.len(),
            hn == hay@.len(),
            forall|k: int| 0 <= k < j ==> byte_eq(hay@[i + k], pat@[k], case_sensitive),
        decreases pat@.len() - j,
    {
        if !bytes_agree(hay[i + j], pat[j], case_sensitive) {
            assert(!byte_eq(hay@[i + j as int], pat@[j as int], case_sensitive));
            return false;
        }
        j += 1;
    }
    true
}

/// Substring search: does the pattern occur in the payload, with per-rule
/// case sensitivity? An empty pattern matches every payload.
pub fn matches_bytes(hay: &[u8], pat: &[u8], case_sensitive: bool) -> (r: bool)
    ensures
        r == spec_matches(hay@, pat@, case_sensitive),
{
    if pat.len() > hay.len() {
        return false;
    }
    if pat.len() == 0 {
        assert(match_at(hay@, pat@, case_sensitive, 0));
        return true;
    }
    let last: usize = hay.len() - pat.len();
    let mut i: usize = 0;
    while i <= last
        invariant
            1 <= pat@.len() <= hay@.len(),
            last == hay@.len() - pat@.len(),
            last < usize::MAX,
            i <= last + 1,
            forall|k: int| 0 <= k < i ==> !match_at(hay@, pat@, case_sensitive, k),
        decreases last + 1 - i,
    {
        if match_here(hay, pat, case_sensitive, i) {
            return true;
        }
        i += 1;
    }
    false
}

/// The rule's pattern occurs in the payload, under the rule's case mode.
pub open spec fn rule_matches(r: Rule, payload: Seq<u8>) -> bool {
    spec_matches(payload, r.pattern@, r.case_sensitive)
}

impl Rule {
    /// Evaluate this rule against one payload.
    pub fn matches(&self, payload: &[u8]) -> (r: bool)
        ensures
            r == rule_matches(*self, payload@),
    {
        matches_bytes(payload, self.pattern.as_slice(), self.case_sensitive)
    }
}

/// Every rule in the sequence carries the given direction and polarity.
pub open spec fn rules_tagged(rs: Seq<Rule>, d: Direction, p: Polarity) -> bool {
    forall|i: int| 0 <= i < rs.len() ==> (#[trigger] rs[i]).direction == d && rs[i].polarity == p
}

/// Four ordered rule sequences, one per (direction, polarity) key.
/// Immutable once built: a configuration reload constructs a new set.
pub struct RuleSet {
    pub cs_blacklist: Vec<Rule>,
    pub cs_whitelist: Vec<Rule>,
    pub sc_blacklist: Vec<Rule>,
    pub sc_whitelist: Vec<Rule>,
}

/// Index `i`, counting from `i0`, of the first rule whose match outcome on
/// the payload equals `want`; `None` if no such rule follows.
pub open spec fn first_with(rs: Seq<Rule>, payload: Seq<u8>, want: bool, i0: int) -> Option<int>
    decreases rs.len() - i0,
{
    if i0 < 0 || i0 >= rs.len() {
        None
    } else if rule_matches(rs[i0], payload) == want {
        Some(i0)
    } else {
        first_with(rs, payload, want, i0 + 1)
    }
}

/// The identifier of the rule that blocks the payload, or `None` when the
/// payload is accepted: the first matching blacklist rule wins; otherwise
/// the first whitelist rule that fails to match; otherwise accept.
pub open spec fn spec_check(set: RuleSet, d: Direction, payload: Seq<u8>) -> Option<Seq<u8>> {
    let bl = set.spec_blacklist(d);
    let wl = set.spec_whitelist(d);
    match first_with(bl, payload, true, 0) {
        Some(i) => Some(bl[i].raw_id@),
        None => match first_with(wl, payload, false, 0) {
            Some(i) => Some(wl[i].raw_id@),
            None => None,
        },
    }
}

/// The decision for one payload: accept it, or block it, carrying the
/// identifier of the rule that forced the block.
pub enum CheckVerdict {
    Accept,
    Block(Vec<u8>),
}

impl RuleSet {
    /// Each of the four sequences holds only rules tagged with its own key.
    pub open spec fn wf(self) -> bool {
        &&& rules_tagged(self.cs_blacklist@, Direction::ClientToServer, Polarity::Blacklist)
        &&& rules_tagged(self.cs_whitelist@, Direction::ClientToServer, Polarity::Whitelist)
        &&& rules_tagged(self.sc_blacklist@, Direction::ServerToClient, Polarity::Blacklist)
        &&& rules_tagged(self.sc_whitelist@, Direction::ServerToClient, Polarity::Whitelist)
    }

    /// The blacklist rules for one direction, in insertion order.
    pub open spec fn spec_blacklist(self, d: Direction) -> Seq<Rule> {
        match d {
            Direction::ClientToServer => self.cs_blacklist@,
            Direction::ServerToClient => self.sc_blacklist@,
        }
    }

    /// The whitelist rules for one direction, in insertion order.
    pub open spec fn spec_whitelist(self, d: Direction) -> Seq<Rule> {
        match d {
            Direction::ClientToServer => self.cs_whitelist@,
            Direction::ServerToClient => self.sc_whitelist@,
        }
    }

    /// An empty rule set: no rule in any of the four sequences.
    pub fn new() -> (r: RuleSet)
        ensures
            r.wf(),
            r.cs_blacklist@.len() == 0,
            r.cs_whitelist@.len() == 0,
            r.sc_blacklist@.len() == 0,
            r.sc_whitelist@.len() == 0,
            forall|d: Direction| r.spec_blacklist(d).len() == 0 && r.spec_whitelist(d).len() == 0,
    {
        RuleSet {
            cs_blacklist: Vec::new(),
            cs_whitelist: Vec::new(),
            sc_blacklist: Vec::new(),
            sc_whitelist: Vec::new(),
        }
    }

    /// Decide one payload for one direction: blacklist rules are evaluated in
    /// insertion order and any match blocks; then every whitelist rule must
    /// match, and the first that does not blocks; otherwise the payload is
    /// accepted. The matcher is total, so no single rule can abort the
    /// decision.
    pub fn check(&self, payload: &[u8], d: Direction) -> (v: CheckVerdict)
        ensures
            (match v {
                CheckVerdict::Accept => spec_check(*self, d, payload@) is None,
                CheckVerdict::Block(id) => spec_check(*self, d, payload@) == Some(id@),
            }),
    {
        let bl: &Vec<Rule> = match d {
            Direction::ClientToServer => &self.cs_blacklist,
            Direction::ServerToClient => &self.sc_blacklist,
        };
        let wl: &Vec<Rule> = match d {
            Direction::ClientToServer => &self.cs_whitelist,
            Direction::ServerToClient => &self.sc_whitelist,
        };
        let ghost sbl = self.spec_blacklist(d);
        let ghost swl = self.spec_whitelist(d);
        let mut i: usize = 0;
        while i < bl.len()
            invariant
                bl@ == sbl,
                sbl == self.spec_blacklist(d),
                i <= sbl.len(),
                forall|k: int| 0 <= k < i ==> !rule_matches(sbl[k], payload@),
            decreases sbl.len() - i,
        {
            if bl[i].matches(payload) {
                proof {
                    lemma_first_with_step(sbl, payload@, true, 0, i as int);
                }
                return CheckVerdict::Block(slice_to_vec(bl[i].raw_id.as_slice()));
            }
            i += 1;
        }
        proof {
            lemma_first_with_step(sbl, payload@, true, 0, sbl.len() as int);
        }
        let mut j: usize = 0;
        while j < wl.len()
            invariant
                wl@ == swl,
                swl == self.spec_whitelist(d),
                sbl == self.spec_blacklist(d),
                first_with(sbl, payload@, true, 0) is None,
                j <= swl.len(),
                forall|k: int| 0 <= k < j ==> rule_matches(swl[k], payload@),
            decreases swl.len() - j,
        {
            if !wl[j].matches(payload) {
                proof {
                    lemma_first_with_step(swl, payload@, false, 0, j as int);
                }
                return CheckVerdict::Block(slice_to_vec(wl[j].raw_id.as_slice()));
            }
            j += 1;
        }
        proof {
            lemma_first_with_step(swl, payload@, false, 0, swl.len() as int);
        }
        CheckVerdict::Accept
    }
}

/// If no rule in `[i0, j)` has outcome `want`, the first-index search from
/// `i0` gives the same answer as the search from `j`.
proof fn lemma_first_with_skip(rs: Seq<Rule>, payload: Seq<u8>, want: bool, i0: int, j: int)
    requires
        0 <= i0 <= j <= rs.len(),
        forall|k: int| i0 <= k < j ==> rule_matches(rs[k], payload) != want,
    ensures
        first_with(rs, payload, want, i0) == first_with(rs, payload, want, j),
    decreases j - i0,
{
    if i0 < j {
        lemma_first_with_skip(rs, payload, want, i0 + 1, j);
    }
}

/// With no rule of outcome `want` in `[i0, j)`, the search from `i0` stops at
/// `j`: at `j` itself if `j` is inside the sequence and has outcome `want`,
/// and nowhere if `j` is the end of the sequence.
proof fn lemma_first_with_step(rs: Seq<Rule>, payload: Seq<u8>, want: bool, i0: int, j: int)
    requires
        0 <= i0 <= j <= rs.len(),
        forall|k: int| i0 <= k < j ==> rule_matches(rs[k], payload) != want,
    ensures
        j < rs.len() && rule_matches(rs[j], payload) == want ==> first_with(
            rs,
            payload,
            want,
            i0,
        ) == Some(j),
        j == rs.len() ==> first_with(rs, payload, want, i0) is None,
    decreases j - i0,
{
    lemma_first_with_skip(rs, payload, want, i0, j);
}

/// A `Some` answer of the first-index search is inside the sequence, has the
/// wanted outcome, and nothing before it (from `i0`) has that outcome.
proof fn lemma_first_with_some(rs: Seq<Rule>, payload: Seq<u8>, want: bool, i0: int, j: int)
    requires
        0 <= i0,
        first_with(rs, payload, want, i0) == Some(j),
    ensures
        i0 <= j < rs.len(),
        rule_matches(rs[j], payload) == want,
        forall|k: int| i0 <= k < j ==> rule_matches(rs[k], payload) != want,
    decreases rs.len() - i0,
{
    if i0 < rs.len() && rule_matches(rs[i0], payload) != want {
        lemma_first_with_some(rs, payload, want, i0 + 1, j);
    }
}

/// A `None` answer of the first-index search means no rule at or after `i0`
/// has the wanted outcome.
proof fn lemma_first_with_none(rs: Seq<Rule>, payload: Seq<u8>, want: bool, i0: int)
    requires
        0 <= i0,
        first_with(rs, payload, want, i0) is None,
    ensures
        forall|k: int| i0 <= k < rs.len() ==> rule_matches(rs[k], payload) != want,
    decreases rs.len() - i0,
{
    if i0 < rs.len() {
        lemma_first_with_none(rs, payload, want, i0 + 1);
    }
}

/// With no blacklist rules and no whitelist rules for the direction, every
/// payload is accepted.
pub proof fn lemma_empty_rules_accept(set: RuleSet, d: Direction, payload: Seq<u8>)
    requires
        set.spec_blacklist(d).len() == 0,
        set.spec_whitelist(d).len() == 0,
    ensures
        spec_check(set, d, payload) is None,
{
}

/// A payload that matches the blacklist rule at index `j`, with no earlier
/// blacklist match, is blocked with exactly that rule's identifier, whatever
/// the whitelists hold.
pub proof fn lemma_blacklist_match_blocks(set: RuleSet, d: Direction, payload: Seq<u8>, j: int)
    requires
        0 <= j < set.spec_blacklist(d).len(),
        rule_matches(set.spec_blacklist(d)[j], payload),
        forall|k: int| 0 <= k < j ==> !rule_matches(set.spec_blacklist(d)[k], payload),
    ensures
        spec_check(set, d, payload) == Some(set.spec_blacklist(d)[j].raw_id@),
{
    lemma_first_with_step(set.spec_blacklist(d), payload, true, 0, j);
}

/// A payload that matches any blacklist rule at all for the direction is
/// blocked with a blacklist rule's identifier, whatever the whitelists
/// hold.
pub proof fn lemma_blacklist_any_match_blocks(set: RuleSet, d: Direction, payload: Seq<u8>)
    requires
        exists|i: int|
            0 <= i < set.spec_blacklist(d).len() && rule_matches(
                #[trigger] set.spec_blacklist(d)[i],
                payload,
            ),
    ensures
        (spec_check(set, d, payload) matches Some(id) && exists|j: int|
            0 <= j < set.spec_blacklist(d).len() && id == #[trigger] set.spec_blacklist(
                d,
            )[j].raw_id@),
{
    let bl = set.spec_blacklist(d);
    match first_with(bl, payload, true, 0) {
        Some(j) => {
            lemma_first_with_some(bl, payload, true, 0, j);
            assert(0 <= j < bl.len() && spec_check(set, d, payload) == Some(
                set.spec_blacklist(d)[j].raw_id@,
            ));
        },
        None => {
            lemma_first_with_none(bl, payload, true, 0);
        },
    }
}

/// A payload is accepted exactly when no blacklist rule for the direction
/// matches it and every whitelist rule for the direction matches it.
pub proof fn lemma_accept_iff(set: RuleSet, d: Direction, payload: Seq<u8>)
    ensures
        spec_check(set, d, payload) is None <==> ((forall|k: int|
            0 <= k < set.spec_blacklist(d).len() ==> !rule_matches(
                #[trigger] set.spec_blacklist(d)[k],
                payload,
            )) && (forall|k: int|
            0 <= k < set.spec_whitelist(d).len() ==> rule_matches(
                #[trigger] set.spec_whitelist(d)[k],
                payload,
            ))),
{
    let bl = set.spec_blacklist(d);
    let wl = set.spec_whitelist(d);
    if spec_check(set, d, payload) is None {
        lemma_first_with_none(bl, payload, true, 0);
        lemma_first_with_none(wl, payload, false, 0);
    } else {
        match first_with(bl, payload, true, 0) {
            Some(i) => lemma_first_with_some(bl, payload, true, 0, i),
            None => match first_with(wl, payload, false, 0) {
                Some(i) => lemma_first_with_some(wl, payload, false, 0, i),
                None => (),
            },
        }
    }
}

} // verus!
