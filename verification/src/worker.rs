//! The per-packet decision a queue worker makes, and the events a worker
//! reports to its supervisor.
//!
//! For each received datagram the worker decodes it, asks the rule set for
//! a verdict on the transport payload, and turns the answer into one of
//! three actions for the kernel: accept the packet unchanged, drop it, or
//! accept it with the payload replaced by a synthesized TCP teardown
//! segment, so that both peers observe a reset instead of a silent stall.
//! A datagram without a decodable transport payload is accepted unchanged
//! (fail-open on parse ambiguity).

use vstd::prelude::*;
use vstd::string::StringExecFns;
use crate::codec::{decode, lemma_spec_decode_wf, spec_decode, spec_reset, synthesize_reset,
    Decoded, SpecDecoded};
use crate::rules::{spec_check, CheckVerdict, Direction, RuleSet};

verus! {

/// What the kernel is told for one packet: deliver it as it is, discard
/// it, or deliver a replacement instead. A block decision carries the
/// identifier of the rule that forced it, for diagnostics.
pub enum PacketAction {
    Accept,
    Drop { rule_id: Vec<u8> },
    Replace { packet: Vec<u8>, rule_id: Vec<u8> },
}

/// Decide one raw datagram against the rule set, for traffic flowing in
/// `dir`. A blocked TCP segment is answered with a substituted teardown
/// segment; a blocked datagram of any other decodable protocol is dropped;
/// everything else — an accepted payload, or a datagram with no transport
/// payload to inspect — passes unchanged.
pub fn decide_packet(raw: &[u8], dir: Direction, set: &RuleSet) -> (a: PacketAction)
    ensures
        (match spec_decode(raw@) {
            SpecDecoded::Other => a is Accept,
            SpecDecoded::Tcp(t) => (match spec_check(*set, dir, t.payload) {
                None => a is Accept,
                Some(id) => a matches PacketAction::Replace { packet, rule_id } && packet@
                    == spec_reset(t) && rule_id@ == id,
            }),
            SpecDecoded::Udp(u) => (match spec_check(*set, dir, u.payload) {
                None => a is Accept,
                Some(id) => a matches PacketAction::Drop { rule_id } && rule_id@ == id,
            }),
        }),
{
    proof {
        lemma_spec_decode_wf(raw@);
    }
    match decode(raw) {
        Decoded::Tcp(t) => {
            match set.check(t.payload.as_slice(), dir) {
                CheckVerdict::Accept => PacketAction::Accept,
                CheckVerdict::Block(rule_id) => {
                    let packet = synthesize_reset(&t);
                    PacketAction::Replace { packet, rule_id }
                },
            }
        },
        Decoded::Udp(u) => {
            match set.check(u.payload.as_slice(), dir) {
                CheckVerdict::Accept => PacketAction::Accept,
                CheckVerdict::Block(rule_id) => PacketAction::Drop { rule_id },
            }
        },
        Decoded::Other => PacketAction::Accept,
    }
}

/// An event a worker reports on the event bus: a fatal channel error, or a
/// count of dropped packets.
pub enum WorkerMessage {
    Error(String),
    Dropped(usize),
}

/// The decimal digit characters of `n`, most significant first.
pub open spec fn spec_decimal(n: int) -> Seq<char>
    decreases n,
{
    if n < 0 {
        seq![]
    } else if n < 10 {
        seq![spec_digit(n)]
    } else {
        spec_decimal(n / 10).push(spec_digit(n % 10))
    }
}

/// The character of one decimal digit.
pub open spec fn spec_digit(d: int) -> char {
    if d == 0 {
        '0'
    } else if d == 1 {
        '1'
    } else if d == 2 {
        '2'
    } else if d == 3 {
        '3'
    } else if d == 4 {
        '4'
    } else if d == 5 {
        '5'
    } else if d == 6 {
        '6'
    } else if d == 7 {
        '7'
    } else if d == 8 {
        '8'
    } else {
        '9'
    }
}

fn digit_str(d: usize) -> (s: &'static str)
    requires
        d < 10,
    ensures
        s@ == seq![spec_digit(d as int)],
{
    let s = match d {
        0 => "0",
        1 => "1",
        2 => "2",
        3 => "3",
        4 => "4",
        5 => "5",
        6 => "6",
        7 => "7",
        8 => "8",
        _ => "9",
    };
    proof {
        reveal_strlit("0");
        reveal_strlit("1");
        reveal_strlit("2");
        reveal_strlit("3");
        reveal_strlit("4");
        reveal_strlit("5");
        reveal_strlit("6");
        reveal_strlit("7");
        reveal_strlit("8");
        reveal_strlit("9");
    }
    s
}

/// The decimal rendering of `n`.
pub fn decimal_string(n: usize) -> (s: String)
    ensures
        s@ == spec_decimal(n as int),
    decreases n,
{
    if n < 10 {
        String::from_str(digit_str(n))
    } else {
        let mut s = decimal_string(n / 10);
        s.append(digit_str(n % 10));
        assert(s@ =~= spec_decimal(n as int));
        s
    }
}

impl WorkerMessage {
    /// The one-line rendering of the event for the supervisor's log: the
    /// kind letter, then the error text or the count.
    pub fn render(&self) -> (s: String)
        ensures
            (match self {
                WorkerMessage::Error(e) => s@ == seq!['E'] + e@,
                WorkerMessage::Dropped(d) => s@ == seq!['D'] + spec_decimal(*d as int),
            }),
    {
        proof {
            reveal_strlit("E");
            reveal_strlit("D");
        }
        match self {
            WorkerMessage::Error(e) => {
                let mut s = String::from_str("E");
                s.append(e.as_str());
                assert(s@ =~= seq!['E'] + e@);
                s
            },
            WorkerMessage::Dropped(d) => {
                let mut s = String::from_str("D");
                let digits = decimal_string(*d);
                s.append(digits.as_str());
                assert(s@ =~= seq!['D'] + spec_decimal(*d as int));
                s
            },
        }
    }
}

} // verus!
