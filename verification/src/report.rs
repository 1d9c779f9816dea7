//! Verified rendering of the probe's log messages.
//!
//! The verdict line is the probe's one meaningful output: it must name the
//! key, the winning source and the margin exactly, so the whole rendering —
//! decimal digits included — is specified character by character.

use vstd::prelude::*;
use crate::key::{EventKey, Milestone};
use crate::tracker::Verdict;

verus! {

/// The character for one decimal digit.
pub open spec fn spec_digit_char(d: u64) -> char {
    if d == 0 {
        '0'
    } else if d == 1 {
        '1'
    } else if d == 2 {
        '2'
    } else if d == 3 {
        '3'
    } else if d == 4 {
        '4'
    } else if d == 5 {
        '5'
    } else if d == 6 {
        '6'
    } else if d == 7 {
        '7'
    } else if d == 8 {
        '8'
    } else {
        '9'
    }
}

/// The decimal rendering of a number, most significant digit first, no
/// leading zeros (a lone zero for zero).
pub open spec fn spec_decimal(n: u64) -> Seq<char>
    decreases n,
{
    if n < 10 {
        seq![spec_digit_char(n)]
    } else {
        spec_decimal(n / 10).push(spec_digit_char(n % 10))
    }
}

/// One decimal digit as text.
fn digit_str(d: u64) -> (s: &'static str)
    requires
        d < 10,
    ensures
        s@ == seq![spec_digit_char(d)],
{
    proof {
        reveal_strlit("0");
        reveal_strlit("1");
        reveal_strlit("2");
        reveal_strlit("3");
        reveal_strlit("4");
        reveal_strlit("5");
        reveal_strlit("6");
        reveal_strlit("7");
        reveal_strlit("8");
        reveal_strlit("9");
    }
    if d == 0 {
        "0"
    } else if d == 1 {
        "1"
    } else if d == 2 {
        "2"
    } else if d == 3 {
        "3"
    } else if d == 4 {
        "4"
    } else if d == 5 {
        "5"
    } else if d == 6 {
        "6"
    } else if d == 7 {
        "7"
    } else if d == 8 {
        "8"
    } else {
        "9"
    }
}

/// Render a number in decimal.
pub fn decimal_string(n: u64) -> (s: String)
    ensures
        s@ == spec_decimal(n),
    decreases n,
{
    if n < 10 {
        let d = digit_str(n);
        d.to_owned()
    } else {
        let mut s = decimal_string(n / 10);
        let d = digit_str(n % 10);
        s.append(d);
        proof {
            assert(s@ =~= spec_decimal(n / 10).push(spec_digit_char(n % 10)));
        }
        s
    }
}

/// How a key is written in a log line: the bare slot number for the
/// slot-progress milestone, the slot number tagged `-create-bank` for the
/// bank-created milestone.
pub open spec fn spec_key_label(k: EventKey) -> Seq<char> {
    match k.milestone {
        Milestone::SlotReported => spec_decimal(k.slot),
        Milestone::BankCreated => spec_decimal(k.slot) + "-create-bank"@,
    }
}

/// Render a key's label.
pub fn key_label(k: &EventKey) -> (s: String)
    ensures
        s@ == spec_key_label(*k),
{
    let mut s = decimal_string(k.slot);
    match k.milestone {
        Milestone::SlotReported => s,
        Milestone::BankCreated => {
            s.append("-create-bank");
            s
        },
    }
}

/// The winner line reported once per losing arrival.
pub open spec fn spec_winner_line(k: EventKey, winner: Seq<char>, delta_ms: u64) -> Seq<char> {
    "slot "@ + spec_key_label(k) + " winner "@ + winner + ", "@ + spec_decimal(delta_ms)
        + " ms faster"@
}

/// Render the winner line for one losing arrival.
pub fn winner_line(k: &EventKey, winner: &str, delta_ms: u64) -> (s: String)
    ensures
        s@ == spec_winner_line(*k, winner@, delta_ms),
{
    let mut s = "slot ".to_owned();
    let label = key_label(k);
    s.append(label.as_str());
    s.append(" winner ");
    s.append(winner);
    s.append(", ");
    let d = decimal_string(delta_ms);
    s.append(d.as_str());
    s.append(" ms faster");
    s
}

/// What one verdict logs: nothing for a first arrival — the winner is only
/// reported, with its margin, once a later arrival loses to it.
pub fn verdict_line(k: &EventKey, v: &Verdict) -> (r: Option<String>)
    ensures
        v is FirstArrival ==> r is None,
        v matches Verdict::Loser { winner, delta_ms } ==> r matches Some(line) && line@
            == spec_winner_line(*k, winner@, *delta_ms),
{
    match v {
        Verdict::FirstArrival => None,
        Verdict::Loser { winner, delta_ms } => Some(winner_line(k, winner.as_str(), *delta_ms)),
    }
}

/// The per-slot trace line of the plain logging monitor.
pub fn log_slot(name: &str, slot: u64) -> (s: String)
    ensures
        s@ == "Logging slot "@ + spec_decimal(slot) + " for endpoint "@ + name@,
{
    let mut s = "Logging slot ".to_owned();
    let d = decimal_string(slot);
    s.append(d.as_str());
    s.append(" for endpoint ");
    s.append(name);
    s
}

} // verus!
