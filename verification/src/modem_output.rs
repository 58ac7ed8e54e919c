//! Reading the key-value output of modem tools.

use vstd::prelude::*;

use crate::text;
use crate::text::{all_digits, halves, has_prefix, lines_of, opt, texts, trimmed};

verus! {

/// The value of a `key : value` line whose key is `key`.
pub open spec fn line_value(line: Seq<char>, key: Seq<char>) -> Option<Seq<char>> {
    match halves(line, ':') {
        Some((left, right)) => if trimmed(left) == key {
            Some(trimmed(right))
        } else {
            None
        },
        None => None,
    }
}

/// The value of the first line whose key is `key`.
pub open spec fn first_value(lines: Seq<Seq<char>>, key: Seq<char>) -> Option<Seq<char>>
    decreases lines.len(),
{
    if lines.len() == 0 {
        None
    } else {
        match line_value(lines[0], key) {
            Some(value) => Some(value),
            None => first_value(lines.drop_first(), key),
        }
    }
}

/// The value that `output` gives for `key`.
pub open spec fn value_of(output: Seq<char>, key: Seq<char>) -> Option<Seq<char>> {
    first_value(lines_of(output), key)
}

/// The value that `output` gives for `key`.
pub fn key_value(output: &str, key: &str) -> (r: Option<String>)
    ensures
        opt(r) == value_of(output@, key@),
{
    let lines = text::lines(output);
    let ghost all = texts(lines@);
    let mut i: usize = 0;
    proof {
        assert(all.skip(0) =~= all);
    }
    while i < lines.len()
        invariant
            i <= lines@.len(),
            all == texts(lines@),
            all == lines_of(output@),
            first_value(all, key@) == first_value(all.skip(i as int), key@),
        decreases lines@.len() - i,
    {
        proof {
            assert(all.skip(i as int).drop_first() =~= all.skip(i as int + 1));
            assert(all.skip(i as int)[0] == lines@[i as int]@);
        }
        if let Some((left, right)) = text::split_once(lines[i].as_str(), ':') {
            if text::same(text::trim(left.as_str()).as_str(), key) {
                return Some(text::trim(right.as_str()));
            }
        }
        i += 1;
    }
    None
}

/// The modem is registered or connected.
pub open spec fn ready(output: Seq<char>) -> bool {
    value_of(output, "modem.generic.state"@) == Some("registered"@) || value_of(
        output,
        "modem.generic.state"@,
    ) == Some("connected"@)
}

/// Whether the modem is registered or connected.
pub fn modem_is_ready(output: &str) -> (r: bool)
    ensures
        r == ready(output@),
{
    match key_value(output, "modem.generic.state") {
        Some(state) => text::same(state.as_str(), "registered") || text::same(
            state.as_str(),
            "connected",
        ),
        None => false,
    }
}

/// How often the modem is asked before it is given up.
pub const MM_MODEM_WAIT_ATTEMPTS: usize = 10;

/// What follows an answer of the modem.
#[derive(Debug, Clone, Copy, PartialEq, Eq, Structural)]
pub enum ModemWait {
    Ready,
    /// Wait and ask again.
    Again,
    TimedOut,
}

/// Decides what follows answer number `attempt`, counted from zero; a failed
/// command gave no output.
pub fn modem_wait_step(attempt: usize, output: Option<&str>) -> (r: ModemWait)
    requires
        attempt < MM_MODEM_WAIT_ATTEMPTS,
    ensures
        r == (if output is Some && ready(output->0@) {
            ModemWait::Ready
        } else if attempt + 1 < MM_MODEM_WAIT_ATTEMPTS {
            ModemWait::Again
        } else {
            ModemWait::TimedOut
        }),
{
    let is_ready = match output {
        Some(output) => modem_is_ready(output),
        None => false,
    };
    if is_ready {
        ModemWait::Ready
    } else if attempt + 1 < MM_MODEM_WAIT_ATTEMPTS {
        ModemWait::Again
    } else {
        ModemWait::TimedOut
    }
}

/// A home network code: five or six digits that the IMSI begins with.
pub open spec fn home_plmn_valid(imsi: Seq<char>, candidate: Seq<char>) -> bool {
    (candidate.len() == 5 || candidate.len() == 6) && all_digits(candidate) && has_prefix(
        imsi,
        candidate,
    )
}

/// Whether a network code is the IMSI's home.
pub fn valid_home_plmn(imsi: &str, candidate: &str) -> (r: bool)
    ensures
        r == home_plmn_valid(imsi@, candidate@),
{
    let n = text::chars(candidate).len();
    (n == 5 || n == 6) && text::only_digits(candidate) && text::starts_with(imsi, candidate)
}

} // verus!
