use vstd::prelude::*;

verus! {

pub open spec fn is_digit(c: char) -> bool {
    '0' <= c <= '9'
}

/// The number that a string of decimal digits spells.
pub open spec fn digits_value(s: Seq<char>) -> int
    decreases s.len(),
{
    if s.len() == 0 {
        0
    } else {
        10 * digits_value(s.drop_last()) + (s.last() as int - '0' as int)
    }
}

/// The value of an unsigned decimal literal: an optional `+`, then one or
/// more ASCII digits.
pub open spec fn unsigned_text(s: Seq<char>) -> Option<int> {
    let t = if s.len() > 0 && s[0] == '+' {
        s.drop_first()
    } else {
        s
    };
    if t.len() > 0 && forall|i: int| 0 <= i < t.len() ==> is_digit(#[trigger] t[i]) {
        Some(digits_value(t))
    } else {
        None
    }
}

/// What `str::parse::<usize>` gives for `s`.
pub open spec fn usize_text(s: Seq<char>) -> Option<usize> {
    match unsigned_text(s) {
        Some(v) => if v <= usize::MAX {
            Some(v as usize)
        } else {
            None
        },
        None => None,
    }
}

/// What `str::parse::<bool>` gives for `s`.
pub open spec fn bool_text(s: Seq<char>) -> Option<bool> {
    if s == "true"@ {
        Some(true)
    } else if s == "false"@ {
        Some(false)
    } else {
        None
    }
}

/// Relies on `str::parse::<usize>`: an optional `+` and decimal digits
/// whose value fits, and nothing else, give that value.
#[verifier::external_body]
pub(crate) fn parse_usize(s: &str) -> (r: Option<usize>)
    ensures
        r == usize_text(s@),
{
    s.parse::<usize>().ok()
}

/// Relies on `str::parse::<bool>`: exactly `true` or `false`.
#[verifier::external_body]
pub(crate) fn parse_bool(s: &str) -> (r: Option<bool>)
    ensures
        r == bool_text(s@),
{
    s.parse::<bool>().ok()
}

/// The text of an optional string.
pub open spec fn opt_view(s: Option<String>) -> Option<Seq<char>> {
    match s {
        Some(v) => Some(v@),
        None => None,
    }
}

} // verus!
