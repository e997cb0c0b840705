//! The duration codec: parses a compact elapsed-time token such as `"14d"`
//! or `"3mo"` into a duration in seconds.
//!
//! A token is a non-empty run of decimal digits followed directly by a unit
//! name. Accepted units are seconds, minutes, hours, days, weeks, months and
//! years, each written as its abbreviation (`s`, `m`, `h`, `d`, `w`, `mo`,
//! `y`), its singular word or its plural word. A month is one twelfth of the
//! 400-year Gregorian mean year of 365.2425 days. Empty, unit-less and
//! negative tokens are rejected, as are values above `u64::MAX` seconds.

use vstd::prelude::*;

verus! {

/// An elapsed-time offset, in whole seconds. Offsets are never negative.
#[derive(Clone, Copy, Debug, PartialEq, Eq, Structural)]
pub struct Duration {
    pub secs: u64,
}

/// Why a duration token was rejected.
#[derive(Clone, Copy, Debug, PartialEq, Eq, Structural)]
pub enum ParseError {
    /// The token is empty.
    Empty,
    /// The token does not begin with a decimal digit (a negative or
    /// malformed magnitude).
    NoMagnitude,
    /// The token is all digits, with no unit.
    NoUnit,
    /// The text after the digits names no known unit.
    UnknownUnit,
    /// The token names more seconds than a duration can hold.
    Overflow,
}

impl Duration {
    /// The whole days this offset spans; the part below a day is dropped
    /// when the offset is laid onto the calendar.
    pub open spec fn spec_days(self) -> int {
        self.secs as int / 86400
    }

    /// The whole days this offset spans.
    pub fn days(&self) -> (r: u64)
        ensures
            r as int == self.spec_days(),
    {
        self.secs / 86400
    }
}

/// A decimal digit.
pub open spec fn is_digit(c: char) -> bool {
    48 <= c as u32 <= 57
}

/// The value of a decimal digit.
pub open spec fn digit_val(c: char) -> int {
    c as u32 - 48
}

/// Length of the leading run of decimal digits.
pub open spec fn digits_len(s: Seq<char>) -> int
    decreases s.len(),
{
    if s.len() > 0 && is_digit(s[0]) {
        1 + digits_len(s.drop_first())
    } else {
        0
    }
}

/// Value of a digit sequence, most significant digit first.
pub open spec fn digits_val(s: Seq<char>) -> int
    decreases s.len(),
{
    if s.len() == 0 {
        0
    } else {
        digits_val(s.drop_last()) * 10 + digit_val(s.last())
    }
}

/// Seconds of one unit, by the unit's name; `None` for an unknown name.
pub open spec fn unit_secs(u: Seq<char>) -> Option<u64> {
    if u =~= seq!['s'] || u =~= seq!['s', 'e', 'c', 'o', 'n', 'd'] || u =~= seq![
        's',
        'e',
        'c',
        'o',
        'n',
        'd',
        's',
    ] {
        Some(1u64)
    } else if u =~= seq!['m'] || u =~= seq!['m', 'i', 'n', 'u', 't', 'e'] || u =~= seq![
        'm',
        'i',
        'n',
        'u',
        't',
        'e',
        's',
    ] {
        Some(60u64)
    } else if u =~= seq!['h'] || u =~= seq!['h', 'o', 'u', 'r'] || u =~= seq![
        'h',
        'o',
        'u',
        'r',
        's',
    ] {
        Some(3600u64)
    } else if u =~= seq!['d'] || u =~= seq!['d', 'a', 'y'] || u =~= seq!['d', 'a', 'y', 's'] {
        Some(86400u64)
    } else if u =~= seq!['w'] || u =~= seq!['w', 'e', 'e', 'k'] || u =~= seq![
        'w',
        'e',
        'e',
        'k',
        's',
    ] {
        Some(604800u64)
    } else if u =~= seq!['m', 'o'] || u =~= seq!['m', 'o', 'n', 't', 'h'] || u =~= seq![
        'm',
        'o',
        'n',
        't',
        'h',
        's',
    ] {
        Some(2629746u64)
    } else if u =~= seq!['y'] || u =~= seq!['y', 'e', 'a', 'r'] || u =~= seq![
        'y',
        'e',
        'a',
        'r',
        's',
    ] {
        Some(31556952u64)
    } else {
        None
    }
}

/// What parsing a duration token yields, for every token.
pub open spec fn spec_parse(s: Seq<char>) -> Result<Duration, ParseError> {
    if s.len() == 0 {
        Err(ParseError::Empty)
    } else {
        let dl = digits_len(s);
        if dl == 0 {
            Err(ParseError::NoMagnitude)
        } else if dl == s.len() {
            Err(ParseError::NoUnit)
        } else {
            match unit_secs(s.skip(dl)) {
                Option::None => Err(ParseError::UnknownUnit),
                Option::Some(u) => {
                    let v = digits_val(s.take(dl)) * u;
                    if v > u64::MAX {
                        Err(ParseError::Overflow)
                    } else {
                        Ok(Duration { secs: v as u64 })
                    }
                },
            }
        }
    }
}

/// The leading digit run ends exactly at the first non-digit.
proof fn lemma_digits_len_at(s: Seq<char>, i: int)
    requires
        0 <= i <= s.len(),
        forall|k: int| 0 <= k < i ==> is_digit(s[k]),
        i < s.len() ==> !is_digit(s[i]),
    ensures
        digits_len(s) == i,
    decreases i,
{
    if i > 0 {
        lemma_digits_len_at(s.drop_first(), i - 1);
    }
}

/// A digit run is worth at least its prefix: reading further digits never
/// shrinks the value.
proof fn lemma_digits_val_monotone(s: Seq<char>, k: int, j: int)
    requires
        0 <= k <= j <= s.len(),
        forall|i: int| 0 <= i < j ==> is_digit(s[i]),
    ensures
        0 <= digits_val(s.take(k)) <= digits_val(s.take(j)),
    decreases j - k,
{
    lemma_digits_val_nonneg(s.take(k));
    if k < j {
        lemma_digits_val_monotone(s, k + 1, j);
        assert(s.take(k + 1).drop_last() =~= s.take(k));
        assert(digits_val(s.take(k + 1)) == digits_val(s.take(k)) * 10 + digit_val(s[k]));
    }
}

proof fn lemma_digits_val_nonneg(s: Seq<char>)
    requires
        forall|i: int| 0 <= i < s.len() ==> is_digit(s[i]),
    ensures
        digits_val(s) >= 0,
    decreases s.len(),
{
    if s.len() > 0 {
        lemma_digits_val_nonneg(s.drop_last());
    }
}

fn digit_at(s: &str, i: usize) -> (r: bool)
    requires
        i < s@.len(),
    ensures
        r == is_digit(s@[i as int]),
{
    let u = s.get_char(i) as u32;
    48 <= u && u <= 57
}

fn unit_secs_exec(u: &Vec<char>) -> (r: Option<u64>)
    ensures
        r == unit_secs(u@),
{
    let n = u.len();
    if n == 1 {
        let c = u[0];
        if c == 's' {
            Some(1)
        } else if c == 'm' {
            Some(60)
        } else if c == 'h' {
            Some(3600)
        } else if c == 'd' {
            Some(86400)
        } else if c == 'w' {
            Some(604800)
        } else if c == 'y' {
            Some(31556952)
        } else {
            None
        }
    } else if n == 2 {
        if u[0] == 'm' && u[1] == 'o' {
            Some(2629746)
        } else {
            None
        }
    } else if n == 3 {
        if u[0] == 'd' && u[1] == 'a' && u[2] == 'y' {
            Some(86400)
        } else {
            None
        }
    } else if n == 4 {
        if u[0] == 'h' && u[1] == 'o' && u[2] == 'u' && u[3] == 'r' {
            Some(3600)
        } else if u[0] == 'w' && u[1] == 'e' && u[2] == 'e' && u[3] == 'k' {
            Some(604800)
        } else if u[0] == 'y' && u[1] == 'e' && u[2] == 'a' && u[3] == 'r' {
            Some(31556952)
        } else if u[0] == 'd' && u[1] == 'a' && u[2] == 'y' && u[3] == 's' {
            Some(86400)
        } else {
            None
        }
    } else if n == 5 {
        if u[0] == 'm' && u[1] == 'o' && u[2] == 'n' && u[3] == 't' && u[4] == 'h' {
            Some(2629746)
        } else if u[0] == 'h' && u[1] == 'o' && u[2] == 'u' && u[3] == 'r' && u[4] == 's' {
            Some(3600)
        } else if u[0] == 'w' && u[1] == 'e' && u[2] == 'e' && u[3] == 'k' && u[4] == 's' {
            Some(604800)
        } else if u[0] == 'y' && u[1] == 'e' && u[2] == 'a' && u[3] == 'r' && u[4] == 's' {
            Some(31556952)
        } else {
            None
        }
    } else if n == 6 {
        if u[0] == 's' && u[1] == 'e' && u[2] == 'c' && u[3] == 'o' && u[4] == 'n' && u[5] == 'd' {
            Some(1)
        } else if u[0] == 'm' && u[1] == 'i' && u[2] == 'n' && u[3] == 'u' && u[4] == 't' && u[5]
            == 'e' {
            Some(60)
        } else if u[0] == 'm' && u[1] == 'o' && u[2] == 'n' && u[3] == 't' && u[4] == 'h' && u[5]
            == 's' {
            Some(2629746)
        } else {
            None
        }
    } else if n == 7 {
        if u[0] == 's' && u[1] == 'e' && u[2] == 'c' && u[3] == 'o' && u[4] == 'n' && u[5] == 'd'
            && u[6] == 's' {
            Some(1)
        } else if u[0] == 'm' && u[1] == 'i' && u[2] == 'n' && u[3] == 'u' && u[4] == 't' && u[5]
            == 'e' && u[6] == 's' {
            Some(60)
        } else {
            None
        }
    } else {
        None
    }
}

/// Parses a duration token. Succeeds exactly on a digit run followed by a
/// known unit whose total seconds fit a duration; each rejection is named.
pub fn parse(s: &str) -> (r: Result<Duration, ParseError>)
    ensures
        r == spec_parse(s@),
{
    let n = s.unicode_len();
    if n == 0 {
        return Err(ParseError::Empty);
    }
    let mut dl: usize = 0;
    while dl < n && digit_at(s, dl)
        invariant
            0 <= dl <= n == s@.len(),
            forall|k: int| 0 <= k < dl ==> is_digit(s@[k]),
        decreases n - dl,
    {
        dl = dl + 1;
    }
    proof {
        lemma_digits_len_at(s@, dl as int);
    }
    if dl == 0 {
        return Err(ParseError::NoMagnitude);
    }
    if dl == n {
        return Err(ParseError::NoUnit);
    }
    let mut unit_chars: Vec<char> = Vec::new();
    let mut k: usize = dl;
    while k < n
        invariant
            dl <= k <= n == s@.len(),
            unit_chars@ =~= s@.subrange(dl as int, k as int),
        decreases n - k,
    {
        unit_chars.push(s.get_char(k));
        k = k + 1;
    }
    proof {
        assert(unit_chars@ =~= s@.skip(dl as int));
    }
    let unit = match unit_secs_exec(&unit_chars) {
        None => {
            return Err(ParseError::UnknownUnit);
        },
        Some(u) => u,
    };
    let mut acc: u64 = 0;
    let mut i: usize = 0;
    while i < dl
        invariant
            0 <= i <= dl <= s@.len(),
            forall|k2: int| 0 <= k2 < dl ==> is_digit(s@[k2]),
            acc == digits_val(s@.take(i as int)),
            unit_secs(s@.skip(dl as int)) == Some(unit),
            dl == digits_len(s@),
            1 <= unit,
            0 < dl < s@.len(),
        decreases dl - i,
    {
        let c = s.get_char(i);
        let d: u64 = (c as u32 - 48) as u64;
        proof {
            assert(s@.take(i + 1).drop_last() =~= s@.take(i as int));
            assert(digits_val(s@.take(i + 1)) == digits_val(s@.take(i as int)) * 10 + digit_val(
                s@[i as int],
            ));
        }
        if acc > (u64::MAX - d) / 10 {
            proof {
                lemma_digits_val_monotone(s@, i + 1, dl as int);
                assert(digits_val(s@.take(dl as int)) * unit > u64::MAX) by (nonlinear_arith)
                    requires
                        digits_val(s@.take(dl as int)) > u64::MAX,
                        unit >= 1,
                ;
            }
            return Err(ParseError::Overflow);
        }
        acc = acc * 10 + d;
        i = i + 1;
    }
    proof {
        assert((acc as int) * (unit as int) <= (u64::MAX as int) * (u64::MAX as int))
            by (nonlinear_arith)
            requires
                0 <= acc as int <= u64::MAX as int,
                0 <= unit as int <= u64::MAX as int,
        ;
    }
    let total: u128 = (acc as u128) * (unit as u128);
    if total > u64::MAX as u128 {
        return Err(ParseError::Overflow);
    }
    Ok(Duration { secs: total as u64 })
}

} // verus!
