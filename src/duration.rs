//! Interval specifications: an unsigned decimal magnitude followed by exactly
//! one unit letter, `m` for minutes or `h` for hours.
use vstd::prelude::*;

verus! {

/// The unit letter that ends an interval specification.
#[derive(Clone, Copy, Debug, PartialEq, Eq, Structural)]
pub enum Unit {
    Minutes,
    Hours,
}

impl Unit {
    /// Seconds in one unit.
    pub open spec fn spec_seconds(self) -> nat {
        match self {
            Unit::Minutes => 60,
            Unit::Hours => 3600,
        }
    }

    pub fn seconds(self) -> (r: u64)
        ensures
            r == self.spec_seconds(),
    {
        match self {
            Unit::Minutes => 60,
            Unit::Hours => 3600,
        }
    }
}

/// The unit a letter stands for, if any.
pub open spec fn unit_of(c: char) -> Option<Unit> {
    if c == 'm' {
        Some(Unit::Minutes)
    } else if c == 'h' {
        Some(Unit::Hours)
    } else {
        None
    }
}

pub open spec fn is_digit(c: char) -> bool {
    '0' <= c && c <= '9'
}

pub open spec fn digit_value(c: char) -> nat {
    if is_digit(c) {
        (c as int - '0' as int) as nat
    } else {
        0
    }
}

pub open spec fn all_digits(s: Seq<char>) -> bool {
    forall|i: int| 0 <= i < s.len() ==> is_digit(#[trigger] s[i])
}

/// The value of a string of decimal digits, most significant first.
pub open spec fn decimal_value(s: Seq<char>) -> nat
    decreases s.len(),
{
    if s.len() == 0 {
        0
    } else {
        decimal_value(s.drop_last()) * 10 + digit_value(s.last())
    }
}

/// One or more decimal digits whose value fits in an unsigned 64-bit integer.
pub open spec fn is_magnitude(s: Seq<char>) -> bool {
    &&& s.len() > 0
    &&& all_digits(s)
    &&& decimal_value(s) <= u64::MAX
}

/// The unit named by the last character, if there is one and it is a unit letter.
pub open spec fn unit_suffix(raw: Seq<char>) -> Option<Unit> {
    if raw.len() == 0 {
        None
    } else {
        unit_of(raw.last())
    }
}

/// A well-formed interval specification: a magnitude, then a unit letter.
pub open spec fn is_interval_spec(raw: Seq<char>) -> bool {
    unit_suffix(raw) is Some && is_magnitude(raw.drop_last())
}

/// The number of seconds a well-formed specification stands for.
pub open spec fn interval_seconds(raw: Seq<char>) -> nat {
    decimal_value(raw.drop_last()) * unit_suffix(raw)->0.spec_seconds()
}

/// A whole number of seconds.
#[derive(Clone, Copy, Debug, PartialEq, Eq, Structural)]
pub struct TimeSpan {
    secs: u128,
}

impl View for TimeSpan {
    type V = nat;

    closed spec fn view(&self) -> nat {
        self.secs as nat
    }
}

impl TimeSpan {
    pub fn from_secs(secs: u128) -> (r: TimeSpan)
        ensures
            r@ == secs,
    {
        TimeSpan { secs }
    }

    pub fn as_secs(&self) -> (r: u128)
        ensures
            r == self@,
    {
        self.secs
    }
}

/// Why an interval specification was rejected. Each variant keeps the name of
/// the option it was given for and the text as it was given.
#[derive(Debug, PartialEq, Eq)]
pub enum ParseError {
    /// The text does not end in `m` or `h`.
    InvalidUnit { field: String, raw: String },
    /// The text before the unit letter is not an unsigned 64-bit decimal number.
    InvalidNumber { field: String, raw: String },
}

impl ParseError {
    pub open spec fn spec_field(&self) -> Seq<char> {
        match self {
            ParseError::InvalidUnit { field, .. } => field@,
            ParseError::InvalidNumber { field, .. } => field@,
        }
    }

    pub open spec fn spec_raw(&self) -> Seq<char> {
        match self {
            ParseError::InvalidUnit { raw, .. } => raw@,
            ParseError::InvalidNumber { raw, .. } => raw@,
        }
    }

    pub fn field(&self) -> (r: &str)
        ensures
            r@ == self.spec_field(),
    {
        match self {
            ParseError::InvalidUnit { field, .. } => field.as_str(),
            ParseError::InvalidNumber { field, .. } => field.as_str(),
        }
    }

    pub fn raw(&self) -> (r: &str)
        ensures
            r@ == self.spec_raw(),
    {
        match self {
            ParseError::InvalidUnit { raw, .. } => raw.as_str(),
            ParseError::InvalidNumber { raw, .. } => raw.as_str(),
        }
    }
}

/// A prefix of a digit string never has a larger value than the whole string.
proof fn lemma_decimal_prefix_le(s: Seq<char>, k: int)
    requires
        0 <= k <= s.len(),
    ensures
        decimal_value(s.take(k)) <= decimal_value(s),
    decreases s.len(),
{
    if k == s.len() {
        assert(s.take(k) =~= s);
    } else {
        lemma_decimal_prefix_le(s.drop_last(), k);
        assert(s.drop_last().take(k) =~= s.take(k));
    }
}

/// Reads a magnitude: `None` unless the text is one or more decimal digits
/// whose value fits in 64 bits.
pub fn parse_magnitude(digits: &str) -> (r: Option<u64>)
    ensures
        r is Some <==> is_magnitude(digits@),
        r matches Some(v) ==> v == decimal_value(digits@),
{
    let n = digits.unicode_len();
    if n == 0 {
        return None;
    }
    let mut acc: u64 = 0;
    let mut i: usize = 0;
    while i < n
        invariant
            n == digits@.len(),
            0 <= i <= n,
            all_digits(digits@.take(i as int)),
            acc == decimal_value(digits@.take(i as int)),
        decreases n - i,
    {
        let c = digits.get_char(i);
        assert(digits@.take(i + 1).drop_last() =~= digits@.take(i as int));
        assert(digits@.take(i + 1).last() == c);
        if !('0' <= c && c <= '9') {
            assert(!is_digit(digits@[i as int]));
            return None;
        }
        let d: u64 = (c as u32 - '0' as u32) as u64;
        assert(d == digit_value(c));
        if acc > (u64::MAX - d) / 10 {
            proof {
                assert(decimal_value(digits@.take(i + 1)) > u64::MAX) by (nonlinear_arith)
                    requires
                        acc > (u64::MAX - d) / 10,
                        decimal_value(digits@.take(i + 1)) == acc * 10 + d,
                        d <= 9,
                ;
                lemma_decimal_prefix_le(digits@, i + 1);
            }
            return None;
        }
        proof {
            assert(acc * 10 + d <= u64::MAX) by (nonlinear_arith)
                requires
                    acc <= (u64::MAX - d) / 10,
                    d <= 9,
            ;
        }
        acc = acc * 10 + d;
        i += 1;
        assert(all_digits(digits@.take(i as int))) by {
            assert forall|j: int| 0 <= j < i implies is_digit(#[trigger] digits@.take(i as int)[j]) by {
                if j < i - 1 {
                    assert(digits@.take(i as int)[j] == digits@.take(i - 1)[j]);
                }
            }
        }
    }
    assert(digits@.take(n as int) =~= digits@);
    Some(acc)
}


impl ParseError {
    /// The text a user sees for this error.
    pub open spec fn spec_message(&self) -> Seq<char> {
        match self {
            ParseError::InvalidUnit { field, raw } => "Invalid value for --"@ + field@ + "='"@
                + raw@ + "': only 'm' (minutes) or 'h' (hours) are allowed"@,
            ParseError::InvalidNumber { field, raw } => "Could not parse --"@ + field@ + "='"@
                + raw@ + "': invalid number"@,
        }
    }

    pub fn message(&self) -> (r: String)
        ensures
            r@ == self.spec_message(),
    {
        match self {
            ParseError::InvalidUnit { field, raw } => {
                let mut m = String::from_str("Invalid value for --");
                m.append(field.as_str());
                m.append("='");
                m.append(raw.as_str());
                m.append("': only 'm' (minutes) or 'h' (hours) are allowed");
                m
            },
            ParseError::InvalidNumber { field, raw } => {
                let mut m = String::from_str("Could not parse --");
                m.append(field.as_str());
                m.append("='");
                m.append(raw.as_str());
                m.append("': invalid number");
                m
            },
        }
    }
}

fn unit_letter(c: char) -> (r: Option<Unit>)
    ensures
        r == unit_of(c),
{
    if c == 'm' {
        Some(Unit::Minutes)
    } else if c == 'h' {
        Some(Unit::Hours)
    } else {
        None
    }
}

/// Turns an interval specification such as `20m` or `1h` into a span of whole
/// seconds. `field` names the option the text was given for; an error keeps it
/// together with the text.
pub fn parse(raw: &str, field: &str) -> (r: Result<TimeSpan, ParseError>)
    ensures
        r is Ok <==> is_interval_spec(raw@),
        r matches Ok(span) ==> span@ == interval_seconds(raw@),
        r matches Err(e) ==> e.spec_field() == field@ && e.spec_raw() == raw@,
        r matches Err(e) ==> (e is InvalidUnit <==> unit_suffix(raw@) is None),
{
    let n = raw.unicode_len();
    let unit = if n == 0 {
        None
    } else {
        unit_letter(raw.get_char(n - 1))
    };
    match unit {
        None => Err(ParseError::InvalidUnit { field: field.to_owned(), raw: raw.to_owned() }),
        Some(u) => {
            let digits = raw.substring_char(0, n - 1);
            assert(digits@ =~= raw@.drop_last());
            match parse_magnitude(digits) {
                None => Err(
                    ParseError::InvalidNumber { field: field.to_owned(), raw: raw.to_owned() },
                ),
                Some(v) => {
                    let per = u.seconds();
                    assert(v as u128 * per as u128 <= u64::MAX as u128 * 3600) by (nonlinear_arith)
                        requires
                            per <= 3600,
                    ;
                    Ok(TimeSpan { secs: v as u128 * per as u128 })
                },
            }
        },
    }
}


/// A magnitude `n` followed by `m` is a well-formed specification of exactly
/// `n * 60` seconds, and followed by `h` one of exactly `n * 3600` seconds.
pub proof fn lemma_unit_scaling(digits: Seq<char>)
    requires
        is_magnitude(digits),
    ensures
        is_interval_spec(digits.push('m')),
        interval_seconds(digits.push('m')) == decimal_value(digits) * 60,
        is_interval_spec(digits.push('h')),
        interval_seconds(digits.push('h')) == decimal_value(digits) * 3600,
{
    assert(digits.push('m').drop_last() =~= digits);
    assert(digits.push('h').drop_last() =~= digits);
}

} // verus!
