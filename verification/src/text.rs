//! Character-level text handling: decimal numbers as Rust's `str::parse`
//! reads them for unsigned types, with the kind of error it reports.
use vstd::prelude::*;

verus! {

/// The errors that `str::parse` reports for an unsigned integer type.
#[derive(PartialEq, Eq, Structural, Clone, Copy, Debug)]
pub enum IntErrorKind {
    /// The text is empty.
    Empty,
    /// A character is not a decimal digit, or the text is a lone `+`.
    InvalidDigit,
    /// The number is larger than the type holds.
    PosOverflow,
}

/// The text with which std's `ParseIntError` describes each kind.
pub open spec fn spec_int_error_message(k: IntErrorKind) -> Seq<char> {
    match k {
        IntErrorKind::Empty => "cannot parse integer from empty string"@,
        IntErrorKind::InvalidDigit => "invalid digit found in string"@,
        IntErrorKind::PosOverflow => "number too large to fit in target type"@,
    }
}

impl IntErrorKind {
    /// The text that describes this kind of error.
    pub fn message(&self) -> (m: &'static str)
        ensures
            m@ == spec_int_error_message(*self),
    {
        match self {
            IntErrorKind::Empty => "cannot parse integer from empty string",
            IntErrorKind::InvalidDigit => "invalid digit found in string",
            IntErrorKind::PosOverflow => "number too large to fit in target type",
        }
    }
}

/// Whether `c` is an ASCII decimal digit.
pub open spec fn is_digit(c: char) -> bool {
    '0' <= c && c <= '9'
}

/// Value of an ASCII decimal digit.
pub open spec fn digit_value(c: char) -> nat {
    (c as int - '0' as int) as nat
}

/// Whether every character of `s` is an ASCII decimal digit.
pub open spec fn all_digits(s: Seq<char>) -> bool {
    forall|i: int| 0 <= i < s.len() ==> #[trigger] is_digit(s[i])
}

/// Value of the decimal numeral `s` (most significant digit first).
pub open spec fn digits_value(s: Seq<char>) -> nat
    decreases s.len(),
{
    if s.len() == 0 {
        0
    } else {
        digits_value(s.drop_last()) * 10 + digit_value(s.last())
    }
}

/// Number of decimal digits at the start of `s`.
pub open spec fn digit_prefix_len(s: Seq<char>) -> nat
    decreases s.len(),
{
    if s.len() > 0 && is_digit(s[0]) {
        1 + digit_prefix_len(s.drop_first())
    } else {
        0
    }
}

/// What `str::parse` gives for an unsigned integer type whose largest value
/// is `max`. Empty text is `Empty`; an optional leading `+` is dropped, and
/// a lone `+` is an invalid digit. The digits are then read from the left
/// and the first fault decides: the number outgrowing `max` (its leading
/// digits already exceed `max`) or a character that is not a digit.
pub open spec fn parse_unsigned(s: Seq<char>, max: nat) -> Result<nat, IntErrorKind> {
    let body = if s.len() > 0 && s[0] == '+' {
        s.drop_first()
    } else {
        s
    };
    let k = digit_prefix_len(body) as int;
    if s.len() == 0 {
        Err(IntErrorKind::Empty)
    } else if body.len() == 0 {
        Err(IntErrorKind::InvalidDigit)
    } else if digits_value(body.subrange(0, k)) > max {
        Err(IntErrorKind::PosOverflow)
    } else if k < body.len() {
        Err(IntErrorKind::InvalidDigit)
    } else {
        Ok(digits_value(body))
    }
}

/// The leading digits of `s` are digits, and the character after them is not.
proof fn lemma_digit_prefix_len(s: Seq<char>)
    ensures
        digit_prefix_len(s) <= s.len(),
        forall|j: int| 0 <= j < digit_prefix_len(s) ==> #[trigger] is_digit(s[j]),
        digit_prefix_len(s) < s.len() ==> !is_digit(s[digit_prefix_len(s) as int]),
    decreases s.len(),
{
    if s.len() > 0 && is_digit(s[0]) {
        let t = s.drop_first();
        lemma_digit_prefix_len(t);
        assert forall|j: int| 0 <= j < digit_prefix_len(s) implies #[trigger] is_digit(s[j]) by {
            if j > 0 {
                assert(s[j] == t[j - 1]);
            }
        }
        if digit_prefix_len(s) < s.len() {
            assert(s[digit_prefix_len(s) as int] == t[digit_prefix_len(t) as int]);
        }
    }
}

/// A numeral's value is at least the value of any of its prefixes.
pub proof fn lemma_digits_value_prefix(s: Seq<char>, k: int)
    requires
        0 <= k <= s.len(),
        all_digits(s),
    ensures
        digits_value(s.subrange(0, k)) <= digits_value(s),
    decreases s.len() - k,
{
    if k < s.len() {
        lemma_digits_value_prefix(s, k + 1);
        let p = s.subrange(0, k + 1);
        assert(p.drop_last() == s.subrange(0, k));
        assert(digits_value(p) == digits_value(s.subrange(0, k)) * 10 + digit_value(p.last()));
    } else {
        assert(s.subrange(0, k) == s);
    }
}

/// Reads the characters `s[start..end]` as `str::parse` reads a number of an
/// unsigned type whose largest value is `max`.
pub fn parse_unsigned_span(s: &str, start: usize, end: usize, max: u64) -> (r: Result<u64, IntErrorKind>)
    requires
        start <= end <= s@.len(),
    ensures
        match r {
            Ok(v) => v <= max && parse_unsigned(s@.subrange(start as int, end as int), max as nat) == Ok::<
                nat,
                IntErrorKind,
            >(v as nat),
            Err(e) => parse_unsigned(s@.subrange(start as int, end as int), max as nat) == Err::<nat, IntErrorKind>(
                e,
            ),
        },
{
    let ghost whole = s@.subrange(start as int, end as int);
    if start == end {
        return Err(IntErrorKind::Empty);
    }
    let mut first = start;
    if s.get_char(start) == '+' {
        first = start + 1;
    }
    let ghost body = s@.subrange(first as int, end as int);
    assert(body == (if whole.len() > 0 && whole[0] == '+' { whole.drop_first() } else { whole }));
    if first == end {
        return Err(IntErrorKind::InvalidDigit);
    }
    proof {
        lemma_digit_prefix_len(body);
    }
    let ghost p = digit_prefix_len(body) as int;
    let mut value: u64 = 0;
    let mut i = first;
    while i < end
        invariant
            first < end <= s@.len(),
            first <= i <= end,
            whole.len() > 0,
            body == s@.subrange(first as int, end as int),
            whole == s@.subrange(start as int, end as int),
            body == (if whole.len() > 0 && whole[0] == '+' { whole.drop_first() } else { whole }),
            all_digits(body.subrange(0, i - first)),
            value as nat == digits_value(body.subrange(0, i - first)),
            value <= max,
            p == digit_prefix_len(body) as int,
            p <= body.len(),
            forall|j: int| 0 <= j < p ==> #[trigger] is_digit(body[j]),
            p < body.len() ==> !is_digit(body[p]),
        decreases end - i,
    {
        let c = s.get_char(i);
        let ghost k = i - first;
        assert(body[k] == c);
        if !('0' <= c && c <= '9') {
            proof {
                if p > k {
                    assert(is_digit(body[k]));
                }
                if p < k {
                    assert(body.subrange(0, k)[p] == body[p]);
                    assert(is_digit(body.subrange(0, k)[p]));
                }
                assert(body.subrange(0, p) == body.subrange(0, k));
            }
            return Err(IntErrorKind::InvalidDigit);
        }
        let d = (c as u32 - '0' as u32) as u64;
        assert(body.subrange(0, k + 1).drop_last() == body.subrange(0, k));
        assert forall|j: int| 0 <= j < k + 1 implies #[trigger] is_digit(body.subrange(0, k + 1)[j]) by {
            if j < k {
                assert(body.subrange(0, k + 1)[j] == body.subrange(0, k)[j]);
            }
        }
        let n: u128 = value as u128 * 10 + d as u128;
        if n > max as u128 {
            proof {
                if p <= k {
                    assert(body.subrange(0, k + 1)[p] == body[p]);
                }
                assert(p >= k + 1);
                let q = body.subrange(0, p);
                assert(all_digits(q)) by {
                    assert forall|j: int| 0 <= j < q.len() implies #[trigger] is_digit(q[j]) by {
                        assert(q[j] == body[j]);
                    }
                }
                lemma_digits_value_prefix(q, k + 1);
                assert(q.subrange(0, k + 1) == body.subrange(0, k + 1));
            }
            return Err(IntErrorKind::PosOverflow);
        }
        value = n as u64;
        i = i + 1;
    }
    proof {
        assert(body.subrange(0, end - first) == body);
        if p < body.len() {
            assert(is_digit(body[p]));
        }
        assert(body.subrange(0, p) == body);
    }
    Ok(value)
}

/// Reads `s` as `str::parse::<usize>` does.
pub fn parse_usize(s: &str) -> (r: Result<usize, IntErrorKind>)
    ensures
        match r {
            Ok(v) => parse_unsigned(s@, usize::MAX as nat) == Ok::<nat, IntErrorKind>(v as nat),
            Err(e) => parse_unsigned(s@, usize::MAX as nat) == Err::<nat, IntErrorKind>(e),
        },
{
    let n = s.unicode_len();
    assert(s@.subrange(0, n as int) == s@);
    match parse_unsigned_span(s, 0, n, usize::MAX as u64) {
        Ok(v) => Ok(v as usize),
        Err(e) => Err(e),
    }
}

/// A decimal numeral (digits only, at least one) whose value is at most
/// `max` parses to its value.
pub proof fn law_numeral_parses(s: Seq<char>, max: nat)
    requires
        s.len() > 0,
        all_digits(s),
        digits_value(s) <= max,
    ensures
        parse_unsigned(s, max) == Ok::<nat, IntErrorKind>(digits_value(s)),
{
    lemma_digit_prefix_len(s);
    let p = digit_prefix_len(s) as int;
    if p < s.len() {
        assert(is_digit(s[p]));
    }
    assert(s.subrange(0, p) == s);
    assert(is_digit(s[0]));
}

/// What parses fits the type: a parsed value is never above `max`.
pub proof fn law_parsed_value_fits(s: Seq<char>, max: nat)
    ensures
        parse_unsigned(s, max) is Ok ==> parse_unsigned(s, max)->Ok_0 <= max,
{
    let body = if s.len() > 0 && s[0] == '+' {
        s.drop_first()
    } else {
        s
    };
    lemma_digit_prefix_len(body);
    assert(body.subrange(0, body.len() as int) == body);
}

} // verus!
