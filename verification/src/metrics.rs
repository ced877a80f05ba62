//! System metrics: whether the NNAPI accelerator was registered, and the
//! CPU time counters of `/proc/stat` from which CPU usage is derived.
use vstd::prelude::*;
use crate::text::{all_digits, digits_value, law_numeral_parses, law_parsed_value_fits, parse_unsigned, parse_unsigned_span};

verus! {

/// Whether the NNAPI execution provider was registered when the model's
/// sessions were created.
pub struct NnapiStatus {
    pub registered: bool,
}

impl NnapiStatus {
    /// Nothing registered yet.
    pub fn new() -> (s: Self)
        ensures
            !s.registered,
    {
        NnapiStatus { registered: false }
    }
}

/// Records whether NNAPI registration succeeded.
pub fn set_nnapi_registered(status: &mut NnapiStatus, registered: bool)
    ensures
        final(status).registered == registered,
{
    status.registered = registered;
}

/// Whether NNAPI is available, i.e. was registered.
pub fn check_nnapi_available(status: &NnapiStatus) -> (available: bool)
    ensures
        available == status.registered,
{
    status.registered
}

// ---------------------------------------------------------------------------
// /proc/stat
// ---------------------------------------------------------------------------

/// `char::is_whitespace`: the Unicode `White_Space` characters.
pub open spec fn is_whitespace(c: char) -> bool {
    ||| '\u{9}' <= c <= '\u{D}'
    ||| c == ' '
    ||| c == '\u{85}'
    ||| c == '\u{A0}'
    ||| c == '\u{1680}'
    ||| '\u{2000}' <= c <= '\u{200A}'
    ||| c == '\u{2028}'
    ||| c == '\u{2029}'
    ||| c == '\u{202F}'
    ||| c == '\u{205F}'
    ||| c == '\u{3000}'
}

/// Index of the first `\n` at or after `i`, or the length when there is none.
pub open spec fn line_end_from(s: Seq<char>, i: nat) -> nat
    decreases s.len() - i,
{
    if i >= s.len() || s[i as int] == '\n' {
        i
    } else {
        line_end_from(s, i + 1)
    }
}

/// The first item of `str::lines`: `None` for empty text; otherwise the text
/// up to the first `\n`, without a `\r` that stands right before that `\n`.
pub open spec fn first_line(s: Seq<char>) -> Option<Seq<char>> {
    if s.len() == 0 {
        None
    } else {
        let e = line_end_from(s, 0);
        let line = s.subrange(0, e as int);
        if e < s.len() && e > 0 && line.last() == '\r' {
            Some(line.drop_last())
        } else {
            Some(line)
        }
    }
}

/// End of the run of non-whitespace characters that starts at `i`.
pub open spec fn token_end(s: Seq<char>, i: nat) -> nat
    decreases s.len() - i,
{
    if i >= s.len() || is_whitespace(s[i as int]) {
        i
    } else {
        token_end(s, i + 1)
    }
}

/// A token ends at or after where it starts, and not past the text.
pub proof fn lemma_token_end_bounds(s: Seq<char>, i: nat)
    ensures
        i <= token_end(s, i),
        i <= s.len() ==> token_end(s, i) <= s.len(),
        i < s.len() && !is_whitespace(s[i as int]) ==> i < token_end(s, i),
    decreases s.len() - i,
{
    if i < s.len() && !is_whitespace(s[i as int]) {
        lemma_token_end_bounds(s, i + 1);
    }
}

/// `str::split_whitespace` of `s[i..]`: the maximal runs of
/// non-whitespace characters, in order.
pub open spec fn tokens_from(s: Seq<char>, i: nat) -> Seq<Seq<char>>
    decreases s.len() - i,
{
    if i >= s.len() {
        Seq::empty()
    } else if is_whitespace(s[i as int]) {
        tokens_from(s, i + 1)
    } else {
        let e = token_end(s, i);
        proof {
            lemma_token_end_bounds(s, i);
        }
        seq![s.subrange(i as int, e as int)] + tokens_from(s, e)
    }
}

/// The CPU time counters of the aggregate `cpu` line, in clock ticks.
#[derive(PartialEq, Eq, Structural, Clone, Copy, Debug)]
pub struct CpuTimes {
    pub user: u64,
    pub nice: u64,
    pub system: u64,
    pub idle: u64,
    pub iowait: u64,
    pub irq: u64,
    pub softirq: u64,
}

/// Field `i` of the line read as a number; a missing or unreadable field
/// counts as 0.
pub open spec fn field_or_zero(parts: Seq<Seq<char>>, i: int) -> u64 {
    if i < parts.len() {
        match parse_unsigned(parts[i], u64::MAX as nat) {
            Ok(v) => v as u64,
            Err(_) => 0,
        }
    } else {
        0
    }
}

/// The counters that the first line of `/proc/stat` gives: it must have at
/// least five whitespace-separated fields, the first being `cpu`; the
/// counters `iowait`, `irq` and `softirq` may be missing.
pub open spec fn spec_cpu_times(stat: Seq<char>) -> Option<CpuTimes> {
    match first_line(stat) {
        None => None,
        Some(line) => {
            let parts = tokens_from(line, 0);
            if parts.len() >= 5 && parts[0] == "cpu"@ {
                Some(
                    CpuTimes {
                        user: field_or_zero(parts, 1),
                        nice: field_or_zero(parts, 2),
                        system: field_or_zero(parts, 3),
                        idle: field_or_zero(parts, 4),
                        iowait: field_or_zero(parts, 5),
                        irq: field_or_zero(parts, 6),
                        softirq: field_or_zero(parts, 7),
                    },
                )
            } else {
                None
            }
        },
    }
}

/// Sum of all counters, wrapping around at 2^64 as release builds do.
pub open spec fn spec_total(t: CpuTimes) -> u64 {
    let a = vstd::wrapping::u64_specs::wrapping_add(t.user, t.nice);
    let b = vstd::wrapping::u64_specs::wrapping_add(a, t.system);
    let c = vstd::wrapping::u64_specs::wrapping_add(b, t.idle);
    let d = vstd::wrapping::u64_specs::wrapping_add(c, t.iowait);
    let e = vstd::wrapping::u64_specs::wrapping_add(d, t.irq);
    vstd::wrapping::u64_specs::wrapping_add(e, t.softirq)
}

/// Idle time: `idle` plus `iowait`, wrapping around at 2^64.
pub open spec fn spec_idle_total(t: CpuTimes) -> u64 {
    vstd::wrapping::u64_specs::wrapping_add(t.idle, t.iowait)
}

impl CpuTimes {
    /// All ticks spent, and the idle ticks among them.
    pub fn totals(&self) -> (r: (u64, u64))
        ensures
            r.0 == spec_total(*self),
            r.1 == spec_idle_total(*self),
    {
        let total = self.user.wrapping_add(self.nice).wrapping_add(self.system).wrapping_add(self.idle)
            .wrapping_add(self.iowait).wrapping_add(self.irq).wrapping_add(self.softirq);
        (total, self.idle.wrapping_add(self.iowait))
    }
}

/// What a new sample of the counters says about CPU usage.
#[derive(PartialEq, Eq, Structural, Clone, Copy, Debug)]
pub enum CpuReading {
    /// No earlier sample to compare with; usage is reported as 0.
    FirstSample,
    /// No ticks passed since the last sample; usage cannot be told.
    Unavailable,
    /// Ticks passed since the last sample, and the idle ticks among them.
    Delta { total: u64, idle: u64 },
}

/// The totals of the previous sample (0 before the first).
pub struct CpuTracker {
    pub prev_total: u64,
    pub prev_idle: u64,
}

/// The reading a new sample gives against the previous one.
pub open spec fn spec_cpu_reading(prev_total: u64, prev_idle: u64, total: u64, idle: u64) -> CpuReading {
    if prev_total > 0 {
        let dt = if total >= prev_total { (total - prev_total) as u64 } else { 0u64 };
        let di = if idle >= prev_idle { (idle - prev_idle) as u64 } else { 0u64 };
        if dt > 0 {
            CpuReading::Delta { total: dt, idle: di }
        } else {
            CpuReading::Unavailable
        }
    } else {
        CpuReading::FirstSample
    }
}

impl CpuTracker {
    /// No sample taken yet.
    pub fn new() -> (t: Self)
        ensures
            t.prev_total == 0,
            t.prev_idle == 0,
    {
        CpuTracker { prev_total: 0, prev_idle: 0 }
    }

    /// Takes a new sample: compares it with the previous one (differences
    /// saturate at 0) and keeps it for the next call.
    pub fn update(&mut self, total: u64, idle: u64) -> (r: CpuReading)
        ensures
            r == spec_cpu_reading(old(self).prev_total, old(self).prev_idle, total, idle),
            final(self).prev_total == total,
            final(self).prev_idle == idle,
    {
        let prev_total = self.prev_total;
        let prev_idle = self.prev_idle;
        self.prev_total = total;
        self.prev_idle = idle;
        if prev_total > 0 {
            let dt = total.saturating_sub(prev_total);
            let di = idle.saturating_sub(prev_idle);
            if dt > 0 {
                CpuReading::Delta { total: dt, idle: di }
            } else {
                CpuReading::Unavailable
            }
        } else {
            CpuReading::FirstSample
        }
    }
}

/// Whether `c` is a Unicode `White_Space` character.
pub fn is_whitespace_char(c: char) -> (b: bool)
    ensures
        b == is_whitespace(c),
{
    ('\u{9}' <= c && c <= '\u{D}') || c == ' ' || c == '\u{85}' || c == '\u{A0}' || c == '\u{1680}'
        || ('\u{2000}' <= c && c <= '\u{200A}') || c == '\u{2028}' || c == '\u{2029}' || c == '\u{202F}'
        || c == '\u{205F}' || c == '\u{3000}'
}

/// The texts of character spans of `s`.
pub open spec fn spans_view(s: Seq<char>, spans: Seq<(usize, usize)>) -> Seq<Seq<char>> {
    spans.map_values(|p: (usize, usize)| s.subrange(p.0 as int, p.1 as int))
}

/// Reads the CPU counters from the text of `/proc/stat`.
pub fn parse_cpu_times(stat: &str) -> (r: Option<CpuTimes>)
    ensures
        r == spec_cpu_times(stat@),
{
    let n = stat.unicode_len();
    if n == 0 {
        return None;
    }
    let mut e: usize = 0;
    while e < n && stat.get_char(e) != '\n'
        invariant
            e <= n,
            n == stat@.len(),
            line_end_from(stat@, 0) == line_end_from(stat@, e as nat),
        decreases n - e,
    {
        e = e + 1;
    }
    let mut line_len = e;
    if e < n && e > 0 && stat.get_char(e - 1) == '\r' {
        line_len = e - 1;
    }
    let ghost line = stat@.subrange(0, line_len as int);
    proof {
        let full = stat@.subrange(0, e as int);
        if e < n && e > 0 && stat@[e - 1] == '\r' {
            assert(full.drop_last() == line);
        } else {
            assert(full == line);
        }
        assert(first_line(stat@) == Some(line));
    }
    let mut spans: Vec<(usize, usize)> = Vec::new();
    let mut i: usize = 0;
    while i < line_len
        invariant
            i <= line_len <= n,
            n == stat@.len(),
            line == stat@.subrange(0, line_len as int),
            forall|k: int| 0 <= k < spans@.len() ==> (#[trigger] spans@[k]).0 <= spans@[k].1 <= line_len,
            tokens_from(line, 0) == spans_view(line, spans@) + tokens_from(line, i as nat),
        decreases line_len - i,
    {
        if is_whitespace_char(stat.get_char(i)) {
            assert(tokens_from(line, i as nat) == tokens_from(line, (i + 1) as nat));
            i = i + 1;
        } else {
            let start = i;
            proof {
                lemma_token_end_bounds(line, start as nat);
            }
            while i < line_len && !is_whitespace_char(stat.get_char(i))
                invariant
                    start <= i <= line_len <= n,
                    n == stat@.len(),
                    line == stat@.subrange(0, line_len as int),
                    token_end(line, start as nat) == token_end(line, i as nat),
                decreases line_len - i,
            {
                i = i + 1;
            }
            let ghost old_spans = spans@;
            spans.push((start, i));
            proof {
                assert(token_end(line, i as nat) == i);
                assert(spans_view(line, spans@) == spans_view(line, old_spans).push(line.subrange(start as int, i as int)));
                assert(tokens_from(line, start as nat) == seq![line.subrange(start as int, i as int)] + tokens_from(line, i as nat));
                assert(spans_view(line, spans@) + tokens_from(line, i as nat) == spans_view(line, old_spans) + (seq![line.subrange(start as int, i as int)] + tokens_from(line, i as nat)));
            }
        }
    }
    proof {
        assert(tokens_from(line, i as nat) == Seq::<Seq<char>>::empty());
        assert(spans_view(line, spans@) + Seq::<Seq<char>>::empty() == spans_view(line, spans@));
    }
    let ghost parts = tokens_from(line, 0);
    assert(parts == spans_view(line, spans@));
    if spans.len() < 5 {
        return None;
    }
    let (s0, e0) = spans[0];
    proof {
        reveal_strlit("cpu");
        assert(parts[0] == line.subrange(s0 as int, e0 as int));
    }
    let is_cpu = e0 - s0 == 3 && stat.get_char(s0) == 'c' && stat.get_char(s0 + 1) == 'p' && stat.get_char(s0 + 2) == 'u';
    proof {
        if is_cpu {
            assert(parts[0] =~= "cpu"@);
        } else if parts[0].len() == 3 {
            assert(parts[0][0] == stat@[s0 as int]);
            assert(parts[0][1] == stat@[s0 + 1]);
            assert(parts[0][2] == stat@[s0 + 2]);
            assert(parts[0] != "cpu"@);
        } else {
            assert(parts[0].len() != "cpu"@.len());
        }
    }
    if !is_cpu {
        return None;
    }
    let user = field_value(stat, &spans, 1, Ghost(line));
    let nice = field_value(stat, &spans, 2, Ghost(line));
    let system = field_value(stat, &spans, 3, Ghost(line));
    let idle = field_value(stat, &spans, 4, Ghost(line));
    let iowait = field_value(stat, &spans, 5, Ghost(line));
    let irq = field_value(stat, &spans, 6, Ghost(line));
    let softirq = field_value(stat, &spans, 7, Ghost(line));
    Some(CpuTimes { user, nice, system, idle, iowait, irq, softirq })
}

/// Field `k` of a tokenised line read as a number, 0 when missing or
/// unreadable.
fn field_value(stat: &str, spans: &Vec<(usize, usize)>, k: usize, Ghost(line): Ghost<Seq<char>>) -> (v: u64)
    requires
        line.len() <= stat@.len(),
        line == stat@.subrange(0, line.len() as int),
        forall|j: int| 0 <= j < spans@.len() ==> (#[trigger] spans@[j]).0 <= spans@[j].1 <= line.len(),
    ensures
        v == field_or_zero(spans_view(line, spans@), k as int),
{
    if k < spans.len() {
        let (a, b) = spans[k];
        assert(spans_view(line, spans@)[k as int] == line.subrange(a as int, b as int));
        assert(line.subrange(a as int, b as int) == stat@.subrange(a as int, b as int));
        match parse_unsigned_span(stat, a, b, u64::MAX) {
            Ok(v) => v,
            Err(_) => 0,
        }
    } else {
        0
    }
}

/// The first sample only primes the tracker; a second sample with the same
/// totals shows that no time passed, and usage cannot be told.
pub proof fn law_cpu_tracker_samples(total: u64, idle: u64)
    requires
        total > 0,
    ensures
        spec_cpu_reading(0, 0, total, idle) == CpuReading::FirstSample,
        spec_cpu_reading(total, idle, total, idle) == CpuReading::Unavailable,
{
}

/// When both counters grew since the previous sample, the reading is the
/// growth of each.
pub proof fn law_cpu_delta(prev_total: u64, prev_idle: u64, total: u64, idle: u64)
    requires
        prev_total > 0,
        total > prev_total,
        idle >= prev_idle,
    ensures
        spec_cpu_reading(prev_total, prev_idle, total, idle) == (CpuReading::Delta {
            total: (total - prev_total) as u64,
            idle: (idle - prev_idle) as u64,
        }),
{
}

/// Each counter is read as a `u64`: a field that is a decimal numeral of a
/// value up to `u64::MAX` gives that value, and whatever `str::parse::<u64>`
/// accepts gives what it reads; only a missing or unreadable field gives 0.
pub proof fn law_counters_read_as_u64(parts: Seq<Seq<char>>, i: int)
    requires
        0 <= i,
    ensures
        i < parts.len() && parts[i].len() > 0 && all_digits(parts[i]) && digits_value(parts[i]) <= u64::MAX
            ==> field_or_zero(parts, i) == digits_value(parts[i]),
        i < parts.len() && parse_unsigned(parts[i], u64::MAX as nat) is Ok ==> field_or_zero(parts, i)
            == parse_unsigned(parts[i], u64::MAX as nat)->Ok_0,
        i >= parts.len() || parse_unsigned(parts[i], u64::MAX as nat) is Err ==> field_or_zero(parts, i) == 0,
{
    if i < parts.len() {
        law_parsed_value_fits(parts[i], u64::MAX as nat);
        if parts[i].len() > 0 && all_digits(parts[i]) && digits_value(parts[i]) <= u64::MAX {
            law_numeral_parses(parts[i], u64::MAX as nat);
        }
    }
}

} // verus!
