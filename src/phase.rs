use vstd::prelude::*;
use vstd::string::*;
use vstd::arithmetic::div_mod::lemma_mod_add_multiples_vanish;

verus! {

/// The kind of interval that is currently active.
#[derive(Debug, Clone, Copy, PartialEq, Eq, Structural)]
pub enum Phase {
    Work,
    Short,
    Long,
}

/// The phase that a pattern symbol stands for: `w`, `s` and `l`, in either case.
pub open spec fn phase_of_char(c: char) -> Option<Phase> {
    if c == 'w' || c == 'W' {
        Some(Phase::Work)
    } else if c == 's' || c == 'S' {
        Some(Phase::Short)
    } else if c == 'l' || c == 'L' {
        Some(Phase::Long)
    } else {
        None
    }
}

/// A configuration value that cannot be used.
#[derive(Debug, Clone, Copy, PartialEq, Eq, Structural)]
pub enum ConfigError {
    /// A pattern symbol that names no phase.
    InvalidPatternSymbol(char),
    /// A pattern with no symbols at all.
    EmptyPattern,
    /// A duration that is not `minutes:seconds` in decimal digits, or too large.
    InvalidDurationFormat,
}

/// The configured length of each phase, as `minutes:seconds`, and the
/// pattern of phase symbols that a run cycles through.
#[derive(Debug)]
pub struct PomArgs {
    pub work: String,
    pub short: String,
    pub long: String,
    pub pattern: String,
}

impl Default for PomArgs {
    fn default() -> (r: PomArgs)
        ensures
            r.work@ == seq!['2', '5', ':', '0', '0'],
            r.short@ == seq!['5', ':', '0', '0'],
            r.long@ == seq!['1', '5', ':', '0', '0'],
            r.pattern@ == seq!['w', 's', 'w', 's', 'w', 'l'],
    {
        let work = "25:00".to_owned();
        let short = "5:00".to_owned();
        let long = "15:00".to_owned();
        let pattern = "wswswl".to_owned();
        proof {
            reveal_strlit("25:00");
            reveal_strlit("5:00");
            reveal_strlit("15:00");
            reveal_strlit("wswswl");
        }
        PomArgs { work, short, long, pattern }
    }
}

pub open spec fn is_digit(c: char) -> bool {
    '0' <= c && c <= '9'
}

/// A non-empty run of decimal digits.
pub open spec fn all_digits(s: Seq<char>) -> bool {
    s.len() > 0 && forall|i: int| 0 <= i < s.len() ==> is_digit(#[trigger] s[i])
}

/// The number that a run of decimal digits spells.
pub open spec fn digits_value(s: Seq<char>) -> nat
    decreases s.len(),
{
    if s.len() == 0 {
        0
    } else {
        digits_value(s.drop_last()) * 10 + (s.last() as nat - '0' as nat) as nat
    }
}

/// Where the first `:` of `s` at or after `i` stands, or `s.len()` when none does.
pub open spec fn colon_from(s: Seq<char>, i: int) -> int
    decreases s.len() - i,
{
    if i >= s.len() || i < 0 {
        s.len() as int
    } else if s[i] == ':' {
        i
    } else {
        colon_from(s, i + 1)
    }
}

/// The seconds that a `minutes:seconds` text stands for: digits, one colon,
/// digits. `None` for any other text.
pub open spec fn mmss_seconds(s: Seq<char>) -> Option<nat> {
    let k = colon_from(s, 0);
    if k < s.len() && all_digits(s.take(k)) && all_digits(s.skip(k + 1)) {
        Some(digits_value(s.take(k)) * 60 + digits_value(s.skip(k + 1)))
    } else {
        None
    }
}

/// What reading a configured duration gives: its seconds, when they fit in a `u64`.
pub open spec fn duration_result(s: Seq<char>) -> Result<u64, ConfigError> {
    match mmss_seconds(s) {
        Some(v) => if v <= u64::MAX {
            Ok(v as u64)
        } else {
            Err(ConfigError::InvalidDurationFormat)
        },
        None => Err(ConfigError::InvalidDurationFormat),
    }
}

/// The configured text for a phase.
pub open spec fn phase_text(p: Phase, config: PomArgs) -> Seq<char> {
    match p {
        Phase::Work => config.work@,
        Phase::Short => config.short@,
        Phase::Long => config.long@,
    }
}

proof fn lemma_digits_prefix(s: Seq<char>, i: int)
    requires
        0 <= i <= s.len(),
        forall|j: int| 0 <= j < s.len() ==> is_digit(#[trigger] s[j]),
    ensures
        digits_value(s.take(i)) <= digits_value(s),
    decreases s.len() - i,
{
    if i < s.len() {
        lemma_digits_prefix(s, i + 1);
        assert(s.take(i + 1).drop_last() =~= s.take(i));
    } else {
        assert(s.take(i) =~= s);
    }
}

/// Reads the digits of `s` between `from` and `to`; `None` when that stretch
/// is empty, holds a non-digit, or spells a number beyond `u64`.
fn parse_digits(s: &str, from: usize, to: usize) -> (r: Option<u64>)
    requires
        from <= to <= s@.len(),
    ensures
        r == (if all_digits(s@.subrange(from as int, to as int)) && digits_value(
            s@.subrange(from as int, to as int),
        ) <= u64::MAX {
            Some(digits_value(s@.subrange(from as int, to as int)) as u64)
        } else {
            None
        }),
{
    let ghost t = s@.subrange(from as int, to as int);
    if from == to {
        return None;
    }
    let mut acc: u64 = 0;
    let mut i: usize = from;
    while i < to
        invariant
            from <= i <= to <= s@.len(),
            t == s@.subrange(from as int, to as int),
            forall|j: int| from <= j < i ==> is_digit(#[trigger] s@[j]),
            acc as nat == digits_value(t.take(i - from)),
        decreases to - i,
    {
        let c = s.get_char(i);
        if !('0' <= c && c <= '9') {
            assert(!is_digit(t[i - from]));
            return None;
        }
        let d: u64 = (c as u32 - '0' as u32) as u64;
        assert(t.take(i + 1 - from).drop_last() =~= t.take(i - from));
        if acc > (u64::MAX - d) / 10 {
            proof {
                assert(digits_value(t.take(i + 1 - from)) > u64::MAX) by (nonlinear_arith)
                    requires
                        acc > (u64::MAX - d) / 10,
                        digits_value(t.take(i + 1 - from)) == acc * 10 + d,
                ;
                if forall|j: int| 0 <= j < t.len() ==> is_digit(#[trigger] t[j]) {
                    lemma_digits_prefix(t, i + 1 - from);
                }
            }
            return None;
        }
        acc = acc * 10 + d;
        i = i + 1;
    }
    assert(t.take(to - from) =~= t);
    Some(acc)
}

impl Phase {
    /// Reads one pattern symbol; `None` when it names no phase.
    pub fn from_char(value: &char) -> (r: Option<Phase>)
        ensures
            r == phase_of_char(*value),
    {
        match *value {
            'w' | 'W' => Some(Phase::Work),
            's' | 'S' => Some(Phase::Short),
            'l' | 'L' => Some(Phase::Long),
            _ => None,
        }
    }

    /// The configured length of this phase, in seconds.
    pub fn to_duration(&self, config: &PomArgs) -> (r: Result<u64, ConfigError>)
        ensures
            r == duration_result(phase_text(*self, *config)),
    {
        let text: &str = match self {
            Phase::Work => config.work.as_str(),
            Phase::Short => config.short.as_str(),
            Phase::Long => config.long.as_str(),
        };
        let n = text.unicode_len();
        let mut k: usize = 0;
        while k < n
            invariant
                k <= n == text@.len(),
                colon_from(text@, 0) == colon_from(text@, k as int),
            ensures
                k <= n,
                colon_from(text@, 0) == colon_from(text@, k as int),
                k < n ==> text@[k as int] == ':',
            decreases n - k,
        {
            if text.get_char(k) == ':' {
                break;
            }
            k = k + 1;
        }
        assert(colon_from(text@, 0) == k);
        if k == n {
            return Err(ConfigError::InvalidDurationFormat);
        }
        assert(text@.take(k as int) =~= text@.subrange(0, k as int));
        assert(text@.skip(k + 1) =~= text@.subrange(k + 1, n as int));
        let minutes = match parse_digits(text, 0, k) {
            Some(m) => m,
            None => return Err(ConfigError::InvalidDurationFormat),
        };
        let seconds = match parse_digits(text, k + 1, n) {
            Some(s) => s,
            None => return Err(ConfigError::InvalidDurationFormat),
        };
        if minutes > (u64::MAX - seconds) / 60 {
            assert(minutes * 60 + seconds > u64::MAX) by (nonlinear_arith)
                requires
                    minutes > (u64::MAX - seconds) / 60,
            ;
            return Err(ConfigError::InvalidDurationFormat);
        }
        Ok(minutes * 60 + seconds)
    }
}

/// The phase that `index` lands on when a run cycles through `pattern`.
pub open spec fn phase_at(pattern: Seq<char>, index: int) -> Result<Phase, ConfigError>
    recommends
        pattern.len() > 0,
{
    let c = pattern[index % pattern.len() as int];
    match phase_of_char(c) {
        Some(p) => Ok(p),
        None => Err(ConfigError::InvalidPatternSymbol(c)),
    }
}

/// A run over a pattern repeats itself: the step one pattern length later
/// lands on the same phase.
pub proof fn lemma_phase_cycles(pattern: Seq<char>, index: int)
    requires
        pattern.len() > 0,
    ensures
        phase_at(pattern, index + pattern.len()) == phase_at(pattern, index),
{
    lemma_mod_add_multiples_vanish(index, pattern.len() as int);
    assert(pattern.len() + index == index + pattern.len());
}

/// The phase at step `index` of a run over `pattern`, which wraps around.
pub fn current_phase(pattern: &str, index: usize) -> (r: Result<Phase, ConfigError>)
    requires
        pattern@.len() > 0,
    ensures
        r == phase_at(pattern@, index as int),
{
    let n = pattern.unicode_len();
    let c = pattern.get_char(index % n);
    match Phase::from_char(&c) {
        Some(p) => Ok(p),
        None => Err(ConfigError::InvalidPatternSymbol(c)),
    }
}

/// Reads a whole pattern at startup: one phase per symbol, or the first
/// symbol that names none, or `EmptyPattern`.
pub fn parse_pattern(pattern: &str) -> (r: Result<Vec<Phase>, ConfigError>)
    ensures
        pattern@.len() == 0 ==> r == Err::<Vec<Phase>, ConfigError>(ConfigError::EmptyPattern),
        r is Ok <==> pattern@.len() > 0 && forall|i: int|
            0 <= i < pattern@.len() ==> (#[trigger] phase_of_char(pattern@[i])) is Some,
        r matches Ok(v) ==> v@.len() == pattern@.len() && forall|i: int|
            0 <= i < pattern@.len() ==> phase_of_char(pattern@[i]) == Some(#[trigger] v@[i]),
        pattern@.len() > 0 && r is Err ==> exists|i: int|
            0 <= i < pattern@.len() && r == Err::<Vec<Phase>, ConfigError>(
                ConfigError::InvalidPatternSymbol(pattern@[i]),
            ) && (#[trigger] phase_of_char(pattern@[i])) is None && forall|j: int|
                0 <= j < i ==> (#[trigger] phase_of_char(pattern@[j])) is Some,
{
    let n = pattern.unicode_len();
    if n == 0 {
        return Err(ConfigError::EmptyPattern);
    }
    let mut phases: Vec<Phase> = Vec::new();
    let mut i: usize = 0;
    while i < n
        invariant
            i <= n == pattern@.len(),
            phases@.len() == i,
            forall|j: int| 0 <= j < i ==> (#[trigger] phase_of_char(pattern@[j])) == Some(phases@[j]),
        decreases n - i,
    {
        let c = pattern.get_char(i);
        match Phase::from_char(&c) {
            Some(p) => phases.push(p),
            None => return Err(ConfigError::InvalidPatternSymbol(c)),
        }
        i = i + 1;
    }
    Ok(phases)
}

/// Nanoseconds per second.
pub const NANOS_PER_SEC: u64 = 1_000_000_000;

/// The time still to go in a phase after `elapsed` nanoseconds: the phase's
/// configured length less `elapsed`, negative once the length is exceeded.
pub fn remaining(phase: Phase, config: &PomArgs, elapsed: u64) -> (r: Result<i128, ConfigError>)
    ensures
        r == match duration_result(phase_text(phase, *config)) {
            Ok(secs) => Ok((secs * NANOS_PER_SEC - elapsed) as i128),
            Err(e) => Err(e),
        },
{
    match phase.to_duration(config) {
        Ok(secs) => {
            assert(secs * NANOS_PER_SEC <= u64::MAX as int * 1_000_000_000) by (nonlinear_arith)
                requires
                    secs <= u64::MAX,
            ;
            Ok(secs as i128 * NANOS_PER_SEC as i128 - elapsed as i128)
        },
        Err(e) => Err(e),
    }
}

} // verus!
