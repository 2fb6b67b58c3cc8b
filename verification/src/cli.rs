//! Deciding what a command line asks for: grid dimensions, the per-frame
//! delay, and which renderer backend to drive.

use vstd::prelude::*;

verus! {

/// Per-frame delay used when the command line gives none, in milliseconds.
pub const DEFAULT_SLEEP_DURATION: u64 = 10;

/// Which display backend the command line selected.
#[derive(Debug, Clone, Copy, PartialEq, Eq, Structural)]
pub enum RendererChoice {
    Terminal,
    Windowed,
}

/// Everything the driver loop needs, decided from the command line.
#[derive(Debug, Clone, Copy, PartialEq, Eq, Structural)]
pub struct Config {
    pub width: usize,
    pub height: usize,
    pub sleep_ms: u64,
    pub renderer: RendererChoice,
}

/// Why a command line was rejected. Every case calls for the usage text
/// and a failing exit.
#[derive(Debug, Clone, Copy, PartialEq, Eq, Structural)]
pub enum CliError {
    InsufficientArguments,
    InvalidWidth,
    InvalidHeight,
    InvalidSleep,
}

impl CliError {
    /// The message the process reports for this rejection.
    pub fn message(&self) -> (m: String)
        ensures
            m@ == match *self {
                CliError::InsufficientArguments => "Insufficient arguments specified."@,
                CliError::InvalidWidth => "Invalid WIDTH specified"@,
                CliError::InvalidHeight => "Invalid HEIGHT specified"@,
                CliError::InvalidSleep => "Invalid sleep duration specified"@,
            },
    {
        match *self {
            CliError::InsufficientArguments => String::from_str(
                "Insufficient arguments specified.",
            ),
            CliError::InvalidWidth => String::from_str("Invalid WIDTH specified"),
            CliError::InvalidHeight => String::from_str("Invalid HEIGHT specified"),
            CliError::InvalidSleep => String::from_str("Invalid sleep duration specified"),
        }
    }
}

/// A decimal digit.
pub open spec fn is_digit(c: char) -> bool {
    '0' as int <= c as int <= '9' as int
}

/// The numeric value of one digit character.
pub open spec fn digit_value(c: char) -> int {
    c as int - '0' as int
}

/// The unsigned value a string of digits denotes, most significant first.
pub open spec fn digits_value(s: Seq<char>) -> nat
    decreases s.len(),
{
    if s.len() == 0 {
        0
    } else {
        (10 * digits_value(s.drop_last()) + digit_value(s.last())) as nat
    }
}

/// The digit portion of a numeral: everything after an optional leading '+'.
pub open spec fn numeral_digits(s: Seq<char>) -> Seq<char> {
    if s.len() > 0 && s[0] == '+' {
        s.subrange(1, s.len() as int)
    } else {
        s
    }
}

/// The shape an unsigned decimal numeral must have: an optional leading
/// '+', then at least one digit.
pub open spec fn is_numeral(s: Seq<char>) -> bool {
    &&& numeral_digits(s).len() > 0
    &&& forall|i: int|
        0 <= i < numeral_digits(s).len() ==> is_digit(#[trigger] numeral_digits(s)[i])
}

/// The numeral is well formed and its value fits below `bound`.
pub open spec fn numeral_fits(s: Seq<char>, bound: int) -> bool {
    &&& is_numeral(s)
    &&& digits_value(numeral_digits(s)) <= bound
}

/// The numeral is well formed within `bound` and denotes exactly `v`.
pub open spec fn numeral_is(s: Seq<char>, v: int, bound: int) -> bool {
    &&& numeral_fits(s, bound)
    &&& v == digits_value(numeral_digits(s))
}

/// Extending a digit string by one digit multiplies its value by ten and
/// adds the new digit.
proof fn lemma_digits_value_step(d: Seq<char>, j: int)
    requires
        0 <= j < d.len(),
        is_digit(d[j]),
    ensures
        digits_value(d.subrange(0, j + 1)) == 10 * digits_value(d.subrange(0, j)) + digit_value(
            d[j],
        ),
{
    assert(d.subrange(0, j + 1).drop_last() =~= d.subrange(0, j));
    assert(d.subrange(0, j + 1).last() == d[j]);
}

/// A prefix of a digit string never denotes more than the whole string.
proof fn lemma_digits_value_prefix_le(d: Seq<char>, j: int)
    requires
        0 <= j <= d.len(),
        forall|i: int| 0 <= i < d.len() ==> is_digit(#[trigger] d[i]),
    ensures
        digits_value(d.subrange(0, j)) <= digits_value(d),
    decreases d.len() - j,
{
    if j == d.len() {
        assert(d.subrange(0, j) =~= d);
    } else {
        lemma_digits_value_step(d, j);
        lemma_digits_value_prefix_le(d, j + 1);
    }
}

/// Parses an unsigned decimal numeral, exactly as wide as a 64-bit value
/// allows: the result is the numeral's value when the input is well formed
/// and fits, and nothing otherwise.
pub fn parse_u64(s: &str) -> (r: Option<u64>)
    ensures
        match r {
            Option::Some(v) => numeral_is(s@, v as int, u64::MAX as int),
            Option::None => !numeral_fits(s@, u64::MAX as int),
        },
{
    let n = s.unicode_len();
    let start: usize = if n > 0 && s.get_char(0) == '+' {
        1
    } else {
        0
    };
    let ghost d = numeral_digits(s@);
    proof {
        assert(d =~= s@.subrange(start as int, n as int));
    }
    if start >= n {
        return Option::None;
    }
    let mut i: usize = start;
    while i < n
        invariant
            start <= i <= n,
            n == s@.len(),
            d == numeral_digits(s@),
            d == s@.subrange(start as int, n as int),
            forall|j: int| 0 <= j < i - start ==> is_digit(#[trigger] d[j]),
        decreases n - i,
    {
        let c = s.get_char(i);
        let u = c as u32;
        if u < '0' as u32 || u > '9' as u32 {
            proof {
                assert(d[i - start] == s@[i as int]);
                assert(!is_digit(d[i - start]));
            }
            return Option::None;
        }
        i = i + 1;
    }
    let mut value: u64 = 0;
    let mut i: usize = start;
    while i < n
        invariant
            start <= i <= n,
            start < n,
            n == s@.len(),
            d == numeral_digits(s@),
            d == s@.subrange(start as int, n as int),
            forall|j: int| 0 <= j < d.len() ==> is_digit(#[trigger] d[j]),
            value == digits_value(d.subrange(0, i - start)),
        decreases n - i,
    {
        let c = s.get_char(i);
        proof {
            assert(d[i - start] == s@[i as int]);
            assert(is_digit(c));
        }
        let dgt = (c as u32 - '0' as u32) as u64;
        let scaled = match value.checked_mul(10) {
            Option::Some(v) => v,
            Option::None => {
                proof {
                    lemma_digits_value_step(d, i - start);
                    lemma_digits_value_prefix_le(d, i - start + 1);
                }
                return Option::None;
            },
        };
        let next = match scaled.checked_add(dgt) {
            Option::Some(v) => v,
            Option::None => {
                proof {
                    lemma_digits_value_step(d, i - start);
                    lemma_digits_value_prefix_le(d, i - start + 1);
                }
                return Option::None;
            },
        };
        proof {
            lemma_digits_value_step(d, i - start);
        }
        value = next;
        i = i + 1;
    }
    proof {
        assert(d.subrange(0, (n - start) as int) =~= d);
    }
    Option::Some(value)
}

/// Parses an unsigned decimal numeral that must fit the platform's word,
/// as a grid dimension must.
pub fn parse_usize(s: &str) -> (r: Option<usize>)
    ensures
        match r {
            Option::Some(v) => numeral_is(s@, v as int, usize::MAX as int),
            Option::None => !numeral_fits(s@, usize::MAX as int),
        },
{
    match parse_u64(s) {
        Option::Some(v) => {
            if v <= usize::MAX as u64 {
                Option::Some(v as usize)
            } else {
                Option::None
            }
        },
        Option::None => Option::None,
    }
}

/// Decides the configuration a command line asks for, or the reason it is
/// rejected. `args` is the full argument list, program name first; then
/// come WIDTH, HEIGHT, an optional SLEEP delay in milliseconds, and the
/// optional flag "-c", which picks the terminal backend over the windowed
/// one.
pub fn parse_args(args: &Vec<String>) -> (r: Result<Config, CliError>)
    ensures
        match r {
            Result::Ok(c) => {
                &&& args@.len() >= 3
                &&& numeral_is(args@[1]@, c.width as int, usize::MAX as int)
                &&& numeral_is(args@[2]@, c.height as int, usize::MAX as int)
                &&& (if args@.len() >= 4 {
                    numeral_is(args@[3]@, c.sleep_ms as int, u64::MAX as int)
                } else {
                    c.sleep_ms == DEFAULT_SLEEP_DURATION
                })
                &&& c.renderer == (if args@.len() >= 5 && args@[4]@ == "-c"@ {
                    RendererChoice::Terminal
                } else {
                    RendererChoice::Windowed
                })
            },
            Result::Err(e) => match e {
                CliError::InsufficientArguments => args@.len() < 3,
                CliError::InvalidWidth => args@.len() >= 3 && !numeral_fits(
                    args@[1]@,
                    usize::MAX as int,
                ),
                CliError::InvalidHeight => {
                    &&& args@.len() >= 3
                    &&& numeral_fits(args@[1]@, usize::MAX as int)
                    &&& !numeral_fits(args@[2]@, usize::MAX as int)
                },
                CliError::InvalidSleep => {
                    &&& args@.len() >= 4
                    &&& numeral_fits(args@[1]@, usize::MAX as int)
                    &&& numeral_fits(args@[2]@, usize::MAX as int)
                    &&& !numeral_fits(args@[3]@, u64::MAX as int)
                },
            },
        },
{
    if args.len() < 3 {
        return Result::Err(CliError::InsufficientArguments);
    }
    let width = match parse_usize(args[1].as_str()) {
        Option::Some(v) => v,
        Option::None => { return Result::Err(CliError::InvalidWidth) },
    };
    let height = match parse_usize(args[2].as_str()) {
        Option::Some(v) => v,
        Option::None => { return Result::Err(CliError::InvalidHeight) },
    };
    let sleep_ms = if args.len() >= 4 {
        match parse_u64(args[3].as_str()) {
            Option::Some(v) => v,
            Option::None => { return Result::Err(CliError::InvalidSleep) },
        }
    } else {
        DEFAULT_SLEEP_DURATION
    };
    let renderer = if args.len() >= 5 && is_console_flag(args[4].as_str()) {
        RendererChoice::Terminal
    } else {
        RendererChoice::Windowed
    };
    Result::Ok(Config { width, height, sleep_ms, renderer })
}

/// Whether one argument is exactly the terminal-renderer flag "-c".
fn is_console_flag(s: &str) -> (r: bool)
    ensures
        r == (s@ == "-c"@),
{
    proof {
        reveal_strlit("-c");
    }
    let n = s.unicode_len();
    if n != 2 {
        return false;
    }
    let c0 = s.get_char(0);
    let c1 = s.get_char(1);
    let r = c0 == '-' && c1 == 'c';
    proof {
        if r {
            assert(s@ =~= "-c"@);
        }
    }
    r
}

} // verus!
