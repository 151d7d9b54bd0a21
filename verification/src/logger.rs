//! Logging support: building the exact trace and warning lines, and the
//! gate that decides, from a verbosity variable's text, whether a line at
//! a given level is printed.
use vstd::prelude::*;

verus! {

use vstd::string::StringExecFns;

/// The value of the digit character `c`.
pub open spec fn digit_val(c: char) -> int {
    c as int - '0' as int
}

pub open spec fn is_digit_seq(s: Seq<char>) -> bool {
    s.len() > 0 && forall|i: int| 0 <= i < s.len() ==> '0' <= #[trigger] s[i] <= '9'
}

/// The value of a digit string, most significant first.
pub open spec fn digits_val(s: Seq<char>) -> int
    decreases s,
{
    if s.len() == 0 {
        0
    } else {
        digits_val(s.drop_last()) * 10 + digit_val(s.last())
    }
}

/// What `str::parse::<i32>` accepts: an optional sign, then one or more
/// digits, the value within 32-bit range.
pub open spec fn parse_i32_spec(s: Seq<char>) -> Option<int> {
    let ds = if s.len() > 0 && (s[0] == '+' || s[0] == '-') {
        s.drop_first()
    } else {
        s
    };
    let sign: int = if s.len() > 0 && s[0] == '-' {
        -1
    } else {
        1
    };
    if is_digit_seq(ds) {
        let v = sign * digits_val(ds);
        if i32::MIN <= v <= i32::MAX {
            Some(v)
        } else {
            None
        }
    } else {
        None
    }
}

pub proof fn lemma_digits_val_nonneg(s: Seq<char>)
    requires
        forall|i: int| 0 <= i < s.len() ==> '0' <= #[trigger] s[i] <= '9',
    ensures
        digits_val(s) >= 0,
    decreases s,
{
    if s.len() > 0 {
        assert(forall|i: int|
            0 <= i < s.drop_last().len() ==> '0' <= #[trigger] s.drop_last()[i] <= '9');
        lemma_digits_val_nonneg(s.drop_last());
    }
}

/// More digits never shrink the value.
pub proof fn lemma_digits_val_prefix(s: Seq<char>, i: int)
    requires
        0 <= i <= s.len(),
        forall|j: int| 0 <= j < s.len() ==> '0' <= #[trigger] s[j] <= '9',
    ensures
        digits_val(s.take(i)) <= digits_val(s),
    decreases s.len() - i,
{
    assert(forall|j: int| 0 <= j < i ==> '0' <= #[trigger] s.take(i)[j] <= '9');
    if i < s.len() {
        lemma_digits_val_prefix(s, i + 1);
        assert(s.take(i + 1).drop_last() =~= s.take(i));
        assert(digits_val(s.take(i + 1)) == digits_val(s.take(i)) * 10 + digit_val(s[i]));
        lemma_digits_val_nonneg(s.take(i));
        assert(digit_val(s[i]) >= 0);
    } else {
        assert(s.take(i) =~= s);
    }
}

/// Parses a 32-bit integer exactly as the standard decimal parse does:
/// an optional sign, then at least one digit, and the value in range.
pub fn parse_i32(s: &String) -> (r: Option<i32>)
    ensures
        match r {
            Some(v) => parse_i32_spec(s@) == Some(v as int),
            None => parse_i32_spec(s@) is None,
        },
{
    let n = s.as_str().unicode_len();
    if n == 0 {
        return None;
    }
    let first = s.as_str().get_char(0);
    let negative = first == '-';
    let start: usize = if first == '-' || first == '+' {
        1
    } else {
        0
    };
    if n == start {
        return None;
    }
    let ghost ds = if s@[0] == '+' || s@[0] == '-' {
        s@.drop_first()
    } else {
        s@
    };
    assert(ds =~= s@.subrange(start as int, n as int));
    let mut acc: i64 = 0;
    for i in start..n
        invariant
            start <= i <= n,
            n == s@.len(),
            start == 0 || start == 1,
            negative == (s@[0] == '-'),
            start == 1 ==> (s@[0] == '+' || s@[0] == '-'),
            start == 0 ==> !(s@[0] == '+' || s@[0] == '-'),
            ds == s@.subrange(start as int, n as int),
            forall|j: int| start <= j < i ==> '0' <= #[trigger] s@[j] <= '9',
            acc == digits_val(ds.take(i - start)),
            0 <= acc <= 0x8000_0000,
    {
        let c = s.as_str().get_char(i);
        if c < '0' || c > '9' {
            proof {
                assert(ds[i - start] == s@[i as int]);
                assert(!is_digit_seq(ds));
            }
            return None;
        }
        let d: i64 = (c as u32 as i64) - ('0' as u32 as i64);
        proof {
            assert(ds.take(i + 1 - start).drop_last() =~= ds.take(i - start));
            assert(ds.take(i + 1 - start).last() == s@[i as int]);
            assert(digits_val(ds.take(i + 1 - start)) == acc * 10 + d);
        }
        if acc > 214748364 || (acc == 214748364 && d > 8) {
            // The running value already exceeds the 32-bit range either
            // way, and further digits only grow it; the remainder decides
            // only between a range error and a syntax error.
            let mut k = i + 1;
            while k < n
                invariant
                    i + 1 <= k <= n,
                    n == s@.len(),
                    start == 0 || start == 1,
                    start <= i < n,
                    negative == (s@[0] == '-'),
                    start == 1 ==> (s@[0] == '+' || s@[0] == '-'),
                    start == 0 ==> !(s@[0] == '+' || s@[0] == '-'),
                    ds == s@.subrange(start as int, n as int),
                    forall|j: int| start <= j < k ==> '0' <= #[trigger] s@[j] <= '9',
                    digits_val(ds.take(i + 1 - start)) > 0x8000_0000,
                decreases n - k,
            {
                let c2 = s.as_str().get_char(k);
                if c2 < '0' || c2 > '9' {
                    proof {
                        assert(ds[k - start] == s@[k as int]);
                        assert(!is_digit_seq(ds));
                    }
                    return None;
                }
                k += 1;
            }
            proof {
                assert forall|j: int| 0 <= j < ds.len() implies '0' <= #[trigger] ds[j]
                    <= '9' by {
                    assert(ds[j] == s@[j + start]);
                }
                assert(is_digit_seq(ds));
                lemma_digits_val_prefix(ds, i + 1 - start);
                assert(digits_val(ds) > 0x8000_0000);
                assert(ds == s@.drop_first() || ds == s@);
                if s@[0] == '-' {
                    assert(-1 * digits_val(ds) < i32::MIN);
                    assert(parse_i32_spec(s@) is None);
                } else {
                    assert(1 * digits_val(ds) > i32::MAX);
                    assert(parse_i32_spec(s@) is None);
                }
            }
            return None;
        }
        acc = acc * 10 + d;
    }
    proof {
        assert forall|j: int| 0 <= j < ds.len() implies '0' <= #[trigger] ds[j] <= '9' by {
            assert(ds[j] == s@[j + start]);
        }
        assert(is_digit_seq(ds));
        assert(ds.take(n - start) =~= ds);
        assert(acc == digits_val(ds));
        assert(ds == s@.drop_first() || ds == s@);
        if s@[0] == '-' {
            assert(parse_i32_spec(s@) == if -1 * digits_val(ds) >= i32::MIN {
                Some(-1 * digits_val(ds))
            } else {
                None::<int>
            });
        } else {
            assert(parse_i32_spec(s@) == if 1 * digits_val(ds) <= i32::MAX {
                Some(1 * digits_val(ds))
            } else {
                None::<int>
            });
        }
    }
    if negative {
        if acc == 0x8000_0000 {
            Some(i32::MIN)
        } else {
            Some(-(acc as i32))
        }
    } else {
        if acc <= 0x7FFF_FFFF {
            Some(acc as i32)
        } else {
            None
        }
    }
}

/// Whether a line at `level` is printed, given the verbosity variable's
/// value: a parsed value at or above the level prints; an unparsable or
/// absent value prints only level zero.
pub open spec fn spec_should_log(level: int, debug_value: Option<Seq<char>>) -> bool {
    match debug_value {
        Some(s) => match parse_i32_spec(s) {
            Some(v) => v >= level,
            None => level == 0,
        },
        None => level == 0,
    }
}

/// Decides whether a line at `level` is printed under the given
/// verbosity value.
pub fn should_log(level: i32, debug_value: &Option<String>) -> (r: bool)
    ensures
        r == spec_should_log(
            level as int,
            match debug_value {
                Some(s) => Some(s@),
                None => None,
            },
        ),
{
    match debug_value {
        Some(s) => match parse_i32(s) {
            Some(v) => v >= level,
            None => level == 0,
        },
        None => level == 0,
    }
}

/// Relies on `std::io::Stderr`'s write machinery: best-effort write of
/// the line to standard error, for diagnostics only.
#[verifier::external_body]
fn write_stderr(s: &String) {
    let _ = write!(&mut std::io::stderr() as &mut dyn std::io::Write, "{}", s);
}

/// The exact trace line for a message and frame URI.
pub fn format_trace(message: &String, frame_uri: &String) -> (r: String)
    ensures
        r@ == "TRACE: "@ + message@ + " "@ + frame_uri@,
{
    let mut out = String::from_str("TRACE: ");
    out.append(message.as_str());
    out.append(" ");
    out.append(frame_uri.as_str());
    out
}

/// The exact warning line for a message and frame URI.
pub fn format_warn(message: &String, frame_uri: &String) -> (r: String)
    ensures
        r@ == "WARN: "@ + message@ + " "@ + frame_uri@,
{
    let mut out = String::from_str("WARN: ");
    out.append(message.as_str());
    out.append(" ");
    out.append(frame_uri.as_str());
    out
}

/// Where log lines go; standard error is the one sink.
#[derive(Debug, Clone, Copy, PartialEq, Eq, Structural)]
pub enum Logger {
    StderrLogger,
}

impl Default for Logger {
    fn default() -> (r: Logger)
        ensures
            r == Logger::StderrLogger,
    {
        Logger::StderrLogger
    }
}

impl Logger {
    /// Writes the trace line for `message` at `frame_uri` to the sink.
    pub fn trace(&self, message: String, frame_uri: String) {
        match self {
            Logger::StderrLogger => {
                let line = format_trace(&message, &frame_uri);
                write_stderr(&line);
            },
        }
    }

    /// Writes the warning line for `message` at `frame_uri` to the sink.
    pub fn warn(&self, message: String, frame_uri: String) {
        match self {
            Logger::StderrLogger => {
                let line = format_warn(&message, &frame_uri);
                write_stderr(&line);
            },
        }
    }

    /// Writes `message` to the sink when the verbosity value admits the
    /// level, as `spec_should_log` describes.
    pub fn log(&self, level: i32, debug_value: &Option<String>, message: String) -> (r: bool)
        ensures
            r == spec_should_log(
                level as int,
                match debug_value {
                    Some(s) => Some(s@),
                    None => None,
                },
            ),
    {
        let print = should_log(level, debug_value);
        if print {
            write_stderr(&message);
        }
        print
    }
}

} // verus!
