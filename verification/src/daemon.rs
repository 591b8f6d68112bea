//! The stop path of the daemon lifecycle.
//!
//! A running watcher records its process id in a pid file. Stopping it means
//! reading that file, parsing the recorded id and sending one termination
//! request. Everything except the file read and the signal itself is decided
//! here: [`stop_decision`] maps the file's content (or its absence) to the
//! single action the caller must take. A missing file is a no-op, never an
//! error; a present file yields exactly one termination request, or a
//! malformed-pid report when its content does not parse.

use vstd::prelude::*;
use vstd::string::StringExecFns;

verus! {

/// The well-known location of the pid file.
pub fn pid_file_path() -> (r: String)
    ensures
        r@ == "/tmp/tui-watcher.pid"@,
{
    String::from_str("/tmp/tui-watcher.pid")
}

/// ASCII whitespace, as ignored around a recorded process id.
pub open spec fn is_space(b: u8) -> bool {
    b == 32 || b == 9 || b == 10 || b == 13 || b == 11 || b == 12
}

/// ASCII decimal digit.
pub open spec fn is_digit(b: u8) -> bool {
    48 <= b <= 57
}

pub open spec fn all_digits(s: Seq<u8>) -> bool {
    forall|i: int| 0 <= i < s.len() ==> is_digit(s[i])
}

/// Numeric value of a sequence of decimal digits, most significant first.
pub open spec fn digits_value(s: Seq<u8>) -> int
    decreases s.len(),
{
    if s.len() == 0 {
        0
    } else {
        digits_value(s.drop_last()) * 10 + (s.last() - 48)
    }
}

pub open spec fn trim_front(s: Seq<u8>) -> Seq<u8>
    decreases s.len(),
{
    if s.len() > 0 && is_space(s[0]) {
        trim_front(s.drop_first())
    } else {
        s
    }
}

pub open spec fn trim_back(s: Seq<u8>) -> Seq<u8>
    decreases s.len(),
{
    if s.len() > 0 && is_space(s.last()) {
        trim_back(s.drop_last())
    } else {
        s
    }
}

/// The content with leading and trailing ASCII whitespace removed.
pub open spec fn trimmed(s: Seq<u8>) -> Seq<u8> {
    trim_back(trim_front(s))
}

/// Meaning of a pid file's bytes: an optionally signed decimal number,
/// surrounded by nothing but whitespace, whose value fits an `i32`.
pub open spec fn spec_parse_pid(s: Seq<u8>) -> Option<i32> {
    parse_signed(trimmed(s))
}

pub open spec fn parse_signed(t: Seq<u8>) -> Option<i32> {
    if t.len() > 0 && t[0] == 45 {
        parse_magnitude(t.drop_first(), true)
    } else if t.len() > 0 && t[0] == 43 {
        parse_magnitude(t.drop_first(), false)
    } else {
        parse_magnitude(t, false)
    }
}

pub open spec fn parse_magnitude(m: Seq<u8>, negative: bool) -> Option<i32> {
    if m.len() == 0 || !all_digits(m) {
        Option::None
    } else {
        let v: int = if negative {
            -digits_value(m)
        } else {
            digits_value(m)
        };
        if -0x8000_0000 <= v <= 0x7FFF_FFFF {
            Option::Some(v as i32)
        } else {
            Option::None
        }
    }
}

/// What the stop path must do, given the pid file's content.
#[derive(Clone, Copy, Debug, PartialEq, Eq, Structural)]
pub enum StopOutcome {
    /// No pid file: nothing to stop, and not an error.
    NoDaemon,
    /// Send exactly one termination request to this process id.
    Terminate { pid: i32 },
    /// The file exists but does not hold a process id.
    MalformedPid,
}

/// Meaning of the stop command: nothing to do without a pid file, one
/// termination request when the file holds an id, an error otherwise.
pub open spec fn spec_stop_decision(content: Option<Seq<u8>>) -> StopOutcome {
    match content {
        Option::None => StopOutcome::NoDaemon,
        Option::Some(s) => match spec_parse_pid(s) {
            Option::Some(p) => StopOutcome::Terminate { pid: p },
            Option::None => StopOutcome::MalformedPid,
        },
    }
}

proof fn lemma_digits_value_nonneg(s: Seq<u8>)
    requires
        all_digits(s),
    ensures
        digits_value(s) >= 0,
    decreases s.len(),
{
    if s.len() > 0 {
        assert(all_digits(s.drop_last()));
        lemma_digits_value_nonneg(s.drop_last());
    }
}

/// `trim_front` removes exactly the leading run of whitespace.
proof fn lemma_trim_front_at(s: Seq<u8>, k: int)
    requires
        0 <= k <= s.len(),
        forall|j: int| 0 <= j < k ==> is_space(s[j]),
        k == s.len() || !is_space(s[k]),
    ensures
        trim_front(s) == s.subrange(k, s.len() as int),
    decreases k,
{
    if k == 0 {
        assert(s.subrange(0, s.len() as int) =~= s);
    } else {
        assert(is_space(s[0]));
        let d = s.drop_first();
        assert(forall|j: int| 0 <= j < k - 1 ==> is_space(d[j]));
        lemma_trim_front_at(d, k - 1);
        assert(d.subrange(k - 1, d.len() as int) =~= s.subrange(k, s.len() as int));
    }
}

/// `trim_back` removes exactly the trailing run of whitespace.
proof fn lemma_trim_back_at(s: Seq<u8>, k: int)
    requires
        0 <= k <= s.len(),
        forall|j: int| k <= j < s.len() ==> is_space(s[j]),
        k == 0 || !is_space(s[k - 1]),
    ensures
        trim_back(s) == s.subrange(0, k),
    decreases s.len() - k,
{
    if k == s.len() {
        if s.len() > 0 {
            assert(s.subrange(0, s.len() as int) =~= s);
        } else {
            assert(s.subrange(0, 0) =~= s);
        }
    } else {
        assert(is_space(s.last()));
        let d = s.drop_last();
        assert(forall|j: int| k <= j < d.len() ==> is_space(d[j]));
        lemma_trim_back_at(d, k);
        assert(d.subrange(0, k) =~= s.subrange(0, k));
    }
}

/// Parse an optionally signed decimal process id, ignoring surrounding
/// ASCII whitespace, exactly as [`spec_parse_pid`] describes.
pub fn parse_pid(s: &[u8]) -> (r: Option<i32>)
    ensures
        r == spec_parse_pid(s@),
{
    let n = s.len();
    let mut lo: usize = 0;
    while lo < n && (s[lo] == 32 || s[lo] == 9 || s[lo] == 10 || s[lo] == 13 || s[lo] == 11
        || s[lo] == 12)
        invariant
            n == s@.len(),
            0 <= lo <= n,
            forall|j: int| 0 <= j < lo ==> is_space(s@[j]),
        decreases n - lo,
    {
        lo = lo + 1;
    }
    let mut hi: usize = n;
    while hi > lo && (s[hi - 1] == 32 || s[hi - 1] == 9 || s[hi - 1] == 10 || s[hi - 1] == 13
        || s[hi - 1] == 11 || s[hi - 1] == 12)
        invariant
            n == s@.len(),
            0 <= lo <= hi <= n,
            forall|j: int| 0 <= j < lo ==> is_space(s@[j]),
            lo == n || !is_space(s@[lo as int]),
            forall|j: int| hi <= j < n ==> is_space(s@[j]),
        decreases hi,
    {
        hi = hi - 1;
    }
    proof {
        lemma_trim_front_at(s@, lo as int);
        let t = s@.subrange(lo as int, n as int);
        if hi == lo {
            lemma_trim_back_at(t, 0);
        } else {
            assert(forall|j: int| hi - lo <= j < t.len() ==> is_space(t[j]));
            assert(!is_space(t[hi - lo - 1]));
            lemma_trim_back_at(t, hi - lo);
        }
        assert(trimmed(s@) =~= s@.subrange(lo as int, hi as int));
    }
    parse_trimmed(s, lo, hi)
}

/// Parse the sign and digits of `s[lo..hi]`, already free of whitespace.
fn parse_trimmed(s: &[u8], lo: usize, hi: usize) -> (r: Option<i32>)
    requires
        lo <= hi <= s@.len(),
    ensures
        r == parse_signed(s@.subrange(lo as int, hi as int)),
{
    let ghost t = s@.subrange(lo as int, hi as int);
    if lo == hi {
        assert(t.len() == 0);
        return None;
    }
    let first: u8 = s[lo];
    let negative = first == 45;
    let start: usize = if first == 45 || first == 43 {
        lo + 1
    } else {
        lo
    };
    proof {
        if first == 45 || first == 43 {
            assert(t.drop_first() =~= s@.subrange(start as int, hi as int));
        }
    }
    parse_digits(s, start, hi, negative)
}

/// Parse the digit run `s[start..hi]` into a process id with the given sign.
fn parse_digits(s: &[u8], start: usize, hi: usize, negative: bool) -> (r: Option<i32>)
    requires
        start <= hi <= s@.len(),
    ensures
        r == parse_magnitude(s@.subrange(start as int, hi as int), negative),
{
    let ghost m = s@.subrange(start as int, hi as int);
    if start == hi {
        assert(m.len() == 0);
        return None;
    }
    let mut value: u64 = 0;
    let mut too_big = false;
    let mut i: usize = start;
    while i < hi
        invariant
            start <= i <= hi <= s@.len(),
            m == s@.subrange(start as int, hi as int),
            all_digits(s@.subrange(start as int, i as int)),
            !too_big ==> value == digits_value(s@.subrange(start as int, i as int)),
            too_big ==> digits_value(s@.subrange(start as int, i as int)) > 0x8000_0000,
            value <= 0xFFFF_FFFF,
        decreases hi - i,
    {
        let b: u8 = s[i];
        if b < 48 || b > 57 {
            assert(m[i as int - start as int] == s@[i as int]);
            return None;
        }
        proof {
            assert(s@.subrange(start as int, i as int + 1).drop_last() =~= s@.subrange(
                start as int,
                i as int,
            ));
            if too_big {
                lemma_digits_value_nonneg(s@.subrange(start as int, i as int));
            }
        }
        if too_big || value > 0xFFFF_FFF {
            proof {
                if !too_big {
                    lemma_digits_value_nonneg(s@.subrange(start as int, i as int));
                }
            }
            too_big = true;
            value = 0xFFFF_FFFF;
        } else {
            value = value * 10 + ((b - 48) as u64);
        }
        i = i + 1;
    }
    proof {
        assert(s@.subrange(start as int, i as int) =~= m);
        assert(all_digits(m));
        lemma_digits_value_nonneg(m);
    }
    if too_big {
        return None;
    }
    if negative {
        if value > 0x8000_0000 {
            None
        } else if value == 0x8000_0000 {
            Some(i32::MIN)
        } else {
            Some(-(value as i32))
        }
    } else {
        if value > 0x7FFF_FFFF {
            None
        } else {
            Some(value as i32)
        }
    }
}

/// Decide the stop path from the pid file's content: `None` when the file
/// is absent. A missing file is reported as [`StopOutcome::NoDaemon`], never
/// as an error; a readable id yields exactly one termination request,
/// carrying that id.
pub fn stop_decision(pid_file: Option<Vec<u8>>) -> (r: StopOutcome)
    ensures
        pid_file is None ==> r == StopOutcome::NoDaemon,
        pid_file matches Some(content) ==> r == spec_stop_decision(Some(content@)),
{
    match pid_file {
        None => StopOutcome::NoDaemon,
        Some(content) => match parse_pid(content.as_slice()) {
            Some(pid) => StopOutcome::Terminate { pid },
            None => StopOutcome::MalformedPid,
        },
    }
}

} // verus!
