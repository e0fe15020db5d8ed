//! The daily lbrynet log: file names, the lines the companion appends, and
//! the tail quoted when the daemon crashes.
use vstd::prelude::*;

use crate::config::{lemma_join_push, std_lines, std_lines_exec};
use crate::text::{decimal, join, push_char, push_chars, push_decimal, push_str, str_chars, to_owned};

verus! {

broadcast use vstd::string::group_string_axioms;

/// Seconds per day; logs rotate by Unix day.
pub const SECS_PER_DAY: u64 = 86400;

/// How many log lines a crash report quotes.
pub const CRASH_TAIL_LINES: usize = 20;

/// Name of the log file for the Unix day holding `unix_secs`.
pub open spec fn log_file_name_spec(unix_secs: u64) -> Seq<char> {
    "lbrynet-"@ + decimal((unix_secs / SECS_PER_DAY) as nat) + ".log"@
}

/// Name of the log file for the day holding `unix_secs` (`lbrynet-{day}.log`).
pub fn log_file_name(unix_secs: u64) -> (r: String)
    ensures
        r@ == log_file_name_spec(unix_secs),
{
    let mut r = to_owned("lbrynet-");
    push_decimal(&mut r, unix_secs / SECS_PER_DAY);
    push_str(&mut r, ".log");
    r
}

/// A companion log line: `[{ts}] [COMP] {msg}`.
pub fn action_log_line(ts: u64, msg: &str) -> (r: String)
    ensures
        r@ == "["@ + decimal(ts as nat) + "] [COMP] "@ + msg@,
{
    let mut r = to_owned("[");
    push_decimal(&mut r, ts);
    push_str(&mut r, "] [COMP] ");
    push_str(&mut r, msg);
    r
}

/// The banner written before each start attempt.
pub fn start_banner(ts: u64) -> (r: String)
    ensures
        r@ == "\n=== ["@ + decimal(ts as nat) + "] DAEMON START ATTEMPT ===\n"@,
{
    let mut r = to_owned("\n=== [");
    push_decimal(&mut r, ts);
    push_str(&mut r, "] DAEMON START ATTEMPT ===\n");
    r
}

/// `s` without trailing carriage returns and line feeds
/// (`trim_end_matches(['\r', '\n'])`).
pub open spec fn trim_line_end(s: Seq<char>) -> Seq<char>
    decreases s.len(),
{
    if s.len() > 0 && (s.last() == '\r' || s.last() == '\n') {
        trim_line_end(s.drop_last())
    } else {
        s
    }
}

/// A line of daemon output as logged: `[{ts}] [{stream}] {line}` with the
/// line's terminator removed.
pub fn stream_log_line(ts: u64, stream: &str, line: &str) -> (r: String)
    ensures
        r@ == "["@ + decimal(ts as nat) + "] ["@ + stream@ + "] "@ + trim_line_end(line@),
{
    let v = str_chars(line);
    let mut n = v.len();
    assert(v@.take(n as int) =~= v@);
    while n > 0 && (v[n - 1] == '\r' || v[n - 1] == '\n')
        invariant
            n <= v.len(),
            trim_line_end(v@) == trim_line_end(v@.take(n as int)),
        decreases n,
    {
        assert(v@.take(n as int).drop_last() =~= v@.take(n - 1));
        n = n - 1;
    }
    proof {
        if n > 0 {
            assert(v@.take(n as int).last() == v@[n - 1]);
        }
    }
    let mut r = to_owned("[");
    push_decimal(&mut r, ts);
    push_str(&mut r, "] [");
    push_str(&mut r, stream);
    push_str(&mut r, "] ");
    let mut i: usize = 0;
    let ghost base = r@;
    while i < n
        invariant
            n <= v.len(),
            i <= n,
            r@ == base + v@.take(i as int),
        decreases n - i,
    {
        push_char(&mut r, v[i]);
        assert(v@.take(i + 1) =~= v@.take(i as int).push(v@[i as int]));
        i = i + 1;
    }
    assert(v@.take(n as int) =~= trim_line_end(v@.take(n as int)));
    r
}

/// The last (up to) `CRASH_TAIL_LINES` lines of a log, oldest first.
pub open spec fn log_tail(content: Seq<char>) -> Seq<char> {
    let l = std_lines(content);
    let k: int = if l.len() < CRASH_TAIL_LINES {
        l.len() as int
    } else {
        CRASH_TAIL_LINES as int
    };
    join(l.subrange(l.len() - k, l.len() as int), "\n"@)
}

/// The last lines of a log, joined with `\n`, as quoted in a crash report.
pub fn crash_tail(content: &str) -> (r: String)
    ensures
        r@ == log_tail(content@),
{
    let v = str_chars(content);
    let lines = std_lines_exec(&v);
    let ghost l = std_lines(v@);
    let n = lines.len();
    let k: usize = if n < CRASH_TAIL_LINES {
        n
    } else {
        CRASH_TAIL_LINES
    };
    let start = n - k;
    let ghost sel = l.subrange(start as int, n as int);
    let mut r = String::new();
    let mut i: usize = start;
    while i < n
        invariant
            n == lines.len(),
            start <= i <= n,
            lines@.map_values(|x: Vec<char>| x@) == l,
            sel == l.subrange(start as int, n as int),
            r@ == join(sel.take(i - start), "\n"@),
        decreases n - i,
    {
        assert(lines@[i as int]@ == l[i as int]);
        assert(sel.take(i + 1 - start) =~= sel.take(i - start).push(l[i as int]));
        proof {
            lemma_join_push(sel.take(i - start), l[i as int]);
        }
        if i > start {
            push_char(&mut r, '\n');
        }
        push_chars(&mut r, &lines[i]);
        assert(r@ =~= join(sel.take(i + 1 - start), "\n"@)) by {
            reveal_strlit("\n");
        }
        i = i + 1;
    }
    assert(sel.take(n - start) =~= sel);
    r
}

/// The log entry recorded when the daemon crashed.
pub fn crash_report(content: &str) -> (r: String)
    ensures
        r@ == "Last 20 log lines on crash:\n"@ + log_tail(content@),
{
    let mut r = to_owned("Last 20 log lines on crash:\n");
    let t = crash_tail(content);
    push_str(&mut r, t.as_str());
    r
}

} // verus!
