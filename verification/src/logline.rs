//! The persisted log format: one line per instrument per aggregation
//! cycle, `<nanosecond timestamp>,<value to two decimal places>`. The
//! pipeline only builds the lines; appending them to the log file is the
//! caller's concern, and a failed append is skipped, never fatal.
use vstd::prelude::*;
use vstd::string::StringExecFns;

use crate::series::{in_range, Series};

verus! {

/// The decimal digit character for one digit value.
pub open spec fn digit_char(d: int) -> char {
    if d == 0 {
        '0'
    } else if d == 1 {
        '1'
    } else if d == 2 {
        '2'
    } else if d == 3 {
        '3'
    } else if d == 4 {
        '4'
    } else if d == 5 {
        '5'
    } else if d == 6 {
        '6'
    } else if d == 7 {
        '7'
    } else if d == 8 {
        '8'
    } else {
        '9'
    }
}

/// The usual decimal rendering of a non-negative integer: no leading
/// zeros, except that zero itself is "0".
pub open spec fn dec_str(n: nat) -> Seq<char>
    decreases n,
{
    if n < 10 {
        seq![digit_char(n as int)]
    } else {
        dec_str(n / 10).push(digit_char((n % 10) as int))
    }
}

/// A fixed-point value rendered to two decimal places: an optional
/// minus sign, the whole units, a point, and exactly two fraction
/// digits. `v` is in hundredths of a unit.
pub open spec fn fixed_str(v: i64) -> Seq<char> {
    let sign: Seq<char> = if v < 0 {
        seq!['-']
    } else {
        Seq::<char>::empty()
    };
    let m = if v < 0 {
        (-v) as nat
    } else {
        v as nat
    };
    sign + dec_str(m / 100) + seq!['.'] + seq![
        digit_char(((m % 100) / 10) as int),
        digit_char((m % 10) as int),
    ]
}

/// One log line, without the trailing newline the file format appends:
/// the integer nanosecond timestamp, a comma, and the value to two
/// decimal places.
pub open spec fn log_line_spec(timestamp_ns: u64, v: i64) -> Seq<char> {
    dec_str(timestamp_ns as nat) + seq![','] + fixed_str(v)
}

/// The decimal digit character for one digit value, executed.
fn digit_literal(d: u64) -> (c: &'static str)
    requires
        d < 10,
    ensures
        c@ == seq![digit_char(d as int)],
{
    proof {
        reveal_strlit("0");
        reveal_strlit("1");
        reveal_strlit("2");
        reveal_strlit("3");
        reveal_strlit("4");
        reveal_strlit("5");
        reveal_strlit("6");
        reveal_strlit("7");
        reveal_strlit("8");
        reveal_strlit("9");
    }
    match d {
        0 => "0",
        1 => "1",
        2 => "2",
        3 => "3",
        4 => "4",
        5 => "5",
        6 => "6",
        7 => "7",
        8 => "8",
        _ => "9",
    }
}

/// Append the decimal rendering of `n` to `out`.
fn push_decimal(out: &mut String, n: u64)
    ensures
        final(out)@ == old(out)@ + dec_str(n as nat),
    decreases n,
{
    if n >= 10 {
        push_decimal(out, n / 10);
    }
    out.append(digit_literal(n % 10));
    proof {
        assert(out@ =~= old(out)@ + dec_str(n as nat));
    }
}

/// One log line for one derived value at one instant, matching
/// `log_line_spec` exactly.
pub fn format_log_line(timestamp_ns: u64, v: i64) -> (line: String)
    requires
        in_range(v),
    ensures
        line@ == log_line_spec(timestamp_ns, v),
{
    let mut line = String::new();
    push_decimal(&mut line, timestamp_ns);
    proof {
        reveal_strlit(",");
        reveal_strlit("-");
        reveal_strlit(".");
    }
    line.append(",");
    let m: u64 = if v < 0 {
        line.append("-");
        (-v) as u64
    } else {
        v as u64
    };
    push_decimal(&mut line, m / 100);
    line.append(".");
    line.append(digit_literal((m % 100) / 10));
    line.append(digit_literal(m % 10));
    proof {
        assert(line@ =~= log_line_spec(timestamp_ns, v));
    }
    line
}

/// The log lines one aggregation cycle appends: one line per derived
/// series, in id order, all stamped with the same instant.
pub fn log_lines(snapshot: &Vec<Series>, timestamp_ns: u64) -> (lines: Vec<String>)
    requires
        forall|i: int| 0 <= i < snapshot@.len() ==> in_range(
            (#[trigger] snapshot@[i]).current_value,
        ),
    ensures
        lines@.len() == snapshot@.len(),
        forall|i: int| 0 <= i < lines@.len() ==> (#[trigger] lines@[i])@ == log_line_spec(
            timestamp_ns,
            snapshot@[i].current_value,
        ),
{
    let mut lines: Vec<String> = Vec::new();
    let mut i: usize = 0;
    while i < snapshot.len()
        invariant
            i <= snapshot@.len(),
            lines@.len() == i,
            forall|k: int| 0 <= k < snapshot@.len() ==> in_range(
                (#[trigger] snapshot@[k]).current_value,
            ),
            forall|k: int| 0 <= k < i ==> (#[trigger] lines@[k])@ == log_line_spec(
                timestamp_ns,
                snapshot@[k].current_value,
            ),
        decreases snapshot@.len() - i,
    {
        lines.push(format_log_line(timestamp_ns, snapshot[i].current_value));
        i = i + 1;
    }
    lines
}

} // verus!
