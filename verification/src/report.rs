//! The text of a benchmark report.

use crate::average::Tally;
use crate::duration::{Duration, NANOS_PER_MILLI};
use vstd::prelude::*;
use vstd::string::StringExecFns;

verus! {

/// The character of a decimal digit.
pub open spec fn digit(d: nat) -> char {
    if d == 0 {
        '0'
    } else if d == 1 {
        '1'
    } else if d == 2 {
        '2'
    } else if d == 3 {
        '3'
    } else if d == 4 {
        '4'
    } else if d == 5 {
        '5'
    } else if d == 6 {
        '6'
    } else if d == 7 {
        '7'
    } else if d == 8 {
        '8'
    } else {
        '9'
    }
}

/// `n` in decimal, without leading zeros.
pub open spec fn decimal(n: nat) -> Seq<char>
    decreases n,
{
    if n < 10 {
        seq![digit(n)]
    } else {
        decimal(n / 10).push(digit(n % 10))
    }
}

/// The first line of a report.
pub open spec fn report_header() -> Seq<char> {
    "Benchmark results:"@
}

/// The line of a report for `name` with the tally `tally`: the name, the
/// count, the total and the average, the last two in whole milliseconds.
pub open spec fn report_line(name: Seq<char>, tally: Tally) -> Seq<char> {
    name + " - count: "@ + decimal(tally.count) + " - total: "@ + decimal(
        tally.total / (NANOS_PER_MILLI as nat),
    ) + "ms - average: "@ + decimal(tally.mean() / (NANOS_PER_MILLI as nat)) + "ms"@
}

/// The digit that a character stands for; zero for any other character.
pub open spec fn digit_value(c: char) -> nat {
    if c == '1' {
        1
    } else if c == '2' {
        2
    } else if c == '3' {
        3
    } else if c == '4' {
        4
    } else if c == '5' {
        5
    } else if c == '6' {
        6
    } else if c == '7' {
        7
    } else if c == '8' {
        8
    } else if c == '9' {
        9
    } else {
        0
    }
}

/// The number that `text` is in decimal.
pub open spec fn decimal_value(text: Seq<char>) -> nat
    decreases text.len(),
{
    if text.len() == 0 {
        0
    } else {
        decimal_value(text.drop_last()) * 10 + digit_value(text.last())
    }
}

/// Read back, the decimal text of a number gives that number. The text is
/// never empty, and only that of zero starts with a zero.
pub proof fn lemma_decimal_reads_back(n: nat)
    ensures
        decimal_value(decimal(n)) == n,
        decimal(n).len() >= 1,
        n > 0 ==> decimal(n)[0] != '0',
    decreases n,
{
    if n < 10 {
        assert(decimal(n).drop_last() =~= Seq::<char>::empty());
        assert(decimal_value(decimal(n).drop_last()) == 0);
    } else {
        lemma_decimal_reads_back(n / 10);
        assert(decimal(n).drop_last() =~= decimal(n / 10));
    }
}

/// The text of one decimal digit.
fn digit_text(d: u128) -> (text: &'static str)
    requires
        d < 10,
    ensures
        text@ == seq![digit(d as nat)],
{
    proof {
        reveal_strlit("0");
        reveal_strlit("1");
        reveal_strlit("2");
        reveal_strlit("3");
        reveal_strlit("4");
        reveal_strlit("5");
        reveal_strlit("6");
        reveal_strlit("7");
        reveal_strlit("8");
        reveal_strlit("9");
    }
    let text = if d == 0 {
        "0"
    } else if d == 1 {
        "1"
    } else if d == 2 {
        "2"
    } else if d == 3 {
        "3"
    } else if d == 4 {
        "4"
    } else if d == 5 {
        "5"
    } else if d == 6 {
        "6"
    } else if d == 7 {
        "7"
    } else if d == 8 {
        "8"
    } else {
        "9"
    };
    assert(text@ =~= seq![digit(d as nat)]);
    text
}

/// Appends `n` in decimal to `out`.
pub fn push_decimal(out: &mut String, n: u128)
    ensures
        final(out)@ == old(out)@ + decimal(n as nat),
    decreases n,
{
    if n >= 10 {
        push_decimal(out, n / 10);
    }
    out.append(digit_text(n % 10));
    assert(out@ =~= old(out)@ + decimal(n as nat));
}

/// The line of a report for `name`, from its count and its total.
pub fn render_line(name: &str, count: u32, total: Duration) -> (line: String)
    ensures
        line@ == report_line(name@, Tally { count: count as nat, total: total@ }),
{
    let average = if count == 0 {
        Duration::zero()
    } else {
        total.div_count(count)
    };
    let mut line = String::from_str(name);
    line.append(" - count: ");
    push_decimal(&mut line, count as u128);
    line.append(" - total: ");
    push_decimal(&mut line, total.as_millis());
    line.append("ms - average: ");
    push_decimal(&mut line, average.as_millis());
    line.append("ms");
    line
}

/// The first line of a report.
pub fn render_header() -> (line: String)
    ensures
        line@ == report_header(),
{
    String::from_str("Benchmark results:")
}

} // verus!
