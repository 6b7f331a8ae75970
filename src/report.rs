use vstd::prelude::*;
use vstd::string::StringExecFns;
use crate::tally::Snapshot;

verus! {

/// Successful operations per second over the whole run, truncated.
pub open spec fn throughput_of(s: Snapshot) -> nat
    recommends
        s.elapsed_seconds >= 1,
{
    (s.success_count / s.elapsed_seconds) as nat
}

/// The character of a decimal digit.
pub open spec fn digit_char(d: nat) -> char {
    if d == 0 {
        '0'
    } else if d == 1 {
        '1'
    } else if d == 2 {
        '2'
    } else if d == 3 {
        '3'
    } else if d == 4 {
        '4'
    } else if d == 5 {
        '5'
    } else if d == 6 {
        '6'
    } else if d == 7 {
        '7'
    } else if d == 8 {
        '8'
    } else {
        '9'
    }
}

/// The decimal notation of `n`, without leading zeros.
pub open spec fn decimal(n: nat) -> Seq<char>
    decreases n,
{
    if n < 10 {
        seq![digit_char(n)]
    } else {
        decimal(n / 10).push(digit_char(n % 10))
    }
}

/// The line that reports one snapshot.
pub open spec fn report_line(s: Snapshot) -> Seq<char> {
    decimal(throughput_of(s)) + " ok ops/sec | OK: "@ + decimal(s.success_count as nat)
        + " Err: "@ + decimal(s.failure_count as nat) + " Elapsed Time: "@ + decimal(
        s.elapsed_seconds as nat,
    )
}

/// Successful operations per second: the success count divided by the
/// elapsed seconds, truncating.
pub fn throughput(s: &Snapshot) -> (r: u64)
    requires
        s.elapsed_seconds >= 1,
    ensures
        r == throughput_of(*s),
        r == s.success_count / s.elapsed_seconds,
{
    s.success_count / s.elapsed_seconds
}

fn digit_str(d: u64) -> (r: &'static str)
    requires
        d < 10,
    ensures
        r@ == seq![digit_char(d as nat)],
{
    proof {
        reveal_strlit("0");
        reveal_strlit("1");
        reveal_strlit("2");
        reveal_strlit("3");
        reveal_strlit("4");
        reveal_strlit("5");
        reveal_strlit("6");
        reveal_strlit("7");
        reveal_strlit("8");
        reveal_strlit("9");
    }
    let r = if d == 0 {
        "0"
    } else if d == 1 {
        "1"
    } else if d == 2 {
        "2"
    } else if d == 3 {
        "3"
    } else if d == 4 {
        "4"
    } else if d == 5 {
        "5"
    } else if d == 6 {
        "6"
    } else if d == 7 {
        "7"
    } else if d == 8 {
        "8"
    } else {
        "9"
    };
    assert(r@ =~= seq![digit_char(d as nat)]);
    r
}

/// Appends the decimal notation of `n` to `out`.
pub fn push_decimal(out: &mut String, n: u64)
    ensures
        final(out)@ == old(out)@ + decimal(n as nat),
    decreases n,
{
    let ghost start = out@;
    if n >= 10 {
        push_decimal(out, n / 10);
    }
    out.append(digit_str(n % 10));
    assert(out@ =~= start + decimal(n as nat));
}

/// Renders a snapshot as
/// `<throughput> ok ops/sec | OK: <successes> Err: <failures> Elapsed Time: <seconds>`.
pub fn render_line(s: &Snapshot) -> (r: String)
    requires
        s.elapsed_seconds >= 1,
    ensures
        r@ == report_line(*s),
{
    let mut line = String::new();
    push_decimal(&mut line, throughput(s));
    line.append(" ok ops/sec | OK: ");
    push_decimal(&mut line, s.success_count);
    line.append(" Err: ");
    push_decimal(&mut line, s.failure_count);
    line.append(" Elapsed Time: ");
    push_decimal(&mut line, s.elapsed_seconds);
    assert(line@ =~= report_line(*s));
    line
}

} // verus!
