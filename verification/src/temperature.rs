//! Reading one drive's temperature and aggregating many.
//!
//! The binary invokes the SMART diagnostics tool once per device and
//! hands its exit code and captured output to `interpret_probe`, which
//! classifies the outcome and scans the report for one of the three
//! vendor spellings of the temperature attribute.  `get_hottest_temp`
//! then combines the per-device readings of one polling cycle into a
//! single representative temperature, or a documented fallback.

use vstd::prelude::*;
use crate::config::Config;
use crate::text::{
    chars_of, contains_seq, contains_x, copy_range, find_char, find_char_x, nth_token,
    nth_token_x, parse_i32, parse_i32_x,
};

verus! {

/// Why a device produced no temperature.
#[derive(Debug, PartialEq, Eq, Clone)]
pub enum TempError {
    /// The drive is in low-power standby; expected and non-alarming.
    Standby,
    /// The diagnostics tool failed; carries its error text.
    CommandFailure(String),
    /// The tool succeeded but its report held no readable temperature.
    ParseFailure,
}

/// The vendor attribute label whose value sits in the tenth
/// whitespace-separated column of its line.
pub open spec fn label_temperature_celsius() -> Seq<char> {
    "Temperature_Celsius"@
}

/// The vendor label whose value follows the first colon of its line.
pub open spec fn label_drive_temperature() -> Seq<char> {
    "Current Drive Temperature"@
}

/// The second column-style vendor label.
pub open spec fn label_airflow_temperature() -> Seq<char> {
    "Airflow_Temperature_Cel"@
}

/// A line that reports a temperature under one of the three
/// recognized vendor labels.
pub open spec fn is_temp_line(l: Seq<char>) -> bool {
    contains_seq(l, label_temperature_celsius()) || contains_seq(l, label_drive_temperature())
        || contains_seq(l, label_airflow_temperature())
}

proof fn lemma_line_end_bounds(s: Seq<char>, i: int)
    requires
        i <= s.len(),
    ensures
        i <= find_char(s, i, '\n') <= s.len(),
    decreases s.len() - i,
{
    if i < s.len() && s[i] != '\n' {
        lemma_line_end_bounds(s, i + 1);
    }
}

/// The start of the first line at or after position `i` (itself a
/// line start) that carries a recognized temperature label.
pub open spec fn find_temp_line(s: Seq<char>, i: int) -> Option<int>
    decreases s.len() + 1 - i,
    via find_temp_line_decreases
{
    if i > s.len() {
        None
    } else {
        let j = find_char(s, i, '\n');
        if is_temp_line(s.subrange(i, j)) {
            Some(i)
        } else if j >= s.len() {
            None
        } else {
            find_temp_line(s, j + 1)
        }
    }
}

#[via_fn]
proof fn find_temp_line_decreases(s: Seq<char>, i: int) {
    if i <= s.len() {
        lemma_line_end_bounds(s, i);
    }
}

/// The value field of a recognized temperature line: the tenth column
/// for the column-style labels, and for `Current Drive Temperature`
/// the first token between the first colon and the next colon or the
/// end of the line.
pub open spec fn extract_value_token(l: Seq<char>) -> Option<Seq<char>> {
    if contains_seq(l, label_temperature_celsius()) {
        nth_token(l, 9)
    } else if contains_seq(l, label_drive_temperature()) {
        let p1 = find_char(l, 0, ':');
        if p1 >= l.len() {
            None
        } else {
            let p2 = find_char(l, p1 + 1, ':');
            nth_token(l.subrange(p1 + 1, p2), 0)
        }
    } else {
        nth_token(l, 9)
    }
}

/// What a successful report yields: find the first line with a
/// recognized label, extract its value field, parse it as a signed
/// decimal Celsius count.  `None` when any of the three steps fails.
pub open spec fn parse_report(s: Seq<char>) -> Option<i32> {
    match find_temp_line(s, 0) {
        None => None,
        Some(i) => {
            let l = s.subrange(i, find_char(s, i, '\n'));
            match extract_value_token(l) {
                None => None,
                Some(t) => parse_i32(t),
            }
        },
    }
}

/// Locate the first temperature line, matching `find_temp_line`.
fn find_temp_line_x(
    report: &Vec<char>,
    i: usize,
    tc: &Vec<char>,
    cdt: &Vec<char>,
    atc: &Vec<char>,
) -> (r: Option<(usize, usize)>)
    requires
        i <= report@.len(),
        tc@ == label_temperature_celsius(),
        cdt@ == label_drive_temperature(),
        atc@ == label_airflow_temperature(),
    ensures
        match r {
            Some((a, b)) => find_temp_line(report@, i as int) == Some(a as int) && a <= b
                <= report@.len() && b == find_char(report@, a as int, '\n'),
            None => find_temp_line(report@, i as int) is None,
        },
    decreases report@.len() - i,
{
    let j = find_char_x(report, i, '\n');
    let line = copy_range(report, i, j);
    let found = contains_x(&line, tc) || contains_x(&line, cdt) || contains_x(&line, atc);
    if found {
        Some((i, j))
    } else if j >= report.len() {
        None
    } else {
        find_temp_line_x(report, j + 1, tc, cdt, atc)
    }
}

/// Extract the value field, matching `extract_value_token`.
fn extract_value_token_x(l: &Vec<char>, tc: &Vec<char>, cdt: &Vec<char>) -> (r: Option<
    Vec<char>,
>)
    requires
        tc@ == label_temperature_celsius(),
        cdt@ == label_drive_temperature(),
    ensures
        match r {
            Some(v) => extract_value_token(l@) == Some(v@),
            None => extract_value_token(l@) is None,
        },
{
    if contains_x(l, tc) {
        nth_token_x(l, 9)
    } else if contains_x(l, cdt) {
        let p1 = find_char_x(l, 0, ':');
        if p1 >= l.len() {
            None
        } else {
            let p2 = find_char_x(l, p1 + 1, ':');
            let segment = copy_range(l, p1 + 1, p2);
            nth_token_x(&segment, 0)
        }
    } else {
        nth_token_x(l, 9)
    }
}

/// Scan a report, matching `parse_report`.
pub fn parse_report_x(report: &Vec<char>) -> (r: Option<i32>)
    ensures
        r == parse_report(report@),
{
    let tc = chars_of("Temperature_Celsius");
    let cdt = chars_of("Current Drive Temperature");
    let atc = chars_of("Airflow_Temperature_Cel");
    match find_temp_line_x(report, 0, &tc, &cdt, &atc) {
        None => None,
        Some((a, b)) => {
            let line = copy_range(report, a, b);
            match extract_value_token_x(&line, &tc, &cdt) {
                None => None,
                Some(t) => parse_i32_x(&t),
            }
        },
    }
}

/// Classify one probe of the diagnostics tool.  Exit code 2 is the
/// platform's standby sentinel; any other non-zero code (or death by
/// signal, `None`) is a command failure carrying the tool's error
/// text; a success's report is scanned for a temperature.
pub fn interpret_probe(exit_code: Option<i32>, stdout: &str, stderr: &str) -> (r: Result<
    i32,
    TempError,
>)
    ensures
        exit_code == Some(2i32) ==> r matches Err(TempError::Standby),
        (match exit_code {
            Some(c) => c != 2 && c != 0,
            None => true,
        }) ==> (r matches Err(TempError::CommandFailure(m)) && m@ == stderr@),
        exit_code == Some(0i32) ==> (match parse_report(stdout@) {
            Some(t) => r == Ok::<i32, TempError>(t),
            None => r matches Err(TempError::ParseFailure),
        }),
{
    match exit_code {
        Some(2i32) => Err(TempError::Standby),
        Some(0i32) => {
            let report = chars_of(stdout);
            match parse_report_x(&report) {
                Some(t) => Ok(t),
                None => Err(TempError::ParseFailure),
            }
        },
        _ => Err(TempError::CommandFailure(stderr.to_owned())),
    }
}

/// There is at least one successful reading.
pub open spec fn has_success(rs: Seq<Result<i32, TempError>>) -> bool {
    exists|i: int| 0 <= i < rs.len() && rs[i] is Ok
}

/// The hottest successful reading, folded left to right from the
/// smallest possible temperature.
pub open spec fn hottest(rs: Seq<Result<i32, TempError>>) -> int
    decreases rs.len(),
{
    if rs.len() == 0 {
        -0x8000_0000
    } else {
        let rest = hottest(rs.drop_last());
        match rs.last() {
            Ok(t) => if t as int > rest {
                t as int
            } else {
                rest
            },
            Err(_) => rest,
        }
    }
}

/// Every reading failed because its drive is in standby.
pub open spec fn all_standby(rs: Seq<Result<i32, TempError>>) -> bool {
    forall|i: int| 0 <= i < rs.len() ==> (#[trigger] rs[i]) matches Err(TempError::Standby)
}

/// The failures among the readings, in order.
pub open spec fn failures(rs: Seq<Result<i32, TempError>>) -> Seq<TempError>
    decreases rs.len(),
{
    if rs.len() == 0 {
        Seq::empty()
    } else {
        failures(rs.drop_last()) + (match rs.last() {
            Ok(_) => Seq::empty(),
            Err(e) => seq![e],
        })
    }
}

/// When nothing succeeded, the failure list pairs up with the
/// readings one to one.
proof fn lemma_failures_all_err(rs: Seq<Result<i32, TempError>>)
    requires
        !has_success(rs),
    ensures
        failures(rs).len() == rs.len(),
        forall|i: int| 0 <= i < rs.len() ==> (rs[i] matches Err(e) && #[trigger] failures(
            rs,
        )[i] == e),
    decreases rs.len(),
{
    if rs.len() > 0 {
        assert(!has_success(rs.drop_last()));
        lemma_failures_all_err(rs.drop_last());
        assert(rs.last() is Err);
    }
}

/// One polling cycle's aggregate: the maximum temperature among the
/// successful readings; or, when every drive is asleep (or there are
/// no readings at all), the configured `temp_low`, so that the fan
/// curve settles at `min_speed`; or, when at least one drive failed
/// for a real reason and none succeeded, the whole list of failures.
#[verifier::loop_isolation(false)]
pub fn get_hottest_temp(config: &Config, readings: Vec<Result<i32, TempError>>) -> (r: Result<
    i32,
    Vec<TempError>,
>)
    ensures
        has_success(readings@) ==> (r matches Ok(t) && t as int == hottest(readings@)),
        !has_success(readings@) && all_standby(readings@) ==> r == Ok::<i32, Vec<TempError>>(
            config.temp_low,
        ),
        !has_success(readings@) && !all_standby(readings@) ==> (r matches Err(errs)
            && errs@.len() == readings@.len() && forall|i: int| 0 <= i < readings@.len()
            ==> ((#[trigger] readings@[i]) matches Err(e) && errs@[i] == e)),
{
    let ghost all = readings@;
    let mut rest = readings;
    let mut errs: Vec<TempError> = Vec::new();
    let mut max_temp: i32 = i32::MIN;
    let mut success = false;
    let mut standby_only = true;
    let mut k: usize = 0;
    proof {
        assert(rest.len() == all.len() && rest.len() <= usize::MAX);
    }
    while rest.len() > 0
        invariant
            k + rest@.len() == all.len(),
            all =~= all.take(k as int) + rest@,
            success == has_success(all.take(k as int)),
            max_temp as int == hottest(all.take(k as int)),
            standby_only == all_standby(all.take(k as int)),
            errs@ == failures(all.take(k as int)),
        decreases rest@.len(),
    {
        let rd = rest.remove(0);
        proof {
            assert(rd == all[k as int]);
            assert(all.take(k + 1 as int).drop_last() =~= all.take(k as int));
            assert(all.take(k + 1 as int).last() == all[k as int]);
        }
        match rd {
            Ok(t) => {
                if t > max_temp {
                    max_temp = t;
                }
                success = true;
                standby_only = false;
                proof {
                    assert(all.take(k + 1 as int)[k as int] is Ok);
                    assert(has_success(all.take(k + 1 as int)));
                    assert(!all_standby(all.take(k + 1 as int)));
                    assert(failures(all.take(k + 1 as int)) =~= failures(all.take(k as int)));
                }
            },
            Err(e) => {
                match &e {
                    TempError::Standby => {
                        proof {
                            if !all_standby(all.take(k as int)) {
                                let ghost w = choose|i: int| 0 <= i < k && !((#[trigger] all.take(
                                    k as int,
                                )[i]) matches Err(TempError::Standby));
                                assert(!(all.take(k + 1 as int)[w] matches Err(
                                    TempError::Standby,
                                )));
                            }
                        }
                    },
                    _ => {
                        standby_only = false;
                        proof {
                            assert(!(all.take(k + 1 as int)[k as int] matches Err(
                                TempError::Standby,
                            )));
                        }
                    },
                }
                proof {
                    assert(failures(all.take(k + 1 as int)) =~= failures(all.take(k as int))
                        + seq![e]);
                    if has_success(all.take(k + 1 as int)) {
                        let ghost w = choose|i: int| 0 <= i < k + 1 && (#[trigger] all.take(
                            k + 1 as int,
                        )[i]) is Ok;
                        assert(0 <= w < k && all.take(k as int)[w] is Ok);
                    }
                }
                errs.push(e);
            },
        }
        k = k + 1;
        proof {
            if has_success(all.take(k as int)) && !success {
                let ghost w = choose|i: int| 0 <= i < k && (#[trigger] all.take(k as int)[i]) is Ok;
                if w < k - 1 {
                    assert(all.take(k - 1 as int)[w] is Ok);
                }
            }
        }
    }
    proof {
        assert(all.take(all.len() as int) =~= all);
    }
    if success {
        Ok(max_temp)
    } else if standby_only {
        Ok(config.temp_low)
    } else {
        proof {
            lemma_failures_all_err(all);
        }
        Err(errs)
    }
}

} // verus!
