//! The report that the monitor posts to the log service after each cycle.

use vstd::prelude::*;
use crate::container::Container;

verus! {

/// The figures of one snapshot together with the ranked containers and the
/// local wall-clock time of the report.
pub struct CpuReport {
    pub total_ram: i64,
    pub free_ram: i64,
    pub ram_in_use: i64,
    pub processes: Vec<Container>,
    pub time: String,
}

/// `c` is a decimal digit.
pub open spec fn is_digit(c: char) -> bool {
    '0' <= c && c <= '9'
}

/// The value of the two decimal digits `hi` and `lo`.
pub open spec fn two_digits(hi: char, lo: char) -> int {
    10 * ((hi as int) - ('0' as int)) + ((lo as int) - ('0' as int))
}

/// `t` reads `HH:MM:SS`: hour 00 to 23, minute 00 to 59, second 00 to 60
/// (a leap second shows as 60).
pub open spec fn is_clock_text(t: Seq<char>) -> bool {
    &&& t.len() == 8
    &&& t[2] == ':' && t[5] == ':'
    &&& is_digit(t[0]) && is_digit(t[1]) && is_digit(t[3])
    &&& is_digit(t[4]) && is_digit(t[6]) && is_digit(t[7])
    &&& two_digits(t[0], t[1]) <= 23
    &&& two_digits(t[3], t[4]) <= 59
    &&& two_digits(t[6], t[7]) <= 60
}

/// The local time of day: the system clock (std's `SystemTime::now`)
/// converted with chrono's `From<SystemTime> for DateTime<Local>`, which
/// also handles a clock before 1970, then formatted with `"%H:%M:%S"`.
/// chrono documents `%H` as the hour 00 to 23, `%M` as the minute 00 to 59
/// and `%S` as the second 00 to 60, each zero-padded to two digits; that
/// shape is all that is claimed, since which time it is depends on the clock
/// and the machine's time zone.
#[verifier::external_body]
fn local_clock_hms() -> (t: String)
    ensures
        is_clock_text(t@),
{
    chrono::DateTime::<chrono::Local>::from(std::time::SystemTime::now()).format(
        "%H:%M:%S",
    ).to_string()
}

/// The report of a snapshot's figures and ranked containers, stamped with
/// `time`.
pub fn build_report(
    total_ram: i64,
    free_ram: i64,
    ram_in_use: i64,
    processes: Vec<Container>,
    time: String,
) -> (report: CpuReport)
    ensures
        report.total_ram == total_ram,
        report.free_ram == free_ram,
        report.ram_in_use == ram_in_use,
        report.processes@ == processes@,
        report.time@ == time@,
{
    CpuReport { total_ram, free_ram, ram_in_use, processes, time }
}

/// The report of a snapshot's figures and ranked containers, stamped with the
/// current local time of day.
pub fn report_now(
    total_ram: i64,
    free_ram: i64,
    ram_in_use: i64,
    processes: Vec<Container>,
) -> (report: CpuReport)
    ensures
        report.total_ram == total_ram,
        report.free_ram == free_ram,
        report.ram_in_use == ram_in_use,
        report.processes@ == processes@,
        is_clock_text(report.time@),
{
    let time = local_clock_hms();
    build_report(total_ram, free_ram, ram_in_use, processes, time)
}

} // verus!
