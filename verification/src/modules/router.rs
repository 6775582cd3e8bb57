use vstd::prelude::*;
use crate::utils::time::{now_thai_string, standard_text, MAX_UNIX_SECONDS, THAI_OFFSET_SECONDS};

verus! {

/// What the health check reports.
#[derive(Debug, PartialEq, Eq)]
pub struct HealthReport {
    pub status: String,
    pub version: String,
    pub message: String,
    pub timestamp: String,
}

/// The health report of a running service of version `version`, stamped with the current
/// time in Thailand time.
pub fn health_report(version: &str) -> (report: HealthReport)
    ensures
        report.status@ == "ok"@,
        report.version@ == version@,
        report.message@ == "\u{2728} System is healthy and running"@,
        exists|secs: i64|
            0 <= secs <= MAX_UNIX_SECONDS && #[trigger] standard_text(secs, THAI_OFFSET_SECONDS) == report.timestamp@,
{
    HealthReport {
        status: String::from_str("ok"),
        version: String::from_str(version),
        message: String::from_str("\u{2728} System is healthy and running"),
        timestamp: now_thai_string(),
    }
}

} // verus!
