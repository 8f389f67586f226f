//! The decisions around a usage-statistics query: which time window to ask
//! for, and what to report for each kind of answer.
use vstd::prelude::*;
use vstd::string::*;
use crate::types::{UsageData, UsageStatsResult};

verus! {

/// Seconds between UTC and the service's reporting time zone (UTC+8).
pub const REPORT_ZONE_OFFSET: i64 = 28800;

/// Whether `needle` occurs as a contiguous run of characters in `hay`.
pub open spec fn occurs_in(needle: Seq<char>, hay: Seq<char>) -> bool {
    exists|i: int| 0 <= i && i + needle.len() <= hay.len() && #[trigger] hay.subrange(i, i + needle.len()) == needle
}

/// Relies on `str::contains`: whether `needle` occurs as a contiguous run of
/// characters in `hay`.
#[verifier::external_body]
fn contains_text(hay: &str, needle: &str) -> (r: bool)
    ensures
        r == occurs_in(needle@, hay@),
{
    hay.contains(needle)
}

/// The end of the reporting day that holds `now`, in Unix seconds.
pub open spec fn day_end(now: int) -> int {
    (now + REPORT_ZONE_OFFSET) / 86400 * 86400 + 86400 - REPORT_ZONE_OFFSET
}

/// The thirty reporting days that end with the day of `now`, as
/// `(start, end)` in Unix seconds.
pub fn usage_window(now: u64) -> (r: (i64, i64))
    requires
        now <= i64::MAX - 2 * 86400,
    ensures
        r.1 == day_end(now as int),
        r.0 == day_end(now as int) - 30 * 86400,
{
    let n = now as i64;
    let days = (n + REPORT_ZONE_OFFSET) / 86400;
    assert(days * 86400 <= n + REPORT_ZONE_OFFSET) by (nonlinear_arith)
        requires
            days == (n + REPORT_ZONE_OFFSET) / 86400,
            n >= 0,
    ;
    assert(days >= 0) by (nonlinear_arith)
        requires
            days == (n + REPORT_ZONE_OFFSET) / 86400,
            n >= 0,
    ;
    let end = days * 86400 + 86400 - REPORT_ZONE_OFFSET;
    (end - 30 * 86400, end)
}

/// The body of the usage service's answer, once decoded.
pub struct UsageReply {
    pub success: bool,
    pub message: String,
    pub data: Option<Vec<UsageData>>,
}

/// How a usage query ended, as reported to the user.
pub open spec fn usage_outcome_message(
    status_ok: bool,
    status: Seq<char>,
    error_text: Seq<char>,
    content_type: Seq<char>,
    json: bool,
    reply_success: bool,
    reply_message: Seq<char>,
) -> (bool, Seq<char>) {
    if !status_ok {
        (false, "获取用量统计失败 ("@ + status + "): "@ + error_text)
    } else if !json {
        (false, "服务器返回了非JSON格式的响应 (Content-Type: "@ + content_type + ")"@)
    } else if !reply_success {
        (false, "API返回错误: "@ + reply_message)
    } else {
        (true, "获取成功"@)
    }
}

/// The outcome of a usage query. `status_ok` and `status` describe the HTTP
/// status, `error_text` the body of a failed answer, and `reply` the decoded
/// body of a successful one.
pub fn usage_stats_outcome(
    status_ok: bool,
    status: &str,
    error_text: &str,
    content_type: &str,
    reply: UsageReply,
) -> (r: UsageStatsResult)
    ensures
        ({
            let json = occurs_in("application/json"@, content_type@);
            let m = usage_outcome_message(
                status_ok,
                status@,
                error_text@,
                content_type@,
                json,
                reply.success,
                reply.message@,
            );
            &&& r.success == m.0
            &&& r.message@ == m.1
            &&& r.success ==> r.data@ == match reply.data {
                Some(d) => d@,
                None => Seq::<UsageData>::empty(),
            }
            &&& !r.success ==> r.data@.len() == 0
        }),
{
    if !status_ok {
        let mut m = String::from_str("获取用量统计失败 (");
        m.append(status);
        m.append("): ");
        m.append(error_text);
        return UsageStatsResult { success: false, message: m, data: Vec::new() };
    }
    if !contains_text(content_type, "application/json") {
        let mut m = String::from_str("服务器返回了非JSON格式的响应 (Content-Type: ");
        m.append(content_type);
        m.append(")");
        return UsageStatsResult { success: false, message: m, data: Vec::new() };
    }
    if !reply.success {
        let mut m = String::from_str("API返回错误: ");
        m.append(reply.message.as_str());
        return UsageStatsResult { success: false, message: m, data: Vec::new() };
    }
    let data = match reply.data {
        Some(d) => d,
        None => Vec::new(),
    };
    UsageStatsResult { success: true, message: String::from_str("获取成功"), data }
}

} // verus!
