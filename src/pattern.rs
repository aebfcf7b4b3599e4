use vstd::prelude::*;
use crate::records::{AccessLogEntry, AccessView, ApacheLogEntry, ApacheView, LaravelLogEntry, LaravelView};

verus! {

/// Application log: `[date] env.level: message`, over the whole line.
/// Groups: 1 date, 2 env, 3 level, 4 message.
pub const LARAVEL_PATTERN: &'static str = r#"^\[(?P<date>\d{4}-\d{2}-\d{2} \d{2}:\d{2}:\d{2})\] (?P<env>\w+)\.(?P<level>\w+): (?P<message>.+)$"#;

/// Web-server error log, over the whole line:
/// `[date] [module:level] [pid N(:tid M)?] ([client addr])? message`.
/// Groups: 1 date, 2 module, 3 level, 4 pid, 5 client, 6 message.
pub const APACHE_PATTERN: &'static str = r#"^\[(?P<date>[A-Za-z]{3} [A-Za-z]{3} \d{2} \d{2}:\d{2}:\d{2}\.\d+ \d{4})\] \[(?P<module>[^\:]+):(?P<level>[^\]]+)\] \[pid (?P<pid>\d+)(?::tid \d+)?\](?: \[client (?P<client>[^\]]+)\])? (?P<message>.+)$"#;

/// Web-server access log, common/combined layout, over the whole line.
/// Groups: 1 ip, 2 datetime, 3 method, 4 url, 5 protocol, 6 status, 7 size,
/// 8 referrer, 9 user agent.
pub const ACCESS_PATTERN: &'static str = r#"^(?P<ip>\S+) - - \[(?P<datetime>[^\]]+)\] "(?P<method>\S+) (?P<url>\S+) (?P<protocol>[^"]+)" (?P<status>\d+) (?P<size>\d+) "(?P<referrer>[^"]*)" "(?P<user_agent>[^"]*)"$"#;

/// The capture groups that the regular expression `pattern` yields on `line`,
/// group 0 first: `None` when it does not match (or does not compile).
pub uninterp spec fn pattern_captures(pattern: Seq<char>, line: Seq<char>) -> Option<
    Seq<Option<Seq<char>>>,
>;

/// The capture groups of one line, as text.
pub type Captures = Option<Vec<Option<String>>>;

/// Relies on regex::Regex::new and regex::Regex::captures: the groups of the
/// leftmost match of `pattern` in `line`, which depend on the two texts alone.
#[verifier::external_body]
fn regex_captures(pattern: &str, line: &str) -> (r: Captures)
    ensures
        r.deep_view() == pattern_captures(pattern@, line@),
{
    match regex::Regex::new(pattern) {
        Ok(re) => re.captures(line).map(
            |c| c.iter().map(|g| g.map(|m| m.as_str().to_string())).collect(),
        ),
        Err(_) => None,
    }
}

/// The capture groups of `pattern` on each of `lines`, in order.
pub fn capture_lines(pattern: &str, lines: &Vec<String>) -> (r: Vec<Captures>)
    ensures
        r@.len() == lines@.len(),
        forall|i: int|
            0 <= i < lines@.len() ==> (#[trigger] r@[i]).deep_view() == pattern_captures(
                pattern@,
                lines@[i]@,
            ),
{
    let mut out: Vec<Captures> = Vec::new();
    let mut i: usize = 0;
    while i < lines.len()
        invariant
            i <= lines@.len(),
            out@.len() == i,
            forall|k: int|
                0 <= k < i ==> (#[trigger] out@[k]).deep_view() == pattern_captures(
                    pattern@,
                    lines@[k]@,
                ),
        decreases lines@.len() - i,
    {
        out.push(regex_captures(pattern, lines[i].as_str()));
        i = i + 1;
    }
    out
}

/// Group `i` of `groups`, or `None` when there is no such group or it did not
/// take part in the match.
pub open spec fn group(groups: Seq<Option<Seq<char>>>, i: int) -> Option<Seq<char>> {
    if 0 <= i < groups.len() {
        groups[i]
    } else {
        None
    }
}

fn group_text(groups: &Vec<Option<String>>, i: usize) -> (r: Option<String>)
    ensures
        r.deep_view() == group(groups.deep_view(), i as int),
{
    if i < groups.len() {
        match &groups[i] {
            Some(s) => Some(s.clone()),
            None => None,
        }
    } else {
        None
    }
}

/// The application-log record that a line with these groups opens, if any.
pub open spec fn laravel_header(caps: Option<Seq<Option<Seq<char>>>>) -> Option<LaravelView> {
    match caps {
        Some(g) => if group(g, 1) is Some && group(g, 3) is Some && group(g, 4) is Some {
            Some(
                LaravelView {
                    date: group(g, 1)->0,
                    log_level: group(g, 3)->0,
                    message: group(g, 4)->0,
                },
            )
        } else {
            None
        },
        None => None,
    }
}

/// The error-log record that a line with these groups opens, if any.
pub open spec fn apache_header(caps: Option<Seq<Option<Seq<char>>>>) -> Option<ApacheView> {
    match caps {
        Some(g) => if group(g, 1) is Some && group(g, 3) is Some && group(g, 4) is Some && group(
            g,
            6,
        ) is Some {
            Some(
                ApacheView {
                    date: group(g, 1)->0,
                    log_level: group(g, 3)->0,
                    pid: group(g, 4)->0,
                    message: group(g, 6)->0,
                },
            )
        } else {
            None
        },
        None => None,
    }
}

/// Whether each group from `from` to `to` (inclusive) took part in the match.
pub open spec fn groups_present(g: Seq<Option<Seq<char>>>, from: int, to: int) -> bool {
    forall|i: int| from <= i <= to ==> #[trigger] group(g, i) is Some
}

/// The access-log record of a line with these groups, if any.
pub open spec fn access_record(caps: Option<Seq<Option<Seq<char>>>>) -> Option<AccessView> {
    match caps {
        Some(g) => if groups_present(g, 1, 9) {
            Some(
                AccessView {
                    ip: group(g, 1)->0,
                    datetime: group(g, 2)->0,
                    method: group(g, 3)->0,
                    url: group(g, 4)->0,
                    protocol: group(g, 5)->0,
                    status: group(g, 6)->0,
                    size: group(g, 7)->0,
                    referrer: group(g, 8)->0,
                    user_agent: group(g, 9)->0,
                },
            )
        } else {
            None
        },
        None => None,
    }
}

pub open spec fn laravel_opt_view(r: Option<LaravelLogEntry>) -> Option<LaravelView> {
    match r {
        Some(e) => Some(e@),
        None => None,
    }
}

pub open spec fn apache_opt_view(r: Option<ApacheLogEntry>) -> Option<ApacheView> {
    match r {
        Some(e) => Some(e@),
        None => None,
    }
}

pub open spec fn access_opt_view(r: Option<AccessLogEntry>) -> Option<AccessView> {
    match r {
        Some(e) => Some(e@),
        None => None,
    }
}

/// The application-log record that a line with the groups `caps` opens:
/// `None` when the line is no header.
pub fn laravel_entry(caps: &Captures) -> (r: Option<LaravelLogEntry>)
    ensures
        laravel_opt_view(r) == laravel_header(caps.deep_view()),
{
    match caps {
        None => None,
        Some(g) => match (group_text(g, 1), group_text(g, 3), group_text(g, 4)) {
            (Some(date), Some(log_level), Some(message)) => Some(
                LaravelLogEntry { date, log_level, message },
            ),
            _ => None,
        },
    }
}

/// The error-log record that a line with the groups `caps` opens:
/// `None` when the line is no header.
pub fn apache_entry(caps: &Captures) -> (r: Option<ApacheLogEntry>)
    ensures
        apache_opt_view(r) == apache_header(caps.deep_view()),
{
    match caps {
        None => None,
        Some(g) => match (group_text(g, 1), group_text(g, 3), group_text(g, 4), group_text(g, 6)) {
            (Some(date), Some(log_level), Some(pid), Some(message)) => Some(
                ApacheLogEntry { date, log_level, pid, message },
            ),
            _ => None,
        },
    }
}

/// The access-log record of a line with the groups `caps`: `None` when the
/// line does not match.
pub fn access_entry(caps: &Captures) -> (r: Option<AccessLogEntry>)
    ensures
        access_opt_view(r) == access_record(caps.deep_view()),
{
    match caps {
        None => None,
        Some(g) => {
            let ip = group_text(g, 1);
            let datetime = group_text(g, 2);
            let method = group_text(g, 3);
            let url = group_text(g, 4);
            let protocol = group_text(g, 5);
            let status = group_text(g, 6);
            let size = group_text(g, 7);
            let referrer = group_text(g, 8);
            let user_agent = group_text(g, 9);
            match (ip, datetime, method, url, protocol, status, size, referrer, user_agent) {
                (
                    Some(ip),
                    Some(datetime),
                    Some(method),
                    Some(url),
                    Some(protocol),
                    Some(status),
                    Some(size),
                    Some(referrer),
                    Some(user_agent),
                ) => Some(
                    AccessLogEntry {
                        ip,
                        datetime,
                        method,
                        url,
                        protocol,
                        status,
                        size,
                        referrer,
                        user_agent,
                    },
                ),
                _ => {
                    proof {
                        let gv = g.deep_view();
                        assert(!groups_present(gv, 1, 9));
                    }
                    None
                },
            }
        },
    }
}

} // verus!
