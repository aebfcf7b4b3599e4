use log_analyzer::pattern::{laravel_entry, access_entry, apache_entry};
use log_analyzer::assemble::{assemble_laravel, assemble_apache, collect_access};
use log_analyzer::text::{contains_text, eq_ignore_ascii_case};
use log_analyzer::{
    analyze_access_log, analyze_apache_log, analyze_laravel_log, select_format, LogFormat,
    UsageError,
};

fn lines(v: &[&str]) -> Vec<String> {
    v.iter().map(|s| s.to_string()).collect()
}

const ACCESS_LINE: &str = "127.0.0.1 - - [22/Aug/2024:10:00:00 +0000] \"GET /index.html HTTP/1.1\" 200 1024 \"-\" \"Mozilla/5.0\"";

#[test]
fn application_single_line_record() {
    let input = lines(&["[2024-08-22 10:00:00] local.ERROR: Something failed"]);
    let r = analyze_laravel_log(&input, None, None);
    assert_eq!(r.len(), 1);
    assert_eq!(r[0].date, "2024-08-22 10:00:00");
    assert_eq!(r[0].log_level, "ERROR");
    assert_eq!(r[0].message, "Something failed");
}

#[test]
fn application_record_with_continuation() {
    let input = lines(&[
        "[2024-08-22 10:00:00] local.ERROR: Something failed",
        "Stack trace line 1",
    ]);
    let r = analyze_laravel_log(&input, None, None);
    assert_eq!(r.len(), 1);
    assert_eq!(r[0].message, "Something failed\nStack trace line 1");
}

#[test]
fn application_many_continuations_in_order() {
    let input = lines(&[
        "[2024-08-22 10:00:00] local.ERROR: Boom",
        "#0 first",
        "  #1 second  ",
        "",
    ]);
    let r = analyze_laravel_log(&input, None, None);
    assert_eq!(r.len(), 1);
    assert_eq!(r[0].message, "Boom\n#0 first\n  #1 second  \n");
}

#[test]
fn application_orphan_lines_dropped() {
    let input = lines(&[
        "orphan one",
        "orphan two",
        "[2024-08-22 10:00:00] local.INFO: Started",
    ]);
    let r = analyze_laravel_log(&input, None, None);
    assert_eq!(r.len(), 1);
    assert_eq!(r[0].message, "Started");
    assert!(analyze_laravel_log(&lines(&["no header here"]), None, None).is_empty());
}

#[test]
fn application_records_keep_file_order() {
    let input = lines(&[
        "[2024-08-22 10:00:00] local.ERROR: first",
        "more of first",
        "[2024-08-21 09:00:00] production.INFO: second",
        "[2024-08-23 11:00:00] local.WARNING: third",
        "tail",
    ]);
    let r = analyze_laravel_log(&input, None, None);
    assert_eq!(r.len(), 3);
    assert_eq!(r[0].message, "first\nmore of first");
    assert_eq!(r[1].message, "second");
    assert_eq!(r[1].log_level, "INFO");
    assert_eq!(r[2].message, "third\ntail");
    assert_eq!(r[2].date, "2024-08-23 11:00:00");
}

#[test]
fn application_level_filter_ignores_case() {
    let input = lines(&[
        "[2024-08-22 10:00:00] local.ERROR: upper",
        "[2024-08-22 10:00:01] local.Error: mixed",
        "[2024-08-22 10:00:02] local.INFO: other",
    ]);
    let r = analyze_laravel_log(&input, None, Some("error"));
    assert_eq!(r.len(), 2);
    assert_eq!(r[0].message, "upper");
    assert_eq!(r[1].message, "mixed");
}

#[test]
fn application_filters_are_a_conjunction() {
    let input = lines(&[
        "[2024-08-22 10:00:00] local.ERROR: a",
        "[2024-08-23 10:00:00] local.ERROR: b",
        "[2024-08-22 11:00:00] local.INFO: c",
    ]);
    let r = analyze_laravel_log(&input, Some("2024-08-22"), Some("ERROR"));
    assert_eq!(r.len(), 1);
    assert_eq!(r[0].message, "a");
    assert_eq!(analyze_laravel_log(&input, Some("08-22 1"), None).len(), 2);
    assert_eq!(analyze_laravel_log(&input, None, None).len(), 3);
    assert!(analyze_laravel_log(&input, Some("2025"), None).is_empty());
}

#[test]
fn application_filter_does_not_read_continuations() {
    let input = lines(&["[2024-08-22 10:00:00] local.INFO: ok", "ERROR 2030-01-01"]);
    assert!(analyze_laravel_log(&input, Some("2030"), None).is_empty());
    assert_eq!(analyze_laravel_log(&input, Some("2024"), Some("info")).len(), 1);
}

#[test]
fn error_log_without_client_clause() {
    let input = lines(&["[Thu Aug 22 10:00:00.123456 2024] [php:notice] [pid 4242] Server started"]);
    let r = analyze_apache_log(&input, None, None);
    assert_eq!(r.len(), 1);
    assert_eq!(r[0].pid, "4242");
    assert_eq!(r[0].message, "Server started");
    assert_eq!(r[0].log_level, "notice");
    assert_eq!(r[0].date, "Thu Aug 22 10:00:00.123456 2024");
}

#[test]
fn error_log_with_client_and_thread() {
    let input = lines(&[
        "[Thu Aug 22 10:00:00.123456 2024] [core:error] [pid 1234:tid 5678] [client 10.0.0.1:5555] File does not exist",
    ]);
    let r = analyze_apache_log(&input, None, None);
    assert_eq!(r.len(), 1);
    assert_eq!(r[0].log_level, "error");
    assert_eq!(r[0].pid, "1234");
    assert_eq!(r[0].message, "File does not exist");
}

#[test]
fn error_log_continuations_and_orphans() {
    let input = lines(&[
        "orphan before any header",
        "[Thu Aug 22 10:00:00.1 2024] [core:error] [pid 1] first",
        "detail",
        "[Fri Aug 23 10:00:00.2 2024] [core:warn] [pid 2] second",
    ]);
    let r = analyze_apache_log(&input, None, None);
    assert_eq!(r.len(), 2);
    assert_eq!(r[0].message, "first\ndetail");
    assert_eq!(r[1].message, "second");
    assert_eq!(r[1].pid, "2");
}

#[test]
fn error_log_filters() {
    let input = lines(&[
        "[Thu Aug 22 10:00:00.1 2024] [core:error] [pid 1] first",
        "[Fri Aug 23 10:00:00.2 2024] [core:ERROR] [pid 2] second",
        "[Fri Aug 23 10:00:00.3 2024] [core:warn] [pid 3] third",
    ]);
    assert_eq!(analyze_apache_log(&input, None, Some("Error")).len(), 2);
    let r = analyze_apache_log(&input, Some("Aug 23"), Some("error"));
    assert_eq!(r.len(), 1);
    assert_eq!(r[0].pid, "2");
}

#[test]
fn access_log_status_filter() {
    let input = lines(&[ACCESS_LINE]);
    let r = analyze_access_log(&input, Some("200"), None);
    assert_eq!(r.len(), 1);
    assert_eq!(r[0].ip, "127.0.0.1");
    assert_eq!(r[0].datetime, "22/Aug/2024:10:00:00 +0000");
    assert_eq!(r[0].method, "GET");
    assert_eq!(r[0].url, "/index.html");
    assert_eq!(r[0].protocol, "HTTP/1.1");
    assert_eq!(r[0].status, "200");
    assert_eq!(r[0].size, "1024");
    assert_eq!(r[0].referrer, "-");
    assert_eq!(r[0].user_agent, "Mozilla/5.0");
    assert!(analyze_access_log(&input, Some("404"), None).is_empty());
    assert!(analyze_access_log(&input, Some("20"), None).is_empty());
}

#[test]
fn access_log_method_filter_and_drops() {
    let input = lines(&[
        ACCESS_LINE,
        "garbage line",
        "10.0.0.2 - - [22/Aug/2024:10:00:01 +0000] \"POST /api HTTP/2\" 404 0 \"\" \"\"",
    ]);
    let all = analyze_access_log(&input, None, None);
    assert_eq!(all.len(), 2);
    assert_eq!(all[1].referrer, "");
    assert_eq!(all[1].user_agent, "");
    let r = analyze_access_log(&input, None, Some("post"));
    assert_eq!(r.len(), 1);
    assert_eq!(r[0].ip, "10.0.0.2");
    assert!(analyze_access_log(&input, Some("404"), Some("get")).is_empty());
}

#[test]
fn format_selection() {
    assert_eq!(select_format(true, false, false), Ok(LogFormat::Laravel));
    assert_eq!(select_format(false, true, false), Ok(LogFormat::Apache));
    assert_eq!(select_format(false, false, true), Ok(LogFormat::Access));
    assert_eq!(select_format(false, false, false), Err(UsageError::NoFormat));
    assert_eq!(select_format(true, true, false), Err(UsageError::ConflictingFormats));
    assert_eq!(select_format(true, false, true), Err(UsageError::ConflictingFormats));
    assert_eq!(select_format(true, true, true), Err(UsageError::ConflictingFormats));
}

#[test]
fn text_helpers() {
    assert!(contains_text("2024-08-22 10:00:00", "08-22"));
    assert!(contains_text("abc", ""));
    assert!(!contains_text("ab", "abc"));
    assert!(!contains_text("abcd", "bd"));
    assert!(eq_ignore_ascii_case("ERROR", "error"));
    assert!(eq_ignore_ascii_case("Error", "eRROR"));
    assert!(!eq_ignore_ascii_case("error", "errors"));
    assert!(!eq_ignore_ascii_case("é", "É"));
}

fn groups(v: &[Option<&str>]) -> Option<Vec<Option<String>>> {
    Some(v.iter().map(|g| g.map(|s| s.to_string())).collect())
}

#[test]
fn header_from_given_groups() {
    let caps = groups(&[Some("whole"), Some("D"), Some("env"), Some("L"), Some("M")]);
    let e = laravel_entry(&caps).unwrap();
    assert_eq!((e.date.as_str(), e.log_level.as_str(), e.message.as_str()), ("D", "L", "M"));
    assert!(laravel_entry(&None).is_none());
    assert!(laravel_entry(&groups(&[Some("w"), Some("D")])).is_none());
    let caps = groups(&[Some("w"), Some("D"), Some("m"), Some("L"), Some("7"), None, Some("M")]);
    let e = apache_entry(&caps).unwrap();
    assert_eq!(e.pid, "7");
    assert_eq!(e.message, "M");
    let caps = groups(&[Some("w"), Some("ip"), Some("dt"), Some("GET"), Some("/"), Some("P"), Some("200"), Some("1"), Some(""), None]);
    assert!(access_entry(&caps).is_none());
}

#[test]
fn assembly_from_given_groups() {
    let input = lines(&["x", "h1", "c1", "h2"]);
    let head = |m: &str| groups(&[Some("w"), Some("d"), Some("e"), Some("L"), Some(m)]);
    let caps = vec![None, head("one"), None, head("two")];
    let r = assemble_laravel(&input, &caps);
    assert_eq!(r.len(), 2);
    assert_eq!(r[0].message, "one\nc1");
    assert_eq!(r[1].message, "two");
    let ahead = groups(&[Some("w"), Some("d"), Some("m"), Some("L"), Some("9"), None, Some("msg")]);
    let r = assemble_apache(&input, &vec![None, ahead, None, None]);
    assert_eq!(r.len(), 1);
    assert_eq!(r[0].message, "msg\nc1\nh2");
    let acc = groups(&[Some("w"), Some("ip"), Some("dt"), Some("GET"), Some("/"), Some("P"), Some("200"), Some("1"), Some(""), Some("")]);
    let r = collect_access(&vec![None, acc, None]);
    assert_eq!(r.len(), 1);
    assert_eq!(r[0].status, "200");
}

#[test]
fn header_must_span_the_whole_line() {
    let input = lines(&["prefix [2024-08-22 10:00:00] local.DEBUG: inside"]);
    assert!(analyze_laravel_log(&input, None, None).is_empty());
    let input = lines(&["x [Thu Aug 22 10:00:00.1 2024] [core:error] [pid 1] inside"]);
    assert!(analyze_apache_log(&input, None, None).is_empty());
    let input = lines(&[&format!("{} trailing", ACCESS_LINE)]);
    assert!(analyze_access_log(&input, None, None).is_empty());
}

#[test]
fn embedded_header_folds_into_open_record() {
    let input = lines(&[
        "[2024-08-22 10:00:00] local.ERROR: outer",
        "Caused by: [2024-08-22 10:00:01] local.ERROR: inner",
    ]);
    let r = analyze_laravel_log(&input, None, None);
    assert_eq!(r.len(), 1);
    assert_eq!(r[0].message, "outer\nCaused by: [2024-08-22 10:00:01] local.ERROR: inner");
    let input = lines(&[
        "[Thu Aug 22 10:00:00.1 2024] [core:error] [pid 1] outer",
        "see [Thu Aug 22 10:00:00.2 2024] [core:error] [pid 2] inner",
    ]);
    let r = analyze_apache_log(&input, None, None);
    assert_eq!(r.len(), 1);
    assert_eq!(r[0].message, "outer\nsee [Thu Aug 22 10:00:00.2 2024] [core:error] [pid 2] inner");
}
