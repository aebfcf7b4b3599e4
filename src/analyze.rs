use vstd::prelude::*;
use crate::assemble::{
    access_lines, apache_continue, apache_heads, assemble, assemble_apache, assemble_laravel,
    collect_access, joined, laravel_continue, laravel_heads, lemma_apache_continuations,
    lemma_apache_order_kept, lemma_laravel_continuations, lemma_laravel_order_kept,
    lemma_orphan_dropped, present,
};
use crate::filter::{
    access_filter, apache_filter, filter_access, filter_apache, filter_laravel, kept_positions,
    laravel_filter, lemma_filter_positions,
};
use crate::pattern::{
    access_record, apache_header, capture_lines, laravel_header, pattern_captures, ACCESS_PATTERN,
    APACHE_PATTERN, LARAVEL_PATTERN,
};
use crate::records::{
    access_views, apache_views, laravel_views, AccessLogEntry, AccessView, ApacheLogEntry,
    ApacheView, LaravelLogEntry, LaravelView,
};

verus! {

/// The application-log records of `lines`, unfiltered.
pub open spec fn laravel_records(lines: Seq<Seq<char>>) -> Seq<LaravelView> {
    assemble(
        lines.map_values(|l: Seq<char>| laravel_header(pattern_captures(LARAVEL_PATTERN@, l))),
        lines,
        laravel_continue(),
    )
}

/// The error-log records of `lines`, unfiltered.
pub open spec fn apache_records(lines: Seq<Seq<char>>) -> Seq<ApacheView> {
    assemble(
        lines.map_values(|l: Seq<char>| apache_header(pattern_captures(APACHE_PATTERN@, l))),
        lines,
        apache_continue(),
    )
}

/// The access-log records of `lines`, unfiltered.
pub open spec fn access_records(lines: Seq<Seq<char>>) -> Seq<AccessView> {
    present(lines.map_values(|l: Seq<char>| access_record(pattern_captures(ACCESS_PATTERN@, l))))
}

/// Parses the lines of an application log into records, folding each run of
/// non-header lines into the message of the record before it, and keeps the
/// records whose date holds `date_filter` and whose level equals
/// `error_type` up to ASCII case.
pub fn analyze_laravel_log(
    lines: &Vec<String>,
    date_filter: Option<&str>,
    error_type: Option<&str>,
) -> (r: Vec<LaravelLogEntry>)
    ensures
        laravel_views(r@) == laravel_records(lines.deep_view()).filter(
            laravel_filter(date_filter.deep_view(), error_type.deep_view()),
        ),
{
    let caps = capture_lines(LARAVEL_PATTERN, lines);
    assert(laravel_heads(caps.deep_view()) =~= lines.deep_view().map_values(
        |l: Seq<char>| laravel_header(pattern_captures(LARAVEL_PATTERN@, l)),
    ));
    let all = assemble_laravel(lines, &caps);
    filter_laravel(&all, date_filter, error_type)
}

/// Parses the lines of a web-server error log into records, folding each run
/// of non-header lines into the message of the record before it, and keeps
/// the records whose date holds `date_filter` and whose level equals
/// `error_type` up to ASCII case.
pub fn analyze_apache_log(
    lines: &Vec<String>,
    date_filter: Option<&str>,
    error_type: Option<&str>,
) -> (r: Vec<ApacheLogEntry>)
    ensures
        apache_views(r@) == apache_records(lines.deep_view()).filter(
            apache_filter(date_filter.deep_view(), error_type.deep_view()),
        ),
{
    let caps = capture_lines(APACHE_PATTERN, lines);
    assert(apache_heads(caps.deep_view()) =~= lines.deep_view().map_values(
        |l: Seq<char>| apache_header(pattern_captures(APACHE_PATTERN@, l)),
    ));
    let all = assemble_apache(lines, &caps);
    filter_apache(&all, date_filter, error_type)
}

/// Parses the lines of a web-server access log, one record per matching
/// line, and keeps the records whose status equals `status_filter` and whose
/// method equals `method_filter` up to ASCII case.
pub fn analyze_access_log(
    lines: &Vec<String>,
    status_filter: Option<&str>,
    method_filter: Option<&str>,
) -> (r: Vec<AccessLogEntry>)
    ensures
        access_views(r@) == access_records(lines.deep_view()).filter(
            access_filter(status_filter.deep_view(), method_filter.deep_view()),
        ),
{
    let caps = capture_lines(ACCESS_PATTERN, lines);
    assert(access_lines(caps.deep_view()) =~= lines.deep_view().map_values(
        |l: Seq<char>| access_record(pattern_captures(ACCESS_PATTERN@, l)),
    ));
    let all = collect_access(&caps);
    filter_access(&all, status_filter, method_filter)
}

/// Whether `line` opens an application-log record.
pub open spec fn is_laravel_header(line: Seq<char>) -> bool {
    laravel_header(pattern_captures(LARAVEL_PATTERN@, line)) is Some
}

/// Whether `line` opens an error-log record.
pub open spec fn is_apache_header(line: Seq<char>) -> bool {
    apache_header(pattern_captures(APACHE_PATTERN@, line)) is Some
}

/// In an application log, a non-header line before any header line leaves
/// no trace: the records are those of the lines after it.
pub proof fn lemma_laravel_orphan_line(line: Seq<char>, lines: Seq<Seq<char>>)
    requires
        !is_laravel_header(line),
    ensures
        laravel_records(seq![line] + lines) == laravel_records(lines),
{
    let f = |l: Seq<char>| laravel_header(pattern_captures(LARAVEL_PATTERN@, l));
    assert((seq![line] + lines).map_values(f) =~= seq![None] + lines.map_values(f));
    lemma_orphan_dropped(lines.map_values(f), lines, laravel_continue(), line);
}

/// In an error log, a non-header line before any header line leaves no
/// trace: the records are those of the lines after it.
pub proof fn lemma_apache_orphan_line(line: Seq<char>, lines: Seq<Seq<char>>)
    requires
        !is_apache_header(line),
    ensures
        apache_records(seq![line] + lines) == apache_records(lines),
{
    let f = |l: Seq<char>| apache_header(pattern_captures(APACHE_PATTERN@, l));
    assert((seq![line] + lines).map_values(f) =~= seq![None] + lines.map_values(f));
    lemma_orphan_dropped(lines.map_values(f), lines, apache_continue(), line);
}

/// An application log made of one header line and then only non-header
/// lines yields one record: the header's date and level, and its message
/// followed by each later line in order, each after one newline.
pub proof fn lemma_laravel_one_record(lines: Seq<Seq<char>>)
    requires
        lines.len() >= 1,
        is_laravel_header(lines[0]),
        forall|i: int| 1 <= i < lines.len() ==> !is_laravel_header(#[trigger] lines[i]),
    ensures
        ({
            let h = laravel_header(pattern_captures(LARAVEL_PATTERN@, lines[0]))->0;
            laravel_records(lines) == seq![
                LaravelView {
                    date: h.date,
                    log_level: h.log_level,
                    message: joined(h.message, lines.subrange(1, lines.len() as int)),
                },
            ]
        }),
{
    let heads = lines.map_values(|l: Seq<char>| laravel_header(pattern_captures(LARAVEL_PATTERN@, l)));
    assert forall|i: int| 1 <= i < heads.len() implies #[trigger] heads[i] is None by {
        assert(!is_laravel_header(lines[i]));
    }
    lemma_laravel_continuations(heads, lines);
}

/// An error log made of one header line and then only non-header lines
/// yields one record: the header's date, level and process id, and its
/// message followed by each later line in order, each after one newline.
pub proof fn lemma_apache_one_record(lines: Seq<Seq<char>>)
    requires
        lines.len() >= 1,
        is_apache_header(lines[0]),
        forall|i: int| 1 <= i < lines.len() ==> !is_apache_header(#[trigger] lines[i]),
    ensures
        ({
            let h = apache_header(pattern_captures(APACHE_PATTERN@, lines[0]))->0;
            apache_records(lines) == seq![
                ApacheView {
                    date: h.date,
                    log_level: h.log_level,
                    pid: h.pid,
                    message: joined(h.message, lines.subrange(1, lines.len() as int)),
                },
            ]
        }),
{
    let heads = lines.map_values(|l: Seq<char>| apache_header(pattern_captures(APACHE_PATTERN@, l)));
    assert forall|i: int| 1 <= i < heads.len() implies #[trigger] heads[i] is None by {
        assert(!is_apache_header(lines[i]));
    }
    lemma_apache_continuations(heads, lines);
}

/// The records that the application-log header lines of `lines` open, in
/// file order.
pub open spec fn laravel_header_records(lines: Seq<Seq<char>>) -> Seq<LaravelView> {
    present(lines.map_values(|l: Seq<char>| laravel_header(pattern_captures(LARAVEL_PATTERN@, l))))
}

/// The records that the error-log header lines of `lines` open, in file
/// order.
pub open spec fn apache_header_records(lines: Seq<Seq<char>>) -> Seq<ApacheView> {
    present(lines.map_values(|l: Seq<char>| apache_header(pattern_captures(APACHE_PATTERN@, l))))
}

/// Filtered application-log records follow their header lines in file order:
/// record `i` has the date and level of header record `k[i]`, for strictly
/// increasing positions `k`.
pub proof fn lemma_laravel_output_order(
    lines: Seq<Seq<char>>,
    date: Option<Seq<char>>,
    level: Option<Seq<char>>,
)
    ensures
        ({
            let out = laravel_records(lines).filter(laravel_filter(date, level));
            let hs = laravel_header_records(lines);
            exists|k: Seq<int>|
                #![trigger k.len()]
                k.len() == out.len() && (forall|i: int, j: int|
                    0 <= i < j < k.len() ==> k[i] < k[j]) && (forall|i: int|
                    0 <= i < k.len() ==> 0 <= #[trigger] k[i] < hs.len() && out[i].date
                        == hs[k[i]].date && out[i].log_level == hs[k[i]].log_level)
        }),
{
    let heads = lines.map_values(|l: Seq<char>| laravel_header(pattern_captures(LARAVEL_PATTERN@, l)));
    let recs = laravel_records(lines);
    let hs = laravel_header_records(lines);
    let key = |r: LaravelView| (r.date, r.log_level);
    let pred = laravel_filter(date, level);
    lemma_laravel_order_kept(heads, lines);
    assert(recs.map_values(key) == hs.map_values(key));
    assert(recs.len() == hs.len());
    lemma_filter_positions(recs, pred);
    let k = kept_positions(recs, pred);
    assert forall|i: int| 0 <= i < k.len() implies 0 <= #[trigger] k[i] < hs.len()
        && recs.filter(pred)[i].date == hs[k[i]].date && recs.filter(pred)[i].log_level
        == hs[k[i]].log_level by {
        assert(recs.map_values(key)[k[i]] == hs.map_values(key)[k[i]]);
    }
}

/// Filtered error-log records follow their header lines in file order:
/// record `i` has the date, level and process id of header record `k[i]`,
/// for strictly increasing positions `k`.
pub proof fn lemma_apache_output_order(
    lines: Seq<Seq<char>>,
    date: Option<Seq<char>>,
    level: Option<Seq<char>>,
)
    ensures
        ({
            let out = apache_records(lines).filter(apache_filter(date, level));
            let hs = apache_header_records(lines);
            exists|k: Seq<int>|
                #![trigger k.len()]
                k.len() == out.len() && (forall|i: int, j: int|
                    0 <= i < j < k.len() ==> k[i] < k[j]) && (forall|i: int|
                    0 <= i < k.len() ==> 0 <= #[trigger] k[i] < hs.len() && out[i].date
                        == hs[k[i]].date && out[i].log_level == hs[k[i]].log_level && out[i].pid
                        == hs[k[i]].pid)
        }),
{
    let heads = lines.map_values(|l: Seq<char>| apache_header(pattern_captures(APACHE_PATTERN@, l)));
    let recs = apache_records(lines);
    let hs = apache_header_records(lines);
    let key = |r: ApacheView| (r.date, r.log_level, r.pid);
    let pred = apache_filter(date, level);
    lemma_apache_order_kept(heads, lines);
    assert(recs.map_values(key) == hs.map_values(key));
    assert(recs.len() == hs.len());
    lemma_filter_positions(recs, pred);
    let k = kept_positions(recs, pred);
    assert forall|i: int| 0 <= i < k.len() implies 0 <= #[trigger] k[i] < hs.len()
        && recs.filter(pred)[i].date == hs[k[i]].date && recs.filter(pred)[i].log_level
        == hs[k[i]].log_level && recs.filter(pred)[i].pid == hs[k[i]].pid by {
        assert(recs.map_values(key)[k[i]] == hs.map_values(key)[k[i]]);
    }
}

/// Filtered access-log records are records of matching lines, in file order:
/// record `i` is the record of matching line `k[i]`, for strictly increasing
/// positions `k`.
pub proof fn lemma_access_output_order(
    lines: Seq<Seq<char>>,
    status: Option<Seq<char>>,
    method: Option<Seq<char>>,
)
    ensures
        ({
            let out = access_records(lines).filter(access_filter(status, method));
            let ms = access_records(lines);
            exists|k: Seq<int>|
                #![trigger k.len()]
                k.len() == out.len() && (forall|i: int, j: int|
                    0 <= i < j < k.len() ==> k[i] < k[j]) && (forall|i: int|
                    0 <= i < k.len() ==> 0 <= #[trigger] k[i] < ms.len() && out[i] == ms[k[i]])
        }),
{
    lemma_filter_positions(access_records(lines), access_filter(status, method));
    let k = kept_positions(access_records(lines), access_filter(status, method));
    assert(k.len() == k.len());
}

} // verus!
