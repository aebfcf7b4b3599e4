use vstd::prelude::*;
use crate::records::{
    access_views, apache_views, laravel_views, AccessLogEntry, AccessView, ApacheLogEntry,
    ApacheView, LaravelLogEntry, LaravelView,
};
use crate::text::{contains_text, eq_ascii_nocase, eq_ignore_ascii_case, occurs_in};

verus! {

/// A substring filter: absent, or present somewhere in `value`.
pub open spec fn substring_accepts(value: Seq<char>, filter: Option<Seq<char>>) -> bool {
    match filter {
        Some(f) => occurs_in(f, value),
        None => true,
    }
}

/// A case-insensitive filter: absent, or equal to `value` up to ASCII case.
pub open spec fn nocase_accepts(value: Seq<char>, filter: Option<Seq<char>>) -> bool {
    match filter {
        Some(f) => eq_ascii_nocase(value, f),
        None => true,
    }
}

/// An exact filter: absent, or equal to `value`.
pub open spec fn exact_accepts(value: Seq<char>, filter: Option<Seq<char>>) -> bool {
    match filter {
        Some(f) => value == f,
        None => true,
    }
}

/// An application-log record passes the date and level filters.
pub open spec fn laravel_passes(
    e: LaravelView,
    date: Option<Seq<char>>,
    level: Option<Seq<char>>,
) -> bool {
    substring_accepts(e.date, date) && nocase_accepts(e.log_level, level)
}

/// An error-log record passes the date and level filters.
pub open spec fn apache_passes(
    e: ApacheView,
    date: Option<Seq<char>>,
    level: Option<Seq<char>>,
) -> bool {
    substring_accepts(e.date, date) && nocase_accepts(e.log_level, level)
}

/// An access-log record passes the status and method filters.
pub open spec fn access_passes(
    e: AccessView,
    status: Option<Seq<char>>,
    method: Option<Seq<char>>,
) -> bool {
    exact_accepts(e.status, status) && nocase_accepts(e.method, method)
}

pub open spec fn laravel_filter(date: Option<Seq<char>>, level: Option<Seq<char>>) -> spec_fn(
    LaravelView,
) -> bool {
    |e: LaravelView| laravel_passes(e, date, level)
}

pub open spec fn apache_filter(date: Option<Seq<char>>, level: Option<Seq<char>>) -> spec_fn(
    ApacheView,
) -> bool {
    |e: ApacheView| apache_passes(e, date, level)
}

pub open spec fn access_filter(status: Option<Seq<char>>, method: Option<Seq<char>>) -> spec_fn(
    AccessView,
) -> bool {
    |e: AccessView| access_passes(e, status, method)
}

fn substring_ok(value: &String, filter: Option<&str>) -> (r: bool)
    ensures
        r == substring_accepts(value@, filter.deep_view()),
{
    match filter {
        Some(f) => contains_text(value.as_str(), f),
        None => true,
    }
}

fn nocase_ok(value: &String, filter: Option<&str>) -> (r: bool)
    ensures
        r == nocase_accepts(value@, filter.deep_view()),
{
    match filter {
        Some(f) => eq_ignore_ascii_case(value.as_str(), f),
        None => true,
    }
}

fn exact_ok(value: &String, filter: Option<&str>) -> (r: bool)
    ensures
        r == exact_accepts(value@, filter.deep_view()),
{
    match filter {
        Some(f) => {
            let n = value.as_str().unicode_len();
            if n != f.unicode_len() {
                return false;
            }
            let mut i: usize = 0;
            while i < n
                invariant
                    filter == Some(f),
                    n == value@.len(),
                    n == f@.len(),
                    i <= n,
                    forall|k: int| 0 <= k < i ==> value@[k] == f@[k],
                decreases n - i,
            {
                if value.as_str().get_char(i) != f.get_char(i) {
                    assert(value@[i as int] != f@[i as int]);
                    return false;
                }
                i = i + 1;
            }
            assert(value@ =~= f@);
            true
        },
        None => true,
    }
}

/// The application-log records that pass the date and level filters, in order.
pub fn filter_laravel(entries: &Vec<LaravelLogEntry>, date: Option<&str>, level: Option<&str>) -> (r:
    Vec<LaravelLogEntry>)
    ensures
        laravel_views(r@) == laravel_views(entries@).filter(
            laravel_filter(date.deep_view(), level.deep_view()),
        ),
{
    let ghost pred = laravel_filter(date.deep_view(), level.deep_view());
    let mut out: Vec<LaravelLogEntry> = Vec::new();
    let mut i: usize = 0;
    while i < entries.len()
        invariant
            i <= entries@.len(),
            pred == laravel_filter(date.deep_view(), level.deep_view()),
            laravel_views(out@) == laravel_views(entries@.take(i as int)).filter(pred),
        decreases entries@.len() - i,
    {
        let ghost before = out@;
        let e = &entries[i];
        let keep = substring_ok(&e.date, date) && nocase_ok(&e.log_level, level);
        proof {
            reveal(Seq::filter);
            let t = laravel_views(entries@.take(i + 1));
            assert(t.drop_last() =~= laravel_views(entries@.take(i as int)));
            assert(t.last() == entries@[i as int]@);
            assert(keep == pred(entries@[i as int]@));
        }
        if keep {
            out.push(e.duplicate());
            assert(laravel_views(out@) =~= laravel_views(before).push(entries@[i as int]@));
        }
        i = i + 1;
    }
    assert(entries@.take(entries@.len() as int) =~= entries@);
    out
}

/// The error-log records that pass the date and level filters, in order.
pub fn filter_apache(entries: &Vec<ApacheLogEntry>, date: Option<&str>, level: Option<&str>) -> (r:
    Vec<ApacheLogEntry>)
    ensures
        apache_views(r@) == apache_views(entries@).filter(
            apache_filter(date.deep_view(), level.deep_view()),
        ),
{
    let ghost pred = apache_filter(date.deep_view(), level.deep_view());
    let mut out: Vec<ApacheLogEntry> = Vec::new();
    let mut i: usize = 0;
    while i < entries.len()
        invariant
            i <= entries@.len(),
            pred == apache_filter(date.deep_view(), level.deep_view()),
            apache_views(out@) == apache_views(entries@.take(i as int)).filter(pred),
        decreases entries@.len() - i,
    {
        let ghost before = out@;
        let e = &entries[i];
        let keep = substring_ok(&e.date, date) && nocase_ok(&e.log_level, level);
        proof {
            reveal(Seq::filter);
            let t = apache_views(entries@.take(i + 1));
            assert(t.drop_last() =~= apache_views(entries@.take(i as int)));
            assert(t.last() == entries@[i as int]@);
            assert(keep == pred(entries@[i as int]@));
        }
        if keep {
            out.push(e.duplicate());
            assert(apache_views(out@) =~= apache_views(before).push(entries@[i as int]@));
        }
        i = i + 1;
    }
    assert(entries@.take(entries@.len() as int) =~= entries@);
    out
}

/// The access-log records that pass the status and method filters, in order.
pub fn filter_access(entries: &Vec<AccessLogEntry>, status: Option<&str>, method: Option<&str>) -> (r:
    Vec<AccessLogEntry>)
    ensures
        access_views(r@) == access_views(entries@).filter(
            access_filter(status.deep_view(), method.deep_view()),
        ),
{
    let ghost pred = access_filter(status.deep_view(), method.deep_view());
    let mut out: Vec<AccessLogEntry> = Vec::new();
    let mut i: usize = 0;
    while i < entries.len()
        invariant
            i <= entries@.len(),
            pred == access_filter(status.deep_view(), method.deep_view()),
            access_views(out@) == access_views(entries@.take(i as int)).filter(pred),
        decreases entries@.len() - i,
    {
        let ghost before = out@;
        let e = &entries[i];
        let keep = exact_ok(&e.status, status) && nocase_ok(&e.method, method);
        proof {
            reveal(Seq::filter);
            let t = access_views(entries@.take(i + 1));
            assert(t.drop_last() =~= access_views(entries@.take(i as int)));
            assert(t.last() == entries@[i as int]@);
            assert(keep == pred(entries@[i as int]@));
        }
        if keep {
            out.push(e.duplicate());
            assert(access_views(out@) =~= access_views(before).push(entries@[i as int]@));
        }
        i = i + 1;
    }
    assert(entries@.take(entries@.len() as int) =~= entries@);
    out
}

/// What filtering keeps: exactly the records that every filter accepts, and
/// with no filter at all, every record.
pub proof fn lemma_filter_members<A>(s: Seq<A>, pred: spec_fn(A) -> bool)
    ensures
        forall|e: A| #[trigger] s.filter(pred).contains(e) <==> (s.contains(e) && pred(e)),
        (forall|e: A| #[trigger] pred(e)) ==> s.filter(pred) == s,
    decreases s.len(),
{
    reveal(Seq::filter);
    if s.len() > 0 {
        lemma_filter_members(s.drop_last(), pred);
        let sub = s.drop_last().filter(pred);
        assert forall|e: A| #[trigger] s.filter(pred).contains(e) <==> (s.contains(e) && pred(e)) by {
            if s.contains(e) && pred(e) {
                let j = choose|j: int| 0 <= j < s.len() && s[j] == e;
                if j < s.len() - 1 {
                    assert(s.drop_last()[j] == e);
                    assert(sub.contains(e));
                    let k = choose|k: int| 0 <= k < sub.len() && sub[k] == e;
                    if pred(s.last()) {
                        assert(s.filter(pred)[k] == e);
                    }
                } else {
                    assert(s.filter(pred)[s.filter(pred).len() - 1] == e);
                }
            }
            if s.filter(pred).contains(e) {
                let k = choose|k: int| 0 <= k < s.filter(pred).len() && s.filter(pred)[k] == e;
                if k < sub.len() {
                    assert(sub[k] == e);
                    assert(sub.contains(e));
                    let j = choose|j: int| 0 <= j < s.drop_last().len() && s.drop_last()[j] == e;
                    assert(s[j] == e);
                } else {
                    assert(s[s.len() - 1] == e);
                }
            }
        }
        if forall|e: A| #[trigger] pred(e) {
            assert(pred(s.last()));
            assert(s.filter(pred) =~= s);
        }
    } else {
        assert forall|e: A| #[trigger] s.filter(pred).contains(e) <==> (s.contains(e) && pred(e)) by {
            assert(s.filter(pred).len() == 0);
        }
    }
}

/// Application-log filtering keeps a record if and only if every supplied
/// filter accepts it; with neither filter supplied it keeps all records.
pub proof fn lemma_laravel_filter(s: Seq<LaravelView>, date: Option<Seq<char>>, level: Option<Seq<char>>)
    ensures
        forall|e: LaravelView| #[trigger] s.filter(laravel_filter(date, level)).contains(e) <==> (
            s.contains(e) && substring_accepts(e.date, date) && nocase_accepts(e.log_level, level)),
        date is None && level is None ==> s.filter(laravel_filter(date, level)) == s,
{
    lemma_filter_members(s, laravel_filter(date, level));
}

/// Error-log filtering keeps a record if and only if every supplied filter
/// accepts it; with neither filter supplied it keeps all records.
pub proof fn lemma_apache_filter(s: Seq<ApacheView>, date: Option<Seq<char>>, level: Option<Seq<char>>)
    ensures
        forall|e: ApacheView| #[trigger] s.filter(apache_filter(date, level)).contains(e) <==> (
            s.contains(e) && substring_accepts(e.date, date) && nocase_accepts(e.log_level, level)),
        date is None && level is None ==> s.filter(apache_filter(date, level)) == s,
{
    lemma_filter_members(s, apache_filter(date, level));
}

/// Access-log filtering keeps a record if and only if every supplied filter
/// accepts it; with neither filter supplied it keeps all records.
pub proof fn lemma_access_filter(s: Seq<AccessView>, status: Option<Seq<char>>, method: Option<Seq<char>>)
    ensures
        forall|e: AccessView| #[trigger] s.filter(access_filter(status, method)).contains(e) <==> (
            s.contains(e) && exact_accepts(e.status, status) && nocase_accepts(e.method, method)),
        status is None && method is None ==> s.filter(access_filter(status, method)) == s,
{
    lemma_filter_members(s, access_filter(status, method));
}

/// The positions in `s` of the items that `pred` accepts, in order.
pub open spec fn kept_positions<A>(s: Seq<A>, pred: spec_fn(A) -> bool) -> Seq<int>
    decreases s.len(),
{
    if s.len() == 0 {
        Seq::empty()
    } else {
        let p = kept_positions(s.drop_last(), pred);
        if pred(s.last()) {
            p.push(s.len() - 1)
        } else {
            p
        }
    }
}

/// Filtering keeps a subsequence: the items kept are the items of `s` at
/// strictly increasing positions, so their order is the order in `s`.
pub proof fn lemma_filter_positions<A>(s: Seq<A>, pred: spec_fn(A) -> bool)
    ensures
        kept_positions(s, pred).len() == s.filter(pred).len(),
        forall|i: int|
            0 <= i < kept_positions(s, pred).len() ==> 0 <= #[trigger] kept_positions(s, pred)[i]
                < s.len() && s.filter(pred)[i] == s[kept_positions(s, pred)[i]],
        forall|i: int, j: int|
            0 <= i < j < kept_positions(s, pred).len() ==> kept_positions(s, pred)[i]
                < kept_positions(s, pred)[j],
    decreases s.len(),
{
    reveal(Seq::filter);
    if s.len() > 0 {
        let t = s.drop_last();
        lemma_filter_positions(t, pred);
        let p = kept_positions(t, pred);
        let k = kept_positions(s, pred);
        assert forall|i: int| 0 <= i < p.len() implies 0 <= #[trigger] k[i] < s.len()
            && s.filter(pred)[i] == s[k[i]] by {
            assert(k[i] == p[i]);
            assert(t[p[i]] == s[p[i]]);
        }
    }
}

} // verus!
