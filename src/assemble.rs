use vstd::prelude::*;
use crate::pattern::{
    access_entry, access_opt_view, access_record, apache_entry, apache_header, apache_opt_view,
    laravel_entry, laravel_header, laravel_opt_view, Captures,
};
use crate::records::{
    access_views, apache_views, laravel_views, AccessLogEntry, AccessView, ApacheLogEntry,
    ApacheView, LaravelLogEntry, LaravelView,
};

verus! {

/// The state of record assembly: the sealed records in order, and the record
/// still open for continuation lines.
pub struct Assembly<R> {
    pub sealed: Seq<R>,
    pub current: Option<R>,
}

/// Every record of `st`, the open one sealed last.
pub open spec fn seal<R>(st: Assembly<R>) -> Seq<R> {
    match st.current {
        Some(c) => st.sealed.push(c),
        None => st.sealed,
    }
}

/// One line: a header seals the open record and opens its own; any other
/// line is appended to the open record with `append`, or dropped when none
/// is open.
pub open spec fn step<R>(
    st: Assembly<R>,
    head: Option<R>,
    line: Seq<char>,
    append: spec_fn(R, Seq<char>) -> R,
) -> Assembly<R> {
    match head {
        Some(r) => Assembly { sealed: seal(st), current: Some(r) },
        None => match st.current {
            Some(c) => Assembly { sealed: st.sealed, current: Some(append(c, line)) },
            None => st,
        },
    }
}

/// The state after the first `n` lines, where `heads[i]` is the record that
/// line `i` opens, if it is a header.
pub open spec fn assembly_after<R>(
    heads: Seq<Option<R>>,
    lines: Seq<Seq<char>>,
    append: spec_fn(R, Seq<char>) -> R,
    n: nat,
) -> Assembly<R>
    decreases n,
{
    if n == 0 {
        Assembly { sealed: Seq::empty(), current: None }
    } else {
        step(assembly_after(heads, lines, append, (n - 1) as nat), heads[n - 1], lines[n - 1], append)
    }
}

/// The records that the whole input yields, in order.
pub open spec fn assemble<R>(
    heads: Seq<Option<R>>,
    lines: Seq<Seq<char>>,
    append: spec_fn(R, Seq<char>) -> R,
) -> Seq<R> {
    seal(assembly_after(heads, lines, append, heads.len()))
}

/// The records that the header lines open, in order.
pub open spec fn present<R>(heads: Seq<Option<R>>) -> Seq<R> {
    heads.filter_map(|h: Option<R>| h)
}

/// `message` with `line` appended after a newline.
pub open spec fn continued(message: Seq<char>, line: Seq<char>) -> Seq<char> {
    message + seq!['\n'] + line
}

/// `message` with each of `lines` appended in order, each after a newline.
pub open spec fn joined(message: Seq<char>, lines: Seq<Seq<char>>) -> Seq<char>
    decreases lines.len(),
{
    if lines.len() == 0 {
        message
    } else {
        continued(joined(message, lines.drop_last()), lines.last())
    }
}

pub open spec fn laravel_continue() -> spec_fn(LaravelView, Seq<char>) -> LaravelView {
    |r: LaravelView, line: Seq<char>|
        LaravelView { date: r.date, log_level: r.log_level, message: continued(r.message, line) }
}

pub open spec fn apache_continue() -> spec_fn(ApacheView, Seq<char>) -> ApacheView {
    |r: ApacheView, line: Seq<char>|
        ApacheView {
            date: r.date,
            log_level: r.log_level,
            pid: r.pid,
            message: continued(r.message, line),
        }
}

pub open spec fn laravel_heads(caps: Seq<Option<Seq<Option<Seq<char>>>>>) -> Seq<Option<LaravelView>> {
    caps.map_values(|c: Option<Seq<Option<Seq<char>>>>| laravel_header(c))
}

pub open spec fn apache_heads(caps: Seq<Option<Seq<Option<Seq<char>>>>>) -> Seq<Option<ApacheView>> {
    caps.map_values(|c: Option<Seq<Option<Seq<char>>>>| apache_header(c))
}

pub open spec fn access_lines(caps: Seq<Option<Seq<Option<Seq<char>>>>>) -> Seq<Option<AccessView>> {
    caps.map_values(|c: Option<Seq<Option<Seq<char>>>>| access_record(c))
}

/// The application-log records of `lines`, where `caps[i]` holds the groups
/// of the application-log pattern on line `i`.
pub fn assemble_laravel(lines: &Vec<String>, caps: &Vec<Captures>) -> (r: Vec<LaravelLogEntry>)
    requires
        lines@.len() == caps@.len(),
    ensures
        laravel_views(r@) == assemble(
            laravel_heads(caps.deep_view()),
            lines.deep_view(),
            laravel_continue(),
        ),
{
    let ghost heads = laravel_heads(caps.deep_view());
    let ghost texts = lines.deep_view();
    let mut sealed: Vec<LaravelLogEntry> = Vec::new();
    let mut current: Option<LaravelLogEntry> = None;
    let mut i: usize = 0;
    while i < lines.len()
        invariant
            lines@.len() == caps@.len(),
            i <= lines@.len(),
            heads == laravel_heads(caps.deep_view()),
            texts == lines.deep_view(),
            laravel_views(sealed@) == assembly_after(heads, texts, laravel_continue(), i as nat).sealed,
            laravel_opt_view(current) == assembly_after(heads, texts, laravel_continue(), i as nat).current,
        decreases lines@.len() - i,
    {
        let ghost before = sealed@;
        let head = laravel_entry(&caps[i]);
        assert(heads[i as int] == laravel_header(caps@[i as int].deep_view()));
        assert(texts[i as int] == lines@[i as int]@);
        match head {
            Some(e) => {
                match current {
                    Some(c) => {
                        sealed.push(c);
                        assert(laravel_views(sealed@) =~= laravel_views(before).push(c@));
                    },
                    None => {},
                }
                current = Some(e);
            },
            None => {
                match current {
                    Some(mut c) => {
                        let ghost old_c = c@;
                        c.message.append("\n");
                        c.message.append(lines[i].as_str());
                        proof {
                            reveal_strlit("\n");
                        }
                        assert(c.message@ =~= continued(old_c.message, texts[i as int]));
                        current = Some(c);
                    },
                    None => {
                        current = None;
                    },
                }
            },
        }
        i = i + 1;
    }
    let ghost before = sealed@;
    match current {
        Some(c) => {
            sealed.push(c);
            assert(laravel_views(sealed@) =~= laravel_views(before).push(c@));
        },
        None => {},
    }
    assert(heads.len() == lines@.len());
    sealed
}

/// The error-log records of `lines`, where `caps[i]` holds the groups of the
/// error-log pattern on line `i`.
pub fn assemble_apache(lines: &Vec<String>, caps: &Vec<Captures>) -> (r: Vec<ApacheLogEntry>)
    requires
        lines@.len() == caps@.len(),
    ensures
        apache_views(r@) == assemble(
            apache_heads(caps.deep_view()),
            lines.deep_view(),
            apache_continue(),
        ),
{
    let ghost heads = apache_heads(caps.deep_view());
    let ghost texts = lines.deep_view();
    let mut sealed: Vec<ApacheLogEntry> = Vec::new();
    let mut current: Option<ApacheLogEntry> = None;
    let mut i: usize = 0;
    while i < lines.len()
        invariant
            lines@.len() == caps@.len(),
            i <= lines@.len(),
            heads == apache_heads(caps.deep_view()),
            texts == lines.deep_view(),
            apache_views(sealed@) == assembly_after(heads, texts, apache_continue(), i as nat).sealed,
            apache_opt_view(current) == assembly_after(heads, texts, apache_continue(), i as nat).current,
        decreases lines@.len() - i,
    {
        let ghost before = sealed@;
        let head = apache_entry(&caps[i]);
        assert(heads[i as int] == apache_header(caps@[i as int].deep_view()));
        assert(texts[i as int] == lines@[i as int]@);
        match head {
            Some(e) => {
                match current {
                    Some(c) => {
                        sealed.push(c);
                        assert(apache_views(sealed@) =~= apache_views(before).push(c@));
                    },
                    None => {},
                }
                current = Some(e);
            },
            None => {
                match current {
                    Some(mut c) => {
                        let ghost old_c = c@;
                        c.message.append("\n");
                        c.message.append(lines[i].as_str());
                        proof {
                            reveal_strlit("\n");
                        }
                        assert(c.message@ =~= continued(old_c.message, texts[i as int]));
                        current = Some(c);
                    },
                    None => {
                        current = None;
                    },
                }
            },
        }
        i = i + 1;
    }
    let ghost before = sealed@;
    match current {
        Some(c) => {
            sealed.push(c);
            assert(apache_views(sealed@) =~= apache_views(before).push(c@));
        },
        None => {},
    }
    assert(heads.len() == lines@.len());
    sealed
}

/// The access-log records of the lines whose groups are `caps`: one for each
/// matching line, in order; lines that do not match are dropped.
pub fn collect_access(caps: &Vec<Captures>) -> (r: Vec<AccessLogEntry>)
    ensures
        access_views(r@) == present(access_lines(caps.deep_view())),
{
    let ghost heads = access_lines(caps.deep_view());
    let mut out: Vec<AccessLogEntry> = Vec::new();
    let mut i: usize = 0;
    while i < caps.len()
        invariant
            i <= caps@.len(),
            heads == access_lines(caps.deep_view()),
            access_views(out@) == present(heads.take(i as int)),
        decreases caps@.len() - i,
    {
        let ghost before = out@;
        let rec = access_entry(&caps[i]);
        assert(heads[i as int] == access_record(caps@[i as int].deep_view()));
        assert(heads.take(i + 1).drop_last() =~= heads.take(i as int));
        match rec {
            Some(e) => {
                out.push(e);
                assert(access_views(out@) =~= access_views(before).push(e@));
            },
            None => {},
        }
        i = i + 1;
    }
    assert(heads.take(caps@.len() as int) =~= heads);
    out
}

/// `r` with each of `lines` appended in order by `append`.
pub open spec fn fold_lines<R>(r: R, lines: Seq<Seq<char>>, append: spec_fn(R, Seq<char>) -> R) -> R
    decreases lines.len(),
{
    if lines.len() == 0 {
        r
    } else {
        append(fold_lines(r, lines.drop_last(), append), lines.last())
    }
}

proof fn lemma_prefix_order<R, K>(
    heads: Seq<Option<R>>,
    lines: Seq<Seq<char>>,
    append: spec_fn(R, Seq<char>) -> R,
    key: spec_fn(R) -> K,
    n: nat,
)
    requires
        n <= heads.len(),
        forall|r: R, l: Seq<char>| #[trigger] key(append(r, l)) == key(r),
    ensures
        seal(assembly_after(heads, lines, append, n)).map_values(key) == present(
            heads.take(n as int),
        ).map_values(key),
    decreases n,
{
    if n == 0 {
        assert(heads.take(0) =~= Seq::<Option<R>>::empty());
        assert(seal(assembly_after(heads, lines, append, 0)).map_values(key) =~= Seq::<K>::empty());
        assert(present(heads.take(0)).map_values(key) =~= Seq::<K>::empty());
    } else {
        let m = (n - 1) as nat;
        lemma_prefix_order(heads, lines, append, key, m);
        let st = assembly_after(heads, lines, append, m);
        let t = heads.take(n as int);
        assert(t.drop_last() =~= heads.take(m as int));
        assert(t.last() == heads[m as int]);
        let before = present(heads.take(m as int));
        match heads[m as int] {
            Some(r) => {
                assert(present(t) =~= before + seq![r]);
                assert(seal(st).push(r).map_values(key) =~= seal(st).map_values(key).push(key(r)));
                assert((before + seq![r]).map_values(key) =~= before.map_values(key).push(key(r)));
            },
            None => {
                assert(present(t) =~= before);
                match st.current {
                    Some(c) => {
                        let c2 = append(c, lines[m as int]);
                        assert(key(c2) == key(c));
                        assert(st.sealed.push(c2).map_values(key) =~= st.sealed.push(c).map_values(
                            key,
                        ));
                    },
                    None => {},
                }
            },
        }
    }
}

/// Records come out in the order of their header lines: for any property
/// `key` of a record that appending a continuation line leaves alone, the
/// records' keys are the keys of the header records, in file order.
pub proof fn lemma_order_kept<R, K>(
    heads: Seq<Option<R>>,
    lines: Seq<Seq<char>>,
    append: spec_fn(R, Seq<char>) -> R,
    key: spec_fn(R) -> K,
)
    requires
        forall|r: R, l: Seq<char>| #[trigger] key(append(r, l)) == key(r),
    ensures
        assemble(heads, lines, append).map_values(key) == present(heads).map_values(key),
{
    lemma_prefix_order(heads, lines, append, key, heads.len());
    assert(heads.take(heads.len() as int) =~= heads);
}

/// Application-log records keep the date and level of their header lines,
/// in file order.
pub proof fn lemma_laravel_order_kept(heads: Seq<Option<LaravelView>>, lines: Seq<Seq<char>>)
    ensures
        assemble(heads, lines, laravel_continue()).map_values(
            |r: LaravelView| (r.date, r.log_level),
        ) == present(heads).map_values(|r: LaravelView| (r.date, r.log_level)),
{
    lemma_order_kept(heads, lines, laravel_continue(), |r: LaravelView| (r.date, r.log_level));
}

/// Error-log records keep the date, level and process id of their header
/// lines, in file order.
pub proof fn lemma_apache_order_kept(heads: Seq<Option<ApacheView>>, lines: Seq<Seq<char>>)
    ensures
        assemble(heads, lines, apache_continue()).map_values(
            |r: ApacheView| (r.date, r.log_level, r.pid),
        ) == present(heads).map_values(|r: ApacheView| (r.date, r.log_level, r.pid)),
{
    lemma_order_kept(heads, lines, apache_continue(), |r: ApacheView| (r.date, r.log_level, r.pid));
}

proof fn lemma_prefix_single<R>(
    heads: Seq<Option<R>>,
    lines: Seq<Seq<char>>,
    append: spec_fn(R, Seq<char>) -> R,
    k: nat,
)
    requires
        1 <= k <= heads.len(),
        heads.len() == lines.len(),
        heads[0] is Some,
        forall|i: int| 1 <= i < heads.len() ==> #[trigger] heads[i] is None,
    ensures
        assembly_after(heads, lines, append, k) == (Assembly {
            sealed: Seq::<R>::empty(),
            current: Some(fold_lines(heads[0]->0, lines.subrange(1, k as int), append)),
        }),
    decreases k,
{
    if k == 1 {
        assert(lines.subrange(1, 1) =~= Seq::<Seq<char>>::empty());
        assert(seal(assembly_after(heads, lines, append, 0)) =~= Seq::<R>::empty());
    } else {
        let m = (k - 1) as nat;
        lemma_prefix_single(heads, lines, append, m);
        assert(heads[m as int] is None);
        assert(lines.subrange(1, k as int).drop_last() =~= lines.subrange(1, m as int));
    }
}

/// A header line followed only by non-header lines yields one record: the
/// header's record with every following line appended in order.
pub proof fn lemma_single_record<R>(
    heads: Seq<Option<R>>,
    lines: Seq<Seq<char>>,
    append: spec_fn(R, Seq<char>) -> R,
)
    requires
        heads.len() >= 1,
        heads.len() == lines.len(),
        heads[0] is Some,
        forall|i: int| 1 <= i < heads.len() ==> #[trigger] heads[i] is None,
    ensures
        assemble(heads, lines, append) == seq![
            fold_lines(heads[0]->0, lines.subrange(1, heads.len() as int), append),
        ],
{
    lemma_prefix_single(heads, lines, append, heads.len());
    assert(Seq::<R>::empty().push(
        fold_lines(heads[0]->0, lines.subrange(1, heads.len() as int), append),
    ) =~= seq![fold_lines(heads[0]->0, lines.subrange(1, heads.len() as int), append)]);
}

proof fn lemma_laravel_fold(r: LaravelView, lines: Seq<Seq<char>>)
    ensures
        fold_lines(r, lines, laravel_continue()) == (LaravelView {
            date: r.date,
            log_level: r.log_level,
            message: joined(r.message, lines),
        }),
    decreases lines.len(),
{
    if lines.len() > 0 {
        lemma_laravel_fold(r, lines.drop_last());
    }
}

proof fn lemma_apache_fold(r: ApacheView, lines: Seq<Seq<char>>)
    ensures
        fold_lines(r, lines, apache_continue()) == (ApacheView {
            date: r.date,
            log_level: r.log_level,
            pid: r.pid,
            message: joined(r.message, lines),
        }),
    decreases lines.len(),
{
    if lines.len() > 0 {
        lemma_apache_fold(r, lines.drop_last());
    }
}

/// An application-log header line followed by non-header lines up to the end
/// yields one record, whose message is the header's message followed by each
/// of those lines in order, each after one newline.
pub proof fn lemma_laravel_continuations(heads: Seq<Option<LaravelView>>, lines: Seq<Seq<char>>)
    requires
        heads.len() >= 1,
        heads.len() == lines.len(),
        heads[0] is Some,
        forall|i: int| 1 <= i < heads.len() ==> #[trigger] heads[i] is None,
    ensures
        assemble(heads, lines, laravel_continue()) == seq![
            LaravelView {
                date: heads[0]->0.date,
                log_level: heads[0]->0.log_level,
                message: joined(heads[0]->0.message, lines.subrange(1, heads.len() as int)),
            },
        ],
{
    lemma_single_record(heads, lines, laravel_continue());
    lemma_laravel_fold(heads[0]->0, lines.subrange(1, heads.len() as int));
}

/// An error-log header line followed by non-header lines up to the end
/// yields one record, whose message is the header's message followed by each
/// of those lines in order, each after one newline.
pub proof fn lemma_apache_continuations(heads: Seq<Option<ApacheView>>, lines: Seq<Seq<char>>)
    requires
        heads.len() >= 1,
        heads.len() == lines.len(),
        heads[0] is Some,
        forall|i: int| 1 <= i < heads.len() ==> #[trigger] heads[i] is None,
    ensures
        assemble(heads, lines, apache_continue()) == seq![
            ApacheView {
                date: heads[0]->0.date,
                log_level: heads[0]->0.log_level,
                pid: heads[0]->0.pid,
                message: joined(heads[0]->0.message, lines.subrange(1, heads.len() as int)),
            },
        ],
{
    lemma_single_record(heads, lines, apache_continue());
    lemma_apache_fold(heads[0]->0, lines.subrange(1, heads.len() as int));
}

proof fn lemma_shifted<R>(
    heads: Seq<Option<R>>,
    lines: Seq<Seq<char>>,
    append: spec_fn(R, Seq<char>) -> R,
    line: Seq<char>,
    k: nat,
)
    requires
        heads.len() == lines.len(),
        k <= heads.len(),
    ensures
        assembly_after(seq![None] + heads, seq![line] + lines, append, k + 1) == assembly_after(
            heads,
            lines,
            append,
            k,
        ),
    decreases k,
{
    let h2 = seq![None] + heads;
    let l2 = seq![line] + lines;
    if k == 0 {
        assert(h2[0] is None);
        assert(assembly_after(h2, l2, append, 0) == assembly_after(heads, lines, append, 0));
    } else {
        let m = (k - 1) as nat;
        lemma_shifted(heads, lines, append, line, m);
        assert(h2[k as int] == heads[m as int]);
        assert(l2[k as int] == lines[m as int]);
    }
}

/// A non-header line before any header line yields nothing: dropping it
/// leaves the records unchanged.
pub proof fn lemma_orphan_dropped<R>(
    heads: Seq<Option<R>>,
    lines: Seq<Seq<char>>,
    append: spec_fn(R, Seq<char>) -> R,
    line: Seq<char>,
)
    requires
        heads.len() == lines.len(),
    ensures
        assemble(seq![None] + heads, seq![line] + lines, append) == assemble(heads, lines, append),
{
    lemma_shifted(heads, lines, append, line, heads.len());
    assert((seq![None] + heads).len() == heads.len() + 1);
}

} // verus!
