use vstd::prelude::*;
use vstd::seq_lib::to_multiset_insert;

verus! {

/// One entry of the application log.
#[derive(Debug, Clone, Default)]
pub struct Logs {
    /// Time of the entry, RFC 3339 with an offset.
    pub time: String,
    pub message: String,
    /// Module the entry comes from.
    pub module: String,
    pub file: String,
    pub line: u16,
    pub level: String,
    pub target: String,
    pub thread: String,
    pub thread_id: u16,
}

/// Log levels a query can ask for.
#[allow(non_camel_case_types)]
#[derive(Debug, Clone, Copy, PartialEq, Eq, Structural)]
pub enum LogLevels {
    ALL,
    DEBUG,
    TRACE,
    INFO,
    WARN,
    ERROR,
}

/// Errors of a log query.
#[derive(Debug, Clone)]
pub enum ServerError {
    /// No log file was found.
    LogFileNotFound(String),
    /// The log files could not be listed or read.
    LogFileInternalError(String),
}

/// What the application reports about itself.
#[derive(Debug, Clone)]
pub struct Info {
    /// Whether the application runs.
    pub up: bool,
    /// The application's version.
    pub version: String,
}

impl Logs {
    /// A copy of this entry.
    pub fn snapshot(&self) -> (r: Logs)
        ensures
            r == *self,
    {
        Logs {
            time: self.time.clone(),
            message: self.message.clone(),
            module: self.module.clone(),
            file: self.file.clone(),
            line: self.line,
            level: self.level.clone(),
            target: self.target.clone(),
            thread: self.thread.clone(),
            thread_id: self.thread_id,
        }
    }
}

impl Info {
    /// A running application of the given version.
    pub fn current(version: &str) -> (r: Info)
        ensures
            r.up,
            r.version@ == version@,
    {
        Info { up: true, version: String::from_str(version) }
    }
}

/// A point in time: seconds since the epoch and nanoseconds within it.
pub type Instant = (i64, u32);

/// The criteria of a log query; each one that is given must hold.
#[derive(Debug, Clone)]
pub struct LogFilterQuery {
    pub level: Option<LogLevels>,
    /// A text that the message holds, compared in lower case.
    pub message: Option<String>,
    /// Entries at or after this point in time.
    pub start_date: Option<Instant>,
    /// Entries at or before this point in time.
    pub end_date: Option<Instant>,
}

/// A text in lower case, as `str::to_lowercase` writes it.
pub uninterp spec fn lower_of(s: Seq<char>) -> Seq<char>;

/// Relies on str::to_lowercase: the lower-case form of a text, which depends
/// on its characters alone.
#[verifier::external_body]
fn lowercase(s: &str) -> (r: String)
    ensures
        r@ == lower_of(s@),
{
    s.to_lowercase()
}

/// The point in time a log time stamp stands for, where chrono reads it as a
/// UTC date and time.
pub uninterp spec fn instant_of(s: Seq<char>) -> Option<Instant>;

/// Relies on chrono's `FromStr` for `DateTime<Utc>`, and on its
/// `timestamp` and `timestamp_subsec_nanos`, to read a time stamp.
#[verifier::external_body]
fn parse_instant(s: &str) -> (r: Option<Instant>)
    ensures
        r == instant_of(s@),
{
    s.parse::<chrono::DateTime<chrono::Utc>>().ok().map(|t| (t.timestamp(), t.timestamp_subsec_nanos()))
}

/// Whether instant `a` comes before instant `b`.
pub open spec fn instant_before(a: Instant, b: Instant) -> bool {
    a.0 < b.0 || (a.0 == b.0 && a.1 < b.1)
}

/// The name a level has in the log.
pub open spec fn level_name(l: LogLevels) -> Seq<char> {
    match l {
        LogLevels::ALL => "ALL"@,
        LogLevels::DEBUG => "DEBUG"@,
        LogLevels::TRACE => "TRACE"@,
        LogLevels::INFO => "INFO"@,
        LogLevels::WARN => "WARN"@,
        LogLevels::ERROR => "ERROR"@,
    }
}

/// Whether `needle` occurs in `hay`.
pub open spec fn occurs_in(needle: Seq<char>, hay: Seq<char>) -> bool {
    exists|i: int| 0 <= i && i + needle.len() <= hay.len() && #[trigger] hay.subrange(i, i + needle.len()) == needle
}

/// Whether an entry meets every criterion of the filter.
pub open spec fn keeps(f: LogFilterQuery, l: Logs) -> bool {
    &&& (f.start_date matches Some(s) ==> (instant_of(l.time@) matches Some(t) && !instant_before(t, s)))
    &&& (f.end_date matches Some(e) ==> (instant_of(l.time@) matches Some(t) && !instant_before(e, t)))
    &&& (f.level matches Some(lv) ==> (lv == LogLevels::ALL || l.level@ == level_name(lv)))
    &&& (f.message matches Some(m) ==> occurs_in(lower_of(m@), lower_of(l.message@)))
}

/// The entries of one file that the filter keeps, in order.
pub open spec fn kept(f: LogFilterQuery, s: Seq<Logs>) -> Seq<Logs>
    decreases s.len(),
{
    if s.len() == 0 {
        Seq::empty()
    } else if keeps(f, s.last()) {
        kept(f, s.drop_last()).push(s.last())
    } else {
        kept(f, s.drop_last())
    }
}

/// The kept entries of every file that could be read, file after file.
pub open spec fn kept_all(f: LogFilterQuery, files: Seq<Option<Vec<Logs>>>) -> Seq<Logs>
    decreases files.len(),
{
    if files.len() == 0 {
        Seq::empty()
    } else {
        kept_all(f, files.drop_last()) + match files.last() {
            Some(v) => kept(f, v@),
            None => Seq::empty(),
        }
    }
}

/// Whether text `a` comes before text `b` in lexicographic order.
pub open spec fn text_before(a: Seq<char>, b: Seq<char>) -> bool
    decreases a.len(),
{
    if a.len() == 0 {
        b.len() > 0
    } else if b.len() == 0 {
        false
    } else if a[0] != b[0] {
        a[0] < b[0]
    } else {
        text_before(a.drop_first(), b.drop_first())
    }
}

proof fn lemma_text_before_asym(a: Seq<char>, b: Seq<char>)
    ensures
        !(text_before(a, b) && text_before(b, a)),
    decreases a.len(),
{
    if a.len() > 0 && b.len() > 0 && a[0] == b[0] {
        lemma_text_before_asym(a.drop_first(), b.drop_first());
    }
}

proof fn lemma_text_before_trans(a: Seq<char>, b: Seq<char>, c: Seq<char>)
    requires
        text_before(a, b),
        text_before(b, c),
    ensures
        text_before(a, c),
    decreases a.len(),
{
    if a.len() > 0 && b.len() > 0 && c.len() > 0 && a[0] == b[0] && b[0] == c[0] {
        lemma_text_before_trans(a.drop_first(), b.drop_first(), c.drop_first());
    }
}

proof fn lemma_text_before_total(a: Seq<char>, b: Seq<char>)
    requires
        !text_before(a, b),
        !text_before(b, a),
    ensures
        a == b,
    decreases a.len(),
{
    if a.len() > 0 && b.len() > 0 {
        if a[0] == b[0] {
            lemma_text_before_total(a.drop_first(), b.drop_first());
            assert(a =~= seq![a[0]] + a.drop_first());
            assert(b =~= seq![b[0]] + b.drop_first());
        }
    } else {
        assert(a =~= b);
    }
}

/// Whether entries are ordered by time stamp, newest first.
pub open spec fn newest_first(s: Seq<Logs>) -> bool {
    forall|i: int, j: int| 0 <= i < j < s.len() ==> !text_before(s[i].time@, s[j].time@)
}

fn before_text(a: &str, b: &str) -> (r: bool)
    ensures
        r == text_before(a@, b@),
{
    let n = a.unicode_len();
    let m = b.unicode_len();
    assert(a@.subrange(0, n as int) =~= a@);
    assert(b@.subrange(0, m as int) =~= b@);
    let mut i: usize = 0;
    while i < n && i < m
        invariant
            n == a@.len(),
            m == b@.len(),
            i <= n,
            i <= m,
            a@.subrange(0, i as int) == b@.subrange(0, i as int),
            text_before(a@, b@) == text_before(a@.subrange(i as int, n as int), b@.subrange(i as int, m as int)),
        decreases n - i,
    {
        let x = a.get_char(i);
        let y = b.get_char(i);
        let ghost ra = a@.subrange(i as int, n as int);
        let ghost rb = b@.subrange(i as int, m as int);
        assert(ra[0] == x && rb[0] == y);
        if x != y {
            return x < y;
        }
        assert(ra.drop_first() =~= a@.subrange(i + 1, n as int));
        assert(rb.drop_first() =~= b@.subrange(i + 1, m as int));
        assert(a@.subrange(0, i + 1) =~= a@.subrange(0, i as int).push(x));
        assert(b@.subrange(0, i + 1) =~= b@.subrange(0, i as int).push(y));
        i = i + 1;
    }
    i == n && i < m
}

fn occurs(needle: &str, hay: &str) -> (r: bool)
    ensures
        r == occurs_in(needle@, hay@),
{
    let n = needle.unicode_len();
    let h = hay.unicode_len();
    if n > h {
        return false;
    }
    let want = String::from_str(needle);
    let mut i: usize = 0;
    while i <= h - n
        invariant
            n == needle@.len(),
            h == hay@.len(),
            n <= h,
            want@ == needle@,
            i <= h - n + 1,
            forall|k: int| 0 <= k < i ==> #[trigger] hay@.subrange(k, k + n) != needle@,
        decreases h - n + 1 - i,
    {
        assert(i + n <= h);
        let part = String::from_str(hay.substring_char(i, i + n));
        if part == want {
            return true;
        }
        if i == h - n {
            return false;
        }
        i = i + 1;
    }
    false
}

fn keep(f: &LogFilterQuery, l: &Logs) -> (r: bool)
    ensures
        r == keeps(*f, *l),
{
    if let Some(s) = f.start_date {
        match parse_instant(l.time.as_str()) {
            Some(t) => {
                if t.0 < s.0 || (t.0 == s.0 && t.1 < s.1) {
                    return false;
                }
            },
            None => {
                return false;
            },
        }
    }
    if let Some(e) = f.end_date {
        match parse_instant(l.time.as_str()) {
            Some(t) => {
                if e.0 < t.0 || (e.0 == t.0 && e.1 < t.1) {
                    return false;
                }
            },
            None => {
                return false;
            },
        }
    }
    if let Some(lv) = f.level {
        let name = match lv {
            LogLevels::ALL => String::from_str("ALL"),
            LogLevels::DEBUG => String::from_str("DEBUG"),
            LogLevels::TRACE => String::from_str("TRACE"),
            LogLevels::INFO => String::from_str("INFO"),
            LogLevels::WARN => String::from_str("WARN"),
            LogLevels::ERROR => String::from_str("ERROR"),
        };
        if lv != LogLevels::ALL && l.level != name {
            return false;
        }
    }
    if let Some(m) = &f.message {
        let needle = lowercase(m.as_str());
        let hay = lowercase(l.message.as_str());
        if !occurs(needle.as_str(), hay.as_str()) {
            return false;
        }
    }
    true
}

/// Inserts `x` after every entry that is not older, keeping the order.
fn insert_by_time(out: &mut Vec<Logs>, x: Logs)
    requires
        newest_first(old(out)@),
    ensures
        newest_first(final(out)@),
        final(out)@.to_multiset() == old(out)@.to_multiset().insert(x),
{
    let mut p: usize = 0;
    while p < out.len() && !before_text(out[p].time.as_str(), x.time.as_str())
        invariant
            p <= out@.len(),
            forall|k: int| 0 <= k < p ==> !text_before(out@[k].time@, x.time@),
        decreases out@.len() - p,
    {
        p = p + 1;
    }
    let ghost s = out@;
    let ghost xv = x;
    proof {
        to_multiset_insert(s, p as int, x);
        s.insert_ensures(p as int, x);
    }
    out.insert(p, x);
    proof {
        let t = out@;
        assert(t == s.insert(p as int, xv));
        assert forall|i: int, j: int| 0 <= i < j < t.len() implies !text_before(t[i].time@, t[j].time@) by {
            if j < p {
                assert(t[i] == s[i] && t[j] == s[j]);
            } else if j == p {
                assert(t[i] == s[i]);
            } else if i > p {
                assert(t[i] == s[i - 1] && t[j] == s[j - 1]);
            } else if i == p {
                // s[p] is older than x, and s[j - 1] is not newer than s[p]
                assert(t[j] == s[j - 1]);
                assert(text_before(s[p as int].time@, xv.time@));
                if j - 1 > p {
                    assert(!text_before(s[p as int].time@, s[j - 1].time@));
                }
                if text_before(xv.time@, s[j - 1].time@) {
                    if j - 1 == p {
                        lemma_text_before_asym(xv.time@, s[p as int].time@);
                    } else if text_before(s[j - 1].time@, s[p as int].time@) {
                        lemma_text_before_trans(xv.time@, s[j - 1].time@, s[p as int].time@);
                        lemma_text_before_asym(xv.time@, s[p as int].time@);
                    } else {
                        lemma_text_before_total(s[j - 1].time@, s[p as int].time@);
                        lemma_text_before_asym(xv.time@, s[p as int].time@);
                    }
                }
            } else {
                assert(t[i] == s[i] && t[j] == s[j - 1]);
            }
        }
    }
}

/// The entries of the readable log files (`None` for a file that could not
/// be opened) that meet the filter, newest first. Fails where there is no
/// log file at all.
pub fn get_filtered_log_lines(files: Vec<Option<Vec<Logs>>>, filter: &LogFilterQuery) -> (r: Result<Vec<Logs>, String>)
    ensures
        r is Err <==> files@.len() == 0,
        r matches Err(e) ==> e@ == "No logfiles found on the server"@,
        r matches Ok(v) ==> newest_first(v@) && v@.to_multiset() == kept_all(*filter, files@).to_multiset(),
{
    if files.len() == 0 {
        return Err(String::from_str("No logfiles found on the server"));
    }
    let ghost all = files@;
    let mut out: Vec<Logs> = Vec::new();
    let mut fi: usize = 0;
    let n = files.len();
    while fi < n
        invariant
            n == all.len(),
            fi <= n,
            files@ == all,
            newest_first(out@),
            out@.to_multiset() == kept_all(*filter, all.subrange(0, fi as int)).to_multiset(),
        decreases n - fi,
    {
        assert(all.subrange(0, fi + 1).drop_last() =~= all.subrange(0, fi as int));
        assert(all.subrange(0, fi + 1).last() == all[fi as int]);
        let ghost before = out@.to_multiset();
        match &files[fi] {
            Some(entries) => {
                assert(entries@.subrange(0, 0) =~= Seq::<Logs>::empty());
                proof {
                    Seq::<Logs>::empty().to_multiset_ensures();
                    assert(Seq::<Logs>::empty().to_multiset() =~= vstd::multiset::Multiset::<Logs>::empty());
                    assert(before.add(Seq::<Logs>::empty().to_multiset()) =~= before);
                }
                let mut k: usize = 0;
                while k < entries.len()
                    invariant
                        k <= entries@.len(),
                        newest_first(out@),
                        out@.to_multiset() == before.add(kept(*filter, entries@.subrange(0, k as int)).to_multiset()),
                    decreases entries@.len() - k,
                {
                    let ghost pre = entries@.subrange(0, k as int);
                    assert(entries@.subrange(0, k + 1).drop_last() =~= pre);
                    assert(entries@.subrange(0, k + 1).last() == entries@[k as int]);
                    if keep(filter, &entries[k]) {
                        let l = entries[k].snapshot();
                        insert_by_time(&mut out, l);
                        proof {
                            vstd::seq_lib::to_multiset_build(kept(*filter, pre), entries@[k as int]);
                            assert(before.add(kept(*filter, pre).to_multiset()).insert(entries@[k as int])
                                =~= before.add(kept(*filter, pre).to_multiset().insert(entries@[k as int])));
                        }
                    }
                    k = k + 1;
                }
                assert(entries@.subrange(0, entries@.len() as int) =~= entries@);
                proof {
                    vstd::seq_lib::lemma_multiset_commutative(
                        kept_all(*filter, all.subrange(0, fi as int)),
                        kept(*filter, entries@),
                    );
                }
            },
            None => {
                assert(kept_all(*filter, all.subrange(0, fi + 1)) =~= kept_all(*filter, all.subrange(0, fi as int)));
            },
        }
        fi = fi + 1;
    }
    assert(all.subrange(0, n as int) =~= all);
    Ok(out)
}

} // verus!
