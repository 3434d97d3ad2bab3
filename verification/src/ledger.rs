//! The deduplication ledger: the set of URLs already handled, together with
//! the model of its append-only text log (one URL per line).
//!
//! The file itself is opened, read and appended by the caller; this module
//! owns the parsing of the log text, the membership queries, and the decision
//! whether a line must be appended.

use vstd::prelude::*;
use vstd::string::StrSliceExecFns;
use vstd::string::StringExecFns;

verus! {

/// The character sequences of a vector of strings.
pub open spec fn seq_of_strings(v: Seq<String>) -> Seq<Seq<char>> {
    v.map_values(|s: String| s@)
}

/// No entry occurs twice.
pub open spec fn no_dups(entries: Seq<Seq<char>>) -> bool {
    forall|i: int, j: int| 0 <= i < j < entries.len() ==> entries[i] != entries[j]
}

/// What recording `url` does to the entries: nothing when it is already
/// present, else it is appended.
pub open spec fn spec_add(entries: Seq<Seq<char>>, url: Seq<char>) -> Seq<Seq<char>> {
    if entries.contains(url) {
        entries
    } else {
        entries.push(url)
    }
}

/// Splitting on newlines, accumulating the current (unterminated) line;
/// a trailing newline does not open an empty final line.
pub open spec fn lines_acc(text: Seq<char>, cur: Seq<char>) -> Seq<Seq<char>>
    decreases text.len(),
{
    if text.len() == 0 {
        if cur.len() == 0 {
            Seq::empty()
        } else {
            seq![cur]
        }
    } else if text[0] == '\n' {
        seq![cur] + lines_acc(text.drop_first(), Seq::empty())
    } else {
        lines_acc(text.drop_first(), cur.push(text[0]))
    }
}

/// The lines of a log text, split on newlines.
pub open spec fn spec_lines(text: Seq<char>) -> Seq<Seq<char>> {
    lines_acc(text, Seq::empty())
}

/// Entries in first-occurrence order, duplicates dropped.
pub open spec fn dedup_acc(s: Seq<Seq<char>>, acc: Seq<Seq<char>>) -> Seq<Seq<char>>
    decreases s.len(),
{
    if s.len() == 0 {
        acc
    } else {
        dedup_acc(s.drop_first(), spec_add(acc, s[0]))
    }
}

/// The distinct values of `s`, each at its first occurrence.
pub open spec fn spec_dedup(s: Seq<Seq<char>>) -> Seq<Seq<char>> {
    dedup_acc(s, Seq::empty())
}

/// The log text that a sequence of entries renders to: each entry on its own
/// newline-terminated line.
pub open spec fn spec_render(entries: Seq<Seq<char>>) -> Seq<char>
    decreases entries.len(),
{
    if entries.len() == 0 {
        Seq::empty()
    } else {
        entries[0] + seq!['\n'] + spec_render(entries.drop_first())
    }
}

/// How many entries equal `url`.
pub open spec fn line_count(entries: Seq<Seq<char>>, url: Seq<char>) -> nat
    decreases entries.len(),
{
    if entries.len() == 0 {
        0
    } else {
        line_count(entries.drop_last(), url) + if entries.last() == url {
            1nat
        } else {
            0nat
        }
    }
}

/// The set of URLs already recorded, in the order they were first recorded.
/// This order is exactly the line order of the persisted log.
#[derive(Debug)]
pub struct Links {
    pub items: Vec<String>,
}

impl View for Links {
    type V = Seq<Seq<char>>;

    open spec fn view(&self) -> Seq<Seq<char>> {
        seq_of_strings(self.items@)
    }
}

impl Links {
    /// A valid ledger records each URL at most once.
    pub open spec fn wf(self) -> bool {
        no_dups(self@)
    }

    /// An empty ledger: nothing recorded yet.
    pub fn new() -> (links: Links)
        ensures
            links.wf(),
            links@ == Seq::<Seq<char>>::empty(),
    {
        Links { items: Vec::new() }
    }

    /// The ledger that a persisted log text describes: one URL per line,
    /// the first occurrence of each kept.
    pub fn from_text(text: &str) -> (links: Links)
        ensures
            links.wf(),
            links@ == spec_dedup(spec_lines(text@)),
    {
        let lines = split_lines(text);
        let mut links = Links { items: Vec::new() };
        let ghost all: Seq<Seq<char>> = seq_of_strings(lines@);
        let n = lines.len();
        let mut k: usize = 0;
        proof {
            assert(all.subrange(0, n as int) =~= all);
            assert(links@ =~= Seq::<Seq<char>>::empty());
        }
        while k < n
            invariant
                k <= n,
                n == lines.len(),
                all == seq_of_strings(lines@),
                links.wf(),
                spec_dedup(spec_lines(text@)) == dedup_acc(
                    all.subrange(k as int, n as int),
                    links@,
                ),
            decreases n - k,
        {
            let ghost rest = all.subrange(k as int, n as int);
            proof {
                assert(rest[0] == all[k as int]);
                assert(rest.drop_first() =~= all.subrange(k as int + 1, n as int));
            }
            links.add(lines[k].as_str());
            k += 1;
        }
        proof {
            assert(all.subrange(n as int, n as int) =~= Seq::<Seq<char>>::empty());
        }
        links
    }

    /// Whether `url` was already recorded: pure membership in the set.
    pub fn saved(&self, url: &str) -> (r: bool)
        ensures
            r == self@.contains(url@),
    {
        let target: String = url.to_owned();
        let n = self.items.len();
        let mut i: usize = 0;
        while i < n
            invariant
                i <= n,
                n == self.items.len(),
                target@ == url@,
                forall|j: int| 0 <= j < i ==> self@[j] != url@,
            decreases n - i,
        {
            if self.items[i] == target {
                assert(self@[i as int] == url@);
                return true;
            }
            i += 1;
        }
        assert(!self@.contains(url@));
        false
    }

    /// Record `url`. Returns whether it was new, in which case — and only
    /// then — the caller must append the matching line to the persisted log.
    pub fn add(&mut self, url: &str) -> (appended: bool)
        ensures
            final(self)@ == spec_add(old(self)@, url@),
            appended == !old(self)@.contains(url@),
            old(self).wf() ==> final(self).wf(),
    {
        if self.saved(url) {
            false
        } else {
            self.items.push(url.to_owned());
            proof {
                assert(self@ =~= old(self)@.push(url@));
                if old(self).wf() {
                    assert forall|i: int, j: int| 0 <= i < j < self@.len() implies self@[i]
                        != self@[j] by {
                        if j == self@.len() - 1 {
                            assert(!old(self)@.contains(url@));
                            assert(old(self)@[i] != url@);
                        }
                    }
                }
            }
            true
        }
    }

    /// The full text of the log that this ledger stands for.
    pub fn log_text(&self) -> (text: String)
        ensures
            text@ == spec_render(self@),
    {
        let mut out = String::new();
        proof {
            reveal_strlit("\n");
        }
        let ghost nl: Seq<char> = "\n"@;
        let n = self.items.len();
        let mut i: usize = 0;
        while i < n
            invariant
                i <= n,
                n == self.items.len(),
                nl =~= seq!['\n'],
                nl == "\n"@,
                out@ == spec_render(self@.subrange(0, i as int)),
            decreases n - i,
        {
            out.append(self.items[i].as_str());
            out.append("\n");
            proof {
                lemma_render_snoc(self@.subrange(0, i as int), self@[i as int]);
                assert(self@.subrange(0, i as int + 1) =~= self@.subrange(0, i as int).push(
                    self@[i as int],
                ));
            }
            i += 1;
        }
        proof {
            assert(self@.subrange(0, n as int) =~= self@);
        }
        out
    }
}

/// Appending an entry extends the rendered log by that entry's line.
pub proof fn lemma_render_snoc(entries: Seq<Seq<char>>, e: Seq<char>)
    ensures
        spec_render(entries.push(e)) == spec_render(entries) + e + seq!['\n'],
    decreases entries.len(),
{
    if entries.len() == 0 {
        reveal_with_fuel(spec_render, 2);
        assert(entries.push(e)[0] == e);
        assert(entries.push(e).drop_first() =~= Seq::<Seq<char>>::empty());
        assert(spec_render(entries.push(e)) =~= spec_render(entries) + e + seq!['\n']);
    } else {
        lemma_render_snoc(entries.drop_first(), e);
        assert(entries.push(e)[0] == entries[0]);
        assert(entries.push(e).drop_first() =~= entries.drop_first().push(e));
        assert(spec_render(entries.push(e)) == entries[0] + seq!['\n'] + (spec_render(
            entries.drop_first(),
        ) + e + seq!['\n']));
        assert(entries[0] + seq!['\n'] + (spec_render(entries.drop_first()) + e + seq!['\n']) =~= (
        entries[0] + seq!['\n'] + spec_render(entries.drop_first())) + e + seq!['\n']);
    }
}

/// The character sequences of a vector of optional strings.
pub open spec fn rows_view(rows: Seq<Option<String>>) -> Seq<Option<Seq<char>>> {
    rows.map_values(
        |o: Option<String>|
            match o {
                Some(s) => Some(s@),
                None => None,
            },
    )
}

/// The outcome of bulk-importing rows into a ledger: the entries afterwards,
/// how many rows were already recorded, and the lines to append, in order.
/// A row without a URL column counts toward neither.
pub open spec fn spec_import(entries: Seq<Seq<char>>, rows: Seq<Option<Seq<char>>>) -> (
    Seq<Seq<char>>,
    nat,
    Seq<Seq<char>>,
)
    decreases rows.len(),
{
    if rows.len() == 0 {
        (entries, 0nat, Seq::empty())
    } else {
        match rows[0] {
            None => spec_import(entries, rows.drop_first()),
            Some(u) => if entries.contains(u) {
                let r = spec_import(entries, rows.drop_first());
                (r.0, r.1 + 1nat, r.2)
            } else {
                let r = spec_import(entries.push(u), rows.drop_first());
                (r.0, r.1, seq![u] + r.2)
            },
        }
    }
}

/// Counts reported after a bulk import.
#[derive(Clone, Copy, Debug, PartialEq, Eq, Structural)]
pub struct ImportStats {
    /// How many rows were read.
    pub total: usize,
    /// How many of them carried a URL that was already recorded.
    pub existed: usize,
}

impl ImportStats {
    /// How many rows were newly recorded.
    pub fn imported(&self) -> (n: usize)
        requires
            self.existed <= self.total,
        ensures
            n == self.total - self.existed,
    {
        self.total - self.existed
    }
}

impl Links {
    /// Bulk-seed the ledger from import rows (each row's leading URL column,
    /// where it has one), skipping rows whose URL is already recorded.
    /// Returns the counts and the log lines the caller must append, in order.
    pub fn import_rows(&mut self, rows: &Vec<Option<String>>) -> (r: (ImportStats, Vec<String>))
        requires
            old(self).wf(),
        ensures
            final(self).wf(),
            final(self)@ == spec_import(old(self)@, rows_view(rows@)).0,
            r.0.existed as nat == spec_import(old(self)@, rows_view(rows@)).1,
            seq_of_strings(r.1@) == spec_import(old(self)@, rows_view(rows@)).2,
            r.0.total == rows@.len(),
            r.0.existed <= r.0.total,
    {
        let ghost e0 = self@;
        let ghost rv = rows_view(rows@);
        let mut existed: usize = 0;
        let mut appended: Vec<String> = Vec::new();
        let n = rows.len();
        let mut i: usize = 0;
        proof {
            assert(rv.subrange(0, n as int) =~= rv);
            assert(seq_of_strings(appended@) =~= Seq::<Seq<char>>::empty());
        }
        while i < n
            invariant
                i <= n,
                n == rows.len(),
                rv == rows_view(rows@),
                self.wf(),
                existed <= i,
                spec_import(e0, rv).0 == spec_import(self@, rv.subrange(i as int, n as int)).0,
                spec_import(e0, rv).1 == existed + spec_import(
                    self@,
                    rv.subrange(i as int, n as int),
                ).1,
                spec_import(e0, rv).2 == seq_of_strings(appended@) + spec_import(
                    self@,
                    rv.subrange(i as int, n as int),
                ).2,
            decreases n - i,
        {
            let ghost rest = rv.subrange(i as int, n as int);
            let ghost pre = self@;
            let ghost app_pre = appended@;
            proof {
                assert(rest[0] == rv[i as int]);
                assert(rest.drop_first() =~= rv.subrange(i as int + 1, n as int));
            }
            let row = &rows[i];
            match row {
                Some(u) => {
                    proof {
                        assert(rv[i as int] == Some(u@));
                    }
                    let was_new = self.add(u.as_str());
                    if was_new {
                        appended.push(u.clone());
                        proof {
                            assert(seq_of_strings(appended@) =~= seq_of_strings(app_pre).push(u@));
                            assert(seq_of_strings(app_pre).push(u@) + spec_import(
                                self@,
                                rest.drop_first(),
                            ).2 =~= seq_of_strings(app_pre) + (seq![u@] + spec_import(
                                self@,
                                rest.drop_first(),
                            ).2));
                        }
                    } else {
                        existed += 1;
                    }
                },
                None => {
                    proof {
                        assert(rv[i as int] is None);
                    }
                },
            }
            i += 1;
        }
        proof {
            assert(rv.subrange(n as int, n as int) =~= Seq::<Option<Seq<char>>>::empty());
            assert(seq_of_strings(appended@) + Seq::<Seq<char>>::empty() =~= seq_of_strings(
                appended@,
            ));
        }
        (ImportStats { total: n, existed }, appended)
    }
}

/// Splitting peels a newline-free line off the front of the text at its
/// terminating newline.
proof fn lemma_lines_acc_line(line: Seq<char>, rest: Seq<char>, cur: Seq<char>)
    requires
        !line.contains('\n'),
    ensures
        lines_acc(line + seq!['\n'] + rest, cur) == seq![cur + line] + lines_acc(
            rest,
            Seq::empty(),
        ),
    decreases line.len(),
{
    let t = line + seq!['\n'] + rest;
    if line.len() == 0 {
        assert(t[0] == '\n');
        assert(t.drop_first() =~= rest);
        assert(cur + line =~= cur);
        assert(lines_acc(t, cur) == seq![cur] + lines_acc(rest, Seq::empty()));
    } else {
        assert(t[0] == line[0]);
        assert(line[0] != '\n') by {
            if line[0] == '\n' {
                assert(line.contains('\n'));
            }
        }
        assert(!line.drop_first().contains('\n')) by {
            if line.drop_first().contains('\n') {
                let k = choose|k: int|
                    0 <= k < line.drop_first().len() && line.drop_first()[k] == '\n';
                assert(line[k + 1] == '\n');
                assert(line.contains('\n'));
            }
        }
        assert(t.drop_first() =~= line.drop_first() + seq!['\n'] + rest);
        lemma_lines_acc_line(line.drop_first(), rest, cur.push(line[0]));
        assert(cur.push(line[0]) + line.drop_first() =~= cur + line);
    }
}

/// Round trip: a log rendered from newline-free entries splits back into
/// exactly those entries.
pub proof fn lemma_log_round_trip(entries: Seq<Seq<char>>)
    requires
        forall|i: int| 0 <= i < entries.len() ==> !(#[trigger] entries[i]).contains('\n'),
    ensures
        spec_lines(spec_render(entries)) == entries,
    decreases entries.len(),
{
    if entries.len() > 0 {
        assert(!entries[0].contains('\n'));
        assert(forall|i: int|
            0 <= i < entries.drop_first().len() ==> !(#[trigger] entries.drop_first()[i]).contains(
                '\n',
            )) by {
            assert(forall|i: int|
                0 <= i < entries.drop_first().len() ==> entries.drop_first()[i] == entries[i + 1]);
        }
        lemma_log_round_trip(entries.drop_first());
        lemma_lines_acc_line(entries[0], spec_render(entries.drop_first()), Seq::empty());
        assert(Seq::<char>::empty() + entries[0] =~= entries[0]);
        assert(seq![entries[0]] + entries.drop_first() =~= entries);
    }
}

/// Reading a log whose lines are distinct keeps every line in order.
proof fn lemma_dedup_acc_unique(s: Seq<Seq<char>>, acc: Seq<Seq<char>>)
    requires
        no_dups(acc + s),
    ensures
        dedup_acc(s, acc) == acc + s,
    decreases s.len(),
{
    if s.len() == 0 {
        assert(acc + s =~= acc);
    } else {
        assert(!acc.contains(s[0])) by {
            if acc.contains(s[0]) {
                let k = choose|k: int| 0 <= k < acc.len() && acc[k] == s[0];
                assert((acc + s)[k] == s[0]);
                assert((acc + s)[acc.len() as int] == s[0]);
                assert(false);
            }
        }
        assert(spec_add(acc, s[0]) == acc.push(s[0]));
        assert(acc.push(s[0]) + s.drop_first() =~= acc + s);
        lemma_dedup_acc_unique(s.drop_first(), acc.push(s[0]));
    }
}

/// Deduplication leaves a duplicate-free sequence unchanged.
pub proof fn lemma_dedup_of_unique(entries: Seq<Seq<char>>)
    requires
        no_dups(entries),
    ensures
        spec_dedup(entries) == entries,
{
    assert(Seq::<Seq<char>>::empty() + entries =~= entries);
    lemma_dedup_acc_unique(entries, Seq::empty());
}

/// In a duplicate-free ledger a URL is counted once if recorded, else not at
/// all.
pub proof fn lemma_line_count_unique(entries: Seq<Seq<char>>, url: Seq<char>)
    requires
        no_dups(entries),
    ensures
        line_count(entries, url) == if entries.contains(url) {
            1nat
        } else {
            0nat
        },
    decreases entries.len(),
{
    if entries.len() == 0 {
        assert(!entries.contains(url));
    } else {
        let front = entries.drop_last();
        assert(no_dups(front)) by {
            assert(forall|i: int| 0 <= i < front.len() ==> front[i] == entries[i]);
        }
        lemma_line_count_unique(front, url);
        if entries.last() == url {
            assert(entries.contains(url)) by {
                assert(entries[entries.len() - 1] == url);
            }
            assert(!front.contains(url)) by {
                if front.contains(url) {
                    let k = choose|k: int| 0 <= k < front.len() && front[k] == url;
                    assert(entries[k] == url);
                    assert(entries[entries.len() - 1] == url);
                    assert(false);
                }
            }
        } else {
            assert(entries.contains(url) == front.contains(url)) by {
                if entries.contains(url) {
                    let k = choose|k: int| 0 <= k < entries.len() && entries[k] == url;
                    assert(k != entries.len() - 1);
                    assert(front[k] == url);
                    assert(front.contains(url));
                }
                if front.contains(url) {
                    let k = choose|k: int| 0 <= k < front.len() && front[k] == url;
                    assert(entries[k] == url);
                    assert(entries.contains(url));
                }
            }
        }
    }
}

/// Idempotent recording: adding a URL a second time changes nothing, and the
/// ledger then holds exactly one entry equal to it.
pub proof fn lemma_add_idempotent(entries: Seq<Seq<char>>, url: Seq<char>)
    requires
        no_dups(entries),
    ensures
        spec_add(spec_add(entries, url), url) == spec_add(entries, url),
        no_dups(spec_add(entries, url)),
        line_count(spec_add(entries, url), url) == 1,
{
    let once = spec_add(entries, url);
    assert(once.contains(url)) by {
        if !entries.contains(url) {
            assert(once[entries.len() as int] == url);
        }
    }
    if !entries.contains(url) {
        assert(no_dups(once)) by {
            assert forall|i: int, j: int| 0 <= i < j < once.len() implies once[i] != once[j] by {
                if j == once.len() - 1 {
                    if entries[i] == url {
                        assert(entries.contains(url));
                    }
                }
            }
        }
    }
    lemma_line_count_unique(once, url);
}

/// However many times a URL was added, the written-out log holds exactly one
/// line equal to it.
pub proof fn lemma_persisted_once(entries: Seq<Seq<char>>, url: Seq<char>)
    requires
        no_dups(entries),
        forall|i: int| 0 <= i < entries.len() ==> !(#[trigger] entries[i]).contains('\n'),
        !url.contains('\n'),
    ensures
        line_count(spec_lines(spec_render(spec_add(spec_add(entries, url), url))), url) == 1,
{
    lemma_add_idempotent(entries, url);
    let once = spec_add(entries, url);
    assert(forall|i: int| 0 <= i < once.len() ==> !(#[trigger] once[i]).contains('\n')) by {
        if !entries.contains(url) {
            assert(forall|i: int| 0 <= i < entries.len() ==> once[i] == entries[i]);
            assert(once[entries.len() as int] == url);
        }
    }
    lemma_log_round_trip(once);
}

/// Cross-run persistence: a URL recorded in one run is reported saved after
/// the log is written out and read back by the next run.
pub proof fn lemma_cross_run_persistence(entries: Seq<Seq<char>>, url: Seq<char>)
    requires
        no_dups(entries),
        forall|i: int| 0 <= i < entries.len() ==> !(#[trigger] entries[i]).contains('\n'),
        entries.contains(url),
    ensures
        spec_dedup(spec_lines(spec_render(entries))).contains(url),
{
    lemma_log_round_trip(entries);
    lemma_dedup_of_unique(entries);
}

/// The lines of a text, as executable code.
fn split_lines(text: &str) -> (lines: Vec<String>)
    ensures
        seq_of_strings(lines@) == spec_lines(text@),
{
    let n = text.unicode_len();
    let mut lines: Vec<String> = Vec::new();
    let mut start: usize = 0;
    let mut i: usize = 0;
    proof {
        assert(text@.subrange(0, n as int) =~= text@);
        assert(text@.subrange(0, 0) =~= Seq::<char>::empty());
        assert(seq_of_strings(lines@) =~= Seq::<Seq<char>>::empty());
    }
    while i < n
        invariant
            start <= i <= n,
            n == text@.len(),
            spec_lines(text@) == seq_of_strings(lines@) + lines_acc(
                text@.subrange(i as int, n as int),
                text@.subrange(start as int, i as int),
            ),
        decreases n - i,
    {
        let ghost rest = text@.subrange(i as int, n as int);
        let ghost cur = text@.subrange(start as int, i as int);
        proof {
            assert(rest[0] == text@[i as int]);
            assert(rest.drop_first() =~= text@.subrange(i as int + 1, n as int));
        }
        let c = text.get_char(i);
        if c == '\n' {
            let line = text.substring_char(start, i).to_owned();
            proof {
                assert(seq_of_strings(lines@.push(line)) =~= seq_of_strings(lines@).push(line@));
                assert(seq_of_strings(lines@).push(line@) + lines_acc(
                    rest.drop_first(),
                    Seq::empty(),
                ) =~= seq_of_strings(lines@) + (seq![cur] + lines_acc(
                    rest.drop_first(),
                    Seq::empty(),
                )));
                assert(text@.subrange(i as int + 1, i as int + 1) =~= Seq::<char>::empty());
            }
            lines.push(line);
            start = i + 1;
        } else {
            proof {
                assert(cur.push(c) =~= text@.subrange(start as int, i as int + 1));
            }
        }
        i += 1;
    }
    if start < n {
        let line = text.substring_char(start, n).to_owned();
        proof {
            assert(text@.subrange(n as int, n as int) =~= Seq::<char>::empty());
            assert(seq_of_strings(lines@.push(line)) =~= seq_of_strings(lines@).push(line@));
            assert(seq_of_strings(lines@).push(line@) =~= seq_of_strings(lines@) + seq![line@]);
        }
        lines.push(line);
    } else {
        proof {
            assert(text@.subrange(n as int, n as int) =~= Seq::<char>::empty());
            assert(seq_of_strings(lines@) + Seq::<Seq<char>>::empty() =~= seq_of_strings(lines@));
        }
    }
    lines
}

} // verus!
