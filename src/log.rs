use vstd::prelude::*;

use crate::text::{lines, lines_of, same_text, split_on, split_seq, trim, trimmed, views};

verus! {

/// One commit of a log listing.
#[derive(Debug, Clone, PartialEq, Eq)]
pub struct CommitRecord {
    pub hash: String,
    pub author: String,
    pub subject: String,
}

/// One line of a log listing: a commit, or a line that is not `<hash>|<author>|<subject>`,
/// kept as it came for display only.
#[derive(Debug, Clone, PartialEq, Eq)]
pub enum LogEntry {
    Commit(CommitRecord),
    Text(String),
}

/// What a log entry holds, as sequences of characters.
pub enum EntryModel {
    Commit { hash: Seq<char>, author: Seq<char>, subject: Seq<char> },
    Text(Seq<char>),
}

impl View for LogEntry {
    type V = EntryModel;

    open spec fn view(&self) -> EntryModel {
        match self {
            LogEntry::Commit(c) => EntryModel::Commit {
                hash: c.hash@,
                author: c.author@,
                subject: c.subject@,
            },
            LogEntry::Text(t) => EntryModel::Text(t@),
        }
    }
}

/// The views of a sequence of log entries.
pub open spec fn models(v: Seq<LogEntry>) -> Seq<EntryModel> {
    v.map_values(|e: LogEntry| e@)
}

/// The entry that one line of `git log --format=%h|%an|%s` output stands for: its first
/// three `|`-separated pieces, trimmed, or the line itself when it has fewer.
pub open spec fn entry_of(line: Seq<char>) -> EntryModel {
    let parts = split_seq(line, '|');
    if parts.len() >= 3 {
        EntryModel::Commit {
            hash: trimmed(parts[0]),
            author: trimmed(parts[1]),
            subject: trimmed(parts[2]),
        }
    } else {
        EntryModel::Text(line)
    }
}

/// The entries of a whole log listing, one per line, in the listing's order.
pub open spec fn log_entries(out: Seq<char>) -> Seq<EntryModel> {
    lines_of(out).map_values(|l: Seq<char>| entry_of(l))
}

/// Whether `e` is a commit whose author is exactly `author`.
pub open spec fn authored_by(e: EntryModel, author: Seq<char>) -> bool {
    match e {
        EntryModel::Commit { author: a, .. } => a == author,
        EntryModel::Text(_) => false,
    }
}

/// The entries kept under an optional author filter, in their order.
pub open spec fn selected(entries: Seq<EntryModel>, author: Option<Seq<char>>) -> Seq<EntryModel> {
    match author {
        Some(a) => entries.filter(|e: EntryModel| authored_by(e, a)),
        None => entries,
    }
}

/// The hashes of the commits among `entries`, in their order.
pub open spec fn hashes_of(entries: Seq<EntryModel>) -> Seq<Seq<char>>
    decreases entries.len(),
{
    if entries.len() == 0 {
        Seq::empty()
    } else {
        let h = hashes_of(entries.drop_last());
        match entries.last() {
            EntryModel::Commit { hash, .. } => h.push(hash),
            EntryModel::Text(_) => h,
        }
    }
}

/// The separator between the fields of a display line.
pub open spec fn sep() -> Seq<char> {
    seq![' ', '|', ' ']
}

/// The terminal codes that start green, start red, and reset the color.
pub open spec fn green() -> Seq<char> {
    seq!['\u{1b}', '[', '3', '2', 'm']
}

pub open spec fn red() -> Seq<char> {
    seq!['\u{1b}', '[', '3', '1', 'm']
}

pub open spec fn reset() -> Seq<char> {
    seq!['\u{1b}', '[', '0', 'm']
}

/// An author name in green when it is `user`, in red otherwise.
pub open spec fn painted(author: Seq<char>, user: Seq<char>) -> Seq<char> {
    (if author == user {
        green()
    } else {
        red()
    }) + author + reset()
}

/// The display line of an entry: `<hash> | <author> | <subject>`, or a text line as it is.
pub open spec fn rendered(e: EntryModel, user: Seq<char>) -> Seq<char> {
    match e {
        EntryModel::Commit { hash, author, subject } => hash + sep() + painted(author, user)
            + sep() + subject,
        EntryModel::Text(t) => t,
    }
}

/// The range `<oldest>^..<newest>` of a newest-first list of hashes.
pub open spec fn range_of(hashes: Seq<Seq<char>>) -> Seq<char> {
    hashes.last() + seq!['^', '.', '.'] + hashes[0]
}

impl LogEntry {
    /// A copy of this entry.
    pub fn duplicate(&self) -> (r: LogEntry)
        ensures
            r@ == self@,
    {
        match self {
            LogEntry::Commit(c) => LogEntry::Commit(
                CommitRecord {
                    hash: c.hash.clone(),
                    author: c.author.clone(),
                    subject: c.subject.clone(),
                },
            ),
            LogEntry::Text(t) => LogEntry::Text(t.clone()),
        }
    }
}

/// Pushing an entry pushes its view.
proof fn lemma_models_push(v: Seq<LogEntry>, e: LogEntry)
    ensures
        models(v.push(e)) == models(v).push(e@),
{
    assert(models(v.push(e)) =~= models(v).push(e@));
}

/// The entry that one log line stands for.
pub fn parse_line(line: &str) -> (r: LogEntry)
    ensures
        r@ == entry_of(line@),
{
    let parts = split_on(line, '|');
    if parts.len() >= 3 {
        assert(parts@[0]@ == split_seq(line@, '|')[0]);
        assert(parts@[1]@ == split_seq(line@, '|')[1]);
        assert(parts@[2]@ == split_seq(line@, '|')[2]);
        LogEntry::Commit(
            CommitRecord {
                hash: String::from_str(trim(parts[0].as_str())),
                author: String::from_str(trim(parts[1].as_str())),
                subject: String::from_str(trim(parts[2].as_str())),
            },
        )
    } else {
        LogEntry::Text(String::from_str(line))
    }
}

/// The entries of a log listing, one per line.
pub fn parse_log(out: &str) -> (r: Vec<LogEntry>)
    ensures
        models(r@) == log_entries(out@),
{
    let ls = lines(out);
    let ghost lv = lines_of(out@);
    let mut r: Vec<LogEntry> = Vec::new();
    let mut i: usize = 0;
    while i < ls.len()
        invariant
            views(ls@) == lv,
            i <= ls@.len(),
            models(r@) == lv.subrange(0, i as int).map_values(|l: Seq<char>| entry_of(l)),
        decreases ls@.len() - i,
    {
        assert(ls@[i as int]@ == lv[i as int]);
        let e = parse_line(ls[i].as_str());
        proof {
            lemma_models_push(r@, e);
            assert(lv.subrange(0, i + 1).map_values(|l: Seq<char>| entry_of(l)) =~= lv.subrange(
                0,
                i as int,
            ).map_values(|l: Seq<char>| entry_of(l)).push(entry_of(lv[i as int])));
        }
        r.push(e);
        i = i + 1;
    }
    assert(lv.subrange(0, i as int) =~= lv);
    r
}

/// The entries kept under an optional author filter: all of them without one, else the
/// commits whose author is exactly the filter, in their order.
pub fn select(entries: &Vec<LogEntry>, author: Option<&str>) -> (r: Vec<LogEntry>)
    ensures
        models(r@) == selected(
            models(entries@),
            match author {
                Some(a) => Some(a@),
                None => None,
            },
        ),
{
    let ghost m = models(entries@);
    let mut r: Vec<LogEntry> = Vec::new();
    let mut i: usize = 0;
    match author {
        None => {
            while i < entries.len()
                invariant
                    m == models(entries@),
                    i <= entries@.len(),
                    models(r@) == m.subrange(0, i as int),
                decreases entries@.len() - i,
            {
                let e = entries[i].duplicate();
                proof {
                    lemma_models_push(r@, e);
                    assert(m.subrange(0, i + 1) =~= m.subrange(0, i as int).push(e@));
                }
                r.push(e);
                i = i + 1;
            }
            assert(m.subrange(0, i as int) =~= m);
        },
        Some(a) => {
            let ghost pred = |e: EntryModel| authored_by(e, a@);
            assert(m.subrange(0, 0).filter(pred) =~= Seq::<EntryModel>::empty()) by {
                reveal(Seq::filter);
            };
            while i < entries.len()
                invariant
                    m == models(entries@),
                    pred == (|e: EntryModel| authored_by(e, a@)),
                    i <= entries@.len(),
                    models(r@) == m.subrange(0, i as int).filter(pred),
                decreases entries@.len() - i,
            {
                let ghost pre = m.subrange(0, i + 1);
                assert(pre.drop_last() =~= m.subrange(0, i as int));
                assert(pre.last() == entries@[i as int]@);
                proof {
                    reveal(Seq::filter);
                }
                let keep = match &entries[i] {
                    LogEntry::Commit(c) => same_text(c.author.as_str(), a),
                    LogEntry::Text(_) => false,
                };
                if keep {
                    let e = entries[i].duplicate();
                    proof {
                        lemma_models_push(r@, e);
                    }
                    r.push(e);
                }
                i = i + 1;
            }
            assert(m.subrange(0, i as int) =~= m);
        },
    }
    r
}

/// The display line of one entry for `user`.
pub fn render_entry(e: &LogEntry, user: &str) -> (r: String)
    ensures
        r@ == rendered(e@, user@),
{
    proof {
        reveal_strlit(" | ");
        reveal_strlit("\u{1b}[32m");
        reveal_strlit("\u{1b}[31m");
        reveal_strlit("\u{1b}[0m");
        assert(" | "@ =~= sep());
        assert("\u{1b}[32m"@ =~= green());
        assert("\u{1b}[31m"@ =~= red());
        assert("\u{1b}[0m"@ =~= reset());
    }
    match e {
        LogEntry::Commit(c) => {
            let color = if same_text(c.author.as_str(), user) {
                "\u{1b}[32m"
            } else {
                "\u{1b}[31m"
            };
            c.hash.clone().concat(" | ").concat(color).concat(c.author.as_str()).concat(
                "\u{1b}[0m",
            ).concat(" | ").concat(c.subject.as_str())
        },
        LogEntry::Text(t) => t.clone(),
    }
}

/// The display lines of a selection for `user`, one per entry, in order.
pub fn render(entries: &Vec<LogEntry>, user: &str) -> (r: Vec<String>)
    ensures
        views(r@) == models(entries@).map_values(|e: EntryModel| rendered(e, user@)),
{
    let ghost m = models(entries@);
    let mut r: Vec<String> = Vec::new();
    let mut i: usize = 0;
    while i < entries.len()
        invariant
            m == models(entries@),
            i <= entries@.len(),
            views(r@) == m.subrange(0, i as int).map_values(|e: EntryModel| rendered(e, user@)),
        decreases entries@.len() - i,
    {
        let line = render_entry(&entries[i], user);
        proof {
            crate::text::lemma_views_push(r@, line);
            assert(m.subrange(0, i + 1).map_values(|e: EntryModel| rendered(e, user@))
                =~= m.subrange(0, i as int).map_values(|e: EntryModel| rendered(e, user@)).push(
                rendered(m[i as int], user@),
            ));
        }
        r.push(line);
        i = i + 1;
    }
    assert(m.subrange(0, i as int) =~= m);
    r
}

/// The hashes of the commits of a selection, in order; text lines have none.
pub fn commit_hashes(entries: &Vec<LogEntry>) -> (r: Vec<String>)
    ensures
        views(r@) == hashes_of(models(entries@)),
{
    let ghost m = models(entries@);
    let mut r: Vec<String> = Vec::new();
    let mut i: usize = 0;
    while i < entries.len()
        invariant
            m == models(entries@),
            i <= entries@.len(),
            views(r@) == hashes_of(m.subrange(0, i as int)),
        decreases entries@.len() - i,
    {
        let ghost pre = m.subrange(0, i + 1);
        assert(pre.drop_last() =~= m.subrange(0, i as int));
        assert(pre.last() == entries@[i as int]@);
        match &entries[i] {
            LogEntry::Commit(c) => {
                let h = c.hash.clone();
                proof {
                    crate::text::lemma_views_push(r@, h);
                }
                r.push(h);
            },
            LogEntry::Text(_) => {},
        }
        i = i + 1;
    }
    assert(m.subrange(0, i as int) =~= m);
    r
}

/// The range `<oldest>^..<newest>` that replays a newest-first list of hashes.
pub fn apply_range(hashes: &Vec<String>) -> (r: String)
    requires
        hashes@.len() > 0,
    ensures
        r@ == range_of(views(hashes@)),
{
    proof {
        reveal_strlit("^..");
        assert("^.."@ =~= seq!['^', '.', '.']);
    }
    let last = hashes.len() - 1;
    hashes[last].clone().concat("^..").concat(hashes[0].as_str())
}

/// What a selection holds comes from the log listing it was taken from: every selected
/// entry is the entry of one of the listing's lines; with an author filter each one is
/// a commit of that author, and without one the selection is the whole listing.
pub proof fn lemma_selection_within_log(out: Seq<char>, author: Option<Seq<char>>)
    ensures
        forall|i: int|
            0 <= i < selected(log_entries(out), author).len() ==> exists|j: int|
                0 <= j < lines_of(out).len() && #[trigger] selected(log_entries(out), author)[i]
                    == entry_of(lines_of(out)[j]),
        author matches Some(a) ==> forall|i: int|
            0 <= i < selected(log_entries(out), author).len() ==> authored_by(
                #[trigger] selected(log_entries(out), author)[i],
                a,
            ),
        author is None ==> selected(log_entries(out), author) == log_entries(out),
{
    let es = log_entries(out);
    let s = selected(es, author);
    assert forall|i: int| 0 <= i < s.len() implies exists|j: int|
        0 <= j < lines_of(out).len() && #[trigger] s[i] == entry_of(lines_of(out)[j]) by {
        match author {
            Some(a) => {
                let pred = |e: EntryModel| authored_by(e, a);
                es.lemma_filter_pred(pred, i);
                #[allow(deprecated)]
                es.filter_lemma(pred);
                assert(es.filter(pred).contains(s[i])) by {
                    assert(es.filter(pred)[i] == s[i]);
                };
                lemma_filter_from(es, pred, i);
                let j = choose|j: int| 0 <= j < es.len() && es[j] == s[i];
                assert(s[i] == entry_of(lines_of(out)[j]));
            },
            None => {
                assert(s[i] == entry_of(lines_of(out)[i]));
            },
        }
    };
    if let Some(a) = author {
        let pred = |e: EntryModel| authored_by(e, a);
        assert forall|i: int| 0 <= i < s.len() implies authored_by(#[trigger] s[i], a) by {
            es.lemma_filter_pred(pred, i);
        };
    }
}

/// Each entry of a filtered sequence stands in the sequence.
proof fn lemma_filter_from(s: Seq<EntryModel>, pred: spec_fn(EntryModel) -> bool, i: int)
    requires
        0 <= i < s.filter(pred).len(),
    ensures
        exists|j: int| 0 <= j < s.len() && s[j] == s.filter(pred)[i],
    decreases s.len(),
{
    reveal(Seq::filter);
    if s.len() > 0 {
        let sub = s.drop_last().filter(pred);
        if i < sub.len() {
            lemma_filter_from(s.drop_last(), pred, i);
            let j = choose|j: int| 0 <= j < s.drop_last().len() && s.drop_last()[j] == sub[i];
            assert(s[j] == s.filter(pred)[i]);
        } else {
            assert(s[s.len() - 1] == s.filter(pred)[i]);
        }
    }
}

} // verus!
