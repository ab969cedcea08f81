//! Scanning the entries of a tree: which entries are looked at, what is
//! found in the text of a file, and the report over all of them.
use vstd::prelude::*;
use crate::detect::PathDetection;
use crate::ignore::{ignored_by, is_ignored};
use crate::text::{lines_of, push_char, split_lines};

verus! {

/// A path found in a file.
pub struct PathFinded {
    /// The file, as the traversal named it.
    pub filepath: String,
    /// The line of the file, counted from 1.
    pub line_number: u64,
    /// The text found, quotes included.
    pub path: String,
}

/// A finding as plain values: file, line number, text found.
pub type FindingView = (Seq<char>, int, Seq<char>);

impl View for PathFinded {
    type V = FindingView;

    open spec fn view(&self) -> FindingView {
        (self.filepath@, self.line_number as int, self.path@)
    }
}

impl PathFinded {
    /// The file in which the path was found.
    pub fn filepath(&self) -> (r: &str)
        ensures
            r@ == self@.0,
    {
        self.filepath.as_str()
    }

    /// The line on which the path was found, counted from 1.
    pub fn line_number(&self) -> (r: u64)
        ensures
            r == self@.1,
    {
        self.line_number
    }

    /// The text that was found.
    pub fn path(&self) -> (r: &str)
        ensures
            r@ == self@.2,
    {
        self.path.as_str()
    }
}

/// The findings in the first lines of a file: one for each line in which
/// `set` detects something, in the order of the lines.
pub open spec fn findings_of<D: PathDetection>(set: &D, lines: Seq<Seq<char>>, file: Seq<char>) -> Seq<FindingView>
    decreases lines.len(),
{
    if lines.len() == 0 {
        Seq::empty()
    } else {
        let prev = findings_of(set, lines.drop_last(), file);
        let m = set.detected(lines.last());
        if m.len() > 0 {
            prev.push((file, lines.len() as int, m))
        } else {
            prev
        }
    }
}

/// The findings in a file named `file` whose text is `content`.
pub open spec fn content_findings<D: PathDetection>(set: &D, content: Seq<char>, file: Seq<char>) -> Seq<FindingView> {
    findings_of(set, lines_of(content), file)
}

/// The views of some findings.
pub open spec fn views(fs: Seq<PathFinded>) -> Seq<FindingView> {
    fs.map_values(|f: PathFinded| f@)
}

/// The paths found in `lines`, the text of the file named `file`.
pub fn fill_from_content<D: PathDetection>(lines: &str, set: &D, file: &str) -> (r: Vec<PathFinded>)
    ensures
        views(r@) == content_findings(set, lines@, file@),
{
    let all = split_lines(lines);
    let ghost ls = all@.map_values(|l: String| l@);
    let mut res: Vec<PathFinded> = Vec::new();
    let mut nb: usize = 0;
    while nb < all.len()
        invariant
            nb <= all.len(),
            ls == all@.map_values(|l: String| l@),
            ls == lines_of(lines@),
            views(res@) == findings_of(set, ls.take(nb as int), file@),
        decreases all.len() - nb,
    {
        assert(ls.take(nb + 1).drop_last() =~= ls.take(nb as int));
        let path = set.path_exist(all[nb].as_str());
        if path.as_str().unicode_len() > 0 {
            let line_number: u64 = 1 + nb as u64;
            res.push(PathFinded { filepath: file.to_string(), line_number, path });
            assert(views(res@) =~= findings_of(set, ls.take(nb + 1), file@));
        }
        nb = nb + 1;
    }
    assert(ls.take(all.len() as int) =~= ls);
    res
}

/// The findings of the file named `file`, whose text is `contents`, or
/// `None` where the text could not be read. `None` too where nothing was
/// found.
pub fn check_one_file<D: PathDetection>(file: &str, contents: &Option<String>, set: &D) -> (r: Option<Vec<PathFinded>>)
    ensures
        match contents {
            None => r is None,
            Some(c) => {
                let fs = content_findings(set, c@, file@);
                if fs.len() == 0 {
                    r is None
                } else {
                    r matches Some(v) && views(v@) == fs
                }
            },
        },
{
    match contents {
        Some(c) => {
            let res = fill_from_content(c.as_str(), set, file);
            if res.len() == 0 {
                None
            } else {
                Some(res)
            }
        },
        None => None,
    }
}

/// What the traversal learned of an entry.
pub enum EntryStatus {
    /// Its metadata could not be read.
    Unreadable,
    /// It is a directory.
    Directory,
    /// It is a file: its text, or `None` where it could not be read as text.
    File(Option<String>),
}

/// The findings of the entry named `path`: those of its text where it is a
/// file, and `None` otherwise.
pub fn check_entry<D: PathDetection>(path: &str, status: &EntryStatus, set: &D) -> (r: Option<Vec<PathFinded>>)
    ensures
        match status {
            EntryStatus::File(Some(c)) => {
                let fs = content_findings(set, c@, path@);
                if fs.len() == 0 {
                    r is None
                } else {
                    r matches Some(v) && views(v@) == fs
                }
            },
            _ => r is None,
        },
{
    match status {
        EntryStatus::File(contents) => check_one_file(path, contents, set),
        _ => None,
    }
}

/// The walk over every entry beneath `root`: `**/*` after the root, with one
/// `/` between them.
pub open spec fn glob_of(root: Seq<char>) -> Seq<char> {
    if root.len() > 0 && root.last() == '/' {
        root + seq!['*', '*', '/', '*']
    } else {
        root + seq!['/', '*', '*', '/', '*']
    }
}

/// The glob expression that walks every entry beneath `path`.
pub fn glob_expression(path: &str) -> (r: String)
    ensures
        r@ == glob_of(path@),
{
    let mut r = path.to_string();
    let n = path.unicode_len();
    if n == 0 || path.get_char(n - 1) != '/' {
        push_char(&mut r, '/');
    }
    push_char(&mut r, '*');
    push_char(&mut r, '*');
    push_char(&mut r, '/');
    push_char(&mut r, '*');
    assert(r@ =~= glob_of(path@));
    r
}

/// The paths among `paths` that no pattern among `patterns` matches, in order.
pub open spec fn kept_paths(paths: Seq<Seq<char>>, patterns: Seq<Seq<char>>) -> Seq<Seq<char>>
    decreases paths.len(),
{
    if paths.len() == 0 {
        Seq::empty()
    } else if ignored_by(patterns, paths.last()) {
        kept_paths(paths.drop_last(), patterns)
    } else {
        kept_paths(paths.drop_last(), patterns).push(paths.last())
    }
}

/// The views of some strings.
pub open spec fn texts(v: Seq<String>) -> Seq<Seq<char>> {
    v.map_values(|s: String| s@)
}

/// The paths among `paths` that are not ignored, in order. Where no ignore
/// patterns could be loaded, every path is kept.
pub fn filter_ignored(paths: Vec<String>, wildmatches: &Option<Vec<String>>) -> (r: Vec<String>)
    ensures
        match wildmatches {
            None => r@ == paths@,
            Some(ps) => texts(r@) == kept_paths(texts(paths@), texts(ps@)),
        },
{
    match wildmatches {
        None => paths,
        Some(ps) => {
            let ghost all = texts(paths@);
            let mut res: Vec<String> = Vec::new();
            for p in it: paths.into_iter()
                invariant
                    it.seq() == paths@,
                    all == texts(paths@),
                    texts(res@) == kept_paths(all.take(it.index() as int), texts(ps@)),
            {
                let ghost i = it.index() as int;
                assert(all.take(i + 1).drop_last() =~= all.take(i));
                assert(all[i] == p@);
                if !is_ignored(p.as_str(), ps) {
                    res.push(p);
                    assert(texts(res@) =~= kept_paths(all.take(i + 1), texts(ps@)));
                }
            }
            assert(all.take(all.len() as int) =~= all);
            res
        },
    }
}

/// The findings of one entry, as plain values: none where it gave `None`.
pub open spec fn entry_findings(r: Option<Vec<PathFinded>>) -> Seq<FindingView> {
    match r {
        Some(v) => views(v@),
        None => Seq::empty(),
    }
}

/// The findings of all entries, entry after entry.
pub open spec fn flattened(rs: Seq<Option<Vec<PathFinded>>>) -> Seq<FindingView>
    decreases rs.len(),
{
    if rs.len() == 0 {
        Seq::empty()
    } else {
        flattened(rs.drop_last()) + entry_findings(rs.last())
    }
}

/// The report over the findings of every entry: `Ok` where there are none,
/// else all of them, entry after entry.
pub fn collect_report(results: Vec<Option<Vec<PathFinded>>>) -> (r: Result<(), Vec<PathFinded>>)
    ensures
        flattened(results@).len() == 0 ==> r is Ok,
        flattened(results@).len() > 0 ==> (r matches Err(v) && views(v@) == flattened(results@)),
{
    let ghost rs = results@;
    let mut all: Vec<PathFinded> = Vec::new();
    for o in it: results.into_iter()
        invariant
            it.seq() == rs,
            views(all@) == flattened(rs.take(it.index() as int)),
    {
        let ghost i = it.index() as int;
        assert(rs.take(i + 1).drop_last() =~= rs.take(i));
        assert(rs[i] == o);
        let ghost before = all@;
        match o {
            Some(mut v) => {
                let ghost added = v@;
                all.append(&mut v);
                assert(views(all@) =~= views(before) + views(added));
            },
            None => {
                assert(views(all@) =~= views(before) + Seq::<FindingView>::empty());
            },
        }
    }
    assert(rs.take(rs.len() as int) =~= rs);
    if all.len() == 0 {
        Ok(())
    } else {
        Err(all)
    }
}

/// In a file, a line gives a finding exactly where `set` detects something in
/// it, and then just one: its file is the file, its line number counts from 1,
/// and its text is what was detected. Findings come in the order of the
/// lines.
pub proof fn lemma_findings_by_line<D: PathDetection>(set: &D, lines: Seq<Seq<char>>, file: Seq<char>)
    ensures
        forall|j: int|
            0 <= j < findings_of(set, lines, file).len() ==> {
                let f = #[trigger] findings_of(set, lines, file)[j];
                &&& f.0 == file
                &&& 1 <= f.1 <= lines.len()
                &&& f.2 == set.detected(lines[f.1 - 1])
                &&& f.2.len() > 0
            },
        forall|j: int, l: int|
            0 <= j < l < findings_of(set, lines, file).len() ==> findings_of(set, lines, file)[j].1
                < findings_of(set, lines, file)[l].1,
        forall|k: int|
            0 <= k < lines.len() && #[trigger] set.detected(lines[k]).len() > 0 ==> exists|j: int|
                0 <= j < findings_of(set, lines, file).len() && #[trigger] findings_of(
                    set,
                    lines,
                    file,
                )[j].1 == k + 1,
    decreases lines.len(),
{
    if lines.len() > 0 {
        let prev_lines = lines.drop_last();
        lemma_findings_by_line(set, prev_lines, file);
        let prev = findings_of(set, prev_lines, file);
        let fs = findings_of(set, lines, file);
        assert forall|j: int| 0 <= j < prev.len() implies #[trigger] fs[j] == prev[j] by {}
        assert forall|k: int|
            0 <= k < lines.len() && #[trigger] set.detected(lines[k]).len() > 0 implies exists|j: int|
                0 <= j < fs.len() && #[trigger] fs[j].1 == k + 1 by {
            if k < lines.len() - 1 {
                assert(lines[k] == prev_lines[k]);
                let j = choose|j: int| 0 <= j < prev.len() && #[trigger] prev[j].1 == k + 1;
                assert(fs[j] == prev[j]);
            } else {
                assert(fs[fs.len() - 1].1 == k + 1);
            }
        }
        assert forall|j: int| 0 <= j < prev.len() implies #[trigger] prev[j].2 == set.detected(
            lines[prev[j].1 - 1],
        ) by {
            assert(lines[prev[j].1 - 1] == prev_lines[prev[j].1 - 1]);
        }
    }
}

/// The findings of all entries are those of each entry, whatever their order.
pub proof fn lemma_report_holds_each_entry(rs: Seq<Option<Vec<PathFinded>>>, f: FindingView)
    ensures
        flattened(rs).contains(f) <==> exists|i: int|
            0 <= i < rs.len() && #[trigger] entry_findings(rs[i]).contains(f),
    decreases rs.len(),
{
    if rs.len() > 0 {
        let prev = rs.drop_last();
        lemma_report_holds_each_entry(prev, f);
        let a = flattened(prev);
        let b = entry_findings(rs.last());
        assert(flattened(rs) == a + b);
        if flattened(rs).contains(f) {
            let j = choose|j: int| 0 <= j < (a + b).len() && (a + b)[j] == f;
            if j < a.len() {
                assert(a[j] == f);
                let i = choose|i: int| 0 <= i < prev.len() && #[trigger] entry_findings(prev[i]).contains(f);
                assert(rs[i] == prev[i]);
            } else {
                assert(b[j - a.len()] == f);
                assert(entry_findings(rs[rs.len() - 1]).contains(f));
            }
        }
        if exists|i: int| 0 <= i < rs.len() && #[trigger] entry_findings(rs[i]).contains(f) {
            let i = choose|i: int| 0 <= i < rs.len() && #[trigger] entry_findings(rs[i]).contains(f);
            if i < rs.len() - 1 {
                assert(prev[i] == rs[i]);
                let j = choose|j: int| 0 <= j < a.len() && a[j] == f;
                assert((a + b)[j] == f);
            } else {
                let j = choose|j: int| 0 <= j < b.len() && b[j] == f;
                assert((a + b)[a.len() + j] == f);
            }
        }
    }
}

/// Two scans whose entries gave the same results, in any order, report the
/// same findings.
pub proof fn lemma_report_order_free(rs1: Seq<Option<Vec<PathFinded>>>, rs2: Seq<Option<Vec<PathFinded>>>)
    requires
        forall|i: int| 0 <= i < rs1.len() ==> #[trigger] rs2.contains(rs1[i]),
        forall|i: int| 0 <= i < rs2.len() ==> #[trigger] rs1.contains(rs2[i]),
    ensures
        forall|f: FindingView| flattened(rs1).contains(f) <==> #[trigger] flattened(rs2).contains(f),
{
    assert forall|f: FindingView| flattened(rs1).contains(f) <==> #[trigger] flattened(rs2).contains(f) by {
        lemma_report_holds_each_entry(rs1, f);
        lemma_report_holds_each_entry(rs2, f);
        if flattened(rs1).contains(f) {
            let i = choose|i: int| 0 <= i < rs1.len() && #[trigger] entry_findings(rs1[i]).contains(f);
            assert(rs2.contains(rs1[i]));
            let k = choose|k: int| 0 <= k < rs2.len() && rs2[k] == rs1[i];
            assert(entry_findings(rs2[k]).contains(f));
        }
        if flattened(rs2).contains(f) {
            let i = choose|i: int| 0 <= i < rs2.len() && #[trigger] entry_findings(rs2[i]).contains(f);
            assert(rs1.contains(rs2[i]));
            let k = choose|k: int| 0 <= k < rs1.len() && rs1[k] == rs2[i];
            assert(entry_findings(rs1[k]).contains(f));
        }
    }
}

/// A path that is kept is one of the paths, and no pattern matches it.
proof fn lemma_kept_not_ignored(paths: Seq<Seq<char>>, patterns: Seq<Seq<char>>, q: Seq<char>)
    requires
        kept_paths(paths, patterns).contains(q),
    ensures
        paths.contains(q),
        !ignored_by(patterns, q),
    decreases paths.len(),
{
    let prev = paths.drop_last();
    let kp = kept_paths(prev, patterns);
    if kp.contains(q) {
        lemma_kept_not_ignored(prev, patterns, q);
        let i = choose|i: int| 0 <= i < prev.len() && prev[i] == q;
        assert(paths[i] == q);
    } else {
        let j = choose|j: int| 0 <= j < kept_paths(paths, patterns).len() && kept_paths(paths, patterns)[j] == q;
        if !ignored_by(patterns, paths.last()) {
            assert(j == kp.len());
        }
        assert(paths[paths.len() - 1] == q);
    }
}

/// A path in which a non-empty line of the ignore file stands is not among
/// the paths that are scanned, so it gives no finding.
pub proof fn lemma_ignored_path_not_scanned(
    paths: Seq<Seq<char>>,
    contents: Seq<char>,
    k: int,
    path: Seq<char>,
    at: int,
)
    requires
        0 <= k < lines_of(contents).len(),
        lines_of(contents)[k].len() > 0,
        0 <= at <= path.len() - lines_of(contents)[k].len(),
        path.subrange(at, at + lines_of(contents)[k].len()) == lines_of(contents)[k],
    ensures
        !kept_paths(paths, crate::ignore::ignore_patterns(contents)).contains(path),
{
    crate::ignore::lemma_ignore_line_ignores_path(contents, k, path, at);
    if kept_paths(paths, crate::ignore::ignore_patterns(contents)).contains(path) {
        lemma_kept_not_ignored(paths, crate::ignore::ignore_patterns(contents), path);
    }
}

} // verus!
