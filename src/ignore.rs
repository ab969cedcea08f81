//! Ignore rules: each non-empty line of an ignore file is a wildcard pattern
//! that may match anywhere in a path.
use vstd::prelude::*;
use crate::text::{lines_of, push_char, split_lines};

verus! {

/// Whether the wildcard pattern `p` matches the whole of `t`: `*` matches any
/// run of characters, the empty one included, `?` matches one character, and
/// any other character matches itself.
pub open spec fn wildcard_matches(p: Seq<char>, t: Seq<char>) -> bool
    decreases p.len() + t.len(),
{
    if p.len() == 0 {
        t.len() == 0
    } else if p[0] == '*' {
        wildcard_matches(p.drop_first(), t) || (t.len() > 0 && wildcard_matches(p, t.drop_first()))
    } else {
        t.len() > 0 && (p[0] == '?' || p[0] == t[0]) && wildcard_matches(p.drop_first(), t.drop_first())
    }
}

/// Relies on `wildmatch::WildMatch::new` and `WildMatch::matches`, which
/// match case-sensitively with `*` for any run of characters and `?` for one.
#[verifier::external_body]
fn wild_match(pattern: &str, input: &str) -> (r: bool)
    ensures
        r == wildcard_matches(pattern@, input@),
{
    wildmatch::WildMatch::new(pattern).matches(input)
}

/// The pattern made of an ignore line: the line with `*` on both sides.
pub open spec fn wrapped(line: Seq<char>) -> Seq<char> {
    seq!['*'] + line + seq!['*']
}

/// The patterns made of the non-empty lines among `lines`, in order.
pub open spec fn patterns_of_lines(lines: Seq<Seq<char>>) -> Seq<Seq<char>>
    decreases lines.len(),
{
    if lines.len() == 0 {
        Seq::empty()
    } else if lines.last().len() > 0 {
        patterns_of_lines(lines.drop_last()).push(wrapped(lines.last()))
    } else {
        patterns_of_lines(lines.drop_last())
    }
}

/// The patterns of an ignore file whose text is `contents`.
pub open spec fn ignore_patterns(contents: Seq<char>) -> Seq<Seq<char>> {
    patterns_of_lines(lines_of(contents))
}

/// Whether some pattern among `patterns` matches `path`.
pub open spec fn ignored_by(patterns: Seq<Seq<char>>, path: Seq<char>) -> bool {
    exists|i: int| 0 <= i < patterns.len() && wildcard_matches(#[trigger] patterns[i], path)
}

/// The pattern of one ignore line.
pub fn wrap_line(line: &str) -> (r: String)
    ensures
        r@ == wrapped(line@),
{
    let mut r = String::new();
    push_char(&mut r, '*');
    r.append(line);
    push_char(&mut r, '*');
    assert(r@ =~= wrapped(line@));
    r
}

/// The patterns of an ignore file whose text is `contents`: one for each
/// non-empty line.
pub fn create_wildmatches(contents: &str) -> (r: Vec<String>)
    ensures
        r@.map_values(|s: String| s@) == ignore_patterns(contents@),
{
    let lines = split_lines(contents);
    let ghost ls = lines@.map_values(|l: String| l@);
    let mut res: Vec<String> = Vec::new();
    let mut i: usize = 0;
    while i < lines.len()
        invariant
            i <= lines.len(),
            ls == lines@.map_values(|l: String| l@),
            ls == lines_of(contents@),
            res@.map_values(|s: String| s@) == patterns_of_lines(ls.take(i as int)),
        decreases lines.len() - i,
    {
        assert(ls.take(i + 1).drop_last() =~= ls.take(i as int));
        let line = lines[i].as_str();
        if line.unicode_len() > 0 {
            res.push(wrap_line(line));
            assert(res@.map_values(|s: String| s@) =~= patterns_of_lines(ls.take(i + 1)));
        }
        i = i + 1;
    }
    assert(ls.take(lines.len() as int) =~= ls);
    res
}

/// Whether some pattern among `wildmatches` matches `path`.
pub fn is_ignored(path: &str, wildmatches: &Vec<String>) -> (r: bool)
    ensures
        r == ignored_by(wildmatches@.map_values(|s: String| s@), path@),
{
    let ghost ps = wildmatches@.map_values(|s: String| s@);
    let mut i: usize = 0;
    while i < wildmatches.len()
        invariant
            i <= wildmatches.len(),
            ps == wildmatches@.map_values(|s: String| s@),
            forall|j: int| 0 <= j < i ==> !wildcard_matches(#[trigger] ps[j], path@),
        decreases wildmatches.len() - i,
    {
        if wild_match(wildmatches[i].as_str(), path) {
            assert(wildcard_matches(ps[i as int], path@));
            return true;
        }
        i = i + 1;
    }
    false
}

/// A `*` matches any text.
proof fn lemma_star_matches_all(t: Seq<char>)
    ensures
        wildcard_matches(seq!['*'], t),
    decreases t.len(),
{
    let p = seq!['*'];
    assert(p.len() == 1 && p[0] == '*');
    assert(p.drop_first() =~= Seq::<char>::empty());
    if t.len() > 0 {
        lemma_star_matches_all(t.drop_first());
        assert(wildcard_matches(p, t.drop_first()));
    } else {
        assert(wildcard_matches(p.drop_first(), t));
    }
}

/// Every pattern matches its own text.
proof fn lemma_matches_itself(p: Seq<char>)
    ensures
        wildcard_matches(p, p),
    decreases p.len(), 1nat,
{
    if p.len() > 0 {
        lemma_matches_itself(p.drop_first());
        if p[0] == '*' {
            lemma_star_then_rest(p.drop_first());
            assert(seq!['*'] + p.drop_first() =~= p);
        }
    }
}

/// A pattern that starts with `*` matches the text that the rest matches.
proof fn lemma_star_then_rest(q: Seq<char>)
    requires
        wildcard_matches(q, q),
    ensures
        wildcard_matches(seq!['*'] + q, q),
{
    assert((seq!['*'] + q).drop_first() =~= q);
}

/// Putting `*` before a pattern lets any text stand before what it matched.
proof fn lemma_star_prefix(q: Seq<char>, a: Seq<char>, t: Seq<char>)
    requires
        wildcard_matches(q, t),
    ensures
        wildcard_matches(seq!['*'] + q, a + t),
    decreases a.len(),
{
    let p = seq!['*'] + q;
    assert(p.drop_first() =~= q);
    if a.len() == 0 {
        assert(a + t =~= t);
    } else {
        lemma_star_prefix(q, a.drop_first(), t);
        assert((a + t).drop_first() =~= a.drop_first() + t);
    }
}

/// Putting `*` after a pattern lets any text stand after what it matched.
proof fn lemma_star_suffix(q: Seq<char>, t: Seq<char>, b: Seq<char>)
    requires
        wildcard_matches(q, t),
    ensures
        wildcard_matches(q + seq!['*'], t + b),
    decreases q.len() + t.len(),
{
    if q.len() == 0 {
        assert(q + seq!['*'] =~= seq!['*']);
        assert(t + b =~= b);
        lemma_star_matches_all(b);
    } else {
        assert((q + seq!['*']).drop_first() =~= q.drop_first() + seq!['*']);
        assert((q + seq!['*'])[0] == q[0]);
        if q[0] == '*' {
            if wildcard_matches(q.drop_first(), t) {
                lemma_star_suffix(q.drop_first(), t, b);
            } else {
                lemma_star_suffix(q, t.drop_first(), b);
                assert((t + b).drop_first() =~= t.drop_first() + b);
            }
        } else {
            lemma_star_suffix(q.drop_first(), t.drop_first(), b);
            assert((t + b).drop_first() =~= t.drop_first() + b);
            assert((t + b)[0] == t[0]);
        }
    }
}

/// The pattern of an ignore line matches every path in which that line
/// stands.
pub proof fn lemma_wrapped_matches_containing(line: Seq<char>, path: Seq<char>, at: int)
    requires
        0 <= at <= path.len() - line.len(),
        path.subrange(at, at + line.len()) == line,
    ensures
        wildcard_matches(wrapped(line), path),
{
    let a = path.take(at);
    let b = path.skip(at + line.len());
    lemma_matches_itself(line);
    lemma_star_suffix(line, line, b);
    lemma_star_prefix(line + seq!['*'], a, line + b);
    assert(seq!['*'] + (line + seq!['*']) =~= wrapped(line));
    assert(a + (line + b) =~= path);
}

/// Each non-empty line among `lines` has its pattern among the patterns made
/// of them.
proof fn lemma_line_has_pattern(lines: Seq<Seq<char>>, k: int)
    requires
        0 <= k < lines.len(),
        lines[k].len() > 0,
    ensures
        patterns_of_lines(lines).contains(wrapped(lines[k])),
    decreases lines.len(),
{
    let ps = patterns_of_lines(lines);
    if k == lines.len() - 1 {
        assert(ps.last() == wrapped(lines[k]));
    } else {
        lemma_line_has_pattern(lines.drop_last(), k);
        let prev = patterns_of_lines(lines.drop_last());
        let j = choose|j: int| 0 <= j < prev.len() && prev[j] == wrapped(lines[k]);
        assert(ps[j] == prev[j]);
    }
}

/// A path in which a non-empty line of the ignore file stands, as a piece of
/// text, is ignored by the patterns of that file.
pub proof fn lemma_ignore_line_ignores_path(contents: Seq<char>, k: int, path: Seq<char>, at: int)
    requires
        0 <= k < lines_of(contents).len(),
        lines_of(contents)[k].len() > 0,
        0 <= at <= path.len() - lines_of(contents)[k].len(),
        path.subrange(at, at + lines_of(contents)[k].len()) == lines_of(contents)[k],
    ensures
        ignored_by(ignore_patterns(contents), path),
{
    let line = lines_of(contents)[k];
    lemma_line_has_pattern(lines_of(contents), k);
    lemma_wrapped_matches_containing(line, path, at);
    let ps = ignore_patterns(contents);
    let j = choose|j: int| 0 <= j < ps.len() && ps[j] == wrapped(line);
    assert(wildcard_matches(ps[j], path));
}

} // verus!
