//! Splitting text into lines.
use vstd::prelude::*;

verus! {

/// Drops one `'\r'` from the end of `s`, if it ends with one.
pub open spec fn strip_cr(s: Seq<char>) -> Seq<char> {
    if s.len() > 0 && s.last() == '\r' {
        s.drop_last()
    } else {
        s
    }
}

/// The lines completed so far in `s`, and the text of the line still open.
/// A line ends at `'\n'`, and a `'\r'` just before that `'\n'` is no part of it.
pub open spec fn split_state(s: Seq<char>) -> (Seq<Seq<char>>, Seq<char>)
    decreases s.len(),
{
    if s.len() == 0 {
        (Seq::empty(), Seq::empty())
    } else {
        let (done, open) = split_state(s.drop_last());
        if s.last() == '\n' {
            (done.push(strip_cr(open)), Seq::empty())
        } else {
            (done, open.push(s.last()))
        }
    }
}

/// The lines of `s`: the last one needs no line ending, and text that ends
/// with a line ending has no empty line after it.
pub open spec fn lines_of(s: Seq<char>) -> Seq<Seq<char>> {
    let (done, open) = split_state(s);
    if open.len() == 0 {
        done
    } else {
        done.push(open)
    }
}

/// Relies on `String::push`: appends one character.
#[verifier::external_body]
pub(crate) fn push_char(s: &mut String, c: char)
    ensures
        final(s)@ == old(s)@.push(c),
{
    s.push(c)
}

/// Relies on `String::pop`: removes the last character, if there is one.
#[verifier::external_body]
fn pop_char(s: &mut String) -> (r: Option<char>)
    ensures
        old(s)@.len() == 0 ==> r is None && final(s)@ == old(s)@,
        old(s)@.len() > 0 ==> r == Some(old(s)@.last()) && final(s)@ == old(s)@.drop_last(),
{
    s.pop()
}

/// Ends the open line: removes a trailing `'\r'`.
fn close_line(mut line: String) -> (r: String)
    ensures
        r@ == strip_cr(line@),
{
    let n = line.as_str().unicode_len();
    if n > 0 {
        let last = line.as_str().get_char(n - 1);
        if last == '\r' {
            let _ = pop_char(&mut line);
        }
    }
    line
}

/// Splits `text` into its lines, without their line endings.
pub fn split_lines(text: &str) -> (r: Vec<String>)
    ensures
        r@.map_values(|l: String| l@) == lines_of(text@),
{
    let mut done: Vec<String> = Vec::new();
    let mut open = String::new();
    let ghost mut seen: Seq<char> = Seq::empty();
    for c in it: text.chars()
        invariant
            it.seq() == text@,
            seen == text@.take(it.index() as int),
            split_state(seen) == (done@.map_values(|l: String| l@), open@),
    {
        proof {
            assert(seen.push(c) =~= text@.take(it.index() + 1));
            assert(seen.push(c).drop_last() =~= seen);
        }
        if c == '\n' {
            let line = close_line(open);
            done.push(line);
            open = String::new();
            proof {
                assert(done@.map_values(|l: String| l@) =~= split_state(seen.push(c)).0);
            }
        } else {
            push_char(&mut open, c);
        }
        proof {
            seen = seen.push(c);
        }
    }
    proof {
        assert(seen =~= text@);
    }
    if open.as_str().unicode_len() > 0 {
        done.push(open);
        proof {
            assert(done@.map_values(|l: String| l@) =~= lines_of(text@));
        }
    }
    done
}

} // verus!
