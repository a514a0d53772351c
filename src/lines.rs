//! Splitting a text into lines.
//!
//! A line ends at a line feed, and a carriage return just before that line
//! feed belongs to the terminator. The last line needs no terminator, and a
//! terminator at the very end of the text does not open an empty last line.

use vstd::prelude::*;
use vstd::string::StrSliceExecFns;

verus! {

/// The position of the first line feed in `t`, or its length if it holds none.
pub open spec fn line_end(t: Seq<char>) -> nat
    decreases t.len(),
{
    if t.len() == 0 || t[0] == '\n' {
        0
    } else {
        1 + line_end(t.drop_first())
    }
}

/// `l` without one carriage return at its end, if it has one.
pub open spec fn strip_cr(l: Seq<char>) -> Seq<char> {
    if l.len() > 0 && l.last() == '\r' {
        l.drop_last()
    } else {
        l
    }
}

/// The lines of `t`, in order.
pub open spec fn lines_of(t: Seq<char>) -> Seq<Seq<char>>
    decreases t.len(),
{
    let k = line_end(t);
    if t.len() == 0 {
        seq![]
    } else if k >= t.len() {
        seq![t]
    } else {
        seq![strip_cr(t.subrange(0, k as int))] + lines_of(t.subrange(k + 1int, t.len() as int))
    }
}

proof fn lemma_line_end_of_split(t: Seq<char>, a: Seq<char>, b: Seq<char>)
    requires
        t == a + seq!['\n'] + b,
        !a.contains('\n'),
    ensures
        line_end(t) == a.len(),
        t.subrange(0, a.len() as int) == a,
        t.subrange(a.len() + 1int, t.len() as int) == b,
    decreases a.len(),
{
    if a.len() > 0 {
        assert(t[0] == a[0]);
        assert(a.contains(a[0]));
        assert(t.drop_first() =~= a.drop_first() + seq!['\n'] + b);
        assert forall|c: char| a.drop_first().contains(c) implies a.contains(c) by {
            let i = choose|i: int| 0 <= i < a.drop_first().len() && a.drop_first()[i] == c;
            assert(a[i + 1] == c);
        }
        lemma_line_end_of_split(t.drop_first(), a.drop_first(), b);
    } else {
        assert(t[0] == '\n');
    }
    assert(t.subrange(0, a.len() as int) =~= a);
    assert(t.subrange(a.len() + 1int, t.len() as int) =~= b);
}

proof fn lemma_line_end_without_newline(t: Seq<char>)
    requires
        !t.contains('\n'),
    ensures
        line_end(t) == t.len(),
    decreases t.len(),
{
    if t.len() > 0 {
        assert(t[0] != '\n');
        assert forall|c: char| t.drop_first().contains(c) implies t.contains(c) by {
            let i = choose|i: int| 0 <= i < t.drop_first().len() && t.drop_first()[i] == c;
            assert(t[i + 1] == c);
        }
        lemma_line_end_without_newline(t.drop_first());
    }
}

/// The lines of a text that is split at its first line feed.
pub proof fn lemma_lines_of_split(t: Seq<char>, a: Seq<char>, b: Seq<char>)
    requires
        t == a + seq!['\n'] + b,
        !a.contains('\n'),
    ensures
        lines_of(t) == seq![strip_cr(a)] + lines_of(b),
{
    lemma_line_end_of_split(t, a, b);
}

/// A text without a line feed is one line, or none if it is empty.
pub proof fn lemma_lines_of_single(t: Seq<char>)
    requires
        !t.contains('\n'),
    ensures
        lines_of(t) == (if t.len() == 0 {
            Seq::<Seq<char>>::empty()
        } else {
            seq![t]
        }),
{
    lemma_line_end_without_newline(t);
}

/// Relies on str::split_once with a `char` pattern: on the first occurrence of
/// the character it returns the text before it and the text after it, and
/// `None` when the character does not occur.
#[verifier::external_body]
fn split_at_newline<'a>(s: &'a str) -> (r: Option<(&'a str, &'a str)>)
    ensures
        match r {
            Some((head, tail)) => s@ == head@ + seq!['\n'] + tail@ && !head@.contains('\n'),
            None => !s@.contains('\n'),
        },
{
    s.split_once('\n')
}

/// `line` without the carriage return at its end, if it has one.
fn trim_carriage_return<'a>(line: &'a str) -> (r: &'a str)
    ensures
        r@ == strip_cr(line@),
{
    let n: usize = line.unicode_len();
    if n > 0 && line.get_char(n - 1) == '\r' {
        line.substring_char(0, n - 1)
    } else {
        line
    }
}

/// The next line of `rest` and the text after it, or `None` when `rest` is empty.
pub fn next_line<'a>(rest: &'a str) -> (r: Option<(&'a str, &'a str)>)
    ensures
        match r {
            None => rest@.len() == 0,
            Some((line, tail)) => {
                &&& rest@.len() > 0
                &&& lines_of(rest@) == seq![line@] + lines_of(tail@)
                &&& tail@.len() < rest@.len()
            },
        },
{
    match split_at_newline(rest) {
        Some((head, tail)) => {
            proof {
                lemma_lines_of_split(rest@, head@, tail@);
            }
            Some((trim_carriage_return(head), tail))
        },
        None => {
            proof {
                lemma_lines_of_single(rest@);
            }
            if rest.is_empty() {
                None
            } else {
                let tail = "";
                proof {
                    reveal_strlit("");
                    assert(tail@.len() == 0);
                }
                Some((rest, tail))
            }
        },
    }
}

} // verus!
