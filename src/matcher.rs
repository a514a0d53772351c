//! Keeping the lines of a text that contain a query.

use vstd::prelude::*;
use crate::lines::{lines_of, next_line};
use crate::text::{has_substring, line_contains};

verus! {

/// What `str::to_lowercase` makes of a text: its lowercase form under the
/// default Unicode case mapping, which is not locale aware.
pub uninterp spec fn lower_of(s: Seq<char>) -> Seq<char>;

/// Relies on str::to_lowercase: the result depends on the characters of `s`
/// alone.
#[verifier::external_body]
fn lowercase(s: &str) -> (r: String)
    ensures
        r@ == lower_of(s@),
{
    s.to_lowercase()
}

/// The characters of each string in `r`.
pub open spec fn views_of(r: Seq<&str>) -> Seq<Seq<char>> {
    r.map_values(|l: &str| l@)
}

/// The lines of `text` that contain `query`.
pub open spec fn search_spec(query: Seq<char>, text: Seq<char>) -> Seq<Seq<char>> {
    lines_of(text).filter(|l: Seq<char>| has_substring(l, query))
}

/// The lines of `text` whose lowercase form contains the lowercase form of `query`.
pub open spec fn search_ci_spec(query: Seq<char>, text: Seq<char>) -> Seq<Seq<char>> {
    lines_of(text).filter(|l: Seq<char>| has_substring(lower_of(l), lower_of(query)))
}

/// `l` lowercased when `fold` holds, else as it is.
pub open spec fn folded(l: Seq<char>, fold: bool) -> Seq<char> {
    if fold {
        lower_of(l)
    } else {
        l
    }
}

/// The lines of `contents` that contain `needle`, each lowercased first when
/// `fold` holds.
fn collect_matches<'a>(needle: &str, contents: &'a str, fold: bool) -> (r: Vec<&'a str>)
    ensures
        views_of(r@) == lines_of(contents@).filter(
            |l: Seq<char>| has_substring(folded(l, fold), needle@),
        ),
{
    let ghost pred = |l: Seq<char>| has_substring(folded(l, fold), needle@);
    let ghost mut done: Seq<Seq<char>> = seq![];
    let mut out: Vec<&'a str> = Vec::new();
    let mut rest: &'a str = contents;
    loop
        invariant
            pred == (|l: Seq<char>| has_substring(folded(l, fold), needle@)),
            lines_of(contents@) == done + lines_of(rest@),
            views_of(out@) == done.filter(pred),
        ensures
            views_of(out@) == lines_of(contents@).filter(pred),
        decreases rest@.len(),
    {
        match next_line(rest) {
            None => {
                assert(done + lines_of(rest@) =~= done);
                break ;
            },
            Some((line, tail)) => {
                let keep: bool;
                if fold {
                    let low = lowercase(line);
                    keep = line_contains(low.as_str(), needle);
                } else {
                    keep = line_contains(line, needle);
                }
                let ghost before = out@;
                if keep {
                    out.push(line);
                }
                proof {
                    reveal(Seq::filter);
                    assert(keep == pred(line@));
                    assert(done.push(line@).drop_last() =~= done);
                    assert(done.push(line@).last() == line@);
                    if keep {
                        assert(views_of(out@) =~= views_of(before).push(line@));
                    } else {
                        assert(views_of(out@) =~= views_of(before));
                    }
                    assert(lines_of(contents@) =~= done.push(line@) + lines_of(tail@));
                    done = done.push(line@);
                }
                rest = tail;
            },
        }
    }
    out
}

/// The lines of `contents` that contain `query`, in their order.
pub fn search<'a>(query: &str, contents: &'a str) -> (r: Vec<&'a str>)
    ensures
        views_of(r@) == search_spec(query@, contents@),
{
    let r = collect_matches(query, contents, false);
    proof {
        assert((|l: Seq<char>| has_substring(folded(l, false), query@)) =~= (|l: Seq<char>|
            has_substring(l, query@)));
    }
    r
}

/// The lines of `contents` that contain `query` when both are lowercased, in
/// their order.
pub fn search_case_insensitive<'a>(query: &str, contents: &'a str) -> (r: Vec<&'a str>)
    ensures
        views_of(r@) == search_ci_spec(query@, contents@),
{
    let low = lowercase(query);
    let r = collect_matches(low.as_str(), contents, true);
    proof {
        assert((|l: Seq<char>| has_substring(folded(l, true), low@)) =~= (|l: Seq<char>|
            has_substring(lower_of(l), lower_of(query@))));
    }
    r
}

} // verus!
