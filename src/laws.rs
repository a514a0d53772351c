//! What holds of the matcher over all queries and texts.

use vstd::prelude::*;
use crate::lines::lines_of;
use crate::matcher::{lower_of, search_ci_spec, search_spec, views_of};
use crate::text::{has_substring, occurs_at};

verus! {

/// `idx` places each element of `sub` at a position of `full`, in
/// increasing order.
pub open spec fn embeds<A>(sub: Seq<A>, full: Seq<A>, idx: Seq<int>) -> bool {
    &&& idx.len() == sub.len()
    &&& forall|k: int| 0 <= k < idx.len() ==> 0 <= #[trigger] idx[k] < full.len()
    &&& forall|k: int| 0 <= k < idx.len() ==> sub[k] == full[#[trigger] idx[k]]
    &&& forall|k: int, l: int| 0 <= k < l < idx.len() ==> idx[k] < idx[l]
}

/// `sub` is `full` with some elements left out, the rest in their order.
pub open spec fn is_subsequence<A>(sub: Seq<A>, full: Seq<A>) -> bool {
    exists|idx: Seq<int>| embeds(sub, full, idx)
}

/// Filtering by a predicate keeps, in order, a part of what filtering by a
/// weaker one keeps.
pub proof fn lemma_filter_embeds<A>(s: Seq<A>, p: spec_fn(A) -> bool, q: spec_fn(A) -> bool) -> (idx:
    Seq<int>)
    requires
        forall|i: int| 0 <= i < s.len() && p(s[i]) ==> q(s[i]),
    ensures
        embeds(s.filter(p), s.filter(q), idx),
        s.filter(p).len() <= s.filter(q).len(),
    decreases s.len(),
{
    reveal(Seq::filter);
    if s.len() == 0 {
        Seq::empty()
    } else {
        let t = s.drop_last();
        let x = s.last();
        let prev = lemma_filter_embeds(t, p, q);
        let fp = t.filter(p);
        let fq = t.filter(q);
        assert(s.filter(p) == if p(x) {
            fp.push(x)
        } else {
            fp
        });
        assert(s.filter(q) == if q(x) {
            fq.push(x)
        } else {
            fq
        });
        if p(x) {
            assert(q(s[s.len() - 1]));
            let idx = prev.push(fq.len() as int);
            assert(embeds(s.filter(p), s.filter(q), idx));
            idx
        } else {
            prev
        }
    }
}

/// Filtering by a predicate that every element meets keeps everything.
pub proof fn lemma_filter_keeps_all<A>(s: Seq<A>, p: spec_fn(A) -> bool)
    requires
        forall|i: int| 0 <= i < s.len() ==> p(s[i]),
    ensures
        s.filter(p) == s,
    decreases s.len(),
{
    reveal(Seq::filter);
    if s.len() > 0 {
        lemma_filter_keeps_all(s.drop_last(), p);
        assert(s.drop_last().push(s.last()) =~= s);
    }
}

/// A line that contains the query is among the lines that `search` returns.
pub proof fn lemma_search_keeps_matching_line(query: Seq<char>, text: Seq<char>, i: int)
    requires
        0 <= i < lines_of(text).len(),
        has_substring(lines_of(text)[i], query),
    ensures
        search_spec(query, text).contains(lines_of(text)[i]),
{
    lines_of(text).lemma_filter_contains(|l: Seq<char>| has_substring(l, query), i);
}

/// `search` returns some of the lines of the text, in their order, and never
/// more lines than the text has.
pub proof fn lemma_search_is_subsequence(query: Seq<char>, text: Seq<char>)
    ensures
        is_subsequence(search_spec(query, text), lines_of(text)),
        search_spec(query, text).len() <= lines_of(text).len(),
{
    let s = lines_of(text);
    let p = |l: Seq<char>| has_substring(l, query);
    let all = |l: Seq<char>| true;
    lemma_filter_keeps_all(s, all);
    let idx = lemma_filter_embeds(s, p, all);
    assert(embeds(search_spec(query, text), lines_of(text), idx));
}

/// The empty query is contained in every line, so `search` returns them all.
pub proof fn lemma_empty_query_keeps_all(text: Seq<char>)
    ensures
        search_spec(Seq::<char>::empty(), text) == lines_of(text),
{
    let s = lines_of(text);
    let p = |l: Seq<char>| has_substring(l, Seq::<char>::empty());
    assert forall|i: int| 0 <= i < s.len() implies p(s[i]) by {
        assert(s[i].subrange(0, 0) =~= Seq::<char>::empty());
        assert(occurs_at(s[i], Seq::<char>::empty(), 0));
    }
    lemma_filter_keeps_all(s, p);
}

/// Ignoring case loses none of the lines that the exact search keeps, as long
/// as lowercasing keeps the query inside each line that contains it: the
/// lines of the exact search come in their order among those of the search
/// that ignores case. (Lowercasing depends on context, as for a final sigma,
/// so the condition can fail.)
pub proof fn lemma_ignore_case_keeps_exact_matches(query: Seq<char>, text: Seq<char>)
    requires
        forall|i: int|
            0 <= i < lines_of(text).len() && has_substring(#[trigger] lines_of(text)[i], query)
                ==> has_substring(lower_of(lines_of(text)[i]), lower_of(query)),
    ensures
        is_subsequence(search_spec(query, text), search_ci_spec(query, text)),
        search_spec(query, text).len() <= search_ci_spec(query, text).len(),
{
    let s = lines_of(text);
    let p = |l: Seq<char>| has_substring(l, query);
    let q = |l: Seq<char>| has_substring(lower_of(l), lower_of(query));
    let idx = lemma_filter_embeds(s, p, q);
    assert(embeds(search_spec(query, text), search_ci_spec(query, text), idx));
}

/// Two runs of `search` on the same query and text give the same lines.
pub proof fn lemma_search_repeatable(
    query: Seq<char>,
    text: Seq<char>,
    first: Seq<&str>,
    second: Seq<&str>,
)
    requires
        views_of(first) == search_spec(query, text),
        views_of(second) == search_spec(query, text),
    ensures
        views_of(first) == views_of(second),
{
}

} // verus!
