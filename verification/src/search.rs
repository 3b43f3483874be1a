//! Fuzzy ranking of search results. The scorer itself is the skim
//! algorithm of the `fuzzy_matcher` crate, reached through one trusted
//! wrapper; everything around it — filtering unmatched candidates,
//! ordering by descending score, keeping ties in their original order —
//! is verified against the scorer's named result.

use vstd::prelude::*;

verus! {

/// A titled object delivered by the remote search provider.
#[derive(Debug)]
pub struct Object {
    pub id: String,
    pub parent_id: Option<String>,
    pub title: String,
    pub object_type: String,
    pub children: Vec<Object>,
}

/// One search result: a key that stays unique even among duplicate
/// titles, and the titled object it names.
#[derive(Debug)]
pub struct Entry {
    pub key: String,
    pub object: Object,
}

/// What the skim matcher scores a choice against a pattern: `None` when
/// the pattern is no subsequence of the choice, otherwise the match
/// quality. The score depends on the two character sequences alone.
pub uninterp spec fn fuzzy_score(choice: Seq<char>, pattern: Seq<char>) -> Option<i64>;

/// Relies on `fuzzy_matcher`'s `SkimMatcherV2` under its default settings:
/// the score is a deterministic function of the choice and pattern
/// characters (the matcher's caches are reused buffers, not state), and an
/// empty pattern always matches with score 0.
#[verifier::external_body]
fn skim_fuzzy_match(choice: &str, pattern: &Vec<char>) -> (score: Option<i64>)
    ensures
        score == fuzzy_score(choice@, pattern@),
        pattern@.len() == 0 ==> score == Option::Some(0i64),
{
    let matcher = fuzzy_matcher::skim::SkimMatcherV2::default();
    let pattern_text: String = pattern.iter().collect();
    fuzzy_matcher::FuzzyMatcher::fuzzy_match(&matcher, choice, &pattern_text)
}

/// Whether the entry's title matches the query at all.
pub open spec fn matched(query: Seq<char>, e: Entry) -> bool {
    fuzzy_score(e.object.title@, query) is Some
}

/// The entry's score against the query; meaningful only when `matched`.
pub open spec fn spec_score(query: Seq<char>, e: Entry) -> int {
    fuzzy_score(e.object.title@, query).unwrap() as int
}

/// Where `e` lands in the ranked list `s`: after every entry that scores
/// at least as well, so that ties keep their original relative order.
pub open spec fn spec_insert_pos(query: Seq<char>, s: Seq<Entry>, e: Entry) -> int
    decreases s.len(),
{
    if s.len() == 0 {
        0
    } else if spec_score(query, s[0]) >= spec_score(query, e) {
        1 + spec_insert_pos(query, s.drop_first(), e)
    } else {
        0
    }
}

/// `e` inserted into the ranked list `s`, behind every entry scoring at
/// least as well.
pub open spec fn spec_insert_ranked(query: Seq<char>, s: Seq<Entry>, e: Entry) -> Seq<Entry>
    decreases s.len(),
{
    if s.len() == 0 {
        seq![e]
    } else if spec_score(query, s[0]) >= spec_score(query, e) {
        seq![s[0]] + spec_insert_ranked(query, s.drop_first(), e)
    } else {
        seq![e] + s
    }
}

/// The matched entries of `opts`, ordered by descending score, ties in
/// original order: each entry in turn is dropped if unmatched, else
/// inserted behind its equals.
pub open spec fn spec_rank_matched(query: Seq<char>, opts: Seq<Entry>) -> Seq<Entry>
    decreases opts.len(),
{
    if opts.len() == 0 {
        Seq::<Entry>::empty()
    } else {
        let prev = spec_rank_matched(query, opts.drop_last());
        if matched(query, opts.last()) {
            spec_insert_ranked(query, prev, opts.last())
        } else {
            prev
        }
    }
}

/// What ranking returns: the candidates untouched for an empty query,
/// otherwise the matched candidates by descending score, ties stable.
pub open spec fn spec_rank(query: Seq<char>, opts: Seq<Entry>) -> Seq<Entry> {
    if query.len() == 0 {
        opts
    } else {
        spec_rank_matched(query, opts)
    }
}

/// The insertion point splits the list: everything before it scores at
/// least `e`, the entry after it (if any) scores strictly less, and
/// inserting lands `e` exactly there.
proof fn lemma_insert_shape(query: Seq<char>, s: Seq<Entry>, e: Entry)
    ensures
        0 <= spec_insert_pos(query, s, e) <= s.len(),
        forall|j: int|
            0 <= j < spec_insert_pos(query, s, e) ==> spec_score(query, s[j]) >= spec_score(
                query,
                e,
            ),
        spec_insert_pos(query, s, e) < s.len() ==> spec_score(
            query,
            s[spec_insert_pos(query, s, e)],
        ) < spec_score(query, e),
        spec_insert_ranked(query, s, e) =~= s.take(spec_insert_pos(query, s, e)) + seq![e]
            + s.skip(spec_insert_pos(query, s, e)),
    decreases s.len(),
{
    if s.len() == 0 {
    } else if spec_score(query, s[0]) >= spec_score(query, e) {
        lemma_insert_shape(query, s.drop_first(), e);
        let p = spec_insert_pos(query, s, e);
        assert(s.drop_first().take(p - 1) =~= s.take(p).drop_first());
        assert(s.drop_first().skip(p - 1) =~= s.skip(p));
        assert(forall|j: int|
            1 <= j < p ==> s[j] == s.drop_first()[j - 1] && spec_score(query, s.drop_first()[j - 1])
                >= spec_score(query, e));
    } else {
    }
}

/// All entries of a ranked list are matched ones.
proof fn lemma_rank_matched_all(query: Seq<char>, opts: Seq<Entry>)
    ensures
        forall|j: int|
            0 <= j < spec_rank_matched(query, opts).len() ==> #[trigger] matched(
                query,
                spec_rank_matched(query, opts)[j],
            ),
    decreases opts.len(),
{
    if opts.len() > 0 {
        lemma_rank_matched_all(query, opts.drop_last());
        let prev = spec_rank_matched(query, opts.drop_last());
        let e = opts.last();
        if matched(query, e) {
            lemma_insert_shape(query, prev, e);
            let p = spec_insert_pos(query, prev, e);
            assert forall|j: int| 0 <= j < spec_insert_ranked(query, prev, e).len() implies
                #[trigger] matched(query, spec_insert_ranked(query, prev, e)[j]) by {
                if j < p {
                    assert(spec_insert_ranked(query, prev, e)[j] == prev[j]);
                } else if j == p {
                    assert(spec_insert_ranked(query, prev, e)[j] == e);
                } else {
                    assert(spec_insert_ranked(query, prev, e)[j] == prev[j - 1]);
                }
            }
        }
    }
}

/// Descending order by score, ties allowed.
pub open spec fn sorted_desc(query: Seq<char>, s: Seq<Entry>) -> bool {
    forall|i: int, j: int|
        0 <= i < j < s.len() ==> spec_score(query, s[i]) >= spec_score(query, s[j])
}

/// Inserting keeps the list ordered by descending score.
proof fn lemma_insert_sorted(query: Seq<char>, s: Seq<Entry>, e: Entry)
    requires
        sorted_desc(query, s),
    ensures
        sorted_desc(query, spec_insert_ranked(query, s, e)),
{
    lemma_insert_shape(query, s, e);
    let p = spec_insert_pos(query, s, e);
    let r = spec_insert_ranked(query, s, e);
    assert forall|i: int, j: int| 0 <= i < j < r.len() implies spec_score(query, r[i])
        >= spec_score(query, r[j]) by {
        assert(i < p ==> r[i] == s[i]);
        assert(i == p ==> r[i] == e);
        assert(i > p ==> r[i] == s[i - 1]);
        assert(j < p ==> r[j] == s[j]);
        assert(j == p ==> r[j] == e);
        assert(j > p ==> r[j] == s[j - 1]);
        if i < p && j == p {
            assert(spec_score(query, s[i]) >= spec_score(query, e));
        } else if i == p && j > p {
            if j - 1 >= p && j - 1 < s.len() {
                if p < s.len() {
                    if j - 1 == p {
                        assert(spec_score(query, s[p]) < spec_score(query, e));
                    } else {
                        assert(spec_score(query, s[p]) >= spec_score(query, s[j - 1]));
                        assert(spec_score(query, s[p]) < spec_score(query, e));
                    }
                }
            }
        }
    }
}

/// A ranked list is ordered by descending score.
proof fn lemma_rank_sorted(query: Seq<char>, opts: Seq<Entry>)
    ensures
        sorted_desc(query, spec_rank_matched(query, opts)),
    decreases opts.len(),
{
    if opts.len() > 0 {
        lemma_rank_sorted(query, opts.drop_last());
        if matched(query, opts.last()) {
            lemma_insert_sorted(query, spec_rank_matched(query, opts.drop_last()), opts.last());
        }
    }
}

/// Ranking a list that is already ranked — every entry matched, scores
/// descending — changes nothing.
proof fn lemma_rank_fixed(query: Seq<char>, s: Seq<Entry>)
    requires
        sorted_desc(query, s),
        forall|j: int| 0 <= j < s.len() ==> #[trigger] matched(query, s[j]),
    ensures
        spec_rank_matched(query, s) == s,
    decreases s.len(),
{
    if s.len() > 0 {
        lemma_rank_fixed(query, s.drop_last());
        let prev = s.drop_last();
        let e = s.last();
        lemma_insert_shape(query, prev, e);
        let p = spec_insert_pos(query, prev, e);
        if p < prev.len() {
            assert(spec_score(query, prev[p]) < spec_score(query, e));
            assert(spec_score(query, s[p]) >= spec_score(query, s[s.len() - 1]));
            assert(false);
        }
        assert(prev.take(p) =~= prev);
        assert(prev.skip(p) =~= Seq::<Entry>::empty());
        assert(spec_insert_ranked(query, prev, e) =~= s);
    }
}

/// Fuzzy ranking is idempotent: ranking an already-ranked list with the
/// same query gives the same order back.
pub proof fn lemma_rank_idempotent(query: Seq<char>, opts: Seq<Entry>)
    ensures
        spec_rank(query, spec_rank(query, opts)) == spec_rank(query, opts),
{
    if query.len() > 0 {
        lemma_rank_matched_all(query, opts);
        lemma_rank_sorted(query, opts);
        lemma_rank_fixed(query, spec_rank_matched(query, opts));
    }
}

/// Membership in one score class: matched, with exactly the score `v`.
pub open spec fn tie_pred(query: Seq<char>, v: int) -> spec_fn(Entry) -> bool {
    |e: Entry| matched(query, e) && spec_score(query, e) == v
}

/// The entries of one score class, in the order the list holds them.
pub open spec fn ties_of(query: Seq<char>, v: int, s: Seq<Entry>) -> Seq<Entry> {
    s.filter(tie_pred(query, v))
}

/// A list without entries of the class filters to nothing.
proof fn lemma_filter_class_empty(query: Seq<char>, v: int, s: Seq<Entry>)
    requires
        forall|j: int| 0 <= j < s.len() ==> !(tie_pred(query, v)(#[trigger] s[j])),
    ensures
        ties_of(query, v, s) == Seq::<Entry>::empty(),
    decreases s.len(),
{
    reveal(Seq::filter);
    if s.len() > 0 {
        assert(forall|j: int|
            0 <= j < s.drop_last().len() ==> s.drop_last()[j] == s[j] && !(tie_pred(query, v)(
                #[trigger] s.drop_last()[j],
            )));
        lemma_filter_class_empty(query, v, s.drop_last());
        assert(!(tie_pred(query, v)(s.last())));
    }
}

/// Filtering one entry keeps it exactly when it is of the class.
proof fn lemma_filter_class_singleton(query: Seq<char>, v: int, e: Entry)
    ensures
        ties_of(query, v, seq![e]) == if tie_pred(query, v)(e) {
            seq![e]
        } else {
            Seq::<Entry>::empty()
        },
{
    reveal(Seq::filter);
    assert(seq![e].drop_last() =~= Seq::<Entry>::empty());
    assert(seq![e].last() == e);
    let rest = seq![e].drop_last();
    assert(rest.len() == 0);
    assert(rest.filter(tie_pred(query, v)) == rest);
    assert(rest =~= Seq::<Entry>::empty());
    if tie_pred(query, v)(e) {
        assert(ties_of(query, v, seq![e]) =~= Seq::<Entry>::empty().push(e));
        assert(Seq::<Entry>::empty().push(e) =~= seq![e]);
    }
}

/// Inserting an entry of the class appends it to the class; inserting one
/// of another class leaves the class untouched.
proof fn lemma_insert_ties(query: Seq<char>, s: Seq<Entry>, e: Entry, v: int)
    requires
        sorted_desc(query, s),
        matched(query, e),
    ensures
        spec_score(query, e) == v ==> ties_of(query, v, spec_insert_ranked(query, s, e))
            == ties_of(query, v, s).push(e),
        spec_score(query, e) != v ==> ties_of(query, v, spec_insert_ranked(query, s, e))
            == ties_of(query, v, s),
{
    lemma_insert_shape(query, s, e);
    let p = spec_insert_pos(query, s, e);
    let left = s.take(p);
    let right = s.skip(p);
    let pred = tie_pred(query, v);
    Seq::<Entry>::filter_distributes_over_add(left + seq![e], right, pred);
    Seq::<Entry>::filter_distributes_over_add(left, seq![e], pred);
    Seq::<Entry>::filter_distributes_over_add(left, right, pred);
    assert(left + right =~= s);
    lemma_filter_class_singleton(query, v, e);
    assert(spec_insert_ranked(query, s, e) == (left + seq![e]) + right);
    if spec_score(query, e) == v {
        // Behind the insertion point every score is strictly below `v`,
        // so the class sits wholly in front and `e` lands at its end.
        assert forall|j: int| 0 <= j < right.len() implies !(pred(#[trigger] right[j])) by {
            assert(right[j] == s[p + j]);
            if p < s.len() && p + j < s.len() && j >= 0 {
                if j > 0 {
                    assert(spec_score(query, s[p]) >= spec_score(query, s[p + j]));
                }
                assert(spec_score(query, s[p]) < spec_score(query, e));
            }
        }
        lemma_filter_class_empty(query, v, right);
        assert(ties_of(query, v, spec_insert_ranked(query, s, e)) =~= ties_of(query, v, left).push(
            e,
        ));
        assert(ties_of(query, v, s).push(e) =~= ties_of(query, v, left).push(e));
    } else {
        assert(ties_of(query, v, spec_insert_ranked(query, s, e)) =~= ties_of(query, v, left)
            + ties_of(query, v, right));
        assert(ties_of(query, v, s) =~= ties_of(query, v, left) + ties_of(query, v, right));
    }
}

/// Ties preserve original relative order: for every score `v`, the ranked
/// list holds the input's score-`v` entries in exactly their input order,
/// so duplicate titles distinguished by key keep their places.
pub proof fn lemma_rank_ties_stable(query: Seq<char>, opts: Seq<Entry>, v: int)
    requires
        query.len() > 0,
    ensures
        ties_of(query, v, spec_rank(query, opts)) == ties_of(query, v, opts),
    decreases opts.len(),
{
    reveal(Seq::filter);
    if opts.len() == 0 {
    } else {
        let prev_in = opts.drop_last();
        let e = opts.last();
        let prev = spec_rank_matched(query, prev_in);
        lemma_rank_ties_stable(query, prev_in, v);
        lemma_rank_sorted(query, prev_in);
        if matched(query, e) {
            lemma_insert_ties(query, prev, e, v);
            if spec_score(query, e) == v {
                assert(tie_pred(query, v)(e));
                assert(ties_of(query, v, opts) == ties_of(query, v, prev_in).push(e));
            } else {
                assert(!(tie_pred(query, v)(e)));
                assert(ties_of(query, v, opts) == ties_of(query, v, prev_in));
            }
        } else {
            assert(!(tie_pred(query, v)(e)));
            assert(ties_of(query, v, opts) == ties_of(query, v, prev_in));
        }
    }
}

/// Candidates reordered against the query: unchanged for the empty query;
/// otherwise the matched ones by descending skim score, unmatched ones
/// dropped, ties and duplicate titles kept in their original order.
pub fn match_search(query: &Vec<char>, options: Vec<Entry>) -> (ranked: Vec<Entry>)
    ensures
        ranked@ == spec_rank(query@, options@),
        query@.len() == 0 ==> ranked@ == options@,
{
    if query.len() == 0 {
        return options;
    }
    let ghost all = options@;
    let mut rest = options;
    let mut ranked: Vec<Entry> = Vec::new();
    let mut scores: Vec<i64> = Vec::new();
    let ghost q = query@;
    let mut k: usize = 0;
    let n = rest.len();
    proof {
        assert(all.take(0) =~= Seq::<Entry>::empty());
    }
    while k < n
        invariant
            n == all.len(),
            k <= n,
            q == query@,
            q.len() > 0,
            rest@ == all.skip(k as int),
            ranked@ == spec_rank_matched(q, all.take(k as int)),
            scores@.len() == ranked@.len(),
            forall|j: int|
                0 <= j < ranked@.len() ==> fuzzy_score(
                    #[trigger] ranked@[j].object.title@,
                    q,
                ) == Option::Some(scores@[j]),
        decreases n - k,
    {
        let e = rest.remove(0);
        proof {
            assert(all.skip(k as int)[0] == all[k as int]);
            assert(all.skip(k as int).skip(1) =~= all.skip(k + 1));
            assert(all.take(k + 1).drop_last() =~= all.take(k as int));
            assert(all.take(k + 1).last() == all[k as int]);
        }
        match skim_fuzzy_match(e.object.title.as_str(), query) {
            Option::Some(sc) => {
                let ghost prev = ranked@;
                let mut p: usize = 0;
                let len = scores.len();
                while p < len && scores[p] >= sc
                    invariant
                        len == scores.len(),
                        p <= len,
                        scores@.len() == ranked@.len(),
                        forall|j: int|
                            0 <= j < ranked@.len() ==> fuzzy_score(
                                #[trigger] ranked@[j].object.title@,
                                q,
                            ) == Option::Some(scores@[j]),
                        forall|j: int| 0 <= j < p ==> scores@[j] >= sc,
                    decreases len - p,
                {
                    p += 1;
                }
                proof {
                    assert(matched(q, e));
                    assert(spec_score(q, e) == sc as int);
                    assert forall|j: int| 0 <= j < ranked@.len() implies spec_score(q, ranked@[j])
                        == scores@[j] as int by {
                        assert(fuzzy_score(ranked@[j].object.title@, q) == Option::Some(
                            scores@[j],
                        ));
                    }
                    lemma_insert_shape(q, prev, e);
                    assert(spec_insert_pos(q, prev, e) == p as int) by {
                        let sp = spec_insert_pos(q, prev, e);
                        if sp < p as int {
                            assert(scores@[sp] >= sc);
                            assert(spec_score(q, prev[sp]) < spec_score(q, e));
                        }
                        if sp > p as int {
                            assert(spec_score(q, prev[p as int]) >= spec_score(q, e));
                            assert(p < len);
                            assert(!(scores@[p as int] >= sc));
                        }
                    }
                }
                ranked.insert(p, e);
                scores.insert(p, sc);
                proof {
                    assert(ranked@ =~= prev.take(p as int) + seq![e] + prev.skip(p as int));
                    assert(ranked@ == spec_rank_matched(q, all.take(k + 1)));
                    assert forall|j: int| 0 <= j < ranked@.len() implies fuzzy_score(
                        #[trigger] ranked@[j].object.title@,
                        q,
                    ) == Option::Some(scores@[j]) by {
                        if j < p as int {
                            assert(ranked@[j] == prev[j]);
                        } else if j == p as int {
                            assert(ranked@[j] == e);
                        } else {
                            assert(ranked@[j] == prev[j - 1]);
                        }
                    }
                }
            },
            Option::None => {
                proof {
                    assert(!matched(q, e));
                    assert(ranked@ == spec_rank_matched(q, all.take(k + 1)));
                }
            },
        }
        k += 1;
    }
    proof {
        assert(all.take(n as int) =~= all);
    }
    ranked
}

} // verus!
