//! Ordering the pull requests that the repository fallback collects: newest
//! first by their `updated_at` text, compared character by character, with
//! ties kept in the order in which they were found.
use crate::model::{GithubPr, PrModel};
use vstd::prelude::*;

verus! {

/// Lexicographic order on texts: `a` comes before `b`.
pub open spec fn str_lt(a: Seq<char>, b: Seq<char>) -> bool
    decreases a.len(),
{
    if b.len() == 0 {
        false
    } else if a.len() == 0 {
        true
    } else if a[0] != b[0] {
        (a[0] as u32) < (b[0] as u32)
    } else {
        str_lt(a.drop_first(), b.drop_first())
    }
}

/// The first `n` elements of `s`, or all of them where there are fewer.
pub open spec fn at_most<T>(s: Seq<T>, n: nat) -> Seq<T> {
    if s.len() <= n {
        s
    } else {
        s.take(n as int)
    }
}

/// A pull request that the repository fallback kept, with the moment of its
/// last update as the service writes it.
pub struct PullMatch {
    pub updated_at: String,
    pub pr: GithubPr,
}

/// The mathematical value of a [`PullMatch`].
pub struct MatchModel {
    pub updated_at: Seq<char>,
    pub pr: PrModel,
}

impl View for PullMatch {
    type V = MatchModel;

    open spec fn view(&self) -> MatchModel {
        MatchModel { updated_at: self.updated_at@, pr: self.pr@ }
    }
}

/// The mathematical values of a sequence of matches.
pub open spec fn models_of(v: Seq<PullMatch>) -> Seq<MatchModel> {
    v.map_values(|m: PullMatch| m@)
}

/// `m` placed into `sorted` after every entry whose timestamp does not come
/// before its own.
pub open spec fn insert_by_recency(sorted: Seq<MatchModel>, m: MatchModel) -> Seq<MatchModel>
    decreases sorted.len(),
{
    if sorted.len() == 0 {
        seq![m]
    } else if str_lt(sorted[0].updated_at, m.updated_at) {
        seq![m] + sorted
    } else {
        seq![sorted[0]] + insert_by_recency(sorted.drop_first(), m)
    }
}

/// `s` ordered newest first by `updated_at`; entries with equal timestamps keep
/// their order in `s`.
pub open spec fn by_recency(s: Seq<MatchModel>) -> Seq<MatchModel>
    decreases s.len(),
{
    if s.len() == 0 {
        seq![]
    } else {
        insert_by_recency(by_recency(s.drop_last()), s.last())
    }
}

/// The pull requests of the three newest matches, newest first.
pub open spec fn newest_prs(s: Seq<MatchModel>) -> Seq<PrModel> {
    at_most(by_recency(s), 3).map_values(|m: MatchModel| m.pr)
}

proof fn lemma_models_skip(v: Seq<PullMatch>, n: int)
    requires
        0 <= n <= v.len(),
    ensures
        models_of(v.skip(n)) == models_of(v).skip(n),
{
    assert(models_of(v.skip(n)) =~= models_of(v).skip(n));
}

proof fn lemma_insert_at(s: Seq<MatchModel>, m: MatchModel, p: int)
    requires
        0 <= p <= s.len(),
        forall|k: int| 0 <= k < p ==> !str_lt(#[trigger] s[k].updated_at, m.updated_at),
        p < s.len() ==> str_lt(s[p].updated_at, m.updated_at),
    ensures
        insert_by_recency(s, m) == s.insert(p, m),
    decreases p,
{
    if p == 0 {
        if s.len() == 0 {
            assert(seq![m] =~= s.insert(0, m));
        } else {
            assert(seq![m] + s =~= s.insert(0, m));
        }
    } else {
        let t = s.drop_first();
        assert forall|k: int| 0 <= k < p - 1 implies !str_lt(#[trigger] t[k].updated_at, m.updated_at) by {
            assert(t[k] == s[k + 1]);
        }
        lemma_insert_at(t, m, p - 1);
        assert(seq![s[0]] + t.insert(p - 1, m) =~= s.insert(p, m));
    }
}

/// Puts `m` into `sorted` at its place by recency.
fn insert_match(sorted: &mut Vec<PullMatch>, m: PullMatch)
    ensures
        models_of(final(sorted)@) == insert_by_recency(models_of(old(sorted)@), m@),
{
    let mut p: usize = 0;
    while p < sorted.len() && !str_less(sorted[p].updated_at.as_str(), m.updated_at.as_str())
        invariant
            p <= sorted@.len(),
            forall|k: int| 0 <= k < p ==> !str_lt(#[trigger] sorted@[k].updated_at@, m.updated_at@),
        decreases sorted@.len() - p,
    {
        p += 1;
    }
    let ghost before = models_of(sorted@);
    proof {
        assert forall|k: int| 0 <= k < p implies !str_lt(#[trigger] before[k].updated_at, m@.updated_at) by {
            assert(before[k] == sorted@[k]@);
        }
        lemma_insert_at(before, m@, p as int);
    }
    sorted.insert(p, m);
    assert(models_of(sorted@) =~= before.insert(p as int, m@));
}

/// Orders `matches` newest first by `updated_at`, keeping ties in their order.
pub fn sort_by_recency(matches: Vec<PullMatch>) -> (r: Vec<PullMatch>)
    ensures
        models_of(r@) == by_recency(models_of(matches@)),
{
    let ghost all = models_of(matches@);
    let mut rest = matches;
    let mut sorted: Vec<PullMatch> = Vec::new();
    let ghost mut k: int = 0;
    assert(all.take(0) =~= seq![]);
    while rest.len() > 0
        invariant
            0 <= k <= all.len(),
            models_of(rest@) == all.skip(k),
            models_of(sorted@) == by_recency(all.take(k)),
        decreases rest@.len(),
    {
        let ghost r0 = rest@;
        assert(models_of(r0).len() == r0.len());
        let m = rest.remove(0);
        assert(m@ == all[k]) by {
            assert(models_of(r0)[0] == r0[0]@);
        }
        assert(models_of(rest@) == all.skip(k + 1)) by {
            assert(rest@ =~= r0.skip(1));
            lemma_models_skip(r0, 1);
            assert(all.skip(k).skip(1) =~= all.skip(k + 1));
        }
        assert(all.take(k + 1).drop_last() =~= all.take(k));
        insert_match(&mut sorted, m);
        proof {
            k = k + 1;
        }
    }
    assert(all.take(k) =~= all);
    sorted
}

/// The pull requests of the three newest of `matches`, newest first; ties
/// keep the order in which they were found.
pub fn newest_three(matches: Vec<PullMatch>) -> (r: Vec<GithubPr>)
    ensures
        r@.map_values(|p: GithubPr| p@) == newest_prs(models_of(matches@)),
        r@.len() <= 3,
{
    let ghost goal = newest_prs(models_of(matches@));
    let mut sorted = sort_by_recency(matches);
    let ghost ordered = models_of(sorted@);
    let mut out: Vec<GithubPr> = Vec::new();
    let mut k: usize = 0;
    while k < 3 && sorted.len() > 0
        invariant
            k <= 3,
            k <= ordered.len(),
            out@.len() == k,
            models_of(sorted@) == ordered.skip(k as int),
            out@.map_values(|p: GithubPr| p@) == ordered.take(k as int).map_values(|m: MatchModel| m.pr),
        decreases 3 - k,
    {
        let ghost s0 = sorted@;
        let ghost o0 = out@;
        assert(models_of(s0).len() == s0.len());
        let m = sorted.remove(0);
        assert(m@ == ordered[k as int]) by {
            assert(models_of(s0)[0] == s0[0]@);
        }
        assert(models_of(sorted@) == ordered.skip(k + 1)) by {
            assert(sorted@ =~= s0.skip(1));
            lemma_models_skip(s0, 1);
            assert(ordered.skip(k as int).skip(1) =~= ordered.skip(k + 1));
        }
        out.push(m.pr);
        assert(out@ == o0.push(m.pr));
        assert forall|j: int| 0 <= j < k + 1 implies out@[j]@ == ordered[j].pr by {
            if j < k {
                assert(out@[j] == o0[j]);
                assert(o0.map_values(|p: GithubPr| p@)[j] == ordered.take(k as int).map_values(
                    |m: MatchModel| m.pr,
                )[j]);
            }
        }
        assert(out@.map_values(|p: GithubPr| p@) =~= ordered.take(k + 1).map_values(|m: MatchModel| m.pr));
        k += 1;
    }
    assert(at_most(ordered, 3) =~= ordered.take(k as int));
    out
}

/// No entry of `s` comes before a later one: newest first.
pub open spec fn newest_first(s: Seq<MatchModel>) -> bool {
    forall|i: int, j: int| 0 <= i < j < s.len() ==> !str_lt(#[trigger] s[i].updated_at, #[trigger] s[j].updated_at)
}

/// Lexicographic order is transitive.
pub proof fn lemma_str_lt_transitive(a: Seq<char>, b: Seq<char>, c: Seq<char>)
    requires
        str_lt(a, b),
        str_lt(b, c),
    ensures
        str_lt(a, c),
    decreases a.len(),
{
    if a.len() > 0 && b.len() > 0 && c.len() > 0 && a[0] == b[0] && b[0] == c[0] {
        lemma_str_lt_transitive(a.drop_first(), b.drop_first(), c.drop_first());
    }
}

proof fn lemma_insert_bounded(s: Seq<MatchModel>, m: MatchModel, b: Seq<char>)
    requires
        forall|k: int| 0 <= k < s.len() ==> !str_lt(b, #[trigger] s[k].updated_at),
        !str_lt(b, m.updated_at),
    ensures
        forall|k: int|
            0 <= k < insert_by_recency(s, m).len() ==> !str_lt(b, #[trigger] insert_by_recency(s, m)[k].updated_at),
    decreases s.len(),
{
    if s.len() > 0 && !str_lt(s[0].updated_at, m.updated_at) {
        let t = s.drop_first();
        assert forall|k: int| 0 <= k < t.len() implies !str_lt(b, #[trigger] t[k].updated_at) by {
            assert(t[k] == s[k + 1]);
        }
        lemma_insert_bounded(t, m, b);
        let r = insert_by_recency(s, m);
        assert forall|k: int| 0 <= k < r.len() implies !str_lt(b, #[trigger] r[k].updated_at) by {
            if k > 0 {
                assert(r[k] == insert_by_recency(t, m)[k - 1]);
            }
        }
    }
}

proof fn lemma_insert_keeps_order(s: Seq<MatchModel>, m: MatchModel)
    requires
        newest_first(s),
    ensures
        newest_first(insert_by_recency(s, m)),
        insert_by_recency(s, m).len() == s.len() + 1,
    decreases s.len(),
{
    if s.len() == 0 {
    } else if str_lt(s[0].updated_at, m.updated_at) {
        let r = seq![m] + s;
        assert forall|i: int, j: int| 0 <= i < j < r.len() implies !str_lt(
            #[trigger] r[i].updated_at,
            #[trigger] r[j].updated_at,
        ) by {
            if i == 0 {
                if str_lt(m.updated_at, s[j - 1].updated_at) {
                    lemma_str_lt_transitive(s[0].updated_at, m.updated_at, s[j - 1].updated_at);
                    if j - 1 > 0 {
                        assert(!str_lt(s[0].updated_at, s[j - 1].updated_at));
                    }
                    lemma_str_lt_irreflexive(s[0].updated_at);
                }
            } else {
                assert(r[i] == s[i - 1] && r[j] == s[j - 1]);
            }
        }
    } else {
        let t = s.drop_first();
        assert(newest_first(t)) by {
            assert forall|i: int, j: int| 0 <= i < j < t.len() implies !str_lt(
                #[trigger] t[i].updated_at,
                #[trigger] t[j].updated_at,
            ) by {
                assert(t[i] == s[i + 1] && t[j] == s[j + 1]);
            }
        }
        lemma_insert_keeps_order(t, m);
        assert forall|k: int| 0 <= k < t.len() implies !str_lt(s[0].updated_at, #[trigger] t[k].updated_at) by {
            assert(t[k] == s[k + 1]);
        }
        lemma_insert_bounded(t, m, s[0].updated_at);
        let rest = insert_by_recency(t, m);
        let r = insert_by_recency(s, m);
        assert forall|i: int, j: int| 0 <= i < j < r.len() implies !str_lt(
            #[trigger] r[i].updated_at,
            #[trigger] r[j].updated_at,
        ) by {
            assert(r[j] == rest[j - 1]);
            if i > 0 {
                assert(r[i] == rest[i - 1]);
            }
        }
    }
}

/// No text comes before itself.
pub proof fn lemma_str_lt_irreflexive(a: Seq<char>)
    ensures
        !str_lt(a, a),
    decreases a.len(),
{
    if a.len() > 0 {
        lemma_str_lt_irreflexive(a.drop_first());
    }
}

proof fn lemma_insert_same_entries(s: Seq<MatchModel>, m: MatchModel)
    ensures
        insert_by_recency(s, m).to_multiset() == s.to_multiset().insert(m),
    decreases s.len(),
{
    broadcast use vstd::seq_lib::group_to_multiset_ensures;

    if s.len() == 0 || str_lt(s[0].updated_at, m.updated_at) {
        if s.len() == 0 {
            assert(insert_by_recency(s, m) =~= s.insert(0, m));
        } else {
            assert(insert_by_recency(s, m) =~= s.insert(0, m));
        }
    } else {
        let t = s.drop_first();
        lemma_insert_same_entries(t, m);
        broadcast use vstd::multiset::group_multiset_axioms;

        vstd::seq_lib::lemma_multiset_commutative(seq![s[0]], insert_by_recency(t, m));
        vstd::seq_lib::lemma_multiset_commutative(seq![s[0]], t);
        assert(seq![s[0]] + t =~= s);
        assert(insert_by_recency(s, m).to_multiset() =~= s.to_multiset().insert(m));
    }
}

/// The recency order holds exactly the matches it was given, newest first.
pub proof fn lemma_by_recency_sorts(s: Seq<MatchModel>)
    ensures
        newest_first(by_recency(s)),
        by_recency(s).to_multiset() == s.to_multiset(),
        by_recency(s).len() == s.len(),
    decreases s.len(),
{
    broadcast use vstd::seq_lib::group_to_multiset_ensures;

    if s.len() > 0 {
        lemma_by_recency_sorts(s.drop_last());
        lemma_insert_keeps_order(by_recency(s.drop_last()), s.last());
        lemma_insert_same_entries(by_recency(s.drop_last()), s.last());
        assert(s.drop_last().push(s.last()) =~= s);
    } else {
        assert(by_recency(s) =~= s);
    }
}

/// The entries of `s` whose timestamp is `t`, in their order in `s`.
pub open spec fn stamped(s: Seq<MatchModel>, t: Seq<char>) -> Seq<MatchModel> {
    s.filter(|m: MatchModel| m.updated_at == t)
}

proof fn lemma_stamped_single(m: MatchModel, t: Seq<char>)
    ensures
        stamped(seq![m], t) == if m.updated_at == t {
            seq![m]
        } else {
            seq![]
        },
{
    reveal_with_fuel(Seq::filter, 2);
    assert(seq![m].drop_last() =~= Seq::<MatchModel>::empty());
    if m.updated_at == t {
        assert(stamped(seq![m], t) =~= seq![m]);
    } else {
        assert(stamped(seq![m], t) =~= seq![]);
    }
}

proof fn lemma_none_stamped(s: Seq<MatchModel>, t: Seq<char>)
    requires
        forall|i: int| 0 <= i < s.len() ==> (#[trigger] s[i]).updated_at != t,
    ensures
        stamped(s, t) == Seq::<MatchModel>::empty(),
    decreases s.len(),
{
    reveal(Seq::filter);
    if s.len() > 0 {
        let d = s.drop_last();
        assert(s.last().updated_at != t);
        assert forall|i: int| 0 <= i < d.len() implies (#[trigger] d[i]).updated_at != t by {
            assert(d[i] == s[i]);
        }
        lemma_none_stamped(d, t);
    }
}

proof fn lemma_insert_stamped(r: Seq<MatchModel>, m: MatchModel, t: Seq<char>)
    requires
        newest_first(r),
    ensures
        stamped(insert_by_recency(r, m), t) == if m.updated_at == t {
            stamped(r, t).push(m)
        } else {
            stamped(r, t)
        },
    decreases r.len(),
{
    let pred = |x: MatchModel| x.updated_at == t;
    lemma_stamped_single(m, t);
    if r.len() == 0 {
        assert(r =~= Seq::<MatchModel>::empty());
        assert(stamped(r, t) =~= Seq::<MatchModel>::empty());
        if m.updated_at == t {
            assert(stamped(r, t).push(m) =~= seq![m]);
        }
    } else if str_lt(r[0].updated_at, m.updated_at) {
        Seq::filter_distributes_over_add(seq![m], r, pred);
        if m.updated_at == t {
            assert forall|i: int| 0 <= i < r.len() implies (#[trigger] r[i]).updated_at != t by {
                if i == 0 {
                    lemma_str_lt_irreflexive(t);
                } else if r[i].updated_at == t {
                    assert(!str_lt(r[0].updated_at, r[i].updated_at));
                }
            }
            lemma_none_stamped(r, t);
            assert(seq![m] + stamped(r, t) =~= stamped(r, t).push(m));
        } else {
            assert(seq![] + stamped(r, t) =~= stamped(r, t));
        }
    } else {
        let rest = r.drop_first();
        assert(newest_first(rest)) by {
            assert forall|i: int, j: int| 0 <= i < j < rest.len() implies !str_lt(
                #[trigger] rest[i].updated_at,
                #[trigger] rest[j].updated_at,
            ) by {
                assert(rest[i] == r[i + 1] && rest[j] == r[j + 1]);
            }
        }
        lemma_insert_stamped(rest, m, t);
        lemma_stamped_single(r[0], t);
        Seq::filter_distributes_over_add(seq![r[0]], insert_by_recency(rest, m), pred);
        Seq::filter_distributes_over_add(seq![r[0]], rest, pred);
        assert(seq![r[0]] + rest =~= r);
        if m.updated_at == t {
            assert(stamped(seq![r[0]], t) + stamped(rest, t).push(m) =~= (stamped(seq![r[0]], t)
                + stamped(rest, t)).push(m));
        }
    }
}

/// The recency order is stable: the entries that share a timestamp keep the
/// order in which they were found.
pub proof fn lemma_by_recency_stable(s: Seq<MatchModel>, t: Seq<char>)
    ensures
        stamped(by_recency(s), t) == stamped(s, t),
    decreases s.len(),
{
    reveal(Seq::filter);
    if s.len() > 0 {
        lemma_by_recency_stable(s.drop_last(), t);
        lemma_by_recency_sorts(s.drop_last());
        lemma_insert_stamped(by_recency(s.drop_last()), s.last(), t);
    } else {
        assert(by_recency(s) =~= s);
    }
}

/// Whether `a` comes before `b` in lexicographic order.
pub fn str_less(a: &str, b: &str) -> (r: bool)
    ensures
        r == str_lt(a@, b@),
{
    let la = a.unicode_len();
    let lb = b.unicode_len();
    let mut i: usize = 0;
    assert(a@.skip(0) =~= a@);
    assert(b@.skip(0) =~= b@);
    while i < la && i < lb
        invariant
            i <= la,
            i <= lb,
            la == a@.len(),
            lb == b@.len(),
            str_lt(a@, b@) == str_lt(a@.skip(i as int), b@.skip(i as int)),
        decreases la - i,
    {
        let ca = a.get_char(i);
        let cb = b.get_char(i);
        if ca != cb {
            return (ca as u32) < (cb as u32);
        }
        assert(a@.skip(i as int).drop_first() =~= a@.skip(i + 1));
        assert(b@.skip(i as int).drop_first() =~= b@.skip(i + 1));
        i += 1;
    }
    i < lb
}

} // verus!
