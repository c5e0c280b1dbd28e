//! The order in which the results of a probe cycle are reported: live
//! proxies before dead ones, live ones by rising delay, dead ones by name.

use crate::probe_result::{endpoint_of, HandlerInfo, ProbeResult, ResultModel};
use crate::text::chars_of;
use vstd::prelude::*;
use vstd::relations::total_ordering;
use vstd::seq_lib::{
    lemma_sorted_unique, to_multiset_build, to_multiset_contains, to_multiset_insert,
    to_multiset_len, to_multiset_remove,
};

verus! {

/// Lexicographic order on texts, character by character.
pub open spec fn text_le(a: Seq<char>, b: Seq<char>) -> bool
    decreases a.len(),
{
    if a.len() == 0 {
        true
    } else if b.len() == 0 {
        false
    } else if a.first() != b.first() {
        a.first() < b.first()
    } else {
        text_le(a.drop_first(), b.drop_first())
    }
}

/// Order on delays; an absent delay comes first.
pub open spec fn delay_le(a: Option<u64>, b: Option<u64>) -> bool {
    match (a, b) {
        (None, _) => true,
        (Some(_), None) => false,
        (Some(x), Some(y)) => x <= y,
    }
}

/// `a` may stand before `b` in a ranked list.
pub open spec fn rank_le(a: ResultModel, b: ResultModel) -> bool {
    if a.alive != b.alive {
        a.alive
    } else if a.alive {
        delay_le(a.delay_ms, b.delay_ms)
    } else {
        text_le(a.name, b.name)
    }
}

/// Every result may stand before all that follow it.
pub open spec fn in_rank_order(s: Seq<ResultModel>) -> bool {
    forall|i: int, j: int| 0 <= i < j < s.len() ==> rank_le(s[i], s[j])
}

/// Where a new result goes into a ranked list: behind the last result that
/// may stand before it.
pub open spec fn insert_position(s: Seq<ResultModel>, x: ResultModel) -> nat
    decreases s.len(),
{
    if s.len() > 0 && !rank_le(s.last(), x) {
        insert_position(s.drop_last(), x)
    } else {
        s.len()
    }
}

/// The ranked list of the results `s`. Results that rank alike keep the
/// order in which they came.
pub open spec fn ranked(s: Seq<ResultModel>) -> Seq<ResultModel>
    decreases s.len(),
{
    if s.len() == 0 {
        Seq::empty()
    } else {
        let before = ranked(s.drop_last());
        before.insert(insert_position(before, s.last()) as int, s.last())
    }
}

/// Of two texts, one is at most the other.
pub proof fn lemma_text_le_total(a: Seq<char>, b: Seq<char>)
    ensures
        text_le(a, b) || text_le(b, a),
    decreases a.len(),
{
    if a.len() > 0 && b.len() > 0 && a.first() == b.first() {
        lemma_text_le_total(a.drop_first(), b.drop_first());
    }
}

/// The order of texts is transitive.
pub proof fn lemma_text_le_transitive(a: Seq<char>, b: Seq<char>, c: Seq<char>)
    requires
        text_le(a, b),
        text_le(b, c),
    ensures
        text_le(a, c),
    decreases a.len(),
{
    if a.len() > 0 && b.len() > 0 && c.len() > 0 && a.first() == b.first() && b.first()
        == c.first() {
        lemma_text_le_transitive(a.drop_first(), b.drop_first(), c.drop_first());
    }
}

/// Two texts that are each at most the other are the same text.
pub proof fn lemma_text_le_antisymmetric(a: Seq<char>, b: Seq<char>)
    requires
        text_le(a, b),
        text_le(b, a),
    ensures
        a == b,
    decreases a.len(),
{
    if a.len() > 0 && b.len() > 0 {
        lemma_text_le_antisymmetric(a.drop_first(), b.drop_first());
        assert(a =~= seq![a.first()] + a.drop_first());
        assert(b =~= seq![b.first()] + b.drop_first());
    } else {
        assert(a =~= b);
    }
}

/// Of two results, one may stand before the other.
pub proof fn lemma_rank_le_total(a: ResultModel, b: ResultModel)
    ensures
        rank_le(a, b) || rank_le(b, a),
{
    lemma_text_le_total(a.name, b.name);
}

/// Rank order is transitive.
pub proof fn lemma_rank_le_transitive(a: ResultModel, b: ResultModel, c: ResultModel)
    requires
        rank_le(a, b),
        rank_le(b, c),
    ensures
        rank_le(a, c),
{
    if !a.alive && !b.alive && !c.alive {
        lemma_text_le_transitive(a.name, b.name, c.name);
    }
}

proof fn lemma_insert_position(s: Seq<ResultModel>, x: ResultModel)
    ensures
        insert_position(s, x) <= s.len(),
        insert_position(s, x) > 0 ==> rank_le(s[insert_position(s, x) - 1], x),
        forall|j: int| insert_position(s, x) <= j < s.len() ==> !rank_le(s[j], x),
    decreases s.len(),
{
    if s.len() > 0 && !rank_le(s.last(), x) {
        let shorter = s.drop_last();
        lemma_insert_position(shorter, x);
        assert forall|j: int| insert_position(s, x) <= j < s.len() implies !rank_le(s[j], x) by {
            if j < shorter.len() {
                assert(s[j] == shorter[j]);
            }
        }
    }
}

/// A well-formed result put into a list of well-formed results leaves a list
/// of well-formed results.
proof fn lemma_insert_keeps_wf(s: Seq<ResultModel>, p: int, x: ResultModel)
    requires
        0 <= p <= s.len(),
        x.wf(),
        forall|j: int| 0 <= j < s.len() ==> (#[trigger] s[j]).wf(),
    ensures
        forall|j: int| 0 <= j < s.len() + 1 ==> (#[trigger] s.insert(p, x)[j]).wf(),
{
    let t = s.insert(p, x);
    assert forall|j: int| 0 <= j < s.len() + 1 implies (#[trigger] t[j]).wf() by {
        if j < p {
            assert(t[j] == s[j]);
        } else if j > p {
            assert(t[j] == s[j - 1]);
        }
    }
}

proof fn lemma_insert_keeps_order(s: Seq<ResultModel>, x: ResultModel)
    requires
        in_rank_order(s),
    ensures
        in_rank_order(s.insert(insert_position(s, x) as int, x)),
{
    let p = insert_position(s, x) as int;
    let t = s.insert(p, x);
    lemma_insert_position(s, x);
    assert forall|i: int, j: int| 0 <= i < j < t.len() implies rank_le(t[i], t[j]) by {
        if j < p {
            assert(t[i] == s[i] && t[j] == s[j]);
        } else if j == p {
            assert(t[i] == s[i]);
            if i < p - 1 {
                lemma_rank_le_transitive(s[i], s[p - 1], x);
            }
        } else if i == p {
            assert(t[j] == s[j - 1]);
            lemma_rank_le_total(s[j - 1], x);
        } else if i < p {
            assert(t[i] == s[i] && t[j] == s[j - 1]);
        } else {
            assert(t[i] == s[i - 1] && t[j] == s[j - 1]);
        }
    }
}

/// A ranked list is in rank order: live results stand before dead ones, live
/// ones by rising delay, dead ones by name.
pub proof fn lemma_ranked_is_ordered(s: Seq<ResultModel>)
    ensures
        in_rank_order(ranked(s)),
        ranked(s).len() == s.len(),
    decreases s.len(),
{
    if s.len() > 0 {
        lemma_ranked_is_ordered(s.drop_last());
        lemma_insert_position(ranked(s.drop_last()), s.last());
        lemma_insert_keeps_order(ranked(s.drop_last()), s.last());
    }
}

/// Ranking neither drops nor invents a result.
pub proof fn lemma_ranked_is_permutation(s: Seq<ResultModel>)
    ensures
        ranked(s).to_multiset() == s.to_multiset(),
    decreases s.len(),
{
    if s.len() > 0 {
        let before = ranked(s.drop_last());
        lemma_ranked_is_permutation(s.drop_last());
        lemma_insert_position(before, s.last());
        to_multiset_insert(before, insert_position(before, s.last()) as int, s.last());
        to_multiset_build(s.drop_last(), s.last());
        assert(s.drop_last().push(s.last()) =~= s);
    } else {
        assert(ranked(s) =~= s);
    }
}

/// In a ranked list no dead result stands before a live one, no live result
/// before a faster one, and no dead result before one whose name is smaller.
pub proof fn lemma_ranked_groups(s: Seq<ResultModel>, i: int, j: int)
    requires
        0 <= i < j < s.len(),
    ensures
        ranked(s)[j].alive ==> ranked(s)[i].alive,
        ranked(s)[i].alive && ranked(s)[j].alive ==> delay_le(
            ranked(s)[i].delay_ms,
            ranked(s)[j].delay_ms,
        ),
        !ranked(s)[i].alive && !ranked(s)[j].alive ==> text_le(ranked(s)[i].name, ranked(s)[j].name),
{
    lemma_ranked_is_ordered(s);
    assert(rank_le(ranked(s)[i], ranked(s)[j]));
}

/// What the rank of a result rests on: whether it is live, then its delay
/// where it is live, its name where it is dead.
pub struct RankKey {
    pub alive: bool,
    pub delay_ms: Option<u64>,
    pub name: Seq<char>,
}

/// The key of a result.
pub open spec fn rank_key(r: ResultModel) -> RankKey {
    if r.alive {
        RankKey { alive: true, delay_ms: r.delay_ms, name: Seq::empty() }
    } else {
        RankKey { alive: false, delay_ms: None, name: r.name }
    }
}

/// The keys of a list of results.
pub open spec fn rank_keys(s: Seq<ResultModel>) -> Seq<RankKey> {
    s.map_values(|r: ResultModel| rank_key(r))
}

/// The order of the keys: live first, then by delay, then by name.
pub open spec fn key_le(a: RankKey, b: RankKey) -> bool {
    if a.alive != b.alive {
        a.alive
    } else if a.delay_ms != b.delay_ms {
        delay_le(a.delay_ms, b.delay_ms)
    } else {
        text_le(a.name, b.name)
    }
}

proof fn lemma_text_le_reflexive(a: Seq<char>)
    ensures
        text_le(a, a),
    decreases a.len(),
{
    if a.len() > 0 {
        lemma_text_le_reflexive(a.drop_first());
    }
}

/// The rank of two results is the order of their keys.
pub proof fn lemma_rank_le_is_key_le(a: ResultModel, b: ResultModel)
    ensures
        rank_le(a, b) == key_le(rank_key(a), rank_key(b)),
{
    lemma_text_le_reflexive(Seq::<char>::empty());
}

proof fn lemma_key_le_is_total_order()
    ensures
        total_ordering(|a: RankKey, b: RankKey| key_le(a, b)),
{
    let leq = |a: RankKey, b: RankKey| key_le(a, b);
    assert forall|x: RankKey| #[trigger] leq(x, x) by {
        lemma_text_le_reflexive(x.name);
    }
    assert forall|x: RankKey, y: RankKey| #[trigger] leq(x, y) && #[trigger] leq(y, x) implies x
        == y by {
        if x.alive == y.alive && x.delay_ms == y.delay_ms {
            lemma_text_le_antisymmetric(x.name, y.name);
        }
    }
    assert forall|x: RankKey, y: RankKey, z: RankKey| #[trigger]
        leq(x, y) && #[trigger] leq(y, z) implies leq(x, z) by {
        if x.alive == y.alive && y.alive == z.alive && x.delay_ms == y.delay_ms && y.delay_ms
            == z.delay_ms {
            lemma_text_le_transitive(x.name, y.name, z.name);
        }
    }
    assert forall|x: RankKey, y: RankKey| #[trigger] leq(x, y) || #[trigger] leq(y, x) by {
        lemma_text_le_total(x.name, y.name);
    }
}

/// Two lists with the same elements have the same elements after a mapping.
proof fn lemma_map_keeps_permutation(s: Seq<ResultModel>, t: Seq<ResultModel>)
    requires
        s.to_multiset() == t.to_multiset(),
    ensures
        rank_keys(s).to_multiset() == rank_keys(t).to_multiset(),
    decreases s.len(),
{
    to_multiset_len(s);
    to_multiset_len(t);
    if s.len() == 0 {
        assert(rank_keys(s) =~= rank_keys(t));
    } else {
        let x = s.last();
        let shorter = s.drop_last();
        assert(shorter.push(x) =~= s);
        to_multiset_build(shorter, x);
        to_multiset_contains(s, x);
        to_multiset_contains(t, x);
        assert(s.contains(x)) by {
            assert(s[s.len() - 1] == x);
        }
        let i = choose|i: int| 0 <= i < t.len() && t[i] == x;
        let rest = t.remove(i);
        to_multiset_remove(t, i);
        assert(shorter.to_multiset() =~= s.to_multiset().remove(x));
        lemma_map_keeps_permutation(shorter, rest);
        assert(rank_keys(s) =~= rank_keys(shorter).push(rank_key(x)));
        assert(rank_keys(t) =~= rank_keys(rest).insert(i, rank_key(x)));
        to_multiset_build(rank_keys(shorter), rank_key(x));
        to_multiset_insert(rank_keys(rest), i, rank_key(x));
    }
}

/// Ranking does not depend on the order in which the results arrive: two
/// lists that hold the same results rank to lists that agree, position by
/// position, in everything that decides the rank.
pub proof fn lemma_ranking_ignores_arrival_order(s: Seq<ResultModel>, t: Seq<ResultModel>)
    requires
        s.to_multiset() == t.to_multiset(),
    ensures
        rank_keys(ranked(s)) == rank_keys(ranked(t)),
{
    let leq = |a: RankKey, b: RankKey| key_le(a, b);
    let x = rank_keys(ranked(s));
    let y = rank_keys(ranked(t));
    lemma_ranked_is_ordered(s);
    lemma_ranked_is_ordered(t);
    lemma_ranked_is_permutation(s);
    lemma_ranked_is_permutation(t);
    lemma_map_keeps_permutation(ranked(s), ranked(t));
    lemma_key_le_is_total_order();
    assert forall|i: int, j: int| 0 <= i < j < x.len() implies #[trigger] leq(x[i], x[j]) by {
        lemma_rank_le_is_key_le(ranked(s)[i], ranked(s)[j]);
    }
    assert forall|i: int, j: int| 0 <= i < j < y.len() implies #[trigger] leq(y[i], y[j]) by {
        lemma_rank_le_is_key_le(ranked(t)[i], ranked(t)[j]);
    }
    lemma_sorted_unique(x, y, leq);
}

/// The models of a list of results.
pub open spec fn results_model(list: Seq<ProbeResult>) -> Seq<ResultModel> {
    Seq::new(list.len(), |i: int| list[i]@)
}

/// Whether the text `a` is at most the text `b`, lexicographically.
pub fn text_at_most(a: &Vec<char>, b: &Vec<char>) -> (r: bool)
    ensures
        r == text_le(a@, b@),
{
    let mut i: usize = 0;
    assert(a@.skip(0) =~= a@ && b@.skip(0) =~= b@);
    while i < a.len() && i < b.len()
        invariant
            i <= a@.len(),
            i <= b@.len(),
            text_le(a@, b@) == text_le(a@.skip(i as int), b@.skip(i as int)),
        decreases a@.len() - i,
    {
        assert(a@.skip(i as int).first() == a@[i as int]);
        assert(b@.skip(i as int).first() == b@[i as int]);
        if a[i] != b[i] {
            return a[i] < b[i];
        }
        assert(a@.skip(i as int).drop_first() =~= a@.skip(i + 1));
        assert(b@.skip(i as int).drop_first() =~= b@.skip(i + 1));
        i = i + 1;
    }
    i >= a.len()
}

/// Whether `a` may stand before `b` in a ranked list.
pub fn ranks_before(a: &ProbeResult, b: &ProbeResult) -> (r: bool)
    ensures
        r == rank_le(a@, b@),
{
    if a.alive != b.alive {
        a.alive
    } else if a.alive {
        match (a.delay_ms, b.delay_ms) {
            (None, _) => true,
            (Some(_), None) => false,
            (Some(x), Some(y)) => x <= y,
        }
    } else {
        let x = chars_of(a.name.as_str());
        let y = chars_of(b.name.as_str());
        text_at_most(&x, &y)
    }
}

/// Puts `x` into the ranked list `out`, behind the last result that may
/// stand before it.
pub fn insert_ranked(out: &mut Vec<ProbeResult>, x: ProbeResult)
    ensures
        results_model(final(out)@) == results_model(old(out)@).insert(
            insert_position(results_model(old(out)@), x@) as int,
            x@,
        ),
{
    let ghost all = results_model(out@);
    let mut idx: usize = out.len();
    assert(all.take(idx as int) =~= all);
    while idx > 0 && !ranks_before(&out[idx - 1], &x)
        invariant
            idx <= out@.len(),
            all == results_model(out@),
            insert_position(all, x@) == insert_position(all.take(idx as int), x@),
        decreases idx,
    {
        assert(all.take(idx as int).last() == out@[idx - 1]@);
        assert(all.take(idx as int).drop_last() =~= all.take(idx - 1));
        idx = idx - 1;
    }
    assert(idx > 0 ==> all.take(idx as int).last() == out@[idx - 1]@);
    assert(insert_position(all, x@) == idx);
    out.insert(idx, x);
    assert(results_model(out@) =~= all.insert(idx as int, x@));
}

/// The result that a handler's check gives: a live result with the delay in
/// milliseconds, or a dead one with the reason.
pub open spec fn outcome_result(handler: HandlerInfo, outcome: Result<u64, String>) -> ResultModel {
    let endpoint = endpoint_of(handler);
    match outcome {
        Ok(delay_ms) => ResultModel {
            name: handler.name@,
            server: endpoint.0,
            port: endpoint.1,
            protocol: handler.protocol@,
            alive: true,
            delay_ms: Some(delay_ms),
            error: None,
        },
        Err(reason) => ResultModel {
            name: handler.name@,
            server: endpoint.0,
            port: endpoint.1,
            protocol: handler.protocol@,
            alive: false,
            delay_ms: None,
            error: Some(reason@),
        },
    }
}

/// The results of a cycle before ranking: one for each handler that has an
/// outcome, in handler order.
pub open spec fn cycle_results(
    handlers: Seq<HandlerInfo>,
    outcomes: Seq<Result<u64, String>>,
) -> Seq<ResultModel> {
    Seq::new(
        if handlers.len() <= outcomes.len() {
            handlers.len()
        } else {
            outcomes.len()
        },
        |i: int| outcome_result(handlers[i], outcomes[i]),
    )
}

/// Builds the result of every check and ranks them. The outcome at each
/// position belongs to the handler at that position.
pub fn build_and_sort_probe_results(
    handlers: &Vec<HandlerInfo>,
    outcomes: &Vec<Result<u64, String>>,
) -> (r: Vec<ProbeResult>)
    ensures
        results_model(r@) == ranked(cycle_results(handlers@, outcomes@)),
        forall|i: int| 0 <= i < r@.len() ==> (#[trigger] r@[i]).wf(),
{
    let n: usize = if handlers.len() <= outcomes.len() {
        handlers.len()
    } else {
        outcomes.len()
    };
    let ghost all = cycle_results(handlers@, outcomes@);
    let mut out: Vec<ProbeResult> = Vec::new();
    let mut i: usize = 0;
    assert(results_model(out@) =~= ranked(all.take(0)));
    while i < n
        invariant
            i <= n,
            n == all.len(),
            n <= handlers@.len(),
            n <= outcomes@.len(),
            all == cycle_results(handlers@, outcomes@),
            results_model(out@) == ranked(all.take(i as int)),
            forall|j: int|
                0 <= j < results_model(out@).len() ==> (#[trigger] results_model(out@)[j]).wf(),
        decreases n - i,
    {
        let result = match &outcomes[i] {
            Ok(delay_ms) => ProbeResult::from_success(&handlers[i], *delay_ms),
            Err(reason) => ProbeResult::from_error(&handlers[i], reason.as_str()),
        };
        assert(result@ == all[i as int]);
        assert(all.take(i + 1).drop_last() =~= all.take(i as int));
        assert(all.take(i + 1).last() == all[i as int]);
        proof {
            lemma_insert_position(results_model(out@), result@);
            lemma_insert_keeps_wf(
                results_model(out@),
                insert_position(results_model(out@), result@) as int,
                result@,
            );
        }
        insert_ranked(&mut out, result);
        i = i + 1;
    }
    assert(all.take(n as int) =~= all);
    assert forall|j: int| 0 <= j < out@.len() implies (#[trigger] out@[j]).wf() by {
        assert(results_model(out@)[j] == out@[j]@);
    }
    out
}

} // verus!
