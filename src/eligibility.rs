use vstd::prelude::*;

use crate::model::{MediaItem, PlaylistEntry};

verus! {

/// Whether an entry may back a session segment: a catalog track (not a
/// local file, not an episode, not missing) that lasts at least
/// `min_duration_ms` and is not marked unplayable. A track whose
/// playability is unknown is kept: this favours inclusion over precision.
pub open spec fn is_eligible(e: PlaylistEntry, min_duration_ms: u64) -> bool {
    &&& !e.is_local
    &&& match e.item {
        Some(MediaItem::Track(t)) => t.duration_ms >= min_duration_ms && t.is_playable != Some(false),
        _ => false,
    }
}

/// Eligibility for a given minimum duration, as a predicate on entries.
pub open spec fn eligible_for(min_duration_ms: u64) -> spec_fn(PlaylistEntry) -> bool {
    |e: PlaylistEntry| is_eligible(e, min_duration_ms)
}

/// The eligible entries of `s`, in their order in `s`.
pub open spec fn eligible_entries(s: Seq<PlaylistEntry>, min_duration_ms: u64) -> Seq<PlaylistEntry> {
    s.filter(eligible_for(min_duration_ms))
}

/// Decides the eligibility of one entry.
pub fn entry_is_eligible(e: &PlaylistEntry, min_duration_ms: u64) -> (r: bool)
    ensures
        r == is_eligible(*e, min_duration_ms),
{
    if e.is_local {
        return false;
    }
    match &e.item {
        Some(MediaItem::Track(t)) => {
            let playable = match t.is_playable {
                Some(p) => p,
                None => true,
            };
            t.duration_ms >= min_duration_ms && playable
        },
        _ => false,
    }
}

/// Keeps the eligible entries, in their input order.
pub fn filter_eligible(entries: Vec<PlaylistEntry>, min_duration_ms: u64) -> (r: Vec<PlaylistEntry>)
    ensures
        r@ == eligible_entries(entries@, min_duration_ms),
{
    let ghost all = entries@;
    let ghost pred = eligible_for(min_duration_ms);
    let mut kept: Vec<PlaylistEntry> = Vec::new();
    for e in it: entries.into_iter()
        invariant
            it.seq() == all,
            pred == eligible_for(min_duration_ms),
            kept@ == all.take(it.index() as int).filter(pred),
    {
        let ghost i = it.index();
        proof {
            assert(all.take(i + 1) =~= all.take(i).push(e));
            all.take(i).lemma_filter_push(e, pred);
        }
        if entry_is_eligible(&e, min_duration_ms) {
            kept.push(e);
        }
    }
    proof {
        assert(all.take(all.len() as int) =~= all);
    }
    kept
}

/// Filter correctness: no entry of the output is a local file, lacks an
/// item, holds an episode, holds a track shorter than the minimum, or holds a
/// track marked unplayable; and every entry that is none of these, a track
/// of unknown playability included, is kept.
pub proof fn lemma_filter_correct(s: Seq<PlaylistEntry>, min_duration_ms: u64)
    ensures
        forall|i: int|
            0 <= i < eligible_entries(s, min_duration_ms).len() ==> {
                let e = #[trigger] eligible_entries(s, min_duration_ms)[i];
                &&& !e.is_local
                &&& e.item matches Some(MediaItem::Track(t))
                &&& t.duration_ms >= min_duration_ms
                &&& t.is_playable != Some(false)
            },
        forall|i: int|
            0 <= i < s.len() && !s[i].is_local ==> (s[i].item matches Some(MediaItem::Track(t))
                && t.duration_ms >= min_duration_ms && (t.is_playable is None || t.is_playable == Some(true))
                ==> eligible_entries(s, min_duration_ms).contains(#[trigger] s[i])),
{
    let pred = eligible_for(min_duration_ms);
    assert forall|i: int| 0 <= i < eligible_entries(s, min_duration_ms).len() implies is_eligible(
        #[trigger] eligible_entries(s, min_duration_ms)[i],
        min_duration_ms,
    ) by {
        s.lemma_filter_pred(pred, i);
    }
    assert forall|i: int|
        0 <= i < s.len() && is_eligible(s[i], min_duration_ms) implies eligible_entries(
        s,
        min_duration_ms,
    ).contains(#[trigger] s[i]) by {
        s.lemma_filter_contains(pred, i);
    }
}

/// Filtering is idempotent: the eligible entries of a filtered sequence are
/// that sequence itself.
pub proof fn lemma_filter_idempotent(s: Seq<PlaylistEntry>, min_duration_ms: u64)
    ensures
        eligible_entries(eligible_entries(s, min_duration_ms), min_duration_ms)
            == eligible_entries(s, min_duration_ms),
    decreases s.len(),
{
    let pred = eligible_for(min_duration_ms);
    let f = eligible_entries(s, min_duration_ms);
    assert forall|i: int| 0 <= i < f.len() implies pred(#[trigger] f[i]) by {
        s.lemma_filter_pred(pred, i);
    }
    lemma_filter_of_all(f, pred);
}

proof fn lemma_filter_of_all(s: Seq<PlaylistEntry>, pred: spec_fn(PlaylistEntry) -> bool)
    requires
        forall|i: int| 0 <= i < s.len() ==> pred(#[trigger] s[i]),
    ensures
        s.filter(pred) == s,
    decreases s.len(),
{
    reveal(Seq::filter);
    if s.len() > 0 {
        lemma_filter_of_all(s.drop_last(), pred);
        assert(s.drop_last().push(s.last()) == s);
    }
}

/// The number of entries kept by a filter does not depend on their order.
pub proof fn lemma_filter_len_of_permutation(
    s1: Seq<PlaylistEntry>,
    s2: Seq<PlaylistEntry>,
    pred: spec_fn(PlaylistEntry) -> bool,
)
    requires
        s1.to_multiset() == s2.to_multiset(),
    ensures
        s1.filter(pred).len() == s2.filter(pred).len(),
    decreases s1.len(),
{
    broadcast use vstd::multiset::group_multiset_axioms;
    broadcast use vstd::seq_lib::group_to_multiset_ensures;

    vstd::seq_lib::to_multiset_len(s1);
    vstd::seq_lib::to_multiset_len(s2);
    if s1.len() == 0 {
        assert(s1 =~= s2);
    } else {
        let x = s1.last();
        let rest1 = s1.drop_last();
        assert(rest1.push(x) =~= s1);
        assert(s1.to_multiset() == rest1.to_multiset().insert(x));
        assert(s2.to_multiset().count(x) > 0);
        assert(s2.contains(x));
        let j = choose|j: int| 0 <= j < s2.len() && s2[j] == x;
        let rest2 = s2.remove(j);
        assert(rest2.to_multiset() == s2.to_multiset().remove(x));
        assert(rest2.to_multiset() =~= rest1.to_multiset());
        lemma_filter_len_of_permutation(rest1, rest2, pred);
        rest1.lemma_filter_push(x, pred);
        let a = s2.take(j);
        let b = s2.skip(j + 1);
        assert(s2 =~= a + (seq![x] + b));
        assert(rest2 =~= a + b);
        Seq::filter_distributes_over_add(a, seq![x] + b, pred);
        Seq::filter_distributes_over_add(seq![x], b, pred);
        Seq::filter_distributes_over_add(a, b, pred);
        assert(seq![x] =~= Seq::<PlaylistEntry>::empty().push(x));
        Seq::<PlaylistEntry>::empty().lemma_filter_push(x, pred);
        assert(Seq::<PlaylistEntry>::empty().filter(pred) =~= Seq::<PlaylistEntry>::empty()) by {
            reveal(Seq::filter);
        }
    }
}

} // verus!
