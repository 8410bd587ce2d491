use vstd::prelude::*;

use crate::eligibility::is_eligible;
use crate::model::{track_of, MediaItem, PlaylistEntry, Track};

verus! {

/// The tracks embedded in the entries of `s`, in order; entries without a
/// track contribute nothing.
pub open spec fn tracks_in(s: Seq<PlaylistEntry>) -> Seq<Track>
    decreases s.len(),
{
    if s.len() == 0 {
        Seq::empty()
    } else {
        let rest = tracks_in(s.drop_last());
        match track_of(s.last()) {
            Some(t) => rest.push(t),
            None => rest,
        }
    }
}

/// The number of entries kept for a target of `target` out of `len`.
pub open spec fn kept_count(len: nat, target: nat) -> nat {
    if target < len {
        target
    } else {
        len
    }
}

/// The session drawn from `s`: the tracks of its first `target` entries.
pub open spec fn sampled(s: Seq<PlaylistEntry>, target: nat) -> Seq<Track> {
    tracks_in(s.take(kept_count(s.len(), target) as int))
}

/// Keeps the first `target` entries (all of them if there are fewer) and
/// unwraps the track of each. The order is not changed: shuffling happens
/// when the entries are collected.
pub fn sample_tracks(entries: Vec<PlaylistEntry>, target: usize) -> (r: Vec<Track>)
    ensures
        r@ == sampled(entries@, target as nat),
{
    let mut entries = entries;
    entries.truncate(target);
    let ghost all = entries@;
    let mut tracks: Vec<Track> = Vec::new();
    for e in it: entries.into_iter()
        invariant
            it.seq() == all,
            tracks@ == tracks_in(all.take(it.index() as int)),
    {
        let ghost i = it.index();
        proof {
            assert(all.take(i + 1).drop_last() =~= all.take(i));
            assert(all.take(i + 1).last() == e);
        }
        match e.item {
            Some(MediaItem::Track(t)) => tracks.push(t),
            _ => {},
        }
    }
    proof {
        assert(all.take(all.len() as int) =~= all);
    }
    tracks
}

/// When every entry holds a track, there is one track per entry, in order.
pub proof fn lemma_tracks_of_track_entries(s: Seq<PlaylistEntry>)
    requires
        forall|i: int| 0 <= i < s.len() ==> (#[trigger] track_of(s[i])) is Some,
    ensures
        tracks_in(s).len() == s.len(),
        forall|i: int| 0 <= i < s.len() ==> Some(#[trigger] tracks_in(s)[i]) == track_of(s[i]),
    decreases s.len(),
{
    if s.len() > 0 {
        let p = s.drop_last();
        assert forall|i: int| 0 <= i < p.len() implies (#[trigger] track_of(p[i])) is Some by {
            assert(p[i] == s[i]);
        }
        lemma_tracks_of_track_entries(p);
        assert(track_of(s[s.len() - 1]) is Some);
    }
}

/// Truncation bound: from `m` eligible entries and a target `t`, the session
/// has exactly `min(m, t)` tracks, the track of each of the first entries.
pub proof fn lemma_truncation_bound(s: Seq<PlaylistEntry>, min_duration_ms: u64, target: nat)
    requires
        forall|i: int| 0 <= i < s.len() ==> is_eligible(#[trigger] s[i], min_duration_ms),
    ensures
        sampled(s, target).len() == kept_count(s.len(), target),
        forall|i: int|
            0 <= i < sampled(s, target).len() ==> Some(#[trigger] sampled(s, target)[i]) == track_of(s[i]),
{
    let k = s.take(kept_count(s.len(), target) as int);
    assert forall|i: int| 0 <= i < k.len() implies (#[trigger] track_of(k[i])) is Some by {
        assert(k[i] == s[i]);
        assert(is_eligible(s[i], min_duration_ms));
    }
    lemma_tracks_of_track_entries(k);
}

} // verus!
