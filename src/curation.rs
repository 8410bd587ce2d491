use vstd::prelude::*;

use crate::eligibility::{
    eligible_entries, eligible_for, filter_eligible, is_eligible, lemma_filter_len_of_permutation,
};
use crate::model::{track_of, PlaylistEntry, PlaylistSummary, Track};
use crate::paginator::Paginator;
use crate::sampler::{kept_count, lemma_truncation_bound, sample_tracks, sampled};

verus! {

/// Entries requested per page in the standard configuration.
pub const PAGE_SIZE: usize = 64;

/// Shortest track, in milliseconds, that the standard configuration accepts.
pub const MIN_SONG_DURATION_MS: u64 = 60000;

/// Number of tracks in a standard session: one per minute of an hour.
pub const TARGET_TRACK_COUNT: usize = 60;

/// Fewest entries a playlist must declare to be offered for a standard session.
pub const MIN_PLAYLIST_LENGTH: usize = 60;

/// A configuration value that is refused.
#[derive(PartialEq, Eq, Structural, Clone, Copy, Debug)]
pub enum ConfigError {
    /// The page size is zero.
    InvalidPageSize,
    /// The target track count is zero.
    InvalidTargetCount,
}

/// The tunable values of a curation run.
#[derive(PartialEq, Eq, Structural, Clone, Copy, Debug)]
pub struct CurationConfig {
    pub page_size: usize,
    pub min_duration_ms: u64,
    pub target_count: usize,
    pub min_playlist_length: usize,
}

impl CurationConfig {
    /// A configuration from its values; a zero page size or target count is refused,
    /// the page size being checked first.
    pub fn new(page_size: usize, min_duration_ms: u64, target_count: usize, min_playlist_length: usize) -> (r:
        Result<CurationConfig, ConfigError>)
        ensures
            page_size == 0 ==> r == Err::<CurationConfig, ConfigError>(ConfigError::InvalidPageSize),
            page_size > 0 && target_count == 0 ==> r == Err::<CurationConfig, ConfigError>(
                ConfigError::InvalidTargetCount,
            ),
            page_size > 0 && target_count > 0 ==> r == Ok::<CurationConfig, ConfigError>(
                (CurationConfig { page_size, min_duration_ms, target_count, min_playlist_length }),
            ),
    {
        if page_size == 0 {
            Err(ConfigError::InvalidPageSize)
        } else if target_count == 0 {
            Err(ConfigError::InvalidTargetCount)
        } else {
            Ok(CurationConfig { page_size, min_duration_ms, target_count, min_playlist_length })
        }
    }

    /// Pages of 64 entries, tracks of at least a minute, sessions of 60
    /// tracks, playlists of at least 60 entries.
    pub fn standard() -> (r: CurationConfig)
        ensures
            r == (CurationConfig {
                page_size: PAGE_SIZE,
                min_duration_ms: MIN_SONG_DURATION_MS,
                target_count: TARGET_TRACK_COUNT,
                min_playlist_length: MIN_PLAYLIST_LENGTH,
            }),
    {
        CurationConfig {
            page_size: PAGE_SIZE,
            min_duration_ms: MIN_SONG_DURATION_MS,
            target_count: TARGET_TRACK_COUNT,
            min_playlist_length: MIN_PLAYLIST_LENGTH,
        }
    }
}

/// Whether a track may back a session segment: long enough and not marked unplayable.
pub open spec fn track_is_eligible(t: Track, min_duration_ms: u64) -> bool {
    t.duration_ms >= min_duration_ms && t.is_playable != Some(false)
}

/// The session curated from already shuffled entries: the eligible entries,
/// cut to the target count, unwrapped to their tracks.
pub open spec fn curated(entries: Seq<PlaylistEntry>, min_duration_ms: u64, target: nat) -> Seq<Track> {
    sampled(eligible_entries(entries, min_duration_ms), target)
}

/// Filters already shuffled entries and keeps the first `target_count`
/// eligible ones as tracks. The session has `min(target, eligible)` tracks,
/// each of them eligible; too few eligible entries give a short session,
/// and none give an empty one.
pub fn curate(entries: Vec<PlaylistEntry>, config: &CurationConfig) -> (r: Vec<Track>)
    ensures
        r@ == curated(entries@, config.min_duration_ms, config.target_count as nat),
        r@.len() == kept_count(
            eligible_entries(entries@, config.min_duration_ms).len(),
            config.target_count as nat,
        ),
        forall|i: int| 0 <= i < r@.len() ==> track_is_eligible(#[trigger] r@[i], config.min_duration_ms),
{
    let eligible = filter_eligible(entries, config.min_duration_ms);
    let tracks = sample_tracks(eligible, config.target_count);
    proof {
        let e = eligible@;
        assert forall|i: int| 0 <= i < e.len() implies is_eligible(#[trigger] e[i], config.min_duration_ms) by {
            entries@.lemma_filter_pred(eligible_for(config.min_duration_ms), i);
        }
        lemma_truncation_bound(e, config.min_duration_ms, config.target_count as nat);
        assert forall|i: int| 0 <= i < tracks@.len() implies track_is_eligible(
            #[trigger] tracks@[i],
            config.min_duration_ms,
        ) by {
            assert(is_eligible(e[i], config.min_duration_ms));
        }
    }
    tracks
}

/// Whether `t` is the track of some entry of `s`.
pub open spec fn comes_from(t: Track, s: Seq<PlaylistEntry>) -> bool {
    exists|j: int| 0 <= j < s.len() && track_of(s[j]) == Some(t)
}

/// The whole curation of a drained playlist: the collected entries are
/// shuffled once, filtered, and cut to the target count. The session has
/// `min(target, eligible)` tracks, counting the eligible entries of the
/// playlist, each of them eligible and each the track of one of its entries.
pub fn curate_collected(paginator: Paginator, config: &CurationConfig) -> (r: Vec<Track>)
    ensures
        r@.len() == kept_count(
            eligible_entries(paginator.collected(), config.min_duration_ms).len(),
            config.target_count as nat,
        ),
        forall|i: int| 0 <= i < r@.len() ==> track_is_eligible(#[trigger] r@[i], config.min_duration_ms),
        forall|i: int| 0 <= i < r@.len() ==> comes_from(#[trigger] r@[i], paginator.collected()),
{
    let ghost collected = paginator.collected();
    let shuffled = paginator.into_shuffled_entries();
    let ghost s = shuffled@;
    let tracks = curate(shuffled, config);
    proof {
        broadcast use vstd::seq_lib::group_to_multiset_ensures;

        let pred = eligible_for(config.min_duration_ms);
        lemma_filter_len_of_permutation(s, collected, pred);
        let e = eligible_entries(s, config.min_duration_ms);
        assert forall|i: int| 0 <= i < e.len() implies is_eligible(#[trigger] e[i], config.min_duration_ms) by {
            s.lemma_filter_pred(pred, i);
        }
        lemma_truncation_bound(e, config.min_duration_ms, config.target_count as nat);
        assert forall|i: int| 0 <= i < tracks@.len() implies comes_from(#[trigger] tracks@[i], collected) by {
            assert(Some(tracks@[i]) == track_of(e[i]));
            assert(e.contains(e[i]));
            s.lemma_filter_contains_rev(pred, e[i]);
            assert(s.to_multiset().count(e[i]) > 0);
            assert(collected.contains(e[i]));
            let j = choose|j: int| 0 <= j < collected.len() && collected[j] == e[i];
            assert(track_of(collected[j]) == Some(tracks@[i]));
        }
    }
    tracks
}

/// Whether a playlist declares at least `min_length` entries.
pub open spec fn long_enough(min_length: usize) -> spec_fn(PlaylistSummary) -> bool {
    |p: PlaylistSummary| p.total_tracks >= min_length
}

/// The playlists that declare at least `min_length` entries, in their order:
/// a cheap check made before any entry is fetched.
pub fn playlists_meeting_minimum(playlists: Vec<PlaylistSummary>, min_length: usize) -> (r: Vec<
    PlaylistSummary,
>)
    ensures
        r@ == playlists@.filter(long_enough(min_length)),
{
    let ghost all = playlists@;
    let ghost pred = long_enough(min_length);
    let mut kept: Vec<PlaylistSummary> = Vec::new();
    for p in it: playlists.into_iter()
        invariant
            it.seq() == all,
            pred == long_enough(min_length),
            kept@ == all.take(it.index() as int).filter(pred),
    {
        let ghost i = it.index();
        proof {
            assert(all.take(i + 1) =~= all.take(i).push(p));
            all.take(i).lemma_filter_push(p, pred);
        }
        if p.total_tracks >= min_length {
            kept.push(p);
        }
    }
    proof {
        assert(all.take(all.len() as int) =~= all);
    }
    kept
}

/// The position in a list of `count` items of the one numbered `choice`
/// (numbering from 1); `None` when no item has that number.
pub fn choose_from_menu(choice: usize, count: usize) -> (r: Option<usize>)
    ensures
        1 <= choice <= count ==> r == Some((choice - 1) as usize),
        !(1 <= choice <= count) ==> r is None,
{
    if 1 <= choice && choice <= count {
        Some(choice - 1)
    } else {
        None
    }
}

} // verus!
