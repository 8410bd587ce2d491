use vstd::prelude::*;

verus! {

/// A catalog track, holding the fields that curation and reporting read.
#[derive(Clone, Debug, PartialEq, Eq)]
pub struct Track {
    /// Stable catalog identifier; absent for local-only tracks.
    pub id: Option<String>,
    pub name: String,
    /// Artist names, in the order the catalog lists them.
    pub artists: Vec<String>,
    /// Length of the track in milliseconds.
    pub duration_ms: u64,
    /// Playability in the requested market; `None` when the source did not say.
    pub is_playable: Option<bool>,
}

/// The media item embedded in a playlist entry.
#[derive(Clone, Debug, PartialEq, Eq)]
pub enum MediaItem {
    Track(Track),
    /// A podcast episode; none of its fields matter here.
    Episode,
}

/// One slot of a playlist, as fetched from the source.
#[derive(Clone, Debug, PartialEq, Eq)]
pub struct PlaylistEntry {
    /// The embedded item; absent when the source item was deleted or is unavailable.
    pub item: Option<MediaItem>,
    /// Whether the entry is a locally stored file rather than a catalog item.
    pub is_local: bool,
}

/// A playlist as listed among a user's playlists, before any entry is fetched.
#[derive(Clone, Debug, PartialEq, Eq)]
pub struct PlaylistSummary {
    pub id: String,
    pub name: String,
    /// The total number of entries that the playlist declares.
    pub total_tracks: usize,
}

/// The track embedded in an entry, if the entry holds one.
pub open spec fn track_of(e: PlaylistEntry) -> Option<Track> {
    match e.item {
        Some(MediaItem::Track(t)) => Some(t),
        _ => None,
    }
}

} // verus!
