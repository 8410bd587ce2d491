use vstd::prelude::*;
use vstd::string::StringExecFns;

use crate::model::Track;

verus! {

/// The catalog identifiers of `tracks`, in order; tracks without one are skipped.
pub open spec fn ids_in(tracks: Seq<Track>) -> Seq<String>
    decreases tracks.len(),
{
    if tracks.len() == 0 {
        Seq::empty()
    } else {
        let rest = ids_in(tracks.drop_last());
        match tracks.last().id {
            Some(id) => rest.push(id),
            None => rest,
        }
    }
}

/// The identifiers to hand to playback, in session order.
pub fn track_ids(tracks: &Vec<Track>) -> (r: Vec<String>)
    ensures
        r@ == ids_in(tracks@),
{
    let mut ids: Vec<String> = Vec::new();
    let mut i: usize = 0;
    while i < tracks.len()
        invariant
            i <= tracks@.len(),
            ids@ == ids_in(tracks@.take(i as int)),
        decreases tracks@.len() - i,
    {
        proof {
            assert(tracks@.take(i + 1).drop_last() =~= tracks@.take(i as int));
        }
        match &tracks[i].id {
            Some(id) => ids.push(id.clone()),
            None => {},
        }
        i += 1;
    }
    proof {
        assert(tracks@.take(tracks@.len() as int) =~= tracks@);
    }
    ids
}

/// The parts, with `sep` between each two of them.
pub open spec fn joined(parts: Seq<Seq<char>>, sep: Seq<char>) -> Seq<char>
    decreases parts.len(),
{
    if parts.len() == 0 {
        Seq::empty()
    } else if parts.len() == 1 {
        parts[0]
    } else {
        joined(parts.drop_last(), sep) + sep + parts.last()
    }
}

/// The character sequences of `names`.
pub open spec fn texts(names: Seq<String>) -> Seq<Seq<char>> {
    names.map_values(|s: String| s@)
}

/// Relies on itertools::join: each name written out in order, `sep` between two.
#[verifier::external_body]
fn join_names(names: &Vec<String>, sep: &str) -> (r: String)
    ensures
        r@ == joined(texts(names@), sep@),
{
    itertools::join(names, sep)
}

/// The line that reports a track: its name, then " - ", then its artists
/// separated by ", ".
pub fn describe_track(t: &Track) -> (r: String)
    ensures
        r@ == t.name@ + seq![' ', '-', ' '] + joined(texts(t.artists@), seq![',', ' ']),
{
    let artists = join_names(&t.artists, ", ");
    proof {
        reveal_strlit(", ");
        reveal_strlit(" - ");
        assert(", "@ =~= seq![',', ' ']);
        assert(" - "@ =~= seq![' ', '-', ' ']);
    }
    let line = t.name.clone().concat(" - ");
    line.concat(artists.as_str())
}

} // verus!
