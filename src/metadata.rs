use vstd::prelude::*;
use crate::text::{decimal_of, push_decimal, push_text, text_eq};

verus! {

/// The outcome of writing tags.
#[derive(Debug, Clone, PartialEq, Eq)]
pub struct MetadataWriteResult {
    pub success: bool,
    pub message: String,
}

/// The tags to write to the file, or to every taggable file under the
/// directory, at `path`; a field left `None` is not changed.
#[derive(Debug, Clone, PartialEq, Eq)]
pub struct MetadataWriteOptions {
    pub path: String,
    pub title: Option<String>,
    pub artist: Option<String>,
    pub album: Option<String>,
    pub album_artist: Option<String>,
    pub album_art: Option<String>,
    pub genre: Option<String>,
    pub year: Option<u32>,
    pub track_number: Option<u32>,
}

/// An artist and the number of tracks found for it.
#[derive(Debug, Clone, PartialEq, Eq)]
pub struct ArtistInfo {
    pub name: String,
    pub track_count: u32,
}

/// The order of a list of tracks' tags.
#[derive(Debug, Clone, Copy, PartialEq, Eq)]
pub enum SortOption {
    FileName,
    Title,
    TrackNumber,
}

/// The text of an optional string.
pub open spec fn opt_text(o: Option<String>) -> Option<Seq<char>> {
    match o {
        Some(s) => Some(s@),
        None => None,
    }
}

fn copy_text(o: &Option<String>) -> (r: Option<String>)
    ensures
        opt_text(r) == opt_text(*o),
{
    match o {
        Some(s) => Some(s.clone()),
        None => None,
    }
}

impl MetadataWriteOptions {
    /// The options for one file of a batch update of a directory: the same
    /// tags, but never a title or a track number, which differ per file.
    pub fn for_batch_file(&self, path: String) -> (o: MetadataWriteOptions)
        ensures
            o.path == path,
            o.title is None,
            o.track_number is None,
            opt_text(o.artist) == opt_text(self.artist),
            opt_text(o.album) == opt_text(self.album),
            opt_text(o.album_artist) == opt_text(self.album_artist),
            opt_text(o.album_art) == opt_text(self.album_art),
            opt_text(o.genre) == opt_text(self.genre),
            o.year == self.year,
    {
        MetadataWriteOptions {
            path,
            title: None,
            artist: copy_text(&self.artist),
            album: copy_text(&self.album),
            album_artist: copy_text(&self.album_artist),
            album_art: copy_text(&self.album_art),
            genre: copy_text(&self.genre),
            year: self.year,
            track_number: None,
        }
    }
}

/// The message of a batch update that updated `updated` files and failed on
/// `failed` files.
pub open spec fn batch_message(updated: nat, failed: nat) -> Seq<char> {
    if failed == 0 {
        "Successfully updated metadata for "@ + decimal_of(updated) + " files"@
    } else {
        "Updated "@ + decimal_of(updated) + " files, failed to update "@ + decimal_of(failed)
            + " files. Check logs for details."@
    }
}

impl MetadataWriteResult {
    /// The outcome of a batch update: a success only when no file failed.
    pub fn for_batch(updated: u32, failed: u32) -> (r: MetadataWriteResult)
        ensures
            r.success == (failed == 0),
            r.message@ == batch_message(updated as nat, failed as nat),
    {
        let mut message = String::new();
        if failed == 0 {
            push_text(&mut message, "Successfully updated metadata for ");
            push_decimal(&mut message, updated as u64);
            push_text(&mut message, " files");
        } else {
            push_text(&mut message, "Updated ");
            push_decimal(&mut message, updated as u64);
            push_text(&mut message, " files, failed to update ");
            push_decimal(&mut message, failed as u64);
            push_text(&mut message, " files. Check logs for details.");
        }
        proof {
            assert(message@ =~= batch_message(updated as nat, failed as nat));
        }
        MetadataWriteResult { success: failed == 0, message }
    }

    /// The outcome of updating one file.
    pub fn for_single_file() -> (r: MetadataWriteResult)
        ensures
            r.success,
            r.message@ == "Metadata successfully updated"@,
    {
        MetadataWriteResult { success: true, message: String::from_str("Metadata successfully updated") }
    }
}

/// The names of a tally, in order.
pub open spec fn artist_names(v: Seq<ArtistInfo>) -> Seq<Seq<char>> {
    v.map_values(|a: ArtistInfo| a.name@)
}

/// The number of tracks counted for `name` in a tally (zero when absent).
pub open spec fn count_for(v: Seq<ArtistInfo>, name: Seq<char>) -> nat
    decreases v.len(),
{
    if v.len() == 0 {
        0
    } else {
        count_for(v.drop_last(), name) + if v.last().name@ == name {
            v.last().track_count as nat
        } else {
            0
        }
    }
}

/// The number of tracks counted in a tally.
pub open spec fn tally_total(v: Seq<ArtistInfo>) -> nat
    decreases v.len(),
{
    if v.len() == 0 {
        0
    } else {
        tally_total(v.drop_last()) + v.last().track_count as nat
    }
}

/// Each artist appears at most once.
pub open spec fn names_unique(v: Seq<ArtistInfo>) -> bool {
    forall|i: int, j: int| 0 <= i < j < v.len() ==> v[i].name@ != v[j].name@
}

proof fn lemma_count_le_total(v: Seq<ArtistInfo>, name: Seq<char>, i: int)
    requires
        0 <= i < v.len(),
    ensures
        v[i].track_count <= tally_total(v),
    decreases v.len(),
{
    if i < v.len() - 1 {
        lemma_count_le_total(v.drop_last(), name, i);
    }
}

proof fn lemma_count_update(v: Seq<ArtistInfo>, w: Seq<ArtistInfo>, k: int, name: Seq<char>)
    requires
        v.len() == w.len(),
        0 <= k < v.len(),
        v[k].name@ == name,
        w[k].name@ == name,
        w[k].track_count == v[k].track_count + 1,
        forall|i: int| 0 <= i < v.len() && i != k ==> w[i] == v[i],
    ensures
        forall|other: Seq<char>|
            #[trigger] count_for(w, other) == count_for(v, other) + if other == name {
                1nat
            } else {
                0nat
            },
        tally_total(w) == tally_total(v) + 1,
    decreases v.len(),
{
    if k < v.len() - 1 {
        lemma_count_update(v.drop_last(), w.drop_last(), k, name);
        assert(w.last() == v.last());
        assert forall|other: Seq<char>|
            #[trigger] count_for(w, other) == count_for(v, other) + if other == name {
                1nat
            } else {
                0nat
            } by {
            assert(count_for(w.drop_last(), other) == count_for(v.drop_last(), other) + if other == name {
                1nat
            } else {
                0nat
            });
        }
    } else {
        assert(w.drop_last() =~= v.drop_last());
        assert forall|other: Seq<char>|
            #[trigger] count_for(w, other) == count_for(v, other) + if other == name {
                1nat
            } else {
                0nat
            } by {
            assert(count_for(w.drop_last(), other) == count_for(v.drop_last(), other));
        }
    }
}

proof fn lemma_count_absent(v: Seq<ArtistInfo>, name: Seq<char>)
    requires
        forall|i: int| 0 <= i < v.len() ==> v[i].name@ != name,
    ensures
        count_for(v, name) == 0,
    decreases v.len(),
{
    if v.len() > 0 {
        lemma_count_absent(v.drop_last(), name);
    }
}

/// Counts one more track of `artist`: its entry goes up by one, or a new
/// entry with one track is added at the end.
pub fn count_artist(tally: &mut Vec<ArtistInfo>, artist: &str)
    requires
        names_unique(old(tally)@),
        tally_total(old(tally)@) < u32::MAX,
    ensures
        names_unique(final(tally)@),
        tally_total(final(tally)@) == tally_total(old(tally)@) + 1,
        forall|name: Seq<char>|
            #[trigger] count_for(final(tally)@, name) == count_for(old(tally)@, name) + if name == artist@ {
                1nat
            } else {
                0nat
            },
        artist_names(old(tally)@).contains(artist@) ==> artist_names(final(tally)@) == artist_names(old(tally)@),
        !artist_names(old(tally)@).contains(artist@) ==> artist_names(final(tally)@) == artist_names(
            old(tally)@,
        ).push(artist@),
{
    let ghost before = tally@;
    let mut i: usize = 0;
    while i < tally.len()
        invariant
            tally@ == before,
            before == old(tally)@,
            names_unique(before),
            tally_total(before) < u32::MAX,
            i <= before.len(),
            forall|j: int| 0 <= j < i ==> before[j].name@ != artist@,
        decreases before.len() - i,
    {
        if text_eq(tally[i].name.as_str(), artist) {
            proof {
                lemma_count_le_total(before, artist@, i as int);
            }
            let n = tally[i].track_count;
            let name = tally[i].name.clone();
            tally.set(i, ArtistInfo { name, track_count: n + 1 });
            proof {
                lemma_count_update(before, tally@, i as int, artist@);
                assert(artist_names(tally@) =~= artist_names(before));
                assert(artist_names(before)[i as int] == artist@);
                assert forall|a: int, b: int| 0 <= a < b < tally@.len() implies tally@[a].name@ != tally@[b].name@ by {
                    assert(artist_names(tally@)[a] == artist_names(before)[a]);
                    assert(artist_names(tally@)[b] == artist_names(before)[b]);
                }
            }
            return;
        }
        i += 1;
    }
    proof {
        lemma_count_absent(before, artist@);
        assert(!artist_names(before).contains(artist@)) by {
            if artist_names(before).contains(artist@) {
                let j = choose|j: int| 0 <= j < before.len() && artist_names(before)[j] == artist@;
                assert(before[j].name@ != artist@);
            }
        }
    }
    tally.push(ArtistInfo { name: String::from_str(artist), track_count: 1 });
    proof {
        assert(tally@.drop_last() =~= before);
        assert(artist_names(tally@) =~= artist_names(before).push(artist@));
    }
}

} // verus!
