use vstd::prelude::*;

pub mod checksum;
pub mod text;
pub mod paths;
pub mod transfer;
pub mod laws;
pub mod session;
pub mod media;
pub mod config;
pub mod metadata;
pub mod device;
pub mod listing;

use crate::media::{extension_of, file_extension, is_listed_audio, is_listed_audio_extension};
use crate::text::text_eq;
use crate::config::DEFAULT_MAX_RECENT_LOCATIONS;

verus! {

/// One entry of a directory listing.
#[derive(Debug, Clone, PartialEq, Eq)]
pub struct FileItem {
    pub name: String,
    pub path: String,
    pub is_dir: bool,
    pub is_audio: bool,
}

/// Whether a listed entry is an audio file: not a directory, and its
/// extension is one of the listed audio ones.
pub open spec fn is_audio_entry(name: Seq<char>, is_dir: bool) -> bool {
    !is_dir && extension_of(name) is Some && is_listed_audio_extension(extension_of(name)->0)
}

impl FileItem {
    /// The listing entry of a file or directory named `name` at `path`.
    pub fn listed(name: String, path: String, is_dir: bool) -> (f: FileItem)
        ensures
            f.name == name,
            f.path == path,
            f.is_dir == is_dir,
            f.is_audio == is_audio_entry(name@, is_dir),
    {
        let is_audio = if is_dir {
            false
        } else {
            match file_extension(name.as_str()) {
                Some(ext) => is_listed_audio(ext.as_str()),
                None => false,
            }
        };
        FileItem { name, path, is_dir, is_audio }
    }
}

/// The saved locations: favorites, recent ones (most recent first, at most
/// `max_recent_locations` of them) and the default one.
#[derive(Debug, Clone, PartialEq, Eq)]
pub struct AppConfig {
    pub favorite_locations: Vec<String>,
    pub recent_locations: Vec<String>,
    pub default_location: Option<String>,
    pub max_recent_locations: usize,
}

/// The texts of a list of strings.
pub open spec fn texts(v: Seq<String>) -> Seq<Seq<char>> {
    v.map_values(|s: String| s@)
}

/// The index of the first occurrence of `t` in `s`, or -1.
pub open spec fn index_of_text(s: Seq<Seq<char>>, t: Seq<char>) -> int
    decreases s.len(),
{
    if s.len() == 0 {
        -1
    } else if s[0] == t {
        0
    } else if index_of_text(s.drop_first(), t) < 0 {
        -1
    } else {
        index_of_text(s.drop_first(), t) + 1
    }
}

/// The list without every occurrence of `t`, in order.
pub open spec fn without_text(s: Seq<Seq<char>>, t: Seq<char>) -> Seq<Seq<char>>
    decreases s.len(),
{
    if s.len() == 0 {
        s
    } else if s.last() == t {
        without_text(s.drop_last(), t)
    } else {
        without_text(s.drop_last(), t).push(s.last())
    }
}

/// The recent list after visiting `t`: `t` first, its earlier first
/// occurrence removed, cut to at most `max` entries.
pub open spec fn visited(s: Seq<Seq<char>>, t: Seq<char>, max: nat) -> Seq<Seq<char>> {
    let i = index_of_text(s, t);
    let rest = if i < 0 {
        s
    } else {
        s.remove(i)
    };
    let all = seq![t] + rest;
    if all.len() > max {
        all.subrange(0, max as int)
    } else {
        all
    }
}

proof fn lemma_index_of_text(s: Seq<Seq<char>>, t: Seq<char>, k: int)
    requires
        0 <= k <= s.len(),
        forall|j: int| 0 <= j < k ==> s[j] != t,
    ensures
        k < s.len() && s[k] == t ==> index_of_text(s, t) == k,
        k == s.len() ==> index_of_text(s, t) == -1,
    decreases k,
{
    if k > 0 {
        assert forall|j: int| 0 <= j < k - 1 implies s.drop_first()[j] != t by {
            assert(s.drop_first()[j] == s[j + 1]);
        }
        lemma_index_of_text(s.drop_first(), t, k - 1);
    }
}

fn position_of(v: &Vec<String>, t: &str) -> (r: Option<usize>)
    ensures
        r is None <==> index_of_text(texts(v@), t@) < 0,
        r is Some ==> r->0 == index_of_text(texts(v@), t@) && r->0 < v@.len() && texts(v@)[r->0 as int] == t@,
        r is None ==> !texts(v@).contains(t@),
{
    let mut k: usize = 0;
    while k < v.len()
        invariant
            k <= v@.len(),
            forall|j: int| 0 <= j < k ==> texts(v@)[j] != t@,
        decreases v@.len() - k,
    {
        if text_eq(v[k].as_str(), t) {
            proof {
                lemma_index_of_text(texts(v@), t@, k as int);
            }
            return Some(k);
        }
        k += 1;
    }
    proof {
        lemma_index_of_text(texts(v@), t@, k as int);
    }
    None
}

impl AppConfig {
    /// No saved locations, and room for ten recent ones.
    pub fn new() -> (c: AppConfig)
        ensures
            c.favorite_locations@.len() == 0,
            c.recent_locations@.len() == 0,
            c.default_location is None,
            c.max_recent_locations == 10,
    {
        AppConfig {
            favorite_locations: Vec::new(),
            recent_locations: Vec::new(),
            default_location: None,
            max_recent_locations: DEFAULT_MAX_RECENT_LOCATIONS,
        }
    }

    /// Adds `path` to the favorites unless it is there already; says whether
    /// it was added.
    pub fn add_favorite(&mut self, path: String) -> (added: bool)
        ensures
            added == !texts(old(self).favorite_locations@).contains(path@),
            texts(final(self).favorite_locations@) == if added {
                texts(old(self).favorite_locations@).push(path@)
            } else {
                texts(old(self).favorite_locations@)
            },
            final(self).recent_locations == old(self).recent_locations,
            final(self).default_location == old(self).default_location,
            final(self).max_recent_locations == old(self).max_recent_locations,
    {
        let ghost before = texts(self.favorite_locations@);
        match position_of(&self.favorite_locations, path.as_str()) {
            Some(i) => {
                proof {
                    assert(before[i as int] == path@);
                }
                false
            },
            None => {
                self.favorite_locations.push(path);
                proof {
                    assert(texts(self.favorite_locations@) =~= before.push(path@));
                }
                true
            },
        }
    }

    /// Removes every occurrence of `path` from the favorites.
    pub fn remove_favorite(&mut self, path: &str)
        ensures
            texts(final(self).favorite_locations@) == without_text(texts(old(self).favorite_locations@), path@),
            final(self).recent_locations == old(self).recent_locations,
            final(self).default_location == old(self).default_location,
            final(self).max_recent_locations == old(self).max_recent_locations,
    {
        let ghost before = self.favorite_locations@;
        let mut kept: Vec<String> = Vec::new();
        let mut i: usize = 0;
        while i < self.favorite_locations.len()
            invariant
                self.favorite_locations@ == before,
                i <= before.len(),
                texts(kept@) == without_text(texts(before.subrange(0, i as int)), path@),
            decreases before.len() - i,
        {
            proof {
                assert(texts(before.subrange(0, i + 1)).drop_last() =~= texts(before.subrange(0, i as int)));
                assert(texts(before.subrange(0, i + 1)).last() == before[i as int]@);
            }
            if !text_eq(self.favorite_locations[i].as_str(), path) {
                let ghost k0 = kept@;
                kept.push(self.favorite_locations[i].clone());
                proof {
                    assert(texts(kept@) =~= texts(k0).push(before[i as int]@));
                }
            }
            i += 1;
        }
        proof {
            assert(before.subrange(0, before.len() as int) =~= before);
        }
        self.favorite_locations = kept;
    }

    /// Makes `path` the default location.
    pub fn set_default(&mut self, path: String)
        ensures
            final(self).default_location == Some(path),
            final(self).favorite_locations == old(self).favorite_locations,
            final(self).recent_locations == old(self).recent_locations,
            final(self).max_recent_locations == old(self).max_recent_locations,
    {
        self.default_location = Some(path);
    }

    /// Puts `path` first among the recent locations, drops its earlier
    /// occurrence, and keeps at most `max_recent_locations` of them.
    pub fn add_recent(&mut self, path: String)
        ensures
            texts(final(self).recent_locations@) == visited(
                texts(old(self).recent_locations@),
                path@,
                old(self).max_recent_locations as nat,
            ),
            final(self).favorite_locations == old(self).favorite_locations,
            final(self).default_location == old(self).default_location,
            final(self).max_recent_locations == old(self).max_recent_locations,
    {
        let ghost before = texts(self.recent_locations@);
        match position_of(&self.recent_locations, path.as_str()) {
            Some(i) => {
                self.recent_locations.remove(i);
                proof {
                    assert(texts(self.recent_locations@) =~= before.remove(i as int));
                }
            },
            None => {},
        }
        let ghost rest = texts(self.recent_locations@);
        self.recent_locations.insert(0, path);
        proof {
            assert(texts(self.recent_locations@) =~= seq![path@] + rest);
        }
        if self.recent_locations.len() > self.max_recent_locations {
            let ghost all = texts(self.recent_locations@);
            self.recent_locations.truncate(self.max_recent_locations);
            proof {
                assert(texts(self.recent_locations@) =~= all.subrange(0, self.max_recent_locations as int));
            }
        }
    }
}

} // verus!
