use vstd::prelude::*;

verus! {

/// How the player repeats.
#[derive(Debug, Clone, Copy, PartialEq, Eq)]
pub enum RepeatMode {
    Off,
    Single,
    All,
}

/// The order of a track list.
#[derive(Debug, Clone, Copy, PartialEq, Eq)]
pub enum SortBy {
    Name,
    Artist,
    Album,
    DateAdded,
    DateModified,
}

/// The grouping of a track list.
#[derive(Debug, Clone, Copy, PartialEq, Eq)]
pub enum GroupBy {
    Nothing,
    Artist,
    Album,
    Genre,
    Year,
}

/// How the library is shown.
#[derive(Debug, Clone, Copy, PartialEq, Eq)]
pub struct ViewSettings {
    pub show_artwork: bool,
    pub dark_mode: bool,
    pub sort_by: SortBy,
    pub group_by: GroupBy,
}

impl Default for ViewSettings {
    /// Artwork shown, light mode, sorted by name, not grouped.
    fn default() -> (v: ViewSettings)
        ensures
            v.show_artwork,
            !v.dark_mode,
            v.sort_by == SortBy::Name,
            v.group_by == GroupBy::Nothing,
    {
        ViewSettings { show_artwork: true, dark_mode: false, sort_by: SortBy::Name, group_by: GroupBy::Nothing }
    }
}

/// The number of recent locations kept unless configured otherwise.
pub const DEFAULT_MAX_RECENT_LOCATIONS: usize = 10;

} // verus!
