//! The tabs of the player's terminal interface, in display order, with
//! saturating previous/next navigation.

use vstd::prelude::*;

verus! {

/// One tab of the interface.
#[derive(Default, Debug, Clone, Copy, PartialEq, Eq, Structural, Hash)]
pub enum Tab {
    #[default]
    Player,
    Playlist,
    SoundFont,
    Settings,
    About,
}

impl Tab {
    /// The tab before this one in display order; the first tab is its own
    /// predecessor.
    pub open spec fn previous_spec(self) -> Tab {
        match self {
            Tab::Player => Tab::Player,
            Tab::Playlist => Tab::Player,
            Tab::SoundFont => Tab::Playlist,
            Tab::Settings => Tab::SoundFont,
            Tab::About => Tab::Settings,
        }
    }

    /// The tab after this one in display order; the last tab is its own
    /// successor.
    pub open spec fn next_spec(self) -> Tab {
        match self {
            Tab::Player => Tab::Playlist,
            Tab::Playlist => Tab::SoundFont,
            Tab::SoundFont => Tab::Settings,
            Tab::Settings => Tab::About,
            Tab::About => Tab::About,
        }
    }

    /// Get the previous tab, if there is no previous tab return the
    /// current tab.
    pub fn previous(self) -> (r: Self)
        ensures
            r == self.previous_spec(),
    {
        match self {
            Tab::Player => Tab::Player,
            Tab::Playlist => Tab::Player,
            Tab::SoundFont => Tab::Playlist,
            Tab::Settings => Tab::SoundFont,
            Tab::About => Tab::Settings,
        }
    }

    /// Get the next tab, if there is no next tab return the current tab.
    pub fn next(self) -> (r: Self)
        ensures
            r == self.next_spec(),
    {
        match self {
            Tab::Player => Tab::Playlist,
            Tab::Playlist => Tab::SoundFont,
            Tab::SoundFont => Tab::Settings,
            Tab::Settings => Tab::About,
            Tab::About => Tab::About,
        }
    }
}

} // verus!
