//! The state of the terminal widgets, apart from drawing them.
use vstd::prelude::*;

pub mod user_input;
pub mod popups;

verus! {

/// The four lists of the screen, one of which has the focus.
#[derive(Debug, PartialEq, Clone, Copy)]
pub enum ActiveBlock {
    SpotifyPlaylistSelector,
    YoutubePlaylistSelector,
    SpotifySongSelector,
    YoutubeSongSelector,
}

/// What a list selector made of a key press.
#[derive(Debug)]
pub enum ListSelectorKeyResponse {
    Selected,
    CursorMoved,
    Nothing,
    Pass,
}

/// The texts a list selector shows: its title, and what it says when empty.
#[derive(Debug)]
pub struct ListSelectorLabels {
    pub empty: String,
    pub title: String,
}

} // verus!
