//! The popups drawn over the lists.
use vstd::prelude::*;
use super::user_input::UserInput;
use crate::music::PlaylistIdWrapper;

verus! {

/// What a popup made of a key press.
#[derive(Debug)]
pub enum PopupEvent {
    PopupClose,
    PopupCloseRefresh,
    PopupCloseData(String),
    Nothing,
    Pass,
}

/// A popup that belongs to no provider.
#[derive(Debug)]
pub enum GenericPopup {
    Message(MessagePopup),
}

/// Asks for the name of a new playlist.
#[derive(Debug)]
pub struct AddPlaylistPopup {
    pub user_input: UserInput,
}

impl AddPlaylistPopup {
    /// A popup with an empty name field, handed over on Enter.
    pub fn new() -> (r: Self)
        ensures
            r.user_input.wf(),
            r.user_input.text() == Seq::<char>::empty(),
            r.user_input.cursor() == 0,
            r.user_input.requires_enter(),
    {
        AddPlaylistPopup { user_input: UserInput::new(true) }
    }
}

/// Asks what to search for, to add a song to a playlist.
#[derive(Debug)]
pub struct AddSongPopup {
    pub user_input: UserInput,
    pub playlist_id: PlaylistIdWrapper,
}

impl AddSongPopup {
    /// A popup for `playlist_id` with an empty query field, handed over on Enter.
    pub fn new(playlist_id: PlaylistIdWrapper) -> (r: Self)
        ensures
            r.user_input.wf(),
            r.user_input.text() == Seq::<char>::empty(),
            r.user_input.cursor() == 0,
            r.user_input.requires_enter(),
            r.playlist_id == playlist_id,
    {
        AddSongPopup { user_input: UserInput::new(true), playlist_id }
    }
}

/// Shown while a provider is busy.
#[derive(Debug)]
pub struct LoadingPopup {
    pub active: bool,
}

impl LoadingPopup {
    /// A popup that is shown.
    pub fn new() -> (r: Self)
        ensures
            r.active,
    {
        LoadingPopup { active: true }
    }
}

/// A message with a title.
#[derive(Debug)]
pub struct MessagePopup {
    pub message: String,
    pub title: String,
}

impl MessagePopup {
    pub fn new(title: String, message: String) -> (r: Self)
        ensures
            r.title == title,
            r.message == message,
    {
        MessagePopup { title, message }
    }
}

} // verus!
