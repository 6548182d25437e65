//! Songs and playlists as the providers report them.
use vstd::prelude::*;

verus! {

/// What a YouTube song carries besides the common fields.
#[derive(Clone, Debug)]
pub struct RSyncSongProviderDataYoutube {
    pub playlist_id: Option<String>,
}

/// The provider a song comes from, with that provider's own data.
#[derive(Clone, Debug)]
pub enum RSyncSongProviderData {
    Youtube(RSyncSongProviderDataYoutube),
    Spotify,
}

/// What a Spotify playlist carries besides the common fields.
#[derive(Clone, Debug)]
pub struct RSyncPlaylistItemProviderDataSpotify {
    pub snapshot_id: String,
}

/// The provider a playlist comes from, with that provider's own data.
#[derive(Clone, Debug)]
pub enum RSyncPlaylistItemProviderData {
    Youtube,
    Spotify(RSyncPlaylistItemProviderDataSpotify),
}

/// A playlist's id, or the list of liked songs, which has none.
#[derive(Clone, Debug)]
pub enum PlaylistIdWrapper {
    Id(String),
    Liked,
}

/// A playlist of either provider.
#[derive(Clone, Debug)]
pub struct RSyncPlaylistItem {
    pub collaborative: bool,
    pub description: Option<String>,
    pub url: String,
    pub id: PlaylistIdWrapper,
    pub name: String,
    pub owned: bool,
    pub public: bool,
    pub tracks: u32,
    pub provider: RSyncPlaylistItemProviderData,
}

/// A song of either provider.
#[derive(Clone, Debug)]
pub struct RSyncSong {
    pub artists: String,
    pub url: String,
    pub id: String,
    pub name: String,
    pub provider: RSyncSongProviderData,
}

/// What a playlist selector made of a key press.
#[derive(Debug)]
pub enum SelectorKeyEventResponse {
    Selected(PlaylistIdWrapper),
    Refresh,
    Nothing,
    Pass,
}

} // verus!
