//! The builders that log in to each music provider.
use vstd::prelude::*;

verus! {

/// Logs in to Spotify; the login itself runs outside the library.
pub struct SpotifyProviderBuilder {}

impl SpotifyProviderBuilder {
    pub fn new() -> (r: SpotifyProviderBuilder) {
        SpotifyProviderBuilder {}
    }
}

/// Logs in to YouTube; the login itself runs outside the library.
pub struct YoutubeProviderBuilder {}

impl YoutubeProviderBuilder {
    pub fn new() -> (r: YoutubeProviderBuilder) {
        YoutubeProviderBuilder {}
    }
}

} // verus!
