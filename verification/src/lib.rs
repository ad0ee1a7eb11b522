//! Stream-resolution logic for the `aerial` player: text utilities, the
//! YouTube signature decoder, the HTML script scanner, the incremental
//! regex scanner over byte streams, and the decisions taken while
//! resolving YouTube and SoundCloud tracks.

pub mod text;
pub mod signature;
pub mod pattern;
pub mod tokens;
pub mod dom;
pub mod snitch;
pub mod youtube;
pub mod soundcloud;
pub mod song;
