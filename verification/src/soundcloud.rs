//! The decisions taken while resolving a SoundCloud track to an MP3 stream:
//! whether the given id is already a track number, where to look it up
//! otherwise, and the API addresses of the track's description and streams.

use vstd::prelude::*;
use crate::pattern::{Pattern, group_text, group_text_at, regex_accepts, regex_captures};
use crate::snitch::SnitchResult;

verus! {

/// A track number: digits only.
pub const TRACK_NUMBER_PATTERN: &'static str = r"^\d+$";

/// A link to a track in the API, as a track page holds it; group 1 is the
/// track number.
pub const TRACK_LINK_PATTERN: &'static str = r"api\.soundcloud\.com/tracks/(\d+)\D";

/// The client id the API is queried with.
pub const CLIENT_ID: &'static str = "c8ce5cbca9160b790311f06638a61037";

/// The track pages, without the track's path.
pub const PAGE_URL_PREFIX: &'static str = "https://soundcloud.com/";

/// The API's tracks, without the track number.
pub const API_TRACKS_PREFIX: &'static str = "https://api.soundcloud.com/tracks/";

/// What follows the track number in the description's address.
pub const INFO_QUERY: &'static str = "?client_id=";

/// What follows the track number in the streams' address.
pub const STREAMS_QUERY: &'static str = "/streams?client_id=";

/// What follows the client id in both addresses.
pub const FORMAT_QUERY: &'static str = "&format=json";

/// Why a track could not be resolved.
#[derive(Debug, Clone, Copy, PartialEq, Eq)]
pub enum SoundcloudError {
    /// A fixed pattern did not compile.
    InvalidPattern,
    /// The link found on the track page has no track number.
    NoTrackNumber,
}

/// Whether `id` is a track number rather than a path: `Err` when the
/// pattern does not compile, else whether it matches.
pub fn is_track_number(id: &str) -> (r: Result<bool, SoundcloudError>)
    ensures
        r is Err <==> !regex_accepts(TRACK_NUMBER_PATTERN@),
        r matches Ok(b) ==> b == regex_captures(TRACK_NUMBER_PATTERN@, id@) is Some,
        r matches Err(e) ==> e == SoundcloudError::InvalidPattern,
{
    match Pattern::new(TRACK_NUMBER_PATTERN) {
        Ok(p) => Ok(p.is_match(id)),
        Err(_) => Err(SoundcloudError::InvalidPattern),
    }
}

/// The pattern of the track links to scan a track page for.
pub fn track_link_pattern() -> (r: Result<Pattern, SoundcloudError>)
    ensures
        r is Ok <==> regex_accepts(TRACK_LINK_PATTERN@),
        r matches Ok(p) ==> p@ == TRACK_LINK_PATTERN@,
        r matches Err(e) ==> e == SoundcloudError::InvalidPattern,
{
    match Pattern::new(TRACK_LINK_PATTERN) {
        Ok(p) => Ok(p),
        Err(_) => Err(SoundcloudError::InvalidPattern),
    }
}

/// The page of the track at path `id`.
pub fn track_page_url(id: &str) -> (r: String)
    ensures
        r@ == PAGE_URL_PREFIX@ + id@,
{
    let mut r = String::from_str(PAGE_URL_PREFIX);
    r.append(id);
    r
}

/// The track number to query: group 1 of the first link found on the track
/// page, or `id` itself when no link was found (or none was looked for).
pub fn resolved_track(id: &str, first_link: Option<&SnitchResult>) -> (r: Result<
    String,
    SoundcloudError,
>)
    ensures
        match first_link {
            None => r matches Ok(t) && t@ == id@,
            Some(link) => match group_text(regex_captures(link@.pattern, link@.value)->0, 1) {
                Some(t) => r matches Ok(s) && s@ == t,
                None => r == Err::<String, SoundcloudError>(SoundcloudError::NoTrackNumber),
            },
        },
{
    match first_link {
        None => Ok(String::from_str(id)),
        Some(link) => {
            let groups = link.snitch();
            match group_text_at(&groups, 1) {
                Some(t) => Ok(t),
                None => Err(SoundcloudError::NoTrackNumber),
            }
        },
    }
}

/// The address of the description of track number `track`.
pub fn track_info_url(track: &str) -> (r: String)
    ensures
        r@ == API_TRACKS_PREFIX@ + track@ + INFO_QUERY@ + CLIENT_ID@ + FORMAT_QUERY@,
{
    let mut r = String::from_str(API_TRACKS_PREFIX);
    r.append(track);
    r.append(INFO_QUERY);
    r.append(CLIENT_ID);
    r.append(FORMAT_QUERY);
    r
}

/// The address of the list of streams of track number `track`.
pub fn track_streams_url(track: &str) -> (r: String)
    ensures
        r@ == API_TRACKS_PREFIX@ + track@ + STREAMS_QUERY@ + CLIENT_ID@ + FORMAT_QUERY@,
{
    let mut r = String::from_str(API_TRACKS_PREFIX);
    r.append(track);
    r.append(STREAMS_QUERY);
    r.append(CLIENT_ID);
    r.append(FORMAT_QUERY);
    r
}

} // verus!
