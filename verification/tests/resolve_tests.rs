use aerial::song::{parse_song_line, service_of, song_line, Service};
use aerial::soundcloud::{
    is_track_number, resolved_track, track_info_url, track_link_pattern, track_page_url,
    track_streams_url, SoundcloudError,
};
use aerial::snitch::{snitch, ReadEvent, SnitchStep};
use aerial::youtube::{
    assets_url, config_retry_text, find_player_config, fmt_key, format_entries,
    player_config_text, stream_format, stream_url, watch_url, PlayerConfig, YoutubeError,
};

const PLAYER_JS: &str = "var Xy={ab:function(a){a.reverse()},\ncd:function(a,b){a.splice(0,b)},\nef:function(a,b){var c=a[0];a[0]=a[b%a.length];a[b]=c}};\nfunction(a){a=a.split(\"\");Xy.ef(a,3);Xy.ab(a,1);Xy.cd(a,2);return a.join(\"\")}";

fn config(map: Option<&str>, adaptive: Option<&str>) -> PlayerConfig {
    PlayerConfig {
        title: "Title".to_string(),
        url_encoded_fmt_stream_map: map.map(|s| s.to_string()),
        adaptive_fmts: adaptive.map(|s| s.to_string()),
        assets_js: "//s.ytimg.com/player.js".to_string(),
    }
}

fn pairs(v: &[(&str, &str)]) -> Vec<(String, String)> {
    v.iter().map(|(a, b)| (a.to_string(), b.to_string())).collect()
}

#[test]
fn watch_and_assets_urls() {
    assert_eq!(watch_url("  abc123\n"), "https://www.youtube.com/watch?v=abc123");
    assert_eq!(assets_url(&config(None, None)), "http://s.ytimg.com/player.js");
}

#[test]
fn player_config_from_page() {
    let html = "<html><script>var x = 1;</script><script>var ytplayer = ytplayer || {};ytplayer.config = {\"args\":{}};</script></html>";
    assert_eq!(player_config_text(html), Ok("{\"args\":{}};".to_string()));
    assert_eq!(player_config_text("<p>nothing</p>"), Err(YoutubeError::NoPlayerConfig));
    let scripts = vec!["a".to_string(), "ytplayer.config = 1 ytplayer.config = 2".to_string()];
    assert_eq!(find_player_config(&scripts), Some("1 ytplayer.config = 2".to_string()));
}

#[test]
fn formats_are_split_and_last_one_streamed() {
    let c = config(Some("url=a&itag=1,url=b"), Some("url=c%2Fd&x=y+z"));
    assert_eq!(format_entries(&c), vec!["url=a&itag=1", "url=b", "url=c%2Fd&x=y+z"]);
    assert_eq!(stream_format(&c), Ok(pairs(&[("url", "c/d"), ("x", "y z")])));
    assert_eq!(stream_format(&config(None, None)), Err(YoutubeError::NoFormats));
    assert_eq!(format_entries(&config(Some(""), None)), vec![""]);
    assert_eq!(stream_format(&config(Some(""), None)), Ok(vec![]));
}

#[test]
fn stream_format_decodes_form_encoding() {
    let c = config(None, Some("a=1&&b=%41+c&d"));
    assert_eq!(stream_format(&c), Ok(pairs(&[("a", "1"), ("b", "A c"), ("d", "")])));
}

#[test]
fn fmt_key_takes_first() {
    let p = pairs(&[("s", "1"), ("url", "u"), ("s", "2")]);
    assert_eq!(fmt_key("s", &p), Some("1".to_string()));
    assert_eq!(fmt_key("url", &p), Some("u".to_string()));
    assert_eq!(fmt_key("x", &p), None);
}

#[test]
fn stream_url_cases() {
    assert_eq!(
        stream_url(&pairs(&[("url", "http://v/x?a=1")]), ""),
        Ok("http://v/x?a=1&ratebypass=yes".to_string())
    );
    assert_eq!(
        stream_url(&pairs(&[("url", "http://v/x?ratebypass=no")]), ""),
        Ok("http://v/x?ratebypass=no".to_string())
    );
    assert_eq!(stream_url(&pairs(&[("itag", "1")]), ""), Err(YoutubeError::NoStreamUrl));
    assert_eq!(
        stream_url(&pairs(&[("url", "u"), ("s", "abcdef")]), "nothing"),
        Err(YoutubeError::NoSignatureCipher)
    );
    assert_eq!(
        stream_url(&pairs(&[("url", "u"), ("s", "abcdef")]), PLAYER_JS),
        Ok("u&signature=acbd&ratebypass=yes".to_string())
    );
    assert_eq!(
        stream_url(&pairs(&[("url", "u"), ("s", "a")]), PLAYER_JS),
        Err(YoutubeError::SignatureMismatch)
    );
}

#[test]
fn config_retry_text_cuts_bytes() {
    assert_eq!(config_retry_text("{\"a\":1};var", 1, 8), Some("{\"a\":1}".to_string()));
    assert_eq!(config_retry_text("abc", 0, 2), None);
    assert_eq!(config_retry_text("abc", 3, 2), None);
    assert_eq!(config_retry_text("abc", 1, 5), None);
    assert_eq!(config_retry_text("é", 1, 2), None);
    assert_eq!(config_retry_text("éa", 1, 3), Some("é".to_string()));
}

#[test]
fn soundcloud_urls_and_ids() {
    assert_eq!(is_track_number("12345"), Ok(true));
    assert_eq!(is_track_number("band/song"), Ok(false));
    assert_eq!(track_page_url("band/song"), "https://soundcloud.com/band/song");
    assert_eq!(
        track_info_url("42"),
        "https://api.soundcloud.com/tracks/42?client_id=c8ce5cbca9160b790311f06638a61037&format=json"
    );
    assert_eq!(
        track_streams_url("42"),
        "https://api.soundcloud.com/tracks/42/streams?client_id=c8ce5cbca9160b790311f06638a61037&format=json"
    );
    assert_eq!(resolved_track("band/song", None), Ok("band/song".to_string()));
}

#[test]
fn soundcloud_track_from_page_link() {
    let mut scanner = snitch(track_link_pattern().unwrap());
    let page = b"<a href=\"https://api.soundcloud.com/tracks/98765/stream\">".to_vec();
    match scanner.step(ReadEvent::Data(page)) {
        SnitchStep::Found(link) => assert_eq!(resolved_track("x", Some(&link)), Ok("98765".to_string())),
        _ => panic!("expected a link"),
    }
    let _ = SoundcloudError::NoTrackNumber;
}

#[test]
fn song_lines() {
    assert_eq!(
        parse_song_line("  youtube:abc:extra \n"),
        Some(("youtube".to_string(), "abc".to_string()))
    );
    assert_eq!(parse_song_line("noseparator"), None);
    assert_eq!(service_of("soundcloud"), Service::Soundcloud);
    assert_eq!(service_of("youtube"), Service::Youtube);
    assert_eq!(service_of("SoundCloud"), Service::Youtube);
}

#[test]
fn law_song_line_round_trip() {
    let line = song_line("youtube", "dQw4w9WgXcQ");
    assert_eq!(line, "youtube:dQw4w9WgXcQ");
    assert_eq!(parse_song_line(&line), Some(("youtube".to_string(), "dQw4w9WgXcQ".to_string())));
}
