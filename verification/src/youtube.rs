//! The decisions taken while resolving a YouTube video to a stream URL.
//! Between them the caller fetches: the watch page, then (after decoding
//! the player configuration that the page embeds) the player script, then
//! the stream itself.

use vstd::prelude::*;
use crate::dom::{html_document, page_scripts, script_texts};
use crate::signature::{SigAction, actions_apply, apply_actions, apply_signature, signature_applies};
use crate::text::{
    chars_of, contains, contains_spec, find, first_occurrence, is_first_occurrence,
    lemma_first_occurrence_unique,
    occurs_at, split_char, split_spec, string_of, trim, trim_spec,
};
use crate::tokens::{tokens_spec, try_extract_tokens};
use vstd::utf8::{
    encode_utf8, encode_utf8_valid_utf8, is_char_boundary, is_char_boundary_iff_is_leading_byte,
    is_char_boundary_start_end_of_seq,
};

verus! {

/// What precedes the player configuration in the page's script.
pub const PLAYER_CONFIG_MARKER: &'static str = "ytplayer.config = ";

/// The watch page of a video, without its id.
pub const WATCH_URL_PREFIX: &'static str = "https://www.youtube.com/watch?v=";

/// Scheme given to the protocol-relative address of the player script.
pub const ASSETS_SCHEME: &'static str = "http:";

/// Key of the stream address in a format description.
pub const URL_KEY: &'static str = "url";

/// Key of the enciphered signature in a format description.
pub const SIGNATURE_KEY: &'static str = "s";

/// Query parameter that carries the deciphered signature.
pub const SIGNATURE_PARAM: &'static str = "&signature=";

/// Marker of a stream address that is exempt from rate limiting.
pub const RATEBYPASS: &'static str = "ratebypass";

/// Query parameter that asks for the exemption.
pub const RATEBYPASS_PARAM: &'static str = "&ratebypass=yes";

/// Why a video could not be resolved.
#[derive(Debug, Clone, Copy, PartialEq, Eq)]
pub enum YoutubeError {
    /// No script of the watch page holds the player configuration.
    NoPlayerConfig,
    /// The configuration lists no stream formats.
    NoFormats,
    /// The chosen format has no stream address.
    NoStreamUrl,
    /// The signature cipher could not be read from the player script.
    NoSignatureCipher,
    /// The cipher does not apply to the format's signature.
    SignatureMismatch,
}

/// The fields of the player configuration that the resolution reads.
pub struct PlayerConfig {
    /// `args.title`.
    pub title: String,
    /// `args.url_encoded_fmt_stream_map`, a comma-separated list of formats.
    pub url_encoded_fmt_stream_map: Option<String>,
    /// `args.adaptive_fmts`, a comma-separated list of formats.
    pub adaptive_fmts: Option<String>,
    /// `assets.js`, the protocol-relative address of the player script.
    pub assets_js: String,
}

/// The address of the watch page of video `id` (surrounding white space
/// removed).
pub fn watch_url(id: &str) -> (r: String)
    ensures
        r@ == WATCH_URL_PREFIX@ + trim_spec(id@),
{
    let mut r = String::from_str(WATCH_URL_PREFIX);
    let id = trim(id);
    r.append(id.as_str());
    r
}

/// The text after the marker in the first script that holds it.
pub open spec fn player_config_spec(scripts: Seq<Seq<char>>) -> Option<Seq<char>>
    decreases scripts.len(),
{
    if scripts.len() == 0 {
        None
    } else if contains_spec(scripts[0], PLAYER_CONFIG_MARKER@) {
        Some(
            scripts[0].skip(
                first_occurrence(scripts[0], PLAYER_CONFIG_MARKER@) + PLAYER_CONFIG_MARKER@.len(),
            ),
        )
    } else {
        player_config_spec(scripts.drop_first())
    }
}

/// The text after the marker in the first script that holds it.
pub fn find_player_config(scripts: &Vec<String>) -> (r: Option<String>)
    ensures
        r.deep_view() == player_config_spec(scripts.deep_view()),
{
    let marker = chars_of(PLAYER_CONFIG_MARKER);
    assert(scripts.deep_view().skip(0) =~= scripts.deep_view());
    let mut i: usize = 0;
    while i < scripts.len()
        invariant
            i <= scripts.len(),
            marker@ == PLAYER_CONFIG_MARKER@,
            player_config_spec(scripts.deep_view()) == player_config_spec(
                scripts.deep_view().skip(i as int),
            ),
        decreases scripts.len() - i,
    {
        let ghost rest = scripts.deep_view().skip(i as int);
        assert(rest[0] == scripts[i as int]@);
        let text = chars_of(scripts[i].as_str());
        match find(&text, &marker) {
            Some(at) => {
                proof {
                    lemma_first_occurrence_unique(text@, marker@, at as int);
                }
                assert(occurs_at(text@, marker@, at as int));
                let text_len = text.len();
                assert(at + marker@.len() <= text_len);
                let from: usize = at + marker.len();
                let mut after: Vec<char> = Vec::new();
                let mut k: usize = from;
                while k < text.len()
                    invariant
                        from <= k <= text.len(),
                        after@ == text@.subrange(from as int, k as int),
                    decreases text.len() - k,
                {
                    after.push(text[k]);
                    k = k + 1;
                    assert(after@ =~= text@.subrange(from as int, k as int));
                }
                assert(text@.subrange(from as int, text.len() as int) =~= text@.skip(from as int));
                return Some(string_of(&after));
            },
            None => {
                assert(rest.drop_first() =~= scripts.deep_view().skip(i + 1));
            },
        }
        i = i + 1;
    }
    None
}

/// The player configuration text embedded in a watch page.
pub fn player_config_text(html: &str) -> (r: Result<String, YoutubeError>)
    ensures
        match player_config_spec(script_texts(html_document(html@))) {
            Some(t) => r matches Ok(c) && c@ == t,
            None => r == Err::<String, YoutubeError>(YoutubeError::NoPlayerConfig),
        },
{
    let scripts = page_scripts(html);
    match find_player_config(&scripts) {
        Some(t) => Ok(t),
        None => Err(YoutubeError::NoPlayerConfig),
    }
}

/// The format descriptions of a configuration: those of
/// `url_encoded_fmt_stream_map`, then those of `adaptive_fmts`.
pub open spec fn format_entries_spec(
    stream_map: Option<Seq<char>>,
    adaptive: Option<Seq<char>>,
) -> Seq<Seq<char>> {
    (match stream_map {
        Some(m) => split_spec(m, ','),
        None => Seq::<Seq<char>>::empty(),
    }) + (match adaptive {
        Some(a) => split_spec(a, ','),
        None => Seq::<Seq<char>>::empty(),
    })
}

/// The format descriptions of a configuration.
pub fn format_entries(config: &PlayerConfig) -> (r: Vec<String>)
    ensures
        r.deep_view() == format_entries_spec(
            config.url_encoded_fmt_stream_map.deep_view(),
            config.adaptive_fmts.deep_view(),
        ),
{
    let mut r: Vec<String> = Vec::new();
    match &config.url_encoded_fmt_stream_map {
        Some(m) => {
            r = split_char(m.as_str(), ',');
        },
        None => {},
    }
    let ghost first = r.deep_view();
    match &config.adaptive_fmts {
        Some(a) => {
            let mut more = split_char(a.as_str(), ',');
            let ghost more_view = more.deep_view();
            let mut i: usize = 0;
            while i < more.len()
                invariant
                    i <= more.len(),
                    more.deep_view() == more_view,
                    r.deep_view() == first + more_view.take(i as int),
                decreases more.len() - i,
            {
                assert(more.deep_view()[i as int] == more[i as int]@);
                let ghost prev = r.deep_view();
                r.push(more[i].clone());
                assert(r.deep_view() =~= prev.push(more_view[i as int]));
                i = i + 1;
                assert(r.deep_view() =~= first + more_view.take(i as int));
            }
            assert(more_view.take(more.len() as int) =~= more_view);
        },
        None => {
            assert(r.deep_view() =~= first + Seq::<Seq<char>>::empty());
        },
    }
    r
}

/// The address of the player script.
pub fn assets_url(config: &PlayerConfig) -> (r: String)
    ensures
        r@ == ASSETS_SCHEME@ + config.assets_js@,
{
    let mut r = String::from_str(ASSETS_SCHEME);
    r.append(config.assets_js.as_str());
    r
}

/// The name-value pairs that `form_urlencoded::parse` decodes from `input`.
pub uninterp spec fn form_urlencoded_pairs(input: Seq<char>) -> Seq<(Seq<char>, Seq<char>)>;

/// `url::form_urlencoded::parse` on the bytes of `input`, each pair made
/// owned; the contract claims only the named result.
#[verifier::external_body]
pub(crate) fn parse_format(input: &str) -> (r: Vec<(String, String)>)
    ensures
        r.deep_view() == form_urlencoded_pairs(input@),
{
    url::form_urlencoded::parse(input.as_bytes()).map(|(k, v)| (k.into_owned(), v.into_owned())).collect()
}

/// The value of the first pair named `key`.
pub open spec fn fmt_key_spec(key: Seq<char>, of: Seq<(Seq<char>, Seq<char>)>) -> Option<Seq<char>>
    decreases of.len(),
{
    if of.len() == 0 {
        None
    } else if of[0].0 == key {
        Some(of[0].1)
    } else {
        fmt_key_spec(key, of.drop_first())
    }
}

/// The value of the first pair named `key`.
pub fn fmt_key(key: &str, of: &Vec<(String, String)>) -> (r: Option<String>)
    ensures
        r.deep_view() == fmt_key_spec(key@, of.deep_view()),
{
    let wanted = String::from_str(key);
    assert(of.deep_view().skip(0) =~= of.deep_view());
    let mut i: usize = 0;
    while i < of.len()
        invariant
            i <= of.len(),
            wanted@ == key@,
            fmt_key_spec(key@, of.deep_view()) == fmt_key_spec(key@, of.deep_view().skip(i as int)),
        decreases of.len() - i,
    {
        let ghost rest = of.deep_view().skip(i as int);
        assert(rest[0] == of[i as int].deep_view());
        if of[i].0 == wanted {
            return Some(of[i].1.clone());
        }
        assert(rest.drop_first() =~= of.deep_view().skip(i + 1));
        i = i + 1;
    }
    None
}

/// The value found for `key` belongs to the first pair named `key`; when
/// nothing is found, no pair is named `key`.
pub proof fn lemma_fmt_key_first_pair(key: Seq<char>, of: Seq<(Seq<char>, Seq<char>)>)
    ensures
        fmt_key_spec(key, of) matches Some(v) ==> exists|i: int|
            0 <= i < of.len() && of[i] == (key, v) && forall|j: int|
                0 <= j < i ==> (#[trigger] of[j]).0 != key,
        fmt_key_spec(key, of) is None ==> forall|j: int| 0 <= j < of.len() ==> (#[trigger] of[j]).0
            != key,
    decreases of.len(),
{
    if of.len() > 0 {
        let rest = of.drop_first();
        lemma_fmt_key_first_pair(key, rest);
        if of[0].0 == key {
            assert(of[0] == (key, of[0].1));
        } else {
            if let Some(v) = fmt_key_spec(key, of) {
                let i = choose|i: int|
                    0 <= i < rest.len() && rest[i] == (key, v) && forall|j: int|
                        0 <= j < i ==> (#[trigger] rest[j]).0 != key;
                assert(of[i + 1] == rest[i]);
                assert forall|j: int| 0 <= j < i + 1 implies (#[trigger] of[j]).0 != key by {
                    if j > 0 {
                        assert(of[j] == rest[j - 1]);
                    }
                }
            } else {
                assert forall|j: int| 0 <= j < of.len() implies (#[trigger] of[j]).0 != key by {
                    if j > 0 {
                        assert(of[j] == rest[j - 1]);
                    }
                }
            }
        }
    }
}

/// The description of the format that is streamed: the last one listed.
pub open spec fn stream_format_spec(
    stream_map: Option<Seq<char>>,
    adaptive: Option<Seq<char>>,
) -> Option<Seq<(Seq<char>, Seq<char>)>> {
    let entries = format_entries_spec(stream_map, adaptive);
    if entries.len() == 0 {
        None
    } else {
        Some(form_urlencoded_pairs(entries.last()))
    }
}

/// The decoded description of the format that is streamed, the last one
/// the configuration lists.
pub fn stream_format(config: &PlayerConfig) -> (r: Result<Vec<(String, String)>, YoutubeError>)
    ensures
        match stream_format_spec(
            config.url_encoded_fmt_stream_map.deep_view(),
            config.adaptive_fmts.deep_view(),
        ) {
            Some(f) => r matches Ok(v) && v.deep_view() == f,
            None => r == Err::<Vec<(String, String)>, YoutubeError>(YoutubeError::NoFormats),
        },
{
    let entries = format_entries(config);
    if entries.len() == 0 {
        return Err(YoutubeError::NoFormats);
    }
    let last = &entries[entries.len() - 1];
    assert(entries.deep_view().last() == last@);
    Ok(parse_format(last.as_str()))
}

/// `url` followed by the rate-limit exemption unless it already mentions it.
pub open spec fn with_ratebypass(url: Seq<char>) -> Seq<char> {
    if contains_spec(url, RATEBYPASS@) {
        url
    } else {
        url + RATEBYPASS_PARAM@
    }
}

/// The stream address of a format: its `url`, followed, when the format
/// carries an enciphered signature `s`, by the signature deciphered with the
/// cipher read from the player script, followed by the rate-limit exemption
/// unless the address already mentions it.
pub open spec fn stream_url_spec(
    format: Seq<(Seq<char>, Seq<char>)>,
    player_js: Seq<char>,
) -> Result<Seq<char>, YoutubeError> {
    match fmt_key_spec(URL_KEY@, format) {
        None => Err(YoutubeError::NoStreamUrl),
        Some(url) => {
            let signed = match fmt_key_spec(SIGNATURE_KEY@, format) {
                None => Ok(url),
                Some(sig) => match tokens_spec(player_js) {
                    None => Err(YoutubeError::NoSignatureCipher),
                    Some(actions) => if actions_apply(sig, actions) {
                        Ok(url + SIGNATURE_PARAM@ + apply_actions(sig, actions))
                    } else {
                        Err(YoutubeError::SignatureMismatch)
                    },
                },
            };
            match signed {
                Ok(u) => Ok(with_ratebypass(u)),
                Err(e) => Err(e),
            }
        },
    }
}

/// The stream address of a format, given the player script.
pub fn stream_url(format: &Vec<(String, String)>, player_js: &str) -> (r: Result<
    String,
    YoutubeError,
>)
    ensures
        match stream_url_spec(format.deep_view(), player_js@) {
            Ok(u) => r matches Ok(s) && s@ == u,
            Err(e) => r == Err::<String, YoutubeError>(e),
        },
{
    let mut url = match fmt_key(URL_KEY, format) {
        Some(u) => u,
        None => {
            return Err(YoutubeError::NoStreamUrl);
        },
    };
    match fmt_key(SIGNATURE_KEY, format) {
        Some(sig) => {
            let actions = match try_extract_tokens(player_js) {
                Some(a) => a,
                None => {
                    return Err(YoutubeError::NoSignatureCipher);
                },
            };
            if !signature_applies(sig.as_str(), &actions) {
                return Err(YoutubeError::SignatureMismatch);
            }
            let deciphered = apply_signature(sig.as_str(), actions);
            url.append(SIGNATURE_PARAM);
            url.append(deciphered.as_str());
        },
        None => {},
    }
    if !contains(url.as_str(), RATEBYPASS) {
        url.append(RATEBYPASS_PARAM);
    }
    Ok(url)
}

/// The bytes `line - 1 .. column - 1` of the configuration text lie within
/// it and start and end on character boundaries (the text is cut there when
/// the JSON parser reports trailing characters at `line`, `column`).
pub open spec fn retry_range_ok(bytes: Seq<u8>, line: int, column: int) -> bool {
    &&& 1 <= line <= column
    &&& column - 1 <= bytes.len()
    &&& is_char_boundary(bytes, line - 1)
    &&& is_char_boundary(bytes, column - 1)
}

/// The part of the configuration text to parse again after the JSON parser
/// reported trailing characters at `line`, `column`: its bytes from
/// `line - 1` up to `column - 1`. `None` when that range does not lie within
/// the text on character boundaries.
pub fn config_retry_text(head: &str, line: usize, column: usize) -> (r: Option<String>)
    ensures
        r is Some <==> retry_range_ok(encode_utf8(head@), line as int, column as int),
        r matches Some(t) ==> encode_utf8(t@) == encode_utf8(head@).subrange(
            line - 1,
            column - 1,
        ),
{
    let ghost bytes = encode_utf8(head@);
    proof {
        encode_utf8_valid_utf8(head@);
        is_char_boundary_start_end_of_seq(bytes);
    }
    if line == 0 || column == 0 || line > column {
        return None;
    }
    let start = line - 1;
    let end = column - 1;
    let start_ok = head.is_char_boundary(start);
    let end_ok = head.is_char_boundary(end);
    if !start_ok || !end_ok {
        return None;
    }
    let (prefix, _) = head.split_at(end);
    let ghost pb = bytes.subrange(0, end as int);
    assert(encode_utf8(prefix@) == pb);
    proof {
        encode_utf8_valid_utf8(prefix@);
        is_char_boundary_start_end_of_seq(pb);
        if start < end {
            is_char_boundary_iff_is_leading_byte(bytes, start as int);
            is_char_boundary_iff_is_leading_byte(pb, start as int);
            assert(pb[start as int] == bytes[start as int]);
        }
    }
    let (_, middle) = prefix.split_at(start);
    assert(encode_utf8(middle@) =~= bytes.subrange(start as int, end as int));
    Some(middle.to_owned())
}

/// An address with the exemption added mentions it.
proof fn lemma_with_ratebypass(url: Seq<char>)
    ensures
        contains_spec(with_ratebypass(url), RATEBYPASS@),
{
    reveal_strlit("ratebypass");
    reveal_strlit("&ratebypass=yes");
    if !contains_spec(url, RATEBYPASS@) {
        let u = url + RATEBYPASS_PARAM@;
        let at: int = url.len() as int + 1;
        assert(u.subrange(at, at + RATEBYPASS@.len()) =~= RATEBYPASS@);
        assert(occurs_at(u, RATEBYPASS@, at));
    }
}

/// Every stream address asks for the rate-limit exemption or already
/// mentions it.
pub proof fn lemma_stream_url_mentions_ratebypass(
    format: Seq<(Seq<char>, Seq<char>)>,
    player_js: Seq<char>,
)
    ensures
        stream_url_spec(format, player_js) matches Ok(u) ==> contains_spec(u, RATEBYPASS@),
{
    assert forall|url: Seq<char>| contains_spec(#[trigger] with_ratebypass(url), RATEBYPASS@) by {
        lemma_with_ratebypass(url);
    }
}

/// When the format names a stream address and an enciphered signature and
/// the cipher read from the player script applies to it, the stream
/// address is the format's address, then `&signature=` and the deciphered
/// signature, then possibly the rate-limit exemption; nothing else.
pub proof fn lemma_stream_url_carries_signature(
    format: Seq<(Seq<char>, Seq<char>)>,
    player_js: Seq<char>,
    url: Seq<char>,
    sig: Seq<char>,
    actions: Seq<SigAction>,
)
    requires
        fmt_key_spec(URL_KEY@, format) == Some(url),
        fmt_key_spec(SIGNATURE_KEY@, format) == Some(sig),
        tokens_spec(player_js) == Some(actions),
        actions_apply(sig, actions),
    ensures
        stream_url_spec(format, player_js) matches Ok(u) && (u == url + SIGNATURE_PARAM@
            + apply_actions(sig, actions) || u == url + SIGNATURE_PARAM@ + apply_actions(
            sig,
            actions,
        ) + RATEBYPASS_PARAM@),
{
}

/// Without an enciphered signature the stream address is the format's
/// address, possibly followed by the rate-limit exemption.
pub proof fn lemma_stream_url_unsigned(
    format: Seq<(Seq<char>, Seq<char>)>,
    player_js: Seq<char>,
    url: Seq<char>,
)
    requires
        fmt_key_spec(URL_KEY@, format) == Some(url),
        fmt_key_spec(SIGNATURE_KEY@, format) is None,
    ensures
        stream_url_spec(format, player_js) matches Ok(u) && (u == url || u == url
            + RATEBYPASS_PARAM@),
{
}

/// Without a stream address there is no stream.
pub proof fn lemma_stream_url_needs_address(
    format: Seq<(Seq<char>, Seq<char>)>,
    player_js: Seq<char>,
)
    requires
        fmt_key_spec(URL_KEY@, format) is None,
    ensures
        stream_url_spec(format, player_js) == Err::<Seq<char>, YoutubeError>(
            YoutubeError::NoStreamUrl,
        ),
{
}

/// The configuration is taken from the first script that holds the marker:
/// it is the text of that script after the first occurrence of the marker.
pub proof fn lemma_player_config_from_first_marked(scripts: Seq<Seq<char>>, k: int, at: int)
    requires
        0 <= k < scripts.len(),
        forall|j: int| 0 <= j < k ==> !contains_spec(#[trigger] scripts[j], PLAYER_CONFIG_MARKER@),
        is_first_occurrence(scripts[k], PLAYER_CONFIG_MARKER@, at),
    ensures
        player_config_spec(scripts) == Some(scripts[k].skip(at + PLAYER_CONFIG_MARKER@.len())),
    decreases k,
{
    if k == 0 {
        assert(occurs_at(scripts[0], PLAYER_CONFIG_MARKER@, at));
        assert(contains_spec(scripts[0], PLAYER_CONFIG_MARKER@));
        lemma_first_occurrence_unique(scripts[0], PLAYER_CONFIG_MARKER@, at);
    } else {
        assert(!contains_spec(scripts[0], PLAYER_CONFIG_MARKER@));
        let rest = scripts.drop_first();
        assert forall|j: int| 0 <= j < k - 1 implies !contains_spec(
            #[trigger] rest[j],
            PLAYER_CONFIG_MARKER@,
        ) by {
            assert(rest[j] == scripts[j + 1]);
        }
        assert(rest[k - 1] == scripts[k]);
        lemma_player_config_from_first_marked(rest, k - 1, at);
    }
}

/// When no script holds the marker there is no configuration.
pub proof fn lemma_player_config_absent(scripts: Seq<Seq<char>>)
    requires
        forall|j: int|
            0 <= j < scripts.len() ==> !contains_spec(#[trigger] scripts[j], PLAYER_CONFIG_MARKER@),
    ensures
        player_config_spec(scripts) is None,
    decreases scripts.len(),
{
    if scripts.len() > 0 {
        assert(!contains_spec(scripts[0], PLAYER_CONFIG_MARKER@));
        let rest = scripts.drop_first();
        assert forall|j: int| 0 <= j < rest.len() implies !contains_spec(
            #[trigger] rest[j],
            PLAYER_CONFIG_MARKER@,
        ) by {
            assert(rest[j] == scripts[j + 1]);
        }
        lemma_player_config_absent(rest);
    }
}

} // verus!
