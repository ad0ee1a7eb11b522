//! Song references of the form `service:id`, as the player reads them from
//! its input and as the room watcher prints them.

use vstd::prelude::*;
use crate::text::{
    is_whitespace_spec, lemma_split_nonempty, lemma_trim_drops_white_space, split_char, split_spec, trim, trim_spec,
};

verus! {

/// Separator between the service and the id.
pub const SONG_SEPARATOR: &'static str = ":";

/// The service that is played from SoundCloud; every other one is played
/// from YouTube.
pub const SOUNDCLOUD: &'static str = "soundcloud";

/// Where a song is played from.
#[derive(Debug, Clone, Copy, PartialEq, Eq)]
pub enum Service {
    Soundcloud,
    Youtube,
}

/// The service and id of a song line: the line is trimmed and split at
/// `:`; the first two pieces are the service and the id. `None` when the
/// line has no `:`.
pub open spec fn parse_song_spec(line: Seq<char>) -> Option<(Seq<char>, Seq<char>)> {
    let pieces = split_spec(trim_spec(line), ':');
    if pieces.len() >= 2 {
        Some((pieces[0], pieces[1]))
    } else {
        None
    }
}

/// Reads the service and id of a song line.
pub fn parse_song_line(line: &str) -> (r: Option<(String, String)>)
    ensures
        r.deep_view() == parse_song_spec(line@),
{
    let trimmed = trim(line);
    let pieces = split_char(trimmed.as_str(), ':');
    if pieces.len() >= 2 {
        assert(pieces.deep_view()[0] == pieces[0]@ && pieces.deep_view()[1] == pieces[1]@);
        Some((pieces[0].clone(), pieces[1].clone()))
    } else {
        None
    }
}

/// The service a song's type names.
pub fn service_of(songtype: &str) -> (r: Service)
    ensures
        r == (if songtype@ == SOUNDCLOUD@ {
            Service::Soundcloud
        } else {
            Service::Youtube
        }),
{
    let given = String::from_str(songtype);
    let soundcloud = String::from_str(SOUNDCLOUD);
    if given == soundcloud {
        Service::Soundcloud
    } else {
        Service::Youtube
    }
}

/// The song line of a song: its type, `:`, its id.
pub fn song_line(songtype: &str, id: &str) -> (r: String)
    ensures
        r@ == songtype@ + SONG_SEPARATOR@ + id@,
{
    let mut r = String::from_str(songtype);
    r.append(SONG_SEPARATOR);
    r.append(id);
    r
}

/// Text without `c`.
pub open spec fn free_of(s: Seq<char>, c: char) -> bool {
    forall|i: int| 0 <= i < s.len() ==> s[i] != c
}

/// A text free of the separator is a single piece.
proof fn lemma_split_single(s: Seq<char>, sep: char)
    requires
        free_of(s, sep),
    ensures
        split_spec(s, sep) == seq![s],
    decreases s.len(),
{
    if s.len() > 0 {
        lemma_split_single(s.drop_last(), sep);
        assert(s.drop_last().push(s.last()) =~= s);
        assert(seq![s.drop_last()].update(0, s.drop_last().push(s.last())) =~= seq![s]);
    } else {
        assert(s =~= Seq::<char>::empty());
    }
}

/// Splitting `a`, separator, `b` with `b` free of the separator gives the
/// pieces of `a` followed by `b`.
proof fn lemma_split_then_piece(a: Seq<char>, sep: char, b: Seq<char>)
    requires
        free_of(b, sep),
    ensures
        split_spec(a + seq![sep] + b, sep) == split_spec(a, sep).push(b),
    decreases b.len(),
{
    lemma_split_nonempty(a, sep);
    if b.len() == 0 {
        let s = a + seq![sep] + b;
        assert(s.drop_last() =~= a);
        assert(s.last() == sep);
        assert(b =~= Seq::<char>::empty());
    } else {
        let s = a + seq![sep] + b;
        lemma_split_then_piece(a, sep, b.drop_last());
        assert(s.drop_last() =~= a + seq![sep] + b.drop_last());
        assert(s.last() == b.last());
        let prev = split_spec(a, sep).push(b.drop_last());
        assert(prev.update(prev.len() - 1, prev.last().push(b.last())) =~= split_spec(a, sep).push(
            b,
        )) by {
            assert(b.drop_last().push(b.last()) =~= b);
        }
    }
}

/// Trimming leaves text that starts and ends with non-white-space alone.
proof fn lemma_trim_noop(s: Seq<char>)
    requires
        s.len() > 0,
        !is_whitespace_spec(s[0]),
        !is_whitespace_spec(s.last()),
    ensures
        trim_spec(s) == s,
{
}

/// A song line reads back as the song it was made from, when the type and
/// id hold no `:`, the type does not start and the id does not end with
/// white space, and neither is empty.
pub proof fn lemma_song_line_round_trip(songtype: Seq<char>, id: Seq<char>)
    requires
        free_of(songtype, ':'),
        free_of(id, ':'),
        songtype.len() > 0,
        id.len() > 0,
        !is_whitespace_spec(songtype[0]),
        !is_whitespace_spec(id.last()),
    ensures
        parse_song_spec(songtype + SONG_SEPARATOR@ + id) == Some((songtype, id)),
{
    reveal_strlit(":");
    let line = songtype + SONG_SEPARATOR@ + id;
    assert(SONG_SEPARATOR@ =~= seq![':']);
    assert(line[0] == songtype[0]);
    assert(line.last() == id.last());
    lemma_trim_noop(line);
    lemma_split_single(songtype, ':');
    lemma_split_then_piece(songtype, ':', id);
    assert(split_spec(line, ':') =~= seq![songtype, id]);
}

/// White space (as `char::is_whitespace` has it) around a song line does
/// not change what it reads as.
pub proof fn lemma_song_line_ignores_white_space(before: char, line: Seq<char>, after: char)
    requires
        before == '\t' || before == '\n' || before == '\u{b}' || before == '\u{c}' || before
            == '\r' || before == ' ' || before == '\u{85}' || before == '\u{a0}' || before
            == '\u{1680}' || ('\u{2000}' <= before && before <= '\u{200a}') || before
            == '\u{2028}' || before == '\u{2029}' || before == '\u{202f}' || before == '\u{205f}'
            || before == '\u{3000}',
        after == '\t' || after == '\n' || after == '\u{b}' || after == '\u{c}' || after == '\r'
            || after == ' ' || after == '\u{85}' || after == '\u{a0}' || after == '\u{1680}' || (
        '\u{2000}' <= after && after <= '\u{200a}') || after == '\u{2028}' || after == '\u{2029}'
            || after == '\u{202f}' || after == '\u{205f}' || after == '\u{3000}',
    ensures
        parse_song_spec(seq![before] + line + seq![after]) == parse_song_spec(line),
{
    assert(seq![before] + line + seq![after] =~= seq![before] + (line + seq![after]));
    lemma_trim_drops_white_space(before, line + seq![after]);
    lemma_trim_drops_white_space(after, line);
}

} // verus!
