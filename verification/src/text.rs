//! Verified text utilities over `char` sequences: splitting, searching,
//! trimming, joining and decimal parsing, each with the meaning that the
//! corresponding `str` method has.

use vstd::prelude::*;

verus! {

/// The characters of `s`, in order.
pub fn chars_of(s: &str) -> (v: Vec<char>)
    ensures
        v@ == s@,
{
    let mut v: Vec<char> = Vec::new();
    for c in it: s.chars()
        invariant
            it.seq() == s@,
            v@ == it.seq().take(it.index() as int),
    {
        v.push(c);
    }
    v
}

/// Collects characters into a `String` (`Iterator::collect`); the string
/// holds exactly the given characters, in order.
#[verifier::external_body]
pub(crate) fn string_of(chars: &Vec<char>) -> (s: String)
    ensures
        s@ == chars@,
{
    chars.iter().collect()
}

/// Pieces of `s` between occurrences of `sep`, as `str::split` with a `char`
/// pattern yields them: `n` separators give `n + 1` pieces, possibly empty.
pub open spec fn split_spec(s: Seq<char>, sep: char) -> Seq<Seq<char>>
    decreases s.len(),
{
    if s.len() == 0 {
        seq![Seq::<char>::empty()]
    } else {
        let prev = split_spec(s.drop_last(), sep);
        if s.last() == sep {
            prev.push(Seq::<char>::empty())
        } else {
            prev.update(prev.len() - 1, prev.last().push(s.last()))
        }
    }
}

/// The pieces of `list` with `sep` between each two neighbours.
pub open spec fn join_spec(list: Seq<Seq<char>>, sep: Seq<char>) -> Seq<char>
    decreases list.len(),
{
    if list.len() == 0 {
        Seq::<char>::empty()
    } else if list.len() == 1 {
        list[0]
    } else {
        join_spec(list.drop_last(), sep) + sep + list.last()
    }
}

/// `split_spec` never yields an empty list of pieces.
pub proof fn lemma_split_nonempty(s: Seq<char>, sep: char)
    ensures
        split_spec(s, sep).len() >= 1,
    decreases s.len(),
{
    if s.len() > 0 {
        lemma_split_nonempty(s.drop_last(), sep);
    }
}

/// Splits `s` at every `sep`.
pub fn split_char(s: &str, sep: char) -> (pieces: Vec<String>)
    ensures
        pieces.deep_view() == split_spec(s@, sep),
{
    let chars = chars_of(s);
    let mut pieces: Vec<String> = Vec::new();
    let mut cur: Vec<char> = Vec::new();
    let mut i: usize = 0;
    while i < chars.len()
        invariant
            chars@ == s@,
            i <= chars.len(),
            pieces.deep_view().push(cur@) == split_spec(s@.take(i as int), sep),
        decreases chars.len() - i,
    {
        let c = chars[i];
        proof {
            assert(s@.take(i + 1).drop_last() == s@.take(i as int));
            lemma_split_nonempty(s@.take(i as int), sep);
        }
        if c == sep {
            let piece = string_of(&cur);
            pieces.push(piece);
            cur = Vec::new();
        } else {
            cur.push(c);
        }
        i = i + 1;
        assert(pieces.deep_view().push(cur@) =~= split_spec(s@.take(i as int), sep));
    }
    assert(s@.take(chars.len() as int) == s@);
    let last = string_of(&cur);
    pieces.push(last);
    assert(pieces.deep_view() =~= split_spec(s@, sep));
    pieces
}

/// Appending a character to the last piece appends it to the joined text.
proof fn lemma_join_extend_last(list: Seq<Seq<char>>, sep: Seq<char>, c: char)
    requires
        list.len() >= 1,
    ensures
        join_spec(list.update(list.len() - 1, list.last().push(c)), sep)
            == join_spec(list, sep).push(c),
    decreases list.len(),
{
    let upd = list.update(list.len() - 1, list.last().push(c));
    if list.len() > 1 {
        assert(upd.drop_last() =~= list.drop_last());
        assert(upd.last() == list.last().push(c));
        assert(join_spec(upd, sep) == join_spec(list.drop_last(), sep) + sep + list.last().push(c));
        assert((join_spec(list.drop_last(), sep) + sep + list.last()).push(c)
            =~= join_spec(list.drop_last(), sep) + sep + list.last().push(c));
    }
}

/// Joining the pieces of a split with the separator gives back the text.
pub proof fn lemma_join_split(s: Seq<char>, sep: char)
    ensures
        join_spec(split_spec(s, sep), seq![sep]) == s,
    decreases s.len(),
{
    if s.len() > 0 {
        let prev = split_spec(s.drop_last(), sep);
        lemma_join_split(s.drop_last(), sep);
        lemma_split_nonempty(s.drop_last(), sep);
        if s.last() == sep {
            let l = prev.push(Seq::<char>::empty());
            assert(l.drop_last() =~= prev);
            assert(join_spec(l, seq![sep]) == join_spec(prev, seq![sep]) + seq![sep]
                + Seq::<char>::empty());
            assert(s =~= s.drop_last() + seq![sep] + Seq::<char>::empty());
        } else {
            lemma_join_extend_last(prev, seq![sep], s.last());
            assert(s =~= s.drop_last().push(s.last()));
        }
    }
}

/// No piece of a split holds the separator.
pub proof fn lemma_split_pieces_free_of_sep(s: Seq<char>, sep: char)
    ensures
        forall|k: int, j: int|
            0 <= k < split_spec(s, sep).len() && 0 <= j < split_spec(s, sep)[k].len()
                ==> split_spec(s, sep)[k][j] != sep,
    decreases s.len(),
{
    if s.len() > 0 {
        lemma_split_pieces_free_of_sep(s.drop_last(), sep);
        lemma_split_nonempty(s.drop_last(), sep);
        let prev = split_spec(s.drop_last(), sep);
        if s.last() != sep {
            let l = prev.update(prev.len() - 1, prev.last().push(s.last()));
            assert forall|k: int, j: int| 0 <= k < l.len() && 0 <= j < l[k].len() implies l[k][j]
                != sep by {
                if k == prev.len() - 1 && j == prev.last().len() {
                } else {
                    assert(l[k][j] == prev[k][j]);
                }
            }
        }
    }
}

/// `needle` occurs in `hay` starting at character index `i`.
pub open spec fn occurs_at(hay: Seq<char>, needle: Seq<char>, i: int) -> bool {
    0 <= i && i + needle.len() <= hay.len() && hay.subrange(i, i + needle.len()) == needle
}

/// `i` is where `needle` first occurs in `hay`.
pub open spec fn is_first_occurrence(hay: Seq<char>, needle: Seq<char>, i: int) -> bool {
    occurs_at(hay, needle, i) && forall|j: int| 0 <= j < i ==> !occurs_at(hay, needle, j)
}

/// `needle` occurs somewhere in `hay` (`str::contains`).
pub open spec fn contains_spec(hay: Seq<char>, needle: Seq<char>) -> bool {
    exists|i: int| occurs_at(hay, needle, i)
}

/// Where `needle` first occurs in `hay`; meaningful when it occurs.
pub open spec fn first_occurrence(hay: Seq<char>, needle: Seq<char>) -> int {
    choose|i: int| is_first_occurrence(hay, needle, i)
}

/// The first occurrence is the only index that is a first occurrence.
pub proof fn lemma_first_occurrence_unique(hay: Seq<char>, needle: Seq<char>, i: int)
    requires
        is_first_occurrence(hay, needle, i),
    ensures
        first_occurrence(hay, needle) == i,
{
    let k = first_occurrence(hay, needle);
    assert(is_first_occurrence(hay, needle, k));
    if k < i {
        assert(!occurs_at(hay, needle, k));
    } else if i < k {
        assert(!occurs_at(hay, needle, i));
    }
}

/// Whether `needle` occurs in `hay`.
pub fn contains(hay: &str, needle: &str) -> (r: bool)
    ensures
        r == contains_spec(hay@, needle@),
{
    let h = chars_of(hay);
    let n = chars_of(needle);
    match find(&h, &n) {
        Some(_) => true,
        None => false,
    }
}

/// The character index of the first occurrence of `needle` in `hay`, as
/// `str::find` locates it (counted in characters rather than bytes).
pub fn find(hay: &Vec<char>, needle: &Vec<char>) -> (r: Option<usize>)
    ensures
        r matches Some(i) ==> occurs_at(hay@, needle@, i as int) && forall|j: int|
            0 <= j < i ==> !occurs_at(hay@, needle@, j),
        r is None ==> forall|j: int| !occurs_at(hay@, needle@, j),
{
    if needle.len() > hay.len() {
        return None;
    }
    let last = hay.len() - needle.len();
    let mut i: usize = 0;
    while i <= last
        invariant
            last == hay.len() - needle.len(),
            i <= last + 1,
            forall|j: int| 0 <= j < i ==> !occurs_at(hay@, needle@, j),
        decreases last + 1 - i,
    {
        let mut k: usize = 0;
        let mut same = true;
        while k < needle.len()
            invariant
                i <= last,
                last == hay.len() - needle.len(),
                k <= needle.len(),
                same == (forall|m: int| 0 <= m < k ==> hay@[i + m] == needle@[m]),
            decreases needle.len() - k,
        {
            if hay[i + k] != needle[k] {
                same = false;
            }
            k = k + 1;
        }
        if same {
            assert(hay@.subrange(i as int, i + needle.len()) =~= needle@);
            return Some(i);
        }
        assert(!occurs_at(hay@, needle@, i as int)) by {
            let m = choose|m: int| 0 <= m < needle.len() && hay@[i + m] != needle@[m];
            if occurs_at(hay@, needle@, i as int) {
                assert(hay@.subrange(i as int, i + needle.len())[m] == hay@[i + m]);
            }
        }
        i = i + 1;
    }
    None
}

/// The characters that `char::is_whitespace` accepts: those with the
/// Unicode `White_Space` property.
pub open spec fn is_whitespace_spec(c: char) -> bool {
    ||| '\u{9}' <= c <= '\u{d}'
    ||| c == ' '
    ||| c == '\u{85}'
    ||| c == '\u{a0}'
    ||| c == '\u{1680}'
    ||| '\u{2000}' <= c <= '\u{200a}'
    ||| c == '\u{2028}'
    ||| c == '\u{2029}'
    ||| c == '\u{202f}'
    ||| c == '\u{205f}'
    ||| c == '\u{3000}'
}

/// Whether `c` is white space, as `char::is_whitespace` decides.
pub fn is_whitespace(c: char) -> (r: bool)
    ensures
        r == is_whitespace_spec(c),
{
    ('\u{9}' <= c && c <= '\u{d}') || c == ' ' || c == '\u{85}' || c == '\u{a0}' || c == '\u{1680}'
        || ('\u{2000}' <= c && c <= '\u{200a}') || c == '\u{2028}' || c == '\u{2029}' || c
        == '\u{202f}' || c == '\u{205f}' || c == '\u{3000}'
}

/// `s` without its leading white space.
pub open spec fn trim_start_spec(s: Seq<char>) -> Seq<char>
    decreases s.len(),
{
    if s.len() > 0 && is_whitespace_spec(s[0]) {
        trim_start_spec(s.drop_first())
    } else {
        s
    }
}

/// `s` without its trailing white space.
pub open spec fn trim_end_spec(s: Seq<char>) -> Seq<char>
    decreases s.len(),
{
    if s.len() > 0 && is_whitespace_spec(s.last()) {
        trim_end_spec(s.drop_last())
    } else {
        s
    }
}

/// `s` without leading and trailing white space, as `str::trim` gives it.
pub open spec fn trim_spec(s: Seq<char>) -> Seq<char> {
    trim_end_spec(trim_start_spec(s))
}

/// Removes leading and trailing white space.
pub fn trim(s: &str) -> (r: String)
    ensures
        r@ == trim_spec(s@),
{
    let chars = chars_of(s);
    let n = chars.len();
    assert(s@.subrange(0, n as int) =~= s@);
    let mut lo: usize = 0;
    while lo < n && is_whitespace(chars[lo])
        invariant
            chars@ == s@,
            n == chars.len(),
            lo <= n,
            trim_start_spec(s@) == trim_start_spec(s@.subrange(lo as int, n as int)),
        decreases n - lo,
    {
        assert(s@.subrange(lo as int, n as int).drop_first() =~= s@.subrange(lo + 1, n as int));
        lo = lo + 1;
    }
    assert(trim_start_spec(s@) == s@.subrange(lo as int, n as int));
    let mut hi: usize = n;
    while hi > lo && is_whitespace(chars[hi - 1])
        invariant
            chars@ == s@,
            n == chars.len(),
            lo <= hi <= n,
            trim_spec(s@) == trim_end_spec(s@.subrange(lo as int, hi as int)),
        decreases hi - lo,
    {
        assert(s@.subrange(lo as int, hi as int).drop_last() =~= s@.subrange(lo as int, hi - 1));
        hi = hi - 1;
    }
    assert(trim_spec(s@) == s@.subrange(lo as int, hi as int));
    let mut out: Vec<char> = Vec::new();
    let mut k: usize = lo;
    while k < hi
        invariant
            chars@ == s@,
            n == chars.len(),
            lo <= k <= hi <= n,
            out@ == s@.subrange(lo as int, k as int),
        decreases hi - k,
    {
        out.push(chars[k]);
        k = k + 1;
        assert(out@ =~= s@.subrange(lo as int, k as int));
    }
    string_of(&out)
}

/// Dropping leading white space from `s + t`: what is left of `s`, then
/// `t`; or, when `s` is all white space, `t` without its leading white space.
proof fn lemma_trim_start_append(s: Seq<char>, t: Seq<char>)
    ensures
        trim_start_spec(s + t) == if trim_start_spec(s).len() > 0 {
            trim_start_spec(s) + t
        } else {
            trim_start_spec(t)
        },
    decreases s.len(),
{
    if s.len() == 0 {
        assert(s + t =~= t);
    } else {
        assert((s + t)[0] == s[0]);
        if is_whitespace_spec(s[0]) {
            assert((s + t).drop_first() =~= s.drop_first() + t);
            lemma_trim_start_append(s.drop_first(), t);
        }
    }
}

/// Trimming drops a leading and a trailing character that has the Unicode
/// `White_Space` property (tab, line feed, vertical tab, form feed,
/// carriage return, space, next line, no-break space, ogham space mark, the
/// spaces U+2000 to U+200A, line and paragraph separator, narrow no-break
/// space, medium mathematical space, ideographic space), as `str::trim`
/// does.
pub proof fn lemma_trim_drops_white_space(c: char, s: Seq<char>)
    requires
        c == '\t' || c == '\n' || c == '\u{b}' || c == '\u{c}' || c == '\r' || c == ' ' || c
            == '\u{85}' || c == '\u{a0}' || c == '\u{1680}' || ('\u{2000}' <= c && c <= '\u{200a}')
            || c == '\u{2028}' || c == '\u{2029}' || c == '\u{202f}' || c == '\u{205f}' || c
            == '\u{3000}',
    ensures
        trim_spec(seq![c] + s) == trim_spec(s),
        trim_spec(s + seq![c]) == trim_spec(s),
{
    assert((seq![c] + s).drop_first() =~= s);
    lemma_trim_start_append(s, seq![c]);
    assert(is_whitespace_spec(c));
    let x = trim_start_spec(s);
    if x.len() > 0 {
        assert((x + seq![c]).last() == c);
        assert((x + seq![c]).drop_last() =~= x);
        assert(trim_end_spec(x + seq![c]) == trim_end_spec(x));
    } else {
        assert(x =~= Seq::<char>::empty());
        assert(seq![c].drop_first() =~= Seq::<char>::empty());
        assert(trim_start_spec(Seq::<char>::empty()) == Seq::<char>::empty());
        assert(trim_start_spec(seq![c]) == Seq::<char>::empty());
    }
}

/// What trimming keeps starts and ends with a character that is not white
/// space, and trimming twice is trimming once.
pub proof fn lemma_trim_ends(s: Seq<char>)
    ensures
        trim_spec(s).len() > 0 ==> !is_whitespace_spec(trim_spec(s)[0]) && !is_whitespace_spec(
            trim_spec(s).last(),
        ),
        trim_spec(trim_spec(s)) == trim_spec(s),
{
    lemma_trim_start_ends(s);
    lemma_trim_end_keeps_start(trim_start_spec(s));
    lemma_trim_end_ends(trim_start_spec(s));
    let t = trim_spec(s);
    if t.len() > 0 {
        assert(trim_start_spec(t) == t);
        lemma_trim_end_fixed(t);
    } else {
        assert(trim_start_spec(t) == t);
    }
}

proof fn lemma_trim_start_ends(s: Seq<char>)
    ensures
        trim_start_spec(s).len() > 0 ==> !is_whitespace_spec(trim_start_spec(s)[0]),
    decreases s.len(),
{
    if s.len() > 0 && is_whitespace_spec(s[0]) {
        lemma_trim_start_ends(s.drop_first());
    }
}

/// Trimming the end keeps a prefix, so a non-white first character stays.
proof fn lemma_trim_end_keeps_start(s: Seq<char>)
    ensures
        trim_end_spec(s).len() <= s.len(),
        forall|i: int| 0 <= i < trim_end_spec(s).len() ==> #[trigger] trim_end_spec(s)[i] == s[i],
    decreases s.len(),
{
    if s.len() > 0 && is_whitespace_spec(s.last()) {
        lemma_trim_end_keeps_start(s.drop_last());
    }
}

proof fn lemma_trim_end_ends(s: Seq<char>)
    ensures
        trim_end_spec(s).len() > 0 ==> !is_whitespace_spec(trim_end_spec(s).last()),
    decreases s.len(),
{
    if s.len() > 0 && is_whitespace_spec(s.last()) {
        lemma_trim_end_ends(s.drop_last());
    }
}

proof fn lemma_trim_end_fixed(t: Seq<char>)
    requires
        t.len() > 0,
        !is_whitespace_spec(t.last()),
    ensures
        trim_end_spec(t) == t,
{
}

/// An ASCII decimal digit.
pub open spec fn is_digit_spec(c: char) -> bool {
    '0' <= c <= '9'
}

/// The number that the decimal digits `d` denote.
pub open spec fn digits_value(d: Seq<char>) -> int
    decreases d.len(),
{
    if d.len() == 0 {
        0
    } else {
        digits_value(d.drop_last()) * 10 + (d.last() as int - '0' as int)
    }
}

/// `d` is a non-empty run of ASCII decimal digits.
pub open spec fn all_digits(d: Seq<char>) -> bool {
    d.len() > 0 && forall|i: int| 0 <= i < d.len() ==> is_digit_spec(#[trigger] d[i])
}

/// What `s.parse::<usize>()` gives: an optional `+`, then ASCII digits whose
/// value fits in `usize`; anything else is an error.
pub open spec fn parse_usize_spec(s: Seq<char>) -> Option<usize> {
    let d = if s.len() > 1 && s[0] == '+' {
        s.drop_first()
    } else {
        s
    };
    if all_digits(d) && digits_value(d) <= usize::MAX {
        Some(digits_value(d) as usize)
    } else {
        None
    }
}

proof fn lemma_digits_value_nonneg(d: Seq<char>)
    requires
        forall|i: int| 0 <= i < d.len() ==> is_digit_spec(#[trigger] d[i]),
    ensures
        digits_value(d) >= 0,
    decreases d.len(),
{
    if d.len() > 0 {
        lemma_digits_value_nonneg(d.drop_last());
    }
}

/// A run of digits denotes at least as much as each of its prefixes.
proof fn lemma_digits_value_prefix(d: Seq<char>, k: int)
    requires
        0 <= k <= d.len(),
        forall|i: int| 0 <= i < d.len() ==> is_digit_spec(#[trigger] d[i]),
    ensures
        digits_value(d.take(k)) <= digits_value(d),
    decreases d.len(),
{
    if k < d.len() {
        lemma_digits_value_prefix(d.drop_last(), k);
        assert(d.drop_last().take(k) =~= d.take(k));
        lemma_digits_value_nonneg(d.drop_last());
    } else {
        assert(d.take(k) =~= d);
    }
}

/// Parses a decimal `usize` as `str::parse::<usize>` does.
pub fn parse_usize(s: &str) -> (r: Option<usize>)
    ensures
        r == parse_usize_spec(s@),
{
    let chars = chars_of(s);
    let n = chars.len();
    let start: usize = if n > 1 && chars[0] == '+' {
        1
    } else {
        0
    };
    let ghost d = if s@.len() > 1 && s@[0] == '+' {
        s@.drop_first()
    } else {
        s@
    };
    assert(d =~= s@.subrange(start as int, n as int));
    assert(parse_usize_spec(s@) == if all_digits(d) && digits_value(d) <= usize::MAX {
        Some(digits_value(d) as usize)
    } else {
        None::<usize>
    });
    if start == n {
        return None;
    }
    let mut value: usize = 0;
    let mut i: usize = start;
    while i < n
        invariant
            chars@ == s@,
            n == chars.len(),
            start <= i <= n,
            d == s@.subrange(start as int, n as int),
            parse_usize_spec(s@) == if all_digits(d) && digits_value(d) <= usize::MAX {
                Some(digits_value(d) as usize)
            } else {
                None::<usize>
            },
            forall|k: int| 0 <= k < i - start ==> is_digit_spec(#[trigger] d[k]),
            value == digits_value(d.take(i - start)),
        decreases n - i,
    {
        let c = chars[i];
        if !('0' <= c && c <= '9') {
            assert(d[i - start] == c);
            assert(!all_digits(d));
            return None;
        }
        let digit = (c as u32 - '0' as u32) as usize;
        assert(d.take(i - start + 1).drop_last() =~= d.take(i - start));
        assert(d.take(i - start + 1).last() == c);
        let ghost next = value * 10 + digit;
        assert(next == digits_value(d.take(i - start + 1)));
        if value > (usize::MAX - digit) / 10 {
            assert(next > usize::MAX) by (nonlinear_arith)
                requires
                    value > (usize::MAX - digit) / 10,
                    next == value * 10 + digit,
                    digit <= 9,
            ;
            proof {
                if all_digits(d) {
                    lemma_digits_value_prefix(d, (i - start + 1) as int);
                    assert(digits_value(d) > usize::MAX);
                }
            }
            return None;
        }
        assert(value * 10 + digit <= usize::MAX) by (nonlinear_arith)
            requires
                value <= (usize::MAX - digit) / 10,
                digit <= 9,
        ;
        value = value * 10 + digit;
        i = i + 1;
    }
    assert(d.take(n - start) =~= d);
    Some(value)
}

/// The pieces of `parts` joined with `sep` between each two of them.
pub fn join(parts: &Vec<String>, sep: &str) -> (r: String)
    ensures
        r@ == join_spec(parts.deep_view(), sep@),
{
    let mut out = String::new();
    let mut i: usize = 0;
    while i < parts.len()
        invariant
            i <= parts.len(),
            out@ == join_spec(parts.deep_view().take(i as int), sep@),
        decreases parts.len() - i,
    {
        let ghost before = out@;
        assert(parts.deep_view().take(i + 1).drop_last() =~= parts.deep_view().take(i as int));
        if i > 0 {
            out.append(sep);
        }
        out.append(parts[i].as_str());
        assert(out@ =~= join_spec(parts.deep_view().take(i + 1), sep@));
        i = i + 1;
    }
    assert(parts.deep_view().take(parts.len() as int) =~= parts.deep_view());
    out
}

} // verus!
