//! Finding and replacing text in the schema editor: plain text (optionally ignoring ASCII
//! case) or a regular expression, with matches reported as byte ranges of the text.

use vstd::prelude::*;
use std::ops::Range;
use crate::studio::MFlashStudioApp;
use crate::text::{
    ascii_lower, ascii_lower_char, ascii_upper, chars_of, copy_range, find_from,
    first_occurrence_from, occurs_at, push_all, push_str_chars, string_from,
};

verus! {

fn lower_ascii_char(c: char) -> (r: char)
    ensures
        r == ascii_lower_char(c),
{
    if 'A' <= c && c <= 'Z' {
        let code: u32 = (c as u32) + 32;
        assert(code < 0xD800);
        char_from_ascii_code(code)
    } else {
        c
    }
}

fn char_from_ascii_code(code: u32) -> (r: char)
    requires
        code < 128,
    ensures
        r == code as char,
{
    (code as u8) as char
}

/// The characters of `s` with ASCII capitals turned into small letters.
pub fn ascii_lowercase_chars(s: &str) -> (r: Vec<char>)
    ensures
        r@ == ascii_lower(s@),
{
    let chars = chars_of(s);
    let mut out: Vec<char> = Vec::new();
    let mut i: usize = 0;
    while i < chars.len()
        invariant
            i <= chars.len(),
            chars@ == s@,
            out@ == ascii_lower(s@).take(i as int),
        decreases chars.len() - i,
    {
        out.push(lower_ascii_char(chars[i]));
        i = i + 1;
        assert(out@ =~= ascii_lower(s@).take(i as int));
    }
    assert(out@ =~= ascii_lower(s@));
    out
}

/// The positions where successive non-overlapping occurrences of `needle` start in `hay`,
/// searching from `from` and going on after the end of each occurrence, as repeated
/// `str::find` does. None for an empty needle.
#[verifier::opaque]
pub open spec fn match_positions(hay: Seq<char>, needle: Seq<char>, from: int) -> Seq<int>
    decreases hay.len() + 1 - from,
{
    if needle.len() == 0 || from < 0 || from > hay.len() {
        seq![]
    } else {
        match first_occurrence_from(hay, needle, from) {
            Some(i) => if from <= i && i + needle.len() <= hay.len() {
                seq![i] + match_positions(hay, needle, i + needle.len())
            } else {
                seq![]
            },
            None => seq![],
        }
    }
}

/// The number of bytes that `c` takes in UTF-8.
pub open spec fn utf8_len(c: char) -> nat {
    let u = c as u32;
    if u < 0x80 {
        1
    } else if u < 0x800 {
        2
    } else if u < 0x10000 {
        3
    } else {
        4
    }
}

/// The byte offset in UTF-8 of the character at position `k` of `s`.
pub open spec fn byte_offset(s: Seq<char>, k: int) -> nat
    decreases k,
{
    if k <= 0 {
        0
    } else {
        byte_offset(s, k - 1) + utf8_len(s[k - 1])
    }
}

proof fn lemma_byte_offset_bounds(s: Seq<char>, k: int)
    requires
        0 <= k,
    ensures
        k <= byte_offset(s, k) <= 4 * k,
    decreases k,
{
    if k > 0 {
        lemma_byte_offset_bounds(s, k - 1);
    }
}

proof fn lemma_byte_offset_monotonic(s: Seq<char>, j: int, k: int)
    requires
        0 <= j <= k,
    ensures
        byte_offset(s, j) <= byte_offset(s, k),
    decreases k - j,
{
    if j < k {
        lemma_byte_offset_monotonic(s, j, k - 1);
    }
}

/// The byte ranges of the successive non-overlapping occurrences of `query` in `text`,
/// comparing ASCII letters without case unless `case_sensitive`.
pub open spec fn literal_match_ranges(text: Seq<char>, query: Seq<char>, case_sensitive: bool) -> Seq<
    (nat, nat),
> {
    let hay = if case_sensitive {
        text
    } else {
        ascii_lower(text)
    };
    let needle = if case_sensitive {
        query
    } else {
        ascii_lower(query)
    };
    let starts = match_positions(hay, needle, 0);
    Seq::new(
        starts.len(),
        |i: int| (byte_offset(hay, starts[i]), byte_offset(hay, starts[i] + needle.len())),
    )
}

/// Positions as integers.
pub open spec fn as_ints(v: Seq<usize>) -> Seq<int> {
    v.map_values(|i: usize| i as int)
}

/// The position of each character of `s` in bytes, and the length in bytes at the end.
fn byte_offsets(s: &Vec<char>) -> (r: Vec<usize>)
    requires
        s@.len() < usize::MAX / 4,
    ensures
        r@.len() == s@.len() + 1,
        forall|k: int| 0 <= k <= s@.len() ==> r@[k] == byte_offset(s@, k),
{
    let mut r: Vec<usize> = Vec::new();
    r.push(0);
    let mut total: usize = 0;
    let mut i: usize = 0;
    while i < s.len()
        invariant
            i <= s@.len(),
            s@.len() < usize::MAX / 4,
            r@.len() == i + 1,
            total == byte_offset(s@, i as int),
            forall|k: int| 0 <= k <= i ==> r@[k] == byte_offset(s@, k),
        decreases s@.len() - i,
    {
        proof {
            lemma_byte_offset_bounds(s@, i + 1);
        }
        let u = s[i] as u32;
        let w: usize = if u < 0x80 {
            1
        } else if u < 0x800 {
            2
        } else if u < 0x10000 {
            3
        } else {
            4
        };
        total = total + w;
        r.push(total);
        i = i + 1;
    }
    r
}

proof fn lemma_first_occurrence_is(hay: Seq<char>, needle: Seq<char>, from: int, i: int)
    requires
        from <= i,
        occurs_at(hay, needle, i),
        forall|j: int| from <= j < i ==> !occurs_at(hay, needle, j),
    ensures
        first_occurrence_from(hay, needle, from) == Some(i),
{
    let c = choose|c: int|
        from <= c && occurs_at(hay, needle, c) && forall|j: int|
            from <= j < c ==> !occurs_at(hay, needle, j);
    assert(occurs_at(hay, needle, i));
    if c < i {
    }
    if c > i {
    }
}

proof fn lemma_match_positions_none(hay: Seq<char>, needle: Seq<char>, from: int)
    requires
        forall|j: int| from <= j ==> !occurs_at(hay, needle, j),
    ensures
        match_positions(hay, needle, from) == Seq::<int>::empty(),
{
    reveal(match_positions);
    if needle.len() > 0 && 0 <= from <= hay.len() {
        assert(!(exists|j: int| from <= j && occurs_at(hay, needle, j)));
    }
}

proof fn lemma_match_positions_step(hay: Seq<char>, needle: Seq<char>, from: int, i: int)
    requires
        needle.len() > 0,
        0 <= from <= i,
        occurs_at(hay, needle, i),
        forall|j: int| from <= j < i ==> !occurs_at(hay, needle, j),
    ensures
        match_positions(hay, needle, from) == seq![i] + match_positions(
            hay,
            needle,
            i + needle.len(),
        ),
{
    lemma_first_occurrence_is(hay, needle, from, i);
    reveal(match_positions);
}

proof fn lemma_match_positions_past_end(hay: Seq<char>, needle: Seq<char>, from: int)
    requires
        from > hay.len(),
    ensures
        match_positions(hay, needle, from) == Seq::<int>::empty(),
{
    reveal(match_positions);
}

/// The character positions where successive non-overlapping occurrences of `needle` start
/// in `hay`.
fn literal_match_starts(hay: &Vec<char>, needle: &Vec<char>) -> (r: Vec<usize>)
    requires
        needle@.len() > 0,
    ensures
        as_ints(r@) == match_positions(hay@, needle@, 0),
        forall|k: int| 0 <= k < r@.len() ==> r@[k] + needle@.len() <= hay@.len(),
{
    let mut out: Vec<usize> = Vec::new();
    let mut start: usize = 0;
    let ghost total = match_positions(hay@, needle@, 0);
    let ghost done: Seq<int> = seq![];
    assert(as_ints(out@) =~= done);
    while start <= hay.len()
        invariant
            needle@.len() > 0,
            start <= hay@.len() + 1,
            done == as_ints(out@),
            total == match_positions(hay@, needle@, 0),
            done + match_positions(hay@, needle@, start as int) == total,
            forall|k: int| 0 <= k < out@.len() ==> out@[k] + needle@.len() <= hay@.len(),
        decreases hay@.len() + 1 - start,
    {
        match find_from(hay, needle, start) {
            Some(i) => {
                let ghost rest = match_positions(hay@, needle@, i + needle@.len());
                proof {
                    lemma_match_positions_step(hay@, needle@, start as int, i as int);
                    assert(done.push(i as int) + rest =~= done + (seq![i as int] + rest));
                }
                out.push(i);
                start = i + needle.len();
                proof {
                    done = done.push(i as int);
                    assert(done =~= as_ints(out@));
                }
            },
            None => {
                proof {
                    lemma_match_positions_none(hay@, needle@, start as int);
                    assert(done + Seq::<int>::empty() =~= done);
                }
                return out;
            },
        }
    }
    proof {
        lemma_match_positions_past_end(hay@, needle@, start as int);
        assert(done + Seq::<int>::empty() =~= done);
    }
    out
}

proof fn lemma_match_positions_sorted(hay: Seq<char>, needle: Seq<char>, from: int)
    ensures
        ({
            let pos = match_positions(hay, needle, from);
            &&& forall|k: int|
                0 <= k < pos.len() ==> from <= #[trigger] pos[k] && pos[k] + needle.len()
                    <= hay.len()
            &&& forall|k: int| 0 <= k < pos.len() - 1 ==> #[trigger] pos[k] + needle.len() <= pos[k + 1]
        }),
    decreases hay.len() + 1 - from,
{
    reveal(match_positions);
    let pos = match_positions(hay, needle, from);
    if needle.len() == 0 || from < 0 || from > hay.len() {
    } else {
        match first_occurrence_from(hay, needle, from) {
            Some(i) => {
                if from <= i && i + needle.len() <= hay.len() {
                    lemma_match_positions_sorted(hay, needle, i + needle.len());
                    let rest = match_positions(hay, needle, i + needle.len());
                    assert(pos == seq![i] + rest);
                    assert forall|k: int| 0 <= k < pos.len() - 1 implies #[trigger] pos[k]
                        + needle.len() <= pos[k + 1] by {
                        if k > 0 {
                            assert(pos[k] == rest[k - 1]);
                            assert(pos[k + 1] == rest[k]);
                        } else {
                            assert(pos[1] == rest[0]);
                        }
                    }
                    assert forall|k: int| 0 <= k < pos.len() implies from <= #[trigger] pos[k]
                        && pos[k] + needle.len() <= hay.len() by {
                        if k > 0 {
                            assert(pos[k] == rest[k - 1]);
                        }
                    }
                }
            },
            None => {},
        }
    }
}

/// The byte ranges of a list of ranges.
pub open spec fn ranges_view(v: Seq<Range<usize>>) -> Seq<(nat, nat)> {
    v.map_values(|r: Range<usize>| (r.start as nat, r.end as nat))
}

/// The byte ranges of the successive non-overlapping occurrences of `query` in `text`,
/// comparing ASCII letters without case unless `case_sensitive`.
pub fn literal_find_ranges(text: &str, query: &str, case_sensitive: bool) -> (r: Vec<Range<usize>>)
    requires
        text@.len() < usize::MAX / 4,
        query@.len() > 0,
    ensures
        ranges_view(r@) == literal_match_ranges(text@, query@, case_sensitive),
{
    let hay = if case_sensitive {
        chars_of(text)
    } else {
        ascii_lowercase_chars(text)
    };
    let needle = if case_sensitive {
        chars_of(query)
    } else {
        ascii_lowercase_chars(query)
    };
    let starts = literal_match_starts(&hay, &needle);
    let offsets = byte_offsets(&hay);
    let ghost wanted = literal_match_ranges(text@, query@, case_sensitive);
    let mut out: Vec<Range<usize>> = Vec::new();
    let mut k: usize = 0;
    let hay_len = hay.len();
    assert(as_ints(starts@).len() == starts@.len());
    while k < starts.len()
        invariant
            k <= starts@.len(),
            hay_len == hay@.len(),
            wanted == literal_match_ranges(text@, query@, case_sensitive),
            hay@ == if case_sensitive {
                text@
            } else {
                ascii_lower(text@)
            },
            needle@ == if case_sensitive {
                query@
            } else {
                ascii_lower(query@)
            },
            as_ints(starts@) == match_positions(hay@, needle@, 0),
            forall|m: int| 0 <= m < starts@.len() ==> starts@[m] + needle@.len() <= hay@.len(),
            offsets@.len() == hay@.len() + 1,
            forall|m: int| 0 <= m <= hay@.len() ==> offsets@[m] == byte_offset(hay@, m),
            ranges_view(out@) == wanted.take(k as int),
        decreases starts@.len() - k,
    {
        let a = starts[k];
        proof {
            assert(as_ints(starts@)[k as int] == a as int);
            assert(starts@[k as int] + needle@.len() <= hay@.len());
        }
        let b = a + needle.len();
        let range = Range { start: offsets[a], end: offsets[b] };
        proof {
            assert(wanted[k as int] == (byte_offset(hay@, a as int), byte_offset(hay@, b as int)));
            assert((range.start as nat, range.end as nat) == wanted[k as int]);
        }
        let ghost before = out@;
        out.push(range);
        proof {
            assert(ranges_view(out@) =~= ranges_view(before).push(wanted[k as int]));
            assert(wanted.take(k + 1) =~= wanted.take(k as int).push(wanted[k as int]));
        }
        k = k + 1;
    }
    assert(wanted.take(starts@.len() as int) =~= wanted);
    out
}

/// What `regex::RegexBuilder` with `pattern` and the given case setting yields when searched
/// through `haystack` with `find_iter`: the byte ranges of the matches, or `None` when the
/// pattern does not build.
pub uninterp spec fn regex_match_ranges(
    pattern: Seq<char>,
    case_insensitive: bool,
    haystack: Seq<char>,
) -> Option<Seq<(nat, nat)>>;

/// `RegexBuilder::new(pattern)`, `case_insensitive`, `build`, then `find_iter` over
/// `haystack`: the byte ranges of the successive matches, or `None` when the pattern does
/// not build.
#[verifier::external_body]
fn regex_find(pattern: &str, case_insensitive: bool, haystack: &str) -> (r: Option<
    Vec<Range<usize>>,
>)
    ensures
        match r {
            Some(v) => regex_match_ranges(pattern@, case_insensitive, haystack@) == Some(
                ranges_view(v@),
            ),
            None => regex_match_ranges(pattern@, case_insensitive, haystack@) is None,
        },
{
    let mut builder = regex::RegexBuilder::new(pattern);
    builder.case_insensitive(case_insensitive);
    match builder.build() {
        Ok(re) => Some(re.find_iter(haystack).map(|m| m.range()).collect()),
        Err(_) => None,
    }
}

/// Whether `query` builds as a regular expression (ASCII letters compared without case
/// unless `case_sensitive`): the find bar says so when it does not.
pub fn regex_builds(query: &str, case_sensitive: bool) -> (r: bool)
    ensures
        r == regex_match_ranges(query@, !case_sensitive, Seq::<char>::empty()) is Some,
{
    let empty = String::new();
    proof {
        assert(empty@ =~= Seq::<char>::empty());
    }
    regex_find(query, !case_sensitive, empty.as_str()).is_some()
}

/// The byte ranges that the find bar highlights in `text` for `query`: none for an empty
/// query; with `use_regex`, the matches of the query as a regular expression (none when it
/// does not build); else the plain occurrences of the query.
pub open spec fn find_ranges_for(
    text: Seq<char>,
    query: Seq<char>,
    use_regex: bool,
    case_sensitive: bool,
) -> Seq<(nat, nat)> {
    if query.len() == 0 {
        seq![]
    } else if use_regex {
        match regex_match_ranges(query, !case_sensitive, text) {
            Some(v) => v,
            None => seq![],
        }
    } else {
        literal_match_ranges(text, query, case_sensitive)
    }
}

/// The current match kept within `count` matches: 0 without matches, the last one when it
/// was past the end.
pub open spec fn clamped_match(current: usize, count: nat) -> usize {
    if count == 0 {
        0
    } else if current >= count {
        (count - 1) as usize
    } else {
        current
    }
}

/// The byte ranges that the find bar highlights in `text` for `query`.
pub fn find_ranges(text: &str, query: &str, use_regex: bool, case_sensitive: bool) -> (r: Vec<
    Range<usize>,
>)
    requires
        text@.len() < usize::MAX / 4,
    ensures
        ranges_view(r@) == find_ranges_for(text@, query@, use_regex, case_sensitive),
{
    if query.is_empty() {
        let v: Vec<Range<usize>> = Vec::new();
        assert(ranges_view(v@) =~= Seq::<(nat, nat)>::empty());
        v
    } else if use_regex {
        match regex_find(query, !case_sensitive, text) {
            Some(v) => v,
            None => {
                let v: Vec<Range<usize>> = Vec::new();
                assert(ranges_view(v@) =~= Seq::<(nat, nat)>::empty());
                v
            },
        }
    } else {
        literal_find_ranges(text, query, case_sensitive)
    }
}

/// Searches the schema text for the find query, as the find bar's settings say, and keeps
/// the current match within the matches found.
pub fn update_find_matches(app: &mut MFlashStudioApp)
    requires
        old(app).raw_schema_text@.len() < usize::MAX / 4,
    ensures
        ranges_view(final(app).find_matches@) == find_ranges_for(
            old(app).raw_schema_text@,
            old(app).find_query@,
            old(app).find_use_regex,
            old(app).find_case_sensitive,
        ),
        final(app).current_match_idx == clamped_match(
            old(app).current_match_idx,
            final(app).find_matches@.len(),
        ),
        final(app).same_document(&*old(app)),
        final(app).same_view_options(&*old(app)),
        final(app).same_find_settings(&*old(app)),
        final(app).json_error == old(app).json_error,
{
    let matches = find_ranges(
        app.raw_schema_text.as_str(),
        app.find_query.as_str(),
        app.find_use_regex,
        app.find_case_sensitive,
    );
    store_find_matches(app, matches);
}

fn store_find_matches(app: &mut MFlashStudioApp, matches: Vec<Range<usize>>)
    ensures
        final(app).find_matches == matches,
        final(app).current_match_idx == clamped_match(
            old(app).current_match_idx,
            matches@.len(),
        ),
        final(app).same_document(&*old(app)),
        final(app).same_view_options(&*old(app)),
        final(app).same_find_settings(&*old(app)),
        final(app).json_error == old(app).json_error,
{
    let n = matches.len();
    let current = clamp_match_index(app.current_match_idx, n);
    set_find_state(app, matches, current);
}

fn clamp_match_index(current: usize, count: usize) -> (r: usize)
    ensures
        r == clamped_match(current, count as nat),
{
    if count == 0 {
        0
    } else if current >= count {
        count - 1
    } else {
        current
    }
}

fn set_find_state(app: &mut MFlashStudioApp, matches: Vec<Range<usize>>, current: usize)
    ensures
        final(app).find_matches == matches,
        final(app).current_match_idx == current,
        final(app).same_document(&*old(app)),
        final(app).same_view_options(&*old(app)),
        final(app).same_find_settings(&*old(app)),
        final(app).json_error == old(app).json_error,
{
    app.find_matches = matches;
    app.current_match_idx = current;
}

/// `text` with the successive non-overlapping occurrences starting at `starts` (each `n`
/// characters long) replaced by `replace`, from the piece that starts at `last` and the
/// `k`-th occurrence on.
pub open spec fn spliced(
    text: Seq<char>,
    starts: Seq<int>,
    n: nat,
    replace: Seq<char>,
    last: int,
    k: int,
) -> Seq<char>
    decreases starts.len() - k,
{
    if k < 0 || k >= starts.len() {
        text.subrange(last, text.len() as int)
    } else {
        text.subrange(last, starts[k]) + replace + spliced(text, starts, n, replace, starts[k] + n, k + 1)
    }
}

/// `text` with every occurrence of `find`, compared without ASCII case, replaced by
/// `replace`, scanning from the start and going on after each replaced occurrence; `text`
/// itself when `find` is empty.
pub open spec fn replaced_ignoring_ascii_case(
    text: Seq<char>,
    find: Seq<char>,
    replace: Seq<char>,
) -> Seq<char> {
    if find.len() == 0 {
        text
    } else {
        spliced(text, match_positions(ascii_lower(text), ascii_lower(find), 0), find.len(), replace, 0, 0)
    }
}

/// Replaces every occurrence of `find` in `text` by `replace`, comparing ASCII letters
/// without case.
pub fn replace_all_case_insensitive_ascii(text: &str, find: &str, replace: &str) -> (r: String)
    ensures
        r@ == replaced_ignoring_ascii_case(text@, find@, replace@),
{
    if find.is_empty() {
        return String::from_str(text);
    }
    let chars = chars_of(text);
    let hay = ascii_lowercase_chars(text);
    let needle = ascii_lowercase_chars(find);
    let rep = chars_of(replace);
    let out = splice_occurrences(&chars, &hay, &needle, &rep);
    proof {
        assert(ascii_lower(text@) == hay@);
    }
    string_from(&out)
}

/// `text` with every occurrence of `find` replaced by `replace`, scanning from the start
/// and going on after each replaced occurrence, as `str::replace` does; `text` itself when
/// `find` is empty.
pub open spec fn replaced_exactly(text: Seq<char>, find: Seq<char>, replace: Seq<char>) -> Seq<char> {
    if find.len() == 0 {
        text
    } else {
        spliced(text, match_positions(text, find, 0), find.len(), replace, 0, 0)
    }
}

/// Replaces every occurrence of `find` in `text` by `replace`.
pub fn replace_all_exact(text: &str, find: &str, replace: &str) -> (r: String)
    ensures
        r@ == replaced_exactly(text@, find@, replace@),
{
    if find.is_empty() {
        return String::from_str(text);
    }
    let chars = chars_of(text);
    let needle = chars_of(find);
    let rep = chars_of(replace);
    let out = splice_occurrences(&chars, &chars, &needle, &rep);
    string_from(&out)
}

/// Replacing without ASCII case depends on `find` only up to ASCII case: two patterns that
/// agree once ASCII capitals are made small (such as `find` and its ASCII uppercase) give
/// the same result.
pub proof fn lemma_replace_ignores_find_case(
    text: Seq<char>,
    find: Seq<char>,
    other: Seq<char>,
    replace: Seq<char>,
)
    requires
        ascii_lower(find) == ascii_lower(other),
    ensures
        replaced_ignoring_ascii_case(text, find, replace) == replaced_ignoring_ascii_case(
            text,
            other,
            replace,
        ),
{
    assert(find.len() == ascii_lower(find).len());
    assert(other.len() == ascii_lower(other).len());
}

/// Making ASCII letters capitals first changes nothing once they are made small.
pub proof fn lemma_ascii_lower_of_upper(s: Seq<char>)
    ensures
        ascii_lower(ascii_upper(s)) == ascii_lower(s),
{
    assert forall|i: int| 0 <= i < s.len() implies ascii_lower(ascii_upper(s))[i] == ascii_lower(s)[i] by {
        let c = s[i];
        if 'a' <= c && c <= 'z' {
            let u = ((c as u32) - 32) as char;
            assert(u as u32 == (c as u32) - 32);
            assert('A' <= u && u <= 'Z');
            assert(((u as u32) + 32) as char == c);
        }
    }
    assert(ascii_lower(ascii_upper(s)) =~= ascii_lower(s));
}

/// On text and a pattern with no ASCII capitals, replacing without ASCII case is plain
/// replacing, as `str::replace` does it.
pub proof fn lemma_replace_lowercase_is_exact(text: Seq<char>, find: Seq<char>, replace: Seq<char>)
    requires
        ascii_lower(text) == text,
        ascii_lower(find) == find,
    ensures
        replaced_ignoring_ascii_case(text, find, replace) == replaced_exactly(text, find, replace),
{
}

/// `chars` with `rep` in place of each occurrence of `needle` that a search of `hay` (as
/// long as `chars`) finds.
fn splice_occurrences(chars: &Vec<char>, hay: &Vec<char>, needle: &Vec<char>, rep: &Vec<char>) -> (out:
    Vec<char>)
    requires
        hay@.len() == chars@.len(),
        needle@.len() > 0,
    ensures
        out@ == spliced(chars@, match_positions(hay@, needle@, 0), needle@.len(), rep@, 0, 0),
{
    let starts = literal_match_starts(hay, needle);
    let n = needle.len();
    let ghost pos = as_ints(starts@);
    proof {
        lemma_match_positions_sorted(hay@, needle@, 0);
    }
    let mut out: Vec<char> = Vec::new();
    let mut last: usize = 0;
    let mut k: usize = 0;
    let hay_len = hay.len();
    while k < starts.len()
        invariant
            k <= starts@.len(),
            hay_len == hay@.len(),
            hay@.len() == chars@.len(),
            n == needle@.len(),
            pos == as_ints(starts@),
            pos == match_positions(hay@, needle@, 0),
            forall|m: int| 0 <= m < pos.len() ==> 0 <= #[trigger] pos[m] && pos[m] + n <= hay@.len(),
            forall|m: int| 0 <= m < pos.len() - 1 ==> #[trigger] pos[m] + n <= pos[m + 1],
            last <= chars@.len(),
            k < pos.len() ==> last <= pos[k as int],
            out@ + spliced(chars@, pos, n as nat, rep@, last as int, k as int) == spliced(
                chars@,
                pos,
                n as nat,
                rep@,
                0,
                0,
            ),
        decreases starts@.len() - k,
    {
        let s = starts[k];
        proof {
            assert(pos[k as int] == s as int);
        }
        let ghost before = out@;
        let mut j: usize = last;
        while j < s
            invariant
                last <= j <= s,
                s <= chars@.len(),
                out@ == before + chars@.subrange(last as int, j as int),
            decreases s - j,
        {
            out.push(chars[j]);
            j = j + 1;
            assert(out@ =~= before + chars@.subrange(last as int, j as int));
        }
        push_all(&mut out, &rep);
        proof {
            let rest = spliced(chars@, pos, n as nat, rep@, s + n, k + 1);
            assert(spliced(chars@, pos, n as nat, rep@, last as int, k as int)
                == chars@.subrange(last as int, s as int) + rep@ + rest);
            assert(out@ + rest =~= before + (chars@.subrange(last as int, s as int) + rep@
                + rest));
            if k + 1 < pos.len() {
                assert(pos[k as int] + n <= pos[k + 1]);
            }
        }
        proof {
            assert(pos[k as int] + n <= hay@.len());
        }
        last = s + n;
        k = k + 1;
    }
    let ghost before = out@;
    let mut j: usize = last;
    while j < chars.len()
        invariant
            last <= j <= chars@.len(),
            out@ == before + chars@.subrange(last as int, j as int),
        decreases chars@.len() - j,
    {
        out.push(chars[j]);
        j = j + 1;
        assert(out@ =~= before + chars@.subrange(last as int, j as int));
    }
    proof {
        assert(out@ =~= spliced(chars@, pos, n as nat, rep@, 0, 0));
    }
    out
}

proof fn lemma_byte_offset_strict(s: Seq<char>, j: int, k: int)
    requires
        0 <= j < k <= s.len(),
    ensures
        byte_offset(s, j) < byte_offset(s, k),
    decreases k - j,
{
    lemma_byte_offset_monotonic(s, j, k - 1);
}

proof fn lemma_byte_offset_ascii_lower(s: Seq<char>, k: int)
    requires
        0 <= k <= s.len(),
    ensures
        byte_offset(ascii_lower(s), k) == byte_offset(s, k),
    decreases k,
{
    if k > 0 {
        lemma_byte_offset_ascii_lower(s, k - 1);
        let c = s[k - 1];
        if 'A' <= c && c <= 'Z' {
            assert(((c as u32) + 32) < 0x80);
        }
    }
}

/// The plain-text find matches are successive, non-empty and non-overlapping byte ranges
/// within the text.
pub proof fn lemma_literal_ranges_ordered(text: Seq<char>, query: Seq<char>, case_sensitive: bool)
    requires
        query.len() > 0,
    ensures
        ({
            let r = literal_match_ranges(text, query, case_sensitive);
            &&& forall|k: int|
                0 <= k < r.len() ==> (#[trigger] r[k]).0 < r[k].1 && r[k].1 <= byte_offset(
                    text,
                    text.len() as int,
                )
            &&& forall|k: int| 0 <= k < r.len() - 1 ==> (#[trigger] r[k]).1 <= r[k + 1].0
        }),
{
    let hay = if case_sensitive {
        text
    } else {
        ascii_lower(text)
    };
    let needle = if case_sensitive {
        query
    } else {
        ascii_lower(query)
    };
    let starts = match_positions(hay, needle, 0);
    let r = literal_match_ranges(text, query, case_sensitive);
    lemma_match_positions_sorted(hay, needle, 0);
    if !case_sensitive {
        lemma_byte_offset_ascii_lower(text, text.len() as int);
    }
    assert forall|k: int| 0 <= k < r.len() implies (#[trigger] r[k]).0 < r[k].1 && r[k].1
        <= byte_offset(text, text.len() as int) by {
        lemma_byte_offset_strict(hay, starts[k], starts[k] + needle.len());
        lemma_byte_offset_monotonic(hay, starts[k] + needle.len(), hay.len() as int);
    }
    assert forall|k: int| 0 <= k < r.len() - 1 implies (#[trigger] r[k]).1 <= r[k + 1].0 by {
        lemma_byte_offset_monotonic(hay, starts[k] + needle.len(), starts[k + 1]);
    }
}

/// What `Regex::replace` gives on `haystack` with `replacement`, for the regex that
/// `RegexBuilder` builds from `pattern` with the given case setting: the haystack with its
/// first match replaced (`$` references expanded), or `None` when the pattern does not
/// build.
pub uninterp spec fn regex_replaced_first(
    pattern: Seq<char>,
    case_insensitive: bool,
    haystack: Seq<char>,
    replacement: Seq<char>,
) -> Option<Seq<char>>;

/// What `Regex::replace_all` gives on `haystack` with `replacement`, for the regex that
/// `RegexBuilder` builds from `pattern` with the given case setting: the haystack with every
/// match replaced, or `None` when the pattern does not build.
pub uninterp spec fn regex_replaced_all(
    pattern: Seq<char>,
    case_insensitive: bool,
    haystack: Seq<char>,
    replacement: Seq<char>,
) -> Option<Seq<char>>;

/// `RegexBuilder::new(pattern)`, `case_insensitive`, `build`, then `replace` of the first
/// match in `haystack` by `replacement`; `None` when the pattern does not build.
#[verifier::external_body]
fn regex_replace_first(pattern: &str, case_insensitive: bool, haystack: &str, replacement: &str) -> (r:
    Option<String>)
    ensures
        r.deep_view() == regex_replaced_first(pattern@, case_insensitive, haystack@, replacement@),
{
    let mut builder = regex::RegexBuilder::new(pattern);
    builder.case_insensitive(case_insensitive);
    match builder.build() {
        Ok(re) => Some(re.replace(haystack, replacement).into_owned()),
        Err(_) => None,
    }
}

/// `RegexBuilder::new(pattern)`, `case_insensitive`, `build`, then `replace_all` of the
/// matches in `haystack` by `replacement`; `None` when the pattern does not build.
#[verifier::external_body]
fn regex_replace_all(pattern: &str, case_insensitive: bool, haystack: &str, replacement: &str) -> (r:
    Option<String>)
    ensures
        r.deep_view() == regex_replaced_all(pattern@, case_insensitive, haystack@, replacement@),
{
    let mut builder = regex::RegexBuilder::new(pattern);
    builder.case_insensitive(case_insensitive);
    match builder.build() {
        Ok(re) => Some(re.replace_all(haystack, replacement).into_owned()),
        Err(_) => None,
    }
}

/// The find bar's Replace All on `text`: nothing for an empty query; with `use_regex`, every
/// match of the query as a regular expression (nothing when it does not build); else every
/// occurrence of the query, ASCII letters compared without case unless `case_sensitive`.
pub open spec fn replaced_all(
    text: Seq<char>,
    query: Seq<char>,
    replace: Seq<char>,
    use_regex: bool,
    case_sensitive: bool,
) -> Seq<char> {
    if query.len() == 0 {
        text
    } else if use_regex {
        match regex_replaced_all(query, !case_sensitive, text, replace) {
            Some(t) => t,
            None => text,
        }
    } else if case_sensitive {
        replaced_exactly(text, query, replace)
    } else {
        replaced_ignoring_ascii_case(text, query, replace)
    }
}

/// The find bar's Replace All on `text` (see `replaced_all`).
pub fn replace_all_text(text: &str, query: &str, replace: &str, use_regex: bool, case_sensitive: bool) -> (r:
    String)
    ensures
        r@ == replaced_all(text@, query@, replace@, use_regex, case_sensitive),
{
    if query.is_empty() {
        String::from_str(text)
    } else if use_regex {
        match regex_replace_all(query, !case_sensitive, text, replace) {
            Some(t) => t,
            None => String::from_str(text),
        }
    } else if case_sensitive {
        replace_all_exact(text, query, replace)
    } else {
        replace_all_case_insensitive_ascii(text, query, replace)
    }
}

/// Replace All in the schema editor: the schema text becomes `replaced_all` of it for the
/// find bar's query, replacement and settings. Nothing else changes (the matches are found
/// again afterwards with `update_find_matches`).
pub fn replace_all_in_schema(app: &mut MFlashStudioApp)
    ensures
        final(app).raw_schema_text@ == replaced_all(
            old(app).raw_schema_text@,
            old(app).find_query@,
            old(app).replace_query@,
            old(app).find_use_regex,
            old(app).find_case_sensitive,
        ),
        *final(app) == (MFlashStudioApp { raw_schema_text: final(app).raw_schema_text, ..*old(app) }),
{
    let t = replace_all_text(
        app.raw_schema_text.as_str(),
        app.find_query.as_str(),
        app.replace_query.as_str(),
        app.find_use_regex,
        app.find_case_sensitive,
    );
    app.raw_schema_text = t;
}

/// Whether the byte offsets `start` and `end` fall on character boundaries of `text`, in
/// order.
#[verifier::opaque]
pub open spec fn on_char_boundaries(text: Seq<char>, start: nat, end: nat) -> bool {
    &&& start <= end
    &&& exists|i: int| 0 <= i <= text.len() && byte_offset(text, i) == start
    &&& exists|j: int| 0 <= j <= text.len() && byte_offset(text, j) == end
}

/// The position in characters of the byte offset `b` of `text`, a character boundary.
pub open spec fn char_index_of_byte(text: Seq<char>, b: nat) -> int {
    choose|i: int| 0 <= i <= text.len() && byte_offset(text, i) == b
}

/// `text` with the part between the byte offsets `start` and `end` replaced by `piece`.
pub open spec fn with_byte_range_replaced(text: Seq<char>, start: nat, end: nat, piece: Seq<char>) -> Seq<
    char,
> {
    text.subrange(0, char_index_of_byte(text, start)) + piece + text.subrange(
        char_index_of_byte(text, end),
        text.len() as int,
    )
}

/// The find bar's Replace on `text` for the match at the byte range (`start`, `end`): with
/// `use_regex`, the matched part becomes what the regular expression's `replace` makes of it
/// (nothing changes when the query does not build); else it becomes `replace`.
pub open spec fn replaced_match(
    text: Seq<char>,
    start: nat,
    end: nat,
    query: Seq<char>,
    replace: Seq<char>,
    use_regex: bool,
    case_sensitive: bool,
) -> Seq<char> {
    if use_regex {
        let part = text.subrange(char_index_of_byte(text, start), char_index_of_byte(text, end));
        match regex_replaced_first(query, !case_sensitive, part, replace) {
            Some(p) => with_byte_range_replaced(text, start, end, p),
            None => text,
        }
    } else {
        with_byte_range_replaced(text, start, end, replace)
    }
}

proof fn lemma_byte_offset_injective(s: Seq<char>, a: int, b: int)
    requires
        0 <= a <= s.len(),
        0 <= b <= s.len(),
        byte_offset(s, a) == byte_offset(s, b),
    ensures
        a == b,
{
    if a < b {
        lemma_byte_offset_strict(s, a, b);
    } else if b < a {
        lemma_byte_offset_strict(s, b, a);
    }
}

/// The position in `offsets` of the value `b`, if any.
fn position_of_offset(offsets: &Vec<usize>, b: usize) -> (r: Option<usize>)
    ensures
        match r {
            Some(k) => k < offsets@.len() && offsets@[k as int] == b,
            None => forall|k: int| 0 <= k < offsets@.len() ==> offsets@[k] != b,
        },
{
    let mut k: usize = 0;
    while k < offsets.len()
        invariant
            k <= offsets@.len(),
            forall|m: int| 0 <= m < k ==> offsets@[m] != b,
        decreases offsets@.len() - k,
    {
        if offsets[k] == b {
            return Some(k);
        }
        k = k + 1;
    }
    None
}

/// The positions in characters of the byte offsets `start` and `end` of `text`.
fn char_range_of(text: &str, start: usize, end: usize) -> (r: (usize, usize))
    requires
        text@.len() < usize::MAX / 4,
        on_char_boundaries(text@, start as nat, end as nat),
    ensures
        r.0 == char_index_of_byte(text@, start as nat),
        r.1 == char_index_of_byte(text@, end as nat),
        r.0 <= r.1 <= text@.len(),
{
    proof {
        reveal(on_char_boundaries);
    }
    let chars = chars_of(text);
    let offsets = byte_offsets(&chars);
    let found_start = position_of_offset(&offsets, start);
    let found_end = position_of_offset(&offsets, end);
    match (found_start, found_end) {
        (Some(i), Some(j)) => {
            proof {
                let ci = char_index_of_byte(text@, start as nat);
                let cj = char_index_of_byte(text@, end as nat);
                lemma_byte_offset_injective(text@, ci, i as int);
                lemma_byte_offset_injective(text@, cj, j as int);
                if j < i {
                    lemma_byte_offset_strict(text@, j as int, i as int);
                }
            }
            (i, j)
        },
        _ => {
            proof {
                let wi = choose|i: int| 0 <= i <= text@.len() && byte_offset(text@, i) == start;
                let wj = choose|j: int| 0 <= j <= text@.len() && byte_offset(text@, j) == end;
                assert(offsets@[wi] == start);
                assert(offsets@[wj] == end);
            }
            (0, 0)
        },
    }
}

/// `text` with the characters from `i` to `j` replaced by `piece`.
fn splice_text(text: &str, i: usize, j: usize, piece: &str) -> (r: String)
    requires
        i <= j <= text@.len(),
    ensures
        r@ == text@.subrange(0, i as int) + piece@ + text@.subrange(j as int, text@.len() as int),
{
    let chars = chars_of(text);
    let mut out = copy_range(&chars, 0, i);
    push_str_chars(&mut out, piece);
    let tail = copy_range(&chars, j, chars.len());
    push_all(&mut out, &tail);
    string_from(&out)
}

/// The characters from `i` to `j` of `text`.
fn text_part(text: &str, i: usize, j: usize) -> (r: String)
    requires
        i <= j <= text@.len(),
    ensures
        r@ == text@.subrange(i as int, j as int),
{
    let chars = chars_of(text);
    string_from(&copy_range(&chars, i, j))
}

/// Replace in the schema editor: the current find match becomes the replacement (see
/// `replaced_match`). Nothing changes without matches, and nothing but the schema text
/// changes otherwise (the matches are found again afterwards with `update_find_matches`).
#[verifier::rlimit(50)]
pub fn replace_current_match(app: &mut MFlashStudioApp)
    requires
        old(app).raw_schema_text@.len() < usize::MAX / 4,
        old(app).find_matches@.len() > 0 ==> {
            let m = old(app).find_matches@[old(app).current_match_idx as int];
            &&& old(app).current_match_idx < old(app).find_matches@.len()
            &&& on_char_boundaries(old(app).raw_schema_text@, m.start as nat, m.end as nat)
        },
    ensures
        old(app).find_matches@.len() == 0 ==> *final(app) == *old(app),
        old(app).find_matches@.len() > 0 ==> {
            let m = old(app).find_matches@[old(app).current_match_idx as int];
            final(app).raw_schema_text@ == replaced_match(
                old(app).raw_schema_text@,
                m.start as nat,
                m.end as nat,
                old(app).find_query@,
                old(app).replace_query@,
                old(app).find_use_regex,
                old(app).find_case_sensitive,
            )
        },
        *final(app) == (MFlashStudioApp { raw_schema_text: final(app).raw_schema_text, ..*old(app) }),
{
    if app.find_matches.len() == 0 {
        return;
    }
    let start: usize = app.find_matches[app.current_match_idx].start;
    let end: usize = app.find_matches[app.current_match_idx].end;
    let t = replace_match_text(
        app.raw_schema_text.as_str(),
        start,
        end,
        app.find_query.as_str(),
        app.replace_query.as_str(),
        app.find_use_regex,
        app.find_case_sensitive,
    );
    put_schema_text(app, t);
}

fn put_schema_text(app: &mut MFlashStudioApp, text: String)
    ensures
        *final(app) == (MFlashStudioApp { raw_schema_text: text, ..*old(app) }),
{
    app.raw_schema_text = text;
}

/// The find bar's Replace on `text` for the match at the byte range (`start`, `end`) (see
/// `replaced_match`).
fn replace_match_text(
    text: &str,
    start: usize,
    end: usize,
    query: &str,
    replace: &str,
    use_regex: bool,
    case_sensitive: bool,
) -> (r: String)
    requires
        text@.len() < usize::MAX / 4,
        on_char_boundaries(text@, start as nat, end as nat),
    ensures
        r@ == replaced_match(text@, start as nat, end as nat, query@, replace@, use_regex, case_sensitive),
{
    let (i, j) = char_range_of(text, start, end);
    if use_regex {
        let part = text_part(text, i, j);
        match regex_replace_first(query, !case_sensitive, part.as_str(), replace) {
            Some(p) => splice_text(text, i, j, p.as_str()),
            None => String::from_str(text),
        }
    } else {
        splice_text(text, i, j, replace)
    }
}

} // verus!
