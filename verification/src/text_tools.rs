//! The text tools of the Edit menu: trimming lines, collapsing whitespace, sentence case
//! and changing case, applied to the schema text as undoable edits.

use vstd::prelude::*;
use crate::edit::{status, text_edit_post};
use crate::studio::MFlashStudioApp;
use crate::text::{
    char_to_uppercase, chars_of, is_whitespace, is_ws, join, lemma_join_push, string_from,
    to_lowercase, to_uppercase, trim, trim_chars, unicode_char_uppercase, unicode_lowercase,
    unicode_uppercase,
};

verus! {

/// The parts of `s` between newline characters.
pub open spec fn newline_parts(s: Seq<char>) -> Seq<Seq<char>>
    decreases s.len(),
{
    if s.len() == 0 {
        seq![seq![]]
    } else {
        let parts = newline_parts(s.drop_last());
        if s.last() == '\n' {
            parts.push(seq![])
        } else {
            parts.update(parts.len() - 1, parts.last().push(s.last()))
        }
    }
}

proof fn lemma_newline_parts_nonempty(s: Seq<char>)
    ensures
        newline_parts(s).len() >= 1,
    decreases s.len(),
{
    if s.len() > 0 {
        lemma_newline_parts_nonempty(s.drop_last());
    }
}

/// The lines of `s` as `str::lines` gives them, each trimmed: the parts between newlines,
/// without the empty part after a final newline (and none at all for an empty text). A
/// carriage return before a newline is whitespace, so trimming removes it too.
pub open spec fn trimmed_lines(s: Seq<char>) -> Seq<Seq<char>> {
    let parts = newline_parts(s);
    let lines = if parts.last().len() == 0 {
        parts.drop_last()
    } else {
        parts
    };
    Seq::new(lines.len(), |i: int| trim(lines[i]))
}

/// Every line of `text` trimmed, the lines joined with newlines.
pub fn trim_lines(text: &str) -> (r: String)
    ensures
        r@ == join(trimmed_lines(text@), seq!['\n']),
{
    let chars = chars_of(text);
    let mut lines: Vec<Vec<char>> = Vec::new();
    let mut current: Vec<char> = Vec::new();
    let mut i: usize = 0;
    assert(chars@.take(0) =~= Seq::<char>::empty());
    while i < chars.len()
        invariant
            i <= chars.len(),
            chars@ == text@,
            lines@.map_values(|l: Vec<char>| l@).push(current@) == newline_parts(
                chars@.take(i as int),
            ),
        decreases chars.len() - i,
    {
        let ghost prev = chars@.take(i as int);
        let c = chars[i];
        proof {
            let next = chars@.take(i + 1);
            assert(next.drop_last() =~= prev);
            assert(next.last() == c);
            lemma_newline_parts_nonempty(prev);
        }
        if c == '\n' {
            lines.push(current);
            current = Vec::new();
            proof {
                assert(lines@.map_values(|l: Vec<char>| l@).push(current@) =~= newline_parts(
                    chars@.take(i + 1),
                ));
            }
        } else {
            let ghost before = lines@.map_values(|l: Vec<char>| l@).push(current@);
            current.push(c);
            proof {
                assert(lines@.map_values(|l: Vec<char>| l@).push(current@) =~= before.update(
                    before.len() - 1,
                    before.last().push(c),
                ));
            }
        }
        i = i + 1;
    }
    proof {
        assert(chars@.take(chars.len() as int) =~= chars@);
    }
    let ghost done = lines@.map_values(|l: Vec<char>| l@);
    let ghost cur = current@;
    if current.len() > 0 {
        lines.push(current);
    }
    let ghost all = lines@.map_values(|l: Vec<char>| l@);
    let ghost wanted = trimmed_lines(text@);
    proof {
        let parts = newline_parts(text@);
        assert(parts == done.push(cur));
        if cur.len() > 0 {
            assert(all =~= parts);
        } else {
            assert(all =~= parts.drop_last());
        }
        assert(all.len() == wanted.len());
    }
    let mut out: Vec<char> = Vec::new();
    let mut k: usize = 0;
    assert(wanted.take(0) =~= Seq::<Seq<char>>::empty());
    while k < lines.len()
        invariant
            k <= lines.len(),
            all == lines@.map_values(|l: Vec<char>| l@),
            all.len() == wanted.len(),
            wanted == trimmed_lines(text@),
            forall|j: int| 0 <= j < wanted.len() ==> #[trigger] wanted[j] == trim(all[j]),
            out@ == join(wanted.take(k as int), seq!['\n']),
        decreases lines.len() - k,
    {
        let t = trim_chars(&lines[k]);
        proof {
            lemma_join_push(wanted.take(k as int), seq!['\n'], t@);
            assert(wanted.take(k + 1) =~= wanted.take(k as int).push(t@));
        }
        if k > 0 {
            out.push('\n');
        }
        let mut m: usize = 0;
        let ghost base = out@;
        while m < t.len()
            invariant
                m <= t.len(),
                out@ == base + t@.take(m as int),
            decreases t.len() - m,
        {
            out.push(t[m]);
            m = m + 1;
            assert(out@ =~= base + t@.take(m as int));
        }
        assert(t@.take(t.len() as int) =~= t@);
        proof {
            if k > 0 {
                assert(out@ =~= join(wanted.take(k as int), seq!['\n']) + seq!['\n'] + t@);
            } else {
                assert(out@ =~= t@);
            }
        }
        k = k + 1;
    }
    assert(wanted.take(lines.len() as int) =~= wanted);
    string_from(&out)
}

/// The words of `s` as `str::split_whitespace` gives them: its maximal runs of
/// non-whitespace characters, in order.
pub open spec fn words_of(s: Seq<char>) -> Seq<Seq<char>>
    decreases s.len(),
{
    if s.len() == 0 {
        seq![]
    } else if is_ws(s.last()) {
        words_of(s.drop_last())
    } else if s.len() >= 2 && !is_ws(s[s.len() - 2]) {
        let w = words_of(s.drop_last());
        w.update(w.len() - 1, w.last().push(s.last()))
    } else {
        words_of(s.drop_last()).push(seq![s.last()])
    }
}

/// The words of `text` joined with single spaces: runs of whitespace become one space and
/// leading and trailing whitespace goes.
pub fn normalize_spaces(text: &str) -> (r: String)
    ensures
        r@ == join(words_of(text@), seq![' ']),
{
    let chars = chars_of(text);
    let mut words: Vec<Vec<char>> = Vec::new();
    let mut current: Vec<char> = Vec::new();
    let mut i: usize = 0;
    assert(chars@.take(0) =~= Seq::<char>::empty());
    while i < chars.len()
        invariant
            i <= chars.len(),
            chars@ == text@,
            current@.len() > 0 ==> i > 0 && !is_ws(chars@[i - 1]),
            i > 0 && !is_ws(chars@[i - 1]) ==> current@.len() > 0,
            current@.len() > 0 ==> words@.map_values(|w: Vec<char>| w@).push(current@) == words_of(
                chars@.take(i as int),
            ),
            current@.len() == 0 ==> words@.map_values(|w: Vec<char>| w@) == words_of(
                chars@.take(i as int),
            ),
        decreases chars.len() - i,
    {
        let ghost prev = chars@.take(i as int);
        let c = chars[i];
        proof {
            let next = chars@.take(i + 1);
            assert(next.drop_last() =~= prev);
            assert(next.last() == c);
            if i > 0 {
                assert(next[next.len() - 2] == chars@[i - 1]);
            }
        }
        if is_whitespace(c) {
            if current.len() > 0 {
                words.push(current);
                current = Vec::new();
            }
        } else {
            let ghost before = words@.map_values(|w: Vec<char>| w@);
            let ghost had = current@;
            current.push(c);
            proof {
                if had.len() > 0 {
                    assert(words@.map_values(|w: Vec<char>| w@).push(current@) =~= before.push(
                        had,
                    ).update(before.len() as int, had.push(c)));
                } else {
                    assert(current@ =~= seq![c]);
                }
            }
        }
        i = i + 1;
    }
    proof {
        assert(chars@.take(chars.len() as int) =~= chars@);
    }
    if current.len() > 0 {
        words.push(current);
    }
    let ghost all = words@.map_values(|w: Vec<char>| w@);
    let mut out: Vec<char> = Vec::new();
    let mut k: usize = 0;
    assert(all.take(0) =~= Seq::<Seq<char>>::empty());
    while k < words.len()
        invariant
            k <= words.len(),
            all == words@.map_values(|w: Vec<char>| w@),
            all == words_of(text@),
            out@ == join(all.take(k as int), seq![' ']),
        decreases words.len() - k,
    {
        proof {
            lemma_join_push(all.take(k as int), seq![' '], all[k as int]);
            assert(all.take(k + 1) =~= all.take(k as int).push(all[k as int]));
        }
        if k > 0 {
            out.push(' ');
        }
        let mut m: usize = 0;
        let ghost base = out@;
        while m < words[k].len()
            invariant
                m <= words[k as int]@.len(),
                k < words.len(),
                out@ == base + words[k as int]@.take(m as int),
            decreases words[k as int]@.len() - m,
        {
            out.push(words[k][m]);
            m = m + 1;
            assert(out@ =~= base + words[k as int]@.take(m as int));
        }
        assert(words[k as int]@.take(words[k as int]@.len() as int) =~= words[k as int]@);
        proof {
            if k > 0 {
                assert(out@ =~= join(all.take(k as int), seq![' ']) + seq![' '] + all[k as int]);
            } else {
                assert(out@ =~= all[k as int]);
            }
        }
        k = k + 1;
    }
    assert(all.take(words.len() as int) =~= all);
    string_from(&out)
}

/// `text` trimmed, with its first character in upper case and the rest in lower case.
pub open spec fn sentence_cased(text: Seq<char>) -> Seq<char> {
    let t = trim(text);
    if t.len() == 0 {
        seq![]
    } else {
        unicode_char_uppercase(t[0]) + unicode_lowercase(t.drop_first())
    }
}

/// `text` trimmed, with its first character in upper case and the rest in lower case.
pub fn sentence_case(text: &str) -> (r: String)
    ensures
        r@ == sentence_cased(text@),
{
    let chars = chars_of(text);
    let t = trim_chars(&chars);
    if t.len() == 0 {
        return String::new();
    }
    let mut result = char_to_uppercase(t[0]);
    let mut rest: Vec<char> = Vec::new();
    let mut i: usize = 1;
    while i < t.len()
        invariant
            1 <= i <= t.len(),
            rest@ == t@.subrange(1, i as int),
        decreases t.len() - i,
    {
        rest.push(t[i]);
        i = i + 1;
        assert(rest@ =~= t@.subrange(1, i as int));
    }
    assert(rest@ =~= t@.drop_first());
    let rest_text = string_from(&rest);
    let lower = to_lowercase(rest_text.as_str());
    result.append(lower.as_str());
    result
}

/// A text tool of the Edit menu.
#[derive(Clone, Copy, Debug, PartialEq, Eq, Structural)]
pub enum TextTool {
    TrimWhitespace,
    NormalizeSpaces,
    SentenceCase,
    Lowercase,
    Uppercase,
}

/// What a text tool makes of `text`.
pub open spec fn tool_result(tool: TextTool, text: Seq<char>) -> Seq<char> {
    match tool {
        TextTool::TrimWhitespace => join(trimmed_lines(text), seq!['\n']),
        TextTool::NormalizeSpaces => join(words_of(text), seq![' ']),
        TextTool::SentenceCase => sentence_cased(text),
        TextTool::Lowercase => unicode_lowercase(text),
        TextTool::Uppercase => unicode_uppercase(text),
    }
}

/// What the text tool `tool` makes of `text`.
pub fn run_text_tool(tool: TextTool, text: &str) -> (r: String)
    ensures
        r@ == tool_result(tool, text@),
{
    match tool {
        TextTool::TrimWhitespace => trim_lines(text),
        TextTool::NormalizeSpaces => normalize_spaces(text),
        TextTool::SentenceCase => sentence_case(text),
        TextTool::Lowercase => to_lowercase(text),
        TextTool::Uppercase => to_uppercase(text),
    }
}

/// Applies the text tool `tool` to the schema text, recording the old state for undo.
pub fn apply_text_tool(app: &mut MFlashStudioApp, tool: TextTool)
    ensures
        text_edit_post(
            *old(app),
            *final(app),
            tool_result(tool, old(app).raw_schema_text@),
            "Text tool applied to schema text."@,
        ),
{
    app.push_snapshot();
    let out = run_text_tool(tool, app.raw_schema_text.as_str());
    app.raw_schema_text = out;
    app.json_error = status("Text tool applied to schema text.");
}

} // verus!
