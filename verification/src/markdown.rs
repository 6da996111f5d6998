//! Markdown rendering with highlighted code blocks, reading time and excerpts.

use syntect::highlighting::ThemeSet;
use syntect::html::highlighted_html_for_string;
use syntect::parsing::SyntaxSet;
use vstd::prelude::*;
use vstd::string::*;

use crate::highlight::{
    events_view, highlight_run, highlighted_pieces, markdown_events, markdown_html, parse_events,
    pieces_view, render_pieces, sources_below, HtmlPiece, HtmlPieceView, MdEvent,
    SyntaxHighlighter,
};
use crate::text::{
    all_white, chars_of, is_white, is_whitespace, string_from_chars, trim, trim_bounds, trim_end,
    trim_start,
};

verus! {

// ---------------------------------------------------------------------------
// Reading time
// ---------------------------------------------------------------------------

/// Whether a word starts at position `i` of `s`: a non-whitespace character
/// at the start of the text or right after whitespace.
pub open spec fn starts_word(s: Seq<char>, i: int) -> bool {
    !is_white(s[i]) && (i == 0 || is_white(s[i - 1]))
}

/// The number of whitespace-separated words of `s`, as
/// `str::split_whitespace` yields them.
pub open spec fn word_count(s: Seq<char>) -> nat
    decreases s.len(),
{
    if s.len() == 0 {
        0
    } else {
        word_count(s.drop_last()) + if starts_word(s, s.len() - 1) {
            1nat
        } else {
            0nat
        }
    }
}

/// Minutes needed to read `words` words at 200 words a minute, rounded up,
/// at least one, and capped at `i32::MAX`.
pub open spec fn reading_minutes(words: nat) -> int {
    let m: int = (words + 199) as int / 200;
    if m < 1 {
        1
    } else if m > i32::MAX {
        i32::MAX as int
    } else {
        m
    }
}

/// The number of words of `s`.
fn count_words(s: &Vec<char>) -> (n: usize)
    ensures
        n == word_count(s@),
{
    let mut n: usize = 0;
    let mut i: usize = 0;
    while i < s.len()
        invariant
            i <= s@.len(),
            n <= i,
            n == word_count(s@.take(i as int)),
        decreases s@.len() - i,
    {
        let starts = !is_whitespace(s[i]) && (i == 0 || is_whitespace(s[i - 1]));
        proof {
            let t = s@.take(i + 1);
            assert(t.drop_last() =~= s@.take(i as int));
            assert(t[i as int] == s@[i as int]);
            if i > 0 {
                assert(t[i - 1] == s@[i - 1]);
            }
            assert(starts == starts_word(t, i as int));
        }
        if starts {
            n = n + 1;
        }
        i = i + 1;
    }
    proof {
        assert(s@.take(s@.len() as int) =~= s@);
    }
    n
}

// ---------------------------------------------------------------------------
// HTML escaping
// ---------------------------------------------------------------------------

/// The HTML escape of one character: `&`, `<`, `>`, `"` and `'` become
/// entities, every other character stands for itself.
pub open spec fn escape_char(c: char) -> Seq<char> {
    if c == '&' {
        seq!['&', 'a', 'm', 'p', ';']
    } else if c == '<' {
        seq!['&', 'l', 't', ';']
    } else if c == '>' {
        seq!['&', 'g', 't', ';']
    } else if c == '"' {
        seq!['&', 'q', 'u', 'o', 't', ';']
    } else if c == '\'' {
        seq!['&', '#', 'x', '2', '7', ';']
    } else {
        seq![c]
    }
}

/// `s` with each character replaced by its HTML escape.
pub open spec fn escape_html(s: Seq<char>) -> Seq<char>
    decreases s.len(),
{
    if s.len() == 0 {
        seq![]
    } else {
        escape_html(s.drop_last()) + escape_char(s.last())
    }
}

/// Whether `c` may not stand raw in escaped HTML text.
pub open spec fn is_html_special(c: char) -> bool {
    c == '<' || c == '>' || c == '"' || c == '\''
}

/// Appends the escape of `c` to `out`.
fn push_escaped(out: &mut Vec<char>, c: char)
    ensures
        final(out)@ == old(out)@ + escape_char(c),
{
    if c == '&' {
        out.push('&');
        out.push('a');
        out.push('m');
        out.push('p');
        out.push(';');
    } else if c == '<' {
        out.push('&');
        out.push('l');
        out.push('t');
        out.push(';');
    } else if c == '>' {
        out.push('&');
        out.push('g');
        out.push('t');
        out.push(';');
    } else if c == '"' {
        out.push('&');
        out.push('q');
        out.push('u');
        out.push('o');
        out.push('t');
        out.push(';');
    } else if c == '\'' {
        out.push('&');
        out.push('#');
        out.push('x');
        out.push('2');
        out.push('7');
        out.push(';');
    } else {
        out.push(c);
    }
    assert(final(out)@ =~= old(out)@ + escape_char(c));
}

/// Escape HTML special characters.
pub fn html_escape(s: &str) -> (escaped: String)
    ensures
        escaped@ == escape_html(s@),
{
    let chars = chars_of(s);
    let mut out: Vec<char> = Vec::new();
    let mut i: usize = 0;
    while i < chars.len()
        invariant
            chars@ == s@,
            i <= chars@.len(),
            out@ == escape_html(chars@.take(i as int)),
        decreases chars@.len() - i,
    {
        push_escaped(&mut out, chars[i]);
        proof {
            assert(chars@.take(i + 1).drop_last() =~= chars@.take(i as int));
        }
        i = i + 1;
    }
    proof {
        assert(chars@.take(chars@.len() as int) =~= chars@);
    }
    string_from_chars(out.as_slice())
}

/// Escaped text holds no `<`, `>`, `"` or `'`, so it cannot open or close a
/// tag or an attribute value.
pub proof fn lemma_escaped_has_no_specials(s: Seq<char>)
    ensures
        forall|i: int| 0 <= i < escape_html(s).len() ==> !is_html_special(#[trigger] escape_html(s)[i]),
    decreases s.len(),
{
    if s.len() > 0 {
        lemma_escaped_has_no_specials(s.drop_last());
        let a = escape_html(s.drop_last());
        let b = escape_char(s.last());
        assert(escape_html(s) == a + b);
        assert forall|i: int| 0 <= i < (a + b).len() implies !is_html_special(#[trigger] (a + b)[i]) by {
            if i >= a.len() {
                assert((a + b)[i] == b[i - a.len()]);
            } else {
                assert((a + b)[i] == a[i]);
            }
        }
    }
}

/// Whether `s` starts with the escape of `c`.
pub open spec fn escape_at_start(s: Seq<char>, c: char) -> bool {
    escape_char(c).len() <= s.len() && s.take(escape_char(c).len() as int) == escape_char(c)
}

/// Escaped text read back: each entity that `escape_char` writes stands for
/// its character again, every other character for itself.
pub open spec fn unescape_html(s: Seq<char>) -> Seq<char>
    decreases s.len(),
{
    if s.len() == 0 {
        seq![]
    } else {
        let c = if escape_at_start(s, '&') {
            '&'
        } else if escape_at_start(s, '<') {
            '<'
        } else if escape_at_start(s, '>') {
            '>'
        } else if escape_at_start(s, '"') {
            '"'
        } else if escape_at_start(s, '\'') {
            '\''
        } else {
            s[0]
        };
        let n = if escape_at_start(s, c) {
            escape_char(c).len() as int
        } else {
            1
        };
        seq![c] + unescape_html(s.skip(n))
    }
}

/// The escape of a text is the escape of its first character followed by
/// the escape of the rest.
proof fn lemma_escape_front(s: Seq<char>)
    requires
        s.len() > 0,
    ensures
        escape_html(s) == escape_char(s[0]) + escape_html(s.drop_first()),
    decreases s.len(),
{
    if s.len() == 1 {
        assert(s.drop_last().len() == 0);
        assert(escape_html(s.drop_last()) =~= Seq::<char>::empty());
        assert(s.last() == s[0]);
        assert(s.drop_first().len() == 0);
        assert(escape_html(s) =~= escape_char(s[0]));
        assert(escape_char(s[0]) + escape_html(s.drop_first()) =~= escape_char(s[0]));
    } else {
        lemma_escape_front(s.drop_last());
        assert(s.drop_last().drop_first() =~= s.drop_first().drop_last());
        assert(s.drop_first().last() == s.last());
        assert(escape_html(s) =~= escape_char(s[0]) + escape_html(s.drop_first()));
    }
}

/// Reading back the escape of `c` followed by `rest` gives `c` followed by
/// `rest` read back.
proof fn lemma_unescape_step(c: char, rest: Seq<char>)
    ensures
        unescape_html(escape_char(c) + rest) == seq![c] + unescape_html(rest),
{
    let s = escape_char(c) + rest;
    let e = escape_char(c);
    assert(s.take(e.len() as int) =~= e);
    assert(s.skip(e.len() as int) =~= rest);
    assert(s[0] == e[0]);
    if is_html_special(c) || c == '&' {
        assert(s[1] == e[1]);
    }
    assert(escape_at_start(s, c));
    assert(c != '&' ==> !escape_at_start(s, '&')) by {
        if c != '&' && escape_at_start(s, '&') {
            assert(s.take(5)[1] == escape_char('&')[1]);
        }
    }
    assert(c != '<' ==> !escape_at_start(s, '<')) by {
        if c != '<' && escape_at_start(s, '<') {
            assert(s.take(4)[1] == escape_char('<')[1]);
        }
    }
    assert(c != '>' ==> !escape_at_start(s, '>')) by {
        if c != '>' && escape_at_start(s, '>') {
            assert(s.take(4)[1] == escape_char('>')[1]);
        }
    }
    assert(c != '"' ==> !escape_at_start(s, '"')) by {
        if c != '"' && escape_at_start(s, '"') {
            assert(s.take(6)[1] == escape_char('"')[1]);
        }
    }
    assert(c != '\'' ==> !escape_at_start(s, '\'')) by {
        if c != '\'' && escape_at_start(s, '\'') {
            assert(s.take(6)[1] == escape_char('\'')[1]);
        }
    }
}

/// Escaping loses nothing: reading the escaped text back gives the original
/// text.
pub proof fn law_unescape_inverts_escape(s: Seq<char>)
    ensures
        unescape_html(escape_html(s)) == s,
    decreases s.len(),
{
    if s.len() == 0 {
        assert(escape_html(s) =~= Seq::<char>::empty());
    } else {
        lemma_escape_front(s);
        lemma_unescape_step(s[0], escape_html(s.drop_first()));
        law_unescape_inverts_escape(s.drop_first());
        assert(seq![s[0]] + s.drop_first() =~= s);
    }
}

// ---------------------------------------------------------------------------
// Excerpts
// ---------------------------------------------------------------------------

/// Whether a paragraph break (`"\n\n"`) starts at position `k` of `s`.
pub open spec fn is_break_at(s: Seq<char>, k: int) -> bool {
    0 <= k && k + 1 < s.len() && s[k] == '\n' && s[k + 1] == '\n'
}

/// The position of the first paragraph break at or after `from`, or -1.
pub open spec fn break_from(s: Seq<char>, from: int) -> int
    decreases s.len() - from,
{
    if from < 0 || from + 1 >= s.len() {
        -1
    } else if s[from] == '\n' && s[from + 1] == '\n' {
        from
    } else {
        break_from(s, from + 1)
    }
}

/// `break_from` finds the first break at or after `from`.
pub proof fn lemma_break_from(s: Seq<char>, from: int)
    requires
        0 <= from,
    ensures
        break_from(s, from) == -1 || (from <= break_from(s, from) && is_break_at(s, break_from(s, from))),
        break_from(s, from) == -1 ==> forall|k: int| from <= k ==> !is_break_at(s, k),
        break_from(s, from) >= 0 ==> forall|k: int| from <= k < break_from(s, from) ==> !is_break_at(s, k),
    decreases s.len() - from,
{
    if from + 1 < s.len() && !(s[from] == '\n' && s[from + 1] == '\n') {
        lemma_break_from(s, from + 1);
    }
}

/// Whether a paragraph can serve as an excerpt: it is not blank and it is
/// not a heading (it does not start with `#`).
pub open spec fn is_prose(p: Seq<char>) -> bool {
    !all_white(p) && !(p.len() > 0 && p[0] == '#')
}

/// The first prose paragraph of `s` among those that start at `from`,
/// paragraphs being what splitting `s` at each `"\n\n"` gives.
pub open spec fn first_prose_from(s: Seq<char>, from: int) -> Option<Seq<char>>
    decreases s.len() - from,
{
    if from < 0 || from > s.len() {
        None
    } else {
        let k = break_from(s, from);
        if k < 0 {
            let p = s.subrange(from, s.len() as int);
            if is_prose(p) {
                Some(p)
            } else {
                None
            }
        } else {
            let p = s.subrange(from, k);
            if is_prose(p) {
                Some(p)
            } else {
                proof {
                    lemma_break_from(s, from);
                }
                first_prose_from(s, k + 2)
            }
        }
    }
}

/// The characters that excerpts leave out as markdown syntax.
pub open spec fn is_markup(c: char) -> bool {
    c == '#' || c == '*' || c == '_' || c == '`' || c == '[' || c == ']' || c == '(' || c == ')'
}

/// `s` without its markup characters.
pub open spec fn strip_markup(s: Seq<char>) -> Seq<char>
    decreases s.len(),
{
    if s.len() == 0 {
        seq![]
    } else if is_markup(s.last()) {
        strip_markup(s.drop_last())
    } else {
        strip_markup(s.drop_last()).push(s.last())
    }
}

/// Stripping markup removes exactly the characters `#`, `*`, `_`, `` ` ``,
/// `[`, `]`, `(` and `)`, and keeps every other character, in order.
pub proof fn law_strip_removes_exactly_markup(s: Seq<char>)
    ensures
        strip_markup(s) == s.filter(
            |c: char|
                !(c == '#' || c == '*' || c == '_' || c == '`' || c == '[' || c == ']' || c == '('
                    || c == ')'),
        ),
    decreases s.len(),
{
    reveal(Seq::filter);
    if s.len() > 0 {
        law_strip_removes_exactly_markup(s.drop_last());
    }
}

/// The position of the last space of `s`, or -1.
pub open spec fn last_space(s: Seq<char>) -> int
    decreases s.len(),
{
    if s.len() == 0 {
        -1
    } else if s.last() == ' ' {
        s.len() - 1
    } else {
        last_space(s.drop_last())
    }
}

/// The paragraph an excerpt is taken from: the first prose paragraph, or the
/// whole content when there is none.
pub open spec fn excerpt_source(content: Seq<char>) -> Seq<char> {
    match first_prose_from(content, 0) {
        Some(p) => p,
        None => content,
    }
}

/// The excerpt of `content`: its source paragraph without markup; trimmed
/// when it has at most `max_chars` characters; otherwise cut to `max_chars`
/// characters, then back to the last space if there is one, and followed by
/// `...`.
#[verifier::opaque]
pub open spec fn excerpt(content: Seq<char>, max_chars: nat) -> Seq<char> {
    let stripped = strip_markup(excerpt_source(content));
    if stripped.len() <= max_chars {
        trim(stripped)
    } else {
        let cut = stripped.take(max_chars as int);
        let k = last_space(cut);
        (if k >= 0 {
            cut.take(k)
        } else {
            cut
        }) + seq!['.', '.', '.']
    }
}

/// Stripping leaves no markup character.
proof fn lemma_strip_markup(s: Seq<char>)
    ensures
        forall|i: int| 0 <= i < strip_markup(s).len() ==> !is_markup(#[trigger] strip_markup(s)[i]),
        strip_markup(s).len() <= s.len(),
    decreases s.len(),
{
    if s.len() > 0 {
        lemma_strip_markup(s.drop_last());
    }
}

/// Trimming keeps a contiguous part of the text.
proof fn lemma_trim_is_part(s: Seq<char>)
    ensures
        exists|a: int, b: int| 0 <= a <= b <= s.len() && trim(s) == s.subrange(a, b),
{
    lemma_trim_start_is_suffix(s);
    let a = choose|a: int| 0 <= a <= s.len() && trim_start(s) == s.skip(a);
    let t = s.skip(a);
    lemma_trim_end_is_prefix(t);
    let b = choose|b: int| 0 <= b <= t.len() && trim_end(t) == t.take(b);
    assert(t.take(b) =~= s.subrange(a, a + b));
}

/// `trim_start(s)` is a suffix of `s`.
proof fn lemma_trim_start_is_suffix(s: Seq<char>)
    ensures
        exists|a: int| 0 <= a <= s.len() && trim_start(s) == s.skip(a),
    decreases s.len(),
{
    if s.len() > 0 && is_white(s[0]) {
        lemma_trim_start_is_suffix(s.drop_first());
        let a = choose|a: int| 0 <= a <= s.drop_first().len() && trim_start(s.drop_first()) == s.drop_first().skip(a);
        assert(s.drop_first().skip(a) =~= s.skip(a + 1));
    } else {
        assert(s.skip(0) =~= s);
    }
}

/// `trim_end(s)` is a prefix of `s`.
proof fn lemma_trim_end_is_prefix(s: Seq<char>)
    ensures
        exists|b: int| 0 <= b <= s.len() && trim_end(s) == s.take(b),
    decreases s.len(),
{
    if s.len() > 0 && is_white(s.last()) {
        lemma_trim_end_is_prefix(s.drop_last());
        let b = choose|b: int| 0 <= b <= s.drop_last().len() && trim_end(s.drop_last()) == s.drop_last().take(b);
        assert(s.drop_last().take(b) =~= s.take(b));
    } else {
        assert(s.take(s.len() as int) =~= s);
    }
}

/// An excerpt holds no markup character, and it is at most `max_chars`
/// characters long plus the three dots of a cut.
pub proof fn law_excerpt_is_plain_and_short(content: Seq<char>, max_chars: nat)
    ensures
        forall|i: int| 0 <= i < excerpt(content, max_chars).len() ==> !is_markup(#[trigger] excerpt(content, max_chars)[i]),
        excerpt(content, max_chars).len() <= max_chars + 3,
{
    reveal(excerpt);
    let stripped = strip_markup(excerpt_source(content));
    lemma_strip_markup(excerpt_source(content));
    let e = excerpt(content, max_chars);
    if stripped.len() <= max_chars {
        lemma_trim_is_part(stripped);
        let (a, b) = choose|a: int, b: int| 0 <= a <= b <= stripped.len() && trim(stripped) == stripped.subrange(a, b);
        assert forall|i: int| 0 <= i < e.len() implies !is_markup(#[trigger] e[i]) by {
            assert(e[i] == stripped[a + i]);
        }
    } else {
        let cut = stripped.take(max_chars as int);
        let k = last_space(cut);
        lemma_last_space(cut);
        let kept = if k >= 0 {
            cut.take(k)
        } else {
            cut
        };
        assert(e == kept + seq!['.', '.', '.']);
        assert forall|i: int| 0 <= i < e.len() implies !is_markup(#[trigger] e[i]) by {
            if i < kept.len() {
                assert(e[i] == stripped[i]);
            } else {
                assert(e[i] == '.');
            }
        }
    }
}

/// `last_space` is -1 or a position of `s`.
proof fn lemma_last_space(s: Seq<char>)
    ensures
        -1 <= last_space(s) < s.len(),
    decreases s.len(),
{
    if s.len() > 0 {
        lemma_last_space(s.drop_last());
    }
}

/// The position of the first paragraph break of `s` at or after `from`.
fn find_break(s: &Vec<char>, from: usize) -> (r: Option<usize>)
    requires
        from <= s@.len(),
    ensures
        match r {
            Some(k) => k as int == break_from(s@, from as int) && k + 2 <= s@.len(),
            None => break_from(s@, from as int) == -1,
        },
{
    let mut j = from;
    while j < s.len() && j + 1 < s.len()
        invariant
            from <= j <= s@.len(),
            break_from(s@, from as int) == break_from(s@, j as int),
        decreases s@.len() - j,
    {
        if s[j] == '\n' && s[j + 1] == '\n' {
            return Some(j);
        }
        j = j + 1;
    }
    None
}

/// Whether `s[from..to]` is a prose paragraph.
fn is_prose_range(s: &Vec<char>, from: usize, to: usize) -> (b: bool)
    requires
        from <= to <= s@.len(),
    ensures
        b == is_prose(s@.subrange(from as int, to as int)),
{
    let ghost p = s@.subrange(from as int, to as int);
    if from < to && s[from] == '#' {
        return false;
    }
    let mut i = from;
    while i < to
        invariant
            from <= i <= to <= s@.len(),
            p == s@.subrange(from as int, to as int),
            !(p.len() > 0 && p[0] == '#'),
            forall|j: int| 0 <= j < i - from ==> is_white(#[trigger] p[j]),
        decreases to - i,
    {
        if !is_whitespace(s[i]) {
            assert(p[i - from] == s@[i as int]);
            return true;
        }
        i = i + 1;
    }
    false
}

/// The bounds of the paragraph an excerpt of `s` is taken from.
fn excerpt_source_bounds(s: &Vec<char>) -> (r: (usize, usize))
    ensures
        r.0 <= r.1 <= s@.len(),
        s@.subrange(r.0 as int, r.1 as int) == excerpt_source(s@),
{
    let mut from: usize = 0;
    loop
        invariant
            from <= s@.len(),
            first_prose_from(s@, 0) == first_prose_from(s@, from as int),
        decreases s@.len() - from,
    {
        match find_break(s, from) {
            None => {
                if is_prose_range(s, from, s.len()) {
                    return (from, s.len());
                }
                proof {
                    assert(s@.subrange(0, s@.len() as int) =~= s@);
                }
                return (0, s.len());
            },
            Some(k) => {
                proof {
                    lemma_break_from(s@, from as int);
                }
                if is_prose_range(s, from, k) {
                    return (from, k);
                }
                assert(k + 2 <= s.len());
                from = k + 2;
            },
        }
    }
}

/// `s[from..to]` without its markup characters.
fn strip_range(s: &Vec<char>, from: usize, to: usize) -> (out: Vec<char>)
    requires
        from <= to <= s@.len(),
    ensures
        out@ == strip_markup(s@.subrange(from as int, to as int)),
{
    let mut out: Vec<char> = Vec::new();
    let mut i = from;
    while i < to
        invariant
            from <= i <= to <= s@.len(),
            out@ == strip_markup(s@.subrange(from as int, i as int)),
        decreases to - i,
    {
        let c = s[i];
        proof {
            let t = s@.subrange(from as int, i + 1);
            assert(t.drop_last() =~= s@.subrange(from as int, i as int));
            assert(t.last() == c);
        }
        if !(c == '#' || c == '*' || c == '_' || c == '`' || c == '[' || c == ']' || c == '('
            || c == ')') {
            out.push(c);
        }
        i = i + 1;
    }
    out
}

/// The position of the last space among the first `n` characters of `s`.
fn find_last_space(s: &Vec<char>, n: usize) -> (r: Option<usize>)
    requires
        n <= s@.len(),
    ensures
        match r {
            Some(k) => k < n && k as int == last_space(s@.take(n as int)),
            None => last_space(s@.take(n as int)) == -1,
        },
{
    let mut j = n;
    while j > 0
        invariant
            j <= n <= s@.len(),
            last_space(s@.take(n as int)) == last_space(s@.take(j as int)),
        decreases j,
    {
        proof {
            assert(s@.take(j as int).drop_last() =~= s@.take(j - 1));
        }
        if s[j - 1] == ' ' {
            return Some(j - 1);
        }
        j = j - 1;
    }
    None
}

// ---------------------------------------------------------------------------
// Syntax highlighting with syntect
// ---------------------------------------------------------------------------

#[verifier::external_type_specification]
#[verifier::external_body]
pub struct ExSyntaxSet(SyntaxSet);

#[verifier::external_type_specification]
#[verifier::external_body]
pub struct ExThemeSet(ThemeSet);

/// The names of the syntaxes that a syntax set holds.
pub uninterp spec fn syntax_names(syntaxes: SyntaxSet) -> Set<Seq<char>>;

/// Whether a syntax set holds syntect's bundled syntax definitions for text
/// with newlines, as `SyntaxSet::load_defaults_newlines` builds them.
pub uninterp spec fn is_bundled_syntax_set(syntaxes: SyntaxSet) -> bool;

/// The names of the themes that a theme set holds (the keys of its
/// `themes` map).
pub uninterp spec fn theme_names(themes: ThemeSet) -> Set<Seq<char>>;

/// Whether a theme set holds syntect's bundled themes, as
/// `ThemeSet::load_defaults` builds them.
pub uninterp spec fn is_bundled_theme_set(themes: ThemeSet) -> bool;

/// The HTML that syntect's `highlighted_html_for_string` writes for `code`,
/// highlighted with the bundled syntax that `token` selects (the plain-text
/// syntax when none does) and the bundled theme named `theme`; `None` when it
/// reports an error.
pub uninterp spec fn syntect_html(code: Seq<char>, token: Seq<char>, theme: Seq<char>) -> Option<Seq<char>>;

/// The theme code blocks are highlighted with.
pub const CODE_THEME: &'static str = "InspiredGitHub";

/// `syntect::parsing::SyntaxSet::load_defaults_newlines`: syntect's bundled
/// syntax definitions, read from the dump that the crate embeds. The first
/// syntax of that dump is named `Plain Text` (extension `txt`, scope
/// `text.plain`), which is what `find_syntax_plain_text` looks for.
#[verifier::external_body]
fn load_default_syntaxes() -> (syntaxes: SyntaxSet)
    ensures
        is_bundled_syntax_set(syntaxes),
        syntax_names(syntaxes).contains("Plain Text"@),
{
    SyntaxSet::load_defaults_newlines()
}

/// The keys of syntect's bundled theme map.
pub open spec fn default_theme_names() -> Set<Seq<char>> {
    set![
        "base16-ocean.dark"@,
        "base16-eighties.dark"@,
        "base16-mocha.dark"@,
        "base16-ocean.light"@,
        "InspiredGitHub"@,
        "Solarized (dark)"@,
        "Solarized (light)"@,
    ]
}

/// `syntect::highlighting::ThemeSet::load_defaults`: syntect's bundled
/// themes. Its documentation lists the keys of the map, which this contract
/// states: the three `base16` dark themes, `base16-ocean.light`,
/// `InspiredGitHub` and the two Solarized themes.
#[verifier::external_body]
fn load_default_themes() -> (themes: ThemeSet)
    ensures
        is_bundled_theme_set(themes),
        theme_names(themes) == default_theme_names(),
{
    ThemeSet::load_defaults()
}

/// Highlights `code` with syntect: `SyntaxSet::find_syntax_by_token(token)`
/// selects the syntax, `find_syntax_plain_text` (which panics on a set
/// without a `Plain Text` syntax, hence the precondition) stands in when it
/// finds none, the theme named `theme` is taken from the `themes` map (which
/// panics on a missing key, hence the precondition), and
/// `highlighted_html_for_string` writes the HTML; an error becomes `None`.
/// Each of these is deterministic and the sets are the bundled ones, so the
/// contract names the result as a function of the code, the token and the
/// theme's name; what that HTML is, is not stated.
#[verifier::external_body]
fn syntect_highlight(code: &str, token: &str, syntaxes: &SyntaxSet, themes: &ThemeSet, theme: &str) -> (html: Option<String>)
    requires
        is_bundled_syntax_set(*syntaxes),
        syntax_names(*syntaxes).contains("Plain Text"@),
        is_bundled_theme_set(*themes),
        theme_names(*themes).contains(theme@),
    ensures
        syntect_html(code@, token@, theme@) == match html {
            Some(h) => Some(h@),
            None => None,
        },
{
    let syntax = syntaxes.find_syntax_by_token(token).unwrap_or_else(|| syntaxes.find_syntax_plain_text());
    highlighted_html_for_string(code, syntaxes, syntax, &themes.themes[theme]).ok()
}

/// The HTML of a code block in language `lang`: the highlighter's output
/// wrapped in a labelled container when it produced some, else the escaped
/// code in a plain `pre` block.
pub open spec fn code_block_html(code: Seq<char>, lang: Seq<char>, highlighted: Option<Seq<char>>) -> Seq<char> {
    match highlighted {
        Some(h) => "<div class=\"code-block\" data-lang=\""@ + lang
            + "\"><pre><code class=\"language-"@ + lang + "\">"@ + h
            + "</code></pre></div>"@,
        None => "<pre><code class=\"language-"@ + lang + "\">"@ + escape_html(code)
            + "</code></pre>"@,
    }
}

/// The HTML of a code block, given what the highlighter produced for it
/// (`None` when it failed).
pub fn code_block(code: &str, lang: &str, highlighted: Option<&str>) -> (html: String)
    ensures
        html@ == code_block_html(
            code@,
            lang@,
            match highlighted {
                Some(h) => Some(h@),
                None => None,
            },
        ),
{
    match highlighted {
        Some(h) => {
            let mut out = "<div class=\"code-block\" data-lang=\"".to_owned();
            out.append(lang);
            out.append("\"><pre><code class=\"language-");
            out.append(lang);
            out.append("\">");
            out.append(h);
            out.append("</code></pre></div>");
            out
        },
        None => {
            let mut out = "<pre><code class=\"language-".to_owned();
            out.append(lang);
            out.append("\">");
            let escaped = html_escape(code);
            out.append(escaped.as_str());
            out.append("</code></pre>");
            out
        },
    }
}

/// The HTML of a code block of `code` in language `lang`, highlighted by
/// syntect with the bundled syntax for `lang` and the code theme.
pub open spec fn highlighted_block(code: Seq<char>, lang: Seq<char>) -> Seq<char> {
    code_block_html(code, lang, syntect_html(code, lang, CODE_THEME@))
}

/// A code block is highlighted with the syntax that its own language
/// selects: the token handed to syntect is the block's language, and the
/// theme is `InspiredGitHub`.
pub proof fn law_code_block_highlighted_in_its_language(code: Seq<char>, lang: Seq<char>)
    ensures
        highlighted_block(code, lang) == code_block_html(
            code,
            lang,
            syntect_html(code, lang, "InspiredGitHub"@),
        ),
{
}

/// Whether `html` is the rendering of `markdown`: the HTML of its events with
/// each code block replaced by its highlighted HTML.
pub open spec fn is_rendering(markdown: Seq<char>, html: Seq<char>) -> bool {
    html == markdown_html(markdown, highlighted_pieces(markdown_events(markdown)))
}

/// Markdown renderer with syntax highlighting.
pub struct MarkdownRenderer {
    syntax_set: SyntaxSet,
    theme_set: ThemeSet,
}

impl MarkdownRenderer {
    /// The renderer holds syntect's bundled syntaxes, among them the plain
    /// text syntax, and its bundled themes, among them the code theme.
    #[verifier::type_invariant]
    spec fn holds_bundled_sets(self) -> bool {
        &&& is_bundled_syntax_set(self.syntax_set)
        &&& syntax_names(self.syntax_set).contains("Plain Text"@)
        &&& is_bundled_theme_set(self.theme_set)
        &&& theme_names(self.theme_set).contains(CODE_THEME@)
    }

    /// The names of the themes the renderer can highlight with.
    pub closed spec fn themes(self) -> Set<Seq<char>> {
        theme_names(self.theme_set)
    }

    /// Create a new markdown renderer, holding syntect's bundled syntaxes
    /// and themes.
    pub fn new() -> (r: Self)
        ensures
            r.themes() == default_theme_names(),
    {
        MarkdownRenderer { syntax_set: load_default_syntaxes(), theme_set: load_default_themes() }
    }

    /// Render markdown to HTML with syntax highlighting.
    pub fn render(&self, markdown: &str) -> (html: String)
        ensures
            is_rendering(markdown@, html@),
    {
        let events = parse_events(markdown);
        let pieces = self.highlight_events(&events);
        let html = render_pieces(markdown, &pieces);
        html
    }

    /// The pieces of the output for `events`: each code block replaced by its
    /// highlighted HTML, every other event kept in place.
    pub(crate) fn highlight_events(&self, events: &Vec<MdEvent>) -> (pieces: Vec<HtmlPiece>)
        ensures
            sources_below(pieces_view(pieces@), events@.len()),
            pieces_view(pieces@) == highlighted_pieces(events_view(events@)),
    {
        let ghost ev = events_view(events@);
        let mut highlighter = SyntaxHighlighter::new();
        let mut pieces: Vec<HtmlPiece> = Vec::new();
        let mut i: usize = 0;
        while i < events.len()
            invariant
                ev == events_view(events@),
                i <= events@.len(),
                highlight_run(ev.take(i as int)) == (highlighter@, pieces_view(pieces@)),
                sources_below(pieces_view(pieces@), i as nat),
            decreases events@.len() - i,
        {
            let ghost old_pieces = pieces_view(pieces@);
            let piece = highlighter.next_piece(self, i, &events[i]);
            proof {
                let next = ev.take(i + 1);
                assert(next.drop_last() =~= ev.take(i as int));
                assert(next.last() == events@[i as int]@);
            }
            match piece {
                Some(p) => {
                    pieces.push(p);
                },
                None => {},
            }
            proof {
                assert(pieces_view(pieces@) =~= old_pieces + match piece {
                    Some(p) => seq![p@],
                    None => Seq::<HtmlPieceView>::empty(),
                });
            }
            i = i + 1;
        }
        proof {
            assert(ev.take(events@.len() as int) =~= ev);
        }
        pieces
    }

    /// The HTML of a code block of `code` in language `lang`, highlighted
    /// with the renderer's syntaxes and theme.
    pub(crate) fn highlight_code(&self, code: &str, lang: &str) -> (html: String)
        ensures
            html@ == highlighted_block(code@, lang@),
            html@ == code_block_html(code@, lang@, syntect_html(code@, lang@, "InspiredGitHub"@)),
    {
        proof {
            use_type_invariant(self);
        }
        let highlighted = syntect_highlight(code, lang, &self.syntax_set, &self.theme_set, CODE_THEME);
        match highlighted {
            Some(h) => code_block(code, lang, Some(h.as_str())),
            None => code_block(code, lang, None),
        }
    }
}

impl Default for MarkdownRenderer {
    fn default() -> (r: Self)
        ensures
            r.themes() == default_theme_names(),
    {
        Self::new()
    }
}

impl MarkdownRenderer {
    /// Calculate reading time in minutes.
    pub fn reading_time(content: &str) -> (minutes: i32)
        ensures
            minutes == reading_minutes(word_count(content@)),
            minutes >= 1,
    {
        let chars = chars_of(content);
        let words = count_words(&chars);
        let q = words / 200;
        let m = if words % 200 == 0 {
            q
        } else {
            q + 1
        };
        assert(m == (words + 199) / 200);
        if m == 0 {
            1
        } else if m > 2147483647 {
            2147483647
        } else {
            m as i32
        }
    }

    /// Extract excerpt from content (first paragraph or N characters).
    pub fn extract_excerpt(content: &str, max_chars: usize) -> (e: String)
        ensures
            e@ == excerpt(content@, max_chars as nat),
    {
        let chars = chars_of(content);
        let (from, to) = excerpt_source_bounds(&chars);
        let stripped = strip_range(&chars, from, to);
        let ghost source = excerpt_source(content@);
        assert(chars@.subrange(from as int, to as int) == source);
        assert(stripped@ == strip_markup(source));
        if stripped.len() <= max_chars {
            let t = trimmed_text(&stripped);
            assert(t@ == excerpt(content@, max_chars as nat)) by {
                reveal(excerpt);
            }
            t
        } else {
            let t = cut_text(&stripped, max_chars);
            assert(t@ == excerpt(content@, max_chars as nat)) by {
                reveal(excerpt);
            }
            t
        }
    }
}

/// `s` trimmed of leading and trailing whitespace.
fn trimmed_text(s: &Vec<char>) -> (t: String)
    ensures
        t@ == trim(s@),
{
    let (a, b) = trim_bounds(s);
    let mut out: Vec<char> = Vec::new();
    let mut i = a;
    while i < b
        invariant
            a <= i <= b <= s@.len(),
            out@ == s@.subrange(a as int, i as int),
        decreases b - i,
    {
        out.push(s[i]);
        proof {
            assert(out@ =~= s@.subrange(a as int, i + 1));
        }
        i = i + 1;
    }
    string_from_chars(out.as_slice())
}

/// `s` cut to `max_chars` characters, then back to its last space if it has
/// one, followed by `...`.
fn cut_text(s: &Vec<char>, max_chars: usize) -> (t: String)
    ensures
        t@ == ({
            let cut = if max_chars < s@.len() {
                s@.take(max_chars as int)
            } else {
                s@
            };
            let k = last_space(cut);
            (if k >= 0 {
                cut.take(k)
            } else {
                cut
            }) + seq!['.', '.', '.']
        }),
{
    let n = if max_chars < s.len() {
        max_chars
    } else {
        s.len()
    };
    let ghost cut = s@.take(n as int);
    proof {
        if max_chars >= s@.len() {
            assert(cut =~= s@);
        }
    }
    let end = match find_last_space(s, n) {
        Some(k) => k,
        None => n,
    };
    let mut out: Vec<char> = Vec::new();
    let mut i: usize = 0;
    while i < end
        invariant
            i <= end <= n <= s@.len(),
            out@ == s@.take(i as int),
        decreases end - i,
    {
        out.push(s[i]);
        proof {
            assert(out@ =~= s@.take(i + 1));
        }
        i = i + 1;
    }
    out.push('.');
    out.push('.');
    out.push('.');
    proof {
        assert(cut.take(end as int) =~= s@.take(end as int));
    }
    string_from_chars(out.as_slice())
}

} // verus!
