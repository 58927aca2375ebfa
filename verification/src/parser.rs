//! Markdown and notebook processing: the scan of the Markdown event stream (code highlighting,
//! heading collection), the table of contents, and the Markdown text of a notebook.
use vstd::prelude::*;
use vstd::string::StringExecFns;
use crate::config::FrontMatter;
use crate::error::ConversionError;
use crate::security::css::opt_view;
use crate::text::{owned, str_eq, views};
use gray_matter::engine::YAML;
use gray_matter::Matter;
use pulldown_cmark::{CodeBlockKind, Event, Options, Parser, Tag, TagEnd};
use syntect::highlighting::ThemeSet;
use syntect::parsing::SyntaxSet;

verus! {

// ---------------------------------------------------------------------------------------------
// Table of contents
// ---------------------------------------------------------------------------------------------

/// A heading of the document: its level (1 to 6), its text and its anchor id.
pub struct Heading {
    pub level: i32,
    pub text: String,
    pub id: String,
}

/// The plain value of a heading: level, text, id.
pub type HeadingView = (i32, Seq<char>, Seq<char>);

impl View for Heading {
    type V = HeadingView;

    open spec fn view(&self) -> HeadingView {
        (self.level, self.text@, self.id@)
    }
}

/// The views of a vector of headings.
pub open spec fn heading_views(hs: Seq<Heading>) -> Seq<HeadingView> {
    hs.map_values(|h: Heading| h@)
}

/// Every heading has a level from 1 to 6.
pub open spec fn valid_levels(hs: Seq<HeadingView>) -> bool {
    forall|i: int| 0 <= i < hs.len() ==> 1 <= #[trigger] hs[i].0 <= 6
}

/// Every heading has a level from 0 to 6 (0 stands for a heading whose start was not seen).
pub open spec fn toc_levels(hs: Seq<HeadingView>) -> bool {
    forall|i: int| 0 <= i < hs.len() ==> 0 <= #[trigger] hs[i].0 <= 6
}

/// The level a heading's entry starts from: the previous heading's level, or the heading's own
/// level when there is no previous heading or the previous one has level 0.
pub open spec fn start_level(prev: i32, level: i32) -> i32 {
    if prev == 0 {
        level
    } else {
        prev
    }
}

/// `html_escape::encode_text`: `&`, `<` and `>` become `&amp;`, `&lt;` and `&gt;`; every other
/// character is kept.
pub open spec fn escape_text(s: Seq<char>) -> Seq<char>
    decreases s.len(),
{
    if s.len() == 0 {
        Seq::empty()
    } else {
        escape_text(s.drop_last()) + escape_char(s.last())
    }
}

/// The escaped form of one character.
pub open spec fn escape_char(c: char) -> Seq<char> {
    if c == '&' {
        "&amp;"@
    } else if c == '<' {
        "&lt;"@
    } else if c == '>' {
        "&gt;"@
    } else {
        seq![c]
    }
}

/// Calls `html_escape::encode_text`, which escapes `&`, `<` and `>` and keeps every other
/// character (as its documentation and source show).
#[verifier::external_body]
fn encode_text(s: &str) -> (r: String)
    ensures
        r@ == escape_text(s@),
{
    html_escape::encode_text(s).to_string()
}

/// `html_escape::encode_double_quoted_attribute`: `&`, `<`, `>` and `"` become `&amp;`,
/// `&lt;`, `&gt;` and `&quot;`; every other character is kept.
pub open spec fn escape_attribute(s: Seq<char>) -> Seq<char>
    decreases s.len(),
{
    if s.len() == 0 {
        Seq::empty()
    } else {
        escape_attribute(s.drop_last()) + escape_attribute_char(s.last())
    }
}

/// The attribute-escaped form of one character.
pub open spec fn escape_attribute_char(c: char) -> Seq<char> {
    if c == '"' {
        "&quot;"@
    } else {
        escape_char(c)
    }
}

/// Calls `html_escape::encode_double_quoted_attribute`, which escapes `&`, `<`, `>` and `"`
/// and keeps every other character (as its documentation and source show).
#[verifier::external_body]
fn encode_attribute(s: &str) -> (r: String)
    ensures
        r@ == escape_attribute(s@),
{
    html_escape::encode_double_quoted_attribute(s).to_string()
}

/// A text escaped for a double-quoted attribute holds no double quote: it cannot end the
/// attribute it is written in, nor add another.
pub proof fn lemma_attribute_escape_keeps_quotes_out(s: Seq<char>)
    ensures
        forall|i: int|
            0 <= i < escape_attribute(s).len() ==> escape_attribute(s)[i] != '"',
    decreases s.len(),
{
    if s.len() > 0 {
        lemma_attribute_escape_keeps_quotes_out(s.drop_last());
        let head = escape_attribute(s.drop_last());
        let tail = escape_attribute_char(s.last());
        reveal_strlit("&quot;");
        reveal_strlit("&amp;");
        reveal_strlit("&lt;");
        reveal_strlit("&gt;");
        assert forall|i: int| 0 <= i < tail.len() implies tail[i] != '"' by {}
        assert forall|i: int| 0 <= i < (head + tail).len() implies (head + tail)[i] != '"' by {
            if i < head.len() {
                assert((head + tail)[i] == head[i]);
            } else {
                assert((head + tail)[i] == tail[i - head.len()]);
            }
        }
    }
}

/// A piece of the table of contents: a list opened, a list closed, or an entry.
pub enum TocToken {
    Open,
    Close,
    Entry { id: Seq<char>, text: Seq<char> },
}

/// `n` copies of a token.
pub open spec fn repeat_token(t: TocToken, n: int) -> Seq<TocToken>
    decreases n,
{
    if n <= 0 {
        Seq::empty()
    } else {
        repeat_token(t, n - 1).push(t)
    }
}

/// The tokens written for heading `h` when the previous heading had level `prev` (0 for none):
/// lists opened or closed to go from the previous level to this one, then the entry.
pub open spec fn step_tokens(prev: i32, h: HeadingView) -> Seq<TocToken> {
    let last = start_level(prev, h.0);
    let moves = if h.0 > last {
        repeat_token(TocToken::Open, h.0 - last)
    } else {
        repeat_token(TocToken::Close, last - h.0)
    };
    moves.push(TocToken::Entry { id: h.2, text: h.1 })
}

/// The tokens of the entries of the table of contents, heading after heading.
pub open spec fn toc_tokens(hs: Seq<HeadingView>) -> Seq<TocToken>
    decreases hs.len(),
{
    if hs.len() == 0 {
        Seq::empty()
    } else {
        let prev = if hs.len() == 1 {
            0i32
        } else {
            hs[hs.len() - 2].0
        };
        toc_tokens(hs.drop_last()) + step_tokens(prev, hs.last())
    }
}

/// The lists closed at the end, down to the level of the first heading.
pub open spec fn closing_tokens(hs: Seq<HeadingView>) -> Seq<TocToken> {
    repeat_token(TocToken::Close, hs.last().0 - hs[0].0)
}

/// The text of one token.
pub open spec fn token_html(t: TocToken) -> Seq<char> {
    match t {
        TocToken::Open => "<ul>"@,
        TocToken::Close => "</ul>"@,
        TocToken::Entry { id, text } => "<li><a href=\"#"@ + escape_attribute(id) + "\">"@
            + escape_text(text) + "</a></li>"@,
    }
}

/// The text of a sequence of tokens.
pub open spec fn tokens_html(ts: Seq<TocToken>) -> Seq<char>
    decreases ts.len(),
{
    if ts.len() == 0 {
        Seq::empty()
    } else {
        tokens_html(ts.drop_last()) + token_html(ts.last())
    }
}

/// The table of contents: empty without headings, else a `toc` list holding the entries, with
/// nested lists following the heading levels.
pub open spec fn toc_html(hs: Seq<HeadingView>) -> Seq<char> {
    if hs.len() == 0 {
        Seq::empty()
    } else {
        "<ul class=\"toc\">"@ + tokens_html(toc_tokens(hs) + closing_tokens(hs)) + "</ul>"@
    }
}

proof fn lemma_tokens_html_append(a: Seq<TocToken>, b: Seq<TocToken>)
    ensures
        tokens_html(a + b) == tokens_html(a) + tokens_html(b),
    decreases b.len(),
{
    if b.len() == 0 {
        assert(a + b =~= a);
    } else {
        lemma_tokens_html_append(a, b.drop_last());
        assert((a + b).drop_last() =~= a + b.drop_last());
    }
}

proof fn lemma_repeat_push(t: TocToken, n: int)
    requires
        n >= 0,
    ensures
        repeat_token(t, n + 1) == repeat_token(t, n).push(t),
{
}

/// Appends `n` copies of `piece` (the text of token `t`) to `out`.
fn push_repeated(out: &mut String, piece: &str, n: i32, Ghost(t): Ghost<TocToken>)
    requires
        n >= 0,
        token_html(t) == piece@,
    ensures
        final(out)@ == old(out)@ + tokens_html(repeat_token(t, n as int)),
{
    let mut k: i32 = 0;
    while k < n
        invariant
            0 <= k <= n,
            token_html(t) == piece@,
            out@ == old(out)@ + tokens_html(repeat_token(t, k as int)),
        decreases n - k,
    {
        proof {
            lemma_repeat_push(t, k as int);
            lemma_tokens_html_append(repeat_token(t, k as int), seq![t]);
            assert(repeat_token(t, k as int).push(t) =~= repeat_token(t, k as int) + seq![t]);
            lemma_tokens_html_single(t);
        }
        out.append(piece);
        k = k + 1;
    }
}

proof fn lemma_toc_tokens_step(hs: Seq<HeadingView>, i: int)
    requires
        0 <= i < hs.len(),
    ensures
        toc_tokens(hs.take(i + 1)) == toc_tokens(hs.take(i)) + step_tokens(
            if i == 0 {
                0i32
            } else {
                hs[i - 1].0
            },
            hs[i],
        ),
{
    assert(hs.take(i + 1).drop_last() =~= hs.take(i));
}

proof fn lemma_tokens_html_single(t: TocToken)
    ensures
        tokens_html(seq![t]) == token_html(t),
{
    let s = seq![t];
    assert(s.len() == 1);
    assert(s.last() == t);
    assert(s.drop_last() =~= Seq::<TocToken>::empty());
    assert(tokens_html(Seq::<TocToken>::empty()) == Seq::<char>::empty());
    assert(tokens_html(s) == tokens_html(s.drop_last()) + token_html(s.last()));
    assert(Seq::<char>::empty() + token_html(t) =~= token_html(t));
}

proof fn lemma_toc_step_html(hv: Seq<HeadingView>, i: int, moves: Seq<TocToken>)
    requires
        0 <= i < hv.len(),
        moves == (if hv[i].0 > start_level((if i == 0 { 0i32 } else { hv[i - 1].0 }), hv[i].0) {
            repeat_token(TocToken::Open, hv[i].0 - start_level((if i == 0 { 0i32 } else { hv[i - 1].0 }), hv[i].0))
        } else {
            repeat_token(TocToken::Close, start_level((if i == 0 { 0i32 } else { hv[i - 1].0 }), hv[i].0) - hv[i].0)
        }),
    ensures
        tokens_html(toc_tokens(hv.take(i + 1))) == tokens_html(toc_tokens(hv.take(i)))
            + tokens_html(moves) + token_html(TocToken::Entry { id: hv[i].2, text: hv[i].1 }),
{
    let entry = TocToken::Entry { id: hv[i].2, text: hv[i].1 };
    let prev: i32 = if i == 0 { 0i32 } else { hv[i - 1].0 };
    lemma_toc_tokens_step(hv, i);
    assert(step_tokens(prev, hv[i]) == moves.push(entry));
    lemma_tokens_html_append(moves, seq![entry]);
    assert(moves.push(entry) =~= moves + seq![entry]);
    lemma_tokens_html_single(entry);
    lemma_tokens_html_append(toc_tokens(hv.take(i)), moves.push(entry));
}

/// Appends the entry of a heading: a list item linking to the heading's id (escaped for the
/// attribute) and showing its text (escaped).
fn append_entry(toc: &mut String, h: &Heading)
    ensures
        final(toc)@ == old(toc)@ + token_html(TocToken::Entry { id: h.id@, text: h.text@ }),
{
    proof {
        reveal_strlit("<li><a href=\"#");
        reveal_strlit("\">");
        reveal_strlit("</a></li>");
    }
    let escaped = encode_text(h.text.as_str());
    let id = encode_attribute(h.id.as_str());
    toc.append("<li><a href=\"#");
    toc.append(id.as_str());
    toc.append("\">");
    toc.append(escaped.as_str());
    toc.append("</a></li>");
}

/// Generates the table of contents from the headings, nesting lists by heading level.
pub fn generate_toc_html(headers: &Vec<Heading>) -> (r: String)
    requires
        toc_levels(heading_views(headers@)),
    ensures
        r@ == toc_html(heading_views(headers@)),
{
    let ghost hv = heading_views(headers@);
    if headers.len() == 0 {
        return String::new();
    }
    proof {
        reveal_strlit("<ul class=\"toc\">");
        reveal_strlit("<ul>");
        reveal_strlit("</ul>");
    }
    let base_level = headers[0].level;
    let mut toc = owned("<ul class=\"toc\">");
    let mut last_level: i32 = 0;
    let n = headers.len();
    let mut i: usize = 0;
    while i < n
        invariant
            n == headers@.len(),
            n > 0,
            hv == heading_views(headers@),
            toc_levels(hv),
            i <= n,
            i == 0 ==> last_level == 0,
            i > 0 ==> last_level == hv[i - 1].0,
            toc@ == "<ul class=\"toc\">"@ + tokens_html(toc_tokens(hv.take(i as int))),
        decreases n - i,
    {
        let level = headers[i].level;
        assert(hv[i as int].0 == level);
        assert(0 <= level <= 6);
        if last_level == 0 {
            last_level = level;
        }
        let ghost before = toc@;
        let ghost prev: i32 = if i == 0 { 0i32 } else { hv[i - 1].0 };
        let ghost moves = if level > last_level {
            repeat_token(TocToken::Open, level - last_level)
        } else {
            repeat_token(TocToken::Close, last_level - level)
        };
        if level > last_level {
            push_repeated(&mut toc, "<ul>", level - last_level, Ghost(TocToken::Open));
        } else {
            push_repeated(&mut toc, "</ul>", last_level - level, Ghost(TocToken::Close));
        }
        assert(toc@ == before + tokens_html(moves));
        append_entry(&mut toc, &headers[i]);
        proof {
            lemma_toc_step_html(hv, i as int, moves);
        }
        last_level = level;
        i = i + 1;
    }
    proof {
        assert(hv.take(n as int) =~= hv);
    }
    let ghost body = toc@;
    assert(hv.last().0 == last_level);
    assert(0 <= hv.last().0 <= 6);
    assert(0 <= hv[0].0 <= 6);
    if last_level > base_level {
        push_repeated(&mut toc, "</ul>", last_level - base_level, Ghost(TocToken::Close));
    } else {
        push_repeated(&mut toc, "</ul>", 0, Ghost(TocToken::Close));
    }
    proof {
        assert(hv.last().0 == last_level);
        assert(hv[0].0 == base_level);
        lemma_tokens_html_append(toc_tokens(hv), closing_tokens(hv));
        if last_level <= base_level {
            assert(closing_tokens(hv) == repeat_token(TocToken::Close, 0));
        }
    }
    toc.append("</ul>");
    toc
}

/// Number of lists opened among the tokens.
pub open spec fn opened(ts: Seq<TocToken>) -> int
    decreases ts.len(),
{
    if ts.len() == 0 {
        0
    } else {
        opened(ts.drop_last()) + if ts.last() is Open {
            1int
        } else {
            0int
        }
    }
}

/// Number of lists closed among the tokens.
pub open spec fn closed(ts: Seq<TocToken>) -> int
    decreases ts.len(),
{
    if ts.len() == 0 {
        0
    } else {
        closed(ts.drop_last()) + if ts.last() is Close {
            1int
        } else {
            0int
        }
    }
}

proof fn lemma_counts_append(a: Seq<TocToken>, b: Seq<TocToken>)
    ensures
        opened(a + b) == opened(a) + opened(b),
        closed(a + b) == closed(a) + closed(b),
    decreases b.len(),
{
    if b.len() == 0 {
        assert(a + b =~= a);
    } else {
        lemma_counts_append(a, b.drop_last());
        assert((a + b).drop_last() =~= a + b.drop_last());
    }
}

proof fn lemma_counts_repeat(t: TocToken, n: int)
    requires
        n >= 0,
    ensures
        opened(repeat_token(t, n)) == if t is Open {
            n
        } else {
            0
        },
        closed(repeat_token(t, n)) == if t is Close {
            n
        } else {
            0
        },
    decreases n,
{
    if n > 0 {
        lemma_counts_repeat(t, n - 1);
        assert(repeat_token(t, n).drop_last() =~= repeat_token(t, n - 1));
    }
}

proof fn lemma_toc_net_depth(hs: Seq<HeadingView>)
    requires
        hs.len() > 0,
        valid_levels(hs),
    ensures
        opened(toc_tokens(hs)) - closed(toc_tokens(hs)) == hs.last().0 - hs[0].0,
    decreases hs.len(),
{
    let h = hs.last();
    let prev: i32 = if hs.len() == 1 {
        0i32
    } else {
        hs[hs.len() - 2].0
    };
    let last = start_level(prev, h.0);
    let entry = TocToken::Entry { id: h.2, text: h.1 };
    let moves = if h.0 > last {
        repeat_token(TocToken::Open, h.0 - last)
    } else {
        repeat_token(TocToken::Close, last - h.0)
    };
    assert(1 <= h.0 <= 6);
    if hs.len() > 1 {
        let init = hs.drop_last();
        assert(valid_levels(init)) by {
            assert forall|i: int| 0 <= i < init.len() implies 1 <= #[trigger] init[i].0 <= 6 by {
                assert(init[i] == hs[i]);
            }
        }
        lemma_toc_net_depth(init);
        assert(init.last() == hs[hs.len() - 2]);
        assert(init[0] == hs[0]);
        assert(1 <= hs[hs.len() - 2].0);
    }
    if h.0 > last {
        lemma_counts_repeat(TocToken::Open, h.0 - last);
    } else {
        lemma_counts_repeat(TocToken::Close, last - h.0);
    }
    lemma_counts_append(moves, seq![entry]);
    assert(moves.push(entry) =~= moves + seq![entry]);
    assert(opened(seq![entry]) == 0 && closed(seq![entry]) == 0) by {
        let e = seq![entry];
        assert(e.len() == 1);
        assert(e.last() == entry);
        assert(e.drop_last() =~= Seq::<TocToken>::empty());
        assert(opened(Seq::<TocToken>::empty()) == 0);
        assert(closed(Seq::<TocToken>::empty()) == 0);
    }
    lemma_counts_append(toc_tokens(hs.drop_last()), step_tokens(prev, h));
}

/// Every list that the table of contents opens it also closes, when the last heading is not
/// above the level of the first one (a last heading above it, such as levels 2 then 1, closes
/// the outer list early).
pub proof fn lemma_toc_lists_balanced(hs: Seq<HeadingView>)
    requires
        hs.len() > 0,
        valid_levels(hs),
        hs.last().0 >= hs[0].0,
    ensures
        opened(toc_tokens(hs) + closing_tokens(hs)) == closed(toc_tokens(hs) + closing_tokens(hs)),
{
    lemma_toc_net_depth(hs);
    lemma_counts_repeat(TocToken::Close, hs.last().0 - hs[0].0);
    lemma_counts_append(toc_tokens(hs), closing_tokens(hs));
}

/// The entries among `ts`, as (id, text) pairs, in order.
pub open spec fn toc_entries(ts: Seq<TocToken>) -> Seq<(Seq<char>, Seq<char>)>
    decreases ts.len(),
{
    if ts.len() == 0 {
        Seq::empty()
    } else {
        toc_entries(ts.drop_last()) + match ts.last() {
            TocToken::Entry { id, text } => seq![(id, text)],
            _ => Seq::empty(),
        }
    }
}

proof fn lemma_toc_entries_append(a: Seq<TocToken>, b: Seq<TocToken>)
    ensures
        toc_entries(a + b) == toc_entries(a) + toc_entries(b),
    decreases b.len(),
{
    if b.len() == 0 {
        assert(a + b =~= a);
        assert(toc_entries(a) + toc_entries(b) =~= toc_entries(a));
    } else {
        lemma_toc_entries_append(a, b.drop_last());
        assert((a + b).drop_last() =~= a + b.drop_last());
        assert((a + b).last() == b.last());
    }
}

proof fn lemma_toc_entries_repeat(t: TocToken, n: int)
    requires
        !(t is Entry),
    ensures
        toc_entries(repeat_token(t, n)) == Seq::<(Seq<char>, Seq<char>)>::empty(),
    decreases n,
{
    if n > 0 {
        lemma_toc_entries_repeat(t, n - 1);
        let r = repeat_token(t, n);
        assert(r.drop_last() =~= repeat_token(t, n - 1));
        assert(toc_entries(r) =~= Seq::<(Seq<char>, Seq<char>)>::empty());
    }
}

proof fn lemma_toc_tokens_entries(hs: Seq<HeadingView>)
    ensures
        toc_entries(toc_tokens(hs)) == hs.map_values(|h: HeadingView| (h.2, h.1)),
    decreases hs.len(),
{
    if hs.len() > 0 {
        let h = hs.last();
        let prev = if hs.len() == 1 {
            0i32
        } else {
            hs[hs.len() - 2].0
        };
        let last = start_level(prev, h.0);
        let moves = if h.0 > last {
            repeat_token(TocToken::Open, h.0 - last)
        } else {
            repeat_token(TocToken::Close, last - h.0)
        };
        let entry = TocToken::Entry { id: h.2, text: h.1 };
        lemma_toc_tokens_entries(hs.drop_last());
        if h.0 > last {
            lemma_toc_entries_repeat(TocToken::Open, h.0 - last);
        } else {
            lemma_toc_entries_repeat(TocToken::Close, last - h.0);
        }
        let e = seq![entry];
        assert(e.drop_last() =~= Seq::<TocToken>::empty());
        assert(e.last() == entry);
        assert(toc_entries(Seq::<TocToken>::empty()) =~= Seq::<(Seq<char>, Seq<char>)>::empty());
        assert(toc_entries(e) == toc_entries(e.drop_last()) + seq![(h.2, h.1)]);
        assert(toc_entries(e) =~= seq![(h.2, h.1)]);
        assert(moves.push(entry) =~= moves + e);
        lemma_toc_entries_append(moves, e);
        lemma_toc_entries_append(toc_tokens(hs.drop_last()), step_tokens(prev, h));
        assert(hs.map_values(|h: HeadingView| (h.2, h.1)) =~= hs.drop_last().map_values(
            |h: HeadingView| (h.2, h.1),
        ) + seq![(h.2, h.1)]);
    } else {
        assert(hs.map_values(|h: HeadingView| (h.2, h.1)) =~= Seq::<
            (Seq<char>, Seq<char>),
        >::empty());
    }
}

/// The table of contents holds one entry per heading, in the headings' order, each linking to
/// the heading's id and showing the heading's text; the lists opened and closed around them add
/// no entry.
pub proof fn lemma_toc_entry_per_heading(hs: Seq<HeadingView>)
    requires
        hs.len() > 0,
    ensures
        toc_entries(toc_tokens(hs) + closing_tokens(hs)) == hs.map_values(
            |h: HeadingView| (h.2, h.1),
        ),
{
    lemma_toc_tokens_entries(hs);
    lemma_toc_entries_repeat(TocToken::Close, hs.last().0 - hs[0].0);
    lemma_toc_entries_append(toc_tokens(hs), closing_tokens(hs));
    assert(toc_entries(toc_tokens(hs)) + Seq::<(Seq<char>, Seq<char>)>::empty() =~= toc_entries(
        toc_tokens(hs),
    ));
}

// ---------------------------------------------------------------------------------------------
// Notebooks
// ---------------------------------------------------------------------------------------------

/// A cell of a Jupyter notebook: its type and its source lines.
pub struct NotebookCell {
    pub cell_type: String,
    pub source: Vec<String>,
}

/// A Jupyter notebook: its cells, in order.
pub struct Notebook {
    pub cells: Vec<NotebookCell>,
}

/// The source lines of a cell, written one after the other.
pub open spec fn lines_text(lines: Seq<Seq<char>>) -> Seq<char>
    decreases lines.len(),
{
    if lines.len() == 0 {
        Seq::empty()
    } else {
        lines_text(lines.drop_last()) + lines.last()
    }
}

/// The Markdown written for one cell: a Markdown cell as it is followed by a line break, a code
/// cell as a fenced Python code block, any other cell not at all.
pub open spec fn cell_markdown(cell_type: Seq<char>, lines: Seq<Seq<char>>) -> Seq<char> {
    if cell_type == "markdown"@ {
        lines_text(lines) + "\n"@
    } else if cell_type == "code"@ {
        "\n```python\n"@ + lines_text(lines) + "\n```\n"@
    } else {
        Seq::empty()
    }
}

/// The plain value of a cell.
pub open spec fn cell_view(c: NotebookCell) -> (Seq<char>, Seq<Seq<char>>) {
    (c.cell_type@, views(c.source@))
}

/// The Markdown of a sequence of cells.
pub open spec fn cells_markdown(cells: Seq<(Seq<char>, Seq<Seq<char>>)>) -> Seq<char>
    decreases cells.len(),
{
    if cells.len() == 0 {
        Seq::empty()
    } else {
        cells_markdown(cells.drop_last()) + cell_markdown(cells.last().0, cells.last().1)
    }
}

/// The cells of a notebook as plain values.
pub open spec fn notebook_view(nb: Notebook) -> Seq<(Seq<char>, Seq<Seq<char>>)> {
    nb.cells@.map_values(|c: NotebookCell| cell_view(c))
}

/// A cell whose type is neither `markdown` nor `code` adds nothing to a notebook's Markdown,
/// wherever it stands.
pub proof fn lemma_other_cells_are_ignored(
    before: Seq<(Seq<char>, Seq<Seq<char>>)>,
    cell: (Seq<char>, Seq<Seq<char>>),
    after: Seq<(Seq<char>, Seq<Seq<char>>)>,
)
    requires
        cell.0 != "markdown"@,
        cell.0 != "code"@,
    ensures
        cells_markdown(before.push(cell) + after) == cells_markdown(before + after),
    decreases after.len(),
{
    if after.len() == 0 {
        assert(before.push(cell) + after =~= before.push(cell));
        assert(before + after =~= before);
        assert(before.push(cell).drop_last() =~= before);
    } else {
        lemma_other_cells_are_ignored(before, cell, after.drop_last());
        assert((before.push(cell) + after).drop_last() =~= before.push(cell) + after.drop_last());
        assert((before + after).drop_last() =~= before + after.drop_last());
    }
}

/// A cell's source lines are written one after the other, as they are.
pub proof fn lemma_lines_are_concatenated(lines: Seq<Seq<char>>, line: Seq<char>)
    ensures
        lines_text(seq![line]) == line,
        lines_text(lines.push(line)) == lines_text(lines) + line,
{
    assert(seq![line].drop_last() =~= Seq::<Seq<char>>::empty());
    assert(lines_text(Seq::<Seq<char>>::empty()) == Seq::<char>::empty());
    assert(Seq::<char>::empty() + line =~= line);
    assert(lines.push(line).drop_last() =~= lines);
}

/// A notebook's Markdown grows cell by cell: a Markdown cell adds its lines followed by a line
/// break, a code cell adds its lines in a fenced Python block.
pub proof fn lemma_notebook_cells(before: Seq<(Seq<char>, Seq<Seq<char>>)>, lines: Seq<Seq<char>>)
    ensures
        cells_markdown(before.push(("markdown"@, lines))) == cells_markdown(before) + lines_text(
            lines,
        ) + "\n"@,
        cells_markdown(before.push(("code"@, lines))) == cells_markdown(before) + "\n```python\n"@
            + lines_text(lines) + "\n```\n"@,
{
    reveal_strlit("markdown");
    reveal_strlit("code");
    assert("code"@ != "markdown"@) by {
        assert("code"@.len() != "markdown"@.len());
    }
    assert(before.push(("markdown"@, lines)).drop_last() =~= before);
    assert(before.push(("code"@, lines)).drop_last() =~= before);
}

fn append_lines(out: &mut String, lines: &Vec<String>)
    ensures
        final(out)@ == old(out)@ + lines_text(views(lines@)),
{
    let ghost lv = views(lines@);
    let n = lines.len();
    let mut i: usize = 0;
    while i < n
        invariant
            n == lines@.len(),
            lv == views(lines@),
            i <= n,
            out@ == old(out)@ + lines_text(lv.take(i as int)),
        decreases n - i,
    {
        assert(lv.take(i + 1).drop_last() =~= lv.take(i as int));
        out.append(lines[i].as_str());
        i = i + 1;
    }
    assert(lv.take(n as int) =~= lv);
}

/// Extracts the raw Markdown of a Jupyter notebook: Markdown cells as they are, code cells as
/// fenced Python code blocks; cells of any other type are ignored.
pub fn notebook_markdown(notebook: &Notebook) -> (r: String)
    ensures
        r@ == cells_markdown(notebook_view(*notebook)),
{
    proof {
        reveal_strlit("markdown");
        reveal_strlit("code");
        reveal_strlit("\n");
        reveal_strlit("\n```python\n");
        reveal_strlit("\n```\n");
    }
    let ghost cv = notebook_view(*notebook);
    let mut markdown = String::new();
    let n = notebook.cells.len();
    let mut i: usize = 0;
    while i < n
        invariant
            n == notebook.cells@.len(),
            cv == notebook_view(*notebook),
            i <= n,
            markdown@ == cells_markdown(cv.take(i as int)),
        decreases n - i,
    {
        assert(cv.take(i + 1).drop_last() =~= cv.take(i as int));
        let cell = &notebook.cells[i];
        if str_eq(cell.cell_type.as_str(), "markdown") {
            append_lines(&mut markdown, &cell.source);
            markdown.append("\n");
        } else if str_eq(cell.cell_type.as_str(), "code") {
            markdown.append("\n```python\n");
            append_lines(&mut markdown, &cell.source);
            markdown.append("\n```\n");
        }
        i = i + 1;
    }
    assert(cv.take(n as int) =~= cv);
    markdown
}

// ---------------------------------------------------------------------------------------------
// Markdown
// ---------------------------------------------------------------------------------------------

/// A Markdown extension that the converter turns on.
pub enum MarkdownFeature {
    Gfm,
    Tables,
    Footnotes,
    Strikethrough,
    Tasklists,
    SmartPunctuation,
    HeadingAttributes,
}

/// The bit that `pulldown_cmark::Options` uses for an extension (`ENABLE_TABLES = 1 << 1`, ...,
/// `ENABLE_GFM = 1 << 11`).
pub open spec fn feature_bits(f: MarkdownFeature) -> u32 {
    match f {
        MarkdownFeature::Gfm => 2048,
        MarkdownFeature::Tables => 2,
        MarkdownFeature::Footnotes => 4,
        MarkdownFeature::Strikethrough => 8,
        MarkdownFeature::Tasklists => 16,
        MarkdownFeature::SmartPunctuation => 32,
        MarkdownFeature::HeadingAttributes => 64,
    }
}

/// The bit of `pulldown_cmark::Options` for the extension (`ENABLE_GFM`, `ENABLE_TABLES`, ...),
/// read with `Options::bits`; `feature_bits` gives their values as the crate's source defines
/// them.
#[verifier::external_body]
fn feature_flag(f: MarkdownFeature) -> (r: u32)
    ensures
        r == feature_bits(f),
{
    match f {
        MarkdownFeature::Gfm => Options::ENABLE_GFM.bits(),
        MarkdownFeature::Tables => Options::ENABLE_TABLES.bits(),
        MarkdownFeature::Footnotes => Options::ENABLE_FOOTNOTES.bits(),
        MarkdownFeature::Strikethrough => Options::ENABLE_STRIKETHROUGH.bits(),
        MarkdownFeature::Tasklists => Options::ENABLE_TASKLISTS.bits(),
        MarkdownFeature::SmartPunctuation => Options::ENABLE_SMART_PUNCTUATION.bits(),
        MarkdownFeature::HeadingAttributes => Options::ENABLE_HEADING_ATTRIBUTES.bits(),
    }
}

/// The Markdown options of the converter: GFM, tables, footnotes, strikethrough, task lists,
/// smart punctuation and heading attributes.
pub open spec fn markdown_options_spec() -> u32 {
    feature_bits(MarkdownFeature::Gfm) | feature_bits(MarkdownFeature::Tables) | feature_bits(
        MarkdownFeature::Footnotes,
    ) | feature_bits(MarkdownFeature::Strikethrough) | feature_bits(MarkdownFeature::Tasklists)
        | feature_bits(MarkdownFeature::SmartPunctuation) | feature_bits(
        MarkdownFeature::HeadingAttributes,
    )
}

/// The Markdown options of the converter, as the bits of `pulldown_cmark::Options`.
pub fn get_markdown_options() -> (r: u32)
    ensures
        r == markdown_options_spec(),
{
    feature_flag(MarkdownFeature::Gfm) | feature_flag(MarkdownFeature::Tables) | feature_flag(
        MarkdownFeature::Footnotes,
    ) | feature_flag(MarkdownFeature::Strikethrough) | feature_flag(MarkdownFeature::Tasklists)
        | feature_flag(MarkdownFeature::SmartPunctuation) | feature_flag(
        MarkdownFeature::HeadingAttributes,
    )
}

/// What the scan of the Markdown events needs to know of one event.
pub enum MdEvent {
    /// The start of a fenced code block, with its language (possibly empty).
    FencedCodeStart(String),
    /// The end of a code block (fenced or indented).
    CodeBlockEnd,
    /// A text node.
    Text(String),
    /// The start of a heading, with its level and its explicit id if any.
    HeadingStart { level: i32, id: Option<String> },
    /// The end of a heading.
    HeadingEnd,
    /// Any other event.
    Other,
}

/// The plain value of an event.
pub enum MdEventView {
    FencedCodeStart(Seq<char>),
    CodeBlockEnd,
    Text(Seq<char>),
    HeadingStart { level: i32, id: Option<Seq<char>> },
    HeadingEnd,
    Other,
}

impl View for MdEvent {
    type V = MdEventView;

    open spec fn view(&self) -> MdEventView {
        match self {
            MdEvent::FencedCodeStart(l) => MdEventView::FencedCodeStart(l@),
            MdEvent::CodeBlockEnd => MdEventView::CodeBlockEnd,
            MdEvent::Text(t) => MdEventView::Text(t@),
            MdEvent::HeadingStart { level, id } => MdEventView::HeadingStart {
                level: *level,
                id: opt_view(*id),
            },
            MdEvent::HeadingEnd => MdEventView::HeadingEnd,
            MdEvent::Other => MdEventView::Other,
        }
    }
}

/// The views of a vector of events.
pub open spec fn event_views(evs: Seq<MdEvent>) -> Seq<MdEventView> {
    evs.map_values(|e: MdEvent| e@)
}

/// The events that `pulldown_cmark::Parser::new_ext` yields for `content` with the given
/// options, as the scan sees them.
pub uninterp spec fn markdown_event_stream(content: Seq<char>, options: u32) -> Seq<MdEventView>;

/// Parses `content` with `pulldown_cmark::Parser::new_ext` and the given option bits, and tells
/// the events apart as the scan needs them. The events are a function of the text and the
/// options alone, which `markdown_event_stream` names; a heading's level is one of `H1` to `H6`,
/// numbered 1 to 6 by `HeadingLevel`.
#[verifier::external_body]
fn markdown_events(content: &str, options: u32) -> (r: Vec<MdEvent>)
    ensures
        event_views(r@) == markdown_event_stream(content@, options),
        forall|i: int|
            0 <= i < r@.len() ==> (#[trigger] r@[i] matches MdEvent::HeadingStart { level, .. }
                ==> 1 <= level <= 6),
{
    Parser::new_ext(content, Options::from_bits_truncate(options)).map(|e| match e {
        Event::Start(Tag::CodeBlock(CodeBlockKind::Fenced(l))) => MdEvent::FencedCodeStart(l.to_string()),
        Event::End(TagEnd::CodeBlock) => MdEvent::CodeBlockEnd,
        Event::Text(t) => MdEvent::Text(t.to_string()),
        Event::Start(Tag::Heading { level, id, .. }) => MdEvent::HeadingStart {
            level: level as i32,
            id: id.map(|i| i.to_string()),
        },
        Event::End(TagEnd::Heading(_)) => MdEvent::HeadingEnd,
        _ => MdEvent::Other,
    }).collect()
}

/// An item of the rewritten event stream: an event of the parser kept as it is (by its
/// position), or a piece of HTML.
pub enum OutItem {
    Keep(usize),
    Html(String),
}

/// The plain value of an item.
pub enum OutItemView {
    Keep(usize),
    Html(Seq<char>),
}

impl View for OutItem {
    type V = OutItemView;

    open spec fn view(&self) -> OutItemView {
        match self {
            OutItem::Keep(i) => OutItemView::Keep(*i),
            OutItem::Html(h) => OutItemView::Html(h@),
        }
    }
}

/// The views of a vector of items.
pub open spec fn item_views(items: Seq<OutItem>) -> Seq<OutItemView> {
    items.map_values(|o: OutItem| o@)
}

/// Every kept event is one of the first `n` events.
pub open spec fn keeps_below(items: Seq<OutItemView>, n: int) -> bool {
    forall|i: int| 0 <= i < items.len() ==> (#[trigger] items[i] matches OutItemView::Keep(k) ==> k < n)
}

/// The HTML that `pulldown_cmark::html::push_html` writes for the rewritten event stream.
pub uninterp spec fn rendered_markdown(content: Seq<char>, options: u32, plan: Seq<OutItemView>) -> Seq<char>;

/// Parses `content` again (the same events as `markdown_events`), rewrites the stream as the
/// plan says (an event kept by position, or `Event::Html` for a piece of HTML), and writes it
/// with `pulldown_cmark::html::push_html`. The HTML is a function of the text, the options and
/// the plan, which `rendered_markdown` names.
#[verifier::external_body]
fn render_events(content: &str, options: u32, plan: &Vec<OutItem>) -> (r: String)
    requires
        keeps_below(item_views(plan@), markdown_event_stream(content@, options).len() as int),
    ensures
        r@ == rendered_markdown(content@, options, item_views(plan@)),
{
    let events: Vec<Event> = Parser::new_ext(content, Options::from_bits_truncate(options)).collect();
    let rewritten = plan.iter().map(|item| match item {
        OutItem::Keep(i) => events[*i].clone(),
        OutItem::Html(h) => Event::Html(h.clone().into()),
    });
    let mut html = String::new();
    pulldown_cmark::html::push_html(&mut html, rewritten);
    html
}

/// The HTML that `ammonia` keeps of `html` with its default rules extended by the given generic
/// attributes and tags.
pub uninterp spec fn cleaned_html(html: Seq<char>, attributes: Seq<Seq<char>>, tags: Seq<Seq<char>>) -> Seq<char>;

/// The extra attributes and tags are ones that `ammonia::Builder::clean` accepts with its
/// defaults: no generic `rel` attribute (the builder adds `rel` to links itself), and neither
/// `script` nor `style` among the tags (their content is removed by default).
pub open spec fn ammonia_accepts(attributes: Seq<Seq<char>>, tags: Seq<Seq<char>>) -> bool {
    &&& !attributes.contains("rel"@)
    &&& !tags.contains("script"@)
    &&& !tags.contains("style"@)
}

/// Cleans `html` with an `ammonia::Builder` (its defaults plus the given generic attributes and
/// tags). `Builder::clean` asserts that a generic `rel` attribute is not allowed while it adds
/// `rel` to links, and that no allowed tag is one whose content it removes; the `requires`
/// leaves those inputs out. The cleaned HTML is a function of these three arguments, which
/// `cleaned_html` names.
#[verifier::external_body]
fn sanitize_html(html: &str, attributes: &Vec<String>, tags: &Vec<String>) -> (r: String)
    requires
        ammonia_accepts(views(attributes@), views(tags@)),
    ensures
        r@ == cleaned_html(html@, views(attributes@), views(tags@)),
{
    let mut builder = ammonia::Builder::default();
    builder.add_generic_attributes(attributes.iter().map(|a| a.as_str()));
    builder.add_tags(tags.iter().map(|t| t.as_str()));
    builder.clean(html).to_string()
}

/// The anchor id that `slug::slugify` makes of a heading text.
pub uninterp spec fn slug_of(text: Seq<char>) -> Seq<char>;

/// Calls `slug::slugify`; the slug is a function of the text alone, which `slug_of` names.
#[verifier::external_body]
fn slugify(text: &str) -> (r: String)
    ensures
        r@ == slug_of(text@),
{
    slug::slugify(text)
}

#[verifier::external_type_specification]
#[verifier::external_body]
pub struct ExSyntaxSet(SyntaxSet);

#[verifier::external_type_specification]
#[verifier::external_body]
pub struct ExThemeSet(ThemeSet);

/// The syntax definitions and themes used to highlight code: always `syntect`'s default sets.
pub struct HighlightAssets {
    syntaxes: SyntaxSet,
    themes: ThemeSet,
    /// Set by `load_defaults`, the only constructor, once both sets are loaded by the two
    /// loaders below (which load `syntect`'s built-in sets, as their sources show; nothing can be
    /// stated of an opaque set beyond that).
    loaded_defaults: Ghost<bool>,
}

/// Calls `SyntaxSet::load_defaults_newlines`, which loads the syntax definitions built into
/// `syntect`.
#[verifier::external_body]
fn load_default_syntaxes() -> SyntaxSet {
    SyntaxSet::load_defaults_newlines()
}

/// Calls `ThemeSet::load_defaults`, which loads the themes built into `syntect`.
#[verifier::external_body]
fn load_default_themes() -> ThemeSet {
    ThemeSet::load_defaults()
}

impl HighlightAssets {
    /// The assets hold `syntect`'s built-in syntax definitions and themes, on which the lookups
    /// of themes and the highlighting below are stated.
    pub closed spec fn holds_default_sets(&self) -> bool {
        self.loaded_defaults@
    }

    /// Loads `syntect`'s default syntax definitions and themes.
    pub fn load_defaults() -> (r: Self)
        ensures
            r.holds_default_sets(),
    {
        HighlightAssets {
            syntaxes: load_default_syntaxes(),
            themes: load_default_themes(),
            loaded_defaults: Ghost(true),
        }
    }
}

/// `syntect`'s default theme set holds a theme of this name.
pub uninterp spec fn default_theme_exists(name: Seq<char>) -> bool;

/// Looks the name up in the theme set (`BTreeMap::contains_key` on `ThemeSet::themes`). The
/// assets hold the default themes (`holds_default_sets`), so the answer depends on the name alone, which
/// `default_theme_exists` names.
#[verifier::external_body]
fn has_theme(assets: &HighlightAssets, name: &str) -> (r: bool)
    requires
        assets.holds_default_sets(),
    ensures
        r == default_theme_exists(name@),
{
    assets.themes.themes.contains_key(name)
}

/// `syntect`'s default syntax set has a syntax for the token `lang` (what
/// `SyntaxSet::find_syntax_by_token` finds).
pub uninterp spec fn syntax_found(lang: Seq<char>) -> bool;

/// Looks the token up with `SyntaxSet::find_syntax_by_token` in the default syntax set and says
/// whether a syntax was found; the answer depends on the token alone, which `syntax_found`
/// names.
#[verifier::external_body]
fn find_syntax(assets: &HighlightAssets, lang: &str) -> (r: bool)
    requires
        assets.holds_default_sets(),
    ensures
        r == syntax_found(lang@),
{
    assets.syntaxes.find_syntax_by_token(lang).is_some()
}

/// The HTML that `syntect::html::highlighted_html_for_string` writes for `code` with the named
/// default theme, in the syntax found for the token `syntax`, or in plain text for `None`; `None`
/// when highlighting fails.
pub uninterp spec fn highlighted(code: Seq<char>, syntax: Option<Seq<char>>, theme: Seq<char>) -> Option<
    Seq<char>,
>;

/// Highlights `code` with `syntect::html::highlighted_html_for_string` in the syntax that
/// `SyntaxSet::find_syntax_by_token` finds for `lang` (one is found, by `requires`) and the
/// named default theme; an error is returned as `None`. The syntax found is a reference into the
/// syntax set, so the lookup stands in this item. The result depends on the code, the token and
/// the theme name alone, which `highlighted` names.
#[verifier::external_body]
fn highlight_as(assets: &HighlightAssets, code: &str, lang: &str, theme: &str) -> (r: Option<
    String,
>)
    requires
        assets.holds_default_sets(),
        default_theme_exists(theme@),
        syntax_found(lang@),
    ensures
        opt_view(r) == highlighted(code@, Some(lang@), theme@),
{
    let ss = &assets.syntaxes;
    match ss.find_syntax_by_token(lang) {
        Some(syntax) => syntect::html::highlighted_html_for_string(code, ss, syntax, &assets.themes.themes[theme]).ok(),
        None => None,
    }
}

/// Highlights `code` with `syntect::html::highlighted_html_for_string` in the plain-text syntax
/// (`SyntaxSet::find_syntax_plain_text`) and the named default theme; an error is returned as
/// `None`. The result depends on the code and the theme name alone, which `highlighted` names.
#[verifier::external_body]
fn highlight_plain(assets: &HighlightAssets, code: &str, theme: &str) -> (r: Option<String>)
    requires
        assets.holds_default_sets(),
        default_theme_exists(theme@),
    ensures
        opt_view(r) == highlighted(code@, None, theme@),
{
    let ss = &assets.syntaxes;
    syntect::html::highlighted_html_for_string(code, ss, ss.find_syntax_plain_text(), &assets.themes.themes[theme]).ok()
}

/// The syntax code is highlighted in: the one named by the token when the default set has it,
/// else plain text.
pub open spec fn syntax_for(lang: Seq<char>) -> Option<Seq<char>> {
    if syntax_found(lang) {
        Some(lang)
    } else {
        None
    }
}

/// Highlights `code` in the syntax named by the token `lang`, falling back to plain text when
/// the default set has no syntax for it.
fn highlight(assets: &HighlightAssets, code: &str, lang: &str, theme: &str) -> (r: Option<String>)
    requires
        assets.holds_default_sets(),
        default_theme_exists(theme@),
    ensures
        opt_view(r) == highlighted(code@, syntax_for(lang@), theme@),
{
    if find_syntax(assets, lang) {
        highlight_as(assets, code, lang, theme)
    } else {
        highlight_plain(assets, code, theme)
    }
}

/// The theme used for a requested name: the name itself when the theme exists, else the
/// `base16-ocean.dark` theme, else none (code is then left as it is).
pub open spec fn resolved_theme(name: Seq<char>) -> Option<Seq<char>> {
    if default_theme_exists(name) {
        Some(name)
    } else if default_theme_exists("base16-ocean.dark"@) {
        Some("base16-ocean.dark"@)
    } else {
        None
    }
}

/// The theme used for a requested name, falling back to `base16-ocean.dark`.
pub fn get_theme(assets: &HighlightAssets, theme_name: &str) -> (r: Option<String>)
    requires
        assets.holds_default_sets(),
    ensures
        opt_view(r) == resolved_theme(theme_name@),
{
    if has_theme(assets, theme_name) {
        Some(owned(theme_name))
    } else if has_theme(assets, "base16-ocean.dark") {
        Some(owned("base16-ocean.dark"))
    } else {
        None
    }
}

/// The HTML of a code block: the highlighted code, or the code itself when highlighting fails
/// or no theme is available.
pub open spec fn code_html(code: Seq<char>, lang: Seq<char>, theme: Option<Seq<char>>) -> Seq<char> {
    match theme {
        Some(t) => match highlighted(code, syntax_for(lang), t) {
            Some(h) => h,
            None => code,
        },
        None => code,
    }
}

/// The state of the scan of the event stream.
pub struct Scan {
    pub in_code: bool,
    pub lang: Option<Seq<char>>,
    pub code: Seq<char>,
    pub in_heading: bool,
    pub level: i32,
    pub id: Seq<char>,
    pub text: Seq<char>,
    pub items: Seq<OutItemView>,
    pub headings: Seq<HeadingView>,
}

/// The state before any event.
pub open spec fn scan_start() -> Scan {
    Scan {
        in_code: false,
        lang: None,
        code: Seq::empty(),
        in_heading: false,
        level: 0,
        id: Seq::empty(),
        text: Seq::empty(),
        items: Seq::empty(),
        headings: Seq::empty(),
    }
}

/// One step of the scan, for the event at position `idx`:
/// - a fenced code block starts collecting its code and remembers its language;
/// - the end of a code block emits the highlighted code as HTML;
/// - text inside a code block is collected, not emitted;
/// - a heading starts collecting its text and id and is kept;
/// - the end of a heading records it (its id, when it has none, is the slug of its text) and is
///   kept;
/// - text inside a heading is collected and kept;
/// - any other event is kept, unless inside a code block.
pub open spec fn scan_step(s: Scan, ev: MdEventView, idx: usize, theme: Option<Seq<char>>) -> Scan {
    match ev {
        MdEventView::FencedCodeStart(lang) => Scan {
            in_code: true,
            lang: Some(lang),
            code: Seq::empty(),
            ..s
        },
        MdEventView::CodeBlockEnd => {
            let lang = match s.lang {
                Some(l) => l,
                None => Seq::empty(),
            };
            Scan {
                in_code: false,
                lang: None,
                items: s.items.push(OutItemView::Html(code_html(s.code, lang, theme))),
                ..s
            }
        },
        MdEventView::Text(t) => if s.in_code {
            Scan { code: s.code + t, ..s }
        } else if s.in_heading {
            Scan { text: s.text + t, items: s.items.push(OutItemView::Keep(idx)), ..s }
        } else {
            Scan { items: s.items.push(OutItemView::Keep(idx)), ..s }
        },
        MdEventView::HeadingStart { level, id } => Scan {
            in_heading: true,
            level: level,
            id: match id {
                Some(i) => i,
                None => Seq::empty(),
            },
            text: Seq::empty(),
            items: s.items.push(OutItemView::Keep(idx)),
            ..s
        },
        MdEventView::HeadingEnd => {
            let id = if s.id.len() == 0 {
                slug_of(s.text)
            } else {
                s.id
            };
            Scan {
                in_heading: false,
                id: id,
                headings: s.headings.push((s.level, s.text, id)),
                items: s.items.push(OutItemView::Keep(idx)),
                ..s
            }
        },
        MdEventView::Other => if s.in_code {
            s
        } else {
            Scan { items: s.items.push(OutItemView::Keep(idx)), ..s }
        },
    }
}

/// The scan of the first `n` events.
pub open spec fn scan_prefix(evs: Seq<MdEventView>, n: int, theme: Option<Seq<char>>) -> Scan
    decreases n,
{
    if n <= 0 {
        scan_start()
    } else {
        scan_step(scan_prefix(evs, n - 1, theme), evs[n - 1], (n - 1) as usize, theme)
    }
}

/// The scan of the whole event stream.
pub open spec fn scan_events(evs: Seq<MdEventView>, theme: Option<Seq<char>>) -> Scan {
    scan_prefix(evs, evs.len() as int, theme)
}

/// The levels that heading starts carry are from 1 to 6.
pub open spec fn start_levels_ok(evs: Seq<MdEvent>) -> bool {
    forall|i: int|
        0 <= i < evs.len() ==> (#[trigger] evs[i] matches MdEvent::HeadingStart { level, .. } ==> 1
            <= level <= 6)
}

/// The theme is absent or one of the default themes.
pub open spec fn theme_ok(theme: Option<Seq<char>>) -> bool {
    match theme {
        Some(t) => default_theme_exists(t),
        None => true,
    }
}

proof fn lemma_scan_prefix_step(evs: Seq<MdEventView>, i: int, theme: Option<Seq<char>>)
    requires
        0 <= i < evs.len(),
    ensures
        scan_prefix(evs, i + 1, theme) == scan_step(scan_prefix(evs, i, theme), evs[i], i as usize, theme),
{
}

/// The text carried by the text events among `evs`, in order.
pub open spec fn text_of_events(evs: Seq<MdEventView>) -> Seq<char>
    decreases evs.len(),
{
    if evs.len() == 0 {
        Seq::empty()
    } else {
        text_of_events(evs.drop_last()) + match evs.last() {
            MdEventView::Text(t) => t,
            _ => Seq::empty(),
        }
    }
}

/// Every event of `evs` is a text event or an event the scan does not look into.
pub open spec fn text_or_other(evs: Seq<MdEventView>) -> bool {
    forall|i: int| 0 <= i < evs.len() ==> (#[trigger] evs[i] is Text || evs[i] is Other)
}

proof fn lemma_scan_prefix_agree(
    a: Seq<MdEventView>,
    b: Seq<MdEventView>,
    n: int,
    theme: Option<Seq<char>>,
)
    requires
        0 <= n <= a.len(),
        n <= b.len(),
        forall|i: int| 0 <= i < n ==> a[i] == b[i],
    ensures
        scan_prefix(a, n, theme) == scan_prefix(b, n, theme),
    decreases n,
{
    if n > 0 {
        lemma_scan_prefix_agree(a, b, n - 1, theme);
    }
}

proof fn lemma_code_body(
    evs: Seq<MdEventView>,
    start: int,
    body: Seq<MdEventView>,
    k: int,
    lang: Seq<char>,
    items: Seq<OutItemView>,
    theme: Option<Seq<char>>,
)
    requires
        0 <= start,
        0 <= k <= body.len(),
        start + body.len() <= evs.len(),
        forall|i: int| 0 <= i < body.len() ==> evs[start + i] == body[i],
        text_or_other(body),
        scan_prefix(evs, start, theme).in_code,
        scan_prefix(evs, start, theme).lang == Some(lang),
        scan_prefix(evs, start, theme).code == Seq::<char>::empty(),
        scan_prefix(evs, start, theme).items == items,
    ensures
        scan_prefix(evs, start + k, theme).in_code,
        scan_prefix(evs, start + k, theme).lang == Some(lang),
        scan_prefix(evs, start + k, theme).code == text_of_events(body.take(k)),
        scan_prefix(evs, start + k, theme).items == items,
    decreases k,
{
    if k == 0 {
        assert(body.take(0) =~= Seq::<MdEventView>::empty());
    } else {
        lemma_code_body(evs, start, body, k - 1, lang, items, theme);
        lemma_scan_prefix_step(evs, start + k - 1, theme);
        assert(evs[start + k - 1] == body[k - 1]);
        assert(body[k - 1] is Text || body[k - 1] is Other);
        assert(body.take(k).drop_last() =~= body.take(k - 1));
        assert(body.take(k).last() == body[k - 1]);
    }
}

/// A fenced code block becomes one piece of HTML, and nothing else of it is kept: its code (the
/// text of the events inside it, in order) highlighted with the chosen theme in the syntax that
/// the fence's language names when the default set has one, else as plain text; the code itself
/// when no theme is available or highlighting fails.
pub proof fn lemma_fenced_code_is_highlighted(
    pre: Seq<MdEventView>,
    lang: Seq<char>,
    body: Seq<MdEventView>,
    theme: Option<Seq<char>>,
)
    requires
        text_or_other(body),
    ensures
        ({
            let evs = pre + seq![MdEventView::FencedCodeStart(lang)] + body + seq![
                MdEventView::CodeBlockEnd,
            ];
            let code = text_of_events(body);
            let html = match theme {
                Some(t) => match highlighted(
                    code,
                    if syntax_found(lang) {
                        Some(lang)
                    } else {
                        None
                    },
                    t,
                ) {
                    Some(x) => x,
                    None => code,
                },
                None => code,
            };
            &&& scan_events(evs, theme).items == scan_events(pre, theme).items.push(
                OutItemView::Html(html),
            )
            &&& scan_events(evs, theme).headings == scan_events(pre, theme).headings
            &&& !scan_events(evs, theme).in_code
        }),
{
    let evs = pre + seq![MdEventView::FencedCodeStart(lang)] + body + seq![
        MdEventView::CodeBlockEnd,
    ];
    let m = pre.len() as int;
    lemma_scan_prefix_agree(evs, pre, m, theme);
    lemma_scan_prefix_step(evs, m, theme);
    assert(evs[m] == MdEventView::FencedCodeStart(lang));
    let start = m + 1;
    assert forall|i: int| 0 <= i < body.len() implies evs[start + i] == body[i] by {}
    lemma_code_body(evs, start, body, body.len() as int, lang, scan_events(pre, theme).items, theme);
    assert(body.take(body.len() as int) =~= body);
    let end = start + body.len();
    lemma_scan_prefix_step(evs, end, theme);
    assert(evs[end] == MdEventView::CodeBlockEnd);
    assert(evs.len() == end + 1);
    lemma_heading_free_body(evs, start, body, body.len() as int, theme);
}

proof fn lemma_heading_free_body(
    evs: Seq<MdEventView>,
    start: int,
    body: Seq<MdEventView>,
    k: int,
    theme: Option<Seq<char>>,
)
    requires
        0 <= start,
        0 <= k <= body.len(),
        start + body.len() <= evs.len(),
        forall|i: int| 0 <= i < body.len() ==> evs[start + i] == body[i],
        text_or_other(body),
    ensures
        scan_prefix(evs, start + k, theme).headings == scan_prefix(evs, start, theme).headings,
    decreases k,
{
    if k > 0 {
        lemma_heading_free_body(evs, start, body, k - 1, theme);
        lemma_scan_prefix_step(evs, start + k - 1, theme);
        assert(evs[start + k - 1] == body[k - 1]);
        assert(body[k - 1] is Text || body[k - 1] is Other);
    }
}

proof fn lemma_heading_body(
    evs: Seq<MdEventView>,
    start: int,
    body: Seq<MdEventView>,
    k: int,
    level: i32,
    id: Seq<char>,
    headings: Seq<HeadingView>,
    theme: Option<Seq<char>>,
)
    requires
        0 <= start,
        0 <= k <= body.len(),
        start + body.len() <= evs.len(),
        forall|i: int| 0 <= i < body.len() ==> evs[start + i] == body[i],
        text_or_other(body),
        scan_prefix(evs, start, theme).in_heading,
        !scan_prefix(evs, start, theme).in_code,
        scan_prefix(evs, start, theme).level == level,
        scan_prefix(evs, start, theme).id == id,
        scan_prefix(evs, start, theme).text == Seq::<char>::empty(),
        scan_prefix(evs, start, theme).headings == headings,
    ensures
        scan_prefix(evs, start + k, theme).in_heading,
        !scan_prefix(evs, start + k, theme).in_code,
        scan_prefix(evs, start + k, theme).level == level,
        scan_prefix(evs, start + k, theme).id == id,
        scan_prefix(evs, start + k, theme).text == text_of_events(body.take(k)),
        scan_prefix(evs, start + k, theme).headings == headings,
    decreases k,
{
    if k == 0 {
        assert(body.take(0) =~= Seq::<MdEventView>::empty());
    } else {
        lemma_heading_body(evs, start, body, k - 1, level, id, headings, theme);
        lemma_scan_prefix_step(evs, start + k - 1, theme);
        assert(evs[start + k - 1] == body[k - 1]);
        assert(body[k - 1] is Text || body[k - 1] is Other);
        assert(body.take(k).drop_last() =~= body.take(k - 1));
        assert(body.take(k).last() == body[k - 1]);
    }
}

/// A heading is recorded with its level, its text (the text of all the events between its
/// start and its end, in order) and its id: the explicit one when it is not empty, else the slug
/// of its text.
pub proof fn lemma_heading_records_all_its_text(
    pre: Seq<MdEventView>,
    level: i32,
    id: Option<Seq<char>>,
    body: Seq<MdEventView>,
    theme: Option<Seq<char>>,
)
    requires
        text_or_other(body),
        !scan_events(pre, theme).in_code,
    ensures
        ({
            let evs = pre + seq![MdEventView::HeadingStart { level, id }] + body + seq![
                MdEventView::HeadingEnd,
            ];
            let text = text_of_events(body);
            let recorded = match id {
                Some(i) => if i.len() > 0 {
                    i
                } else {
                    slug_of(text)
                },
                None => slug_of(text),
            };
            &&& scan_events(evs, theme).headings == scan_events(pre, theme).headings.push(
                (level, text, recorded),
            )
            &&& !scan_events(evs, theme).in_heading
        }),
{
    let evs = pre + seq![MdEventView::HeadingStart { level, id }] + body + seq![
        MdEventView::HeadingEnd,
    ];
    let m = pre.len() as int;
    lemma_scan_prefix_agree(evs, pre, m, theme);
    lemma_scan_prefix_step(evs, m, theme);
    assert(evs[m] == MdEventView::HeadingStart { level, id });
    let start = m + 1;
    let idv = match id {
        Some(i) => i,
        None => Seq::<char>::empty(),
    };
    assert forall|i: int| 0 <= i < body.len() implies evs[start + i] == body[i] by {}
    lemma_heading_body(
        evs,
        start,
        body,
        body.len() as int,
        level,
        idv,
        scan_events(pre, theme).headings,
        theme,
    );
    assert(body.take(body.len() as int) =~= body);
    let end = start + body.len();
    lemma_scan_prefix_step(evs, end, theme);
    assert(evs[end] == MdEventView::HeadingEnd);
    assert(evs.len() == end + 1);
}

/// Scans the Markdown events: code blocks are collected and replaced by highlighted HTML, and
/// headings are recorded (with a slug for an id when they have none). The result is the
/// rewritten event stream and the headings, as `scan_events` defines them.
pub fn process_markdown_events(events: &Vec<MdEvent>, assets: &HighlightAssets, theme: &Option<String>) -> (r: (
    Vec<OutItem>,
    Vec<Heading>,
))
    requires
        assets.holds_default_sets(),
        theme_ok(opt_view(*theme)),
        start_levels_ok(events@),
    ensures
        item_views(r.0@) == scan_events(event_views(events@), opt_view(*theme)).items,
        heading_views(r.1@) == scan_events(event_views(events@), opt_view(*theme)).headings,
        keeps_below(item_views(r.0@), events@.len() as int),
        toc_levels(heading_views(r.1@)),
{
    let ghost ev = event_views(events@);
    let ghost th = opt_view(*theme);
    let mut in_code = false;
    let mut lang: Option<String> = None;
    let mut code = String::new();
    let mut in_heading = false;
    let mut level: i32 = 0;
    let mut id = String::new();
    let mut text = String::new();
    let mut items: Vec<OutItem> = Vec::new();
    let mut headings: Vec<Heading> = Vec::new();
    let n = events.len();
    let mut i: usize = 0;
    assert(item_views(items@) =~= Seq::<OutItemView>::empty());
    assert(heading_views(headings@) =~= Seq::<HeadingView>::empty());
    while i < n
        invariant
            n == events@.len(),
            ev == event_views(events@),
            th == opt_view(*theme),
            theme_ok(th),
            start_levels_ok(events@),
            assets.holds_default_sets(),
            i <= n,
            in_code == scan_prefix(ev, i as int, th).in_code,
            opt_view(lang) == scan_prefix(ev, i as int, th).lang,
            code@ == scan_prefix(ev, i as int, th).code,
            in_heading == scan_prefix(ev, i as int, th).in_heading,
            level == scan_prefix(ev, i as int, th).level,
            id@ == scan_prefix(ev, i as int, th).id,
            text@ == scan_prefix(ev, i as int, th).text,
            item_views(items@) == scan_prefix(ev, i as int, th).items,
            heading_views(headings@) == scan_prefix(ev, i as int, th).headings,
            keeps_below(item_views(items@), i as int),
            0 <= level <= 6,
            toc_levels(heading_views(headings@)),
        decreases n - i,
    {
        proof {
            lemma_scan_prefix_step(ev, i as int, th);
        }
        let ghost items0 = items@;
        let ghost headings0 = headings@;
        match &events[i] {
            MdEvent::FencedCodeStart(l) => {
                in_code = true;
                lang = Some(l.clone());
                code = String::new();
            },
            MdEvent::CodeBlockEnd => {
                in_code = false;
                let l = match &lang {
                    Some(l) => l.clone(),
                    None => String::new(),
                };
                lang = None;
                let html = match theme {
                    Some(t) => match highlight(assets, code.as_str(), l.as_str(), t.as_str()) {
                        Some(h) => h,
                        None => code.clone(),
                    },
                    None => code.clone(),
                };
                items.push(OutItem::Html(html));
                assert(item_views(items@) =~= item_views(items0).push(items@.last()@));
            },
            MdEvent::Text(t) => {
                if in_code {
                    code.append(t.as_str());
                } else if in_heading {
                    text.append(t.as_str());
                    items.push(OutItem::Keep(i));
                    assert(item_views(items@) =~= item_views(items0).push(OutItemView::Keep(i)));
                } else {
                    items.push(OutItem::Keep(i));
                    assert(item_views(items@) =~= item_views(items0).push(OutItemView::Keep(i)));
                }
            },
            MdEvent::HeadingStart { level: l, id: hid } => {
                assert(events@[i as int] matches MdEvent::HeadingStart { .. });
                in_heading = true;
                level = *l;
                id = match hid {
                    Some(x) => x.clone(),
                    None => String::new(),
                };
                text = String::new();
                items.push(OutItem::Keep(i));
                assert(item_views(items@) =~= item_views(items0).push(OutItemView::Keep(i)));
            },
            MdEvent::HeadingEnd => {
                in_heading = false;
                if id.as_str().is_empty() {
                    id = slugify(text.as_str());
                }
                headings.push(Heading { level: level, text: text.clone(), id: id.clone() });
                assert(heading_views(headings@) =~= heading_views(headings0).push(
                    (level, text@, id@),
                ));
                items.push(OutItem::Keep(i));
                assert(item_views(items@) =~= item_views(items0).push(OutItemView::Keep(i)));
            },
            MdEvent::Other => {
                if !in_code {
                    items.push(OutItem::Keep(i));
                    assert(item_views(items@) =~= item_views(items0).push(OutItemView::Keep(i)));
                }
            },
        }
        i = i + 1;
    }
    (items, headings)
}

/// The generic attributes that the HTML sanitizer lets through beyond its defaults.
pub open spec fn allowed_attributes() -> Seq<Seq<char>> {
    seq!["id"@, "class"@, "style"@, "type"@, "checked"@, "disabled"@]
}

/// The tags that the HTML sanitizer lets through beyond its defaults.
pub open spec fn allowed_tags() -> Seq<Seq<char>> {
    seq!["span"@, "input"@]
}

fn strings_of(words: &[&str]) -> (r: Vec<String>)
    ensures
        views(r@) == words@.map_values(|w: &str| w@),
{
    let mut r: Vec<String> = Vec::new();
    let mut i: usize = 0;
    while i < words.len()
        invariant
            i <= words@.len(),
            views(r@) == words@.take(i as int).map_values(|w: &str| w@),
        decreases words.len() - i,
    {
        let ghost before = r@;
        r.push(owned(words[i]));
        assert(views(r@) =~= views(before).push(words@[i as int]@));
        assert(words@.take(i + 1) =~= words@.take(i as int).push(words@[i as int]));
        assert(views(r@) =~= words@.take(i + 1).map_values(|w: &str| w@));
        i = i + 1;
    }
    assert(words@.take(words@.len() as int) =~= words@);
    r
}

proof fn lemma_allowed_lists_accepted()
    ensures
        ammonia_accepts(allowed_attributes(), allowed_tags()),
{
    reveal_strlit("id");
    reveal_strlit("class");
    reveal_strlit("style");
    reveal_strlit("type");
    reveal_strlit("checked");
    reveal_strlit("disabled");
    reveal_strlit("span");
    reveal_strlit("input");
    reveal_strlit("rel");
    reveal_strlit("script");
    let a = allowed_attributes();
    let t = allowed_tags();
    assert forall|i: int| 0 <= i < a.len() implies a[i] != "rel"@ by {
        assert(a[i].len() != "rel"@.len());
    }
    assert forall|i: int| 0 <= i < t.len() implies t[i] != "script"@ && t[i] != "style"@ by {
        assert(t[i].len() != "script"@.len());
        if i == 0 {
            assert(t[i].len() != "style"@.len());
        } else {
            assert(t[i][0] != "style"@[0]);
        }
    }
}

/// The HTML body and the table of contents that `generate_html` makes of a Markdown text.
pub open spec fn html_of(content: Seq<char>, theme_name: Seq<char>) -> (Seq<char>, Seq<char>) {
    let options = markdown_options_spec();
    let scan = scan_events(markdown_event_stream(content, options), resolved_theme(theme_name));
    (
        cleaned_html(
            rendered_markdown(content, options, scan.items),
            allowed_attributes(),
            allowed_tags(),
        ),
        toc_html(scan.headings),
    )
}

/// Converts Markdown body to HTML with syntax highlighting and TOC.
///
/// The Markdown is parsed with the converter's extensions, fenced code blocks are highlighted
/// with the named theme (or `base16-ocean.dark` when that theme does not exist), the HTML is
/// cleaned of anything unsafe, and the table of contents lists the headings.
pub fn generate_html(content: &str, theme_name: &str) -> (r: Result<(String, String), ConversionError>)
    ensures
        r matches Ok((html, toc)) && html@ == html_of(content@, theme_name@).0 && toc@ == html_of(
            content@,
            theme_name@,
        ).1,
{
    let assets = HighlightAssets::load_defaults();
    let theme = get_theme(&assets, theme_name);
    let options = get_markdown_options();
    let events = markdown_events(content, options);
    let (items, headers) = process_markdown_events(&events, &assets, &theme);
    let html_content = render_events(content, options, &items);
    proof {
        reveal_strlit("id");
        reveal_strlit("class");
        reveal_strlit("style");
        reveal_strlit("type");
        reveal_strlit("checked");
        reveal_strlit("disabled");
        reveal_strlit("span");
        reveal_strlit("input");
    }
    let attributes = strings_of(&["id", "class", "style", "type", "checked", "disabled"]);
    let tags = strings_of(&["span", "input"]);
    proof {
        assert(views(attributes@) =~= allowed_attributes());
        assert(views(tags@) =~= allowed_tags());
    }
    proof {
        lemma_allowed_lists_accepted();
    }
    let sanitized_html = sanitize_html(html_content.as_str(), &attributes, &tags);
    let toc_html = generate_toc_html(&headers);
    Ok((sanitized_html, toc_html))
}


// ---------------------------------------------------------------------------------------------
// Front matter
// ---------------------------------------------------------------------------------------------

/// What `gray_matter` (`Matter::<YAML>::parse`) makes of a document: the raw front matter when
/// it found some (the text between the opening and closing `---` lines, trimmed, when not
/// empty), and the body that remains.
pub uninterp spec fn front_matter_split(content: Seq<char>) -> (Option<Seq<char>>, Seq<char>);

/// Calls `gray_matter::Matter::<YAML>::parse` and takes the raw front matter (when its `data` is
/// present, which its source sets exactly when the raw front matter is not empty) and the
/// content. The split is a function of the text alone, which `front_matter_split` names.
#[verifier::external_body]
fn matter_split(content: &str) -> (r: (Option<String>, String))
    ensures
        (opt_view(r.0), r.1@) == front_matter_split(content@),
{
    let parsed = Matter::<YAML>::new().parse(content);
    (parsed.data.map(|_| parsed.matter), parsed.content)
}

/// Splits a document into its raw YAML front matter, when it has one, and its Markdown body.
/// The front matter's YAML is read into a `FrontMatter` by the program.
pub fn split_front_matter(content: &str) -> (r: (Option<String>, String))
    ensures
        (opt_view(r.0), r.1@) == front_matter_split(content@),
{
    matter_split(content)
}

// ---------------------------------------------------------------------------------------------
// Documents
// ---------------------------------------------------------------------------------------------

/// A document that has been fully processed.
pub struct ParsedDocument {
    /// Metadata and configuration extracted from YAML front matter.
    pub front_matter: FrontMatter,
    /// The generated HTML fragment from the Markdown body.
    pub html_content: String,
    /// Generated Table of Contents HTML.
    pub toc_html: Option<String>,
}

/// The theme a document asks for: its front matter's, else `base16-ocean.dark`.
pub open spec fn document_theme(front_matter: FrontMatter) -> Seq<char> {
    match front_matter.highlight_theme {
        Some(t) => t@,
        None => "base16-ocean.dark"@,
    }
}

impl ParsedDocument {
    /// The document made of its front matter and its Markdown body, the body highlighted with
    /// the named theme: the body's HTML and table of contents are those of `generate_html`.
    pub fn with_theme(front_matter: FrontMatter, body: &str, theme: &str) -> (r: Result<
        ParsedDocument,
        ConversionError,
    >)
        ensures
            r matches Ok(d) && (d.front_matter == front_matter && d.html_content@ == html_of(
                body@,
                theme@,
            ).0 && (d.toc_html matches Some(t) && t@ == html_of(body@, theme@).1)),
    {
        match generate_html(body, theme) {
            Ok((html_content, toc)) => Ok(
                ParsedDocument { front_matter, html_content, toc_html: Some(toc) },
            ),
            Err(e) => Err(e),
        }
    }

    /// The document made of its front matter and its Markdown body, highlighted with the theme
    /// that the front matter names, or with `base16-ocean.dark`.
    pub fn from_front_matter(front_matter: FrontMatter, body: &str) -> (r: Result<
        ParsedDocument,
        ConversionError,
    >)
        ensures
            r matches Ok(d) && (d.front_matter == front_matter && d.html_content@ == html_of(
                body@,
                document_theme(front_matter),
            ).0 && (d.toc_html matches Some(t) && t@ == html_of(
                body@,
                document_theme(front_matter),
            ).1)),
    {
        let theme = match &front_matter.highlight_theme {
            Some(t) => t.clone(),
            None => {
                proof {
                    reveal_strlit("base16-ocean.dark");
                }
                owned("base16-ocean.dark")
            },
        };
        ParsedDocument::with_theme(front_matter, body, theme.as_str())
    }
}

} // verus!
