//! Syntax highlighting of a body, line by line, by the `syntect` crate with
//! its built-in grammars and a fixed light theme.
//!
//! Highlighting is presentation only. Whatever the highlighter hands back,
//! the text that the result shows is the body, character for character:
//! its output is held against the body and dropped where it differs.

use crate::segment::{
    plain_text, segment_views, visible_text, Rgba, Segment, SegmentView, Style,
};
use crate::text::{joined, lemma_joined_concat, string_views};
use vstd::prelude::*;

verus! {

/// `syntect::parsing::SyntaxSet`: a set of grammars.
#[verifier::external_type_specification]
#[verifier::external_body]
pub struct ExSyntaxSet(syntect::parsing::SyntaxSet);

/// `syntect::highlighting::ThemeSet`: a set of themes by name.
#[verifier::external_type_specification]
#[verifier::external_body]
pub struct ExThemeSet(syntect::highlighting::ThemeSet);

/// `syntect::highlighting::Theme`: the colours of one theme.
#[verifier::external_type_specification]
#[verifier::external_body]
pub struct ExTheme(syntect::highlighting::Theme);

/// `syntect::easy::HighlightLines`: the state of a highlighter between the
/// lines of one text.
#[verifier::external_type_specification]
#[verifier::external_body]
pub struct ExHighlightLines<'a>(syntect::easy::HighlightLines<'a>);

/// `syntect::Error`, carried through unopened.
#[verifier::external_type_specification]
#[verifier::external_body]
pub struct ExSyntectError(syntect::Error);

/// The theme of every highlighted body.
pub const THEME: &'static str = "base16-ocean.light";

/// The built-in theme set holds a theme of this name: what looking the
/// name up in the map `themes` of `ThemeSet::load_defaults()` finds.
pub uninterp spec fn has_theme(name: Seq<char>) -> bool;

/// The built-in grammars hold one for this file extension: what
/// `SyntaxSet::find_syntax_by_extension` finds in
/// `SyntaxSet::load_defaults_newlines()`.
pub uninterp spec fn has_grammar(extension: Seq<char>) -> bool;

/// What `HighlightLines::highlight_line` makes of `line`, for a
/// highlighter of the built-in theme of that name and the built-in
/// grammar of that extension which was fed the lines `before`, in order:
/// the colours and the text of each range, or `None` where it fails.
pub uninterp spec fn line_tokens(
    theme: Seq<char>,
    extension: Seq<char>,
    before: Seq<Seq<char>>,
    line: Seq<char>,
) -> Option<Seq<SegmentView>>;

/// The grammars built into the `syntect` crate. `load_syntaxes` is the
/// only place where a value of this type is made.
struct Grammars {
    set: syntect::parsing::SyntaxSet,
}

/// The themes built into the `syntect` crate. `load_themes` is the only
/// place where a value of this type is made.
struct Themes {
    set: syntect::highlighting::ThemeSet,
}

/// One of the built-in themes, with the name that it was found under.
struct FoundTheme<'a> {
    theme: &'a syntect::highlighting::Theme,
    name: Ghost<Seq<char>>,
}

/// A highlighter at work on one text, together with the grammars that its
/// syntax was taken from. It remembers which theme and grammar it was
/// started with and which lines it was fed.
struct LineHighlighter<'a> {
    state: syntect::easy::HighlightLines<'a>,
    syntaxes: &'a syntect::parsing::SyntaxSet,
    theme: Ghost<Seq<char>>,
    extension: Ghost<Seq<char>>,
    fed: Ghost<Seq<Seq<char>>>,
}

/// Calls `SyntaxSet::load_defaults_newlines`, which unpacks the grammars
/// built into the crate.
#[verifier::external_body]
fn load_syntaxes() -> Grammars {
    Grammars { set: syntect::parsing::SyntaxSet::load_defaults_newlines() }
}

/// Calls `ThemeSet::load_defaults`, which unpacks the themes built into the
/// crate.
#[verifier::external_body]
fn load_themes() -> Themes {
    Themes { set: syntect::highlighting::ThemeSet::load_defaults() }
}

/// Looks a theme up by its name in the public map `themes` of the
/// built-in `ThemeSet`.
///
/// Trusted: the set is the same in every run, so a theme is found exactly
/// for the names that [`has_theme`] holds of.
#[verifier::external_body]
fn find_theme<'a>(themes: &'a Themes, name: &str) -> (r: Option<FoundTheme<'a>>)
    ensures
        r is Some <==> has_theme(name@),
        r matches Some(found) ==> found.name@ == name@,
{
    match themes.set.themes.get(name) {
        Some(theme) => Some(FoundTheme { theme, name: Ghost(name@) }),
        None => None,
    }
}

/// Calls `SyntaxSet::find_syntax_by_extension` on the built-in grammars
/// and, where one is found, `HighlightLines::new` with it and the theme.
/// The highlighter is handed out together with the set, so that each line
/// is later parsed with the grammars that the syntax belongs to.
///
/// Trusted: the set is the same in every run, so a grammar is found
/// exactly for the extensions that [`has_grammar`] holds of; the new
/// highlighter has been fed no line.
#[verifier::external_body]
fn start<'a>(syntaxes: &'a Grammars, extension: &str, theme: FoundTheme<'a>) -> (r: Option<
    LineHighlighter<'a>,
>)
    ensures
        r is Some <==> has_grammar(extension@),
        r matches Some(h) ==> h.theme@ == theme.name@ && h.extension@ == extension@ && h.fed@
            == Seq::<Seq<char>>::empty(),
{
    match syntaxes.set.find_syntax_by_extension(extension) {
        Some(syntax) => Some(
            LineHighlighter {
                state: syntect::easy::HighlightLines::new(syntax, theme.theme),
                syntaxes: &syntaxes.set,
                theme: Ghost(theme.name@),
                extension: Ghost(extension@),
                fed: Ghost(Seq::empty()),
            },
        ),
        None => None,
    }
}

/// Calls `HighlightLines::highlight_line` on one line and hands its styled
/// ranges out as segments: the foreground and background colour of each
/// range, and its text.
///
/// Trusted: the highlighter reads nothing but its own state and the line,
/// and its state comes from the theme, the grammar and the lines fed
/// before alone. So the outcome is the value that [`line_tokens`] names,
/// and the line counts as fed afterwards, whether it failed or not.
#[verifier::external_body]
fn highlight_line(highlighter: &mut LineHighlighter<'_>, line: &str) -> (r: Result<
    Vec<Segment>,
    syntect::Error,
>)
    ensures
        final(highlighter).theme@ == old(highlighter).theme@,
        final(highlighter).extension@ == old(highlighter).extension@,
        final(highlighter).fed@ == old(highlighter).fed@.push(line@),
        r matches Ok(ranges) ==> line_tokens(
            old(highlighter).theme@,
            old(highlighter).extension@,
            old(highlighter).fed@,
            line@,
        ) == Some(segment_views(ranges@)),
        r is Err ==> line_tokens(
            old(highlighter).theme@,
            old(highlighter).extension@,
            old(highlighter).fed@,
            line@,
        ) is None,
{
    highlighter.fed = Ghost(highlighter.fed@.push(line@));
    let ranges = highlighter.state.highlight_line(line, highlighter.syntaxes)?;
    Ok(ranges.into_iter().map(|(s, text)| {
        let (f, b) = (s.foreground, s.background);
        Segment {
            style: Style::Syntax {
                fg: Rgba { r: f.r, g: f.g, b: f.b, a: f.a },
                bg: Rgba { r: b.r, g: b.g, b: b.b, a: b.a },
            },
            text: text.to_string(),
        }
    }).collect())
}

/// The length of the first line of `text` with its line ending: the
/// position after the first line feed, or the whole length where there is
/// none.
pub open spec fn first_line_len(text: Seq<char>) -> int
    decreases text.len(),
{
    if text.len() == 0 {
        0
    } else if text[0] == '\n' {
        1
    } else {
        1 + first_line_len(text.drop_first())
    }
}

/// The lines of `text`, each with its line feed; the last line has none
/// where the text does not end in one. An empty text has no lines.
pub open spec fn lines_with_endings(text: Seq<char>) -> Seq<Seq<char>>
    decreases text.len(),
{
    let n = first_line_len(text);
    if text.len() == 0 {
        Seq::empty()
    } else if 1 <= n <= text.len() {
        seq![text.take(n)] + lines_with_endings(text.skip(n))
    } else {
        seq![text]
    }
}

/// The first line of a text that is not empty is not empty and lies
/// within the text.
pub proof fn lemma_first_line_len_bounds(text: Seq<char>)
    requires
        text.len() > 0,
    ensures
        1 <= first_line_len(text) <= text.len(),
    decreases text.len(),
{
    if text[0] != '\n' {
        if text.len() > 1 {
            lemma_first_line_len_bounds(text.drop_first());
        } else {
            assert(first_line_len(text.drop_first()) == 0);
        }
    }
}

/// Cutting a text into lines keeps every character, line endings
/// included: the lines joined are the text.
pub proof fn law_lines_join_to_text(text: Seq<char>)
    ensures
        joined(lines_with_endings(text)) == text,
    decreases text.len(),
{
    if text.len() == 0 {
        assert(joined(lines_with_endings(text)) =~= text);
    } else {
        let n = first_line_len(text);
        lemma_first_line_len_bounds(text);
        law_lines_join_to_text(text.skip(n));
        lemma_joined_concat(seq![text.take(n)], lines_with_endings(text.skip(n)));
        assert(seq![text.take(n)].drop_last() =~= Seq::<Seq<char>>::empty());
        assert(joined(Seq::<Seq<char>>::empty()) =~= Seq::<char>::empty());
        assert(joined(seq![text.take(n)]) =~= text.take(n));
        assert(text.take(n) + text.skip(n) =~= text);
    }
}

/// Walks `syntect::util::LinesWithEndings` over `text` and collects the
/// lines.
///
/// Trusted: the iterator cuts the text after each line feed and yields the
/// pieces in order, a last piece without line feed included, and nothing
/// for an empty text.
#[verifier::external_body]
fn split_lines(text: &str) -> (lines: Vec<String>)
    ensures
        string_views(lines@) == lines_with_endings(text@),
{
    syntect::util::LinesWithEndings::from(text).map(|line| line.to_string()).collect()
}

/// Every segment is a highlighted token.
pub open spec fn all_syntax(segments: Seq<SegmentView>) -> bool {
    forall|i: int| 0 <= i < segments.len() ==> (#[trigger] segments[i]).style is Syntax
}

/// The segments are highlighted tokens that together show `body`.
pub open spec fn is_faithful(segments: Seq<SegmentView>, body: Seq<char>) -> bool {
    all_syntax(segments) && visible_text(segments) == body
}

/// The body as one segment without highlighting.
pub open spec fn unhighlighted(body: Seq<char>) -> Seq<SegmentView> {
    seq![SegmentView { style: Style::Plain, text: body }]
}

/// What becomes of the output of a highlighter: it is kept where it is
/// faithful to the body, else the body is shown without highlighting.
pub open spec fn settled(body: Seq<char>, spans: Seq<SegmentView>) -> Seq<SegmentView> {
    if is_faithful(spans, body) {
        spans
    } else {
        unhighlighted(body)
    }
}

/// The segments are a highlighting of `body`, or `body` unhighlighted.
pub open spec fn is_highlighting(segments: Seq<SegmentView>, body: Seq<char>) -> bool {
    is_faithful(segments, body) || segments == unhighlighted(body)
}

/// Highlighting never changes what is shown: the visible text of a
/// highlighting of a body is the body.
pub proof fn law_highlighting_keeps_text(segments: Seq<SegmentView>, body: Seq<char>)
    requires
        is_highlighting(segments, body),
    ensures
        visible_text(segments) == body,
{
    if segments == unhighlighted(body) {
        crate::segment::lemma_visible_text_single(SegmentView { style: Style::Plain, text: body });
    }
}

fn is_all_syntax(segments: &Vec<Segment>) -> (r: bool)
    ensures
        r == all_syntax(segment_views(segments@)),
{
    let mut i: usize = 0;
    while i < segments.len()
        invariant
            i <= segments.len(),
            forall|j: int| 0 <= j < i ==> (#[trigger] segment_views(segments@)[j]).style is Syntax,
        decreases segments.len() - i,
    {
        match segments[i].style {
            Style::Syntax { .. } => {},
            _ => {
                assert(!(segment_views(segments@)[i as int].style is Syntax));
                return false;
            },
        }
        i += 1;
    }
    true
}

fn plain_body(body: &str) -> (r: Vec<Segment>)
    ensures
        segment_views(r@) == unhighlighted(body@),
{
    let mut r: Vec<Segment> = Vec::new();
    r.push(Segment { style: Style::Plain, text: String::from_str(body) });
    assert(segment_views(r@) =~= unhighlighted(body@));
    r
}

/// Decides what to show for a body, given what a highlighter made of it:
/// the highlighter's segments where all of them are tokens and their texts
/// join to the body, else the body as one plain segment.
pub fn settle(body: &str, spans: Vec<Segment>) -> (r: Vec<Segment>)
    ensures
        segment_views(r@) == settled(body@, segment_views(spans@)),
        is_highlighting(segment_views(r@), body@),
{
    if is_all_syntax(&spans) {
        let shown = plain_text(&spans);
        if shown == String::from_str(body) {
            return spans;
        }
    }
    plain_body(body)
}

/// The tokens of a run of lines that are fed, in order, to a fresh
/// highlighter of the theme and the grammar; `None` where one of the
/// lines fails.
pub open spec fn tokens_of(theme: Seq<char>, extension: Seq<char>, lines: Seq<Seq<char>>)
    -> Option<Seq<SegmentView>>
    decreases lines.len(),
{
    if lines.len() == 0 {
        Some(Seq::empty())
    } else {
        match tokens_of(theme, extension, lines.drop_last()) {
            Some(tokens) => match line_tokens(
                theme,
                extension,
                lines.drop_last(),
                lines.last(),
            ) {
                Some(more) => Some(tokens + more),
                None => None,
            },
            None => None,
        }
    }
}

/// The highlighting of a body: the body is cut into lines with their
/// endings, the lines are highlighted one after the other, and the tokens
/// are kept where they are faithful to the body. Without the theme or the
/// grammar, and where a line fails, the body is shown unhighlighted.
pub open spec fn highlighted(theme: Seq<char>, extension: Seq<char>, body: Seq<char>) -> Seq<
    SegmentView,
> {
    if has_theme(theme) && has_grammar(extension) {
        match tokens_of(theme, extension, lines_with_endings(body)) {
            Some(tokens) => settled(body, tokens),
            None => unhighlighted(body),
        }
    } else {
        unhighlighted(body)
    }
}

/// Once a line has failed, the run of lines has failed.
pub proof fn lemma_tokens_of_fails_on(
    theme: Seq<char>,
    extension: Seq<char>,
    lines: Seq<Seq<char>>,
    k: int,
)
    requires
        0 <= k <= lines.len(),
        tokens_of(theme, extension, lines.take(k)) is None,
    ensures
        tokens_of(theme, extension, lines) is None,
    decreases lines.len() - k,
{
    if k < lines.len() {
        assert(lines.take(k + 1).drop_last() =~= lines.take(k));
        lemma_tokens_of_fails_on(theme, extension, lines, k + 1);
    } else {
        assert(lines.take(k) =~= lines);
    }
}

/// Highlighting never changes what is shown: the highlighting of a body
/// is a run of tokens whose texts join to the body, or the body as one
/// plain segment, and its visible text is the body.
pub proof fn law_highlighted_keeps_text(theme: Seq<char>, extension: Seq<char>, body: Seq<char>)
    ensures
        is_highlighting(highlighted(theme, extension, body), body),
        visible_text(highlighted(theme, extension, body)) == body,
{
    law_highlighting_keeps_text(highlighted(theme, extension, body), body);
}

/// The highlighting of the empty body is empty; where the theme or the
/// grammar is missing it is the one plain segment without text. No token
/// is written for it.
pub proof fn law_empty_body_has_no_tokens(theme: Seq<char>, extension: Seq<char>)
    ensures
        highlighted(theme, extension, Seq::empty()) == if has_theme(theme) && has_grammar(
            extension,
        ) {
            Seq::<SegmentView>::empty()
        } else {
            unhighlighted(Seq::empty())
        },
{
    let body = Seq::<char>::empty();
    assert(lines_with_endings(body) =~= Seq::<Seq<char>>::empty());
    assert(tokens_of(theme, extension, Seq::<Seq<char>>::empty()) == Some(
        Seq::<SegmentView>::empty(),
    ));
    assert(visible_text(Seq::<SegmentView>::empty()) =~= body);
    assert(is_faithful(Seq::<SegmentView>::empty(), body));
}

/// Highlights a body as a text of the syntax with the given file
/// extension (`json`, `html`), in the colours of [`THEME`].
///
/// The body is cut into lines with their endings and the highlighter is
/// fed the lines in order. The result is the run of its tokens where
/// their texts join to the body; it is the body as one plain segment
/// where the extension names no grammar, the highlighter fails on a line
/// or its tokens do not show the body. In every case the text shown is
/// the body unchanged.
pub fn highlight(body: &str, extension: &str) -> (r: Vec<Segment>)
    ensures
        segment_views(r@) == highlighted(THEME@, extension@, body@),
        is_highlighting(segment_views(r@), body@),
        visible_text(segment_views(r@)) == body@,
        body@.len() == 0 ==> segment_views(r@).len() == 0 || segment_views(r@) == unhighlighted(
            body@,
        ),
{
    proof {
        law_highlighted_keeps_text(THEME@, extension@, body@);
        if body@.len() == 0 {
            assert(body@ =~= Seq::<char>::empty());
            law_empty_body_has_no_tokens(THEME@, extension@);
        }
    }
    let syntaxes = load_syntaxes();
    let themes = load_themes();
    let theme = match find_theme(&themes, THEME) {
        Some(theme) => theme,
        None => {
            return plain_body(body);
        },
    };
    let mut highlighter = match start(&syntaxes, extension, theme) {
        Some(highlighter) => highlighter,
        None => {
            return plain_body(body);
        },
    };
    let lines = split_lines(body);
    let ghost all = string_views(lines@);
    let mut spans: Vec<Segment> = Vec::new();
    let mut i: usize = 0;
    proof {
        assert(all.take(0) =~= Seq::<Seq<char>>::empty());
        assert(segment_views(spans@) =~= Seq::<SegmentView>::empty());
    }
    while i < lines.len()
        invariant
            i <= lines.len(),
            all == string_views(lines@),
            all == lines_with_endings(body@),
            has_theme(THEME@),
            has_grammar(extension@),
            is_highlighting(highlighted(THEME@, extension@, body@), body@),
            visible_text(highlighted(THEME@, extension@, body@)) == body@,
            highlighter.theme@ == THEME@,
            highlighter.extension@ == extension@,
            highlighter.fed@ == all.take(i as int),
            tokens_of(THEME@, extension@, all.take(i as int)) == Some(segment_views(spans@)),
        decreases lines.len() - i,
    {
        proof {
            assert(all.take(i as int + 1).drop_last() =~= all.take(i as int));
            assert(all.take(i as int + 1).last() == lines@[i as int]@);
            assert(all.take(i as int).push(lines@[i as int]@) =~= all.take(i as int + 1));
        }
        match highlight_line(&mut highlighter, lines[i].as_str()) {
            Ok(mut ranges) => {
                let ghost before = segment_views(spans@);
                let ghost more = segment_views(ranges@);
                spans.append(&mut ranges);
                assert(segment_views(spans@) =~= before + more);
            },
            Err(_) => {
                proof {
                    lemma_tokens_of_fails_on(THEME@, extension@, all, i as int + 1);
                }
                return plain_body(body);
            },
        }
        i += 1;
    }
    assert(all.take(lines.len() as int) =~= all);
    settle(body, spans)
}

} // verus!
