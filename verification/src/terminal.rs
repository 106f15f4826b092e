//! From styled segments to the text that a terminal is sent: plain
//! segments as they are, the status line and header names coloured by the
//! `colored` crate, highlighted tokens wrapped in 24-bit colour escape
//! sequences by the `syntect` crate.

use crate::segment::{segment_views, Rgba, Segment, SegmentView, Style};
use crate::text::{decimal, joined};
use vstd::prelude::*;

verus! {

/// One channel of a colour that lies over another with the opacity
/// `alpha`: the weighted mean of the two, rounded down.
pub open spec fn blended(over: u8, under: u8, alpha: u8) -> nat {
    ((over as nat) * (alpha as nat) + (under as nat) * ((255 - alpha) as nat)) / 255
}

/// The escape sequence that sets a 24-bit colour; `layer` is `38` for the
/// foreground and `48` for the background.
pub open spec fn colour_code(layer: Seq<char>, r: nat, g: nat, b: nat) -> Seq<char> {
    seq!['\x1b', '['] + layer + seq![';', '2', ';'] + decimal(r) + seq![';'] + decimal(g) + seq![
        ';',
    ] + decimal(b) + seq!['m']
}

/// The escape sequence for the foreground of a token: its foreground
/// colour, blended over the background where it is not opaque.
pub open spec fn foreground_code(fg: Rgba, bg: Rgba) -> Seq<char> {
    if fg.a == 255 {
        colour_code(seq!['3', '8'], fg.r as nat, fg.g as nat, fg.b as nat)
    } else {
        colour_code(
            seq!['3', '8'],
            blended(fg.r, bg.r, fg.a),
            blended(fg.g, bg.g, fg.a),
            blended(fg.b, bg.b, fg.a),
        )
    }
}

/// A token on a terminal with 24-bit colours: the escape sequence for
/// its background, where that is asked for, the one for its foreground,
/// and its text. Nothing resets the colours after it.
pub open spec fn escaped_24_bit(fg: Rgba, bg: Rgba, with_background: bool, text: Seq<char>)
    -> Seq<char> {
    if with_background {
        colour_code(seq!['4', '8'], bg.r as nat, bg.g as nat, bg.b as nat) + foreground_code(
            fg,
            bg,
        ) + text
    } else {
        foreground_code(fg, bg) + text
    }
}

/// Calls `syntect::util::as_24_bit_terminal_escaped` on a slice of one
/// range, whose style holds the two colours and no font style;
/// `with_background` is its flag `bg`.
///
/// Trusted: for each range the function writes the background colour,
/// where the flag is set, then the foreground colour, blended over the
/// background by its opacity unless that is 255, then the text, each
/// colour as `ESC [ 48 or 38 ; 2 ; r ; g ; b m` in decimal.
#[verifier::external_body]
fn escape_24_bit(fg: Rgba, bg: Rgba, with_background: bool, text: &str) -> (r: String)
    ensures
        r@ == escaped_24_bit(fg, bg, with_background, text@),
{
    let style = syntect::highlighting::Style {
        foreground: syntect::highlighting::Color { r: fg.r, g: fg.g, b: fg.b, a: fg.a },
        background: syntect::highlighting::Color { r: bg.r, g: bg.g, b: bg.b, a: bg.a },
        font_style: syntect::highlighting::FontStyle::empty(),
    };
    syntect::util::as_24_bit_terminal_escaped(&[(style, text)], with_background)
}

/// The escape sequence that selects a graphic rendition by its code.
pub open spec fn rendition(code: Seq<char>) -> Seq<char> {
    seq!['\x1b', '['] + code + seq!['m']
}

/// A text in a colour: the sequence that selects the colour, the text,
/// and the sequence that resets the rendition.
pub open spec fn coloured(code: Seq<char>, text: Seq<char>) -> Seq<char> {
    rendition(code) + text + rendition(seq!['0'])
}

/// `piece` is what the terminal colour library may write for a text in
/// the colour of that code: the text in the colour, or, where colours are
/// switched off, the text as it is. Of a text that holds an escape
/// character itself nothing is said.
pub open spec fn is_painted(code: Seq<char>, text: Seq<char>, piece: Seq<char>) -> bool {
    !text.contains('\x1b') ==> piece == text || piece == coloured(code, text)
}

/// Calls `colored::Colorize::blue` on the text and formats the result.
///
/// Trusted: whether the crate writes colours depends on the variables of
/// the process and on the terminal, so either outcome is admitted: the
/// text as it is, or the text between `ESC [ 34 m` and `ESC [ 0 m`. This
/// holds of a text without escape character, and as long as nothing
/// switches the colours of the crate while the call runs.
#[verifier::external_body]
fn paint_blue(text: &str) -> (r: String)
    ensures
        is_painted(seq!['3', '4'], text@, r@),
{
    colored::Colorize::blue(text).to_string()
}

/// Calls `colored::Colorize::green` on the text and formats the result.
///
/// Trusted: whether the crate writes colours depends on the variables of
/// the process and on the terminal, so either outcome is admitted: the
/// text as it is, or the text between `ESC [ 32 m` and `ESC [ 0 m`. This
/// holds of a text without escape character, and as long as nothing
/// switches the colours of the crate while the call runs.
#[verifier::external_body]
fn paint_green(text: &str) -> (r: String)
    ensures
        is_painted(seq!['3', '2'], text@, r@),
{
    colored::Colorize::green(text).to_string()
}

/// `piece` may stand for the segment on a terminal: a plain segment is
/// its text; a highlighted token is its text after the escape sequences
/// for its colours, background included; the status line is painted blue
/// and a header name green.
pub open spec fn piece_fits(segment: SegmentView, piece: Seq<char>) -> bool {
    match segment.style {
        Style::Plain => piece == segment.text,
        Style::Syntax { fg, bg } => piece == escaped_24_bit(fg, bg, true, segment.text),
        Style::Status => is_painted(seq!['3', '4'], segment.text, piece),
        Style::HeaderName => is_painted(seq!['3', '2'], segment.text, piece),
    }
}

/// `text` is the pieces of the segments, one for each, joined in order.
pub open spec fn is_terminal_text(segments: Seq<SegmentView>, text: Seq<char>) -> bool {
    exists|pieces: Seq<Seq<char>>|
        {
            &&& pieces.len() == segments.len()
            &&& forall|i: int|
                0 <= i < segments.len() ==> piece_fits(segments[i], #[trigger] pieces[i])
            &&& text == joined(pieces)
        }
}

/// The terminal text of one segment.
pub fn paint(segment: &Segment) -> (piece: String)
    ensures
        piece_fits(segment@, piece@),
{
    match segment.style {
        Style::Plain => segment.text.clone(),
        Style::Syntax { fg, bg } => escape_24_bit(fg, bg, true, segment.text.as_str()),
        Style::Status => paint_blue(segment.text.as_str()),
        Style::HeaderName => paint_green(segment.text.as_str()),
    }
}

/// The terminal text of a rendering: the pieces of its segments, in order.
pub fn to_terminal(segments: &Vec<Segment>) -> (text: String)
    ensures
        is_terminal_text(segment_views(segments@), text@),
{
    let mut text = String::new();
    let ghost mut pieces: Seq<Seq<char>> = Seq::empty();
    let mut i: usize = 0;
    while i < segments.len()
        invariant
            i <= segments.len(),
            pieces.len() == i,
            forall|j: int|
                0 <= j < i ==> piece_fits(segment_views(segments@)[j], #[trigger] pieces[j]),
            text@ == joined(pieces),
        decreases segments.len() - i,
    {
        let piece = paint(&segments[i]);
        proof {
            let next = pieces.push(piece@);
            assert(next.drop_last() =~= pieces);
            pieces = next;
        }
        text.append(piece.as_str());
        i += 1;
    }
    text
}

} // verus!
