//! Styled text: what a rendering is made of before it reaches a terminal.

use vstd::prelude::*;

verus! {

/// A colour with its opacity, each channel from 0 to 255.
#[derive(Debug, Clone, Copy, PartialEq, Eq, Structural)]
pub struct Rgba {
    pub r: u8,
    pub g: u8,
    pub b: u8,
    pub a: u8,
}

/// How a piece of text is to be shown.
#[derive(Debug, Clone, Copy, PartialEq, Eq, Structural)]
pub enum Style {
    /// The status line, in the attention colour.
    Status,
    /// The name of a header, in the colour of names.
    HeaderName,
    /// Default formatting.
    Plain,
    /// One token of a highlighted body, in the colours of the theme.
    Syntax { fg: Rgba, bg: Rgba },
}

/// A piece of text with its style.
#[derive(Debug, Clone, PartialEq, Eq)]
pub struct Segment {
    pub style: Style,
    pub text: String,
}

/// The mathematical value of a [`Segment`].
pub struct SegmentView {
    pub style: Style,
    pub text: Seq<char>,
}

impl View for Segment {
    type V = SegmentView;

    open spec fn view(&self) -> SegmentView {
        SegmentView { style: self.style, text: self.text@ }
    }
}

/// The values of a sequence of segments.
pub open spec fn segment_views(segments: Seq<Segment>) -> Seq<SegmentView> {
    segments.map_values(|s: Segment| s@)
}

/// The text that a reader sees when all styling is taken away: the texts
/// of the segments, joined in order.
pub open spec fn visible_text(segments: Seq<SegmentView>) -> Seq<char>
    decreases segments.len(),
{
    if segments.len() == 0 {
        Seq::empty()
    } else {
        visible_text(segments.drop_last()) + segments.last().text
    }
}

/// The visible text of two runs of segments, one after the other, is the
/// text of the first followed by the text of the second.
pub proof fn lemma_visible_text_concat(a: Seq<SegmentView>, b: Seq<SegmentView>)
    ensures
        visible_text(a + b) == visible_text(a) + visible_text(b),
    decreases b.len(),
{
    if b.len() == 0 {
        assert(a + b =~= a);
        assert(visible_text(a) + visible_text(b) =~= visible_text(a));
    } else {
        lemma_visible_text_concat(a, b.drop_last());
        assert((a + b).drop_last() =~= a + b.drop_last());
        assert((a + b).last() == b.last());
        assert(visible_text(a + b) =~= visible_text(a) + visible_text(b));
    }
}

/// The visible text of a single segment is its text.
pub proof fn lemma_visible_text_single(s: SegmentView)
    ensures
        visible_text(seq![s]) == s.text,
{
    assert(seq![s].drop_last() =~= Seq::<SegmentView>::empty());
    assert(visible_text(Seq::<SegmentView>::empty()) =~= Seq::<char>::empty());
    assert(visible_text(seq![s]) =~= s.text);
}

/// Joins the texts of the segments.
pub fn plain_text(segments: &Vec<Segment>) -> (text: String)
    ensures
        text@ == visible_text(segment_views(segments@)),
{
    let mut text = String::new();
    let mut i: usize = 0;
    assert(segment_views(segments@).take(0) =~= Seq::empty());
    while i < segments.len()
        invariant
            i <= segments.len(),
            text@ == visible_text(segment_views(segments@).take(i as int)),
        decreases segments.len() - i,
    {
        proof {
            let upto = segment_views(segments@).take(i as int + 1);
            assert(upto.drop_last() =~= segment_views(segments@).take(i as int));
            assert(upto.last() == segments@[i as int]@);
        }
        text.append(segments[i].text.as_str());
        i += 1;
    }
    assert(segment_views(segments@).take(segments.len() as int) =~= segment_views(segments@));
    text
}

} // verus!
