//! Painted text: what the views are made of.

use crate::text::copied;
use vstd::prelude::*;

verus! {

/// The colors of the interface: a neutral base with lavender and rose accents.
#[derive(Clone, Copy, Debug, PartialEq, Eq, Structural)]
pub enum Hue {
    Text,
    Muted,
    Dim,
    /// Lavender.
    Accent,
    Rose,
    Sage,
    Sky,
    Alert,
    /// The background of the selected result.
    Shade,
    /// The black of the terminal.
    Black,
    /// The color that the terminal has by itself.
    Reset,
}

impl Hue {
    /// The red, green and blue of a color; the terminal's own colors have none.
    pub open spec fn rgb_of(self) -> Option<(u8, u8, u8)> {
        match self {
            Hue::Text => Some((225u8, 225u8, 223u8)),
            Hue::Muted => Some((140u8, 140u8, 138u8)),
            Hue::Dim => Some((90u8, 90u8, 88u8)),
            Hue::Accent => Some((167u8, 139u8, 250u8)),
            Hue::Rose => Some((244u8, 114u8, 182u8)),
            Hue::Sage => Some((139u8, 175u8, 126u8)),
            Hue::Sky => Some((122u8, 179u8, 224u8)),
            Hue::Alert => Some((224u8, 122u8, 106u8)),
            Hue::Shade => Some((55u8, 40u8, 80u8)),
            Hue::Black | Hue::Reset => None,
        }
    }

    /// The red, green and blue of a color.
    pub fn rgb(self) -> (r: Option<(u8, u8, u8)>)
        ensures
            r == self.rgb_of(),
    {
        match self {
            Hue::Text => Some((225, 225, 223)),
            Hue::Muted => Some((140, 140, 138)),
            Hue::Dim => Some((90, 90, 88)),
            Hue::Accent => Some((167, 139, 250)),
            Hue::Rose => Some((244, 114, 182)),
            Hue::Sage => Some((139, 175, 126)),
            Hue::Sky => Some((122, 179, 224)),
            Hue::Alert => Some((224, 122, 106)),
            Hue::Shade => Some((55, 40, 80)),
            Hue::Black | Hue::Reset => None,
        }
    }
}

/// How a piece of text is painted.
#[derive(Clone, Copy, Debug, PartialEq, Eq, Structural)]
pub struct Paint {
    /// The color of the text, the usual one where there is none.
    pub fg: Option<Hue>,
    /// The color behind the text.
    pub bg: Option<Hue>,
    pub bold: bool,
}

/// Text as it comes.
pub open spec fn bare() -> Paint {
    Paint { fg: None, bg: None, bold: false }
}

/// Text in a color.
pub open spec fn ink(hue: Hue) -> Paint {
    Paint { fg: Some(hue), bg: None, bold: false }
}

/// Bold text in a color.
pub open spec fn bold(hue: Hue) -> Paint {
    Paint { fg: Some(hue), bg: None, bold: true }
}

/// Text in a color, bold or not.
pub open spec fn ink_or_bold(hue: Hue, heavy: bool) -> Paint {
    Paint { fg: Some(hue), bg: None, bold: heavy }
}

/// A piece of painted text.
#[derive(Clone, Debug)]
pub struct Span {
    pub text: String,
    pub paint: Paint,
}

#[verifier::ext_equal]
pub struct SpanView {
    pub text: Seq<char>,
    pub paint: Paint,
}

impl View for Span {
    type V = SpanView;

    open spec fn view(&self) -> SpanView {
        SpanView { text: self.text@, paint: self.paint }
    }
}

/// Where a line stands.
#[derive(Clone, Copy, Debug, PartialEq, Eq, Structural)]
pub enum Align {
    Left,
    Center,
    Right,
}

/// A line of painted text.
#[derive(Clone, Debug)]
pub struct Line {
    pub spans: Vec<Span>,
    pub align: Align,
}

#[verifier::ext_equal]
pub struct LineView {
    pub spans: Seq<SpanView>,
    pub align: Align,
}

/// The pieces of a line.
pub open spec fn span_views(spans: Seq<Span>) -> Seq<SpanView> {
    spans.map_values(|s: Span| s@)
}

impl View for Line {
    type V = LineView;

    open spec fn view(&self) -> LineView {
        LineView { spans: span_views(self.spans@), align: self.align }
    }
}

/// Several lines.
pub open spec fn line_views(lines: Seq<Line>) -> Seq<LineView> {
    lines.map_values(|l: Line| l@)
}

pub open spec fn piece(text: Seq<char>, paint: Paint) -> SpanView {
    SpanView { text, paint }
}

/// A line that stands at the left.
pub open spec fn row(spans: Seq<SpanView>) -> LineView {
    LineView { spans, align: Align::Left }
}

/// An empty line.
pub open spec fn gap() -> LineView {
    row(Seq::empty())
}

/// A line that stands in the middle.
pub open spec fn middle(spans: Seq<SpanView>) -> LineView {
    LineView { spans, align: Align::Center }
}

/// Text as it comes.
pub fn unpainted() -> (r: Paint)
    ensures
        r == bare(),
{
    Paint { fg: None, bg: None, bold: false }
}

/// Text in a color.
pub fn in_ink(hue: Hue) -> (r: Paint)
    ensures
        r == ink(hue),
{
    Paint { fg: Some(hue), bg: None, bold: false }
}

/// Bold text in a color.
pub fn in_bold(hue: Hue) -> (r: Paint)
    ensures
        r == bold(hue),
{
    Paint { fg: Some(hue), bg: None, bold: true }
}

/// Appends a piece of painted text.
pub fn put(spans: &mut Vec<Span>, text: &str, paint: Paint)
    ensures
        span_views(final(spans)@) == span_views(old(spans)@).push(piece(text@, paint)),
{
    spans.push(Span { text: copied(text), paint });
    proof {
        assert(span_views(spans@) =~= span_views(old(spans)@).push(piece(text@, paint)));
    }
}

/// No pieces yet.
pub fn no_spans() -> (r: Vec<Span>)
    ensures
        span_views(r@) == Seq::<SpanView>::empty(),
{
    let r: Vec<Span> = Vec::new();
    proof {
        assert(span_views(r@) =~= Seq::<SpanView>::empty());
    }
    r
}

/// Appends a line that stands at the left.
pub fn put_row(lines: &mut Vec<Line>, spans: Vec<Span>)
    ensures
        line_views(final(lines)@) == line_views(old(lines)@).push(row(span_views(spans@))),
{
    lines.push(Line { spans, align: Align::Left });
    proof {
        assert(line_views(lines@) =~= line_views(old(lines)@).push(row(span_views(spans@))));
    }
}

/// Appends a line that stands in the middle.
pub fn put_middle(lines: &mut Vec<Line>, spans: Vec<Span>)
    ensures
        line_views(final(lines)@) == line_views(old(lines)@).push(middle(span_views(spans@))),
{
    lines.push(Line { spans, align: Align::Center });
    proof {
        assert(line_views(lines@) =~= line_views(old(lines)@).push(middle(span_views(spans@))));
    }
}

/// No lines yet.
pub fn no_rows() -> (r: Vec<Line>)
    ensures
        line_views(r@) == Seq::<LineView>::empty(),
{
    let r: Vec<Line> = Vec::new();
    proof {
        assert(line_views(r@) =~= Seq::<LineView>::empty());
    }
    r
}

} // verus!
