//! Text with colours, as the screens show it.

use vstd::prelude::*;
use crate::text;

verus! {

/// The colour of a text.
#[derive(Debug, Clone, Copy, PartialEq, Eq, Structural)]
pub enum Tone {
    Plain,
    Black,
    Red,
    Green,
    Yellow,
    Blue,
    Magenta,
    Cyan,
    Gray,
    DarkGray,
}

/// A piece of text in one style.
#[derive(Debug)]
pub struct Span {
    pub text: String,
    pub tone: Tone,
    pub bold: bool,
    pub underlined: bool,
}

/// The contents of a [`Span`].
pub struct SpanView {
    pub text: Seq<char>,
    pub tone: Tone,
    pub bold: bool,
    pub underlined: bool,
}

impl View for Span {
    type V = SpanView;

    open spec fn view(&self) -> SpanView {
        SpanView { text: self.text@, tone: self.tone, bold: self.bold, underlined: self.underlined }
    }
}

/// A plain text.
pub open spec fn plain(s: Seq<char>) -> SpanView {
    SpanView { text: s, tone: Tone::Plain, bold: false, underlined: false }
}

/// A text in a colour.
pub open spec fn toned(s: Seq<char>, tone: Tone) -> SpanView {
    SpanView { text: s, tone, bold: false, underlined: false }
}

/// A bold text in a colour.
pub open spec fn strong(s: Seq<char>, tone: Tone) -> SpanView {
    SpanView { text: s, tone, bold: true, underlined: false }
}

/// A line: its pieces from left to right.
pub type LineView = Seq<SpanView>;

impl Span {
    /// A plain text.
    pub fn plain(s: String) -> (r: Self)
        ensures
            r@ == plain(s@),
    {
        Span { text: s, tone: Tone::Plain, bold: false, underlined: false }
    }

    /// A text in a colour.
    pub fn toned(s: String, tone: Tone) -> (r: Self)
        ensures
            r@ == toned(s@, tone),
    {
        Span { text: s, tone, bold: false, underlined: false }
    }

    /// A bold text in a colour.
    pub fn strong(s: String, tone: Tone) -> (r: Self)
        ensures
            r@ == strong(s@, tone),
    {
        Span { text: s, tone, bold: true, underlined: false }
    }
}

/// A line of styled text.
#[derive(Debug)]
pub struct Line {
    pub spans: Vec<Span>,
}

/// The contents of a list of spans.
pub open spec fn spans_view(v: Seq<Span>) -> LineView {
    v.map_values(|s: Span| s@)
}

impl View for Line {
    type V = LineView;

    open spec fn view(&self) -> LineView {
        spans_view(self.spans@)
    }
}

impl Line {
    /// An empty line.
    pub fn new() -> (r: Self)
        ensures
            r@ == LineView::empty(),
    {
        let r = Line { spans: Vec::new() };
        proof {
            assert(r@ =~= LineView::empty());
        }
        r
    }

    /// Adds a piece on the right.
    pub fn add(&mut self, span: Span)
        ensures
            final(self)@ == old(self)@.push(span@),
    {
        let ghost before = self@;
        let ghost new = span@;
        self.spans.push(span);
        proof {
            assert(self@ =~= before.push(new));
        }
    }

    /// A line of one piece.
    pub fn of(span: Span) -> (r: Self)
        ensures
            r@ == seq![span@],
    {
        let mut r = Line::new();
        r.add(span);
        r
    }

    /// A line of two pieces.
    pub fn pair(a: Span, b: Span) -> (r: Self)
        ensures
            r@ == seq![a@, b@],
    {
        let mut r = Line::new();
        r.add(a);
        r.add(b);
        r
    }

    /// A plain line.
    pub fn raw(s: &str) -> (r: Self)
        ensures
            r@ == seq![plain(s@)],
    {
        Line::of(Span::plain(text::copy_str(s)))
    }
}

/// Lines from top to bottom.
#[derive(Debug)]
pub struct Page {
    pub lines: Vec<Line>,
}

/// The contents of a list of lines.
pub open spec fn lines_view(v: Seq<Line>) -> Seq<LineView> {
    v.map_values(|l: Line| l@)
}

impl View for Page {
    type V = Seq<LineView>;

    open spec fn view(&self) -> Seq<LineView> {
        lines_view(self.lines@)
    }
}

impl Page {
    /// No lines.
    pub fn new() -> (r: Self)
        ensures
            r@ == Seq::<LineView>::empty(),
    {
        let r = Page { lines: Vec::new() };
        proof {
            assert(r@ =~= Seq::<LineView>::empty());
        }
        r
    }

    /// Adds a line at the bottom.
    pub fn add(&mut self, line: Line)
        ensures
            final(self)@ == old(self)@.push(line@),
    {
        let ghost before = self@;
        let ghost new = line@;
        self.lines.push(line);
        proof {
            assert(self@ =~= before.push(new));
        }
    }

    /// Adds a plain line at the bottom.
    pub fn add_raw(&mut self, s: &str)
        ensures
            final(self)@ == old(self)@.push(seq![plain(s@)]),
    {
        self.add(Line::raw(s));
    }

    /// How many lines there are.
    pub fn len(&self) -> (r: usize)
        ensures
            r == self@.len(),
    {
        self.lines.len()
    }
}

} // verus!
