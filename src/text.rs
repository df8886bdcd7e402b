use vstd::prelude::*;
use crate::style::Style;

verus! {

/// A run of text drawn in one style.
pub struct Span {
    pub content: String,
    pub style: Style,
}

/// One line of a document: spans drawn left to right, never wrapped.
pub struct Line {
    pub spans: Vec<Span>,
}

/// A styled document: lines drawn top to bottom.
pub struct Text {
    pub lines: Vec<Line>,
}

/// What a span shows: its characters and its style.
pub type SpanModel = (Seq<char>, Style);

/// What a line shows.
pub type LineModel = Seq<SpanModel>;

/// What a document shows.
pub type TextModel = Seq<LineModel>;

impl View for Span {
    type V = SpanModel;

    open spec fn view(&self) -> SpanModel {
        (self.content@, self.style)
    }
}

impl View for Line {
    type V = LineModel;

    open spec fn view(&self) -> LineModel {
        self.spans@.map_values(|s: Span| s@)
    }
}

impl View for Text {
    type V = TextModel;

    open spec fn view(&self) -> TextModel {
        self.lines@.map_values(|l: Line| l@)
    }
}

/// All the spans of a document, line after line.
pub open spec fn all_spans(t: TextModel) -> LineModel
    decreases t.len(),
{
    if t.len() == 0 {
        Seq::empty()
    } else {
        all_spans(t.drop_last()) + t.last()
    }
}

/// A document with `spans` added at the end of its last line; a document
/// without lines first gets an empty one.
pub open spec fn append_spans(t: TextModel, spans: LineModel) -> TextModel {
    if t.len() == 0 {
        seq![spans]
    } else {
        t.drop_last().push(t.last() + spans)
    }
}

/// Appending spans in two steps appends them all at once.
pub proof fn lemma_append_spans_twice(t: TextModel, a: LineModel, b: LineModel)
    ensures
        append_spans(append_spans(t, a), b) == append_spans(t, a + b),
{
    if t.len() == 0 {
        assert(append_spans(t, a).drop_last() =~= Seq::<LineModel>::empty());
        assert(append_spans(append_spans(t, a), b) =~= seq![a + b]);
    } else {
        let u = append_spans(t, a);
        assert(u.drop_last() =~= t.drop_last());
        assert(u.last() == t.last() + a);
        assert(t.last() + a + b =~= t.last() + (a + b));
    }
}

impl Span {
    /// A span of `content` drawn in `style`.
    pub fn styled(content: String, style: Style) -> (r: Span)
        ensures
            r@ == (content@, style),
    {
        Span { content, style }
    }

    /// A copy of the span.
    pub fn duplicate(&self) -> (r: Span)
        ensures
            r@ == self@,
    {
        Span { content: self.content.clone(), style: self.style }
    }
}

impl Line {
    /// A line without spans.
    pub fn new() -> (r: Line)
        ensures
            r@ == Seq::<SpanModel>::empty(),
    {
        Line { spans: Vec::new() }
    }

    /// A line of one span.
    pub fn from_span(span: Span) -> (r: Line)
        ensures
            r@ == seq![span@],
    {
        let ghost sv = span@;
        let mut spans = Vec::new();
        spans.push(span);
        let r = Line { spans };
        proof {
            assert(r@ =~= seq![sv]);
        }
        r
    }

    /// Adds a span at the end of the line.
    pub fn push_span(&mut self, span: Span)
        ensures
            final(self)@ == old(self)@.push(span@),
    {
        self.spans.push(span);
        proof {
            assert(self@ =~= old(self)@.push(span@));
        }
    }

    /// A copy of the line.
    pub fn duplicate(&self) -> (r: Line)
        ensures
            r@ == self@,
    {
        let mut spans: Vec<Span> = Vec::new();
        let mut i: usize = 0;
        while i < self.spans.len()
            invariant
                i <= self.spans@.len(),
                spans@.len() == i,
                forall|k: int| 0 <= k < i ==> #[trigger] spans@[k]@ == self.spans@[k]@,
            decreases self.spans@.len() - i,
        {
            let c = self.spans[i].duplicate();
            spans.push(c);
            i = i + 1;
        }
        let r = Line { spans };
        proof {
            assert(r@ =~= self@);
        }
        r
    }
}

impl Text {
    /// A document without lines.
    pub fn new() -> (r: Text)
        ensures
            r@ == Seq::<LineModel>::empty(),
    {
        Text { lines: Vec::new() }
    }

    /// Whether the document has no lines.
    pub fn is_empty(&self) -> (r: bool)
        ensures
            r == (self@.len() == 0),
    {
        self.lines.len() == 0
    }

    /// The number of lines.
    pub fn len(&self) -> (r: usize)
        ensures
            r == self@.len(),
    {
        self.lines.len()
    }

    /// Adds a line at the end of the document.
    pub fn push_line(&mut self, line: Line)
        ensures
            final(self)@ == old(self)@.push(line@),
    {
        self.lines.push(line);
        proof {
            assert(self@ =~= old(self)@.push(line@));
        }
    }

    /// Adds a span at the end of the last line, or as a line of its own
    /// where the document has none.
    pub fn push_span(&mut self, span: Span)
        ensures
            final(self)@ == append_spans(old(self)@, seq![span@]),
    {
        let n = self.lines.len();
        if n == 0 {
            self.push_line(Line::from_span(span));
        } else {
            let ghost sv = span@;
            let mut last = self.lines.pop().unwrap();
            proof {
                assert(last@ == old(self)@.last());
                assert(self.lines@ == old(self).lines@.drop_last());
            }
            last.push_span(span);
            self.lines.push(last);
            proof {
                let t = append_spans(old(self)@, seq![sv]);
                assert(self@.len() == t.len());
                assert forall|k: int| 0 <= k < t.len() implies self@[k] == t[k] by {
                    if k < t.len() - 1 {
                        assert(self.lines@[k] == old(self).lines@[k]);
                    }
                }
                assert(self@ =~= t);
            }
        }
    }

    /// Adds the lines of `other` after the last line.
    pub fn append_lines(&mut self, other: Text)
        ensures
            final(self)@ == old(self)@ + other@,
    {
        let ghost ov = other@;
        let mut other = other;
        self.lines.append(&mut other.lines);
        proof {
            assert(self@ =~= old(self)@ + ov);
        }
    }

    /// Adds every span of `other`, line after line, at the end of the last
    /// line (which is made first where there is none).
    pub fn append_spans_of(&mut self, other: &Text)
        ensures
            final(self)@ == append_spans(old(self)@, all_spans(other@)),
    {
        if self.lines.len() == 0 {
            self.push_line(Line::new());
            proof {
                assert(self@ =~= append_spans(old(self)@, Seq::empty()));
            }
        } else {
            proof {
                assert(old(self)@.last() + Seq::<SpanModel>::empty() =~= old(self)@.last());
                assert(old(self)@.drop_last().push(old(self)@.last()) =~= old(self)@);
            }
        }
        let ghost start = old(self)@;
        let mut j: usize = 0;
        while j < other.lines.len()
            invariant
                j <= other@.len(),
                self@ == append_spans(start, all_spans(other@.subrange(0, j as int))),
            decreases other@.len() - j,
        {
            let line = &other.lines[j];
            let ghost before = all_spans(other@.subrange(0, j as int));
            let mut k: usize = 0;
            while k < line.spans.len()
                invariant
                    k <= line@.len(),
                    line@ == other@[j as int],
                    self@ == append_spans(start, before + line@.subrange(0, k as int)),
                decreases line@.len() - k,
            {
                let ghost prior = self@;
                self.push_span(line.spans[k].duplicate());
                proof {
                    lemma_append_spans_twice(start, before + line@.subrange(0, k as int), seq![line@[k as int]]);
                    assert(before + line@.subrange(0, k as int) + seq![line@[k as int]] =~= before
                        + line@.subrange(0, k + 1));
                }
                k = k + 1;
            }
            proof {
                assert(line@.subrange(0, k as int) =~= line@);
                assert(other@.subrange(0, j + 1).drop_last() =~= other@.subrange(0, j as int));
            }
            j = j + 1;
        }
        proof {
            assert(other@.subrange(0, j as int) =~= other@);
        }
    }

    /// A copy of the document.
    pub fn duplicate(&self) -> (r: Text)
        ensures
            r@ == self@,
    {
        let mut lines: Vec<Line> = Vec::new();
        let mut i: usize = 0;
        while i < self.lines.len()
            invariant
                i <= self.lines@.len(),
                lines@.len() == i,
                forall|k: int| 0 <= k < i ==> #[trigger] lines@[k]@ == self.lines@[k]@,
            decreases self.lines@.len() - i,
        {
            let c = self.lines[i].duplicate();
            lines.push(c);
            i = i + 1;
        }
        let r = Text { lines };
        proof {
            assert(r@ =~= self@);
        }
        r
    }
}

} // verus!
