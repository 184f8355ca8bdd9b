//! Styled text: colors, text styles, single-style spans and styled lines,
//! and their rendered display widths.

use vstd::prelude::*;

use unicode_width::UnicodeWidthStr;

verus! {

/// A terminal color, either one of the base palette or a true color value.
#[derive(Clone, Copy, Debug, PartialEq, Eq, Structural)]
pub enum Color {
    Black,
    Red,
    Green,
    Yellow,
    Blue,
    Magenta,
    Cyan,
    White,
    Rgb { r: u8, g: u8, b: u8 },
}

/// An optional foreground and background color pair.
#[derive(Clone, Copy, Debug, PartialEq, Eq, Structural)]
pub struct Colors {
    pub foreground: Option<Color>,
    pub background: Option<Color>,
}

/// The style of a piece of text.
#[derive(Clone, Copy, Debug, PartialEq, Eq, Structural)]
pub struct TextStyle {
    pub bold: bool,
    pub colors: Colors,
}

impl TextStyle {
    /// The plain, unstyled style.
    pub fn plain() -> (r: TextStyle)
        ensures
            r == TextStyle::plain_spec(),
    {
        TextStyle { bold: false, colors: Colors { foreground: None, background: None } }
    }

    /// The plain, unstyled style.
    pub open spec fn plain_spec() -> TextStyle {
        TextStyle { bold: false, colors: Colors { foreground: None, background: None } }
    }

    /// The same style with the given colors.
    pub fn colors(self, colors: Colors) -> (r: TextStyle)
        ensures
            r == (TextStyle { colors, ..self }),
    {
        TextStyle { colors, ..self }
    }

    /// A plain style carrying only the given colors.
    pub open spec fn colored_spec(colors: Colors) -> TextStyle {
        TextStyle { bold: false, colors }
    }

    /// A plain style carrying only the given colors.
    #[verifier::when_used_as_spec(colored_spec)]
    pub fn colored(colors: Colors) -> (r: TextStyle)
        ensures
            r == (TextStyle { bold: false, colors }),
    {
        TextStyle { bold: false, colors }
    }
}

impl Default for TextStyle {
    /// The plain style.
    fn default() -> (r: Self)
        ensures
            r == TextStyle::plain_spec(),
    {
        TextStyle::plain()
    }
}

/// The display width of a string, as a terminal renders it.
///
/// The value is determined by the characters alone.
pub uninterp spec fn display_width(s: Seq<char>) -> nat;

/// Relies on unicode_width's `UnicodeWidthStr::width`: the rendered column
/// width of a string, a pure function of its characters (a right fold over
/// them), zero for the empty string.
#[verifier::external_body]
pub fn str_display_width(s: &str) -> (r: usize)
    ensures
        r == display_width(s@),
        s@.len() == 0 ==> r == 0,
{
    UnicodeWidthStr::width(s)
}

/// A piece of text with one style.
#[derive(Debug, PartialEq, Eq)]
pub struct Text {
    pub content: String,
    pub style: TextStyle,
}

impl Clone for Text {
    /// An equal span.
    fn clone(&self) -> (r: Self)
        ensures
            r == self,
    {
        Text { content: self.content.clone(), style: self.style }
    }
}

impl Text {
    /// A span holding `content` with `style`.
    pub fn new(content: &str, style: TextStyle) -> (r: Text)
        ensures
            r.content@ == content@,
            r.style == style,
    {
        Text { content: content.to_owned(), style }
    }

    /// The display width of this span.
    pub fn width(&self) -> (r: usize)
        ensures
            r == display_width(self.content@),
    {
        str_display_width(self.content.as_str())
    }
}

/// A line of text: a sequence of spans, each with its own style.
#[derive(Debug, PartialEq, Eq)]
pub struct Line(pub Vec<Text>);

impl Clone for Line {
    /// A line with equal spans.
    fn clone(&self) -> (r: Self)
        ensures
            r.0@ == self.0@,
    {
        let mut spans: Vec<Text> = Vec::new();
        let mut i: usize = 0;
        while i < self.0.len()
            invariant
                i <= self.0@.len(),
                spans@.len() == i,
                forall|k: int| 0 <= k < i ==> spans@[k] == self.0@[k],
            decreases self.0@.len() - i,
        {
            spans.push(self.0[i].clone());
            i += 1;
        }
        proof {
            assert(spans@ =~= self.0@);
        }
        Line(spans)
    }
}

/// The display width of a sequence of spans, summed span by span and
/// saturating at `usize::MAX`.
pub open spec fn line_width_spec(spans: Seq<Text>) -> int
    decreases spans.len(),
{
    if spans.len() == 0 {
        0
    } else {
        let rest = line_width_spec(spans.drop_last());
        let total = rest + display_width(spans.last().content@);
        if total > usize::MAX {
            usize::MAX as int
        } else {
            total
        }
    }
}

impl Line {
    /// The display width of the line: the sum of its spans' widths,
    /// saturating at `usize::MAX`.
    pub fn width(&self) -> (r: usize)
        ensures
            r == line_width_spec(self.0@),
    {
        let mut total: usize = 0;
        let mut i: usize = 0;
        while i < self.0.len()
            invariant
                i <= self.0@.len(),
                total == line_width_spec(self.0@.take(i as int)),
            decreases self.0@.len() - i,
        {
            let w = self.0[i].width();
            proof {
                assert(self.0@.take(i + 1).drop_last() =~= self.0@.take(i as int));
                assert(self.0@.take(i + 1).last() == self.0@[i as int]);
            }
            if w > usize::MAX - total {
                total = usize::MAX;
            } else {
                total = total + w;
            }
            i += 1;
        }
        proof {
            assert(self.0@.take(self.0@.len() as int) =~= self.0@);
        }
        total
    }
}
} // verus!
