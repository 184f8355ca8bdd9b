//! The separator drawn above and below execution output: a dashed rule,
//! optionally interrupted by a heading carrying the execution status.

use vstd::prelude::*;

use crate::render::{BlockLine, RenderOperation, WindowSize, centered_max_line_length};
use crate::strutil::{repeat_str, spec_repeat};
use crate::style::{Line, Text, TextStyle, line_width_spec};
use crate::theme::{Alignment, Margin};

verus! {

/// How wide a separator is drawn.
#[derive(Clone, Copy, Debug, PartialEq, Eq, Structural)]
pub enum SeparatorWidth {
    /// A fixed number of columns, shrunk to the window when needed.
    Fixed(u16),
    /// As wide as the window.
    FitToWindow,
}

/// A dashed horizontal rule with an optional heading in its middle.
#[derive(Clone, Debug, PartialEq, Eq)]
pub struct RenderSeparator {
    pub heading: Line,
    pub width: SeparatorWidth,
}

/// The number of columns a separator occupies for a given window.
pub open spec fn separator_columns(width: SeparatorWidth, columns: u16) -> int {
    match width {
        SeparatorWidth::Fixed(fw) => if fw <= columns {
            fw as int
        } else {
            columns as int
        },
        SeparatorWidth::FitToWindow => columns as int,
    }
}

/// True when `text` is the separator line for `heading` at `w` columns: a
/// full dashed rule when the heading is empty, else the heading's spans
/// between two dashed runs that together fill the remaining columns.
pub open spec fn separator_text_matches(text: Line, heading: Line, w: int) -> bool {
    let hw = line_width_spec(heading.0@);
    if hw == 0 {
        text.0@.len() == 1 && text.0@[0].content@ == spec_repeat("—"@, w) && text.0@[0].style
            == TextStyle::plain_spec()
    } else {
        let rest = if w > hw {
            w - hw
        } else {
            0
        };
        text.0@.len() == heading.0@.len() + 2 && text.0@[0].content@ == spec_repeat(
            "—"@,
            rest / 2,
        ) && text.0@[0].style == TextStyle::plain_spec() && (forall|k: int|
            0 <= k < heading.0@.len() ==> (#[trigger] text.0@[k + 1]).content@
                == heading.0@[k].content@ && text.0@[k + 1].style == heading.0@[k].style)
            && text.0@.last().content@ == spec_repeat("—"@, rest / 2 + rest % 2)
            && text.0@.last().style == TextStyle::plain_spec()
    }
}

impl RenderSeparator {
    /// A separator with the given heading and width.
    pub fn new(heading: Line, width: SeparatorWidth) -> (r: Self)
        ensures
            r.heading == heading,
            r.width == width,
    {
        RenderSeparator { heading, width }
    }

    /// The render operations of the separator: one block line holding the
    /// dashed rule, centered, as wide as the separator.
    pub fn as_render_operations(&self, dimensions: &WindowSize) -> (r: Vec<RenderOperation>)
        ensures
            r@.len() == 1,
            ({
                let w = separator_columns(self.width, dimensions.columns);
                r@[0] matches RenderOperation::RenderBlockLine(b) && b.block_length == w
                    && b.alignment == (Alignment::Center {
                    minimum_margin: Margin::Fixed(0),
                    minimum_size: 1,
                }) && b.block_color is None && b.prefix.content@.len() == 0
                    && b.right_padding_length == 0 && !b.repeat_prefix_on_wrap
                    && separator_text_matches(b.text, self.heading, w)
            }),
    {
        let width: u16 = match self.width {
            SeparatorWidth::Fixed(w) => centered_max_line_length(dimensions, w),
            SeparatorWidth::FitToWindow => dimensions.columns,
        };
        let ghost w = separator_columns(self.width, dimensions.columns);
        let heading_width = self.heading.width();
        let text = if heading_width == 0 {
            let l = Line(
                vec![Text { content: repeat_str("—", width as usize), style: TextStyle::plain() }],
            );
            proof {
                assert(l.0@.len() == 1);
                assert(l.0@[0].content@ == spec_repeat("—"@, w));
                assert(separator_text_matches(l, self.heading, w));
            }
            l
        } else {
            let rest = if (width as usize) > heading_width {
                (width as usize) - heading_width
            } else {
                0
            };
            let dashes_len = rest / 2;
            let remainder = rest % 2;
            let mut spans: Vec<Text> = Vec::new();
            spans.push(Text { content: repeat_str("—", dashes_len), style: TextStyle::plain() });
            let mut i: usize = 0;
            while i < self.heading.0.len()
                invariant
                    i <= self.heading.0@.len(),
                    spans@.len() == i + 1,
                    spans@[0].content@ == spec_repeat("—"@, dashes_len as int),
                    spans@[0].style == TextStyle::plain_spec(),
                    forall|k: int|
                        0 <= k < i ==> (#[trigger] spans@[k + 1]).content@
                            == self.heading.0@[k].content@ && spans@[k + 1].style
                            == self.heading.0@[k].style,
                decreases self.heading.0@.len() - i,
            {
                let span = &self.heading.0[i];
                spans.push(Text { content: span.content.clone(), style: span.style });
                i += 1;
            }
            let ghost mid = spans@;
            spans.push(
                Text { content: repeat_str("—", dashes_len + remainder), style: TextStyle::plain() },
            );
            let l = Line(spans);
            proof {
                let hs = self.heading.0@;
                assert(l.0@.len() == hs.len() + 2);
                assert(l.0@[0].content@ == spec_repeat("—"@, dashes_len as int));
                assert forall|k: int| 0 <= k < hs.len() implies (#[trigger] l.0@[k + 1]).content@
                    == hs[k].content@ && l.0@[k + 1].style == hs[k].style by {
                    assert(l.0@[k + 1] == mid[k + 1]);
                }
                assert(l.0@.last().content@ == spec_repeat("—"@, dashes_len + remainder));
                assert(separator_text_matches(l, self.heading, w));
            }
            l
        };
        proof {
            reveal_strlit("");
        }
        let block = BlockLine {
            prefix: Text::new("", TextStyle::plain()),
            right_padding_length: 0,
            repeat_prefix_on_wrap: false,
            text,
            block_length: width,
            alignment: Alignment::Center { minimum_margin: Margin::Fixed(0), minimum_size: 1 },
            block_color: None,
        };
        proof {
            assert(block.prefix.content@.len() == 0);
            assert(separator_text_matches(block.text, self.heading, w));
        }
        let ops = vec![RenderOperation::RenderBlockLine(block)];
        proof {
            assert(ops@[0] matches RenderOperation::RenderBlockLine(b) && separator_text_matches(
                b.text,
                self.heading,
                w,
            ));
        }
        ops
    }
}

impl From<RenderSeparator> for RenderOperation {
    /// A separator renders as dynamic content.
    fn from(separator: RenderSeparator) -> (r: Self) {
        RenderOperation::RenderDynamic(separator)
    }
}

impl vstd::std_specs::convert::FromSpecImpl<RenderSeparator> for RenderOperation {
    open spec fn obeys_from_spec() -> bool {
        true
    }

    open spec fn from_spec(t: RenderSeparator) -> Self {
        RenderOperation::RenderDynamic(t)
    }
}

} // verus!
