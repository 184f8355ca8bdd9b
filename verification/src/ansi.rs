//! ANSI-aware line splitting for incrementally captured process output.
//!
//! Output arrives in arbitrary chunks. The splitter buffers text until a
//! line feed completes a line, then parses the line's SGR escape sequences
//! into styled spans, starting from the style left open by the previous
//! line and returning the style left open for the next. Because splitting
//! is a deterministic function of the buffered text, feeding output in two
//! chunks yields exactly the same lines and styles as feeding their
//! concatenation at once; see [`lemma_feed_concat`].
//!
//! The recognized sequences are `ESC [ params m` where `params` are digits
//! and semicolons. Other escape sequences are dropped, and an escape
//! sequence never spans a line feed.

use vstd::prelude::*;

use crate::strutil::{all_digits, digits_value, find_char, find_in, lemma_find_in, push_char_of};
use crate::style::{Color, Line, Text, TextStyle, display_width};

verus! {

/// One styled span: its characters and its style.
pub type SpanView = (Seq<char>, TextStyle);

/// The spans of a line, with their styles.
pub open spec fn line_spans_view(l: Line) -> Seq<SpanView> {
    l.0@.map_values(|t: Text| (t.content@, t.style))
}

/// The display width of a line given as styled spans: the sum of the
/// spans' widths, saturating at `usize::MAX`.
pub open spec fn spans_width(spans: Seq<SpanView>) -> int
    decreases spans.len(),
{
    if spans.len() == 0 {
        0
    } else {
        let rest = spans_width(spans.drop_last());
        let total = rest + display_width(spans.last().0);
        if total > usize::MAX {
            usize::MAX as int
        } else {
            total
        }
    }
}

/// The width of a line equals the width of its span view.
pub proof fn lemma_spans_width(spans: Seq<Text>)
    ensures
        spans_width(spans.map_values(|t: Text| (t.content@, t.style))) == crate::style::line_width_spec(
            spans,
        ),
    decreases spans.len(),
{
    if spans.len() > 0 {
        lemma_spans_width(spans.drop_last());
        assert(spans.map_values(|t: Text| (t.content@, t.style)).drop_last() =~= spans.drop_last()
            .map_values(|t: Text| (t.content@, t.style)));
    }
}

/// One SGR code applied to a style. Codes outside the recognized set leave
/// the style unchanged.
pub open spec fn sgr_code(style: TextStyle, n: int) -> TextStyle {
    if n == 0 {
        TextStyle::plain_spec()
    } else if n == 1 {
        TextStyle { bold: true, ..style }
    } else if n == 22 {
        TextStyle { bold: false, ..style }
    } else if n == 30 {
        style_fg(style, Some(Color::Black))
    } else if n == 31 {
        style_fg(style, Some(Color::Red))
    } else if n == 32 {
        style_fg(style, Some(Color::Green))
    } else if n == 33 {
        style_fg(style, Some(Color::Yellow))
    } else if n == 34 {
        style_fg(style, Some(Color::Blue))
    } else if n == 35 {
        style_fg(style, Some(Color::Magenta))
    } else if n == 36 {
        style_fg(style, Some(Color::Cyan))
    } else if n == 37 {
        style_fg(style, Some(Color::White))
    } else if n == 39 {
        style_fg(style, None)
    } else if n == 40 {
        style_bg(style, Some(Color::Black))
    } else if n == 41 {
        style_bg(style, Some(Color::Red))
    } else if n == 42 {
        style_bg(style, Some(Color::Green))
    } else if n == 43 {
        style_bg(style, Some(Color::Yellow))
    } else if n == 44 {
        style_bg(style, Some(Color::Blue))
    } else if n == 45 {
        style_bg(style, Some(Color::Magenta))
    } else if n == 46 {
        style_bg(style, Some(Color::Cyan))
    } else if n == 47 {
        style_bg(style, Some(Color::White))
    } else if n == 49 {
        style_bg(style, None)
    } else {
        style
    }
}

/// The style with its foreground replaced.
pub open spec fn style_fg(style: TextStyle, c: Option<Color>) -> TextStyle {
    TextStyle {
        colors: crate::style::Colors { foreground: c, ..style.colors },
        ..style
    }
}

/// The style with its background replaced.
pub open spec fn style_bg(style: TextStyle, c: Option<Color>) -> TextStyle {
    TextStyle {
        colors: crate::style::Colors { background: c, ..style.colors },
        ..style
    }
}

/// The value of one SGR parameter: its digits, an empty parameter counting
/// as zero; anything else is marked unusable.
pub open spec fn param_value(piece: Seq<char>) -> int {
    if all_digits(piece) {
        digits_value(piece)
    } else {
        -1
    }
}

/// A whole SGR parameter list (digits separated by semicolons) applied to
/// a style, left to right.
pub open spec fn apply_params(style: TextStyle, params: Seq<char>) -> TextStyle
    decreases params.len(),
{
    let j = find_in(params, ';');
    if 0 <= j < params.len() {
        apply_params(sgr_code(style, param_value(params.take(j))), params.skip(j + 1))
    } else {
        sgr_code(style, param_value(params))
    }
}

/// The state of the span parser inside one line.
pub struct LineMachine {
    /// The style of the characters being collected.
    pub style: TextStyle,
    /// The characters collected since the last style change.
    pub cur: Seq<char>,
    /// The spans already closed.
    pub spans: Seq<SpanView>,
    /// The escape sequence being collected: `None` outside a sequence, the
    /// characters after the escape byte otherwise.
    pub esc: Option<Seq<char>>,
}

/// The parser state at the start of a line.
pub open spec fn line_machine_init(style: TextStyle) -> LineMachine {
    LineMachine { style, cur: Seq::empty(), spans: Seq::empty(), esc: None }
}

/// True when `c` can continue an SGR parameter list.
pub open spec fn is_param_char(c: char) -> bool {
    ('0' as int <= c as int <= '9' as int) || c == ';'
}

/// One character stepped through the span parser.
pub open spec fn line_step(m: LineMachine, c: char) -> LineMachine {
    match m.esc {
        None => if c == '\u{1b}' {
            LineMachine { esc: Some(Seq::empty()), ..m }
        } else {
            LineMachine { cur: m.cur.push(c), ..m }
        },
        Some(acc) => if acc.len() == 0 {
            if c == '[' {
                LineMachine { esc: Some(seq!['[']), ..m }
            } else if c == '\u{1b}' {
                LineMachine { esc: Some(Seq::empty()), ..m }
            } else {
                LineMachine { esc: None, cur: m.cur.push(c), ..m }
            }
        } else {
            if is_param_char(c) {
                LineMachine { esc: Some(acc.push(c)), ..m }
            } else if c == 'm' {
                let new_style = apply_params(m.style, acc.skip(1));
                LineMachine {
                    style: new_style,
                    cur: Seq::empty(),
                    spans: if m.cur.len() > 0 {
                        m.spans.push((m.cur, m.style))
                    } else {
                        m.spans
                    },
                    esc: None,
                }
            } else {
                LineMachine { esc: None, ..m }
            }
        },
    }
}

/// The span parser run over the characters of a line.
pub open spec fn line_run(style: TextStyle, s: Seq<char>) -> LineMachine
    decreases s.len(),
{
    if s.len() == 0 {
        line_machine_init(style)
    } else {
        line_step(line_run(style, s.drop_last()), s.last())
    }
}

/// The spans of a finished line, and the style left open for the next: a
/// nonempty current span is closed, an unfinished escape sequence is
/// dropped.
pub open spec fn ansi_line(style: TextStyle, line: Seq<char>) -> (Seq<SpanView>, TextStyle) {
    let m = line_run(style, line);
    (
        if m.cur.len() > 0 {
            m.spans.push((m.cur, m.style))
        } else {
            m.spans
        },
        m.style,
    )
}

/// What feeding text through the splitter yields: the spans of each
/// completed line, the style left open, and the text left buffered.
pub struct FeedResult {
    pub lines: Seq<Seq<SpanView>>,
    pub style: TextStyle,
    pub rest: Seq<char>,
}

/// Splits `s` at every line feed, parsing each completed line and
/// threading the open style through; what follows the last line feed stays
/// buffered.
pub open spec fn process_text(style: TextStyle, s: Seq<char>) -> FeedResult
    decreases s.len(),
{
    let j = find_in(s, '\n');
    if 0 <= j < s.len() {
        let (spans, next_style) = ansi_line(style, s.take(j));
        let rec = process_text(next_style, s.skip(j + 1));
        FeedResult { lines: seq![spans] + rec.lines, style: rec.style, rest: rec.rest }
    } else {
        FeedResult { lines: Seq::empty(), style, rest: s }
    }
}

/// Feeding `a` and then `b` yields the same lines, in the same order with
/// the same styles, as feeding `a + b` at once, and leaves the splitter in
/// the same state. This is why output chunk boundaries cannot change what
/// is rendered.
pub proof fn lemma_feed_concat(style: TextStyle, a: Seq<char>, b: Seq<char>)
    ensures
        ({
            let once = process_text(style, a + b);
            let first = process_text(style, a);
            let second = process_text(first.style, first.rest + b);
            once.lines == first.lines + second.lines && once.style == second.style && once.rest
                == second.rest
        }),
    decreases a.len(),
{
    a.index_of_first_ensures('\n');
    let j = find_in(a, '\n');
    if 0 <= j < a.len() {
        assert forall|k: int| 0 <= k < j implies (a + b)[k] != '\n' by {
            assert((a + b)[k] == a[k]);
        }
        assert((a + b)[j] == a[j]);
        lemma_find_in(a + b, '\n', j);
        assert((a + b).take(j) =~= a.take(j));
        let (spans, next_style) = ansi_line(style, a.take(j));
        lemma_feed_concat(next_style, a.skip(j + 1), b);
        assert((a + b).skip(j + 1) =~= a.skip(j + 1) + b);
        let once = process_text(style, a + b);
        let first = process_text(style, a);
        let second = process_text(first.style, first.rest + b);
        let rec_once = process_text(next_style, a.skip(j + 1) + b);
        let rec_first = process_text(next_style, a.skip(j + 1));
        assert(first.lines == seq![spans] + rec_first.lines);
        assert(once.lines =~= first.lines + second.lines);
    } else {
        let first = process_text(style, a);
        assert(first.rest == a);
        assert(first.lines =~= Seq::<Seq<SpanView>>::empty());
        let second = process_text(style, a + b);
        assert(Seq::<Seq<SpanView>>::empty() + second.lines =~= second.lines);
    }
}

/// Splits process output into styled lines, carrying the open style and
/// any unfinished line across calls.
#[derive(Debug)]
pub struct AnsiSplitter {
    /// The style left open by everything fed so far.
    pub style: TextStyle,
    /// Text after the last line feed, not yet complete.
    pub buffer: String,
}

/// The characters of a partially collected escape sequence.
pub open spec fn esc_view(e: Option<String>) -> Option<Seq<char>> {
    match e {
        Some(s) => Some(s@),
        None => None,
    }
}

/// Parses the SGR sequences of one completed line into styled spans.
fn parse_ansi_line(style: TextStyle, line: &str) -> (r: (Line, TextStyle))
    ensures
        ({
            let (spans, next_style) = ansi_line(style, line@);
            line_spans_view(r.0) == spans && r.1 == next_style
        }),
{
    let len = line.unicode_len();
    let mut cur_style = style;
    let mut cur = String::new();
    let mut spans: Vec<Text> = Vec::new();
    let mut esc: Option<String> = None;
    let mut i: usize = 0;
    proof {
        assert(line@.take(0) =~= Seq::<char>::empty());
        assert(spans@.map_values(|t: Text| (t.content@, t.style)) =~= Seq::<SpanView>::empty());
    }
    while i < len
        invariant
            i <= len,
            len == line@.len(),
            ({
                let m = line_run(style, line@.take(i as int));
                m.style == cur_style && m.cur == cur@ && m.spans == spans@.map_values(
                    |t: Text| (t.content@, t.style),
                ) && m.esc == esc_view(esc)
            }),
        decreases len - i,
    {
        let c = line.get_char(i);
        proof {
            assert(line@.take(i + 1).drop_last() =~= line@.take(i as int));
            assert(line@.take(i + 1).last() == line@[i as int]);
        }
        let is_escape = c == '\u{1b}';
        match esc {
            None => {
                if is_escape {
                    esc = Some(String::new());
                } else {
                    push_char_of(&mut cur, line, i);
                }
            },
            Some(acc) => {
                if acc.unicode_len() == 0 {
                    if c == '[' {
                        proof {
                            reveal_strlit("[");
                        }
                        let mut opened = String::new();
                        opened.append("[");
                        proof {
                            assert(opened@ =~= seq!['[']);
                        }
                        esc = Some(opened);
                    } else if is_escape {
                        esc = Some(String::new());
                    } else {
                        esc = None;
                        push_char_of(&mut cur, line, i);
                    }
                } else {
                    let code = c as u32;
                    let is_param = (code >= 48 && code <= 57) || c == ';';
                    if is_param {
                        let mut grown = acc;
                        push_char_of(&mut grown, line, i);
                        esc = Some(grown);
                    } else if c == 'm' {
                        let acc_len = acc.unicode_len();
                        let params = acc.substring_char(1, acc_len);
                        proof {
                            assert(params@ =~= acc@.skip(1));
                        }
                        let new_style = apply_params_exec(cur_style, params);
                        if cur.unicode_len() > 0 {
                            let ghost old_spans = spans@.map_values(
                                |t: Text| (t.content@, t.style),
                            );
                            let ghost cur_chars = cur@;
                            spans.push(Text { content: cur, style: cur_style });
                            proof {
                                assert(spans@.map_values(|t: Text| (t.content@, t.style))
                                    =~= old_spans.push((cur_chars, cur_style)));
                            }
                            cur = String::new();
                        } else {
                            cur = String::new();
                        }
                        cur_style = new_style;
                        esc = None;
                    } else {
                        esc = None;
                    }
                }
            },
        }
        i += 1;
    }
    proof {
        assert(line@.take(len as int) =~= line@);
    }
    let final_style = cur_style;
    if cur.unicode_len() > 0 {
        let ghost old_spans = spans@.map_values(|t: Text| (t.content@, t.style));
        let ghost cur_chars = cur@;
        spans.push(Text { content: cur, style: cur_style });
        proof {
            assert(spans@.map_values(|t: Text| (t.content@, t.style)) =~= old_spans.push(
                (cur_chars, cur_style),
            ));
        }
    }
    (Line(spans), final_style)
}

/// One SGR parameter list applied to a style.
fn apply_params_exec(style: TextStyle, params: &str) -> (r: TextStyle)
    ensures
        r == apply_params(style, params@),
{
    let len = params.unicode_len();
    let mut current = style;
    let mut pos: usize = 0;
    proof {
        assert(params@.skip(0) =~= params@);
    }
    loop
        invariant
            pos <= len,
            len == params@.len(),
            apply_params(style, params@) == apply_params(current, params@.skip(pos as int)),
        decreases len - pos,
    {
        let ghost remaining = params@.skip(pos as int);
        let (j, more) = match find_char(params, pos, ';') {
            Some(j) => (j, true),
            None => (len, false),
        };
        proof {
            assert forall|k: int| 0 <= k < j - pos implies remaining[k] != ';' by {
                assert(remaining[k] == params@[pos + k]);
            }
            if more {
                assert(remaining[j - pos] == params@[j as int]);
            }
            lemma_find_in(remaining, ';', j - pos);
            assert(remaining.take(j - pos) =~= params@.subrange(pos as int, j as int));
            if !more {
                assert(remaining.take(j - pos) =~= remaining);
            }
        }
        let ghost before = current;
        let value = piece_value(params, pos, j);
        current = sgr_code_exec(current, value);
        proof {
            let piece = remaining.take(j - pos);
            assert(piece == params@.subrange(pos as int, j as int));
            assert(current == sgr_code(before, param_value(piece)));
        }
        if more {
            proof {
                assert(remaining.skip(j + 1 - pos) =~= params@.skip(j + 1));
            }
            pos = j + 1;
        } else {
            return current;
        }
    }
}

/// The value of one SGR parameter piece, `-1` when unusable. Values above
/// the recognized range are clamped; every clamped value is outside it.
fn piece_value(s: &str, lo: usize, hi: usize) -> (r: i32)
    requires
        lo <= hi <= s@.len(),
    ensures
        ({
            let piece = s@.subrange(lo as int, hi as int);
            if param_value(piece) == -1 {
                r == -1
            } else if param_value(piece) > 255 {
                r > 49
            } else {
                r == param_value(piece)
            }
        }),
{
    let ghost piece = s@.subrange(lo as int, hi as int);
    if lo == hi {
        proof {
            assert(all_digits(piece));
            assert(digits_value(piece) == 0);
        }
        return 0;
    }
    match crate::strutil::parse_capped_region(s, lo, hi, 255) {
        Some(v) => v as i32,
        None => -1,
    }
}

/// One SGR code applied to a style.
fn sgr_code_exec(style: TextStyle, n: i32) -> (r: TextStyle)
    ensures
        r == sgr_code(style, n as int),
{
    if n == 0 {
        TextStyle::plain()
    } else if n == 1 {
        TextStyle { bold: true, ..style }
    } else if n == 22 {
        TextStyle { bold: false, ..style }
    } else if n >= 30 && n <= 37 {
        let color = basic_color((n - 30) as u8);
        TextStyle { colors: crate::style::Colors { foreground: Some(color), ..style.colors }, ..style }
    } else if n == 39 {
        TextStyle { colors: crate::style::Colors { foreground: None, ..style.colors }, ..style }
    } else if n >= 40 && n <= 47 {
        let color = basic_color((n - 40) as u8);
        TextStyle { colors: crate::style::Colors { background: Some(color), ..style.colors }, ..style }
    } else if n == 49 {
        TextStyle { colors: crate::style::Colors { background: None, ..style.colors }, ..style }
    } else {
        style
    }
}

/// The base palette color with the given SGR offset.
fn basic_color(offset: u8) -> (r: Color)
    requires
        offset < 8,
    ensures
        r == (if offset == 0 {
            Color::Black
        } else if offset == 1 {
            Color::Red
        } else if offset == 2 {
            Color::Green
        } else if offset == 3 {
            Color::Yellow
        } else if offset == 4 {
            Color::Blue
        } else if offset == 5 {
            Color::Magenta
        } else if offset == 6 {
            Color::Cyan
        } else {
            Color::White
        }),
{
    if offset == 0 {
        Color::Black
    } else if offset == 1 {
        Color::Red
    } else if offset == 2 {
        Color::Green
    } else if offset == 3 {
        Color::Yellow
    } else if offset == 4 {
        Color::Blue
    } else if offset == 5 {
        Color::Magenta
    } else if offset == 6 {
        Color::Cyan
    } else {
        Color::White
    }
}

impl AnsiSplitter {
    /// A splitter starting from the given open style, with nothing
    /// buffered.
    pub fn new(style: TextStyle) -> (r: Self)
        ensures
            r.style == style,
            r.buffer@.len() == 0,
    {
        AnsiSplitter { style, buffer: String::new() }
    }

    /// Feeds one chunk of output. Returns the lines completed by it, in
    /// order, parsed into styled spans; an incomplete trailing line stays
    /// buffered, and the open style carries over.
    pub fn feed(&mut self, chunk: &str) -> (r: Vec<Line>)
        ensures
            ({
                let outcome = process_text(old(self).style, old(self).buffer@ + chunk@);
                r@.map_values(|l: Line| line_spans_view(l)) == outcome.lines && final(self).style
                    == outcome.style && final(self).buffer@ == outcome.rest
            }),
    {
        let mut total = String::new();
        total.append(self.buffer.as_str());
        total.append(chunk);
        let text = total.as_str();
        let len = text.unicode_len();
        let ghost whole = old(self).buffer@ + chunk@;
        proof {
            assert(text@ =~= whole);
        }
        let mut lines: Vec<Line> = Vec::new();
        let mut pos: usize = 0;
        let mut style = self.style;
        proof {
            assert(whole.skip(0) =~= whole);
            let outcome = process_text(style, whole);
            assert(lines@.map_values(|l: Line| line_spans_view(l)) + outcome.lines
                =~= outcome.lines);
        }
        loop
            invariant
                pos <= len,
                len == text@.len(),
                text@ == whole,
                whole == old(self).buffer@ + chunk@,
                ({
                    let outcome = process_text(old(self).style, whole);
                    let sub = process_text(style, whole.skip(pos as int));
                    outcome.lines == lines@.map_values(|l: Line| line_spans_view(l)) + sub.lines
                        && outcome.style == sub.style && outcome.rest == sub.rest
                }),
            decreases len - pos,
        {
            let ghost remaining = whole.skip(pos as int);
            let (j, more) = match find_char(text, pos, '\n') {
                Some(j) => (j, true),
                None => (len, false),
            };
            proof {
                assert forall|k: int| 0 <= k < j - pos implies remaining[k] != '\n' by {
                    assert(remaining[k] == whole[pos + k]);
                }
                if more {
                    assert(remaining[j - pos] == whole[j as int]);
                }
                lemma_find_in(remaining, '\n', j - pos);
            }
            if !more {
                let rest = text.substring_char(pos, len);
                proof {
                    assert(rest@ =~= remaining);
                    let sub = process_text(style, remaining);
                    assert(sub.lines =~= Seq::<Seq<SpanView>>::empty());
                    assert(lines@.map_values(|l: Line| line_spans_view(l)) + sub.lines
                        =~= lines@.map_values(|l: Line| line_spans_view(l)));
                }
                self.buffer = rest.to_owned();
                self.style = style;
                return lines;
            }
            let line_str = text.substring_char(pos, j);
            proof {
                assert(line_str@ =~= remaining.take(j - pos));
            }
            let (line, next_style) = parse_ansi_line(style, line_str);
            let ghost previous = lines@.map_values(|l: Line| line_spans_view(l));
            let ghost lv = line_spans_view(line);
            lines.push(line);
            proof {
                assert(lines@.map_values(|l: Line| line_spans_view(l)) =~= previous.push(lv));
                let rem2 = whole.skip(j + 1);
                assert(remaining.skip(j + 1 - pos) =~= rem2);
                let sub2 = process_text(next_style, rem2);
                assert(previous + (seq![lv] + sub2.lines) =~= previous.push(lv) + sub2.lines);
            }
            style = next_style;
            pos = j + 1;
        }
    }
}

} // verus!
