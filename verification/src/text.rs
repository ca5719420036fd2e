//! Styled text: flattening a component into runs, and laying runs out glyph by
//! glyph.

use crate::components::{
    can_display, can_walk, component_steps, component_text, component_tree, display_component,
    displayable, walk_component, walkable, ComponentView,
};
use crate::font::{GlyphInfo, GlyphMap};
use crate::strings::text_chars;
use azalea_chat::FormattedText;
use vstd::prelude::*;

verus! {

/// The colour of a run: its own, or the one that the text is drawn with.
#[derive(Clone, Copy, Debug, PartialEq, Eq, Structural)]
pub enum TextColor {
    Rgb { r: u8, g: u8, b: u8 },
    Base,
}

/// A run of text in one style.
pub struct TextSpan {
    pub text: String,
    pub color: TextColor,
    pub bold: bool,
    pub italic: bool,
    pub strikethrough: bool,
    pub underline: bool,
    /// Whether it is shown in the alternate letters.
    pub sga: bool,
}

/// A run, as values.
pub struct SpanView {
    pub text: Seq<char>,
    pub color: TextColor,
    pub bold: bool,
    pub italic: bool,
    pub strikethrough: bool,
    pub underline: bool,
    pub sga: bool,
}

impl View for TextSpan {
    type V = SpanView;

    open spec fn view(&self) -> SpanView {
        SpanView {
            text: self.text@,
            color: self.color,
            bold: self.bold,
            italic: self.italic,
            strikethrough: self.strikethrough,
            underline: self.underline,
            sga: self.sga,
        }
    }
}

/// A run with no formatting.
pub open spec fn plain_span(text: Seq<char>, color: TextColor) -> SpanView {
    SpanView {
        text,
        color,
        bold: false,
        italic: false,
        strikethrough: false,
        underline: false,
        sga: false,
    }
}

impl TextSpan {
    /// A run with no formatting.
    pub fn new(text: String, color: TextColor) -> (span: Self)
        ensures
            span@ == plain_span(text@, color),
    {
        TextSpan {
            text,
            color,
            bold: false,
            italic: false,
            strikethrough: false,
            underline: false,
            sga: false,
        }
    }
}

/// What a component says of a run's style; nothing where it leaves it open.
#[derive(Clone, Copy, Debug, PartialEq, Eq, Structural)]
pub struct Style {
    /// The colour, as 24 bits of red, green and blue.
    pub color: Option<u32>,
    pub bold: Option<bool>,
    pub italic: Option<bool>,
    pub strikethrough: Option<bool>,
    pub underlined: Option<bool>,
}

/// A step of walking through a component: a style that holds from here on, or
/// some text.
pub enum TextEvent {
    Style(Style),
    Text(String),
}

/// A step, as values.
pub enum EventView {
    Style(Style),
    Text(Seq<char>),
}

impl View for TextEvent {
    type V = EventView;

    open spec fn view(&self) -> EventView {
        match self {
            TextEvent::Style(style) => EventView::Style(*style),
            TextEvent::Text(text) => EventView::Text(text@),
        }
    }
}

/// The views of some steps.
pub open spec fn event_views(events: Seq<TextEvent>) -> Seq<EventView> {
    Seq::new(events.len(), |i: int| events[i]@)
}

/// The channels of a colour of 24 bits.
pub open spec fn rgb_of(value: u32) -> TextColor {
    TextColor::Rgb {
        r: (value / 0x1_0000 % 0x100) as u8,
        g: (value / 0x100 % 0x100) as u8,
        b: (value % 0x100) as u8,
    }
}

/// The colour that a style asks for.
pub open spec fn style_color(style: Style) -> TextColor {
    match style.color {
        Some(value) => rgb_of(value),
        None => TextColor::Base,
    }
}

/// Whether a flag is set.
pub open spec fn is_set(flag: Option<bool>) -> bool {
    flag == Some(true)
}

/// A run of `text` in the style in force, if any.
pub open spec fn styled_span(text: Seq<char>, style: Option<Style>) -> SpanView {
    match style {
        Some(s) => SpanView {
            text,
            color: style_color(s),
            bold: is_set(s.bold),
            italic: is_set(s.italic),
            strikethrough: is_set(s.strikethrough),
            underline: is_set(s.underlined),
            sga: false,
        },
        None => plain_span(text, TextColor::Base),
    }
}

/// The style in force after the first `n` steps.
pub open spec fn style_after(events: Seq<EventView>, n: nat) -> Option<Style>
    decreases n,
{
    if n == 0 {
        None
    } else {
        match events[n - 1] {
            EventView::Style(style) => Some(style),
            EventView::Text(_) => style_after(events, (n - 1) as nat),
        }
    }
}

/// The runs of the first `n` steps: each text that is not empty, in the style
/// in force.
pub open spec fn spans_of(events: Seq<EventView>, n: nat) -> Seq<SpanView>
    decreases n,
{
    if n == 0 {
        Seq::empty()
    } else {
        let before = spans_of(events, (n - 1) as nat);
        match events[n - 1] {
            EventView::Text(text) if text.len() > 0 => before.push(
                styled_span(text, style_after(events, (n - 1) as nat)),
            ),
            _ => before,
        }
    }
}

/// A component's plain text as one run; none where it is empty.
pub open spec fn plain_runs(plain: Seq<char>) -> Seq<SpanView> {
    if plain.len() > 0 {
        seq![plain_span(plain, TextColor::Base)]
    } else {
        Seq::empty()
    }
}

/// The runs of a component: those of its steps, or, where these give none, its
/// plain text as one run.
pub open spec fn flattened(events: Seq<EventView>, plain: Seq<char>) -> Seq<SpanView> {
    let spans = spans_of(events, events.len());
    if spans.len() == 0 {
        plain_runs(plain)
    } else {
        spans
    }
}

/// The views of some runs.
pub open spec fn span_views(spans: Seq<TextSpan>) -> Seq<SpanView> {
    Seq::new(spans.len(), |i: int| spans[i]@)
}

/// Whether a flag is set.
fn flag_set(flag: Option<bool>) -> (set: bool)
    ensures
        set == is_set(flag),
{
    match flag {
        Some(b) => b,
        None => false,
    }
}

/// The colour that a style asks for.
pub fn style_to_rgba(style: &Style) -> (color: TextColor)
    ensures
        color == style_color(*style),
{
    match style.color {
        Some(value) => {
            assert((value >> 16) & 0xFF == value / 0x1_0000 % 0x100) by (bit_vector);
            assert((value >> 8) & 0xFF == value / 0x100 % 0x100) by (bit_vector);
            assert(value & 0xFF == value % 0x100) by (bit_vector);
            TextColor::Rgb {
                r: ((value >> 16) & 0xFF) as u8,
                g: ((value >> 8) & 0xFF) as u8,
                b: (value & 0xFF) as u8,
            }
        },
        None => TextColor::Base,
    }
}

/// The runs of walking through a component, given its steps.
pub fn event_spans(events: &Vec<TextEvent>) -> (spans: Vec<TextSpan>)
    ensures
        span_views(spans@) == spans_of(event_views(events@), events@.len()),
{
    let ghost steps = event_views(events@);
    let mut spans: Vec<TextSpan> = Vec::new();
    let mut current: Option<Style> = None;
    let mut i: usize = 0;
    assert(span_views(spans@) =~= spans_of(steps, 0));
    while i < events.len()
        invariant
            i <= events@.len(),
            steps == event_views(events@),
            current == style_after(steps, i as nat),
            span_views(spans@) == spans_of(steps, i as nat),
        decreases events@.len() - i,
    {
        let ghost before = spans@;
        assert(steps[i as int] == events@[i as int]@);
        match &events[i] {
            TextEvent::Style(style) => {
                current = Some(*style);
            },
            TextEvent::Text(text) => {
                if !text.as_str().is_empty() {
                    let mut span = TextSpan::new(text.clone(), TextColor::Base);
                    if let Some(style) = current {
                        span.color = style_to_rgba(&style);
                        span.bold = flag_set(style.bold);
                        span.italic = flag_set(style.italic);
                        span.strikethrough = flag_set(style.strikethrough);
                        span.underline = flag_set(style.underlined);
                    }
                    spans.push(span);
                    assert(span_views(spans@) =~= span_views(before).push(span@));
                }
            },
        }
        i = i + 1;
    }
    spans
}

/// The plain text of a component as one run; none where it is empty.
pub fn plain_spans(plain: String) -> (spans: Vec<TextSpan>)
    ensures
        span_views(spans@) == plain_runs(plain@),
{
    let mut spans: Vec<TextSpan> = Vec::new();
    if !plain.as_str().is_empty() {
        let span = TextSpan::new(plain, TextColor::Base);
        spans.push(span);
        assert(span_views(spans@) =~= seq![span@]);
    } else {
        assert(span_views(spans@) =~= Seq::empty());
    }
    spans
}

/// Whether a component can be flattened: it can be walked through, and displayed
/// where the walk gives no run.
pub open spec fn showable(tree: ComponentView) -> bool {
    let steps = component_steps(tree);
    walkable(tree) && (spans_of(steps, steps.len()).len() == 0 ==> displayable(tree))
}

/// Flattens a component into runs. Its plain text is asked for only where the
/// walk through it gives no run.
pub fn format_text_spans(text: &FormattedText) -> (spans: Vec<TextSpan>)
    requires
        showable(component_tree(*text)),
    ensures
        span_views(spans@) == flattened(
            component_steps(component_tree(*text)),
            component_text(component_tree(*text)),
        ),
{
    let events = walk_component(text);
    let spans = event_spans(&events);
    assert(spans@.len() == span_views(spans@).len());
    if spans.len() > 0 {
        spans
    } else {
        plain_spans(display_component(text))
    }
}

/// Flattens a component into runs; nothing where it cannot be flattened.
pub fn checked_text_spans(text: &FormattedText) -> (spans: Option<Vec<TextSpan>>)
    ensures
        match spans {
            Some(found) => showable(component_tree(*text)) && span_views(found@) == flattened(
                component_steps(component_tree(*text)),
                component_text(component_tree(*text)),
            ),
            None => !showable(component_tree(*text)),
        },
{
    if !can_walk(text) {
        return None;
    }
    let events = walk_component(text);
    let runs = event_spans(&events);
    assert(runs@.len() == span_views(runs@).len());
    if runs.len() > 0 || can_display(text) {
        Some(format_text_spans(text))
    } else {
        None
    }
}

/// A part of drawing a glyph, with its place in font pixels from the pen.
#[derive(Clone, Copy, Debug, PartialEq, Eq, Structural)]
pub enum GlyphLayer {
    /// One pixel right and down, in the dark colour.
    Shadow,
    /// Two pixels right and one down, in the dark colour.
    BoldShadow,
    /// At the pen.
    Face,
    /// One pixel right.
    BoldFace,
    /// A line through the middle.
    Strike,
    /// A line below.
    Underline,
}

/// A step of drawing text.
#[derive(Clone, Copy, Debug, PartialEq, Eq, Structural)]
pub enum TextOp {
    /// The pen goes to the start of the second line.
    SecondLine,
    /// One quad of a glyph of run `span`.
    Quad { span: usize, glyph: GlyphInfo, layer: GlyphLayer },
    /// The pen moves right by so many font pixels.
    Advance { pixels: u64 },
}

/// The layers of a glyph, from the back.
pub open spec fn glyph_layers(span: SpanView, shadow: bool) -> Seq<GlyphLayer> {
    (if shadow {
        seq![GlyphLayer::Shadow]
    } else {
        Seq::empty()
    }) + (if shadow && span.bold {
        seq![GlyphLayer::BoldShadow]
    } else {
        Seq::empty()
    }) + seq![GlyphLayer::Face] + (if span.bold {
        seq![GlyphLayer::BoldFace]
    } else {
        Seq::empty()
    }) + (if span.strikethrough {
        seq![GlyphLayer::Strike]
    } else {
        Seq::empty()
    }) + (if span.underline {
        seq![GlyphLayer::Underline]
    } else {
        Seq::empty()
    })
}

/// The steps of drawing one glyph: its layers, then the pen's move past it.
pub open spec fn glyph_ops(span: SpanView, s: usize, glyph: GlyphInfo, shadow: bool) -> Seq<TextOp> {
    let layers = glyph_layers(span, shadow);
    Seq::new(layers.len(), |i: int| TextOp::Quad { span: s, glyph, layer: layers[i] }).push(
        TextOp::Advance {
            pixels: (glyph.width + 1 + if span.bold {
                1int
            } else {
                0int
            }) as u64,
        },
    )
}

/// Text laid out so far: the steps, the line that the pen is on, and whether a
/// third line was reached, at which the text ends.
pub struct Laid {
    pub ops: Seq<TextOp>,
    pub line: int,
    pub ended: bool,
}

/// The text with one more character.
pub open spec fn laid_char(
    laid: Laid,
    font: &GlyphMap,
    span: SpanView,
    s: usize,
    ch: char,
    shadow: bool,
) -> Laid {
    if laid.ended {
        laid
    } else if ch == '\n' {
        if laid.line >= 1 {
            Laid { line: laid.line + 1, ended: true, ..laid }
        } else {
            Laid { ops: laid.ops.push(TextOp::SecondLine), line: laid.line + 1, ..laid }
        }
    } else {
        match font.shown(ch, span.sga) {
            Some(glyph) => Laid { ops: laid.ops + glyph_ops(span, s, glyph, shadow), ..laid },
            None => laid,
        }
    }
}

/// The text with the first `n` characters of run `s`.
pub open spec fn laid_chars(
    laid: Laid,
    font: &GlyphMap,
    span: SpanView,
    s: usize,
    shadow: bool,
    n: nat,
) -> Laid
    decreases n,
{
    if n == 0 {
        laid
    } else {
        laid_char(
            laid_chars(laid, font, span, s, shadow, (n - 1) as nat),
            font,
            span,
            s,
            span.text[n - 1],
            shadow,
        )
    }
}

/// The first `n` runs, laid out.
pub open spec fn laid_spans(font: &GlyphMap, spans: Seq<TextSpan>, shadow: bool, n: nat) -> Laid
    decreases n,
{
    if n == 0 {
        Laid { ops: Seq::empty(), line: 0, ended: false }
    } else {
        laid_chars(
            laid_spans(font, spans, shadow, (n - 1) as nat),
            font,
            spans[n - 1]@,
            (n - 1) as usize,
            shadow,
            spans[n - 1]@.text.len(),
        )
    }
}

proof fn lemma_ended_stays(
    laid: Laid,
    font: &GlyphMap,
    span: SpanView,
    s: usize,
    shadow: bool,
    m: nat,
    n: nat,
)
    requires
        m <= n,
        laid_chars(laid, font, span, s, shadow, m).ended,
    ensures
        laid_chars(laid, font, span, s, shadow, n) == laid_chars(laid, font, span, s, shadow, m),
    decreases n,
{
    if m < n {
        lemma_ended_stays(laid, font, span, s, shadow, m, (n - 1) as nat);
    }
}

proof fn lemma_ended_spans(font: &GlyphMap, spans: Seq<TextSpan>, shadow: bool, m: nat, n: nat)
    requires
        m <= n,
        laid_spans(font, spans, shadow, m).ended,
    ensures
        laid_spans(font, spans, shadow, n) == laid_spans(font, spans, shadow, m),
    decreases n,
{
    if m < n {
        let i = (n - 1) as nat;
        lemma_ended_spans(font, spans, shadow, m, i);
        lemma_ended_stays(
            laid_spans(font, spans, shadow, i),
            font,
            spans[i as int]@,
            i as usize,
            shadow,
            0,
            spans[i as int]@.text.len(),
        );
    }
}

/// Adds the steps of drawing one glyph.
fn push_glyph(ops: &mut Vec<TextOp>, span: &TextSpan, s: usize, glyph: GlyphInfo, shadow: bool)
    ensures
        final(ops)@ == old(ops)@ + glyph_ops(span@, s, glyph, shadow),
{
    let ghost before = ops@;
    if shadow {
        ops.push(TextOp::Quad { span: s, glyph, layer: GlyphLayer::Shadow });
        if span.bold {
            ops.push(TextOp::Quad { span: s, glyph, layer: GlyphLayer::BoldShadow });
        }
    }
    ops.push(TextOp::Quad { span: s, glyph, layer: GlyphLayer::Face });
    if span.bold {
        ops.push(TextOp::Quad { span: s, glyph, layer: GlyphLayer::BoldFace });
    }
    if span.strikethrough {
        ops.push(TextOp::Quad { span: s, glyph, layer: GlyphLayer::Strike });
    }
    if span.underline {
        ops.push(TextOp::Quad { span: s, glyph, layer: GlyphLayer::Underline });
    }
    let wide: u64 = if span.bold { 1 } else { 0 };
    ops.push(TextOp::Advance { pixels: glyph.width as u64 + 1 + wide });
    assert(ops@ =~= before + glyph_ops(span@, s, glyph, shadow));
}

/// The steps of drawing some runs, over at most two lines. A character without
/// a glyph is left out.
pub fn push_mc_text(font: &GlyphMap, spans: &Vec<TextSpan>, drop_shadow: bool) -> (ops: Vec<TextOp>)
    ensures
        ops@ == laid_spans(font, spans@, drop_shadow, spans@.len()).ops,
{
    let mut ops: Vec<TextOp> = Vec::new();
    let mut line: u32 = 0;
    let mut s: usize = 0;
    while s < spans.len()
        invariant
            s <= spans@.len(),
            line <= 1,
            laid_spans(font, spans@, drop_shadow, s as nat) == (Laid {
                ops: ops@,
                line: line as int,
                ended: false,
            }),
        decreases spans@.len() - s,
    {
        let span = &spans[s];
        let ghost start = laid_spans(font, spans@, drop_shadow, s as nat);
        let chars = text_chars(span.text.as_str());
        let mut i: usize = 0;
        while i < chars.len()
            invariant
                s < spans@.len(),
                i <= chars@.len(),
                chars@ == span.text@,
                *span == spans@[s as int],
                line <= 1,
                start == laid_spans(font, spans@, drop_shadow, s as nat),
                laid_chars(start, font, span@, s, drop_shadow, i as nat) == (Laid {
                    ops: ops@,
                    line: line as int,
                    ended: false,
                }),
            decreases chars@.len() - i,
        {
            let ch: char = chars[i];
            let ghost before = laid_chars(start, font, span@, s, drop_shadow, i as nat);
            let ghost after = laid_chars(start, font, span@, s, drop_shadow, (i + 1) as nat);
            assert(after == laid_char(before, font, span@, s, ch, drop_shadow));
            if ch == '\n' {
                line = line + 1;
                if line >= 2 {
                    proof {
                        lemma_ended_stays(
                            start,
                            font,
                            span@,
                            s,
                            drop_shadow,
                            (i + 1) as nat,
                            chars@.len(),
                        );
                        lemma_ended_spans(
                            font,
                            spans@,
                            drop_shadow,
                            (s + 1) as nat,
                            spans@.len(),
                        );
                    }
                    return ops;
                }
                ops.push(TextOp::SecondLine);
            } else if let Some(glyph) = font.glyph(ch, span.sga) {
                push_glyph(&mut ops, span, s, glyph, drop_shadow);
            }
            i = i + 1;
        }
        s = s + 1;
    }
    ops
}

/// The width that a character takes in font pixels, in the alternate letters
/// where `sga` is set, with the space after it: a character without a glyph
/// takes half a cell.
pub open spec fn char_width(font: &GlyphMap, ch: char, sga: bool) -> int {
    1 + match font.shown(ch, sga) {
        Some(glyph) => glyph.width as int,
        None => font.cell_w as int / 2,
    }
}

/// The widths of the characters of some text, in font pixels. Scaled and added
/// up they are the text's width on the screen.
pub fn char_widths(font: &GlyphMap, text: &String, sga: bool) -> (widths: Vec<u64>)
    ensures
        widths@.len() == text@.len(),
        forall|i: int|
            0 <= i < text@.len() ==> #[trigger] widths@[i] == char_width(font, text@[i], sga),
{
    let mut widths: Vec<u64> = Vec::new();
    let chars = text_chars(text.as_str());
    let mut i: usize = 0;
    while i < chars.len()
        invariant
            i <= chars@.len(),
            chars@ == text@,
            widths@.len() == i,
            forall|k: int| 0 <= k < i ==> #[trigger] widths@[k] == char_width(font, text@[k], sga),
        decreases chars@.len() - i,
    {
        let ch: char = chars[i];
        let width: u64 = match font.glyph(ch, sga) {
            Some(glyph) => glyph.width as u64,
            None => (font.cell_w / 2) as u64,
        };
        widths.push(width + 1);
        i = i + 1;
    }
    widths
}

/// Whether a character is white space: the characters that Unicode gives the
/// property `White_Space`.
pub open spec fn white_space(ch: char) -> bool {
    ||| '\u{9}' <= ch <= '\u{D}'
    ||| ch == '\u{20}'
    ||| ch == '\u{85}'
    ||| ch == '\u{A0}'
    ||| ch == '\u{1680}'
    ||| '\u{2000}' <= ch <= '\u{200A}'
    ||| '\u{2028}' <= ch <= '\u{2029}'
    ||| ch == '\u{202F}'
    ||| ch == '\u{205F}'
    ||| ch == '\u{3000}'
}

/// Whether a character is white space.
pub fn is_white_space(ch: char) -> (white: bool)
    ensures
        white == white_space(ch),
{
    match ch {
        '\u{9}'..='\u{D}' | '\u{20}' | '\u{85}' | '\u{A0}' | '\u{1680}' => true,
        '\u{2000}'..='\u{200A}' | '\u{2028}' | '\u{2029}' | '\u{202F}' => true,
        '\u{205F}' | '\u{3000}' => true,
        _ => false,
    }
}

/// The words that end before character `n`, and the one that is read there: a
/// word is a run of characters that are not white space, as long as it can be.
pub open spec fn words_read(text: Seq<char>, n: nat) -> (Seq<Seq<char>>, Seq<char>)
    decreases n,
{
    if n == 0 {
        (Seq::empty(), Seq::empty())
    } else {
        let (done, open) = words_read(text, (n - 1) as nat);
        if !white_space(text[n - 1]) {
            (done, open.push(text[n - 1]))
        } else if open.len() > 0 {
            (done.push(open), Seq::empty())
        } else {
            (done, open)
        }
    }
}

/// The words of a text.
pub open spec fn words_of(text: Seq<char>) -> Seq<Seq<char>> {
    let (done, open) = words_read(text, text.len());
    if open.len() > 0 {
        done.push(open)
    } else {
        done
    }
}

/// The words of a text.
pub fn split_words(text: &String) -> (words: Vec<String>)
    ensures
        Seq::new(words@.len(), |i: int| words@[i]@) == words_of(text@),
        forall|i: int| 0 <= i < words@.len() ==> (#[trigger] words@[i])@.len() > 0,
{
    let mut words: Vec<String> = Vec::new();
    let chars = text_chars(text.as_str());
    let len: usize = chars.len();
    let mut start: usize = 0;
    let mut i: usize = 0;
    assert(Seq::new(words@.len(), |k: int| words@[k]@) =~= words_read(text@, 0).0);
    assert(text@.subrange(0, 0) =~= words_read(text@, 0).1);
    while i < len
        invariant
            start <= i <= len,
            len == text@.len(),
            chars@ == text@,
            Seq::new(words@.len(), |k: int| words@[k]@) == words_read(text@, i as nat).0,
            text@.subrange(start as int, i as int) == words_read(text@, i as nat).1,
            forall|k: int| 0 <= k < words@.len() ==> (#[trigger] words@[k])@.len() > 0,
        decreases len - i,
    {
        let ghost before = words_read(text@, i as nat);
        let ghost held = words@;
        if is_white_space(chars[i]) {
            if start < i {
                let word = text.as_str().substring_char(start, i).to_owned();
                words.push(word);
                assert(Seq::new(words@.len(), |k: int| words@[k]@) =~= before.0.push(word@));
            }
            start = i + 1;
            assert(text@.subrange(start as int, i + 1) =~= Seq::<char>::empty());
            assert(before.1.len() == 0 ==> before.1 =~= Seq::<char>::empty());
        } else {
            assert(text@.subrange(start as int, i + 1) =~= before.1.push(text@[i as int]));
        }
        i = i + 1;
    }
    if start < len {
        let ghost before = words_read(text@, len as nat);
        let word = text.as_str().substring_char(start, len).to_owned();
        words.push(word);
        assert(Seq::new(words@.len(), |k: int| words@[k]@) =~= before.0.push(word@));
    }
    words
}

/// A text without the white space at its start.
pub open spec fn start_trimmed(text: Seq<char>) -> Seq<char>
    decreases text.len(),
{
    if text.len() > 0 && white_space(text[0]) {
        start_trimmed(text.drop_first())
    } else {
        text
    }
}

/// A text without the white space at its end.
pub open spec fn end_trimmed(text: Seq<char>) -> Seq<char>
    decreases text.len(),
{
    if text.len() > 0 && white_space(text.last()) {
        end_trimmed(text.drop_last())
    } else {
        text
    }
}

/// A text without the white space around it.
pub open spec fn trimmed(text: Seq<char>) -> Seq<char> {
    end_trimmed(start_trimmed(text))
}

/// A text without the white space around it.
pub fn trimmed_text(text: &String) -> (trim: String)
    ensures
        trim@ == trimmed(text@),
{
    let chars = crate::strings::text_chars(text.as_str());
    let mut start: usize = 0;
    assert(text@.skip(0) =~= text@);
    while start < chars.len() && is_white_space(chars[start])
        invariant
            start <= chars@.len(),
            chars@ == text@,
            start_trimmed(text@) == start_trimmed(text@.skip(start as int)),
        decreases chars@.len() - start,
    {
        assert(text@.skip(start as int).drop_first() =~= text@.skip(start + 1));
        start = start + 1;
    }
    let ghost front = text@.skip(start as int);
    assert(start_trimmed(text@) == front);
    let mut end: usize = chars.len();
    assert(text@.subrange(start as int, end as int) =~= front);
    while end > start && is_white_space(chars[end - 1])
        invariant
            start <= end <= chars@.len(),
            chars@ == text@,
            end_trimmed(front) == end_trimmed(text@.subrange(start as int, end as int)),
        decreases end,
    {
        assert(text@.subrange(start as int, end as int).drop_last() =~= text@.subrange(
            start as int,
            end - 1,
        ));
        end = end - 1;
    }
    text.as_str().substring_char(start, end).to_owned()
}

/// Text wrapped so far: the finished lines, and the line that is filled.
pub struct Wrapping {
    pub lines: Vec<String>,
    pub current: String,
}

/// The lines of a text, with the one that is filled last if it holds anything.
pub open spec fn wrapped_lines(lines: Seq<String>, current: Seq<char>) -> Seq<Seq<char>> {
    let done = Seq::new(lines.len(), |i: int| lines[i]@);
    if current.len() > 0 {
        done.push(current)
    } else {
        done
    }
}

/// Some lines with their words set apart by one space each, end to end.
pub open spec fn run_together(lines: Seq<Seq<char>>) -> Seq<char>
    decreases lines.len(),
{
    if lines.len() == 0 {
        Seq::empty()
    } else if lines.len() == 1 {
        lines[0]
    } else {
        run_together(lines.drop_last()) + " "@ + lines.last()
    }
}

impl Wrapping {
    pub open spec fn lines_so_far(&self) -> Seq<Seq<char>> {
        wrapped_lines(self.lines@, self.current@)
    }

    /// Nothing wrapped yet.
    pub fn new() -> (wrapping: Self)
        ensures
            wrapping.lines_so_far() == Seq::<Seq<char>>::empty(),
            wrapping.lines@.len() == 0,
            wrapping.current@.len() == 0,
    {
        let wrapping = Wrapping { lines: Vec::new(), current: String::new() };
        assert(wrapping.lines_so_far() =~= Seq::<Seq<char>>::empty());
        wrapping
    }

    /// Adds a word: to the line that is filled, after a space; to a new line
    /// where `too_wide` says that it would not fit behind what the line holds.
    pub fn add_word(&mut self, word: &String, too_wide: bool)
        requires
            word@.len() > 0,
        ensures
            old(self).current@.len() == 0 ==> final(self).lines@ == old(self).lines@
                && final(self).current@ == word@,
            old(self).current@.len() > 0 && too_wide ==> final(self).lines@ == old(
                self,
            ).lines@.push(old(self).current) && final(self).current@ == word@,
            old(self).current@.len() > 0 && !too_wide ==> final(self).lines@ == old(self).lines@
                && final(self).current@ == old(self).current@ + " "@ + word@,
            run_together(final(self).lines_so_far()) == if old(self).lines_so_far().len() == 0 {
                word@
            } else {
                run_together(old(self).lines_so_far()) + " "@ + word@
            },
    {
        let ghost before = self.lines_so_far();
        let ghost lines = self.lines@;
        let ghost held = self.current@;
        if !self.current.as_str().is_empty() && too_wide {
            let mut next = word.clone();
            core::mem::swap(&mut next, &mut self.current);
            self.lines.push(next);
            assert(self.lines_so_far() =~= before.push(word@));
            assert(self.lines_so_far().drop_last() =~= before);
        } else {
            if !self.current.as_str().is_empty() {
                self.current.append(" ");
            }
            self.current.append(word.as_str());
            proof {
                let done = Seq::new(lines.len(), |i: int| lines[i]@);
                if held.len() == 0 {
                    assert(self.current@ =~= word@);
                    assert(before =~= done);
                    assert(self.lines_so_far() =~= before.push(word@));
                    assert(self.lines_so_far().drop_last() =~= before);
                } else {
                    assert(self.current@ =~= held + " "@ + word@);
                    assert(before =~= done.push(held));
                    assert(self.lines_so_far() =~= done.push(self.current@));
                    assert(before.drop_last() =~= done);
                    assert(self.lines_so_far().drop_last() =~= done);
                    assert(run_together(self.lines_so_far()) =~= run_together(before) + " "@
                        + word@);
                }
            }
        }
    }

    /// The lines.
    pub fn finish(self) -> (lines: Vec<String>)
        ensures
            Seq::new(lines@.len(), |i: int| lines@[i]@) == self.lines_so_far(),
    {
        let mut lines = self.lines;
        let ghost done = lines@;
        if !self.current.as_str().is_empty() {
            lines.push(self.current);
        }
        assert(Seq::new(lines@.len(), |i: int| lines@[i]@) =~= self.lines_so_far());
        lines
    }
}

} // verus!
