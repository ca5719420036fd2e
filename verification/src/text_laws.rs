//! What holds of all text that is laid out: which glyphs stand where, in whose
//! style, and how far the pen goes.

use crate::font::{GlyphInfo, GlyphMap};
use crate::text::{
    char_width, end_trimmed, flattened, glyph_layers, glyph_ops, laid_char, laid_chars, laid_spans,
    spans_of, start_trimmed, style_after, styled_span, trimmed, white_space, words_of, words_read,
    EventView, GlyphLayer, Laid, SpanView, TextColor, TextOp, TextSpan,
};
use vstd::prelude::*;

verus! {

/// How many line breaks the first `n` characters of a text hold.
pub open spec fn breaks_in(text: Seq<char>, n: nat) -> nat
    decreases n,
{
    if n == 0 {
        0
    } else if text[n - 1] == '\n' {
        breaks_in(text, (n - 1) as nat) + 1
    } else {
        breaks_in(text, (n - 1) as nat)
    }
}

/// How many line breaks the first `s` runs hold.
pub open spec fn breaks_before(spans: Seq<TextSpan>, s: nat) -> nat
    decreases s,
{
    if s == 0 {
        0
    } else {
        breaks_before(spans, (s - 1) as nat) + breaks_in(
            spans[s - 1].text@,
            spans[s - 1].text@.len(),
        )
    }
}

/// The glyphs of those of the first `n` characters of run `s` that stand on a line
/// and have one: in a run of alternate letters the alternate glyph where there is
/// one, else the plain one.
pub open spec fn glyphs_on(
    font: &GlyphMap,
    spans: Seq<TextSpan>,
    s: nat,
    line: nat,
    n: nat,
) -> Seq<GlyphInfo>
    decreases n,
{
    if n == 0 {
        Seq::empty()
    } else {
        let before = glyphs_on(font, spans, s, line, (n - 1) as nat);
        let span = spans[s as int];
        let key = span.text@[n - 1] as u32;
        if span.text@[n - 1] == '\n' || breaks_before(spans, s) + breaks_in(
            span.text@,
            (n - 1) as nat,
        ) != line {
            before
        } else if span.sga && font.sga_glyphs@.contains_key(key) {
            before.push(font.sga_glyphs@[key])
        } else if font.glyphs@.contains_key(key) {
            before.push(font.glyphs@[key])
        } else {
            before
        }
    }
}

/// How often the pen goes to the second line.
pub open spec fn second_lines(ops: Seq<TextOp>) -> nat
    decreases ops.len(),
{
    if ops.len() == 0 {
        0
    } else if ops.last() == TextOp::SecondLine {
        second_lines(ops.drop_last()) + 1
    } else {
        second_lines(ops.drop_last())
    }
}

/// The glyphs of the quads of a layer that name a run, on a line, in their order.
pub open spec fn quads_of(ops: Seq<TextOp>, run: nat, layer: GlyphLayer, line: nat) -> Seq<
    GlyphInfo,
>
    decreases ops.len(),
{
    if ops.len() == 0 {
        Seq::empty()
    } else {
        let before = quads_of(ops.drop_last(), run, layer, line);
        match ops.last() {
            TextOp::Quad { span, glyph, layer: l } => if span == run && l == layer && second_lines(
                ops.drop_last(),
            ) == line {
                before.push(glyph)
            } else {
                before
            },
            _ => before,
        }
    }
}

/// Whether a run is drawn with a layer: with the shadow where one is asked for,
/// with the lines that its style has, and twice where it is bold.
pub open spec fn has_layer(span: TextSpan, shadow: bool, layer: GlyphLayer) -> bool {
    match layer {
        GlyphLayer::Shadow => shadow,
        GlyphLayer::BoldShadow => shadow && span.bold,
        GlyphLayer::Face => true,
        GlyphLayer::BoldFace => span.bold,
        GlyphLayer::Strike => span.strikethrough,
        GlyphLayer::Underline => span.underline,
    }
}

/// How far in front a layer is.
pub open spec fn depth(layer: GlyphLayer) -> int {
    match layer {
        GlyphLayer::Shadow => 0,
        GlyphLayer::BoldShadow => 1,
        GlyphLayer::Face => 2,
        GlyphLayer::BoldFace => 3,
        GlyphLayer::Strike => 4,
        GlyphLayer::Underline => 5,
    }
}

/// Whether a quad is followed by one of the same glyph further in front, or by the
/// pen's move past the glyph: by its width and one pixel, and by one more where the
/// run is bold.
pub open spec fn goes_on(spans: Seq<TextSpan>, ops: Seq<TextOp>, i: int) -> bool {
    ops[i] matches TextOp::Quad { span, glyph, layer } ==> {
        &&& i + 1 < ops.len()
        &&& match ops[i + 1] {
            TextOp::Quad { span: s, glyph: g, layer: l } => s == span && g == glyph && depth(layer)
                < depth(l),
            TextOp::Advance { pixels } => pixels == glyph.width + 1 + if spans[span as int].bold {
                1int
            } else {
                0int
            },
            TextOp::SecondLine => false,
        }
    }
}

/// Whether the pen moves only past a glyph.
pub open spec fn moves_past_a_glyph(ops: Seq<TextOp>, i: int) -> bool {
    ops[i] is Advance ==> i > 0 && ops[i - 1] is Quad
}

/// Whether the quads of each glyph follow one another from the back, and the pen
/// then moves past the glyph, and only then.
pub open spec fn pen_follows_the_glyphs(spans: Seq<TextSpan>, ops: Seq<TextOp>) -> bool {
    &&& forall|i: int| 0 <= i < ops.len() ==> #[trigger] goes_on(spans, ops, i)
    &&& forall|i: int| 0 <= i < ops.len() ==> #[trigger] moves_past_a_glyph(ops, i)
}

/// Whether the quads name the runs up to `s`, and later quads later runs.
pub open spec fn runs_follow(ops: Seq<TextOp>, s: nat) -> bool {
    &&& forall|i: int|
        0 <= i < ops.len() ==> (#[trigger] ops[i] matches TextOp::Quad { span, .. } ==> span < s)
    &&& forall|i: int, j: int|
        0 <= i < j < ops.len() ==> (#[trigger] ops[i] matches TextOp::Quad { span: a, .. } ==> (
        #[trigger] ops[j] matches TextOp::Quad { span: b, .. } ==> a <= b))
}

proof fn lemma_push(ops: Seq<TextOp>, op: TextOp, run: nat, layer: GlyphLayer, line: nat)
    ensures
        second_lines(ops.push(op)) == second_lines(ops) + if op == TextOp::SecondLine {
            1nat
        } else {
            0nat
        },
        quads_of(ops.push(op), run, layer, line) == match op {
            TextOp::Quad { span, glyph, layer: l } => if span == run && l == layer && second_lines(
                ops,
            ) == line {
                quads_of(ops, run, layer, line).push(glyph)
            } else {
                quads_of(ops, run, layer, line)
            },
            _ => quads_of(ops, run, layer, line),
        },
{
    assert(ops.push(op).drop_last() =~= ops);
}

/// The quads of the first `n` layers of a glyph.
spec fn layer_ops(s: usize, glyph: GlyphInfo, layers: Seq<GlyphLayer>, n: nat) -> Seq<TextOp> {
    Seq::new(n, |i: int| TextOp::Quad { span: s, glyph, layer: layers[i] })
}

proof fn lemma_layers(
    ops: Seq<TextOp>,
    s: usize,
    glyph: GlyphInfo,
    layers: Seq<GlyphLayer>,
    n: nat,
    run: nat,
    layer: GlyphLayer,
    line: nat,
)
    requires
        n <= layers.len(),
        layers.no_duplicates(),
    ensures
        second_lines(ops + layer_ops(s, glyph, layers, n)) == second_lines(ops),
        quads_of(ops + layer_ops(s, glyph, layers, n), run, layer, line) == if run == s
            && second_lines(ops) == line && layers.take(n as int).contains(layer) {
            quads_of(ops, run, layer, line).push(glyph)
        } else {
            quads_of(ops, run, layer, line)
        },
    decreases n,
{
    if n == 0 {
        assert(ops + layer_ops(s, glyph, layers, 0) =~= ops);
    } else {
        let k = (n - 1) as nat;
        lemma_layers(ops, s, glyph, layers, k, run, layer, line);
        let before = ops + layer_ops(s, glyph, layers, k);
        let op = TextOp::Quad { span: s, glyph, layer: layers[k as int] };
        assert(ops + layer_ops(s, glyph, layers, n) =~= before.push(op));
        lemma_push(before, op, run, layer, line);
        let (fewer, more) = (layers.take(k as int), layers.take(n as int));
        if fewer.contains(layer) {
            let i = fewer.index_of(layer);
            assert(more[i] == layer);
            assert(layers[i] == layer);
            assert(layers[k as int] != layer);
        }
        if layers[k as int] == layer {
            assert(more[k as int] == layer);
        } else if more.contains(layer) {
            let i = more.index_of(layer);
            assert(fewer[i] == layer);
        }
    }
}

#[verifier::rlimit(40)]
proof fn lemma_glyph_layers(span: TextSpan, shadow: bool, layer: GlyphLayer)
    ensures
        glyph_layers(span@, shadow).no_duplicates(),
        glyph_layers(span@, shadow).contains(layer) <==> has_layer(span, shadow, layer),
        glyph_layers(span@, shadow).len() > 0,
        forall|i: int, j: int|
            0 <= i < j < glyph_layers(span@, shadow).len() ==> depth(
                #[trigger] glyph_layers(span@, shadow)[i],
            ) < depth(#[trigger] glyph_layers(span@, shadow)[j]),
{
    let layers = glyph_layers(span@, shadow);
    let a: int = if shadow {
        1
    } else {
        0
    };
    let b: int = if shadow && span.bold {
        a + 1
    } else {
        a
    };
    let c: int = if span.bold {
        b + 2
    } else {
        b + 1
    };
    let d: int = if span.strikethrough {
        c + 1
    } else {
        c
    };
    if has_layer(span, shadow, layer) {
        match layer {
            GlyphLayer::Shadow => {
                assert(layers[0] == layer);
            },
            GlyphLayer::BoldShadow => {
                assert(layers[1] == layer);
            },
            GlyphLayer::Face => {
                assert(layers[b] == layer);
            },
            GlyphLayer::BoldFace => {
                assert(layers[b + 1] == layer);
            },
            GlyphLayer::Strike => {
                assert(layers[c] == layer);
            },
            GlyphLayer::Underline => {
                assert(layers[d] == layer);
            },
        }
    }
}

/// One more glyph of run `s`.
proof fn lemma_glyph(
    ops: Seq<TextOp>,
    spans: Seq<TextSpan>,
    s: usize,
    glyph: GlyphInfo,
    shadow: bool,
    run: nat,
    layer: GlyphLayer,
    line: nat,
)
    requires
        s < spans.len(),
    ensures
        ({
            let all = ops + glyph_ops(spans[s as int]@, s, glyph, shadow);
            &&& second_lines(all) == second_lines(ops)
            &&& quads_of(all, run, layer, line) == if run == s && second_lines(ops) == line
                && has_layer(spans[s as int], shadow, layer) {
                quads_of(ops, run, layer, line).push(glyph)
            } else {
                quads_of(ops, run, layer, line)
            }
        }),
{
    let span = spans[s as int];
    let layers = glyph_layers(span@, shadow);
    let more = glyph_ops(span@, s, glyph, shadow);
    let all = ops + more;
    lemma_glyph_layers(span, shadow, layer);
    lemma_layers(ops, s, glyph, layers, layers.len(), run, layer, line);
    assert(layers.take(layers.len() as int) =~= layers);
    let quads = ops + layer_ops(s, glyph, layers, layers.len());
    assert(all =~= quads.push(more.last()));
    lemma_push(quads, more.last(), run, layer, line);
}

proof fn lemma_glyph_shape(
    ops: Seq<TextOp>,
    spans: Seq<TextSpan>,
    s: usize,
    glyph: GlyphInfo,
    shadow: bool,
)
    requires
        s < spans.len(),
        pen_follows_the_glyphs(spans, ops),
        runs_follow(ops, (s + 1) as nat),
    ensures
        pen_follows_the_glyphs(spans, ops + glyph_ops(spans[s as int]@, s, glyph, shadow)),
        runs_follow(ops + glyph_ops(spans[s as int]@, s, glyph, shadow), (s + 1) as nat),
{
    let span = spans[s as int];
    let layers = glyph_layers(span@, shadow);
    let more = glyph_ops(span@, s, glyph, shadow);
    let all = ops + more;
    let m = ops.len() as int;
    lemma_glyph_layers(span, shadow, GlyphLayer::Face);
    assert(more.len() == layers.len() + 1);
    assert forall|i: int| m <= i < all.len() implies #[trigger] all[i] == (if i < m + layers.len() {
        TextOp::Quad { span: s, glyph, layer: layers[i - m] }
    } else {
        more.last()
    }) by {}
    assert forall|i: int| 0 <= i < all.len() implies #[trigger] goes_on(spans, all, i) by {
        if i < m {
            assert(goes_on(spans, ops, i));
        }
    }
    assert forall|i: int| 0 <= i < all.len() implies #[trigger] moves_past_a_glyph(all, i) by {
        if i < m {
            assert(moves_past_a_glyph(ops, i));
        }
    }
    assert forall|i: int, j: int| 0 <= i < j < all.len() implies (#[trigger] all[i] matches
        TextOp::Quad { span: a, .. } ==> (#[trigger] all[j] matches TextOp::Quad { span: b, .. }
        ==> a <= b)) by {
        if j < m {
            assert(all[i] == ops[i] && all[j] == ops[j]);
        } else if i < m {
            assert(all[i] == ops[i]);
        }
    }
    assert forall|i: int| 0 <= i < all.len() implies (#[trigger] all[i] matches TextOp::Quad {
        span,
        ..
    } ==> span < s + 1) by {
        if i < m {
            assert(all[i] == ops[i]);
        }
    }
}

/// What the quads of a layer that name a run show, of the first runs and of the
/// first characters of the next.
spec fn shown_of(
    font: &GlyphMap,
    spans: Seq<TextSpan>,
    shadow: bool,
    s: nat,
    n: nat,
    run: nat,
    layer: GlyphLayer,
    line: nat,
) -> Seq<GlyphInfo> {
    if run >= spans.len() || !has_layer(spans[run as int], shadow, layer) {
        Seq::empty()
    } else if run < s {
        glyphs_on(font, spans, run, line, spans[run as int].text@.len())
    } else if run == s {
        glyphs_on(font, spans, run, line, n)
    } else {
        Seq::empty()
    }
}

/// Whether the first runs and the first characters of the next are laid out.
spec fn is_laid(
    laid: Laid,
    font: &GlyphMap,
    spans: Seq<TextSpan>,
    shadow: bool,
    s: nat,
    n: nat,
    breaks: nat,
    run: nat,
    layer: GlyphLayer,
    line: nat,
) -> bool {
    &&& laid.line == if breaks < 2 {
        breaks as int
    } else {
        2
    }
    &&& laid.ended == (breaks >= 2)
    &&& second_lines(laid.ops) == if breaks == 0 {
        0nat
    } else {
        1nat
    }
    &&& quads_of(laid.ops, run, layer, line) == shown_of(
        font,
        spans,
        shadow,
        s,
        n,
        run,
        layer,
        line,
    )
    &&& pen_follows_the_glyphs(spans, laid.ops)
    &&& runs_follow(laid.ops, if n == 0 {
        s
    } else {
        s + 1
    })
}

proof fn lemma_spans(
    font: &GlyphMap,
    spans: Seq<TextSpan>,
    shadow: bool,
    s: nat,
    run: nat,
    layer: GlyphLayer,
    line: nat,
)
    requires
        s <= spans.len() <= usize::MAX,
        line < 2,
    ensures
        is_laid(
            laid_spans(font, spans, shadow, s),
            font,
            spans,
            shadow,
            s,
            0,
            breaks_before(spans, s),
            run,
            layer,
            line,
        ),
    decreases s, 0nat, 0nat,
{
    if s > 0 {
        let k = (s - 1) as nat;
        lemma_chars(font, spans, shadow, k, spans[k as int].text@.len(), run, layer, line);
        let laid = laid_spans(font, spans, shadow, s);
        assert(spans[k as int]@.text == spans[k as int].text@);
        assert(runs_follow(laid.ops, s));
    }
}

proof fn lemma_chars(
    font: &GlyphMap,
    spans: Seq<TextSpan>,
    shadow: bool,
    s: nat,
    n: nat,
    run: nat,
    layer: GlyphLayer,
    line: nat,
)
    requires
        s < spans.len() <= usize::MAX,
        n <= spans[s as int].text@.len(),
        line < 2,
    ensures
        is_laid(
            laid_chars(
                laid_spans(font, spans, shadow, s),
                font,
                spans[s as int]@,
                s as usize,
                shadow,
                n,
            ),
            font,
            spans,
            shadow,
            s,
            n,
            breaks_before(spans, s) + breaks_in(spans[s as int].text@, n),
            run,
            layer,
            line,
        ),
    decreases s, 1nat, n,
{
    let start = laid_spans(font, spans, shadow, s);
    let span = spans[s as int];
    if n == 0 {
        lemma_spans(font, spans, shadow, s, run, layer, line);
    } else {
        let k = (n - 1) as nat;
        lemma_chars(font, spans, shadow, s, k, run, layer, line);
        let before = laid_chars(start, font, span@, s as usize, shadow, k);
        let ch = span.text@[k as int];
        let after = laid_char(before, font, span@, s as usize, ch, shadow);
        assert(after == laid_chars(start, font, span@, s as usize, shadow, n));
        assert(runs_follow(before.ops, s + 1));
        if before.ended {
        } else if ch == '\n' {
            if before.line < 1 {
                lemma_push(before.ops, TextOp::SecondLine, run, layer, line);
                let all = after.ops;
                assert(all == before.ops.push(TextOp::SecondLine));
                assert forall|i: int| 0 <= i < all.len() implies #[trigger] goes_on(
                    spans,
                    all,
                    i,
                ) && moves_past_a_glyph(all, i) by {
                    if i < before.ops.len() {
                        assert(goes_on(spans, before.ops, i));
                        assert(moves_past_a_glyph(before.ops, i));
                    }
                }
                assert(pen_follows_the_glyphs(spans, all)) by {
                    assert forall|i: int| 0 <= i < all.len() implies #[trigger] moves_past_a_glyph(
                        all,
                        i,
                    ) by {
                        assert(goes_on(spans, all, i));
                    }
                }
                assert(runs_follow(all, s + 1));
            }
        } else {
            match font.shown(ch, span.sga) {
                Some(glyph) => {
                    lemma_glyph(before.ops, spans, s as usize, glyph, shadow, run, layer, line);
                    lemma_glyph_shape(before.ops, spans, s as usize, glyph, shadow);
                },
                None => {},
            }
        }
    }
}

/// The quads that name a run show that run's own glyphs: on each of the two lines,
/// for each layer that its style has, the glyphs of those of its characters that
/// stand there and have one, in their order; for the other layers none. Text after
/// the second line is not shown.
pub proof fn quads_show_their_runs(
    font: &GlyphMap,
    spans: Seq<TextSpan>,
    shadow: bool,
    run: nat,
    layer: GlyphLayer,
    line: nat,
)
    requires
        spans.len() <= usize::MAX,
        run < spans.len(),
        line < 2,
    ensures
        ({
            let ops = laid_spans(font, spans, shadow, spans.len()).ops;
            quads_of(ops, run, layer, line) == if has_layer(spans[run as int], shadow, layer) {
                glyphs_on(font, spans, run, line, spans[run as int].text@.len())
            } else {
                Seq::empty()
            }
        }),
{
    lemma_spans(font, spans, shadow, spans.len(), run, layer, line);
}

/// The quads name the runs in their order, from the first to the last.
pub proof fn quads_follow_the_runs(font: &GlyphMap, spans: Seq<TextSpan>, shadow: bool)
    requires
        spans.len() <= usize::MAX,
    ensures
        ({
            let ops = laid_spans(font, spans, shadow, spans.len()).ops;
            &&& forall|i: int|
                0 <= i < ops.len() ==> (#[trigger] ops[i] matches TextOp::Quad { span, .. } ==> span
                    < spans.len())
            &&& forall|i: int, j: int|
                0 <= i < j < ops.len() ==> (#[trigger] ops[i] matches TextOp::Quad { span: a, .. }
                    ==> (#[trigger] ops[j] matches TextOp::Quad { span: b, .. } ==> a <= b))
        }),
{
    lemma_spans(font, spans, shadow, spans.len(), 0, GlyphLayer::Face, 0);
}

/// The quads of a glyph lie one over the other, and the pen moves past each glyph
/// once. It goes to the second line once, at the first line break, if there is
/// one.
pub proof fn the_pen_passes_each_glyph_once(font: &GlyphMap, spans: Seq<TextSpan>, shadow: bool)
    requires
        spans.len() <= usize::MAX,
    ensures
        ({
            let ops = laid_spans(font, spans, shadow, spans.len()).ops;
            &&& pen_follows_the_glyphs(spans, ops)
            &&& second_lines(ops) == if breaks_before(spans, spans.len()) == 0 {
                0nat
            } else {
                1nat
            }
        }),
{
    lemma_spans(font, spans, shadow, spans.len(), 0, GlyphLayer::Face, 0);
}

/// How many of the first `n` steps are texts that are not empty.
pub open spec fn texts_in(events: Seq<EventView>, n: nat) -> nat
    decreases n,
{
    if n == 0 {
        0
    } else {
        texts_in(events, (n - 1) as nat) + match events[n - 1] {
            EventView::Text(text) if text.len() > 0 => 1nat,
            _ => 0nat,
        }
    }
}

/// Whether the style in force at a step is that of step `j`, or none where `j` is
/// before the first.
pub open spec fn is_in_force(events: Seq<EventView>, k: int, j: int) -> bool {
    &&& -1 <= j < k
    &&& j >= 0 ==> events[j] is Style
    &&& forall|i: int| j < i < k ==> #[trigger] events[i] is Text
}

proof fn lemma_style_in_force(events: Seq<EventView>, n: nat, j: int)
    requires
        n <= events.len(),
        is_in_force(events, n as int, j),
    ensures
        style_after(events, n) == if j >= 0 {
            Some(events[j]->Style_0)
        } else {
            None
        },
    decreases n,
{
    if n > 0 && j < n - 1 {
        assert(events[n - 1] is Text);
        lemma_style_in_force(events, (n - 1) as nat, j);
    }
}

proof fn lemma_spans_of(events: Seq<EventView>, n: nat, k: int)
    requires
        n <= events.len(),
    ensures
        spans_of(events, n).len() == texts_in(events, n),
        0 <= k < n && events[k] is Text && events[k]->Text_0.len() > 0 ==> texts_in(events, k as nat)
            < texts_in(events, n) && spans_of(events, n)[texts_in(events, k as nat) as int]
            == styled_span(events[k]->Text_0, style_after(events, k as nat)),
    decreases n,
{
    if n > 0 {
        lemma_spans_of(events, (n - 1) as nat, k);
    }
}

/// Every text of a component that is not empty becomes a run of its own, in the
/// order of the texts, and there are no other runs. A run has the colour and the
/// flags of the last style before it, where that sets them; without one it is plain
/// and takes the colour that the text is drawn with.
pub proof fn runs_have_the_style_in_force(events: Seq<EventView>, k: int, j: int)
    requires
        0 <= k < events.len(),
        events[k] is Text,
        events[k]->Text_0.len() > 0,
        is_in_force(events, k, j),
    ensures
        spans_of(events, events.len()).len() == texts_in(events, events.len()),
        texts_in(events, k as nat) < texts_in(events, events.len()),
        ({
            let run = spans_of(events, events.len())[texts_in(events, k as nat) as int];
            &&& run.text == events[k]->Text_0
            &&& !run.sga
            &&& if j < 0 {
                run.color is Base && !run.bold && !run.italic && !run.strikethrough
                    && !run.underline
            } else {
                let style = events[j]->Style_0;
                &&& run.bold == (style.bold == Some(true))
                &&& run.italic == (style.italic == Some(true))
                &&& run.strikethrough == (style.strikethrough == Some(true))
                &&& run.underline == (style.underlined == Some(true))
                &&& match style.color {
                    None => run.color is Base,
                    Some(value) => value < 0x100_0000 ==> (run.color matches TextColor::Rgb {
                        r,
                        g,
                        b,
                    } && r * 0x1_0000 + g * 0x100 + b == value),
                }
            }
        }),
{
    lemma_spans_of(events, events.len(), k);
    lemma_style_in_force(events, k as nat, j);
}

/// Whether the characters from `a` to `b` are a word: they hold no white space, and
/// white space or the end of the text stands on either side.
pub open spec fn is_word_at(text: Seq<char>, a: int, b: int) -> bool {
    &&& 0 <= a < b <= text.len()
    &&& forall|i: int| a <= i < b ==> !white_space(#[trigger] text[i])
    &&& a == 0 || white_space(text[a - 1])
    &&& b == text.len() || white_space(text[b])
}

/// Some texts end to end.
pub open spec fn end_to_end(words: Seq<Seq<char>>) -> Seq<char>
    decreases words.len(),
{
    if words.len() == 0 {
        Seq::empty()
    } else {
        end_to_end(words.drop_last()) + words.last()
    }
}

/// Whether a word stands somewhere in a text.
pub open spec fn is_word_of(text: Seq<char>, word: Seq<char>) -> bool {
    exists|a: int, b: int| #[trigger] is_word_at(text, a, b) && text.subrange(a, b) == word
}

proof fn lemma_words_read(text: Seq<char>, n: nat)
    requires
        n <= text.len(),
    ensures
        ({
            let (done, open) = words_read(text, n);
            let a = n - open.len();
            &&& forall|k: int| 0 <= k < done.len() ==> is_word_of(text, #[trigger] done[k])
            &&& 0 <= a <= n
            &&& open == text.subrange(a, n as int)
            &&& forall|i: int| a <= i < n ==> !white_space(#[trigger] text[i])
            &&& a == 0 || white_space(text[a - 1])
            &&& end_to_end(done) + open == text.take(n as int).filter(|c: char| !white_space(c))
        }),
    decreases n,
{
    reveal(Seq::filter);
    let keep = |c: char| !white_space(c);
    let (done, open) = words_read(text, n);
    if n == 0 {
        assert(text.take(0) =~= Seq::<char>::empty());
        assert(open =~= text.subrange(0, 0));
        assert(end_to_end(done) + open =~= text.take(0).filter(keep));
    } else {
        let m = (n - 1) as nat;
        lemma_words_read(text, m);
        let (d, o) = words_read(text, m);
        let a = m - o.len();
        assert(text.take(n as int).drop_last() =~= text.take(m as int));
        if !white_space(text[m as int]) {
            assert(open =~= text.subrange(a, n as int));
            assert(end_to_end(done) + open =~= (end_to_end(d) + o).push(text[m as int]));
        } else if o.len() > 0 {
            assert(is_word_at(text, a, m as int));
            assert(is_word_of(text, o));
            assert(done.drop_last() =~= d);
            assert(open =~= text.subrange(n as int, n as int));
            assert(end_to_end(done) + open =~= end_to_end(d) + o);
            assert forall|k: int| 0 <= k < done.len() implies is_word_of(
                text,
                #[trigger] done[k],
            ) by {
                if k < d.len() {
                    assert(done[k] == d[k]);
                }
            }
        } else {
            assert(open =~= text.subrange(n as int, n as int));
        }
    }
}

/// The words of a text are its runs of characters that are not white space, each as
/// long as it can be. End to end they are the text without its white space: none is
/// missing, and they stand in their order.
pub proof fn words_are_what_stands_between_white_space(text: Seq<char>)
    ensures
        forall|k: int|
            0 <= k < words_of(text).len() ==> is_word_of(text, #[trigger] words_of(text)[k]),
        end_to_end(words_of(text)) == text.filter(|c: char| !white_space(c)),
{
    lemma_words_read(text, text.len());
    let (done, open) = words_read(text, text.len());
    assert(text.take(text.len() as int) =~= text);
    let words = words_of(text);
    if open.len() > 0 {
        assert(words.drop_last() =~= done);
        assert(is_word_at(text, text.len() - open.len(), text.len() as int));
        assert(is_word_of(text, open));
        assert forall|k: int| 0 <= k < words.len() implies is_word_of(text, #[trigger] words[k]) by {
            if k < done.len() {
                assert(words[k] == done[k]);
            }
        }
    } else {
        assert(end_to_end(words) =~= end_to_end(done) + open);
    }
}

/// A trimmed text is what is left between the white space at either end: all that
/// was cut off is white space, and it neither begins nor ends with any.
pub proof fn trimming_cuts_the_ends(text: Seq<char>)
    ensures
        exists|i: int, j: int| #[trigger] is_trimmed_to(text, i, j) && trimmed(text)
            == text.subrange(i, j),
{
    let i = lemma_start_trimmed(text);
    let front = text.skip(i);
    let j = lemma_end_trimmed(front);
    assert(front.take(j) =~= text.subrange(i, i + j));
    assert(is_trimmed_to(text, i, i + j)) by {
        assert forall|k: int| i + j <= k < text.len() implies white_space(#[trigger] text[k]) by {
            assert(front[k - i] == text[k]);
        }
        if j > 0 {
            assert(front[j - 1] == text[i + j - 1]);
            assert(!white_space(text[i]));
        }
    }
}

/// Whether all outside a stretch of a text is white space, and the stretch does not
/// begin or end with any.
pub open spec fn is_trimmed_to(text: Seq<char>, i: int, j: int) -> bool {
    &&& 0 <= i <= j <= text.len()
    &&& forall|k: int| 0 <= k < i ==> white_space(#[trigger] text[k])
    &&& forall|k: int| j <= k < text.len() ==> white_space(#[trigger] text[k])
    &&& i < j ==> !white_space(text[i]) && !white_space(text[j - 1])
}

proof fn lemma_start_trimmed(text: Seq<char>) -> (i: int)
    ensures
        0 <= i <= text.len(),
        start_trimmed(text) == text.skip(i),
        forall|k: int| 0 <= k < i ==> white_space(#[trigger] text[k]),
        i < text.len() ==> !white_space(text[i]),
    decreases text.len(),
{
    if text.len() > 0 && white_space(text[0]) {
        let rest = text.drop_first();
        let i = lemma_start_trimmed(rest);
        assert(rest.skip(i) =~= text.skip(i + 1));
        assert forall|k: int| 0 <= k < i + 1 implies white_space(#[trigger] text[k]) by {
            if k > 0 {
                assert(rest[k - 1] == text[k]);
            }
        }
        if i < rest.len() {
            assert(rest[i] == text[i + 1]);
        }
        i + 1
    } else {
        assert(text.skip(0) =~= text);
        0
    }
}

proof fn lemma_end_trimmed(text: Seq<char>) -> (j: int)
    ensures
        0 <= j <= text.len(),
        end_trimmed(text) == text.take(j),
        forall|k: int| j <= k < text.len() ==> white_space(#[trigger] text[k]),
        j > 0 ==> !white_space(text[j - 1]),
    decreases text.len(),
{
    if text.len() > 0 && white_space(text.last()) {
        let rest = text.drop_last();
        let j = lemma_end_trimmed(rest);
        assert(rest.take(j) =~= text.take(j));
        assert forall|k: int| j <= k < text.len() implies white_space(#[trigger] text[k]) by {
            if k < rest.len() {
                assert(rest[k] == text[k]);
            }
        }
        j
    } else {
        assert(text.take(text.len() as int) =~= text);
        text.len() as int
    }
}

/// The pen moves past a character by its width, and by one pixel more in a bold
/// run.
pub proof fn the_pen_moves_by_the_width(
    font: &GlyphMap,
    span: SpanView,
    s: usize,
    ch: char,
    shadow: bool,
)
    requires
        font.shown(ch, span.sga) is Some,
    ensures
        glyph_ops(span, s, font.shown(ch, span.sga).unwrap(), shadow).last() matches
            TextOp::Advance { pixels } && pixels == char_width(font, ch, span.sga)
            + if span.bold {
            1int
        } else {
            0int
        },
{
}

/// A character is as wide as its glyph, and half a cell where it has none, with one
/// pixel after it: in alternate letters the alternate glyph counts where there is
/// one.
pub proof fn characters_are_as_wide_as_their_glyph(font: &GlyphMap, ch: char, sga: bool)
    ensures
        ({
            let key = ch as u32;
            let (plain, other) = (font.glyphs@, font.sga_glyphs@);
            let width = char_width(font, ch, sga);
            &&& sga && other.contains_key(key) ==> width == other[key].width + 1
            &&& !(sga && other.contains_key(key)) && plain.contains_key(key) ==> width
                == plain[key].width + 1
            &&& !(sga && other.contains_key(key)) && !plain.contains_key(key) ==> width
                == font.cell_w / 2 + 1
        }),
{
}

/// A component without any text to walk through is shown as its plain text, in one
/// run; one with text is shown as its runs, whatever its plain text.
pub proof fn plain_text_stands_in(events: Seq<EventView>, plain: Seq<char>)
    ensures
        ({
            let runs = flattened(events, plain);
            &&& texts_in(events, events.len()) == 0 && plain.len() == 0 ==> runs.len() == 0
            &&& texts_in(events, events.len()) == 0 && plain.len() > 0 ==> runs.len() == 1
                && runs[0].text == plain && runs[0].color is Base && !runs[0].bold
                && !runs[0].italic && !runs[0].strikethrough && !runs[0].underline && !runs[0].sga
            &&& texts_in(events, events.len()) > 0 ==> runs == spans_of(events, events.len())
        }),
{
    lemma_spans_of(events, events.len(), -1);
}

} // verus!
