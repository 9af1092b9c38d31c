//! Small drawings of the inspector, made of bars, and the steps of its scrubbing.

use vstd::prelude::*;

verus! {

/// A bar on a canvas of 16 by 16, in quarters of a unit.
#[derive(Clone, Copy, Debug, PartialEq, Eq, Structural)]
pub struct Bar {
    pub x: u32,
    pub y: u32,
    pub width: u32,
    pub height: u32,
}

#[derive(Clone, Copy, Debug, PartialEq, Eq, Structural)]
pub enum AlignGlyph {
    Left,
    CenterH,
    Right,
    Top,
    CenterV,
    Bottom,
    DistributeH,
    DistributeV,
}

#[derive(Clone, Copy, Debug, PartialEq, Eq, Structural)]
pub enum TextAlignGlyph {
    Left,
    CenterH,
    Right,
    Top,
    CenterV,
    Bottom,
}

#[verifier::allow_in_spec]
pub fn bar(x: u32, y: u32, width: u32, height: u32) -> Bar
    returns
        (Bar { x: x, y: y, width: width, height: height }),
{
    Bar { x, y, width, height }
}

/// The bar with its axes exchanged.
#[verifier::allow_in_spec]
pub fn turned(bar: Bar) -> Bar
    returns
        (Bar { x: bar.y, y: bar.x, width: bar.height, height: bar.width }),
{
    Bar { x: bar.y, y: bar.x, width: bar.height, height: bar.width }
}

/// The drawing with its axes exchanged.
pub open spec fn turned_all(bars: Seq<Bar>) -> Seq<Bar> {
    bars.map_values(|bar: Bar| turned(bar))
}

/// The drawings for aligning and distributing: an edge or two, and what lies
/// along it. Those that work from top to bottom are those that work from left to
/// right with the axes exchanged.
pub open spec fn align_bars(kind: AlignGlyph) -> Seq<Bar> {
    match kind {
        AlignGlyph::Left => seq![bar(12, 10, 6, 44), bar(22, 18, 30, 10), bar(22, 36, 18, 10)],
        AlignGlyph::CenterH => seq![bar(29, 10, 6, 44), bar(12, 18, 40, 10), bar(20, 36, 24, 10)],
        AlignGlyph::Right => seq![bar(46, 10, 6, 44), bar(12, 18, 30, 10), bar(24, 36, 18, 10)],
        AlignGlyph::DistributeH => seq![
            bar(12, 12, 6, 40),
            bar(46, 12, 6, 40),
            bar(27, 20, 10, 24),
        ],
        AlignGlyph::Top => turned_all(
            seq![bar(12, 10, 6, 44), bar(22, 18, 30, 10), bar(22, 36, 18, 10)],
        ),
        AlignGlyph::CenterV => turned_all(
            seq![bar(29, 10, 6, 44), bar(12, 18, 40, 10), bar(20, 36, 24, 10)],
        ),
        AlignGlyph::Bottom => turned_all(
            seq![bar(46, 10, 6, 44), bar(12, 18, 30, 10), bar(24, 36, 18, 10)],
        ),
        AlignGlyph::DistributeV => turned_all(
            seq![bar(12, 12, 6, 40), bar(46, 12, 6, 40), bar(27, 20, 10, 24)],
        ),
    }
}

fn three(a: Bar, b: Bar, c: Bar) -> (bars: Vec<Bar>)
    ensures
        bars@ == seq![a, b, c],
{
    let bars: Vec<Bar> = vec![a, b, c];
    assert(bars@ =~= seq![a, b, c]);
    bars
}

pub fn align_glyph(kind: AlignGlyph) -> (bars: Vec<Bar>)
    ensures
        bars@ == align_bars(kind),
{
    let bars = match kind {
        AlignGlyph::Left => three(bar(12, 10, 6, 44), bar(22, 18, 30, 10), bar(22, 36, 18, 10)),
        AlignGlyph::CenterH => three(bar(29, 10, 6, 44), bar(12, 18, 40, 10), bar(20, 36, 24, 10)),
        AlignGlyph::Right => three(bar(46, 10, 6, 44), bar(12, 18, 30, 10), bar(24, 36, 18, 10)),
        AlignGlyph::Top => three(bar(10, 12, 44, 6), bar(18, 22, 10, 30), bar(36, 22, 10, 18)),
        AlignGlyph::CenterV => three(bar(10, 29, 44, 6), bar(18, 12, 10, 40), bar(36, 20, 10, 24)),
        AlignGlyph::Bottom => three(bar(10, 46, 44, 6), bar(18, 12, 10, 30), bar(36, 24, 10, 18)),
        AlignGlyph::DistributeH => three(
            bar(12, 12, 6, 40),
            bar(46, 12, 6, 40),
            bar(27, 20, 10, 24),
        ),
        AlignGlyph::DistributeV => three(
            bar(12, 12, 40, 6),
            bar(12, 46, 40, 6),
            bar(20, 27, 24, 10),
        ),
    };
    assert(bars@ =~= align_bars(kind));
    bars
}

/// Lines of text, aligned or pinned as the option says.
pub open spec fn text_bars(kind: TextAlignGlyph) -> Seq<Bar> {
    match kind {
        TextAlignGlyph::Left => seq![bar(12, 14, 40, 6), bar(12, 28, 26, 6), bar(12, 42, 34, 6)],
        TextAlignGlyph::CenterH => seq![
            bar(12, 14, 40, 6),
            bar(19, 28, 26, 6),
            bar(15, 42, 34, 6),
        ],
        TextAlignGlyph::Right => seq![bar(12, 14, 40, 6), bar(26, 28, 26, 6), bar(18, 42, 34, 6)],
        TextAlignGlyph::Top => seq![bar(12, 10, 40, 6), bar(18, 22, 28, 6)],
        TextAlignGlyph::CenterV => seq![bar(12, 22, 40, 6), bar(18, 34, 28, 6)],
        TextAlignGlyph::Bottom => seq![bar(18, 36, 28, 6), bar(12, 48, 40, 6)],
    }
}

pub fn text_align_glyph(kind: TextAlignGlyph) -> (bars: Vec<Bar>)
    ensures
        bars@ == text_bars(kind),
{
    let bars: Vec<Bar> = match kind {
        TextAlignGlyph::Left => three(bar(12, 14, 40, 6), bar(12, 28, 26, 6), bar(12, 42, 34, 6)),
        TextAlignGlyph::CenterH => three(
            bar(12, 14, 40, 6),
            bar(19, 28, 26, 6),
            bar(15, 42, 34, 6),
        ),
        TextAlignGlyph::Right => three(bar(12, 14, 40, 6), bar(26, 28, 26, 6), bar(18, 42, 34, 6)),
        TextAlignGlyph::Top => vec![bar(12, 10, 40, 6), bar(18, 22, 28, 6)],
        TextAlignGlyph::CenterV => vec![bar(12, 22, 40, 6), bar(18, 34, 28, 6)],
        TextAlignGlyph::Bottom => vec![bar(18, 36, 28, 6), bar(12, 48, 40, 6)],
    };
    assert(bars@ =~= text_bars(kind));
    bars
}

/// The bar lies on the canvas.
pub open spec fn on_canvas(bar: Bar) -> bool {
    bar.x + bar.width <= 64 && bar.y + bar.height <= 64
}

/// No drawing leaves its canvas.
pub proof fn lemma_glyphs_on_canvas(align: AlignGlyph, text: TextAlignGlyph, i: int)
    ensures
        0 <= i < align_bars(align).len() ==> on_canvas(align_bars(align)[i]),
        0 <= i < text_bars(text).len() ==> on_canvas(text_bars(text)[i]),
{
}

/// How far a value moves for each pixel of a scrub.
#[derive(Clone, Copy, Debug, PartialEq, Eq, Structural)]
pub enum ScrubStep {
    Tenth,
    One,
    Ten,
}

/// Shift makes a scrub coarse, and else Alt makes it fine.
pub fn scrub_step(shift: bool, alt: bool) -> (step: ScrubStep)
    ensures
        step == (if shift {
            ScrubStep::Ten
        } else if alt {
            ScrubStep::Tenth
        } else {
            ScrubStep::One
        }),
{
    if shift {
        ScrubStep::Ten
    } else if alt {
        ScrubStep::Tenth
    } else {
        ScrubStep::One
    }
}

} // verus!
