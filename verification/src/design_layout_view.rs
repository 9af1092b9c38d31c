//! What the inspector shows of a layer's layout and typography, and the fonts it
//! offers.

use vstd::prelude::*;
use vstd::string::*;

use crate::design_data::{
    auto_layout_alignment, replace_data_operation, DataEdit, StyleEdit, TextEdit,
};
use crate::design_values::{
    BaselineAlignment, CounterAxisAlignContent, ItemSpacingMode, LayoutAlignSelf,
    LayoutPositioning, SizingMode, StackingOrder, TextDecoration,
};
use crate::document::{
    AutoLayout, AxisSizing, CanvasNode, CounterAlign, Doc, LayoutChild, LayoutMode, NodeData,
    PrimaryAlign, TextAlign, TextAutoResize, TextVAlign,
};
use crate::ids::NodeId;
use crate::operations::Operation;
use crate::paint::{Color, Quad};
use crate::scalar::Scalar;
use crate::text::char_list;
use crate::text_search::fold_text;

verus! {

/// The layout part of a layer's snapshot.
#[derive(Clone, Copy, Debug, PartialEq, Eq, Structural)]
pub struct LayoutSection {
    pub clip: bool,
    pub auto: Option<AutoLayout>,
}

/// What is shown of a layer that lays out its children.
#[derive(Clone, Copy, Debug, PartialEq, Eq, Structural)]
pub struct AutoLayoutView {
    pub mode: LayoutMode,
    pub gap: Scalar,
    pub counter_axis_gap: Option<Scalar>,
    pub wrap: bool,
    pub alignment_x: u8,
    pub alignment_y: u8,
    pub item_spacing: ItemSpacingMode,
    pub stacking: StackingOrder,
    pub baseline: BaselineAlignment,
    pub padding: Quad,
    pub min_width: Option<Scalar>,
    pub max_width: Option<Scalar>,
    pub min_height: Option<Scalar>,
    pub max_height: Option<Scalar>,
    pub include_strokes: Option<bool>,
    pub align_content: Option<CounterAxisAlignContent>,
}

/// What is shown of a layer among the children that a layout places.
#[derive(Clone, Copy, Debug, PartialEq, Eq, Structural)]
pub struct LayoutItemView {
    pub positioning: LayoutPositioning,
    pub align_self: LayoutAlignSelf,
    pub grow: Scalar,
}

/// A part that is left out stands as the inspector has it by default.
#[derive(Clone, Copy, Debug, PartialEq, Eq, Structural)]
pub struct DesignLayout {
    pub clip_content: Option<bool>,
    pub auto: Option<AutoLayoutView>,
    pub item: Option<LayoutItemView>,
    pub horizontal_sizing: Option<SizingMode>,
    pub vertical_sizing: Option<SizingMode>,
}

/// The layout that a group itself holds.
pub open spec fn own_layout(data: NodeData) -> Option<AutoLayout> {
    match data {
        NodeData::Group(group) => group.auto_layout,
        _ => None,
    }
}

fn layout_of_data(data: &NodeData) -> (layout: Option<AutoLayout>)
    ensures
        layout == own_layout(*data),
{
    match data {
        NodeData::Group(group) => group.auto_layout,
        _ => None,
    }
}

pub open spec fn spacing_shown(align: PrimaryAlign) -> ItemSpacingMode {
    if align == PrimaryAlign::SpaceBetween || align == PrimaryAlign::SpaceEvenly {
        ItemSpacingMode::Auto
    } else {
        ItemSpacingMode::Fixed
    }
}

/// What is shown of a layout. The gap between lines shows where the layout wraps
/// and does not spread its lines itself.
pub open spec fn auto_shown(auto: AutoLayout, own: Option<AutoLayout>) -> AutoLayoutView {
    let along = auto.mode == LayoutMode::Horizontal;
    let cell = crate::design_data::alignment_cell(auto);
    AutoLayoutView {
        mode: auto.mode,
        gap: if along {
            auto.gap_h
        } else {
            auto.gap_v
        },
        counter_axis_gap: if auto.wrap && !(own matches Some(layout)
            && layout.counter_auto_spacing) {
            Some(
                if along {
                    auto.gap_v
                } else {
                    auto.gap_h
                },
            )
        } else {
            None
        },
        wrap: auto.wrap,
        alignment_x: cell.0,
        alignment_y: cell.1,
        item_spacing: spacing_shown(auto.primary_align),
        stacking: if auto.reverse_z {
            StackingOrder::FirstOnTop
        } else {
            StackingOrder::LastOnTop
        },
        baseline: if auto.counter_align == CounterAlign::Baseline {
            BaselineAlignment::Baseline
        } else {
            BaselineAlignment::Bounds
        },
        padding: match own {
            Some(layout) => layout.padding,
            None => Quad::all(Scalar::of(crate::scalar::ZERO)),
        },
        min_width: auto.min_width,
        max_width: auto.max_width,
        min_height: auto.min_height,
        max_height: auto.max_height,
        include_strokes: match own {
            Some(layout) => Some(layout.include_strokes),
            None => None,
        },
        align_content: match own {
            Some(layout) => Some(
                if layout.counter_auto_spacing {
                    CounterAxisAlignContent::SpaceBetween
                } else {
                    CounterAxisAlignContent::Auto
                },
            ),
            None => None,
        },
    }
}

fn show_auto(auto: &AutoLayout, own: Option<AutoLayout>) -> (view: AutoLayoutView)
    ensures
        view == auto_shown(*auto, own),
{
    let along = auto.mode == LayoutMode::Horizontal;
    let (alignment_x, alignment_y) = auto_layout_alignment(auto);
    let spread = match own {
        Some(layout) => layout.counter_auto_spacing,
        None => false,
    };
    AutoLayoutView {
        mode: auto.mode,
        gap: if along {
            auto.gap_h
        } else {
            auto.gap_v
        },
        counter_axis_gap: if auto.wrap && !spread {
            Some(
                if along {
                    auto.gap_v
                } else {
                    auto.gap_h
                },
            )
        } else {
            None
        },
        wrap: auto.wrap,
        alignment_x,
        alignment_y,
        item_spacing: match auto.primary_align {
            PrimaryAlign::SpaceBetween => ItemSpacingMode::Auto,
            PrimaryAlign::SpaceEvenly => ItemSpacingMode::Auto,
            _ => ItemSpacingMode::Fixed,
        },
        stacking: if auto.reverse_z {
            StackingOrder::FirstOnTop
        } else {
            StackingOrder::LastOnTop
        },
        baseline: match auto.counter_align {
            CounterAlign::Baseline => BaselineAlignment::Baseline,
            _ => BaselineAlignment::Bounds,
        },
        padding: match own {
            Some(layout) => layout.padding,
            None => Quad::all(Scalar::of(crate::scalar::ZERO)),
        },
        min_width: auto.min_width,
        max_width: auto.max_width,
        min_height: auto.min_height,
        max_height: auto.max_height,
        include_strokes: match own {
            Some(layout) => Some(layout.include_strokes),
            None => None,
        },
        align_content: match own {
            Some(layout) => Some(
                if layout.counter_auto_spacing {
                    CounterAxisAlignContent::SpaceBetween
                } else {
                    CounterAxisAlignContent::Auto
                },
            ),
            None => None,
        },
    }
}

pub open spec fn sizing_shown(axis: AxisSizing) -> SizingMode {
    match axis {
        AxisSizing::Fixed => SizingMode::Fixed,
        AxisSizing::Hug => SizingMode::Hug,
    }
}

fn show_sizing(axis: AxisSizing) -> (r: SizingMode)
    ensures
        r == sizing_shown(axis),
{
    match axis {
        AxisSizing::Fixed => SizingMode::Fixed,
        AxisSizing::Hug => SizingMode::Hug,
    }
}

/// The sizing that a layout gives its own box, horizontally and vertically.
pub open spec fn own_sizing(auto: Option<AutoLayout>) -> (Option<SizingMode>, Option<SizingMode>) {
    match auto {
        Some(auto) => match auto.mode {
            LayoutMode::Horizontal => (
                Some(sizing_shown(auto.primary_sizing)),
                Some(sizing_shown(auto.counter_sizing)),
            ),
            LayoutMode::Vertical => (
                Some(sizing_shown(auto.counter_sizing)),
                Some(sizing_shown(auto.primary_sizing)),
            ),
        },
        None => (None, None),
    }
}

/// What a layer says about its place in the layout above it.
pub open spec fn child_of(node: CanvasNode) -> LayoutChild {
    match node.layout_child {
        Some(child) => child,
        None => LayoutChild::plain(),
    }
}

/// A layer that grows fills the axis of the layout above it, and one that
/// stretches fills the other.
pub open spec fn placed_sizing(
    sizing: (Option<SizingMode>, Option<SizingMode>),
    child: LayoutChild,
    above: Option<AutoLayout>,
) -> (Option<SizingMode>, Option<SizingMode>) {
    match above {
        Some(layout) => {
            let grows = Scalar::of(crate::scalar::ZERO).lt(child.grow);
            let stretches = child.align_self == Some(CounterAlign::Stretch);
            let along = layout.mode == LayoutMode::Horizontal;
            (
                if along && grows || !along && stretches {
                    Some(SizingMode::Fill)
                } else {
                    sizing.0
                },
                if !along && grows || along && stretches {
                    Some(SizingMode::Fill)
                } else {
                    sizing.1
                },
            )
        },
        None => sizing,
    }
}

/// A text that sizes itself hugs what it sizes.
pub open spec fn text_sizing(
    sizing: (Option<SizingMode>, Option<SizingMode>),
    data: NodeData,
) -> (Option<SizingMode>, Option<SizingMode>) {
    match data {
        NodeData::Text(text) => match text.auto_resize {
            TextAutoResize::Fixed => sizing,
            TextAutoResize::Height => (sizing.0, Some(SizingMode::Hug)),
            TextAutoResize::WidthAndHeight => (Some(SizingMode::Hug), Some(SizingMode::Hug)),
        },
        _ => sizing,
    }
}

/// What is shown of a layer's layout; nothing where its snapshot has no layout
/// part at all.
pub open spec fn layout_shown(
    doc: Doc,
    node: CanvasNode,
    layout: Option<LayoutSection>,
    placed: bool,
) -> Option<DesignLayout> {
    if layout is None && !placed {
        None
    } else {
        let auto = match layout {
            Some(section) => section.auto,
            None => None,
        };
        let child = child_of(node);
        let own = own_sizing(auto);
        let sizing = if placed {
            placed_sizing(own, child, above_of(doc, node))
        } else {
            own
        };
        let shown = text_sizing(sizing, *node.data);
        Some(
            DesignLayout {
                clip_content: match layout {
                    Some(section) => Some(section.clip),
                    None => None,
                },
                auto: match auto {
                    Some(auto) => Some(auto_shown(auto, own_layout(*node.data))),
                    None => None,
                },
                item: if placed {
                    Some(
                        LayoutItemView {
                            positioning: if child.absolute {
                                LayoutPositioning::Absolute
                            } else {
                                LayoutPositioning::InFlow
                            },
                            align_self: if child.align_self == Some(CounterAlign::Stretch) {
                                LayoutAlignSelf::Stretch
                            } else {
                                LayoutAlignSelf::Inherit
                            },
                            grow: child.grow,
                        },
                    )
                } else {
                    None
                },
                horizontal_sizing: shown.0,
                vertical_sizing: shown.1,
            },
        )
    }
}

/// The layout of the group that a layer lies in.
pub open spec fn above_of(doc: Doc, node: CanvasNode) -> Option<AutoLayout> {
    match node.parent {
        Some(parent) => match crate::scene::find(doc.nodes@, parent) {
            Some(parent) => own_layout(*parent.data),
            None => None,
        },
        None => None,
    }
}

fn layout_above_node(doc: &Doc, node: &CanvasNode) -> (layout: Option<AutoLayout>)
    ensures
        layout == above_of(*doc, *node),
{
    match node.parent {
        Some(parent) => match doc.get(parent) {
            Some(parent) => layout_of_data(&parent.data),
            None => None,
        },
        None => None,
    }
}

pub fn design_layout(
    doc: &Doc,
    node: &CanvasNode,
    layout: Option<LayoutSection>,
    placed: bool,
) -> (r: Option<DesignLayout>)
    ensures
        r == layout_shown(*doc, *node, layout, placed),
{
    if layout.is_none() && !placed {
        return None;
    }
    let auto = match layout {
        Some(section) => section.auto,
        None => None,
    };
    let own = layout_of_data(&node.data);
    let (mut horizontal, mut vertical) = match auto {
        Some(auto) => match auto.mode {
            LayoutMode::Horizontal => (
                Some(show_sizing(auto.primary_sizing)),
                Some(show_sizing(auto.counter_sizing)),
            ),
            LayoutMode::Vertical => (
                Some(show_sizing(auto.counter_sizing)),
                Some(show_sizing(auto.primary_sizing)),
            ),
        },
        None => (None, None),
    };
    let child = match node.layout_child {
        Some(child) => child,
        None => LayoutChild::plain(),
    };
    let stretches = match child.align_self {
        Some(CounterAlign::Stretch) => true,
        _ => false,
    };
    let item = if placed {
        if let Some(above) = layout_above_node(doc, node) {
            let grows = Scalar::of(crate::scalar::ZERO).less(child.grow);
            let along = above.mode == LayoutMode::Horizontal;
            if along && grows || !along && stretches {
                horizontal = Some(SizingMode::Fill);
            }
            if !along && grows || along && stretches {
                vertical = Some(SizingMode::Fill);
            }
        }
        Some(
            LayoutItemView {
                positioning: if child.absolute {
                    LayoutPositioning::Absolute
                } else {
                    LayoutPositioning::InFlow
                },
                align_self: if stretches {
                    LayoutAlignSelf::Stretch
                } else {
                    LayoutAlignSelf::Inherit
                },
                grow: child.grow,
            },
        )
    } else {
        None
    };
    if let NodeData::Text(text) = &*node.data {
        match text.auto_resize {
            TextAutoResize::Fixed => {},
            TextAutoResize::Height => {
                vertical = Some(SizingMode::Hug);
            },
            TextAutoResize::WidthAndHeight => {
                horizontal = Some(SizingMode::Hug);
                vertical = Some(SizingMode::Hug);
            },
        }
    }
    Some(
        DesignLayout {
            clip_content: match layout {
                Some(section) => Some(section.clip),
                None => None,
            },
            auto: match auto {
                Some(auto) => Some(show_auto(&auto, own)),
                None => None,
            },
            item,
            horizontal_sizing: horizontal,
            vertical_sizing: vertical,
        },
    )
}

/// A layer that the inspector set to fill an axis of the layout above it is
/// shown to fill that axis.
pub proof fn lemma_filling_is_shown(doc: Doc, node: CanvasNode, layout: Option<LayoutSection>)
    requires
        above_of(doc, node) is Some,
        !(*node.data is Text),
        Scalar::of(crate::scalar::ZERO).lt(child_of(node).grow),
    ensures
        layout_shown(doc, node, layout, true) matches Some(shown) && (if above_of(
            doc,
            node,
        )->0.mode == LayoutMode::Horizontal {
            shown.horizontal_sizing == Some(SizingMode::Fill)
        } else {
            shown.vertical_sizing == Some(SizingMode::Fill)
        }),
{
}

// ---------------------------------------------------------------------------
// Typography
// ---------------------------------------------------------------------------

/// The typography part of a text's snapshot.
#[derive(Debug, PartialEq)]
pub struct TypographySnapshot {
    pub font_family: String,
    pub italic: bool,
    pub weight: u16,
    pub size_px: Scalar,
    /// As a multiple of the size.
    pub line_height: Scalar,
    pub letter_spacing: Scalar,
    pub align: TextAlign,
    pub vertical_align: TextVAlign,
    pub auto_resize: TextAutoResize,
    pub underline: bool,
    pub strikethrough: bool,
    pub color: Color,
}

#[derive(Debug, PartialEq)]
pub struct DesignTypography {
    pub family: String,
    pub style: String,
    pub weight: u16,
    pub size: Scalar,
    /// As a multiple of the size.
    pub line_height: Scalar,
    pub letter_spacing_pixels: Scalar,
    pub horizontal_alignment: TextAlign,
    pub vertical_alignment: TextVAlign,
    pub resize: TextAutoResize,
    pub decoration: TextDecoration,
}

/// An underlined text shows as underlined, whether or not it is struck through.
pub open spec fn decoration_shown(underline: bool, strikethrough: bool) -> TextDecoration {
    if underline {
        TextDecoration::Underline
    } else if strikethrough {
        TextDecoration::Strikethrough
    } else {
        TextDecoration::Plain
    }
}

pub open spec fn typography_shown(snapshot: TypographySnapshot, shown: DesignTypography) -> bool {
    &&& shown.family == snapshot.font_family
    &&& shown.style@ == (if snapshot.italic {
        "Italic"@
    } else {
        "Regular"@
    })
    &&& shown.weight == snapshot.weight
    &&& shown.size == snapshot.size_px
    &&& shown.line_height == snapshot.line_height
    &&& shown.letter_spacing_pixels == snapshot.letter_spacing
    &&& shown.horizontal_alignment == snapshot.align
    &&& shown.vertical_alignment == snapshot.vertical_align
    &&& shown.resize == snapshot.auto_resize
    &&& shown.decoration == decoration_shown(snapshot.underline, snapshot.strikethrough)
}

pub fn design_typography(snapshot: &TypographySnapshot) -> (shown: DesignTypography)
    ensures
        typography_shown(*snapshot, shown),
{
    DesignTypography {
        family: snapshot.font_family.clone(),
        style: if snapshot.italic {
            "Italic".to_owned()
        } else {
            "Regular".to_owned()
        },
        weight: snapshot.weight,
        size: snapshot.size_px,
        line_height: snapshot.line_height,
        letter_spacing_pixels: snapshot.letter_spacing,
        horizontal_alignment: snapshot.align,
        vertical_alignment: snapshot.vertical_align,
        resize: snapshot.auto_resize,
        decoration: if snapshot.underline {
            TextDecoration::Underline
        } else if snapshot.strikethrough {
            TextDecoration::Strikethrough
        } else {
            TextDecoration::Plain
        },
    }
}

// ---------------------------------------------------------------------------
// Fonts
// ---------------------------------------------------------------------------

/// Order of texts by their characters: the first difference decides, and a text
/// comes before a longer one that begins with it.
pub open spec fn precedes(a: Seq<char>, b: Seq<char>) -> bool
    decreases a.len(),
{
    if b.len() == 0 {
        false
    } else if a.len() == 0 {
        true
    } else if a[0] != b[0] {
        a[0] < b[0]
    } else {
        precedes(a.skip(1), b.skip(1))
    }
}

proof fn lemma_precedes_skip(a: Seq<char>, b: Seq<char>, n: int)
    requires
        0 <= n <= a.len(),
        n <= b.len(),
        a.take(n) == b.take(n),
    ensures
        precedes(a, b) == precedes(a.skip(n), b.skip(n)),
    decreases n,
{
    if n > 0 {
        assert(a[0] == a.take(n)[0]);
        assert(b[0] == b.take(n)[0]);
        assert(a.skip(1).take(n - 1) =~= a.take(n).skip(1));
        assert(b.skip(1).take(n - 1) =~= b.take(n).skip(1));
        lemma_precedes_skip(a.skip(1), b.skip(1), n - 1);
        assert(a.skip(1).skip(n - 1) =~= a.skip(n));
        assert(b.skip(1).skip(n - 1) =~= b.skip(n));
    } else {
        assert(a.skip(0) =~= a);
        assert(b.skip(0) =~= b);
    }
}

fn comes_before(a: &str, b: &str) -> (r: bool)
    ensures
        r == precedes(a@, b@),
{
    let left = char_list(a);
    let right = char_list(b);
    let mut i: usize = 0;
    while i < left.len() && i < right.len() && left[i] == right[i]
        invariant
            left@ == a@,
            right@ == b@,
            i <= left@.len(),
            i <= right@.len(),
            left@.take(i as int) == right@.take(i as int),
        decreases left@.len() - i,
    {
        assert(left@.take(i + 1) =~= left@.take(i as int).push(left@[i as int]));
        assert(right@.take(i + 1) =~= right@.take(i as int).push(right@[i as int]));
        i = i + 1;
    }
    proof {
        lemma_precedes_skip(a@, b@, i as int);
        if i < left@.len() {
            assert(a@.skip(i as int)[0] == left@[i as int]);
        }
        if i < right@.len() {
            assert(b@.skip(i as int)[0] == right@[i as int]);
        }
    }
    if i >= right.len() {
        false
    } else if i >= left.len() {
        true
    } else {
        left[i] < right[i]
    }
}

/// A family that is offered: it has a name, and no hidden one.
pub open spec fn offers_family(name: Seq<char>) -> bool {
    name.len() > 0 && name[0] != '.'
}

pub open spec fn key_of(name: Seq<char>) -> Seq<char> {
    crate::text_search::lowercase_text(name)
}

/// A list that holds a name of the same key.
pub open spec fn has_key(names: Seq<Seq<char>>, name: Seq<char>) -> bool {
    exists|i: int| 0 <= i < names.len() && key_of(#[trigger] names[i]) == key_of(name)
}

/// Puts a name behind all names whose key comes before its own.
pub open spec fn name_inserted(names: Seq<Seq<char>>, name: Seq<char>) -> Seq<Seq<char>>
    decreases names.len(),
{
    if names.len() == 0 || !precedes(key_of(name), key_of(names.last())) {
        names.push(name)
    } else {
        name_inserted(names.drop_last(), name).push(names.last())
    }
}

/// The families of a list in the order of their names, letter case aside; of
/// names that differ in case only, the first stays.
pub open spec fn catalog(names: Seq<Seq<char>>) -> Seq<Seq<char>>
    decreases names.len(),
{
    if names.len() == 0 {
        Seq::empty()
    } else {
        let rest = catalog(names.drop_last());
        if offers_family(names.last()) && !has_key(rest, names.last()) {
            name_inserted(rest, names.last())
        } else {
            rest
        }
    }
}

pub open spec fn texts(names: Seq<String>) -> Seq<Seq<char>> {
    names.map_values(|name: String| name@)
}

proof fn lemma_name_inserted_at(names: Seq<Seq<char>>, name: Seq<char>, at: int)
    requires
        0 <= at <= names.len(),
        at > 0 ==> !precedes(key_of(name), key_of(names[at - 1])),
        forall|k: int|
            at <= k < names.len() ==> precedes(key_of(name), key_of(#[trigger] names[k])),
    ensures
        name_inserted(names, name) == names.insert(at, name),
    decreases names.len(),
{
    if at == names.len() {
        assert(names.insert(at, name) =~= names.push(name));
    } else {
        let front = names.drop_last();
        assert(precedes(key_of(name), key_of(names[names.len() - 1])));
        assert forall|k: int| at <= k < front.len() implies precedes(
            key_of(name),
            key_of(#[trigger] front[k]),
        ) by {
            assert(front[k] == names[k]);
        }
        lemma_name_inserted_at(front, name, at);
        assert(front.insert(at, name).push(names.last()) =~= names.insert(at, name));
    }
}

fn is_offered(name: &str) -> (r: bool)
    ensures
        r == offers_family(name@),
{
    let chars = char_list(name);
    chars.len() > 0 && chars[0] != '.'
}

fn knows_key(names: &Vec<String>, key: &str) -> (r: bool)
    ensures
        r == exists|i: int|
            0 <= i < names@.len() && key_of((#[trigger] texts(names@)[i])) == key@,
{
    let mut i: usize = 0;
    while i < names.len()
        invariant
            i <= names@.len(),
            forall|k: int| 0 <= k < i ==> key_of((#[trigger] texts(names@)[k])) != key@,
        decreases names@.len() - i,
    {
        let other = fold_text(names[i].as_str());
        if crate::text::same_text(other.as_str(), key) {
            assert(key_of(texts(names@)[i as int]) == key@);
            return true;
        }
        i = i + 1;
    }
    false
}

/// A cut of a font family.
#[derive(Debug, PartialEq)]
pub struct FontStyle {
    pub id: String,
    pub name: String,
    pub italic: bool,
}

/// A font family and its cuts.
#[derive(Debug, PartialEq)]
pub struct FontFamily {
    pub id: String,
    pub name: String,
    pub styles: Vec<FontStyle>,
}

/// The id and the name of a cut, and whether it is italic.
pub open spec fn cut_of(style: FontStyle) -> (Seq<char>, Seq<char>, bool) {
    (style.id@, style.name@, style.italic)
}

/// A family goes by its name, and has a regular and an italic cut.
pub open spec fn offers_cuts(family: FontFamily, name: Seq<char>) -> bool {
    &&& family.id@ == name
    &&& family.name@ == name
    &&& family.styles@.map_values(|style: FontStyle| cut_of(style)) == seq![
        ("regular"@, "Regular"@, false),
        ("italic"@, "Italic"@, true),
    ]
}

/// The cuts that every family is offered in.
pub fn font_styles() -> (styles: Vec<FontStyle>)
    ensures
        styles@.map_values(|style: FontStyle| cut_of(style)) == seq![
            ("regular"@, "Regular"@, false),
            ("italic"@, "Italic"@, true),
        ],
{
    let mut styles: Vec<FontStyle> = Vec::new();
    styles.push(
        FontStyle { id: "regular".to_owned(), name: "Regular".to_owned(), italic: false },
    );
    styles.push(FontStyle { id: "italic".to_owned(), name: "Italic".to_owned(), italic: true });
    assert(styles@.map_values(|style: FontStyle| cut_of(style)) =~= seq![
        ("regular"@, "Regular"@, false),
        ("italic"@, "Italic"@, true),
    ]);
    styles
}

/// The font families to offer, each with its cuts: those of the system, and then
/// those that come with the program.
pub fn design_font_catalog(system: &Vec<String>, bundled: &Vec<String>) -> (families: Vec<
    FontFamily,
>)
    ensures
        ({
            let names = catalog(texts(system@) + texts(bundled@));
            &&& families@.len() == names.len()
            &&& forall|i: int|
                0 <= i < families@.len() ==> offers_cuts(#[trigger] families@[i], names[i])
        }),
{
    let names = family_names(system, bundled);
    let mut families: Vec<FontFamily> = Vec::new();
    let mut i: usize = 0;
    while i < names.len()
        invariant
            i <= names@.len(),
            families@.len() == i,
            forall|k: int|
                0 <= k < i ==> offers_cuts(#[trigger] families@[k], texts(names@)[k]),
        decreases names@.len() - i,
    {
        families.push(
            FontFamily { id: names[i].clone(), name: names[i].clone(), styles: font_styles() },
        );
        assert(offers_cuts(families@[i as int], texts(names@)[i as int]));
        i = i + 1;
    }
    families
}

/// The names of the families to offer.
fn family_names(system: &Vec<String>, bundled: &Vec<String>) -> (names: Vec<String>)
    ensures
        texts(names@) == catalog(texts(system@) + texts(bundled@)),
{
    let ghost all = texts(system@) + texts(bundled@);
    let mut names: Vec<String> = Vec::new();
    let mut i: usize = 0;
    assert(all.take(0) =~= Seq::<Seq<char>>::empty());
    assert(texts(names@) =~= Seq::<Seq<char>>::empty());
    while i < system.len()
        invariant
            i <= system@.len(),
            all == texts(system@) + texts(bundled@),
            texts(names@) == catalog(all.take(i as int)),
        decreases system@.len() - i,
    {
        proof {
            assert(all.take(i + 1).drop_last() =~= all.take(i as int));
            assert(all.take(i + 1).last() == system@[i as int]@);
        }
        add_family(&mut names, &system[i]);
        i = i + 1;
    }
    let mut j: usize = 0;
    while j < bundled.len()
        invariant
            j <= bundled@.len(),
            all == texts(system@) + texts(bundled@),
            texts(names@) == catalog(all.take(system@.len() as int + j)),
        decreases bundled@.len() - j,
    {
        let ghost n = system@.len() as int + j;
        proof {
            assert(all.take(n + 1).drop_last() =~= all.take(n));
            assert(all.take(n + 1).last() == bundled@[j as int]@);
        }
        add_family(&mut names, &bundled[j]);
        j = j + 1;
    }
    assert(all.take(all.len() as int) =~= all);
    names
}

fn add_family(names: &mut Vec<String>, name: &String)
    ensures
        texts(final(names)@) == (if offers_family(name@) && !has_key(texts(old(names)@), name@) {
            name_inserted(texts(old(names)@), name@)
        } else {
            texts(old(names)@)
        }),
{
    let ghost before = texts(names@);
    if !is_offered(name.as_str()) {
        return ;
    }
    let key = fold_text(name.as_str());
    if knows_key(names, key.as_str()) {
        proof {
            let i = choose|i: int| 0 <= i < names@.len() && key_of((#[trigger] before[i])) == key@;
            assert(has_key(before, name@)) by {
                assert(key_of(before[i]) == key_of(name@));
            }
        }
        return ;
    }
    assert(!has_key(before, name@));
    let mut at: usize = names.len();
    let mut going = true;
    while going && at > 0
        invariant
            at <= names@.len(),
            before == texts(names@),
            names@.len() == before.len(),
            key@ == key_of(name@),
            forall|k: int|
                at <= k < before.len() ==> precedes(key_of(name@), key_of(#[trigger] before[k])),
            !going ==> at > 0 && !precedes(key_of(name@), key_of(before[at - 1])),
        decreases at + (if going {
            1int
        } else {
            0int
        }),
    {
        let other = fold_text(names[at - 1].as_str());
        assert(before[at - 1] == names@[at - 1]@);
        if comes_before(key.as_str(), other.as_str()) {
            at = at - 1;
        } else {
            going = false;
        }
    }
    proof {
        lemma_name_inserted_at(before, name@, at as int);
    }
    names.insert(at, name.clone());
    assert(texts(names@) =~= before.insert(at as int, name@));
}

proof fn lemma_inserted_members(names: Seq<Seq<char>>, name: Seq<char>)
    ensures
        name_inserted(names, name).len() == names.len() + 1,
        forall|i: int|
            0 <= i < name_inserted(names, name).len() ==> ((#[trigger] name_inserted(
                names,
                name,
            )[i]) == name || names.contains(name_inserted(names, name)[i])),
    decreases names.len(),
{
    let all = name_inserted(names, name);
    if names.len() == 0 || !precedes(key_of(name), key_of(names.last())) {
        assert forall|i: int| 0 <= i < all.len() implies ((#[trigger] all[i]) == name
            || names.contains(all[i])) by {
            if i < names.len() {
                assert(names[i] == all[i]);
            }
        }
    } else {
        let front = names.drop_last();
        let inner = name_inserted(front, name);
        lemma_inserted_members(front, name);
        assert forall|i: int| 0 <= i < all.len() implies ((#[trigger] all[i]) == name
            || names.contains(all[i])) by {
            if i < inner.len() {
                assert(all[i] == inner[i]);
                if inner[i] != name {
                    let k = choose|k: int| 0 <= k < front.len() && front[k] == inner[i];
                    assert(names[k] == all[i]);
                }
            } else {
                assert(names[names.len() - 1] == all[i]);
            }
        }
    }
}

/// Every family in the catalog is one of those that were found, has a name, and
/// no hidden one.
pub proof fn lemma_catalog_members(names: Seq<Seq<char>>)
    ensures
        forall|i: int|
            0 <= i < catalog(names).len() ==> offers_family(#[trigger] catalog(names)[i])
                && names.contains(catalog(names)[i]),
    decreases names.len(),
{
    if names.len() > 0 {
        let front = names.drop_last();
        let rest = catalog(front);
        lemma_catalog_members(front);
        lemma_inserted_members(rest, names.last());
        assert forall|i: int| 0 <= i < catalog(names).len() implies offers_family(
            #[trigger] catalog(names)[i],
        ) && names.contains(catalog(names)[i]) by {
            let found = catalog(names)[i];
            if found == names.last() && offers_family(names.last()) {
                assert(names[names.len() - 1] == found);
            } else {
                assert(rest.contains(found));
                let k = choose|k: int| 0 <= k < rest.len() && rest[k] == found;
                assert(offers_family(rest[k]) && front.contains(rest[k]));
                let m = choose|m: int| 0 <= m < front.len() && front[m] == found;
                assert(names[m] == found);
            }
        }
    }
}

/// Sets the font of a text and of all its parts.
pub fn font_apply_operations(
    doc: &Doc,
    id: NodeId,
    family: &str,
    italic: bool,
    weight: Option<u16>,
) -> (operations: Vec<Operation>)
    ensures
        exists|name: String| #[trigger]
            crate::design_data::edits_data(
                operations@,
                *doc,
                id,
                DataEdit::Text(
                    TextEdit::Style(
                        StyleEdit::Font { family: name, italic: italic, weight: weight },
                    ),
                ),
            ) && name@ == family@,
{
    let name = family.to_owned();
    let edit = DataEdit::Text(TextEdit::Style(StyleEdit::Font { family: name, italic, weight }));
    replace_data_operation(doc, id, &edit)
}

} // verus!
