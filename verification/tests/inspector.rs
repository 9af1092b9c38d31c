use fig_viewer::inspector_components::{
    CollapsibleIconTab, CollapsibleIconTabBar, InspectorMessage, InspectorPropertyRow,
    InspectorSectionHeader,
};
use fig_viewer::inspector_widgets::{
    align_glyph, scrub_step, text_align_glyph, turned, AlignGlyph, Bar, ScrubStep, TextAlignGlyph,
};
use fig_viewer::scalar::Scalar;

#[test]
fn section_owner_can_disable_the_headers_builtin_separator() {
    assert!(InspectorSectionHeader::<()>::new("Standalone").top_border);
    assert!(
        !InspectorSectionHeader::<()>::new("Stacked")
            .without_top_border()
            .top_border
    );
}

#[test]
fn builders_keep_what_they_are_given() {
    let header = InspectorSectionHeader::new("Fill").action(7);
    assert_eq!(header.action, Some(7));
    assert!(header.top_border);
    let row = InspectorPropertyRow::new("Width", "field");
    assert!(row.inset);
    assert_eq!(f64::from_bits(row.label_width.bits), 76.);
    let row = row.inset(false).label_width(Scalar::of(40f64.to_bits()));
    assert!(!row.inset);
    assert_eq!(f64::from_bits(row.label_width.bits), 40.);
    assert_eq!(InspectorMessage::new("Nothing selected").message, "Nothing selected");
}

#[test]
fn a_tab_is_as_wide_as_its_label_while_it_is_selected() {
    let tab = CollapsibleIconTab::new("tabs", 0, 'D', "Design", true, ());
    assert_eq!(tab.shown_label(), Some("Design"));
    assert_eq!(tab.expanded_width(), 78);
    assert_eq!(tab.animated_widths(), (32, 78));
    let other = CollapsibleIconTab::new("tabs", 1, 'P', "Prototype", false, ());
    assert_eq!(other.shown_label(), None);
    assert_eq!(other.animated_widths(), (99, 32));
    let bar = CollapsibleIconTabBar::new("bar").tab(tab).tab(other);
    assert_eq!(bar.tabs.iter().map(|tab| tab.index).collect::<Vec<_>>(), vec![0, 1]);
}

#[test]
fn vertical_glyphs_are_horizontal_ones_turned() {
    for (flat, upright) in [
        (AlignGlyph::Left, AlignGlyph::Top),
        (AlignGlyph::CenterH, AlignGlyph::CenterV),
        (AlignGlyph::Right, AlignGlyph::Bottom),
        (AlignGlyph::DistributeH, AlignGlyph::DistributeV),
    ] {
        let turned: Vec<Bar> = align_glyph(flat).into_iter().map(turned).collect();
        assert_eq!(turned, align_glyph(upright));
    }
    assert_eq!(
        align_glyph(AlignGlyph::Left)[0],
        Bar { x: 12, y: 10, width: 6, height: 44 }
    );
    assert_eq!(text_align_glyph(TextAlignGlyph::Bottom).len(), 2);
    assert_eq!(
        text_align_glyph(TextAlignGlyph::CenterH)[2],
        Bar { x: 15, y: 42, width: 34, height: 6 }
    );
}

#[test]
fn modifiers_choose_the_scrub_step() {
    assert_eq!(scrub_step(false, false), ScrubStep::One);
    assert_eq!(scrub_step(true, false), ScrubStep::Ten);
    assert_eq!(scrub_step(false, true), ScrubStep::Tenth);
    assert_eq!(scrub_step(true, true), ScrubStep::Ten);
}
