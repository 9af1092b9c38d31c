use fig_viewer::switches::{
    blend_mode_offered, env_enabled, runtime_enabled, supported_paint_types, PaintType,
};
use fig_viewer::design_values::DesignBlendMode;
use fig_viewer::toolbar::{
    agent_options, chrome_controls, implemented_commands, motion_animation_styles, tool_kind,
    toolbar_mode, toolbar_tool, ChromeIcon, EditorMode, OptionInputs, ToolKind, ToolbarAdapter,
    ToolbarCommand, ToolbarMode, ToolbarTool,
};

#[test]
fn every_tool_kind_round_trips_through_the_toolbar() {
    for kind in [
        ToolKind::Select,
        ToolKind::PathSelect,
        ToolKind::NodeEdit,
        ToolKind::Hand,
        ToolKind::Scale,
        ToolKind::Rect,
        ToolKind::Ellipse,
        ToolKind::Line,
        ToolKind::Polygon,
        ToolKind::Star,
        ToolKind::Pen,
        ToolKind::Pencil,
        ToolKind::Frame,
        ToolKind::Section,
        ToolKind::Slice,
        ToolKind::Text,
        ToolKind::TextPath,
        ToolKind::Comment,
    ] {
        assert_eq!(
            tool_kind(toolbar_tool(kind)),
            Some(kind),
            "{kind:?} must survive the round trip"
        );
    }
}

#[test]
fn unmapped_toolbar_tools_are_exactly_the_roadmap_set() {
    let all = [
        ToolbarTool::Move,
        ToolbarTool::PathSelect,
        ToolbarTool::NodeEdit,
        ToolbarTool::Hand,
        ToolbarTool::Scale,
        ToolbarTool::Frame,
        ToolbarTool::Section,
        ToolbarTool::Slice,
        ToolbarTool::Rectangle,
        ToolbarTool::Line,
        ToolbarTool::Arrow,
        ToolbarTool::Ellipse,
        ToolbarTool::Polygon,
        ToolbarTool::Star,
        ToolbarTool::ImageVideo,
        ToolbarTool::Pen,
        ToolbarTool::Pencil,
        ToolbarTool::Text,
        ToolbarTool::TextPath,
        ToolbarTool::Comment,
        ToolbarTool::Annotation,
        ToolbarTool::Measure,
        ToolbarTool::Resources,
        ToolbarTool::Actions,
        ToolbarTool::Inspect,
        ToolbarTool::ColorPicker,
        ToolbarTool::Code,
        ToolbarTool::Variables,
        ToolbarTool::ReadyForDev,
        ToolbarTool::MotionSelect,
        ToolbarTool::AddKeyframe,
        ToolbarTool::MotionPath,
        ToolbarTool::AnimationStyle,
        ToolbarTool::TimeComment,
        ToolbarTool::AutoKeyframe,
        ToolbarTool::PlayPreview,
    ];
    let unmapped: Vec<ToolbarTool> =
        all.iter().copied().filter(|tool| tool_kind(*tool).is_none()).collect();
    assert_eq!(
        unmapped,
        vec![
            ToolbarTool::Arrow,
            ToolbarTool::ImageVideo,
            ToolbarTool::Annotation,
            ToolbarTool::Measure,
            ToolbarTool::Resources,
            ToolbarTool::Actions,
            ToolbarTool::Inspect,
            ToolbarTool::ColorPicker,
            ToolbarTool::Code,
            ToolbarTool::Variables,
            ToolbarTool::ReadyForDev,
            ToolbarTool::MotionSelect,
            ToolbarTool::AddKeyframe,
            ToolbarTool::MotionPath,
            ToolbarTool::AnimationStyle,
            ToolbarTool::TimeComment,
            ToolbarTool::AutoKeyframe,
            ToolbarTool::PlayPreview,
        ]
    );
}

#[test]
fn every_editor_mode_maps_to_a_toolbar_mode() {
    assert_eq!(toolbar_mode(EditorMode::Design), ToolbarMode::Design);
    assert_eq!(toolbar_mode(EditorMode::Motion), ToolbarMode::Motion);
    assert_eq!(toolbar_mode(EditorMode::Prototype), ToolbarMode::Design);
    assert_eq!(toolbar_mode(EditorMode::Comments), ToolbarMode::Design);
}

#[test]
fn chrome_controls_mirror_sidebar_visibility() {
    let shown = chrome_controls(true, true, Some("⇧1".to_string()));
    assert_eq!(
        shown.iter().map(|control| control.id.as_str()).collect::<Vec<_>>(),
        ["fit-to-view", "toggle-layers-sidebar", "toggle-inspector-sidebar"]
    );
    assert_eq!(shown[0].icon, ChromeIcon::Maximize);
    assert_eq!(shown[0].label, "Fit to View");
    assert!(!shown[0].active);
    assert_eq!(shown[0].shortcut.as_deref(), Some("⇧1"));
    assert_eq!(shown[1].icon, ChromeIcon::PanelLeftClose);
    assert_eq!(shown[1].label, "Hide Layers");
    assert!(shown[1].active);
    assert_eq!(shown[2].icon, ChromeIcon::PanelRightClose);
    assert_eq!(shown[2].label, "Hide Inspector");
    assert!(shown[2].active);

    let hidden = chrome_controls(false, false, None);
    assert_eq!(hidden[0].shortcut, None);
    assert_eq!(hidden[1].icon, ChromeIcon::PanelLeftOpen);
    assert_eq!(hidden[1].label, "Show Layers");
    assert!(!hidden[1].active);
    assert_eq!(hidden[2].icon, ChromeIcon::PanelRightOpen);
    assert_eq!(hidden[2].label, "Show Inspector");
    assert!(!hidden[2].active);
}

#[test]
fn the_zoom_command_family_is_advertised() {
    let commands = implemented_commands();
    assert!(commands.contains(&ToolbarCommand::ZoomToFit));
    assert!(commands.contains(&ToolbarCommand::ZoomToSelection));
    assert!(commands.contains(&ToolbarCommand::SelectAll));
    assert!(!commands.contains(&ToolbarCommand::Other(0)));
}

#[test]
fn animation_style_catalog_mirrors_the_motion_panel_presets() {
    assert_eq!(
        motion_animation_styles(),
        vec!["Slide in", "Scale in", "Rotate in", "Grow", "Fade in"]
    );
}

fn inputs() -> OptionInputs {
    OptionInputs {
        playing: false,
        looping: true,
        current_time_ms: 250,
        duration_ms: None,
        agent_context_label: "Page 1".to_string(),
        layers_sidebar_visible: true,
        inspector_sidebar_visible: false,
        fit_to_view_shortcut: None,
    }
}

#[test]
fn a_refresh_pushes_what_changed_and_then_nothing() {
    let mut adapter = ToolbarAdapter::new();
    let first = adapter.refresh(EditorMode::Design, ToolKind::Rect, 100, &inputs());
    assert_eq!(first.mode, None);
    assert_eq!(first.tool, Some(ToolbarTool::Rectangle));
    assert_eq!(first.zoom_percent, None);
    let motion = first.motion.expect("motion options");
    assert_eq!(motion.duration_ms, 0);
    assert_eq!(motion.animation_style, "Slide in");
    assert_eq!(motion.available_animation_styles, motion_animation_styles());
    assert!(!motion.auto_keyframe);
    assert!(first.dev);
    assert_eq!(first.agent, Some(agent_options("Page 1")));
    assert_eq!(first.chrome, Some(chrome_controls(true, false, None)));

    let second = adapter.refresh(EditorMode::Design, ToolKind::Rect, 100, &inputs());
    assert_eq!(second.tool, None);
    assert_eq!(second.motion, None);
    assert!(!second.dev);
    assert_eq!(second.agent, None);
    assert_eq!(second.chrome, None);

    let third = adapter.refresh(EditorMode::Motion, ToolKind::Rect, 50, &inputs());
    assert_eq!(third.mode, Some(ToolbarMode::Motion));
    assert_eq!(third.zoom_percent, Some(50));
    assert_eq!(third.tool, None);
}

#[test]
fn only_catalog_styles_are_accepted_and_only_once() {
    let mut adapter = ToolbarAdapter::new();
    assert!(!adapter.accept_animation_style("Slide in"));
    assert!(!adapter.accept_animation_style("Path"));
    assert!(adapter.accept_animation_style("Grow"));
    assert!(!adapter.accept_animation_style("Grow"));
    assert_eq!(adapter.animation_style, "Grow");
}

#[test]
fn agent_options_carry_the_fixed_texts() {
    let options = agent_options("Frame 2");
    assert_eq!(options.context_label, "Frame 2");
    assert_eq!(options.mention_hint, "Describe a change to the current selection");
    assert_eq!(
        options.suggestions,
        vec!["Rename the selected layers", "Suggest a color palette", "Describe this design"]
    );
}

#[test]
fn a_switch_turns_a_surface_off() {
    assert!(env_enabled(None));
    assert!(env_enabled(Some("1")));
    for off in ["0", "false", "off"] {
        assert!(!env_enabled(Some(off)));
    }
    assert!(runtime_enabled(None, true));
    assert!(!runtime_enabled(None, false));
    assert!(!runtime_enabled(Some("off"), true));
}

#[test]
fn a_text_takes_plain_colors_only() {
    assert_eq!(supported_paint_types(true, true), vec![PaintType::Solid]);
    assert!(supported_paint_types(false, true).contains(&PaintType::Video));
    assert!(!supported_paint_types(false, false).contains(&PaintType::Video));
    assert!(!blend_mode_offered(DesignBlendMode::LinearBurn));
    assert!(!blend_mode_offered(DesignBlendMode::LinearDodge));
    assert!(blend_mode_offered(DesignBlendMode::Multiply));
}
