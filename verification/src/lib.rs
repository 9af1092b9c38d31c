use vstd::prelude::*;

pub mod action_laws;
pub mod apply;
pub mod content_walk;
pub mod design_actions;
pub mod design_data;
pub mod design_edits;
pub mod design_effects;
pub mod design_header;
pub mod design_host;
pub mod design_layout_view;
pub mod design_lists;
pub mod design_media;
pub mod design_node;
pub mod design_paint_view;
pub mod design_paints;
pub mod design_properties;
pub mod design_session;
pub mod design_shaders;
pub mod design_snapshot;
pub mod design_targets;
pub mod design_undo;
pub mod design_values;
pub mod document;
pub mod echo_laws;
pub mod ids;
pub mod inspector_components;
pub mod inspector_laws;
pub mod inspector_widgets;
pub mod instance_text;
pub mod keyed;
pub mod layer_components;
pub mod layer_context_menu;
pub mod layer_context_ops;
pub mod layer_errors;
pub mod layer_laws;
pub mod layer_media;
pub mod layer_moves;
pub mod layer_outlines;
pub mod layer_simple;
pub mod layer_undo;
pub mod layers;
pub mod live_mcp;
pub mod meta;
pub mod operations;
pub mod pages;
pub mod paint;
pub mod paint_laws;
pub mod panel;
pub mod panel_laws;
pub mod refusal_laws;
pub mod sameness;
pub mod scalar;
pub mod scene;
pub mod session_laws;
pub mod switches;
pub mod text;
pub mod text_search;
pub mod toolbar;
pub mod view_laws;

verus! {

} // verus!
