//! The toolbar: its faces for the canvas tools, and what has to be pushed into it
//! when the editor's state changes.

use vstd::prelude::*;
use vstd::string::*;

use crate::paint::copy_text_option;
use crate::text::same_text;

verus! {

// ---------------------------------------------------------------------------
// Tools and modes
// ---------------------------------------------------------------------------

#[derive(Clone, Copy, Debug, PartialEq, Eq, Structural)]
pub enum ToolKind {
    Select,
    PathSelect,
    NodeEdit,
    Hand,
    Scale,
    Rect,
    Ellipse,
    Line,
    Polygon,
    Star,
    Pen,
    Pencil,
    Frame,
    Section,
    Slice,
    Text,
    TextPath,
    Comment,
}

#[derive(Clone, Copy, Debug, PartialEq, Eq, Structural)]
pub enum ToolbarTool {
    Move,
    PathSelect,
    NodeEdit,
    Hand,
    Scale,
    Frame,
    Section,
    Slice,
    Rectangle,
    Line,
    Arrow,
    Ellipse,
    Polygon,
    Star,
    ImageVideo,
    Pen,
    Pencil,
    Text,
    TextPath,
    Comment,
    Annotation,
    Measure,
    Resources,
    Actions,
    Inspect,
    ColorPicker,
    Code,
    Variables,
    ReadyForDev,
    MotionSelect,
    AddKeyframe,
    MotionPath,
    AnimationStyle,
    TimeComment,
    AutoKeyframe,
    PlayPreview,
}

/// The face of a canvas tool.
pub open spec fn face_of(kind: ToolKind) -> ToolbarTool {
    match kind {
        ToolKind::Select => ToolbarTool::Move,
        ToolKind::PathSelect => ToolbarTool::PathSelect,
        ToolKind::NodeEdit => ToolbarTool::NodeEdit,
        ToolKind::Hand => ToolbarTool::Hand,
        ToolKind::Scale => ToolbarTool::Scale,
        ToolKind::Rect => ToolbarTool::Rectangle,
        ToolKind::Ellipse => ToolbarTool::Ellipse,
        ToolKind::Line => ToolbarTool::Line,
        ToolKind::Polygon => ToolbarTool::Polygon,
        ToolKind::Star => ToolbarTool::Star,
        ToolKind::Pen => ToolbarTool::Pen,
        ToolKind::Pencil => ToolbarTool::Pencil,
        ToolKind::Frame => ToolbarTool::Frame,
        ToolKind::Section => ToolbarTool::Section,
        ToolKind::Slice => ToolbarTool::Slice,
        ToolKind::Text => ToolbarTool::Text,
        ToolKind::TextPath => ToolbarTool::TextPath,
        ToolKind::Comment => ToolbarTool::Comment,
    }
}

/// Every canvas tool has a face in the toolbar.
pub fn toolbar_tool(kind: ToolKind) -> (tool: ToolbarTool)
    ensures
        tool == face_of(kind),
{
    match kind {
        ToolKind::Select => ToolbarTool::Move,
        ToolKind::PathSelect => ToolbarTool::PathSelect,
        ToolKind::NodeEdit => ToolbarTool::NodeEdit,
        ToolKind::Hand => ToolbarTool::Hand,
        ToolKind::Scale => ToolbarTool::Scale,
        ToolKind::Rect => ToolbarTool::Rectangle,
        ToolKind::Ellipse => ToolbarTool::Ellipse,
        ToolKind::Line => ToolbarTool::Line,
        ToolKind::Polygon => ToolbarTool::Polygon,
        ToolKind::Star => ToolbarTool::Star,
        ToolKind::Pen => ToolbarTool::Pen,
        ToolKind::Pencil => ToolbarTool::Pencil,
        ToolKind::Frame => ToolbarTool::Frame,
        ToolKind::Section => ToolbarTool::Section,
        ToolKind::Slice => ToolbarTool::Slice,
        ToolKind::Text => ToolbarTool::Text,
        ToolKind::TextPath => ToolbarTool::TextPath,
        ToolKind::Comment => ToolbarTool::Comment,
    }
}

/// The tool whose face it is, where it is the face of one.
pub fn tool_kind(tool: ToolbarTool) -> (kind: Option<ToolKind>)
    ensures
        match kind {
            Some(kind) => face_of(kind) == tool,
            None => forall|kind: ToolKind| face_of(kind) != tool,
        },
{
    match tool {
        ToolbarTool::Move => Some(ToolKind::Select),
        ToolbarTool::PathSelect => Some(ToolKind::PathSelect),
        ToolbarTool::NodeEdit => Some(ToolKind::NodeEdit),
        ToolbarTool::Hand => Some(ToolKind::Hand),
        ToolbarTool::Scale => Some(ToolKind::Scale),
        ToolbarTool::Rectangle => Some(ToolKind::Rect),
        ToolbarTool::Ellipse => Some(ToolKind::Ellipse),
        ToolbarTool::Line => Some(ToolKind::Line),
        ToolbarTool::Polygon => Some(ToolKind::Polygon),
        ToolbarTool::Star => Some(ToolKind::Star),
        ToolbarTool::Pen => Some(ToolKind::Pen),
        ToolbarTool::Pencil => Some(ToolKind::Pencil),
        ToolbarTool::Frame => Some(ToolKind::Frame),
        ToolbarTool::Section => Some(ToolKind::Section),
        ToolbarTool::Slice => Some(ToolKind::Slice),
        ToolbarTool::Text => Some(ToolKind::Text),
        ToolbarTool::TextPath => Some(ToolKind::TextPath),
        ToolbarTool::Comment => Some(ToolKind::Comment),
        _ => None,
    }
}

/// No two tools share a face, so that a face leads back to its tool.
pub proof fn lemma_faces_differ(a: ToolKind, b: ToolKind)
    requires
        face_of(a) == face_of(b),
    ensures
        a == b,
{
}

#[derive(Clone, Copy, Debug, PartialEq, Eq, Structural)]
pub enum EditorMode {
    Design,
    Motion,
    Prototype,
    Comments,
}

#[derive(Clone, Copy, Debug, PartialEq, Eq, Structural)]
pub enum ToolbarMode {
    Design,
    Dev,
    Motion,
}

/// Prototypes and comments keep the strip of the design mode.
pub open spec fn strip_of(mode: EditorMode) -> ToolbarMode {
    if mode == EditorMode::Motion {
        ToolbarMode::Motion
    } else {
        ToolbarMode::Design
    }
}

pub fn toolbar_mode(mode: EditorMode) -> (strip: ToolbarMode)
    ensures
        strip == strip_of(mode),
{
    match mode {
        EditorMode::Motion => ToolbarMode::Motion,
        EditorMode::Design => ToolbarMode::Design,
        EditorMode::Prototype => ToolbarMode::Design,
        EditorMode::Comments => ToolbarMode::Design,
    }
}

#[derive(Clone, Copy, Debug, PartialEq, Eq, Structural)]
pub enum ToolbarCommand {
    Undo,
    Redo,
    Cut,
    Copy,
    Paste,
    Duplicate,
    Delete,
    SelectAll,
    ZoomToFit,
    ZoomToSelection,
    Export,
    Present,
    OpenDesignMode,
    OpenMotionMode,
    /// Any other command of the palette.
    Other(u32),
}

/// The commands that are advertised, in order.
pub open spec fn advertised() -> Seq<ToolbarCommand> {
    seq![
        ToolbarCommand::Undo,
        ToolbarCommand::Redo,
        ToolbarCommand::Cut,
        ToolbarCommand::Copy,
        ToolbarCommand::Paste,
        ToolbarCommand::Duplicate,
        ToolbarCommand::Delete,
        ToolbarCommand::SelectAll,
        ToolbarCommand::ZoomToFit,
        ToolbarCommand::ZoomToSelection,
        ToolbarCommand::Export,
        ToolbarCommand::Present,
        ToolbarCommand::OpenDesignMode,
        ToolbarCommand::OpenMotionMode,
    ]
}

pub fn implemented_commands() -> (commands: Vec<ToolbarCommand>)
    ensures
        commands@ == advertised(),
{
    let commands: Vec<ToolbarCommand> = vec![
        ToolbarCommand::Undo,
        ToolbarCommand::Redo,
        ToolbarCommand::Cut,
        ToolbarCommand::Copy,
        ToolbarCommand::Paste,
        ToolbarCommand::Duplicate,
        ToolbarCommand::Delete,
        ToolbarCommand::SelectAll,
        ToolbarCommand::ZoomToFit,
        ToolbarCommand::ZoomToSelection,
        ToolbarCommand::Export,
        ToolbarCommand::Present,
        ToolbarCommand::OpenDesignMode,
        ToolbarCommand::OpenMotionMode,
    ];
    assert(commands@ =~= advertised());
    commands
}

/// A command is advertised only if it is one of those that are named here.
pub proof fn lemma_nothing_else_advertised(code: u32)
    ensures
        !advertised().contains(ToolbarCommand::Other(code)),
{
}

// ---------------------------------------------------------------------------
// Options
// ---------------------------------------------------------------------------

/// The entrances that can be given to a layer at a click.
pub open spec fn animation_styles() -> Seq<Seq<char>> {
    seq!["Slide in"@, "Scale in"@, "Rotate in"@, "Grow"@, "Fade in"@]
}

pub fn motion_animation_styles() -> (styles: Vec<String>)
    ensures
        crate::panel::texts_of(styles@) == animation_styles(),
{
    let mut styles: Vec<String> = Vec::new();
    styles.push("Slide in".to_owned());
    styles.push("Scale in".to_owned());
    styles.push("Rotate in".to_owned());
    styles.push("Grow".to_owned());
    styles.push("Fade in".to_owned());
    assert(crate::panel::texts_of(styles@) =~= animation_styles());
    styles
}

#[derive(Clone, Copy, Debug, PartialEq, Eq, Structural)]
pub enum ChromeIcon {
    Maximize,
    PanelLeftClose,
    PanelLeftOpen,
    PanelRightClose,
    PanelRightOpen,
}

/// A control at the end of the toolbar.
#[derive(Debug, PartialEq)]
pub struct ChromeControl {
    pub id: String,
    pub icon: ChromeIcon,
    pub label: String,
    pub active: bool,
    pub shortcut: Option<String>,
}

/// The control with its fields as texts.
pub open spec fn chrome_is(
    control: ChromeControl,
    id: Seq<char>,
    icon: ChromeIcon,
    label: Seq<char>,
    active: bool,
    shortcut: Option<String>,
) -> bool {
    &&& control.id@ == id
    &&& control.icon == icon
    &&& control.label@ == label
    &&& control.active == active
    &&& control.shortcut == shortcut
}

/// Fitting the view, and showing or hiding either sidebar. An icon shows what a
/// click does, and a sidebar that is there is marked.
pub open spec fn chrome_shown(
    layers: bool,
    inspector: bool,
    shortcut: Option<String>,
    controls: Seq<ChromeControl>,
) -> bool {
    &&& controls.len() == 3
    &&& chrome_is(
        controls[0],
        "fit-to-view"@,
        ChromeIcon::Maximize,
        "Fit to View"@,
        false,
        shortcut,
    )
    &&& if layers {
        chrome_is(
            controls[1],
            "toggle-layers-sidebar"@,
            ChromeIcon::PanelLeftClose,
            "Hide Layers"@,
            true,
            None,
        )
    } else {
        chrome_is(
            controls[1],
            "toggle-layers-sidebar"@,
            ChromeIcon::PanelLeftOpen,
            "Show Layers"@,
            false,
            None,
        )
    }
    &&& if inspector {
        chrome_is(
            controls[2],
            "toggle-inspector-sidebar"@,
            ChromeIcon::PanelRightClose,
            "Hide Inspector"@,
            true,
            None,
        )
    } else {
        chrome_is(
            controls[2],
            "toggle-inspector-sidebar"@,
            ChromeIcon::PanelRightOpen,
            "Show Inspector"@,
            false,
            None,
        )
    }
}

fn chrome(id: &str, icon: ChromeIcon, label: &str, active: bool, shortcut: Option<String>) -> (
control: ChromeControl)
    ensures
        chrome_is(control, id@, icon, label@, active, shortcut),
{
    ChromeControl { id: id.to_owned(), icon, label: label.to_owned(), active, shortcut }
}

pub fn chrome_controls(layers: bool, inspector: bool, shortcut: Option<String>) -> (controls: Vec<
    ChromeControl,
>)
    ensures
        chrome_shown(layers, inspector, shortcut, controls@),
{
    let mut controls: Vec<ChromeControl> = Vec::new();
    controls.push(chrome("fit-to-view", ChromeIcon::Maximize, "Fit to View", false, shortcut));
    if layers {
        controls.push(
            chrome(
                "toggle-layers-sidebar",
                ChromeIcon::PanelLeftClose,
                "Hide Layers",
                true,
                None,
            ),
        );
    } else {
        controls.push(
            chrome(
                "toggle-layers-sidebar",
                ChromeIcon::PanelLeftOpen,
                "Show Layers",
                false,
                None,
            ),
        );
    }
    if inspector {
        controls.push(
            chrome(
                "toggle-inspector-sidebar",
                ChromeIcon::PanelRightClose,
                "Hide Inspector",
                true,
                None,
            ),
        );
    } else {
        controls.push(
            chrome(
                "toggle-inspector-sidebar",
                ChromeIcon::PanelRightOpen,
                "Show Inspector",
                false,
                None,
            ),
        );
    }
    controls
}

/// What the composer for agents shows.
#[derive(Debug, PartialEq)]
pub struct AgentOptions {
    pub context_label: String,
    pub mention_hint: String,
    pub suggestions: Vec<String>,
}

pub open spec fn agent_shown(label: Seq<char>, options: AgentOptions) -> bool {
    &&& options.context_label@ == label
    &&& options.mention_hint@ == "Describe a change to the current selection"@
    &&& crate::panel::texts_of(options.suggestions@) == seq![
        "Rename the selected layers"@,
        "Suggest a color palette"@,
        "Describe this design"@,
    ]
}

pub fn agent_options(context_label: &str) -> (options: AgentOptions)
    ensures
        agent_shown(context_label@, options),
{
    let mut suggestions: Vec<String> = Vec::new();
    suggestions.push("Rename the selected layers".to_owned());
    suggestions.push("Suggest a color palette".to_owned());
    suggestions.push("Describe this design".to_owned());
    assert(crate::panel::texts_of(suggestions@) =~= seq![
        "Rename the selected layers"@,
        "Suggest a color palette"@,
        "Describe this design"@,
    ]);
    AgentOptions {
        context_label: context_label.to_owned(),
        mention_hint: "Describe a change to the current selection".to_owned(),
        suggestions,
    }
}

// ---------------------------------------------------------------------------
// Refreshing
// ---------------------------------------------------------------------------

#[derive(Clone, Copy, Debug, PartialEq, Eq, Structural)]
pub struct StripState {
    pub mode: ToolbarMode,
    pub tool: ToolbarTool,
    pub zoom_percent: u16,
}

/// The editor's state behind the toolbar's options.
#[derive(Debug, PartialEq)]
pub struct OptionInputs {
    pub playing: bool,
    pub looping: bool,
    pub current_time_ms: u32,
    /// Missing where there is no clip.
    pub duration_ms: Option<u32>,
    pub agent_context_label: String,
    pub layers_sidebar_visible: bool,
    pub inspector_sidebar_visible: bool,
    pub fit_to_view_shortcut: Option<String>,
}

/// The transport as it is shown. Without a clip it has no length; keyframes are
/// never recorded.
#[derive(Debug, PartialEq)]
pub struct MotionOptions {
    pub playing: bool,
    pub looping: bool,
    pub auto_keyframe: bool,
    pub current_time_ms: u32,
    pub duration_ms: u32,
    pub animation_style: String,
    pub available_animation_styles: Vec<String>,
}

/// The sidebars and the shortcut as they were last shown.
#[derive(Debug, PartialEq)]
pub struct ChromeInputs {
    pub layers: bool,
    pub inspector: bool,
    pub shortcut: Option<String>,
}

/// What was last pushed into the toolbar.
#[derive(Debug, PartialEq)]
pub struct ToolbarAdapter {
    pub strip: StripState,
    pub motion: Option<MotionOptions>,
    pub dev_pushed: bool,
    pub agent: Option<String>,
    pub chrome: Option<ChromeInputs>,
    pub animation_style: String,
}

/// What has to be pushed.
#[derive(Debug, PartialEq)]
pub struct ToolbarPushes {
    pub mode: Option<ToolbarMode>,
    pub tool: Option<ToolbarTool>,
    pub zoom_percent: Option<u16>,
    pub motion: Option<MotionOptions>,
    /// That nothing is ready for development.
    pub dev: bool,
    pub agent: Option<AgentOptions>,
    pub chrome: Option<Vec<ChromeControl>>,
}

/// The transport that an editor's state shows.
pub open spec fn motion_shown(options: OptionInputs, style: Seq<char>, motion: MotionOptions) -> bool {
    &&& motion.playing == options.playing
    &&& motion.looping == options.looping
    &&& !motion.auto_keyframe
    &&& motion.current_time_ms == options.current_time_ms
    &&& motion.duration_ms == (match options.duration_ms {
        Some(duration) => duration,
        None => 0,
    })
    &&& motion.animation_style@ == style
    &&& crate::panel::texts_of(motion.available_animation_styles@) == animation_styles()
}

pub open spec fn same_option(a: Option<String>, b: Option<String>) -> bool {
    match (a, b) {
        (Some(a), Some(b)) => a@ == b@,
        (None, None) => true,
        _ => false,
    }
}

fn same_text_option(a: &Option<String>, b: &Option<String>) -> (r: bool)
    ensures
        r == same_option(*a, *b),
{
    match (a, b) {
        (Some(a), Some(b)) => same_text(a.as_str(), b.as_str()),
        (None, None) => true,
        _ => false,
    }
}

pub open spec fn chrome_unchanged(last: Option<ChromeInputs>, options: OptionInputs) -> bool {
    last matches Some(last) && last.layers == options.layers_sidebar_visible && last.inspector
        == options.inspector_sidebar_visible && same_option(
        last.shortcut,
        options.fit_to_view_shortcut,
    )
}

/// What was last pushed already shows the editor's state.
pub open spec fn up_to_date(
    adapter: ToolbarAdapter,
    mode: EditorMode,
    tool: ToolKind,
    zoom_percent: u16,
    options: OptionInputs,
) -> bool {
    &&& adapter.strip == (StripState {
        mode: strip_of(mode),
        tool: face_of(tool),
        zoom_percent: zoom_percent,
    })
    &&& adapter.motion matches Some(motion) && motion_shown(
        options,
        adapter.animation_style@,
        motion,
    )
    &&& adapter.dev_pushed
    &&& adapter.agent matches Some(label) && label@ == options.agent_context_label@
    &&& chrome_unchanged(adapter.chrome, options)
}

/// What has to be pushed: what has changed, and nothing else.
pub open spec fn pushes_of(
    before: ToolbarAdapter,
    mode: EditorMode,
    tool: ToolKind,
    zoom_percent: u16,
    options: OptionInputs,
    pushes: ToolbarPushes,
) -> bool {
    &&& pushes.mode == (if before.strip.mode == strip_of(mode) {
        None
    } else {
        Some(strip_of(mode))
    })
    &&& pushes.tool == (if before.strip.tool == face_of(tool) {
        None
    } else {
        Some(face_of(tool))
    })
    &&& pushes.zoom_percent == (if before.strip.zoom_percent == zoom_percent {
        None
    } else {
        Some(zoom_percent)
    })
    &&& if before.motion matches Some(motion) && motion_shown(
        options,
        before.animation_style@,
        motion,
    ) {
        pushes.motion is None
    } else {
        pushes.motion matches Some(motion) && motion_shown(
            options,
            before.animation_style@,
            motion,
        )
    }
    &&& pushes.dev == !before.dev_pushed
    &&& if before.agent matches Some(label) && label@ == options.agent_context_label@ {
        pushes.agent is None
    } else {
        pushes.agent matches Some(agent) && agent_shown(options.agent_context_label@, agent)
    }
    &&& if chrome_unchanged(before.chrome, options) {
        pushes.chrome is None
    } else {
        pushes.chrome matches Some(controls) && chrome_shown(
            options.layers_sidebar_visible,
            options.inspector_sidebar_visible,
            options.fit_to_view_shortcut,
            controls@,
        )
    }
}

fn show_motion(options: &OptionInputs, style: &str) -> (motion: MotionOptions)
    ensures
        motion_shown(*options, style@, motion),
{
    MotionOptions {
        playing: options.playing,
        looping: options.looping,
        auto_keyframe: false,
        current_time_ms: options.current_time_ms,
        duration_ms: match options.duration_ms {
            Some(duration) => duration,
            None => 0,
        },
        animation_style: style.to_owned(),
        available_animation_styles: motion_animation_styles(),
    }
}

fn same_texts(a: &Vec<String>, b: &Vec<String>) -> (r: bool)
    ensures
        r == (crate::panel::texts_of(a@) == crate::panel::texts_of(b@)),
{
    let ghost left = crate::panel::texts_of(a@);
    let ghost right = crate::panel::texts_of(b@);
    if a.len() != b.len() {
        assert(left.len() != right.len());
        return false;
    }
    let mut i: usize = 0;
    while i < a.len()
        invariant
            i <= a@.len(),
            a@.len() == b@.len(),
            left == crate::panel::texts_of(a@),
            right == crate::panel::texts_of(b@),
            forall|k: int| 0 <= k < i ==> left[k] == right[k],
        decreases a@.len() - i,
    {
        if !same_text(a[i].as_str(), b[i].as_str()) {
            assert(left[i as int] != right[i as int]);
            return false;
        }
        i = i + 1;
    }
    assert(left =~= right);
    true
}

fn shows_motion(motion: &MotionOptions, options: &OptionInputs, style: &str) -> (r: bool)
    ensures
        r == motion_shown(*options, style@, *motion),
{
    let duration: u32 = match options.duration_ms {
        Some(duration) => duration,
        None => 0,
    };
    motion.playing == options.playing && motion.looping == options.looping && !motion.auto_keyframe
        && motion.current_time_ms == options.current_time_ms && motion.duration_ms == duration
        && same_text(motion.animation_style.as_str(), style) && same_texts(
        &motion.available_animation_styles,
        &motion_animation_styles(),
    )
}

impl ToolbarAdapter {
    /// The toolbar as it starts.
    pub fn new() -> (adapter: ToolbarAdapter)
        ensures
            adapter.strip == (StripState {
                mode: ToolbarMode::Design,
                tool: ToolbarTool::Move,
                zoom_percent: 100,
            }),
            adapter.motion is None,
            !adapter.dev_pushed,
            adapter.agent is None,
            adapter.chrome is None,
            adapter.animation_style@ == animation_styles()[0],
    {
        ToolbarAdapter {
            strip: StripState {
                mode: ToolbarMode::Design,
                tool: ToolbarTool::Move,
                zoom_percent: 100,
            },
            motion: None,
            dev_pushed: false,
            agent: None,
            chrome: None,
            animation_style: "Slide in".to_owned(),
        }
    }

    /// Takes another style, if it is one that is offered; whether it changed.
    pub fn accept_animation_style(&mut self, style: &str) -> (changed: bool)
        ensures
            changed == (old(self).animation_style@ != style@ && animation_styles().contains(
                style@,
            )),
            final(self).animation_style@ == (if changed {
                style@
            } else {
                old(self).animation_style@
            }),
            *final(self) == (ToolbarAdapter {
                animation_style: final(self).animation_style,
                ..*old(self)
            }),
    {
        if same_text(self.animation_style.as_str(), style) {
            return false;
        }
        let styles = motion_animation_styles();
        let mut i: usize = 0;
        let mut found = false;
        while i < styles.len()
            invariant
                i <= styles@.len(),
                *self == *old(self),
                crate::panel::texts_of(styles@) == animation_styles(),
                found == exists|k: int|
                    0 <= k < i && #[trigger] crate::panel::texts_of(styles@)[k] == style@,
            decreases styles@.len() - i,
        {
            assert(crate::panel::texts_of(styles@)[i as int] == styles@[i as int]@);
            if same_text(styles[i].as_str(), style) {
                found = true;
                assert(crate::panel::texts_of(styles@)[i as int] == style@);
            }
            i = i + 1;
        }
        proof {
            if animation_styles().contains(style@) {
                let k = choose|k: int|
                    0 <= k < animation_styles().len() && animation_styles()[k] == style@;
                assert(crate::panel::texts_of(styles@)[k] == style@);
            }
        }
        if !found {
            return false;
        }
        self.animation_style = style.to_owned();
        true
    }

    /// Brings the toolbar up to date: what has changed is pushed.
    pub fn refresh(
        &mut self,
        mode: EditorMode,
        tool: ToolKind,
        zoom_percent: u16,
        options: &OptionInputs,
    ) -> (pushes: ToolbarPushes)
        ensures
            pushes_of(*old(self), mode, tool, zoom_percent, *options, pushes),
            up_to_date(*final(self), mode, tool, zoom_percent, *options),
            final(self).animation_style == old(self).animation_style,
    {
        let next = StripState {
            mode: toolbar_mode(mode),
            tool: toolbar_tool(tool),
            zoom_percent,
        };
        let last = self.strip;
        self.strip = next;
        let motion_same = match &self.motion {
            Some(motion) => shows_motion(motion, options, self.animation_style.as_str()),
            None => false,
        };
        let motion = if motion_same {
            None
        } else {
            self.motion = Some(show_motion(options, self.animation_style.as_str()));
            Some(show_motion(options, self.animation_style.as_str()))
        };
        let dev = !self.dev_pushed;
        self.dev_pushed = true;
        let agent_same = match &self.agent {
            Some(label) => same_text(label.as_str(), options.agent_context_label.as_str()),
            None => false,
        };
        let agent = if agent_same {
            None
        } else {
            self.agent = Some(options.agent_context_label.clone());
            Some(agent_options(options.agent_context_label.as_str()))
        };
        let chrome_same = match &self.chrome {
            Some(last) => last.layers == options.layers_sidebar_visible && last.inspector
                == options.inspector_sidebar_visible && same_text_option(
                &last.shortcut,
                &options.fit_to_view_shortcut,
            ),
            None => false,
        };
        let chrome = if chrome_same {
            None
        } else {
            self.chrome = Some(
                ChromeInputs {
                    layers: options.layers_sidebar_visible,
                    inspector: options.inspector_sidebar_visible,
                    shortcut: copy_text_option(&options.fit_to_view_shortcut),
                },
            );
            Some(
                chrome_controls(
                    options.layers_sidebar_visible,
                    options.inspector_sidebar_visible,
                    copy_text_option(&options.fit_to_view_shortcut),
                ),
            )
        };
        ToolbarPushes {
            mode: if last.mode == next.mode {
                None
            } else {
                Some(next.mode)
            },
            tool: if last.tool == next.tool {
                None
            } else {
                Some(next.tool)
            },
            zoom_percent: if last.zoom_percent == next.zoom_percent {
                None
            } else {
                Some(next.zoom_percent)
            },
            motion,
            dev,
            agent,
            chrome,
        }
    }
}

/// A toolbar that is up to date is pushed nothing.
pub proof fn lemma_refresh_settles(
    adapter: ToolbarAdapter,
    mode: EditorMode,
    tool: ToolKind,
    zoom_percent: u16,
    options: OptionInputs,
    pushes: ToolbarPushes,
)
    requires
        up_to_date(adapter, mode, tool, zoom_percent, options),
        pushes_of(adapter, mode, tool, zoom_percent, options, pushes),
    ensures
        pushes.mode is None,
        pushes.tool is None,
        pushes.zoom_percent is None,
        pushes.motion is None,
        !pushes.dev,
        pushes.agent is None,
        pushes.chrome is None,
{
}

} // verus!
