//! The local server through which outside agents reach the open design canvas:
//! when it runs, and what it answers.

use base64::Engine;
use serde_json::Value;
use vstd::prelude::*;
use vstd::string::*;

use crate::meta::{empty_object, insert_number, insert_text, pretty_text_of, text_of};
use crate::text::same_text;

verus! {

// ---------------------------------------------------------------------------
// The setting
// ---------------------------------------------------------------------------

#[derive(Clone, Copy, Debug, PartialEq, Eq, Structural)]
pub struct FantaLiveMcpSettings {
    pub enabled: bool,
}

impl FantaLiveMcpSettings {
    /// The server is on unless the settings turn it off.
    pub fn from_settings(enabled: Option<bool>) -> (settings: FantaLiveMcpSettings)
        ensures
            settings.enabled == (enabled != Some(false)),
    {
        FantaLiveMcpSettings {
            enabled: match enabled {
                Some(enabled) => enabled,
                None => true,
            },
        }
    }
}

// ---------------------------------------------------------------------------
// Starting and stopping
// ---------------------------------------------------------------------------

/// Whether the server runs, and which activation is the newest.
#[derive(Clone, Copy, Debug, PartialEq, Eq, Structural)]
pub struct LiveMcpState {
    pub serving: bool,
    /// The newest activation has not finished yet.
    pub starting: bool,
    pub epoch: usize,
}

/// What a change of the setting asks for.
#[derive(Clone, Copy, Debug, PartialEq, Eq, Structural)]
pub enum McpStep {
    Keep,
    /// Close the server and remove the discovery file.
    Stop,
    /// Bind a socket, for this activation.
    Start { epoch: usize },
}

/// The setting already holds of the server. A server that is about to start has
/// to be called off.
pub open spec fn settled(state: LiveMcpState, enabled: bool) -> bool {
    enabled == state.serving && !(state.starting && !enabled)
}

/// The state and the step after the setting has been read.
pub open spec fn setting_applied(state: LiveMcpState, enabled: bool) -> (LiveMcpState, McpStep) {
    if settled(state, enabled) {
        (state, McpStep::Keep)
    } else {
        let epoch = (state.epoch + 1) as usize;
        if enabled {
            (
                LiveMcpState { serving: state.serving, starting: true, epoch },
                McpStep::Start { epoch },
            )
        } else {
            (LiveMcpState { serving: false, starting: false, epoch }, McpStep::Stop)
        }
    }
}

/// The state after the activation `epoch` has come to an end, and whether its
/// server is installed.
pub open spec fn start_finished(state: LiveMcpState, epoch: usize, bound: bool) -> (
    LiveMcpState,
    bool,
) {
    if state.starting && state.epoch == epoch {
        (
            LiveMcpState {
                serving: state.serving || bound,
                starting: false,
                epoch: state.epoch,
            },
            bound,
        )
    } else {
        (state, false)
    }
}

impl LiveMcpState {
    pub fn new() -> (state: LiveMcpState)
        ensures
            state == (LiveMcpState { serving: false, starting: false, epoch: 0 }),
    {
        LiveMcpState { serving: false, starting: false, epoch: 0 }
    }

    /// Follows the setting.
    pub fn apply_setting(&mut self, enabled: bool) -> (step: McpStep)
        requires
            old(self).epoch < usize::MAX,
        ensures
            (*final(self), step) == setting_applied(*old(self), enabled),
    {
        if enabled == self.serving && !(self.starting && !enabled) {
            return McpStep::Keep;
        }
        self.epoch = self.epoch + 1;
        if !enabled {
            self.serving = false;
            self.starting = false;
            return McpStep::Stop;
        }
        self.starting = true;
        McpStep::Start { epoch: self.epoch }
    }

    /// Takes the end of an activation: only the newest one installs its server.
    pub fn finish_start(&mut self, epoch: usize, bound: bool) -> (installed: bool)
        ensures
            (*final(self), installed) == start_finished(*old(self), epoch, bound),
    {
        if !self.starting || self.epoch != epoch {
            return false;
        }
        self.starting = false;
        if bound {
            self.serving = true;
        }
        bound
    }
}

/// An activation that the setting has overtaken does not install its server,
/// whichever way the setting went.
pub proof fn lemma_overtaken_start_installs_nothing(
    state: LiveMcpState,
    epoch: usize,
    enabled: bool,
    bound: bool,
)
    requires
        epoch <= state.epoch < usize::MAX,
        !settled(state, enabled),
    ensures
        ({
            let (after, step) = setting_applied(state, enabled);
            start_finished(after, epoch, bound) == (after, false)
        }),
{
}

/// Once the setting is off, nothing runs and nothing that was started before can
/// come to run.
pub proof fn lemma_off_stays_off(state: LiveMcpState, epoch: usize, bound: bool)
    requires
        state.epoch < usize::MAX,
    ensures
        ({
            let (after, step) = setting_applied(state, false);
            !after.serving && !start_finished(after, epoch, bound).0.serving
        }),
{
}

/// The newest activation installs its server.
pub proof fn lemma_newest_start_installs(state: LiveMcpState)
    requires
        state.epoch < usize::MAX,
        !state.serving,
    ensures
        ({
            let (after, step) = setting_applied(state, true);
            step == (McpStep::Start { epoch: after.epoch }) && start_finished(
                after,
                after.epoch,
                true,
            ) == (LiveMcpState { serving: true, starting: false, epoch: after.epoch }, true)
        }),
{
}

// ---------------------------------------------------------------------------
// What clients read
// ---------------------------------------------------------------------------

/// The object that tells clients where the server listens.
pub open spec fn announces(value: Value, socket: Seq<char>, pid: u32) -> bool {
    &&& crate::meta::json_object(value)
    &&& crate::meta::json_names(value) == Set::<Seq<char>>::empty().insert("socket"@).insert(
        "pid"@,
    )
    &&& crate::meta::json_texts(value) == crate::meta::no_texts().insert("socket"@, socket)
    &&& crate::meta::json_numbers(value) == crate::meta::no_numbers().insert("pid"@, pid as nat)
    &&& crate::meta::json_flags(value) == crate::meta::no_flags()
    &&& crate::meta::json_others(value) == crate::meta::no_texts()
}

/// The contents of the discovery file.
pub fn discovery_text(socket: &str, pid: u32) -> (text: String)
    ensures
        exists|value: Value|
            #[trigger] announces(value, socket@, pid) && text@ == crate::meta::json_pretty(value),
{
    let mut value = empty_object();
    insert_text(&mut value, "socket", socket);
    insert_number(&mut value, "pid", pid);
    proof {
        reveal_strlit("socket");
        reveal_strlit("pid");
        assert("socket"@.len() != "pid"@.len());
        assert(crate::meta::json_texts(value) =~= crate::meta::no_texts().insert(
            "socket"@,
            socket@,
        ));
        assert(crate::meta::json_numbers(value) =~= crate::meta::no_numbers().insert(
            "pid"@,
            pid as nat,
        ));
        assert(crate::meta::json_flags(value) =~= crate::meta::no_flags());
        assert(crate::meta::json_others(value) =~= crate::meta::no_texts());
        assert(announces(value, socket@, pid));
    }
    pretty_text_of(&value)
}

/// The protocol that is spoken: the one that the client asks for, if it is
/// known, and else the latest.
pub open spec fn agreed(requested: Seq<char>, latest: Seq<char>) -> Seq<char> {
    if requested == "2024-11-05"@ || requested == "2025-03-26"@ || requested == "2025-06-18"@ {
        requested
    } else {
        latest
    }
}

pub fn protocol_version(requested: &str, latest: &str) -> (version: String)
    ensures
        version@ == agreed(requested@, latest@),
{
    if same_text(requested, "2024-11-05") || same_text(requested, "2025-03-26") || same_text(
        requested,
        "2025-06-18",
    ) {
        requested.to_owned()
    } else {
        latest.to_owned()
    }
}

/// A client that asks for the latest protocol gets it.
pub proof fn lemma_latest_is_agreed(latest: Seq<char>)
    ensures
        agreed(latest, latest) == latest,
{
}

/// How the server introduces itself.
#[derive(Debug, PartialEq)]
pub struct Introduction {
    pub protocol_version: String,
    pub name: String,
    pub title: String,
    pub version: String,
    /// Whether the list of tools may change while a client is connected.
    pub tools_change: bool,
}

pub fn introduction(requested: &str, latest: &str, version: &str) -> (r: Introduction)
    ensures
        r.protocol_version@ == agreed(requested@, latest@),
        r.name@ == "fanta"@,
        r.title@ == "Fanta"@,
        r.version@ == version@,
        !r.tools_change,
{
    Introduction {
        protocol_version: protocol_version(requested, latest),
        name: "fanta".to_owned(),
        title: "Fanta".to_owned(),
        version: version.to_owned(),
        tools_change: false,
    }
}

/// An object without members.
pub open spec fn bare_object(value: Value) -> bool {
    &&& crate::meta::json_object(value)
    &&& crate::meta::json_names(value) == Set::<Seq<char>>::empty()
    &&& crate::meta::json_texts(value) == crate::meta::no_texts()
    &&& crate::meta::json_numbers(value) == crate::meta::no_numbers()
    &&& crate::meta::json_flags(value) == crate::meta::no_flags()
    &&& crate::meta::json_others(value) == crate::meta::no_texts()
}

/// The answer to a ping. Clients take nothing but an object.
pub fn ping_answer() -> (value: Value)
    ensures
        bare_object(value),
{
    empty_object()
}

// ---------------------------------------------------------------------------
// Tools
// ---------------------------------------------------------------------------

#[derive(Clone, Copy, Debug, PartialEq, Eq, Structural)]
pub enum LiveTool {
    GetEditorState,
    BatchGet,
    BatchDesign,
    GetScreenshot,
    ReadFnxSource,
}

/// What a tool says of itself, where it says anything.
#[derive(Clone, Copy, Debug, PartialEq, Eq, Structural)]
pub struct ToolAnnotations {
    pub read_only: Option<bool>,
    pub destructive: Option<bool>,
    pub idempotent: Option<bool>,
    pub open_world: Option<bool>,
}

/// The names by which clients call the tools.
pub open spec fn tool_name(tool: LiveTool) -> Seq<char> {
    match tool {
        LiveTool::GetEditorState => "get_editor_state"@,
        LiveTool::BatchGet => "batch_get"@,
        LiveTool::BatchDesign => "batch_design"@,
        LiveTool::GetScreenshot => "get_screenshot"@,
        LiveTool::ReadFnxSource => "read_fnx_source"@,
    }
}

/// Only one tool writes, and none reaches beyond the document.
pub open spec fn tool_annotations(tool: LiveTool) -> ToolAnnotations {
    if tool == LiveTool::BatchDesign {
        ToolAnnotations {
            read_only: Some(false),
            destructive: Some(true),
            idempotent: Some(false),
            open_world: Some(false),
        }
    } else {
        ToolAnnotations {
            read_only: Some(true),
            destructive: Some(false),
            idempotent: None,
            open_world: Some(false),
        }
    }
}

impl LiveTool {
    pub fn name(&self) -> (name: String)
        ensures
            name@ == tool_name(*self),
    {
        match self {
            LiveTool::GetEditorState => "get_editor_state".to_owned(),
            LiveTool::BatchGet => "batch_get".to_owned(),
            LiveTool::BatchDesign => "batch_design".to_owned(),
            LiveTool::GetScreenshot => "get_screenshot".to_owned(),
            LiveTool::ReadFnxSource => "read_fnx_source".to_owned(),
        }
    }

    pub fn annotations(&self) -> (annotations: ToolAnnotations)
        ensures
            annotations == tool_annotations(*self),
    {
        match self {
            LiveTool::BatchDesign => ToolAnnotations {
                read_only: Some(false),
                destructive: Some(true),
                idempotent: Some(false),
                open_world: Some(false),
            },
            _ => ToolAnnotations {
                read_only: Some(true),
                destructive: Some(false),
                idempotent: None,
                open_world: Some(false),
            },
        }
    }
}

/// The tools, in the order in which the server adds them.
pub fn live_tools() -> (tools: Vec<LiveTool>)
    ensures
        tools@ == seq![
            LiveTool::GetEditorState,
            LiveTool::BatchGet,
            LiveTool::BatchDesign,
            LiveTool::GetScreenshot,
            LiveTool::ReadFnxSource,
        ],
{
    let tools: Vec<LiveTool> = vec![
        LiveTool::GetEditorState,
        LiveTool::BatchGet,
        LiveTool::BatchDesign,
        LiveTool::GetScreenshot,
        LiveTool::ReadFnxSource,
    ];
    assert(tools@ =~= seq![
        LiveTool::GetEditorState,
        LiveTool::BatchGet,
        LiveTool::BatchDesign,
        LiveTool::GetScreenshot,
        LiveTool::ReadFnxSource,
    ]);
    tools
}

/// No two tools answer to one name.
pub proof fn lemma_tool_names_differ(a: LiveTool, b: LiveTool)
    requires
        tool_name(a) == tool_name(b),
    ensures
        a == b,
{
    reveal_strlit("get_editor_state");
    reveal_strlit("batch_get");
    reveal_strlit("batch_design");
    reveal_strlit("get_screenshot");
    reveal_strlit("read_fnx_source");
    assert("get_editor_state"@.len() == 16 && "batch_get"@.len() == 9 && "batch_design"@.len()
        == 12 && "get_screenshot"@.len() == 14 && "read_fnx_source"@.len() == 15);
}

/// The name that a batch of edits gets in the history: the one that the client
/// gives, and else a plain one.
pub fn edit_label(label: Option<String>) -> (r: String)
    ensures
        match label {
            Some(label) => r == label,
            None => r@ == "MCP edit"@,
        },
{
    match label {
        Some(label) => label,
        None => "MCP edit".to_owned(),
    }
}

/// What a tool answers with.
#[derive(Debug, PartialEq)]
pub enum ToolContent {
    Text { text: String },
    Image { data: String, mime_type: String },
}

/// Why a tool fails before it has begun.
pub fn no_surface_message() -> (message: String)
    ensures
        message@
            == "no design canvas is open; open a .fig file or Fanta project in Fanta first"@,
{
    "no design canvas is open; open a .fig file or Fanta project in Fanta first".to_owned()
}

/// A value as the text of an answer.
pub fn text_response(value: &Value) -> (content: ToolContent)
    ensures
        content matches ToolContent::Text { text } && text@ == crate::meta::json_text(*value),
{
    ToolContent::Text { text: text_of(value) }
}

/// What `base64`'s standard engine writes for some bytes.
pub uninterp spec fn base64_text(bytes: Seq<u8>) -> Seq<char>;

/// `Engine::encode` of `base64`'s `STANDARD`: the bytes in the standard alphabet,
/// padded, so that each three bytes that are begun take four characters.
#[verifier::external_body]
fn encode_base64(bytes: &Vec<u8>) -> (text: String)
    requires
        bytes@.len() <= isize::MAX,
    ensures
        text@ == base64_text(bytes@),
        text@.len() == (bytes@.len() + 2) / 3 * 4,
{
    base64::engine::general_purpose::STANDARD.encode(bytes)
}

/// A screenshot as the image of an answer.
pub fn image_response(png: &Vec<u8>) -> (content: ToolContent)
    requires
        png@.len() <= isize::MAX,
    ensures
        content matches ToolContent::Image { data, mime_type } && data@ == base64_text(png@)
            && data@.len() == (png@.len() + 2) / 3 * 4 && mime_type@ == "image/png"@,
{
    ToolContent::Image { data: encode_base64(png), mime_type: "image/png".to_owned() }
}

// ---------------------------------------------------------------------------
// Connecting an agent
// ---------------------------------------------------------------------------

fn joined(first: &str, middle: &str, last: &str) -> (text: String)
    ensures
        text@ == first@ + middle@ + last@,
{
    let mut text = first.to_owned();
    text.append(middle);
    text.append(last);
    text
}

/// The notice when an agent has connected.
pub fn connected_notice(client: &str) -> (notice: String)
    ensures
        notice@ == "Agent connected: "@ + client@,
{
    let notice = joined("Agent connected: ", client, "");
    proof {
        reveal_strlit("");
        assert(notice@ =~= "Agent connected: "@ + client@);
    }
    notice
}

/// What is shown and copied when an agent is to be connected.
#[derive(Debug, PartialEq)]
pub struct ConnectAgent {
    pub clipboard: Option<String>,
    pub notice: String,
}

/// The commands that connect an agent to this executable, or why there are none.
/// `add_command` is the agent's own command up to the executable, and `copied` the
/// sentence that comes before the entry for agents that are configured by file.
pub fn connect_external_agent(executable: Result<&str, &str>, add_command: &str, copied: &str) -> (r:
    ConnectAgent)
    ensures
        match executable {
            Ok(executable) => {
                &&& r.clipboard matches Some(command) && command@ == add_command@ + executable@
                    + " --mcp-stdio"@
                &&& r.notice@ == copied@ + "[mcp_servers.fanta] command = \""@ + executable@
                    + "\" args = [\"--mcp-stdio\"]"@
            },
            Err(error) => {
                &&& r.clipboard is None
                &&& r.notice@ == "Fanta could not locate its own executable: "@ + error@
            },
        },
{
    match executable {
        Ok(executable) => {
            let mut notice = joined(copied, "[mcp_servers.fanta] command = \"", executable);
            notice.append("\" args = [\"--mcp-stdio\"]");
            ConnectAgent {
                clipboard: Some(joined(add_command, executable, " --mcp-stdio")),
                notice,
            }
        },
        Err(error) => {
            let notice = joined("Fanta could not locate its own executable: ", error, "");
            proof {
                reveal_strlit("");
                assert(notice@ =~= "Fanta could not locate its own executable: "@ + error@);
            }
            ConnectAgent { clipboard: None, notice }
        },
    }
}

} // verus!
