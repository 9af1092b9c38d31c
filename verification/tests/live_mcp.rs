use fig_viewer::live_mcp::{
    connect_external_agent, connected_notice, discovery_text, edit_label, image_response,
    introduction, live_tools, no_surface_message, ping_answer, protocol_version, text_response,
    FantaLiveMcpSettings, LiveMcpState, LiveTool, McpStep, ToolContent,
};
use serde_json::Value;

#[test]
fn the_server_is_on_unless_it_is_turned_off() {
    assert!(FantaLiveMcpSettings::from_settings(None).enabled);
    assert!(FantaLiveMcpSettings::from_settings(Some(true)).enabled);
    assert!(!FantaLiveMcpSettings::from_settings(Some(false)).enabled);
}

#[test]
fn a_startup_that_finishes_after_the_setting_went_off_is_dropped() {
    let mut state = LiveMcpState::new();
    assert_eq!(state.apply_setting(false), McpStep::Keep);
    assert_eq!(state.apply_setting(true), McpStep::Start { epoch: 1 });
    assert_eq!(state.apply_setting(false), McpStep::Stop);
    assert!(!state.finish_start(1, true));
    assert!(!state.serving);
}

#[test]
fn only_the_newest_activation_installs_its_server() {
    let mut state = LiveMcpState::new();
    assert_eq!(state.apply_setting(true), McpStep::Start { epoch: 1 });
    assert_eq!(state.apply_setting(false), McpStep::Stop);
    assert_eq!(state.apply_setting(true), McpStep::Start { epoch: 3 });
    assert!(!state.finish_start(1, true));
    assert!(state.finish_start(3, true));
    assert_eq!(state.apply_setting(true), McpStep::Keep);
    assert_eq!(state.apply_setting(false), McpStep::Stop);
    assert!(!state.serving);
}

#[test]
fn a_startup_that_fails_can_be_tried_again() {
    let mut state = LiveMcpState::new();
    state.apply_setting(true);
    assert!(!state.finish_start(1, false));
    assert_eq!(state.apply_setting(true), McpStep::Start { epoch: 2 });
}

#[test]
fn the_discovery_file_names_socket_and_process() {
    let text = discovery_text("/tmp/x/mcp.sock", 1234);
    let value: Value = serde_json::from_str(&text).expect("valid JSON");
    assert_eq!(value["socket"].as_str(), Some("/tmp/x/mcp.sock"));
    assert_eq!(value["pid"].as_u64(), Some(1234));
    assert_eq!(value.as_object().map(|members| members.len()), Some(2));
    assert!(text.contains('\n'));
}

#[test]
fn known_protocols_are_spoken_and_others_fall_back() {
    for known in ["2024-11-05", "2025-03-26", "2025-06-18", "2026-01-01"] {
        assert_eq!(protocol_version(known, "2026-01-01"), known);
    }
    assert_eq!(protocol_version("1999-01-01", "2026-01-01"), "2026-01-01");
    let hello = introduction("2025-03-26", "2026-01-01", "0.1.0");
    assert_eq!(hello.protocol_version, "2025-03-26");
    assert_eq!((hello.name.as_str(), hello.title.as_str()), ("fanta", "Fanta"));
    assert!(!hello.tools_change);
}

#[test]
fn tools_say_what_they_do() {
    let names: Vec<String> = live_tools().iter().map(|tool| tool.name()).collect();
    assert_eq!(
        names,
        vec![
            "get_editor_state",
            "batch_get",
            "batch_design",
            "get_screenshot",
            "read_fnx_source"
        ]
    );
    let writes = LiveTool::BatchDesign.annotations();
    assert_eq!((writes.read_only, writes.destructive), (Some(false), Some(true)));
    let reads = LiveTool::BatchGet.annotations();
    assert_eq!((reads.read_only, reads.idempotent), (Some(true), None));
    assert_eq!(edit_label(None), "MCP edit");
    assert_eq!(edit_label(Some("Add card".to_string())), "Add card");
    assert!(no_surface_message().starts_with("no design canvas is open"));
}

#[test]
fn answers_carry_json_text_and_encoded_images() {
    let mut members = serde_json::Map::new();
    members.insert("a".to_string(), Value::from(1));
    assert_eq!(
        text_response(&Value::Object(members)),
        ToolContent::Text { text: "{\"a\":1}".to_string() }
    );
    assert_eq!(
        image_response(&vec![0x89, 0x50, 0x4e, 0x47]),
        ToolContent::Image {
            data: "iVBORw==".to_string(),
            mime_type: "image/png".to_string()
        }
    );
}

#[test]
fn connecting_an_agent_copies_its_command() {
    let ok = connect_external_agent(Ok("/opt/fanta"), "agent add fanta -- ", "Copied. ");
    assert_eq!(ok.clipboard.as_deref(), Some("agent add fanta -- /opt/fanta --mcp-stdio"));
    assert_eq!(
        ok.notice,
        "Copied. [mcp_servers.fanta] command = \"/opt/fanta\" args = [\"--mcp-stdio\"]"
    );
    let failed = connect_external_agent(Err("gone"), "agent add fanta -- ", "Copied. ");
    assert_eq!(failed.clipboard, None);
    assert_eq!(failed.notice, "Fanta could not locate its own executable: gone");
    assert_eq!(connected_notice("Scout"), "Agent connected: Scout");
}

#[test]
fn a_ping_is_answered_by_an_object() {
    let answer = ping_answer();
    assert!(answer.is_object());
    assert_eq!(answer.to_string(), "{}");
}
