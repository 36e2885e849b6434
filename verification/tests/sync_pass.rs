//! Tree walking and the sync pass.

use i3wsr_core::config::Config;
use i3wsr_core::patterns::parse_config;
use i3wsr_core::sync::{
    sync_commands, transport_error_action, window_event_action, workspace_event_action,
    EventAction, WindowChange, WorkspaceChange,
};
use i3wsr_core::tree::{Node, NodeType, WindowProperties};
use i3wsr_core::{collect_titles, get_workspaces};

fn window(class: &str) -> Node {
    Node {
        node_type: NodeType::Con,
        name: Some(class.to_string()),
        app_id: None,
        window_properties: Some(WindowProperties {
            class: Some(class.to_string()),
            instance: None,
            title: Some(class.to_string()),
        }),
        nodes: Vec::new(),
        floating_nodes: Vec::new(),
    }
}

fn workspace(name: &str, windows: Vec<Node>, floating: Vec<Node>) -> Node {
    Node {
        node_type: NodeType::Workspace,
        name: Some(name.to_string()),
        app_id: None,
        window_properties: None,
        nodes: windows,
        floating_nodes: floating,
    }
}

fn tree_of(workspaces: Vec<Node>) -> Node {
    let output = Node {
        node_type: NodeType::Output,
        name: Some("eDP-1".to_string()),
        app_id: None,
        window_properties: None,
        nodes: workspaces,
        floating_nodes: Vec::new(),
    };
    Node {
        node_type: NodeType::Root,
        name: Some("root".to_string()),
        app_id: None,
        window_properties: None,
        nodes: vec![output],
        floating_nodes: Vec::new(),
    }
}

#[test]
fn scratchpad_workspaces_are_excluded() {
    let tree = tree_of(vec![
        workspace("__i3_scratch", vec![window("Hidden")], Vec::new()),
        workspace("1", vec![window("Gpick")], Vec::new()),
        workspace("__sway_scratch", Vec::new(), Vec::new()),
        workspace("2", Vec::new(), Vec::new()),
    ]);
    let found = get_workspaces(tree);
    let names: Vec<&str> = found
        .iter()
        .map(|w| w.name.as_deref().unwrap())
        .collect();
    assert_eq!(names, vec!["1", "2"]);
}

#[test]
fn workspace_search_ignores_floating_children() {
    // The workspace search walks only the regular hierarchy, as the
    // compositor never parents a workspace under a floating container.
    let stray = workspace("9", Vec::new(), Vec::new());
    let mut root = tree_of(vec![workspace("1", Vec::new(), Vec::new())]);
    root.floating_nodes.push(stray);
    let found = get_workspaces(root);
    let names: Vec<&str> = found
        .iter()
        .map(|w| w.name.as_deref().unwrap())
        .collect();
    assert_eq!(names, vec!["1"]);
}

#[test]
fn collect_titles_includes_floating_and_skips_bare_nodes() {
    let config = Config::default();
    let res = parse_config(&config).unwrap();
    let bare = Node {
        node_type: NodeType::Con,
        name: None,
        app_id: None,
        window_properties: None,
        nodes: vec![window("XTerm")],
        floating_nodes: Vec::new(),
    };
    let ws = workspace("1", vec![window("Gpick"), bare], vec![window("Pavucontrol")]);
    let titles = collect_titles(&ws, &config, &res);
    assert_eq!(
        titles,
        vec![
            "Gpick".to_string(),
            "XTerm".to_string(),
            "Pavucontrol".to_string()
        ]
    );
}

#[test]
fn collect_titles_skips_window_without_properties() {
    let config = Config::default();
    let res = parse_config(&config).unwrap();
    let broken = Node {
        node_type: NodeType::Con,
        name: None,
        app_id: None,
        window_properties: Some(WindowProperties {
            class: None,
            instance: None,
            title: None,
        }),
        nodes: Vec::new(),
        floating_nodes: Vec::new(),
    };
    let ws = workspace("1", vec![window("Gpick"), broken], Vec::new());
    let titles = collect_titles(&ws, &config, &res);
    assert_eq!(titles, vec!["Gpick".to_string()]);
}

#[test]
fn sync_pass_renames_changed_workspaces() {
    let config = Config::default();
    let res = parse_config(&config).unwrap();
    let tree = tree_of(vec![workspace(
        "1",
        vec![window("Gpick"), window("XTerm")],
        Vec::new(),
    )]);
    let cmds = sync_commands(tree, &config, &res, false);
    assert_eq!(
        cmds,
        vec![r#"rename workspace "1" to "1 Gpick | XTerm""#.to_string()]
    );
}

#[test]
fn sync_pass_emits_focus_command_first() {
    let config = Config::default();
    let res = parse_config(&config).unwrap();
    let tree = tree_of(vec![workspace("1", vec![window("Gpick")], Vec::new())]);
    let cmds = sync_commands(tree, &config, &res, true);
    assert_eq!(
        cmds,
        vec![
            r#"workspace "1""#.to_string(),
            r#"rename workspace "1" to "1 Gpick""#.to_string()
        ]
    );
}

#[test]
fn sync_pass_is_idempotent() {
    let config = Config::default();
    let res = parse_config(&config).unwrap();
    let make_tree = |name: &str| {
        tree_of(vec![workspace(
            name,
            vec![window("Gpick"), window("XTerm")],
            Vec::new(),
        )])
    };

    // First pass renames the workspace.
    let cmds = sync_commands(make_tree("1"), &config, &res, false);
    assert_eq!(cmds.len(), 1);

    // A second pass over the renamed tree issues nothing.
    let cmds = sync_commands(make_tree("1 Gpick | XTerm"), &config, &res, false);
    assert!(cmds.is_empty());
}

#[test]
fn sync_pass_with_colon_split() {
    let mut config = Config::default();
    config.set_general("split_at".to_string(), ":".to_string());
    let res = parse_config(&config).unwrap();
    let tree = tree_of(vec![workspace("1: old stuff", vec![window("Gpick")], Vec::new())]);
    let cmds = sync_commands(tree, &config, &res, false);
    assert_eq!(
        cmds,
        vec![r#"rename workspace "1: old stuff" to "1: Gpick""#.to_string()]
    );

    // And that result is stable under a second pass.
    let tree = tree_of(vec![workspace("1: Gpick", vec![window("Gpick")], Vec::new())]);
    assert!(sync_commands(tree, &config, &res, false).is_empty());
}

#[test]
fn sync_pass_applies_empty_label() {
    let mut config = Config::default();
    config.set_general("empty_label".to_string(), "Empty".to_string());
    let res = parse_config(&config).unwrap();
    let tree = tree_of(vec![workspace("1", Vec::new(), Vec::new())]);
    let cmds = sync_commands(tree, &config, &res, false);
    assert_eq!(cmds, vec![r#"rename workspace "1" to "1 Empty""#.to_string()]);

    // Stable as well: the label sits after the space split character.
    let tree = tree_of(vec![workspace("1 Empty", Vec::new(), Vec::new())]);
    assert!(sync_commands(tree, &config, &res, false).is_empty());
}

#[test]
fn custom_separator_joins_titles() {
    let mut config = Config::default();
    config.set_general("separator".to_string(), " + ".to_string());
    let res = parse_config(&config).unwrap();
    let tree = tree_of(vec![workspace(
        "9",
        vec![window("A"), window("B")],
        Vec::new(),
    )]);
    let cmds = sync_commands(tree, &config, &res, false);
    assert_eq!(cmds, vec![r#"rename workspace "9" to "9 A + B""#.to_string()]);
}

#[test]
fn window_events_trigger_updates() {
    let update = EventAction::Update { focus: false };
    assert_eq!(window_event_action(WindowChange::New), update);
    assert_eq!(window_event_action(WindowChange::Close), update);
    assert_eq!(window_event_action(WindowChange::Move), update);
    assert_eq!(window_event_action(WindowChange::Title), update);
    assert_eq!(window_event_action(WindowChange::Floating), update);
    assert_eq!(window_event_action(WindowChange::Focus), EventAction::Ignore);
    assert_eq!(window_event_action(WindowChange::Urgent), EventAction::Ignore);
}

#[test]
fn workspace_events_trigger_updates_and_abort() {
    assert_eq!(
        workspace_event_action(WorkspaceChange::Empty, true),
        EventAction::Update { focus: false }
    );
    assert_eq!(
        workspace_event_action(WorkspaceChange::Focus, true),
        EventAction::Update { focus: true }
    );
    assert_eq!(
        workspace_event_action(WorkspaceChange::Focus, false),
        EventAction::Update { focus: false }
    );
    // A compositor reload is always fatal, whatever the options.
    assert_eq!(
        workspace_event_action(WorkspaceChange::Reload, false),
        EventAction::Abort
    );
    assert_eq!(
        workspace_event_action(WorkspaceChange::Reload, true),
        EventAction::Abort
    );
    assert_eq!(
        workspace_event_action(WorkspaceChange::Rename, false),
        EventAction::Ignore
    );
}

#[test]
fn transport_eof_aborts() {
    assert_eq!(transport_error_action(true), EventAction::Abort);
    assert_eq!(transport_error_action(false), EventAction::Ignore);
}
