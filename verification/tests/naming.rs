//! Title derivation and name composition.

use i3wsr_core::config::{Aliases, Args, Config, Properties};
use i3wsr_core::patterns::{compile_pattern, parse_config, CompiledPattern, RegexError};
use i3wsr_core::tree::{Node, NodeType, WindowProperties};
use i3wsr_core::{
    apply_options, find_alias, format_with_icon, format_workspace_name, get_icons, get_option,
    get_split_char, get_title,
};

fn pattern(pat: &str, replacement: &str) -> CompiledPattern {
    compile_pattern(pat, replacement).expect("pattern must compile")
}

fn x11_window(class: Option<&str>, instance: Option<&str>, title: Option<&str>) -> Node {
    Node {
        node_type: NodeType::Con,
        name: title.map(|s| s.to_string()),
        app_id: None,
        window_properties: Some(WindowProperties {
            class: class.map(|s| s.to_string()),
            instance: instance.map(|s| s.to_string()),
            title: title.map(|s| s.to_string()),
        }),
        nodes: Vec::new(),
        floating_nodes: Vec::new(),
    }
}

#[test]
fn test_find_alias() {
    let patterns = vec![
        pattern("Firefox", "firefox"),
        pattern("Chrome", "chrome"),
    ];

    // Test matching case
    let binding = "Firefox".to_string();
    let value = Some(&binding);
    assert_eq!(find_alias(value, &patterns), Some("firefox".to_string()));

    // Test non-matching case
    let binding = "Safari".to_string();
    let value = Some(&binding);
    assert_eq!(find_alias(value, &patterns), None);

    // Test None case
    let value: Option<&String> = None;
    assert_eq!(find_alias(value, &patterns), None);
}

#[test]
fn first_match_wins_in_category() {
    // Insertion order decides: the catch-all pattern comes second and never
    // shadows the specific one.
    let patterns = vec![pattern("Firefox", "firefox"), pattern(".*", "other")];
    let binding = "Firefox".to_string();
    assert_eq!(
        find_alias(Some(&binding), &patterns),
        Some("firefox".to_string())
    );
    let binding = "Safari".to_string();
    assert_eq!(
        find_alias(Some(&binding), &patterns),
        Some("other".to_string())
    );
}

#[test]
fn test_format_with_icon() {
    let icon = "\u{f269}";
    let title = "Firefox";

    // Test normal case
    assert_eq!(
        format_with_icon(icon, title, false, false),
        "\u{f269} Firefox"
    );

    // Test no_names = true
    assert_eq!(format_with_icon(icon, title, true, false), "\u{f269}");

    // Test no_icon_names = true
    assert_eq!(format_with_icon(icon, title, false, true), "\u{f269}");

    // Test both flags true
    assert_eq!(format_with_icon(icon, title, true, true), "\u{f269}");
}

#[test]
fn alias_precedence_name_over_class() {
    // A name alias beats the class fallback: the title is matched against
    // the name category first.
    let mut config = Config::default();
    config
        .aliases
        .name
        .push((".*mutt$".to_string(), "Mail".to_string()));
    let res = parse_config(&config).unwrap();
    let window = x11_window(Some("URxvt"), Some("urxvt"), Some("user@host - mutt"));
    assert_eq!(get_title(&window, &config, &res).unwrap(), "Mail");
}

#[test]
fn alias_precedence_instance_over_class() {
    let mut config = Config::default();
    config
        .aliases
        .instance
        .push(("^web$".to_string(), "WebTerm".to_string()));
    config
        .aliases
        .class
        .push(("URxvt".to_string(), "Terminal".to_string()));
    let res = parse_config(&config).unwrap();
    let window = x11_window(Some("URxvt"), Some("web"), Some("some title"));
    assert_eq!(get_title(&window, &config, &res).unwrap(), "WebTerm");

    // Without the instance match the class alias decides.
    let window = x11_window(Some("URxvt"), Some("shell"), Some("some title"));
    assert_eq!(get_title(&window, &config, &res).unwrap(), "Terminal");
}

#[test]
fn icon_name_suppression_matrix() {
    let res = parse_config(&Config::default()).unwrap();
    let window = x11_window(Some("Firefox"), None, Some("browser"));

    // Icon configured, both flags off: icon, space, title.
    let mut config = Config::default();
    config
        .icons
        .push(("Firefox".to_string(), "\u{1f98a}".to_string()));
    assert_eq!(
        get_title(&window, &config, &res).unwrap(),
        "\u{1f98a} Firefox"
    );

    // Icon configured, no_names: the icon alone.
    config.set_option("no_names".to_string(), true);
    assert_eq!(get_title(&window, &config, &res).unwrap(), "\u{1f98a}");

    // Icon configured, no_icon_names: the icon alone.
    let mut config = Config::default();
    config
        .icons
        .push(("Firefox".to_string(), "\u{1f98a}".to_string()));
    config.set_option("no_icon_names".to_string(), true);
    assert_eq!(get_title(&window, &config, &res).unwrap(), "\u{1f98a}");

    // No icon, no default icon, no_names off: the title alone.
    let config = Config::default();
    assert_eq!(get_title(&window, &config, &res).unwrap(), "Firefox");

    // No icon, no default icon, no_names: the empty string.
    let mut config = Config::default();
    config.set_option("no_names".to_string(), true);
    assert_eq!(get_title(&window, &config, &res).unwrap(), "");
}

#[test]
fn default_icon_applies_without_specific_icon() {
    let res = parse_config(&Config::default()).unwrap();
    let window = x11_window(Some("Firefox"), None, None);
    let mut config = Config::default();
    config
        .general
        .push(("default_icon".to_string(), "*".to_string()));
    assert_eq!(get_title(&window, &config, &res).unwrap(), "* Firefox");
}

#[test]
fn display_property_fallback() {
    let res = parse_config(&Config::default()).unwrap();
    let window = x11_window(Some("URxvt"), Some("irc"), Some("weechat"));

    let config = Config::default();
    assert_eq!(get_title(&window, &config, &res).unwrap(), "URxvt");

    let mut config = Config::default();
    config.set_general("display_property".to_string(), "instance".to_string());
    assert_eq!(get_title(&window, &config, &res).unwrap(), "irc");

    let mut config = Config::default();
    config.set_general("display_property".to_string(), "name".to_string());
    assert_eq!(get_title(&window, &config, &res).unwrap(), "weechat");
}

#[test]
fn wayland_window_uses_app_id() {
    let res = parse_config(&Config::default()).unwrap();
    let config = Config::default();
    let window = Node {
        node_type: NodeType::Con,
        name: Some("Mozilla Firefox".to_string()),
        app_id: Some("org.mozilla.firefox".to_string()),
        window_properties: None,
        nodes: Vec::new(),
        floating_nodes: Vec::new(),
    };
    assert_eq!(
        get_title(&window, &config, &res).unwrap(),
        "org.mozilla.firefox"
    );
}

#[test]
fn wayland_name_alias_beats_app_id() {
    let mut config = Config::default();
    config
        .aliases
        .name
        .push(("Mozilla".to_string(), "Browser".to_string()));
    let res = parse_config(&config).unwrap();
    let window = Node {
        node_type: NodeType::Con,
        name: Some("Mozilla Firefox".to_string()),
        app_id: Some("org.mozilla.firefox".to_string()),
        window_properties: None,
        nodes: Vec::new(),
        floating_nodes: Vec::new(),
    };
    assert_eq!(get_title(&window, &config, &res).unwrap(), "Browser");
}

#[test]
fn missing_properties_fail_title_resolution() {
    let res = parse_config(&Config::default()).unwrap();
    let config = Config::default();
    let window = x11_window(None, None, None);
    let err = get_title(&window, &config, &res).unwrap_err();
    assert_eq!(
        err.message(),
        "No title found: tried aliases and display_prop 'class'"
    );
}

#[test]
fn apply_options_dedup_then_filter() {
    let titles = vec![
        "Firefox".to_string(),
        "Firefox".to_string(),
        "Chrome".to_string(),
        "".to_string(),
    ];

    // Deduplication alone keeps the empty entry.
    let mut config = Config::default();
    config.set_option("remove_duplicates".to_string(), true);
    assert_eq!(
        apply_options(titles.clone(), &config),
        vec!["Firefox".to_string(), "Chrome".to_string(), "".to_string()]
    );

    // With no_names as well, the empty entry is dropped after the dedup.
    config.set_option("no_names".to_string(), true);
    assert_eq!(
        apply_options(titles.clone(), &config),
        vec!["Firefox".to_string(), "Chrome".to_string()]
    );

    // Without either option the titles pass through unchanged.
    let config = Config::default();
    assert_eq!(apply_options(titles.clone(), &config), titles);
}

#[test]
fn test_get_split_char() {
    let mut config = Config::default();

    // Test default (space)
    assert_eq!(get_split_char(&config), ' ');

    // Test with custom split char
    config.set_general("split_at".to_string(), ":".to_string());
    assert_eq!(get_split_char(&config), ':');

    // Test with empty string
    config.set_general("split_at".to_string(), "".to_string());
    assert_eq!(get_split_char(&config), ' ');
}

#[test]
fn test_format_workspace_name() {
    let mut config = Config::default();

    // Test normal case with space
    assert_eq!(
        format_workspace_name("1", " Firefox Chrome", ' ', &config),
        "1 Firefox Chrome"
    );

    // Test with colon separator
    assert_eq!(
        format_workspace_name("1", " Firefox Chrome", ':', &config),
        "1: Firefox Chrome"
    );

    // Test empty titles with no empty_label
    assert_eq!(format_workspace_name("1", "", ':', &config), "1");

    // Test empty titles with empty_label
    config.set_general("empty_label".to_string(), "Empty".to_string());
    assert_eq!(format_workspace_name("1", "", ':', &config), "1 Empty");

    // Test empty initial
    assert_eq!(
        format_workspace_name("", " Firefox Chrome", ':', &config),
        " Firefox Chrome"
    );
}

#[test]
fn invalid_pattern_is_a_configuration_error() {
    let mut config = Config::default();
    config
        .aliases
        .class
        .push(("(".to_string(), "broken".to_string()));
    let err = parse_config(&config).unwrap_err();
    let RegexError::Pattern(message) = err;
    assert!(message.starts_with("Invalid regex pattern '('"));
}

#[test]
fn get_icons_awesome_set() {
    let icons = get_icons("awesome");
    assert_eq!(icons.len(), 7);
    assert_eq!(icons[0], ("Firefox".to_string(), '\u{f269}'));
    assert_eq!(icons[6], ("Evince".to_string(), '\u{f1c1}'));
    assert!(get_icons("unknown").is_empty());
}

#[test]
fn aliases_lookup_by_category() {
    let mut aliases = Aliases::new();
    aliases
        .class
        .push(("Firefox".to_string(), "firefox".to_string()));
    assert_eq!(
        aliases.get_alias("class", "Firefox"),
        Some(&"firefox".to_string())
    );
    assert_eq!(aliases.get_alias("name", "Firefox"), None);
    assert_eq!(aliases.get_alias("bogus", "Firefox"), None);
}

#[test]
fn args_override_configuration() {
    let mut config = Config::default();
    config.set_option("no_names".to_string(), false);
    let args = Args {
        verbose: false,
        focus_fix: false,
        icons: None,
        config: None,
        no_icon_names: true,
        no_names: true,
        remove_duplicates: false,
        display_property: Some(Properties::Instance),
        split_at: Some(":".to_string()),
    };
    i3wsr_core::config::apply_args_to_config(&mut config, &args);
    assert!(get_option(&config, "no_icon_names"));
    assert!(get_option(&config, "no_names"));
    assert!(!get_option(&config, "remove_duplicates"));
    assert!(!get_option(&config, "focus_fix"));
    assert_eq!(config.get_general("split_at"), Some(":".to_string()));
    assert_eq!(
        config.get_general("display_property"),
        Some("instance".to_string())
    );
}
