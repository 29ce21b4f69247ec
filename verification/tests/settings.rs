//! Settings: validation, profiles, plugin sections.

use aoe_host::json::{Json, JsonMap};
use aoe_host::profile_config::{
    apply_cityhall_overrides, format_result, get_profile_config_path, load_profile_config, merge_configs,
    merge_configs_generic, profile_has_overrides, resolve_config, resolve_config_or_warn, validate_check_interval,
    validate_env_format, validate_memory_limit, validate_network_format, validate_overrides_typecheck,
    validate_port_mapping_format, validate_volume_format, ProfileConfig,
};
use aoe_host::settings::merge::merge_json;
use aoe_host::settings::plugin::{
    plugin_field_descriptors, plugin_section_id, rewrite_plugin_sections, section_plugin_id, storage_leaf,
    PLUGIN_CATEGORY, PLUGIN_SECTION_PREFIX,
    storage_value, ObjectFieldContribution, ObjectFieldType, SettingContribution, SettingType,
};
use aoe_host::settings::schema::{
    ObjectFieldDescriptor, ObjectFieldWidget, OptionSource, ValidationKind, WidgetKind,
};
use aoe_host::settings::validate::validate_value;
use serde_json::Value;

fn from_value(v: &Value) -> Json {
    match v {
        Value::Null => Json::Null,
        Value::Bool(b) => Json::Bool(*b),
        Value::Number(n) => match (n.as_u64(), n.as_i64()) {
            (Some(u), _) => Json::Unsigned(u),
            (None, Some(i)) => Json::Negative(i),
            (None, None) => Json::Float(n.to_string()),
        },
        Value::String(s) => Json::Text(s.clone()),
        Value::Array(a) => Json::Array(a.iter().map(from_value).collect()),
        Value::Object(m) => Json::Object(JsonMap {
            entries: m.iter().map(|(k, v)| (k.clone(), from_value(v))).collect(),
        }),
    }
}

fn to_value(v: &Json) -> Value {
    match v {
        Json::Null => Value::Null,
        Json::Bool(b) => Value::Bool(*b),
        Json::Unsigned(n) => Value::from(*n),
        Json::Negative(n) => Value::from(*n),
        Json::Float(t) => Value::Number(t.parse().expect("a number")),
        Json::Text(s) => Value::from(s.as_str()),
        Json::Array(a) => Value::Array(a.iter().map(to_value).collect()),
        Json::Object(m) => Value::Object(m.entries.iter().map(|(k, v)| (k.clone(), to_value(v))).collect()),
    }
}

fn value(text: &str) -> Value {
    serde_json::from_str(text).expect("JSON")
}

fn json(text: &str) -> Json {
    from_value(&value(text))
}

fn profile_from(text: &str) -> ProfileConfig {
    ProfileConfig::from_json(&json(text)).expect("profile override deserializes")
}

/// A configuration with the sections that the tests look at, at their defaults.
fn default_config() -> Json {
    json(
        "{\"updates\":{\"update_check_mode\":\"auto\",\"check_interval_hours\":24,\"notify_in_cli\":true},\
          \"worktree\":{\"enabled\":false},\
          \"status_hooks\":{\"enabled\":false,\"on_waiting\":null,\"debounce_ms\":300},\
          \"agents\":{},\
          \"theme\":{\"name\":\"empire\"},\
          \"tmux\":{\"mouse\":\"auto\",\"clipboard\":\"auto\"},\
          \"sandbox\":{\"volume_ignores\":[],\"extra_volumes\":[],\"port_mappings\":[]},\
          \"environment\":[],\
          \"acp\":{\"default_agent\":\"\",\"max_concurrent_workers\":5,\"max_concurrent_resumes\":4,\"replay_events\":1000}}",
    )
}

fn at(v: &Json, path: &[&str]) -> Value {
    let mut cur = to_value(v);
    for p in path {
        cur = cur.get(*p).cloned().unwrap_or(Value::Null);
    }
    cur
}

fn set(v: &mut Json, section: &str, field: &str, leaf: Value) {
    let mut root = to_value(v);
    root[section][field] = leaf;
    *v = from_value(&root);
}

#[test]
fn range_rejects_below_min() {
    let kind = ValidationKind::RangeU64 { min: 1, max: Some(128) };
    assert!(validate_value(&kind, &json("0")).is_err());
    assert!(validate_value(&kind, &json("1")).is_ok());
    assert!(validate_value(&kind, &json("128")).is_ok());
    assert!(validate_value(&kind, &json("129")).is_err());
}

#[test]
fn range_rejects_non_integer() {
    let kind = ValidationKind::RangeU64 { min: 0, max: None };
    assert!(validate_value(&kind, &json("\"nope\"")).is_err());
    assert!(validate_value(&kind, &json("-1")).is_err());
}

#[test]
fn non_empty_string_trims() {
    assert!(validate_value(&ValidationKind::NonEmptyString, &json("\"  \"")).is_err());
    assert!(validate_value(&ValidationKind::NonEmptyString, &json("\"x\"")).is_ok());
}

#[test]
fn memory_limit_grammar() {
    assert!(validate_value(&ValidationKind::MemoryLimit, &json("\"512m\"")).is_ok());
    assert!(validate_value(&ValidationKind::MemoryLimit, &json("\"\"")).is_ok());
    assert!(validate_value(&ValidationKind::MemoryLimit, &json("\"512mb\"")).is_err());
}

#[test]
fn volume_list_grammar() {
    assert!(validate_value(&ValidationKind::VolumeList, &json("[\"/h:/c\"]")).is_ok());
    assert!(validate_value(&ValidationKind::VolumeList, &json("[\"bad\"]")).is_err());
}

#[test]
fn env_list_grammar() {
    assert!(validate_value(&ValidationKind::EnvList, &json("[\"KEY\"]")).is_ok());
    assert!(validate_value(&ValidationKind::EnvList, &json("[\"KEY=value\"]")).is_ok());
    assert!(validate_value(&ValidationKind::EnvList, &json("[\"_K=v\", \"A1=b\"]")).is_ok());
    assert!(validate_value(&ValidationKind::EnvList, &json("[\"1BAD=v\"]")).is_err());
    assert!(validate_value(&ValidationKind::EnvList, &json("[\"has space\"]")).is_err());
    assert!(validate_value(&ValidationKind::EnvList, &json("\"notalist\"")).is_err());
}

#[test]
fn one_of_membership() {
    let kind = ValidationKind::OneOf { options: vec!["fast".into(), "slow".into()] };
    assert!(validate_value(&kind, &json("\"fast\"")).is_ok());
    assert!(validate_value(&kind, &json("\"turbo\"")).is_err());
    assert!(validate_value(&kind, &json("3")).is_err());
}

#[test]
fn port_mapping_list_grammar() {
    assert!(validate_value(&ValidationKind::PortMappingList, &json("[\"3000:3000\"]")).is_ok());
    assert!(validate_value(&ValidationKind::PortMappingList, &json("[\"8080:80\"]")).is_ok());
    assert!(validate_value(&ValidationKind::PortMappingList, &json("[\"3000\"]")).is_err());
    assert!(validate_value(&ValidationKind::PortMappingList, &json("[\"a:b\"]")).is_err());
}

#[test]
fn network_grammar() {
    assert!(validate_value(&ValidationKind::Network, &json("\"\"")).is_ok());
    assert!(validate_value(&ValidationKind::Network, &json("\"none\"")).is_ok());
    assert!(validate_value(&ValidationKind::Network, &json("\"egress-proxy\"")).is_ok());
    assert!(validate_value(&ValidationKind::Network, &json("\"host\"")).is_err());
    assert!(validate_value(&ValidationKind::Network, &json("42")).is_err());
}

#[test]
fn cron_grammar() {
    let ok = ["0 9 * * 1-5", "*/15 * * * *", "0 0,12 1 */2 *", "* * * * *"];
    for e in ok {
        assert!(validate_value(&ValidationKind::Cron, &Json::Text(e.to_string())).is_ok(), "{e}");
    }
    let bad = [
        "0 9 * *",     // too few fields
        "0 9 * * * *", // too many fields
        "60 * * * *",  // minute out of range
        "* 24 * * *",  // hour out of range
        "* * 0 * *",   // dom below 1
        "* * * 13 *",  // month out of range
        "* * * * 7",   // dow out of range
        "5-1 * * * *", // reversed range
        "*/0 * * * *", // zero step
        "abc * * * *", // non-numeric
    ];
    for e in bad {
        assert!(validate_value(&ValidationKind::Cron, &Json::Text(e.to_string())).is_err(), "{e}");
    }
    assert!(validate_value(&ValidationKind::Cron, &json("5")).is_err());
}

#[test]
fn cron_errors_name_what_is_wrong() {
    let reason = |e: &str| validate_value(&ValidationKind::Cron, &Json::Text(e.to_string())).unwrap_err().reason;
    assert_eq!(reason("* *"), "cron must have 5 fields (got 2); e.g. \"0 9 * * 1-5\"");
    assert_eq!(reason("1,,2 * * * *"), "empty cron field item");
    assert_eq!(reason("*/x * * * *"), "invalid cron step \"x\"");
    assert_eq!(reason("*/0 * * * *"), "cron step must be positive");
    assert_eq!(reason("1-x * * * *"), "invalid cron value \"x\"");
    assert_eq!(reason("1-99 * * * *"), "cron value out of range 0-59");
    assert_eq!(reason("5-1 * * * *"), "cron range 5-1 is reversed");
    assert_eq!(reason("99 * * * *"), "cron value 99 out of range 0-59");
    assert_eq!(reason("99/10 * * * *"), "cron value 99 out of range 0-59");
    assert_eq!(reason("5/0 * * * *"), "cron step must be positive");
    assert_eq!(reason("4294967296 * * * *"), "invalid cron value \"4294967296\"");
    assert!(validate_value(&ValidationKind::Cron, &Json::Text("+5 1-3/2 * * *".to_string())).is_ok());
    assert!(validate_value(&ValidationKind::Cron, &Json::Text("5/10 * * * *".to_string())).is_ok());
}

fn object_field(field: &str, label: &str, widget: ObjectFieldWidget, validation: ValidationKind) -> ObjectFieldDescriptor {
    ObjectFieldDescriptor {
        field: field.into(),
        label: label.into(),
        description: String::new(),
        required: true,
        widget,
        validation,
        default: None,
    }
}

fn jobs_validation() -> ValidationKind {
    ValidationKind::ObjectList {
        id_field: "id".into(),
        fields: vec![
            object_field(
                "agent",
                "Agent",
                ObjectFieldWidget::Text { multiline: false, mono: false },
                ValidationKind::NonEmptyString,
            ),
            object_field("schedule", "Schedule", ObjectFieldWidget::Cron, ValidationKind::Cron),
        ],
        min_items: Some(0),
        max_items: Some(2),
    }
}

#[test]
fn object_list_structural_rules() {
    let kind = jobs_validation();
    // Happy path.
    assert!(validate_value(
        &kind,
        &json("[{\"id\": \"a\", \"agent\": \"opencode\", \"schedule\": \"0 9 * * 1-5\"}]")
    )
    .is_ok());
    // Missing stable id.
    assert!(validate_value(&kind, &json("[{\"agent\": \"opencode\", \"schedule\": \"* * * * *\"}]")).is_err());
    // Duplicate id.
    assert!(validate_value(
        &kind,
        &json(
            "[{\"id\": \"x\", \"agent\": \"a\", \"schedule\": \"* * * * *\"},\
              {\"id\": \"x\", \"agent\": \"b\", \"schedule\": \"* * * * *\"}]"
        )
    )
    .is_err());
    // Missing required field.
    assert!(validate_value(&kind, &json("[{\"id\": \"a\", \"agent\": \"opencode\"}]")).is_err());
    // Undeclared field.
    assert!(validate_value(
        &kind,
        &json("[{\"id\": \"a\", \"agent\": \"c\", \"schedule\": \"* * * * *\", \"bogus\": 1}]")
    )
    .is_err());
    // Nested field validation runs (bad cron).
    assert!(validate_value(&kind, &json("[{\"id\": \"a\", \"agent\": \"c\", \"schedule\": \"bad\"}]")).is_err());
    // max_items.
    assert!(validate_value(
        &kind,
        &json(
            "[{\"id\": \"1\", \"agent\": \"a\", \"schedule\": \"* * * * *\"},\
              {\"id\": \"2\", \"agent\": \"b\", \"schedule\": \"* * * * *\"},\
              {\"id\": \"3\", \"agent\": \"c\", \"schedule\": \"* * * * *\"}]"
        )
    )
    .is_err());
    // Not an array.
    assert!(validate_value(&kind, &json("{\"id\": \"a\"}")).is_err());
}

#[test]
fn object_list_errors_name_what_is_wrong() {
    let kind = jobs_validation();
    let reason = |text: &str| validate_value(&kind, &json(text)).unwrap_err().reason;
    assert_eq!(reason("{}"), "expected a list of items");
    assert_eq!(reason("[1]"), "item 0 must be an object");
    assert_eq!(reason("[{\"id\":\" \"}]"), "item 0 is missing a non-empty \"id\"");
    assert_eq!(
        reason("[{\"id\":\"a\",\"agent\":\"x\",\"schedule\":\"* * * * *\"},{\"id\":\"a\"}]"),
        "duplicate item id \"a\""
    );
    assert_eq!(
        reason("[{\"id\":\"a\",\"zeta\":1,\"beta\":1}]"),
        "item 0 has an undeclared field \"beta\""
    );
    assert_eq!(reason("[{\"id\":\"a\"}]"), "item 0 is missing required field \"agent\"");
    assert_eq!(
        reason("[{\"id\":\"a\",\"agent\":\"x\",\"schedule\":\"\"}]"),
        "item 0 field \"schedule\": cron must have 5 fields (got 0); e.g. \"0 9 * * 1-5\""
    );
    assert_eq!(reason("[{},{},{}]"), "allows at most 2 item(s)");
    let few = ValidationKind::ObjectList {
        id_field: "id".into(),
        fields: Vec::new(),
        min_items: Some(1),
        max_items: None,
    };
    assert_eq!(validate_value(&few, &json("[]")).unwrap_err().reason, "needs at least 1 item(s)");
    let one_of = ValidationKind::OneOf { options: vec!["a".into(), "b".into()] };
    assert_eq!(validate_value(&one_of, &json("\"c\"")).unwrap_err().reason, "must be one of: a, b");
    let range = ValidationKind::RangeU64 { min: 3, max: Some(9) };
    assert_eq!(validate_value(&range, &json("2")).unwrap_err().reason, "must be at least 3");
    assert_eq!(validate_value(&range, &json("10")).unwrap_err().reason, "must be at most 9");
    assert_eq!(validate_value(&range, &json("2.5")).unwrap_err().reason, "expected a non-negative integer");
}

#[test]
fn validate_network_accepts_empty_none_bridge_and_named() {
    assert!(validate_network_format("").is_ok());
    assert!(validate_network_format("none").is_ok());
    assert!(validate_network_format("bridge").is_ok());
    assert!(validate_network_format("egress-proxy").is_ok());
    assert!(validate_network_format("my_net.1").is_ok());
}

#[test]
fn validate_network_rejects_host_and_namespace_forms() {
    assert!(validate_network_format("host").is_err());
    assert!(validate_network_format("HOST").is_err());
    assert!(validate_network_format("container:abc").is_err());
    assert!(validate_network_format("ns:/var/run/netns/x").is_err());
    assert!(validate_network_format("has space").is_err());
}

#[test]
fn test_profile_config_default() {
    let config = ProfileConfig::default();
    assert!(config.description.is_none());
    assert!(config.overrides.is_empty());
}

#[test]
fn test_merge_configs_no_overrides() {
    let global = default_config();
    let profile = ProfileConfig::default();
    let merged = merge_configs(global.clone(), &profile);

    assert_eq!(
        at(&merged, &["updates", "update_check_mode"]),
        at(&global, &["updates", "update_check_mode"])
    );
    assert_eq!(at(&merged, &["worktree", "enabled"]), at(&global, &["worktree", "enabled"]));
}

#[test]
fn test_merge_configs_with_overrides() {
    let global = default_config();
    let profile = profile_from(
        "{\"updates\": {\"update_check_mode\": \"off\", \"check_interval_hours\": 48}, \"worktree\": {\"enabled\": true}}",
    );

    let merged = merge_configs(global, &profile);

    assert_eq!(at(&merged, &["updates", "update_check_mode"]), Value::from("off"));
    assert_eq!(at(&merged, &["updates", "check_interval_hours"]), Value::from(48));
    // notify_in_cli should retain global default since not overridden
    assert_eq!(at(&merged, &["updates", "notify_in_cli"]), Value::from(true));
    assert_eq!(at(&merged, &["worktree", "enabled"]), Value::from(true));
}

#[test]
fn test_merge_configs_with_status_hook_overrides() {
    let mut global = default_config();
    set(&mut global, "status_hooks", "enabled", Value::from(false));
    set(&mut global, "status_hooks", "on_waiting", Value::from("global-waiting"));
    set(&mut global, "status_hooks", "debounce_ms", Value::from(100));

    let profile = profile_from(
        "{\"status_hooks\": {\"enabled\": true, \"debounce_ms\": 500, \"on_waiting\": \"profile-waiting\"}}",
    );

    let merged = merge_configs(global, &profile);
    assert_eq!(at(&merged, &["status_hooks", "enabled"]), Value::from(true));
    assert_eq!(at(&merged, &["status_hooks", "on_waiting"]), Value::from("profile-waiting"));
    assert_eq!(at(&merged, &["status_hooks", "debounce_ms"]), Value::from(500));
}

#[test]
fn test_merge_configs_with_agent_status_map_overrides() {
    let mut global = default_config();
    set(
        &mut global,
        "agents",
        "opencode",
        value("{\"status_map\": {\"Stop\": \"idle\", \"PreToolUse\": \"running\"}}"),
    );

    let profile = profile_from("{\"agents\": {\"opencode\": {\"status_map\": {\"Stop\": \"error\"}}}}");

    let merged = merge_configs(global, &profile);
    assert_eq!(at(&merged, &["agents", "opencode", "status_map", "PreToolUse"]), Value::from("running"));
    assert_eq!(at(&merged, &["agents", "opencode", "status_map", "Stop"]), Value::from("error"));
}

#[test]
fn test_profile_has_overrides() {
    let empty = ProfileConfig::default();
    assert!(!profile_has_overrides(&empty));

    let with_override = profile_from("{\"theme\": {\"name\": \"dark\"}}");
    assert!(profile_has_overrides(&with_override));
}

#[test]
fn test_validate_volume_format() {
    assert!(validate_volume_format("/host:/container").is_ok());
    assert!(validate_volume_format("/host:/container:ro").is_ok());
    assert!(validate_volume_format("").is_err());
    assert!(validate_volume_format("/only-one").is_err());
    assert!(validate_volume_format(":/container").is_err());
    assert!(validate_volume_format("/host:").is_err());
}

#[test]
fn test_validate_memory_limit() {
    assert!(validate_memory_limit("").is_ok()); // empty == no limit
    assert!(validate_memory_limit("512m").is_ok());
    assert!(validate_memory_limit("2g").is_ok());
    assert!(validate_memory_limit("8G").is_ok());
    // A unit suffix is required: a bare number (bytes to Docker) is rejected.
    assert!(validate_memory_limit("1024").is_err());
    assert!(validate_memory_limit("12").is_err());
    assert!(validate_memory_limit("invalid").is_err());
    assert!(validate_memory_limit("512mb").is_err());
}

#[test]
fn test_validate_check_interval() {
    assert!(validate_check_interval(1).is_ok());
    assert!(validate_check_interval(24).is_ok());
    assert!(validate_check_interval(0).is_err());
}

#[test]
fn formats_on_the_edge() {
    // The value of an environment entry is unconstrained, line breaks too.
    assert!(validate_env_format("KEY=a\nb").is_ok());
    assert!(validate_env_format("KEY=").is_ok());
    assert!(validate_env_format("").is_err());
    assert!(validate_env_format("KEY\n").is_err());
    assert!(validate_env_format("K-EY=v").is_err());
    assert!(validate_port_mapping_format("1:2").is_ok());
    assert!(validate_port_mapping_format("1:2\n").is_err());
    assert!(validate_port_mapping_format(":2").is_err());
    assert_eq!(validate_port_mapping_format("x").unwrap_err(), "Must be port:port (e.g. 3000:3000)");
    assert!(validate_network_format("-x").is_err());
    assert_eq!(
        validate_network_format("Host").unwrap_err(),
        "host network mode defeats sandbox isolation and is not allowed"
    );
    assert_eq!(validate_volume_format("a:b:c:d").unwrap_err(), "Volume must be in format host:container[:options]");
    assert_eq!(validate_volume_format("").unwrap_err(), "Volume cannot be empty");
    assert_eq!(validate_volume_format(":b").unwrap_err(), "Host and container paths cannot be empty");
    assert!(validate_volume_format("a:b:").is_ok());
    assert!(format_result(Some(true), "no").is_ok());
    assert_eq!(format_result(Some(false), "no").unwrap_err(), "no");
    assert_eq!(format_result(None, "no").unwrap_err(), "no");
}

/// A profile from its file, and the file of a profile.
fn profile_from_toml(text: &str) -> ProfileConfig {
    let v: toml::Value = toml::from_str(text).expect("TOML");
    ProfileConfig::from_json(&from_value(&serde_json::to_value(&v).expect("JSON"))).expect("a profile")
}

fn profile_to_toml(p: &ProfileConfig) -> String {
    toml::to_string_pretty(&to_value(&p.to_json())).expect("TOML")
}

#[test]
fn test_profile_config_serialization_empty() {
    let config = ProfileConfig::default();
    assert!(profile_to_toml(&config).trim().is_empty());
}

#[test]
fn test_profile_config_serialization_partial() {
    let config = profile_from("{\"updates\": {\"update_check_mode\": \"off\"}}");
    let serialized = profile_to_toml(&config);
    assert!(serialized.contains("[updates]"));
    assert!(serialized.contains("update_check_mode = \"off\""));
}

#[test]
fn test_profile_config_deserialization() {
    let toml = r#"
            [updates]
            update_check_mode = "off"
            check_interval_hours = 48

            [sandbox]
            enabled_by_default = true
        "#;
    let config = profile_from_toml(toml);
    let ov = to_value(&config.to_json());
    assert_eq!(ov["updates"]["update_check_mode"], Value::from("off"));
    assert_eq!(ov["updates"]["check_interval_hours"], Value::from(48));
    assert_eq!(ov["sandbox"]["enabled_by_default"], Value::from(true));
}

#[test]
fn test_merge_configs_with_tmux_mouse_override() {
    let global = default_config();
    assert_eq!(at(&global, &["tmux", "mouse"]), Value::from("auto"));

    let profile = profile_from("{\"tmux\": {\"mouse\": \"enabled\"}}");
    let merged = merge_configs(global, &profile);
    assert_eq!(at(&merged, &["tmux", "mouse"]), Value::from("enabled"));
}

#[test]
fn test_merge_configs_tmux_mouse_inherits_when_not_overridden() {
    let mut global = default_config();
    set(&mut global, "tmux", "mouse", Value::from("enabled"));

    let profile = profile_from("{\"tmux\": {\"status_bar\": \"enabled\"}}");
    let merged = merge_configs(global, &profile);
    assert_eq!(at(&merged, &["tmux", "mouse"]), Value::from("enabled")); // inherits from global
    assert_eq!(at(&merged, &["tmux", "status_bar"]), Value::from("enabled"));
}

#[test]
fn test_merge_configs_tmux_mouse_disabled_override() {
    let mut global = default_config();
    set(&mut global, "tmux", "mouse", Value::from("enabled"));

    let profile = profile_from("{\"tmux\": {\"mouse\": \"disabled\"}}");
    let merged = merge_configs(global, &profile);
    assert_eq!(at(&merged, &["tmux", "mouse"]), Value::from("disabled"));
}

#[test]
fn test_merge_configs_with_tmux_clipboard_override() {
    let global = default_config();
    assert_eq!(at(&global, &["tmux", "clipboard"]), Value::from("auto"));

    let profile = profile_from("{\"tmux\": {\"clipboard\": \"disabled\"}}");
    let merged = merge_configs(global, &profile);
    assert_eq!(at(&merged, &["tmux", "clipboard"]), Value::from("disabled"));
}

#[test]
fn test_merge_configs_tmux_clipboard_inherits_when_not_overridden() {
    let mut global = default_config();
    set(&mut global, "tmux", "clipboard", Value::from("enabled"));

    let profile = profile_from("{\"tmux\": {\"mouse\": \"enabled\"}}");
    let merged = merge_configs(global, &profile);
    assert_eq!(at(&merged, &["tmux", "clipboard"]), Value::from("enabled"));
}

#[test]
fn test_merge_configs_with_volume_ignores_override() {
    let global = default_config();
    assert_eq!(at(&global, &["sandbox", "volume_ignores"]), value("[]"));

    let profile = profile_from("{\"sandbox\": {\"volume_ignores\": [\"target\", \"node_modules\"]}}");
    let merged = merge_configs(global, &profile);
    assert_eq!(at(&merged, &["sandbox", "volume_ignores"]), value("[\"target\", \"node_modules\"]"));
}

#[test]
fn test_merge_configs_volume_ignores_inherits_when_not_overridden() {
    let mut global = default_config();
    set(&mut global, "sandbox", "volume_ignores", value("[\"target\"]"));

    let profile = profile_from("{\"sandbox\": {\"enabled_by_default\": true}}");
    let merged = merge_configs(global, &profile);
    assert_eq!(at(&merged, &["sandbox", "volume_ignores"]), value("[\"target\"]"));
    assert_eq!(at(&merged, &["sandbox", "enabled_by_default"]), Value::from(true));
}

#[test]
fn test_volume_ignores_override_serialization() {
    let config = profile_from("{\"sandbox\": {\"volume_ignores\": [\"target\", \".venv\"]}}");
    let serialized = profile_to_toml(&config);
    assert!(serialized.contains("volume_ignores"));

    let deserialized = profile_from_toml(&serialized);
    let ov = to_value(&deserialized.to_json());
    assert_eq!(ov["sandbox"]["volume_ignores"], value("[\"target\", \".venv\"]"));
}

#[test]
fn test_tmux_config_override_serialization() {
    let config = profile_from(
        "{\"tmux\": {\"status_bar\": \"enabled\", \"mouse\": \"enabled\", \"clipboard\": \"enabled\"}}",
    );
    let serialized = profile_to_toml(&config);
    assert!(serialized.contains("[tmux]"));
    assert!(serialized.contains(r#"mouse = "enabled""#));

    let deserialized = profile_from_toml(&serialized);
    let ov = to_value(&deserialized.to_json());
    assert_eq!(ov["tmux"]["mouse"], Value::from("enabled"));
}

#[test]
fn test_merge_configs_with_theme_override() {
    let global = default_config();
    let profile = profile_from("{\"theme\": {\"name\": \"tokyo-night\"}}");
    let merged = merge_configs(global, &profile);
    assert_eq!(at(&merged, &["theme", "name"]), Value::from("tokyo-night"));
}

#[test]
fn test_merge_configs_theme_inherits_when_not_overridden() {
    let mut global = default_config();
    set(&mut global, "theme", "name", Value::from("catppuccin-latte"));

    let profile = ProfileConfig::default();
    let merged = merge_configs(global, &profile);
    assert_eq!(at(&merged, &["theme", "name"]), Value::from("catppuccin-latte"));
}

#[test]
fn test_environment_override_round_trips() {
    let toml_in = r#"
            environment = ["AGENT_CONFIG_DIR=/home/me/.agent-accounts/work", "GH_TOKEN"]
        "#;
    let config = profile_from_toml(toml_in);
    let merged = merge_configs(default_config(), &config);
    assert_eq!(
        at(&merged, &["environment"]),
        value("[\"AGENT_CONFIG_DIR=/home/me/.agent-accounts/work\", \"GH_TOKEN\"]")
    );

    let out = profile_to_toml(&config);
    assert!(out.contains("AGENT_CONFIG_DIR=/home/me/.agent-accounts/work"));
    assert!(out.contains("GH_TOKEN"));
}

#[test]
fn test_environment_override_promotes_profile_has_overrides() {
    let profile = ProfileConfig::default();
    assert!(!profile_has_overrides(&profile));
    let profile = profile_from("{\"environment\": [\"FOO=bar\"]}");
    assert!(profile_has_overrides(&profile));
}

#[test]
fn test_merge_configs_replaces_global_environment() {
    let mut global = to_value(&default_config());
    global["environment"] = value("[\"FROM_GLOBAL=1\"]");
    let profile = profile_from("{\"environment\": [\"FROM_PROFILE=2\"]}");
    let merged = merge_configs(from_value(&global), &profile);
    // Profile env replaces (matches sandbox.environment semantics).
    assert_eq!(at(&merged, &["environment"]), value("[\"FROM_PROFILE=2\"]"));
}

#[test]
fn test_description_round_trips() {
    let toml_in = r#"description = "Read-only review profile""#;
    let config = profile_from_toml(toml_in);
    assert_eq!(config.description.as_deref(), Some("Read-only review profile"));

    let serialized = profile_to_toml(&config);
    assert!(serialized.contains("Read-only review profile"));
}

#[test]
fn test_description_default_is_none() {
    let config = ProfileConfig::default();
    assert!(config.description.is_none());
    assert!(profile_to_toml(&config).trim().is_empty());
}

#[test]
fn test_description_promotes_profile_has_overrides() {
    let mut profile = ProfileConfig::default();
    assert!(!profile_has_overrides(&profile));
    profile.description = Some("My profile".to_string());
    assert!(profile_has_overrides(&profile));
}

#[test]
fn test_merge_configs_inherits_global_environment_when_profile_none() {
    let mut global = to_value(&default_config());
    global["environment"] = value("[\"FROM_GLOBAL=1\"]");
    let profile = ProfileConfig::default();
    let merged = merge_configs(from_value(&global), &profile);
    assert_eq!(at(&merged, &["environment"]), value("[\"FROM_GLOBAL=1\"]"));
}

// Replace (not extend) semantics for the Vec sandbox overrides.
#[test]
fn test_merge_configs_replaces_extra_volumes() {
    let mut global = default_config();
    set(&mut global, "sandbox", "extra_volumes", value("[\"/from-global:/g\"]"));

    let profile = profile_from("{\"sandbox\": {\"extra_volumes\": [\"/from-profile:/p\"]}}");
    let merged = merge_configs(global, &profile);
    assert_eq!(at(&merged, &["sandbox", "extra_volumes"]), value("[\"/from-profile:/p\"]"));
}

#[test]
fn test_merge_configs_extra_volumes_inherits_when_none() {
    let mut global = default_config();
    set(&mut global, "sandbox", "extra_volumes", value("[\"/from-global:/g\"]"));

    let profile = profile_from("{\"sandbox\": {\"enabled_by_default\": true}}");
    let merged = merge_configs(global, &profile);
    assert_eq!(at(&merged, &["sandbox", "extra_volumes"]), value("[\"/from-global:/g\"]"));
}

#[test]
fn test_merge_configs_replaces_port_mappings() {
    let mut global = default_config();
    set(&mut global, "sandbox", "port_mappings", value("[\"3000:3000\"]"));

    let profile = profile_from("{\"sandbox\": {\"port_mappings\": [\"8080:8080\", \"9090:9090\"]}}");
    let merged = merge_configs(global, &profile);
    assert_eq!(at(&merged, &["sandbox", "port_mappings"]), value("[\"8080:8080\", \"9090:9090\"]"));
}

#[test]
fn test_merge_configs_port_mappings_inherits_when_none() {
    let mut global = default_config();
    set(&mut global, "sandbox", "port_mappings", value("[\"3000:3000\"]"));

    let profile = profile_from("{\"sandbox\": {\"cpu_limit\": \"2\"}}");
    let merged = merge_configs(global, &profile);
    assert_eq!(at(&merged, &["sandbox", "port_mappings"]), value("[\"3000:3000\"]"));
}

#[test]
fn test_merge_configs_with_acp_overrides() {
    let mut global = default_config();
    set(&mut global, "acp", "show_tool_durations", Value::from(true));

    let profile = profile_from(
        "{\"acp\": {\"default_agent\": \"opencode\", \"max_concurrent_workers\": 9, \
          \"replay_bytes\": 1024, \"node_path\": \"/opt/node\"}}",
    );

    let merged = merge_configs(global, &profile);
    assert_eq!(at(&merged, &["acp", "default_agent"]), Value::from("opencode"));
    assert_eq!(at(&merged, &["acp", "max_concurrent_workers"]), Value::from(9));
    assert_eq!(at(&merged, &["acp", "replay_bytes"]), Value::from(1024));
    assert_eq!(at(&merged, &["acp", "node_path"]), Value::from("/opt/node"));
    // Not overridden: inherits global default.
    assert_eq!(at(&merged, &["acp", "show_tool_durations"]), Value::from(true));
}

#[test]
fn test_merge_configs_acp_inherits_when_none() {
    let mut global = default_config();
    set(&mut global, "acp", "default_agent", Value::from("from-global"));
    set(&mut global, "acp", "max_concurrent_workers", Value::from(7));

    let profile = profile_from("{\"acp\": {\"replay_events\": 42}}");
    let merged = merge_configs(global, &profile);
    assert_eq!(at(&merged, &["acp", "replay_events"]), Value::from(42));
    assert_eq!(at(&merged, &["acp", "default_agent"]), Value::from("from-global"));
    assert_eq!(at(&merged, &["acp", "max_concurrent_workers"]), Value::from(7));
}

#[test]
fn generic_merge_inherits_with_empty_overrides() {
    let mut global = default_config();
    set(&mut global, "acp", "max_concurrent_workers", Value::from(7));
    let generic = merge_configs_generic(&global, &json("{}"));
    assert_eq!(to_value(&global), to_value(&generic));
}

#[test]
fn cityhall_overrides_gate_on_the_env_flag() {
    let mut off = default_config();
    set(&mut off, "worktree", "enabled", Value::from(false));
    apply_cityhall_overrides(&mut off, false);
    assert_eq!(at(&off, &["worktree", "enabled"]), Value::from(false), "no override without the flag");

    let mut on = default_config();
    apply_cityhall_overrides(&mut on, true);
    assert_eq!(at(&on, &["acp", "max_concurrent_workers"]), Value::from(50));
    assert_eq!(at(&on, &["acp", "max_concurrent_resumes"]), Value::from(2));
    assert_eq!(at(&on, &["worktree", "enabled"]), Value::from(true));
    // Doing it again changes nothing.
    let once = to_value(&on);
    apply_cityhall_overrides(&mut on, true);
    assert_eq!(to_value(&on), once);
}

#[test]
fn merging_replaces_scalars_and_joins_objects() {
    let mut base = json("{\"a\": {\"x\": 1, \"y\": {\"z\": 2}}, \"b\": [1, 2], \"c\": 3}");
    let over = json("{\"a\": {\"y\": {\"w\": 4}, \"x\": null}, \"b\": [9], \"d\": {\"e\": 5}, \"c\": {\"f\": 6}}");
    merge_json(&mut base, &over);
    let want = value("{\"a\":{\"x\":null,\"y\":{\"z\":2,\"w\":4}},\"b\":[9],\"c\":{\"f\":6},\"d\":{\"e\":5}}");
    assert_eq!(to_value(&base), want);
    merge_json(&mut base, &over);
    assert_eq!(to_value(&base), want, "merging again changes nothing");
    let mut scalar = json("7");
    merge_json(&mut scalar, &json("{\"k\": 1}"));
    assert_eq!(to_value(&scalar), value("{\"k\": 1}"));
}

#[test]
fn profiles_are_loaded_and_resolved() {
    let parsed = || Ok(profile_from("{\"theme\": {\"name\": \"x\"}}"));
    let blank = load_profile_config(Some("  \n"), parsed(), Err("bad".to_string())).expect("blank");
    assert!(!profile_has_overrides(&blank));
    assert!(!profile_has_overrides(&load_profile_config(None, parsed(), Ok(())).expect("no file")));
    assert!(profile_has_overrides(&load_profile_config(Some("x"), parsed(), Ok(())).expect("a file")));
    assert_eq!(
        load_profile_config(Some("x"), parsed(), Err("type".to_string())).unwrap_err(),
        "invalid override value: type"
    );
    assert_eq!(
        load_profile_config(Some("x"), Err("syntax".to_string()), Err("type".to_string())).unwrap_err(),
        "syntax"
    );
    assert_eq!(validate_overrides_typecheck(Err("t".to_string())).unwrap_err(), "invalid override value: t");
    assert_eq!(get_profile_config_path("/p/work"), "/p/work/config.toml");

    let resolved = resolve_config(Ok(default_config()), parsed(), true).expect("resolves");
    assert_eq!(at(&resolved, &["theme", "name"]), Value::from("x"));
    assert_eq!(at(&resolved, &["acp", "max_concurrent_workers"]), Value::from(50));
    assert_eq!(
        resolve_config(Err("g".to_string()), Err("p".to_string()), false).unwrap_err(),
        "g"
    );
    assert_eq!(resolve_config(Ok(json("{}")), Err("p".to_string()), false).unwrap_err(), "p");
    let fallback = resolve_config_or_warn(Err("g".to_string()), default_config(), false);
    assert_eq!(to_value(&fallback), to_value(&default_config()));
    // A description that is no text is no profile; `null` is none.
    assert!(ProfileConfig::from_json(&json("{\"description\": 3}")).is_none());
    assert!(ProfileConfig::from_json(&json("[]")).is_none());
    assert!(ProfileConfig::from_json(&json("{\"description\": null}")).expect("null").description.is_none());
}

fn contrib(key: &str, ty: SettingType) -> SettingContribution {
    SettingContribution {
        key: key.to_string(),
        label: String::new(),
        description: String::new(),
        value_type: ty,
        options: Vec::new(),
        min: None,
        max: None,
        default: None,
        advanced: false,
        option_source: None,
        depends_on: Vec::new(),
        fields: Vec::new(),
        item_id_key: None,
        min_items: None,
        max_items: None,
    }
}

#[test]
fn section_id_round_trips() {
    let id = plugin_section_id("acme.kit");
    assert_eq!(id, "plugin:acme.kit");
    assert_eq!(section_plugin_id(&id), Some("acme.kit"));
    assert_eq!(section_plugin_id("acp"), None);
    assert_eq!(PLUGIN_SECTION_PREFIX, "plugin:");
    assert_eq!(PLUGIN_CATEGORY, "Plugins");
}

#[test]
fn descriptors_map_types_to_widgets() {
    let mut s_int = contrib("retries", SettingType::Integer);
    s_int.min = Some(0);
    s_int.max = Some(9);
    s_int.default = Some(json("3"));
    let descs = plugin_field_descriptors(
        "acme.kit",
        &vec![
            contrib("on", SettingType::Bool),
            contrib("name", SettingType::String),
            s_int,
            SettingContribution {
                options: vec!["a".into(), "b".into()],
                ..contrib("mode", SettingType::Select)
            },
        ],
    );
    assert_eq!(descs[0].section, "plugin:acme.kit");
    assert!(matches!(descs[0].widget, WidgetKind::Toggle));
    assert!(matches!(descs[1].widget, WidgetKind::Text { .. }));
    assert!(matches!(descs[2].widget, WidgetKind::Number { min: Some(0), max: Some(9) }));
    assert!(matches!(descs[2].validation, ValidationKind::RangeU64 { min: 0, max: Some(9) }));
    assert_eq!(descs[2].default.as_ref().map(to_value), Some(Value::from(3)));
    assert!(matches!(descs[3].widget, WidgetKind::Select { .. }));
    // Label falls back to the key when unset.
    assert_eq!(descs[0].label, "on");
    // Global-only at Tier 0.
    assert!(!descs[0].profile_overridable);
}

#[test]
fn object_list_settings_are_described() {
    let field = |key: &str, ty: ObjectFieldType, required: bool| ObjectFieldContribution {
        key: key.to_string(),
        label: String::new(),
        description: String::new(),
        value_type: ty,
        required,
        options: vec!["x".into()],
        min: Some(-1),
        max: None,
        default: None,
        option_source: None,
        depends_on: Vec::new(),
    };
    let setting = SettingContribution {
        fields: vec![
            field("b", ObjectFieldType::Bool, true),
            field("s", ObjectFieldType::String, true),
            field("t", ObjectFieldType::String, false),
            field("n", ObjectFieldType::Integer, false),
            field("o", ObjectFieldType::Select, false),
            field("d", ObjectFieldType::DynamicSelect, true),
            field("c", ObjectFieldType::Cron, false),
        ],
        min_items: Some(1),
        ..contrib("jobs", SettingType::ObjectList)
    };
    let descs = plugin_field_descriptors("p", &vec![setting, contrib("when", SettingType::Cron)]);
    match (&descs[0].widget, &descs[0].validation) {
        (
            WidgetKind::ObjectList { id_field, fields, min_items, .. },
            ValidationKind::ObjectList { id_field: id2, fields: rules, .. },
        ) => {
            assert_eq!(id_field, "_id");
            assert_eq!(id2, "_id");
            assert_eq!(*min_items, Some(1));
            assert!(matches!(fields[0].widget, ObjectFieldWidget::Toggle));
            assert!(matches!(rules[1].validation, ValidationKind::NonEmptyString));
            assert!(matches!(rules[2].validation, ValidationKind::Unchecked));
            // A bound below zero is left unchecked.
            assert!(matches!(rules[3].validation, ValidationKind::Unchecked));
            assert!(matches!(&rules[4].validation, ValidationKind::OneOf { options } if options == &["x".to_string()]));
            assert!(matches!(
                fields[5].widget,
                ObjectFieldWidget::DynamicSelect { source: OptionSource::AcpAgents, .. }
            ));
            assert!(matches!(rules[6].validation, ValidationKind::Cron));
        }
        other => panic!("an object list, got {other:?}"),
    }
    assert!(matches!(descs[1].widget, WidgetKind::Cron));
}

#[test]
fn rewrite_folds_plugin_sections_into_storage() {
    let mut body = json(
        "{\"theme\": {\"idle_decay_minutes\": 5}, \"plugin:acme.kit\": {\"retries\": 4, \"mode\": \"fast\"}}",
    );
    rewrite_plugin_sections(&mut body);
    let body = to_value(&body);
    assert_eq!(body["theme"]["idle_decay_minutes"], Value::from(5));
    assert!(body.get("plugin:acme.kit").is_none());
    assert_eq!(body["plugins"]["acme.kit"]["settings"]["retries"], Value::from(4));
    assert_eq!(body["plugins"]["acme.kit"]["settings"]["mode"], Value::from("fast"));
}

#[test]
fn plugin_patch_validates_then_rewrites_to_storage() {
    // A plugin section validates against its own descriptors, then folds into its storage path.
    let mut s_int = contrib("retries", SettingType::Integer);
    s_int.min = Some(0);
    s_int.max = Some(5);
    let descriptors = plugin_field_descriptors("acme.kit", &vec![s_int]);
    let accepts = |patch: &str| {
        let patch = value(patch);
        let section = patch["plugin:acme.kit"].as_object().expect("a section").clone();
        section.iter().all(|(field, v)| {
            descriptors
                .iter()
                .find(|d| d.section == "plugin:acme.kit" && &d.field == field)
                .is_some_and(|d| validate_value(&d.validation, &from_value(v)).is_ok())
        })
    };
    let good = "{\"plugin:acme.kit\": {\"retries\": 4}}";
    assert!(accepts(good));
    // Out-of-range is rejected by the range of the descriptor.
    assert!(!accepts("{\"plugin:acme.kit\": {\"retries\": 9}}"));
    // Unknown plugin field is rejected.
    assert!(!accepts("{\"plugin:acme.kit\": {\"nope\": 1}}"));

    let mut body = json(good);
    rewrite_plugin_sections(&mut body);
    assert_eq!(to_value(&body)["plugins"]["acme.kit"]["settings"]["retries"], Value::from(4));
}

#[test]
fn rewrite_keeps_what_it_cannot_fold() {
    let mut none = json("{\"theme\": 1}");
    rewrite_plugin_sections(&mut none);
    assert_eq!(to_value(&none), value("{\"theme\": 1}"));
    let mut list = json("[1]");
    rewrite_plugin_sections(&mut list);
    assert_eq!(to_value(&list), value("[1]"));
    let mut odd = json("{\"plugins\": 3, \"plugin:a\": {\"x\": 1}}");
    rewrite_plugin_sections(&mut odd);
    assert_eq!(to_value(&odd), value("{\"plugins\": 3}"));
    let mut body = json(
        "{\"plugins\": {\"a\": {\"enabled\": true, \"settings\": {\"k\": 1, \"x\": 0}}, \"b\": 7}, \
          \"plugin:a\": {\"x\": 1}, \"plugin:b\": {\"y\": 2}, \"plugin:c\": 5}",
    );
    rewrite_plugin_sections(&mut body);
    assert_eq!(
        to_value(&body),
        value(
            "{\"plugins\": {\"a\": {\"enabled\": true, \"settings\": {\"k\": 1, \"x\": 1}}, \"b\": 7, \"c\": {\"settings\": {}}}}"
        )
    );
}

#[test]
fn storage_helpers_round_trip() {
    let mut cfg = json("{}");
    let leaf = storage_leaf("acme.kit", "retries", json("7"));
    merge_json(&mut cfg, &leaf);
    assert_eq!(
        storage_value(&cfg, "acme.kit", "retries").map(to_value),
        Some(Value::from(7))
    );
    assert!(storage_value(&cfg, "acme.kit", "other").is_none());
}

/// A value is held to the rule that its setting was described with.
#[test]
fn select_value_is_gated_against_options() {
    let descriptors = plugin_field_descriptors(
        "acme.kit",
        &vec![SettingContribution {
            options: vec!["fast".into(), "slow".into()],
            ..contrib("mode", SettingType::Select)
        }],
    );
    // An on-menu value passes; an off-menu value is rejected.
    assert!(validate_value(&descriptors[0].validation, &json("\"fast\"")).is_ok());
    assert!(validate_value(&descriptors[0].validation, &json("\"turbo\"")).is_err());
}
