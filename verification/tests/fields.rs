//! The rows of the settings screen.

use aoe_host::fields::apply::{apply_field_to_config, clear_override, clear_path, field_value_to_json};
use aoe_host::fields::rows::{
    build_fields_for_category, validate_read_defaults, FieldKind, HookField, ListItemValidation, SettingField,
    SettingsCategory, SettingsScope,
};
use aoe_host::fields::values::{
    custom_value_from_json, custom_value_to_json, installed_oneshot_agents, json_to_list, parse_key_value_object,
    schema_value_to_json, value_from_json, FieldValue, HostChoices, SoundChoice,
};
use aoe_host::json::{Json, JsonMap};
use aoe_host::profile_config::ProfileConfig;
use aoe_host::settings::schema::{FieldDescriptor, SelectOption, ValidationKind, WebWritePolicy, WidgetKind};
use serde_json::Value;

fn from_value(v: &Value) -> Json {
    match v {
        Value::Null => Json::Null,
        Value::Bool(b) => Json::Bool(*b),
        Value::Number(n) => match (n.as_u64(), n.as_i64()) {
            (Some(u), _) => Json::Unsigned(u),
            (None, Some(i)) => Json::Negative(i),
            (None, None) => Json::Float(n.to_string()),
        },
        Value::String(s) => Json::Text(s.clone()),
        Value::Array(a) => Json::Array(a.iter().map(from_value).collect()),
        Value::Object(m) => Json::Object(JsonMap {
            entries: m.iter().map(|(k, v)| (k.clone(), from_value(v))).collect(),
        }),
    }
}

fn to_value(v: &Json) -> Value {
    match v {
        Json::Null => Value::Null,
        Json::Bool(b) => Value::Bool(*b),
        Json::Unsigned(n) => Value::from(*n),
        Json::Negative(n) => Value::from(*n),
        Json::Float(t) => Value::Number(t.parse().expect("a number")),
        Json::Text(s) => Value::from(s.as_str()),
        Json::Array(a) => Value::Array(a.iter().map(to_value).collect()),
        Json::Object(m) => Value::Object(m.entries.iter().map(|(k, v)| (k.clone(), to_value(v))).collect()),
    }
}

fn value(text: &str) -> Value {
    serde_json::from_str(text).expect("JSON")
}

fn json(text: &str) -> Json {
    from_value(&value(text))
}

fn profile_from(text: &str) -> ProfileConfig {
    ProfileConfig::from_json(&json(text)).expect("profile override deserializes")
}

fn host() -> HostChoices {
    HostChoices {
        themes: vec!["empire".into(), "rose-pine".into()],
        agent_names: vec!["codex".into(), "gemini".into(), "opencode".into()],
        oneshot_agents: vec!["codex".into(), "gemini".into()],
        random_sound: json("\"random\""),
        specific_sound: json("{\"specific\": \"\"}"),
        volume_labels: vec!["0.5".into(), "1.0".into()],
        volume_values: vec![json("0.5"), json("1.0")],
        logging_targets: vec!["acp".into(), "http".into()],
    }
}

const SOUND: SoundChoice = SoundChoice { specific: false, volume: 1 };

fn desc(section: &str, field: &str, category: &str, widget: WidgetKind, overridable: bool, advanced: bool) -> FieldDescriptor {
    FieldDescriptor {
        section: section.into(),
        field: field.into(),
        category: category.into(),
        label: field.into(),
        description: String::new(),
        widget,
        web_write: WebWritePolicy::Allow,
        profile_overridable: overridable,
        validation: ValidationKind::Unchecked,
        advanced,
        default: None,
    }
}

fn text() -> WidgetKind {
    WidgetKind::Text { multiline: false, mono: false }
}

fn number() -> WidgetKind {
    WidgetKind::Number { min: None, max: None }
}

fn update_modes() -> WidgetKind {
    WidgetKind::Select { options: vec![SelectOption::new("auto", "Auto"), SelectOption::new("off", "Off")] }
}

/// The part of the schema that the tests look at.
fn schema() -> Vec<FieldDescriptor> {
    let mut s = vec![
        desc("theme", "name", "Theme", WidgetKind::Custom { id: "theme-name".into() }, false, false),
        desc("updates", "update_check_mode", "Updates", update_modes(), true, false),
        desc("worktree", "enabled", "Worktree", WidgetKind::Toggle, true, false),
        desc("status_hooks", "debounce_ms", "Status Hooks", number(), true, false),
        desc("session", "default_tool", "Agents", WidgetKind::Custom { id: "default-tool".into() }, true, false),
        desc("logging", "targets", "Logging", WidgetKind::Custom { id: "logging-targets".into() }, false, false),
    ];
    for f in ["default_agent", "replay_events", "node_path", "show_tool_durations"] {
        s.push(desc("acp", f, "Acp", text(), true, false));
    }
    for f in [
        "max_concurrent_workers",
        "max_concurrent_resumes",
        "queue_drain_mode",
        "replay_bytes",
        "force_end_turn_threshold_secs",
        "silent_orphan_grace_secs",
        "silent_orphan_fast_grace_secs",
    ] {
        s.insert(0, desc("acp", f, "Acp", number(), true, true));
    }
    for f in ["agent_extra_args", "agent_command_override", "custom_agents", "agent_detect_as", "agent_status_hooks"] {
        s.push(desc("session", f, "Agents", WidgetKind::List, true, false));
    }
    for f in [
        "default_attach_mode",
        "new_session_attach_mode",
        "click_action",
        "live_send_exit_chord",
        "mouse_capture",
    ] {
        s.push(desc("session", f, "Interaction", text(), true, false));
    }
    s.push(desc("session", "snooze_duration_minutes", "Session", number(), true, false));
    let mut plugin = desc("plugin:acme.kit", "retries", "Plugins", number(), false, false);
    plugin.default = Some(json("3"));
    s.push(plugin);
    s
}

fn default_config() -> Json {
    json(
        "{\"updates\":{\"update_check_mode\":\"auto\"},\"worktree\":{\"enabled\":false},\
          \"status_hooks\":{\"debounce_ms\":300},\"session\":{},\"theme\":{\"name\":\"empire\"},\
          \"logging\":{\"targets\":{\"http\":\"debug\"}},\"hooks\":{\"on_create\":[\"make\"]},\
          \"environment\":[\"A=1\"]}",
    )
}

fn build(cat: SettingsCategory, scope: SettingsScope, base: &Json, over: &ProfileConfig) -> Vec<SettingField> {
    build_fields_for_category(cat, scope, base, over, schema(), &host(), SOUND, SOUND)
}

/// Find a built field by its stable identity (`section.field`).
fn field<'a>(fields: &'a [SettingField], ident: &str) -> &'a SettingField {
    fields
        .iter()
        .find(|f| f.ident() == ident)
        .unwrap_or_else(|| panic!("missing field {ident}"))
}

/// Whether a profile override sets `section.field`.
fn has_override_path(profile: &ProfileConfig, section: &str, field: &str) -> bool {
    to_value(&profile.to_json()).get(section).and_then(|s| s.get(field)).is_some()
}

#[test]
fn clearing_optional_field_validates_as_unset() {
    let mut f = SettingField {
        kind: FieldKind::Schema {
            section: "sandbox".to_string(),
            field: "memory_limit".to_string(),
            widget: WidgetKind::OptionalText { mono: false },
            validation: ValidationKind::MemoryLimit,
            profile_overridable: true,
        },
        label: "Memory Limit".to_string(),
        description: String::new(),
        value: FieldValue::OptionalText(None),
        category: SettingsCategory::Sandbox,
        has_override: false,
        inherited_display: None,
    };

    assert!(f.validate(Ok(()), Ok(())).is_ok(), "a cleared optional field should validate as unset");

    f.value = FieldValue::OptionalText(Some("not-a-size".to_string()));
    assert!(f.validate(Ok(()), Ok(())).is_err(), "a set-but-invalid value should still be rejected");

    f.value = FieldValue::OptionalText(Some("512m".to_string()));
    assert!(f.validate(Ok(()), Ok(())).is_ok(), "a set-and-valid value should pass");
}

#[test]
fn acp_defaults_custom_widget_round_trips_json() {
    let current = json("{\"opencode\": {\"model\": \"x\", \"effort\": \"high\"}}");
    let fv = custom_value_from_json("acp-defaults", &current, &host(), &SOUND);
    let FieldValue::Text(s) = &fv else {
        panic!("acp-defaults must build a Text field");
    };
    assert_eq!(
        to_value(&custom_value_to_json("acp-defaults", &FieldValue::Text(s.clone()), &host())),
        to_value(&current),
    );

    // Empty text and a null current both resolve to an empty map, never a
    // corrupt leaf.
    assert_eq!(
        to_value(&custom_value_to_json("acp-defaults", &FieldValue::Text(String::new()), &host())),
        value("{}"),
    );
    assert!(matches!(
        custom_value_from_json("acp-defaults", &Json::Null, &host(), &SOUND),
        FieldValue::Text(t) if t == "{}"
    ));

    // Non-object JSON (which validation rejects before commit) degrades to
    // an empty map rather than writing a string/array into the field.
    assert_eq!(
        to_value(&custom_value_to_json("acp-defaults", &FieldValue::Text("[1,2]".to_string()), &host())),
        value("{}"),
    );
}

#[test]
fn smart_rename_agent_widget_same_as_session_round_trips() {
    assert!(matches!(
        custom_value_from_json("smart-rename-agent", &json("\"\""), &host(), &SOUND),
        FieldValue::Select { selected: 0, ref options } if options[0] == "Same as session"
    ));
    assert!(matches!(
        custom_value_from_json("smart-rename-agent", &Json::Null, &host(), &SOUND),
        FieldValue::Select { selected: 0, .. }
    ));
    assert_eq!(
        to_value(&custom_value_to_json(
            "smart-rename-agent",
            &FieldValue::Select { selected: 0, options: vec!["Same as session".to_string()] },
            &host(),
        )),
        Value::from(""),
    );
    // A non-zero index persists the rendered option's name verbatim (not a
    // re-detected list), so the saved value cannot drift if availability
    // changes between render and save.
    assert_eq!(
        to_value(&custom_value_to_json(
            "smart-rename-agent",
            &FieldValue::Select {
                selected: 2,
                options: vec!["Same as session".to_string(), "opencode".to_string(), "codex".to_string()],
            },
            &host(),
        )),
        Value::from("codex"),
    );
}

#[test]
fn profile_field_inherits_after_global_change() {
    let mut global = default_config();
    let profile = ProfileConfig::default();

    let fields = build(SettingsCategory::Updates, SettingsScope::Profile, &global, &profile);
    assert!(!field(&fields, "updates.update_check_mode").has_override);

    // Changing the global value must not promote the profile to "override".
    global = json("{\"updates\": {\"update_check_mode\": \"off\"}}");
    let fields = build(SettingsCategory::Updates, SettingsScope::Profile, &global, &profile);
    assert!(
        !field(&fields, "updates.update_check_mode").has_override,
        "profile should inherit, not show an override, after a global change"
    );
}

#[test]
fn profile_field_shows_override_after_profile_change() {
    let global = default_config();
    let profile = profile_from("{\"updates\": {\"update_check_mode\": \"off\"}}");
    let fields = build(SettingsCategory::Updates, SettingsScope::Profile, &global, &profile);
    assert!(field(&fields, "updates.update_check_mode").has_override);
}

#[test]
fn default_tool_options_include_all_registered_agents() {
    let global = default_config();
    let profile = ProfileConfig::default();
    let fields = build(SettingsCategory::Agents, SettingsScope::Global, &global, &profile);
    let options = match &field(&fields, "session.default_tool").value {
        FieldValue::Select { options, .. } => options.clone(),
        other => panic!("default tool should be a Select, got {other:?}"),
    };
    // Skip the leading "Auto" entry; the rest must mirror the registry.
    let tool_options: Vec<String> = options.iter().skip(1).cloned().collect();
    let agent_names = host().agent_names;
    for name in &agent_names {
        assert!(tool_options.contains(name), "missing agent {name}");
    }
    for option in &tool_options {
        assert!(agent_names.contains(option), "unknown agent {option}");
    }
}

#[test]
fn apply_to_profile_always_stores_override_even_when_matching_global() {
    let global = default_config();
    let mut profile = profile_from("{\"updates\": {\"update_check_mode\": \"off\"}}");
    let fields = build(SettingsCategory::Updates, SettingsScope::Profile, &global, &profile);
    // Re-apply the field as-is.
    let f = field(&fields, "updates.update_check_mode");
    assert!(apply_field_to_config(f, SettingsScope::Profile, &global, &mut profile, &host()).is_none());
    assert!(
        has_override_path(&profile, "updates", "update_check_mode"),
        "override must be preserved after re-apply"
    );
}

#[test]
fn worktree_enabled_reads_global_value() {
    let global = json("{\"worktree\": {\"enabled\": true}}");
    let profile = ProfileConfig::default();
    let fields = build(SettingsCategory::Worktree, SettingsScope::Global, &global, &profile);
    assert!(matches!(field(&fields, "worktree.enabled").value, FieldValue::Bool(true)));
}

#[test]
fn worktree_enabled_profile_override() {
    let global = default_config();
    let profile = profile_from("{\"worktree\": {\"enabled\": true}}");
    let fields = build(SettingsCategory::Worktree, SettingsScope::Profile, &global, &profile);
    let f = field(&fields, "worktree.enabled");
    assert!(f.has_override);
    assert!(matches!(f.value, FieldValue::Bool(true)));
}

#[test]
fn status_hook_debounce_reads_default_and_override() {
    let global = default_config();
    let default_debounce: u64 = 300;

    let fields =
        build(SettingsCategory::StatusHooks, SettingsScope::Global, &global, &ProfileConfig::default());
    assert!(matches!(
        field(&fields, "status_hooks.debounce_ms").value,
        FieldValue::Number(n) if n == default_debounce
    ));

    let profile = profile_from("{\"status_hooks\": {\"debounce_ms\": 500}}");
    let fields = build(SettingsCategory::StatusHooks, SettingsScope::Profile, &global, &profile);
    let f = field(&fields, "status_hooks.debounce_ms");
    assert!(f.has_override);
    assert!(matches!(f.value, FieldValue::Number(500)));
    assert_eq!(f.inherited_display.as_deref(), Some(default_debounce.to_string().as_str()));
}

#[test]
fn status_hook_debounce_applies_global_and_profile() {
    let global = default_config();
    let mut profile = ProfileConfig::default();
    let mut fields = build(SettingsCategory::StatusHooks, SettingsScope::Global, &global, &profile);
    let i = fields.iter().position(|f| f.ident() == "status_hooks.debounce_ms").expect("the row");
    let mut f = fields.remove(i);
    f.value = FieldValue::Number(250);

    let updated = apply_field_to_config(&f, SettingsScope::Global, &global, &mut profile, &host())
        .expect("the global configuration changes");
    assert_eq!(to_value(&updated)["status_hooks"]["debounce_ms"], Value::from(250));

    apply_field_to_config(&f, SettingsScope::Profile, &global, &mut profile, &host());
    assert!(has_override_path(&profile, "status_hooks", "debounce_ms"));
}

#[test]
fn acp_fields_have_advanced_section_marker() {
    let global = default_config();
    let profile = ProfileConfig::default();
    let fields = build(SettingsCategory::Acp, SettingsScope::Global, &global, &profile);
    let header_idx = fields
        .iter()
        .position(|f| matches!(f.value, FieldValue::SectionHeader))
        .expect("acp should contain an Advanced section header");
    assert_eq!(fields[header_idx].label, "Advanced");
    for ident in ["acp.default_agent", "acp.replay_events", "acp.node_path", "acp.show_tool_durations"] {
        let pos = fields.iter().position(|f| f.ident() == ident).unwrap();
        assert!(pos < header_idx, "{ident} must precede the Advanced header");
    }
    for ident in [
        "acp.max_concurrent_workers",
        "acp.max_concurrent_resumes",
        "acp.queue_drain_mode",
        "acp.replay_bytes",
        "acp.force_end_turn_threshold_secs",
        "acp.silent_orphan_grace_secs",
        "acp.silent_orphan_fast_grace_secs",
    ] {
        let pos = fields.iter().position(|f| f.ident() == ident).unwrap();
        assert!(pos > header_idx, "{ident} must follow the Advanced header");
    }
}

#[test]
fn session_split_routes_fields_to_their_tabs() {
    let global = default_config();
    let profile = ProfileConfig::default();
    let idents = |cat| -> Vec<String> {
        build(cat, SettingsScope::Global, &global, &profile).iter().map(|f| f.ident()).collect()
    };

    let agents = idents(SettingsCategory::Agents);
    for ident in [
        "session.default_tool",
        "session.agent_extra_args",
        "session.agent_command_override",
        "session.custom_agents",
        "session.agent_detect_as",
        "session.agent_status_hooks",
    ] {
        assert!(agents.contains(&ident.to_string()), "Agents missing {ident}");
    }

    let interaction = idents(SettingsCategory::Interaction);
    for ident in [
        "session.default_attach_mode",
        "session.new_session_attach_mode",
        "session.click_action",
        "session.live_send_exit_chord",
        "session.mouse_capture",
    ] {
        assert!(interaction.contains(&ident.to_string()), "Interaction missing {ident}");
    }

    let session = idents(SettingsCategory::Session);
    for ident in [
        "session.default_tool",
        "session.agent_extra_args",
        "session.default_attach_mode",
        "session.live_send_exit_chord",
    ] {
        assert!(
            !session.contains(&ident.to_string()),
            "{ident} should have moved out of the Session tab"
        );
    }
}

#[test]
fn host_environment_row_present_in_session_tab() {
    let global = default_config();
    let profile = ProfileConfig::default();
    let fields = build(SettingsCategory::Session, SettingsScope::Global, &global, &profile);
    assert!(fields.iter().any(|f| f.ident() == "environment"));
}

#[test]
fn lifecycle_hooks_are_the_hooks_tab() {
    let global = default_config();
    let profile = ProfileConfig::default();
    let fields = build(SettingsCategory::Hooks, SettingsScope::Global, &global, &profile);
    let idents: Vec<String> = fields.iter().map(|f| f.ident()).collect();
    assert_eq!(idents, vec!["hooks.on_create", "hooks.on_launch", "hooks.on_destroy"]);
}

#[test]
fn global_only_fields_are_shown_in_global_scope_only() {
    let global = default_config();
    let profile = ProfileConfig { description: Some("d".into()), ..ProfileConfig::default() };
    let rows = build(SettingsCategory::Theme, SettingsScope::Profile, &global, &profile);
    assert_eq!(rows.len(), 1);
    assert_eq!(rows[0].ident(), "__profile.description");
    assert!(rows[0].has_override);
    assert_eq!(rows[0].display_value(), "d");
    let rows = build(SettingsCategory::Theme, SettingsScope::Global, &global, &profile);
    assert_eq!(rows.len(), 1);
    assert!(rows[0].is_theme_name());
    assert_eq!(rows[0].schema_section(), Some("theme"));
    // A plugin's setting shows its declared default until a value is stored.
    let rows = build(SettingsCategory::Plugins, SettingsScope::Global, &global, &profile);
    assert!(matches!(rows[0].value, FieldValue::Number(3)));
    let stored = json("{\"plugins\": {\"acme.kit\": {\"settings\": {\"retries\": 8}}}}");
    let rows = build(SettingsCategory::Plugins, SettingsScope::Global, &stored, &profile);
    assert!(matches!(rows[0].value, FieldValue::Number(8)));
}

#[test]
fn logging_targets_get_a_row_each() {
    let rows = build(SettingsCategory::Logging, SettingsScope::Global, &default_config(), &ProfileConfig::default());
    assert_eq!(rows.len(), 2);
    assert_eq!(rows[1].ident(), "logging.targets.1");
    assert_eq!(rows[0].display_value(), "(default)");
    assert_eq!(rows[1].display_value(), "debug");
    let mut profile = ProfileConfig::default();
    let mut row = rows.into_iter().nth(1).expect("two rows");
    row.value = FieldValue::Select { selected: 0, options: vec!["(default)".into()] };
    let updated = apply_field_to_config(&row, SettingsScope::Global, &default_config(), &mut profile, &host())
        .expect("changes");
    assert_eq!(to_value(&updated)["logging"]["targets"], value("{}"));
    row.value = FieldValue::Select { selected: 0, options: vec!["warn".into()] };
    let updated = apply_field_to_config(&row, SettingsScope::Profile, &default_config(), &mut profile, &host())
        .expect("logging is global whatever the scope");
    assert_eq!(to_value(&updated)["logging"]["targets"]["http"], Value::from("warn"));
    row.kind = FieldKind::LoggingTarget(9);
    assert!(apply_field_to_config(&row, SettingsScope::Global, &default_config(), &mut profile, &host()).is_none());
}

#[test]
fn overrides_are_cleared() {
    let global = default_config();
    let mut profile = profile_from("{\"updates\": {\"update_check_mode\": \"off\", \"x\": 1}, \"environment\": [\"B\"]}");
    let rows = build(SettingsCategory::Updates, SettingsScope::Profile, &global, &profile);
    clear_override(field(&rows, "updates.update_check_mode"), &mut profile);
    assert!(!has_override_path(&profile, "updates", "update_check_mode"));
    assert!(has_override_path(&profile, "updates", "x"));
    let rows = build(SettingsCategory::Session, SettingsScope::Profile, &global, &profile);
    let env = field(&rows, "environment");
    assert!(env.has_override);
    assert_eq!(env.inherited_display.as_deref(), Some("[1 items]"));
    clear_override(env, &mut profile);
    assert!(to_value(&profile.to_json()).get("environment").is_none());
    // Cleared again, nothing changes.
    let rows = build(SettingsCategory::Session, SettingsScope::Profile, &global, &profile);
    clear_override(field(&rows, "environment"), &mut profile);
    assert_eq!(to_value(&profile.to_json()), value("{\"updates\": {\"x\": 1}}"));
    let mut doc = json("{\"a\": {\"b\": 1}, \"c\": 2}");
    clear_path(&mut doc, "a", "b");
    clear_path(&mut doc, "c", "d");
    assert_eq!(to_value(&doc), value("{\"a\": {}, \"c\": 2}"));
}

#[test]
fn hook_overrides_are_cleared_one_by_one() {
    let global = default_config();
    let text = "{\"hooks\": {\"on_create\": [\"a\"], \"on_launch\": [\"b\"]}, \"tmux\": {\"x\": 1}}";
    let mut profile = profile_from(text);
    profile.description = Some("mine".to_string());
    let rows = build(SettingsCategory::Hooks, SettingsScope::Profile, &global, &profile);
    let want = value("{\"hooks\": {\"on_launch\": [\"b\"]}, \"tmux\": {\"x\": 1}, \"description\": \"mine\"}");
    clear_override(field(&rows, "hooks.on_create"), &mut profile);
    assert_eq!(to_value(&profile.to_json()), want);
    clear_override(field(&rows, "hooks.on_create"), &mut profile);
    assert_eq!(to_value(&profile.to_json()), want);
}

#[test]
fn acp_defaults_that_are_empty_stay_empty() {
    for v in [Json::Null, json("{}")] {
        let shown = custom_value_from_json("acp-defaults", &v, &host(), &SOUND);
        assert!(matches!(&shown, FieldValue::Text(t) if t == "{}"));
        assert_eq!(to_value(&custom_value_to_json("acp-defaults", &shown, &host())), value("{}"));
    }
    for text in ["  ", " {} ", "{", "3", "null"] {
        let shown = FieldValue::Text(text.to_string());
        assert_eq!(to_value(&custom_value_to_json("acp-defaults", &shown, &host())), value("{}"), "{text}");
    }
}

#[test]
fn hooks_environment_and_description_are_applied() {
    let global = default_config();
    let mut profile = ProfileConfig::default();
    let rows = build(SettingsCategory::Hooks, SettingsScope::Global, &global, &profile);
    let hook = &rows[0];
    assert!(matches!(hook.kind, FieldKind::Hook(HookField::OnCreate)));
    let updated =
        apply_field_to_config(hook, SettingsScope::Global, &global, &mut profile, &host()).expect("changes");
    assert_eq!(to_value(&updated)["hooks"]["on_create"], value("[\"make\"]"));
    let mut rows = build(SettingsCategory::Session, SettingsScope::Global, &global, &profile);
    let mut env = rows.pop().expect("the environment");
    env.value = FieldValue::List(vec!["K=v".into()]);
    apply_field_to_config(&env, SettingsScope::Repo, &global, &mut profile, &host());
    assert_eq!(to_value(&profile.to_json())["environment"], value("[\"K=v\"]"));
    let row = SettingField {
        kind: FieldKind::ProfileDescription,
        label: String::new(),
        description: String::new(),
        value: FieldValue::OptionalText(Some("  hi ".into())),
        category: SettingsCategory::Theme,
        has_override: false,
        inherited_display: None,
    };
    apply_field_to_config(&row, SettingsScope::Global, &global, &mut profile, &host());
    assert!(profile.description.is_none());
    apply_field_to_config(&row, SettingsScope::Profile, &global, &mut profile, &host());
    assert_eq!(profile.description.as_deref(), Some("hi"));
    assert_eq!(
        field_value_to_json(&row.kind, &FieldValue::OptionalText(Some(" ".into())), &host()).map(|j| to_value(&j)),
        Some(Value::Null)
    );
    assert!(field_value_to_json(&FieldKind::SectionMarker, &FieldValue::SectionHeader, &host()).is_none());
}

#[test]
fn lists_are_read_and_written() {
    assert_eq!(json_to_list(&json("{\"b\": \"2\", \"a\": \"1\", \"a.\": 3}")), vec!["a.=", "a=1", "b=2"]);
    assert_eq!(json_to_list(&json("[\"x\", 1]")), vec!["x", ""]);
    assert!(json_to_list(&json("true")).is_empty());
    assert_eq!(
        to_value(&parse_key_value_object(&vec!["a=1=2".into(), "b".into(), "a=3".into(), "=x".into()])),
        value("{\"a\": \"3\", \"\": \"x\"}")
    );
    // A map edited as a list stays a map; any other list an array.
    let lines = FieldValue::List(vec!["k=v".into()]);
    assert_eq!(
        to_value(&schema_value_to_json(&WidgetKind::List, "session", "custom_agents", &lines, &host())),
        value("{\"k\": \"v\"}")
    );
    assert_eq!(
        to_value(&schema_value_to_json(&WidgetKind::List, "sandbox", "environment", &lines, &host())),
        value("[\"k=v\"]")
    );
}

#[test]
fn values_round_trip() {
    let cases = vec![
        (WidgetKind::Toggle, "true"),
        (text(), "\"x\""),
        (WidgetKind::OptionalText { mono: true }, "null"),
        (WidgetKind::OptionalText { mono: true }, "\"y\""),
        (number(), "12"),
        (update_modes(), "\"off\""),
        (WidgetKind::List, "[\"a\", \"b\"]"),
        (WidgetKind::Cron, "\"* * * * *\""),
        (
            WidgetKind::ObjectList { id_field: "id".into(), fields: Vec::new(), min_items: None, max_items: None },
            "[{\"id\": \"a\", \"n\": [1, {\"m\": null}]}]",
        ),
        (WidgetKind::Custom { id: "theme-name".into() }, "\"rose-pine\""),
        (WidgetKind::Custom { id: "default-tool".into() }, "\"gemini\""),
        (WidgetKind::Custom { id: "smart-rename-agent".into() }, "\"gemini\""),
        (WidgetKind::Custom { id: "acp-defaults".into() }, "{\"a\": {\"model\": \"m\"}}"),
    ];
    for (widget, text) in cases {
        let v = json(text);
        let shown = value_from_json(&widget, Some(&v), &host(), &SOUND);
        assert_eq!(
            to_value(&schema_value_to_json(&widget, "s", "f", &shown, &host())),
            value(text),
            "{text}"
        );
    }
    let map = json("{\"b\": \"2\", \"a\": \"1\"}");
    let shown = value_from_json(&WidgetKind::List, Some(&map), &host(), &SOUND);
    assert_eq!(
        to_value(&schema_value_to_json(&WidgetKind::List, "session", "agent_extra_args", &shown, &host())),
        to_value(&map)
    );
}

#[test]
fn sound_settings_go_by_the_host() {
    let chosen = SoundChoice { specific: true, volume: 0 };
    let mode = custom_value_from_json("sound-mode", &Json::Null, &host(), &chosen);
    assert!(matches!(mode, FieldValue::Select { selected: 1, .. }));
    assert_eq!(to_value(&custom_value_to_json("sound-mode", &mode, &host())), value("{\"specific\": \"\"}"));
    let volume = custom_value_from_json("sound-volume", &Json::Null, &host(), &chosen);
    assert!(matches!(volume, FieldValue::Select { selected: 0, .. }));
    assert_eq!(to_value(&custom_value_to_json("sound-volume", &volume, &host())), value("0.5"));
    let out = FieldValue::Select { selected: 9, options: Vec::new() };
    assert_eq!(to_value(&custom_value_to_json("sound-volume", &out, &host())), Value::Null);
    assert_eq!(to_value(&custom_value_to_json("default-tool", &out, &host())), Value::Null);
    assert_eq!(
        installed_oneshot_agents(&vec!["a".into(), "b".into(), "c".into()], &vec![true, false, true]),
        vec!["a", "c"]
    );
}

fn schema_row(section: &str, field: &str, widget: WidgetKind, value: FieldValue) -> SettingField {
    SettingField {
        kind: FieldKind::Schema {
            section: section.into(),
            field: field.into(),
            widget,
            validation: ValidationKind::RangeU64 { min: 1, max: None },
            profile_overridable: true,
        },
        label: String::new(),
        description: String::new(),
        value,
        category: SettingsCategory::Session,
        has_override: false,
        inherited_display: None,
    }
}

#[test]
fn rows_are_validated() {
    let snooze = schema_row("session", "snooze_duration_minutes", number(), FieldValue::Number(0));
    assert_eq!(snooze.validate(Err("too short".into()), Ok(())).unwrap_err(), "too short");
    assert!(snooze.validate(Ok(()), Err("x".into())).is_ok());
    let other = schema_row("session", "other", number(), FieldValue::Number(0));
    assert_eq!(other.validate(Ok(()), Ok(())).unwrap_err(), "must be at least 1");
    let sound = schema_row(
        "sound",
        "on_start",
        WidgetKind::OptionalText { mono: false },
        FieldValue::OptionalText(Some("ding".into())),
    );
    assert_eq!(sound.validate(Ok(()), Err("no such sound".into())).unwrap_err(), "no such sound");
    let defaults = |s: &str| {
        schema_row("acp", "acp_defaults", WidgetKind::Custom { id: "acp-defaults".into() }, FieldValue::Text(s.into()))
            .validate(Ok(()), Ok(()))
    };
    assert!(defaults(" ").is_ok());
    assert!(defaults("{\"a\": {}}").is_ok());
    assert_eq!(defaults("[1]").unwrap_err(), "Must be a JSON object (agent -> {model, effort})");
    assert!(defaults("{").unwrap_err().starts_with("Invalid JSON: "));
    assert!(validate_read_defaults(Ok(json("{}"))).is_ok());
    assert_eq!(validate_read_defaults(Err("e".into())).unwrap_err(), "Invalid JSON: e");
    assert!(snooze.is_section_header() == false);
    assert!(schema_row("sandbox", "custom_instruction", text(), FieldValue::Bool(true)).is_custom_instruction());
    let grammar = |s: &str, f: &str| schema_row(s, f, WidgetKind::List, FieldValue::Bool(true)).list_item_validation();
    assert_eq!(grammar("session", "agent_extra_args"), ListItemValidation::AgentKeyValue);
    assert_eq!(grammar("session", "custom_agents"), ListItemValidation::CustomAgent);
    assert_eq!(grammar("session", "agent_detect_as"), ListItemValidation::DetectAs);
    assert_eq!(grammar("session", "agent_acp_cmd"), ListItemValidation::AcpCmd);
    assert_eq!(grammar("sandbox", "environment"), ListItemValidation::EnvEntry);
    assert_eq!(grammar("sandbox", "custom_agents"), ListItemValidation::Unchecked);
    assert_eq!(SettingsCategory::Hooks.label(), "Lifecycle Hooks");
    assert_eq!(schema_row("a", "b", text(), FieldValue::List(vec!["x".into()])).display_value(), "[1 items]");
    assert_eq!(schema_row("a", "b", text(), FieldValue::Text(String::new())).display_value(), "(empty)");
}
