//! The rows of a settings tab, built from the schema and the current documents.

use vstd::prelude::*;

use crate::fields::values::{
    field_check, field_value, json_to_list, list_lines, or_null, shown_value, validate_field_value,
    value_display_string, value_from_json, FieldV, FieldValue, HostChoices, SoundChoice,
};
use crate::json::{json_of, json_read, member, read_json, read_result, Json, JsonV};
use crate::profile_config::{outcome, ProfileConfig};
use crate::settings::merge::{merge_json, merged, step};
use crate::settings::plugin::{plugin_prefix, section_plugin_id, storage_value, stored};
use crate::settings::schema::{FieldDescriptor, ValidationKind, WidgetKind};
use crate::text::{
    after_prefix, copy_text, decimal, is_empty, join2, join3, position, same, show, text_of, texts, trim, trimmed,
};

verus! {

/// Where an edit goes: the global configuration, a profile's overrides, or a repository's.
#[derive(Debug, Clone, Copy, PartialEq, Eq, Structural)]
pub enum SettingsScope {
    Global,
    Profile,
    Repo,
}

/// The tabs of the settings screen.
#[derive(Debug, Clone, Copy, PartialEq, Eq, Structural)]
pub enum SettingsCategory {
    Theme,
    Updates,
    Telemetry,
    Worktree,
    Sandbox,
    Tmux,
    Session,
    Agents,
    Interaction,
    Sound,
    StatusHooks,
    Hooks,
    Web,
    Acp,
    Diff,
    Logging,
    Plugins,
}

impl SettingsCategory {
    /// The name of a tab, which is also the category that the schema gives the fields in it.
    pub open spec fn name(&self) -> Seq<char> {
        match *self {
            SettingsCategory::Theme => "Theme"@,
            SettingsCategory::Updates => "Updates"@,
            SettingsCategory::Telemetry => "Telemetry"@,
            SettingsCategory::Worktree => "Worktree"@,
            SettingsCategory::Sandbox => "Sandbox"@,
            SettingsCategory::Tmux => "Tmux"@,
            SettingsCategory::Session => "Session"@,
            SettingsCategory::Agents => "Agents"@,
            SettingsCategory::Interaction => "Interaction"@,
            SettingsCategory::Sound => "Sound"@,
            SettingsCategory::StatusHooks => "Status Hooks"@,
            SettingsCategory::Hooks => "Lifecycle Hooks"@,
            SettingsCategory::Web => "Web"@,
            SettingsCategory::Acp => "Acp"@,
            SettingsCategory::Diff => "Diff"@,
            SettingsCategory::Logging => "Logging"@,
            SettingsCategory::Plugins => "Plugins"@,
        }
    }

    /// The name shown on the tab.
    pub fn label(&self) -> (r: &'static str)
        ensures
            r@ == self.name(),
    {
        match self {
            SettingsCategory::Theme => "Theme",
            SettingsCategory::Updates => "Updates",
            SettingsCategory::Telemetry => "Telemetry",
            SettingsCategory::Worktree => "Worktree",
            SettingsCategory::Sandbox => "Sandbox",
            SettingsCategory::Tmux => "Tmux",
            SettingsCategory::Session => "Session",
            SettingsCategory::Agents => "Agents",
            SettingsCategory::Interaction => "Interaction",
            SettingsCategory::Sound => "Sound",
            SettingsCategory::StatusHooks => "Status Hooks",
            SettingsCategory::Hooks => "Lifecycle Hooks",
            SettingsCategory::Web => "Web",
            SettingsCategory::Acp => "Acp",
            SettingsCategory::Diff => "Diff",
            SettingsCategory::Logging => "Logging",
            SettingsCategory::Plugins => "Plugins",
        }
    }

    /// The category that the schema gives the fields of this tab.
    pub fn schema_name(&self) -> (r: &'static str)
        ensures
            r@ == self.name(),
    {
        self.label()
    }
}

/// The lists of lifecycle hooks.
#[derive(Debug, Clone, Copy, PartialEq, Eq, Structural)]
pub enum HookField {
    OnCreate,
    OnLaunch,
    OnDestroy,
}

impl HookField {
    /// The field of the `hooks` section that holds the list.
    pub open spec fn name(&self) -> Seq<char> {
        match *self {
            HookField::OnCreate => "on_create"@,
            HookField::OnLaunch => "on_launch"@,
            HookField::OnDestroy => "on_destroy"@,
        }
    }

    /// The field of the `hooks` section that holds the list.
    pub fn field(&self) -> (r: &'static str)
        ensures
            r@ == self.name(),
    {
        match self {
            HookField::OnCreate => "on_create",
            HookField::OnLaunch => "on_launch",
            HookField::OnDestroy => "on_destroy",
        }
    }
}

/// What a row edits.
#[derive(Debug)]
pub enum FieldKind {
    /// A field of the schema.
    Schema {
        section: String,
        field: String,
        widget: WidgetKind,
        validation: ValidationKind,
        profile_overridable: bool,
    },
    /// The description of a profile.
    ProfileDescription,
    /// A list of lifecycle hooks.
    Hook(HookField),
    /// The environment of the host, which stands at the root of the configuration.
    HostEnvironment,
    /// The log level of one target, by its index.
    LoggingTarget(usize),
    /// A heading.
    SectionMarker,
}

/// A row of the settings screen.
#[derive(Debug)]
pub struct SettingField {
    pub kind: FieldKind,
    pub label: String,
    pub description: String,
    pub value: FieldValue,
    pub category: SettingsCategory,
    /// Whether the profile or repository sets the field.
    pub has_override: bool,
    /// The inherited value as text, where the field is overridden.
    pub inherited_display: Option<String>,
}

/// The grammar of the entries of a list row.
#[derive(Debug, Clone, Copy, PartialEq, Eq, Structural)]
pub enum ListItemValidation {
    Unchecked,
    /// `agent=value` of a known agent.
    AgentKeyValue,
    /// `name=command` under a name that no built-in agent has.
    CustomAgent,
    /// `name=agent` of a known agent.
    DetectAs,
    /// `name=command`, the launch command of an agent.
    AcpCmd,
    /// An environment entry.
    EnvEntry,
}

impl SettingField {
    /// Whether the row is a heading.
    pub fn is_section_header(&self) -> (r: bool)
        ensures
            r == (self.value is SectionHeader),
    {
        matches!(self.value, FieldValue::SectionHeader)
    }

    /// The value as text.
    pub fn display_value(&self) -> (r: String)
        ensures
            r@ == shown_value(self.value@),
    {
        value_display_string(&self.value)
    }

    /// The section of the schema that the row edits.
    pub fn schema_section(&self) -> (r: Option<&str>)
        ensures
            match (r, self.kind) {
                (Some(s), FieldKind::Schema { section, .. }) => s@ == section@,
                (None, FieldKind::Schema { .. }) => false,
                (Some(_), _) => false,
                (None, _) => true,
            },
    {
        match &self.kind {
            FieldKind::Schema { section, .. } => Some(section.as_str()),
            _ => None,
        }
    }

    /// The name by which a row is found again.
    pub open spec fn identity(&self) -> Seq<char> {
        match self.kind {
            FieldKind::Schema { section, field, .. } => section@ + "."@ + field@,
            FieldKind::ProfileDescription => "__profile.description"@,
            FieldKind::Hook(h) => "hooks."@ + h.name(),
            FieldKind::HostEnvironment => "environment"@,
            FieldKind::LoggingTarget(i) => "logging.targets."@ + decimal(i as nat),
            FieldKind::SectionMarker => "__section."@ + self.label@,
        }
    }

    /// The name by which a row is found again.
    pub fn ident(&self) -> (r: String)
        ensures
            r@ == self.identity(),
    {
        match &self.kind {
            FieldKind::Schema { section, field, .. } => join3(section.as_str(), ".", field.as_str()),
            FieldKind::ProfileDescription => "__profile.description".to_owned(),
            FieldKind::Hook(h) => join2("hooks.", h.field()),
            FieldKind::HostEnvironment => "environment".to_owned(),
            FieldKind::LoggingTarget(i) => join2("logging.targets.", show(*i as u64).as_str()),
            FieldKind::SectionMarker => join2("__section.", self.label.as_str()),
        }
    }

    /// Whether the row edits a given field of the schema.
    pub open spec fn edits(&self, s: Seq<char>, f: Seq<char>) -> bool {
        match self.kind {
            FieldKind::Schema { section, field, .. } => section@ == s && field@ == f,
            _ => false,
        }
    }

    /// Whether the row is the custom instruction of the sandbox.
    pub fn is_custom_instruction(&self) -> (r: bool)
        ensures
            r == self.edits("sandbox"@, "custom_instruction"@),
    {
        match &self.kind {
            FieldKind::Schema { section, field, .. } => same(section.as_str(), "sandbox") && same(
                field.as_str(),
                "custom_instruction",
            ),
            _ => false,
        }
    }

    /// The id of the row's own widget, where it has one.
    pub open spec fn custom_widget(&self) -> Option<Seq<char>> {
        match self.kind {
            FieldKind::Schema { widget: WidgetKind::Custom { id }, .. } => Some(id@),
            _ => None,
        }
    }

    /// Whether the row is the theme picker.
    pub fn is_theme_name(&self) -> (r: bool)
        ensures
            r == (self.custom_widget() == Some("theme-name"@)),
    {
        self.has_custom_widget("theme-name")
    }

    fn has_custom_widget(&self, name: &str) -> (r: bool)
        ensures
            r == (self.custom_widget() == Some(name@)),
    {
        match &self.kind {
            FieldKind::Schema { widget, .. } => match widget {
                WidgetKind::Custom { id } => same(id.as_str(), name),
                _ => false,
            },
            _ => false,
        }
    }

    /// The grammar of the entries of a row.
    pub open spec fn item_grammar(&self) -> ListItemValidation {
        if self.edits("session"@, "agent_extra_args"@) || self.edits("session"@, "agent_command_override"@) {
            ListItemValidation::AgentKeyValue
        } else if self.edits("session"@, "custom_agents"@) {
            ListItemValidation::CustomAgent
        } else if self.edits("session"@, "agent_detect_as"@) {
            ListItemValidation::DetectAs
        } else if self.edits("session"@, "agent_acp_cmd"@) {
            ListItemValidation::AcpCmd
        } else if self.edits("sandbox"@, "environment"@) {
            ListItemValidation::EnvEntry
        } else {
            ListItemValidation::Unchecked
        }
    }

    /// The grammar of the entries of a row.
    pub fn list_item_validation(&self) -> (r: ListItemValidation)
        ensures
            r == self.item_grammar(),
    {
        proof {
            reveal_strlit("session");
            reveal_strlit("sandbox");
            assert("session"@[1] != "sandbox"@[1]);
        }
        match &self.kind {
            FieldKind::Schema { section, field, .. } => {
                if same(section.as_str(), "session") {
                    let f = field.as_str();
                    if same(f, "agent_extra_args") || same(f, "agent_command_override") {
                        ListItemValidation::AgentKeyValue
                    } else if same(f, "custom_agents") {
                        ListItemValidation::CustomAgent
                    } else if same(f, "agent_detect_as") {
                        ListItemValidation::DetectAs
                    } else if same(f, "agent_acp_cmd") {
                        ListItemValidation::AcpCmd
                    } else {
                        ListItemValidation::Unchecked
                    }
                } else if same(section.as_str(), "sandbox") && same(field.as_str(), "environment") {
                    ListItemValidation::EnvEntry
                } else {
                    ListItemValidation::Unchecked
                }
            },
            _ => ListItemValidation::Unchecked,
        }
    }

    /// How the value of the row is checked, given what the host says of a snooze duration and
    /// of a named sound.
    pub open spec fn check(&self, snooze: Result<(), Seq<char>>, sound: Result<(), Seq<char>>) -> Result<
        (),
        Seq<char>,
    > {
        match (self.kind, self.value@) {
            (FieldKind::Schema { section, field, widget, validation, .. }, v) => if self.edits(
                "session"@,
                "snooze_duration_minutes"@,
            ) && v is Number {
                snooze
            } else if self.custom_widget() == Some("acp-defaults"@) && v is Text {
                defaults_check(v->Text_0)
            } else if section@ == "sound"@ && (v matches FieldV::OptionalText(Some(_))) {
                if v->OptionalText_0->0.len() == 0 {
                    Ok(())
                } else {
                    sound
                }
            } else {
                field_check(validation, v)
            },
            _ => Ok(()),
        }
    }

    /// Checks the value of the row. `snooze` is what the host says of the row's number as a snooze
    /// duration, `sound_exists` what it says of its text as the name of a sound.
    pub fn validate(&self, snooze: Result<(), String>, sound_exists: Result<(), String>) -> (r: Result<(), String>)
        ensures
            outcome(r) == self.check(outcome(snooze), outcome(sound_exists)),
    {
        match &self.kind {
            FieldKind::Schema { section, field, widget, validation, .. } => {
                if same(section.as_str(), "session") && same(field.as_str(), "snooze_duration_minutes") {
                    if let FieldValue::Number(_) = &self.value {
                        return snooze;
                    }
                }
                if self.has_custom_widget("acp-defaults") {
                    if let FieldValue::Text(s) = &self.value {
                        return validate_defaults(s.as_str());
                    }
                }
                if same(section.as_str(), "sound") {
                    if let FieldValue::OptionalText(Some(name)) = &self.value {
                        if is_empty(name.as_str()) {
                            return Ok(());
                        }
                        return sound_exists;
                    }
                }
                validate_field_value(validation, &self.value)
            },
            _ => Ok(()),
        }
    }
}

/// How the text of the agent defaults is checked: blank, or a JSON object.
pub open spec fn defaults_check(s: Seq<char>) -> Result<(), Seq<char>> {
    if trimmed(s).len() == 0 {
        Ok(())
    } else {
        read_defaults_check(json_read(trimmed(s)))
    }
}

/// How the agent defaults are checked once they have been read.
pub open spec fn read_defaults_check(read: Result<JsonV, Seq<char>>) -> Result<(), Seq<char>> {
    match read {
        Ok(v) => if v is Object {
            Ok(())
        } else {
            Err("Must be a JSON object (agent -> {model, effort})"@)
        },
        Err(e) => Err("Invalid JSON: "@ + e),
    }
}

/// Checks the agent defaults once they have been read.
pub fn validate_read_defaults(read: Result<Json, String>) -> (r: Result<(), String>)
    ensures
        outcome(r) == read_defaults_check(read_result(read)),
{
    match read {
        Ok(v) => match v {
            Json::Object(_) => Ok(()),
            _ => Err("Must be a JSON object (agent -> {model, effort})".to_owned()),
        },
        Err(e) => Err(join2("Invalid JSON: ", e.as_str())),
    }
}

fn validate_defaults(s: &str) -> (r: Result<(), String>)
    ensures
        outcome(r) == defaults_check(s@),
{
    let t = trim(s);
    if is_empty(t.as_str()) {
        return Ok(());
    }
    validate_read_defaults(read_json(t.as_str()))
}

/// The documents that the rows of a tab are built from.
pub struct BuildCtx<'a> {
    pub scope: SettingsScope,
    pub base: &'a Json,
    pub over: &'a Json,
    pub effective: &'a Json,
    pub host: &'a HostChoices,
    pub base_sound: SoundChoice,
    pub effective_sound: SoundChoice,
}

/// The leaf of a field in a document.
pub open spec fn leaf_at(root: JsonV, section: Seq<char>, field: Seq<char>) -> Option<JsonV> {
    step(member(root, section), field)
}

/// The leaf of a field in a document.
pub fn json_at<'a>(root: &'a Json, section: &str, field: &str) -> (r: Option<&'a Json>)
    ensures
        json_of(r) == leaf_at(root@, section@, field@),
{
    match root.get(section) {
        Some(s) => s.get(field),
        None => None,
    }
}

impl<'a> BuildCtx<'a> {
    /// Whether the profile or repository sets a field.
    pub open spec fn overrides(&self, section: Seq<char>, field: Seq<char>) -> bool {
        self.scope != SettingsScope::Global && leaf_at(self.over@, section, field) is Some
    }

    /// Whether the profile or repository sets a field.
    pub fn has_override(&self, section: &str, field: &str) -> (r: bool)
        ensures
            r == self.overrides(section@, field@),
    {
        !matches!(self.scope, SettingsScope::Global) && json_at(self.over, section, field).is_some()
    }

    /// The JSON that a field of the schema has in effect. The settings of a plugin are stored
    /// elsewhere, and have their declared default where nothing is stored.
    pub open spec fn current(&self, d: FieldDescriptor) -> JsonV {
        match after_prefix(d.section@, plugin_prefix()) {
            Some(id) => match stored(self.effective@, id, d.field@) {
                Some(v) => v,
                None => match d.default {
                    Some(v) => v@,
                    None => JsonV::Null,
                },
            },
            None => or_null(leaf_at(self.effective@, d.section@, d.field@)),
        }
    }

    /// Whether a row is the one of a field of the schema.
    pub open spec fn is_schema_row(&self, r: SettingField, category: SettingsCategory, d: FieldDescriptor) -> bool {
        &&& r.kind == (FieldKind::Schema {
            section: d.section,
            field: d.field,
            widget: d.widget,
            validation: d.validation,
            profile_overridable: d.profile_overridable,
        })
        &&& r.label == d.label
        &&& r.description == d.description
        &&& r.category == category
        &&& r.value@ == field_value(d.widget, self.current(d), *self.host, self.effective_sound)
        &&& r.has_override == (d.profile_overridable && self.overrides(d.section@, d.field@))
        &&& text_of(r.inherited_display) == if r.has_override {
            Some(
                shown_value(
                    field_value(
                        d.widget,
                        or_null(leaf_at(self.base@, d.section@, d.field@)),
                        *self.host,
                        self.base_sound,
                    ),
                ),
            )
        } else {
            None
        }
    }

    /// Whether a row shows a list under its own label, with the inherited list where it is overridden.
    pub open spec fn is_list_row(
        &self,
        r: SettingField,
        kind: FieldKind,
        category: SettingsCategory,
        effective: Option<JsonV>,
        base: Option<JsonV>,
        overridden: bool,
    ) -> bool {
        &&& r.kind == kind
        &&& r.category == category
        &&& r.value@ == FieldV::List(list_lines(or_null(effective)))
        &&& r.has_override == overridden
        &&& text_of(r.inherited_display) == if overridden {
            Some(shown_value(FieldV::List(list_lines(or_null(base)))))
        } else {
            None
        }
    }

    /// Whether a row is the one of a list of lifecycle hooks.
    pub open spec fn is_hook_row(&self, r: SettingField, hook: HookField) -> bool {
        &&& self.is_list_row(
            r,
            FieldKind::Hook(hook),
            SettingsCategory::Hooks,
            leaf_at(self.effective@, "hooks"@, hook.name()),
            leaf_at(self.base@, "hooks"@, hook.name()),
            self.overrides("hooks"@, hook.name()),
        )
        &&& r.label@ == hook_label(hook)
        &&& r.description@ == hook_description(hook)
    }

    /// Whether a row is the one of the host environment.
    pub open spec fn is_environment_row(&self, r: SettingField) -> bool {
        &&& self.is_list_row(
            r,
            FieldKind::HostEnvironment,
            SettingsCategory::Session,
            member(self.effective@, "environment"@),
            member(self.base@, "environment"@),
            self.scope != SettingsScope::Global && member(self.over@, "environment"@) is Some,
        )
        &&& r.label@ == "Host Environment"@
        &&& r.description@ == environment_description()
    }

    /// The log level that is set for a target.
    pub open spec fn level_of(&self, target: Seq<char>) -> Seq<char> {
        match step(leaf_at(self.effective@, "logging"@, "targets"@), target) {
            Some(JsonV::Text(s)) => s,
            _ => "(default)"@,
        }
    }

    /// Whether a row is the one of a logging target.
    pub open spec fn is_logging_row(&self, r: SettingField, category: SettingsCategory, i: int) -> bool {
        let target = self.host.logging_targets@[i]@;
        &&& r.kind == FieldKind::LoggingTarget(i as usize)
        &&& r.label@ == target
        &&& r.description@ == "Per-target override; (default) inherits the baseline."@
        &&& r.value@ == (FieldV::Select {
            selected: crate::fields::values::index_or_first(level_names(), self.level_of(target)),
            options: level_names(),
        })
        &&& r.category == category
        &&& !r.has_override
        &&& r.inherited_display is None
    }
}

pub open spec fn hook_label(hook: HookField) -> Seq<char> {
    match hook {
        HookField::OnCreate => "On Create"@,
        HookField::OnLaunch => "On Launch"@,
        HookField::OnDestroy => "On Destroy"@,
    }
}

pub open spec fn hook_description(hook: HookField) -> Seq<char> {
    match hook {
        HookField::OnCreate => "Commands run once when a session is first created. Runs inside sandbox when enabled."@,
        HookField::OnLaunch => "Commands run every time a session starts. Runs inside sandbox when enabled."@,
        HookField::OnDestroy => "Commands run when a session is deleted, before cleanup. Use for teardown (e.g. docker-compose down)."@,
    }
}

pub open spec fn environment_description() -> Seq<char> {
    "Env vars injected into the host command line: KEY=value (literal), KEY=$VAR (passthrough from host), KEY=$$literal (escape a leading $), or bare KEY (passthrough). All forms resolve to a literal `KEY=value` arg in the spawned process, visible in `ps`; for secrets you want hidden from argv, configure Sandbox > Sandbox Environment instead. Profile value replaces the global list."@
}

/// The choices of a log level.
pub open spec fn level_names() -> Seq<Seq<char>> {
    seq!["(default)"@, "trace"@, "debug"@, "info"@, "warn"@, "error"@]
}

fn log_levels() -> (r: Vec<String>)
    ensures
        texts(r@) == level_names(),
{
    let mut out: Vec<String> = Vec::new();
    out.push("(default)".to_owned());
    out.push("trace".to_owned());
    out.push("debug".to_owned());
    out.push("info".to_owned());
    out.push("warn".to_owned());
    out.push("error".to_owned());
    assert(texts(out@) =~= level_names());
    out
}

/// Builds the row of a field of the schema.
pub fn build_schema_row(category: SettingsCategory, desc: FieldDescriptor, ctx: &BuildCtx) -> (r: SettingField)
    ensures
        ctx.is_schema_row(r, category, desc),
{
    let current = match section_plugin_id(desc.section.as_str()) {
        Some(id) => match storage_value(ctx.effective, id, desc.field.as_str()) {
            Some(v) => Some(v),
            None => match &desc.default {
                Some(v) => Some(v),
                None => None,
            },
        },
        None => json_at(ctx.effective, desc.section.as_str(), desc.field.as_str()),
    };
    let value = value_from_json(&desc.widget, current, ctx.host, &ctx.effective_sound);
    let has_override = desc.profile_overridable && ctx.has_override(desc.section.as_str(), desc.field.as_str());
    let inherited_display = if has_override {
        let inherited = value_from_json(
            &desc.widget,
            json_at(ctx.base, desc.section.as_str(), desc.field.as_str()),
            ctx.host,
            &ctx.base_sound,
        );
        Some(value_display_string(&inherited))
    } else {
        None
    };
    SettingField {
        kind: FieldKind::Schema {
            section: desc.section,
            field: desc.field,
            widget: desc.widget,
            validation: desc.validation,
            profile_overridable: desc.profile_overridable,
        },
        label: desc.label,
        description: desc.description,
        value,
        category,
        has_override,
        inherited_display,
    }
}

fn list_or_empty(v: Option<&Json>) -> (r: FieldValue)
    ensures
        r@ == FieldV::List(list_lines(or_null(json_of(v)))),
{
    match v {
        Some(v) => FieldValue::List(json_to_list(v)),
        None => FieldValue::List(json_to_list(&Json::Null)),
    }
}

fn build_hook_row(hook: HookField, label: &str, description: &str, ctx: &BuildCtx) -> (r: SettingField)
    requires
        label@ == hook_label(hook),
        description@ == hook_description(hook),
    ensures
        ctx.is_hook_row(r, hook),
{
    let field = hook.field();
    let has_override = ctx.has_override("hooks", field);
    let inherited_display = if has_override {
        Some(value_display_string(&list_or_empty(json_at(ctx.base, "hooks", field))))
    } else {
        None
    };
    SettingField {
        kind: FieldKind::Hook(hook),
        label: label.to_owned(),
        description: description.to_owned(),
        value: list_or_empty(json_at(ctx.effective, "hooks", field)),
        category: SettingsCategory::Hooks,
        has_override,
        inherited_display,
    }
}

/// Builds the three rows of lifecycle hooks.
pub fn build_hook_rows(ctx: &BuildCtx) -> (r: Vec<SettingField>)
    ensures
        r@.len() == 3,
        ctx.is_hook_row(r@[0], HookField::OnCreate),
        ctx.is_hook_row(r@[1], HookField::OnLaunch),
        ctx.is_hook_row(r@[2], HookField::OnDestroy),
{
    let mut out: Vec<SettingField> = Vec::new();
    out.push(
        build_hook_row(
            HookField::OnCreate,
            "On Create",
            "Commands run once when a session is first created. Runs inside sandbox when enabled.",
            ctx,
        ),
    );
    out.push(
        build_hook_row(
            HookField::OnLaunch,
            "On Launch",
            "Commands run every time a session starts. Runs inside sandbox when enabled.",
            ctx,
        ),
    );
    out.push(
        build_hook_row(
            HookField::OnDestroy,
            "On Destroy",
            "Commands run when a session is deleted, before cleanup. Use for teardown (e.g. docker-compose down).",
            ctx,
        ),
    );
    out
}

/// Builds the row of the host environment.
pub fn build_host_environment_row(ctx: &BuildCtx) -> (r: SettingField)
    ensures
        ctx.is_environment_row(r),
{
    let has_override = !matches!(ctx.scope, SettingsScope::Global) && ctx.over.get("environment").is_some();
    let inherited_display = if has_override {
        Some(value_display_string(&list_or_empty(ctx.base.get("environment"))))
    } else {
        None
    };
    SettingField {
        kind: FieldKind::HostEnvironment,
        label: "Host Environment".to_owned(),
        description: "Env vars injected into the host command line: KEY=value (literal), KEY=$VAR (passthrough from host), KEY=$$literal (escape a leading $), or bare KEY (passthrough). All forms resolve to a literal `KEY=value` arg in the spawned process, visible in `ps`; for secrets you want hidden from argv, configure Sandbox > Sandbox Environment instead. Profile value replaces the global list.".to_owned(),
        value: list_or_empty(ctx.effective.get("environment")),
        category: SettingsCategory::Session,
        has_override,
        inherited_display,
    }
}

fn level_set<'a>(ctx: &'a BuildCtx, target: &str) -> (r: &'a str)
    ensures
        r@ == ctx.level_of(target@),
{
    match json_at(ctx.effective, "logging", "targets") {
        Some(targets) => match targets.get(target) {
            Some(v) => match v.as_str() {
                Some(s) => s,
                None => "(default)",
            },
            None => "(default)",
        },
        None => "(default)",
    }
}

/// Builds one row for each logging target.
pub fn build_logging_target_rows(category: SettingsCategory, ctx: &BuildCtx) -> (r: Vec<SettingField>)
    ensures
        r@.len() == ctx.host.logging_targets@.len(),
        forall|i: int| 0 <= i < r@.len() ==> ctx.is_logging_row(#[trigger] r@[i], category, i),
{
    let mut out: Vec<SettingField> = Vec::new();
    let mut i: usize = 0;
    while i < ctx.host.logging_targets.len()
        invariant
            i <= ctx.host.logging_targets@.len(),
            out@.len() == i,
            forall|j: int| 0 <= j < i ==> ctx.is_logging_row(#[trigger] out@[j], category, j),
        decreases ctx.host.logging_targets@.len() - i,
    {
        let target = ctx.host.logging_targets[i].as_str();
        let options = log_levels();
        let selected: usize = match position(&options, level_set(ctx, target)) {
            Some(p) => p,
            None => 0,
        };
        let row = SettingField {
            kind: FieldKind::LoggingTarget(i),
            label: target.to_owned(),
            description: "Per-target override; (default) inherits the baseline.".to_owned(),
            value: FieldValue::Select { selected, options },
            category,
            has_override: false,
            inherited_display: None,
        };
        assert(ctx.is_logging_row(row, category, i as int));
        out.push(row);
        i = i + 1;
    }
    out
}

/// What stands in a row of a tab.
pub enum RowPlan {
    Description,
    Hook(HookField),
    Field(FieldDescriptor),
    Logging(int),
    Environment,
    AdvancedMarker,
}

/// Whether a field of the schema is shown in a tab. One that only the global configuration can
/// set is shown nowhere else.
pub open spec fn shown_in(d: FieldDescriptor, category: SettingsCategory, scope: SettingsScope) -> bool {
    d.category@ == category.name() && (scope == SettingsScope::Global || d.profile_overridable)
}

/// Whether a field stands for one row per logging target.
pub open spec fn is_logging_matrix(d: FieldDescriptor) -> bool {
    d.widget matches WidgetKind::Custom { id } && id@ == "logging-targets"@
}

/// The rows above the heading for advanced fields, of the first `n` fields of the schema.
pub open spec fn primary_plan(
    schema: Seq<FieldDescriptor>,
    n: nat,
    category: SettingsCategory,
    scope: SettingsScope,
    targets: nat,
) -> Seq<RowPlan>
    decreases n,
{
    if n == 0 {
        if category == SettingsCategory::Theme && scope == SettingsScope::Profile {
            seq![RowPlan::Description]
        } else {
            Seq::empty()
        }
    } else {
        let before = primary_plan(schema, (n - 1) as nat, category, scope, targets);
        let d = schema[n - 1];
        if !shown_in(d, category, scope) {
            before
        } else if is_logging_matrix(d) {
            before + Seq::new(targets, |i: int| RowPlan::Logging(i))
        } else if d.advanced {
            before
        } else {
            before.push(RowPlan::Field(d))
        }
    }
}

/// The rows of the advanced fields, of the first `n` fields of the schema.
pub open spec fn advanced_plan(
    schema: Seq<FieldDescriptor>,
    n: nat,
    category: SettingsCategory,
    scope: SettingsScope,
) -> Seq<RowPlan>
    decreases n,
{
    if n == 0 {
        Seq::empty()
    } else {
        let before = advanced_plan(schema, (n - 1) as nat, category, scope);
        let d = schema[n - 1];
        if shown_in(d, category, scope) && !is_logging_matrix(d) && d.advanced {
            before.push(RowPlan::Field(d))
        } else {
            before
        }
    }
}

/// The rows of a tab, in order.
pub open spec fn tab_plan(
    schema: Seq<FieldDescriptor>,
    category: SettingsCategory,
    scope: SettingsScope,
    targets: nat,
) -> Seq<RowPlan> {
    if category == SettingsCategory::Hooks {
        seq![
            RowPlan::Hook(HookField::OnCreate),
            RowPlan::Hook(HookField::OnLaunch),
            RowPlan::Hook(HookField::OnDestroy),
        ]
    } else {
        let top = primary_plan(schema, schema.len(), category, scope, targets);
        let primary = if category == SettingsCategory::Session {
            top.push(RowPlan::Environment)
        } else {
            top
        };
        let advanced = advanced_plan(schema, schema.len(), category, scope);
        if advanced.len() == 0 {
            primary
        } else {
            primary.push(RowPlan::AdvancedMarker) + advanced
        }
    }
}

impl<'a> BuildCtx<'a> {
    /// Whether a row is the one that a plan asks for.
    pub open spec fn fulfils(
        &self,
        r: SettingField,
        plan: RowPlan,
        category: SettingsCategory,
        description: Option<Seq<char>>,
    ) -> bool {
        match plan {
            RowPlan::Description => {
                &&& r.kind is ProfileDescription
                &&& r.label@ == "Description"@
                &&& r.description@ == profile_description_help()
                &&& r.value@ == FieldV::OptionalText(description)
                &&& r.category == category
                &&& r.has_override == (description is Some)
                &&& r.inherited_display is None
            },
            RowPlan::Hook(h) => self.is_hook_row(r, h),
            RowPlan::Field(d) => self.is_schema_row(r, category, d),
            RowPlan::Logging(i) => self.is_logging_row(r, category, i),
            RowPlan::Environment => self.is_environment_row(r),
            RowPlan::AdvancedMarker => {
                &&& r.kind is SectionMarker
                &&& r.label@ == "Advanced"@
                &&& r.description@ == advanced_help()
                &&& r.value is SectionHeader
                &&& r.category == category
                &&& !r.has_override
                &&& r.inherited_display is None
            },
        }
    }

    /// Whether rows are those that a plan asks for, in order.
    pub open spec fn fulfils_all(
        &self,
        rows: Seq<SettingField>,
        plan: Seq<RowPlan>,
        category: SettingsCategory,
        description: Option<Seq<char>>,
    ) -> bool {
        rows.len() == plan.len() && forall|i: int|
            0 <= i < rows.len() ==> self.fulfils(#[trigger] rows[i], plan[i], category, description)
    }
}

pub open spec fn profile_description_help() -> Seq<char> {
    "Short, human-readable description of what this profile does. Shown as helper text under the profile name in the new-session picker (TUI + web)."@
}

pub open spec fn advanced_help() -> Seq<char> {
    "Operational tuning, rarely needed after first setup. Adjust only if you've read the description and know what you're changing."@
}

/// The document in effect: the overrides of the profile or repository laid over the base.
pub open spec fn effective_document(scope: SettingsScope, base: JsonV, over: JsonV) -> JsonV {
    if scope == SettingsScope::Global {
        base
    } else {
        merged(base, over)
    }
}

/// Whether rows are those of a tab.
pub open spec fn is_tab(
    rows: Seq<SettingField>,
    category: SettingsCategory,
    scope: SettingsScope,
    base: Json,
    overrides: ProfileConfig,
    schema: Seq<FieldDescriptor>,
    host: HostChoices,
    base_sound: SoundChoice,
    effective_sound: SoundChoice,
) -> bool {
    exists|over: Json, effective: Json|
        {
            let ctx = BuildCtx {
                scope,
                base: &base,
                over: &over,
                effective: &effective,
                host: &host,
                base_sound,
                effective_sound,
            };
            &&& #[trigger] over@ == JsonV::Object(overrides.document())
            &&& #[trigger] effective@ == effective_document(scope, base@, over@)
            &&& ctx.fulfils_all(
                rows,
                tab_plan(schema, category, scope, host.logging_targets@.len()),
                category,
                text_of(overrides.description),
            )
        }
}

fn is_logging_widget(w: &WidgetKind) -> (r: bool)
    ensures
        r == (w matches WidgetKind::Custom { id } && id@ == "logging-targets"@),
{
    match w {
        WidgetKind::Custom { id } => same(id.as_str(), "logging-targets"),
        _ => false,
    }
}

/// Builds the rows of a tab. `base` is the configuration below the scope, `schema` the fields
/// that there are, and the two sound choices are how the host reads the sound settings of the
/// base and of the document in effect.
pub fn build_fields_for_category(
    category: SettingsCategory,
    scope: SettingsScope,
    base: &Json,
    overrides: &ProfileConfig,
    schema: Vec<FieldDescriptor>,
    host: &HostChoices,
    base_sound: SoundChoice,
    effective_sound: SoundChoice,
) -> (r: Vec<SettingField>)
    ensures
        is_tab(r@, category, scope, *base, *overrides, schema@, *host, base_sound, effective_sound),
{
    let over = overrides.to_json();
    let mut effective = base.clone();
    if !matches!(scope, SettingsScope::Global) {
        merge_json(&mut effective, &over);
    }
    let ctx = BuildCtx {
        scope,
        base,
        over: &over,
        effective: &effective,
        host,
        base_sound,
        effective_sound,
    };
    let ghost text = text_of(overrides.description);
    let ghost targets = host.logging_targets@.len();
    if matches!(category, SettingsCategory::Hooks) {
        let rows = build_hook_rows(&ctx);
        assert(ctx.fulfils_all(rows@, tab_plan(schema@, category, scope, targets), category, text));
        return rows;
    }
    let mut primary: Vec<SettingField> = Vec::new();
    let mut advanced: Vec<SettingField> = Vec::new();
    if matches!(category, SettingsCategory::Theme) && matches!(scope, SettingsScope::Profile) {
        primary.push(
            SettingField {
                kind: FieldKind::ProfileDescription,
                label: "Description".to_owned(),
                description: "Short, human-readable description of what this profile does. Shown as helper text under the profile name in the new-session picker (TUI + web).".to_owned(),
                value: FieldValue::OptionalText(copy_text(&overrides.description)),
                category,
                has_override: overrides.description.is_some(),
                inherited_display: None,
            },
        );
    }
    let ghost all = schema@;
    for desc in it: schema
        invariant
            it.seq() == all,
            targets == ctx.host.logging_targets@.len(),
            ctx.fulfils_all(
                primary@,
                primary_plan(all, it.index() as nat, category, scope, targets),
                category,
                text,
            ),
            ctx.fulfils_all(advanced@, advanced_plan(all, it.index() as nat, category, scope), category, text),
    {
        let ghost n = it.index() as nat;
        let ghost plan = primary_plan(all, n, category, scope, targets);
        let ghost plan_a = advanced_plan(all, n, category, scope);
        assert(desc == all[n as int]);
        let shown = same(desc.category.as_str(), category.schema_name()) && (matches!(scope, SettingsScope::Global)
            || desc.profile_overridable);
        if shown {
            if is_logging_widget(&desc.widget) {
                let mut rows = build_logging_target_rows(category, &ctx);
                let ghost before = primary@;
                let ghost added = rows@;
                primary.append(&mut rows);
                proof {
                    assert(primary@ =~= before + added);
                    let extra = Seq::new(targets, |i: int| RowPlan::Logging(i));
                    assert forall|i: int| 0 <= i < primary@.len() implies ctx.fulfils(
                        #[trigger] primary@[i],
                        (plan + extra)[i],
                        category,
                        text,
                    ) by {
                        if i < before.len() {
                            assert(primary@[i] == before[i]);
                        } else {
                            assert(primary@[i] == added[i - before.len()]);
                        }
                    }
                }
            } else {
                let is_advanced = desc.advanced;
                let row = build_schema_row(category, desc, &ctx);
                if is_advanced {
                    advanced.push(row);
                } else {
                    primary.push(row);
                }
            }
        }
    }
    if matches!(category, SettingsCategory::Session) {
        primary.push(build_host_environment_row(&ctx));
    }
    if advanced.len() > 0 {
        primary.push(
            SettingField {
                kind: FieldKind::SectionMarker,
                label: "Advanced".to_owned(),
                description: "Operational tuning, rarely needed after first setup. Adjust only if you've read the description and know what you're changing.".to_owned(),
                value: FieldValue::SectionHeader,
                category,
                has_override: false,
                inherited_display: None,
            },
        );
        let ghost before = primary@;
        let ghost added = advanced@;
        primary.append(&mut advanced);
        assert(primary@ =~= before + added);
    }
    assert(ctx.fulfils_all(primary@, tab_plan(all, category, scope, targets), category, text));
    primary
}

} // verus!
