//! The tabs of the settings screen: which rows they have, and what the rows say.

use vstd::prelude::*;

use crate::fields::rows::{
    advanced_plan, build_fields_for_category, build_hook_rows, build_host_environment_row, build_logging_target_rows,
    build_schema_row, primary_plan, tab_plan, BuildCtx, FieldKind, HookField, ListItemValidation, RowPlan,
    SettingField, SettingsCategory, SettingsScope,
};
use crate::fields::values::{validate_field_value, FieldValue, HostChoices, SoundChoice};
use crate::json::{Json, JsonV};
use crate::laws::values::{leaf, lemma_leaf};
use crate::profile_config::ProfileConfig;
use crate::settings::schema::{FieldDescriptor, WidgetKind};
use crate::text::{lemma_index_in, text_of, texts};

verus! {

/// What a tab is called.
pub open spec fn tab_word(c: SettingsCategory) -> Seq<char> {
    match c {
        SettingsCategory::Theme => "Theme"@,
        SettingsCategory::Updates => "Updates"@,
        SettingsCategory::Telemetry => "Telemetry"@,
        SettingsCategory::Worktree => "Worktree"@,
        SettingsCategory::Sandbox => "Sandbox"@,
        SettingsCategory::Tmux => "Tmux"@,
        SettingsCategory::Session => "Session"@,
        SettingsCategory::Agents => "Agents"@,
        SettingsCategory::Interaction => "Interaction"@,
        SettingsCategory::Sound => "Sound"@,
        SettingsCategory::StatusHooks => "Status Hooks"@,
        SettingsCategory::Hooks => "Lifecycle Hooks"@,
        SettingsCategory::Web => "Web"@,
        SettingsCategory::Acp => "Acp"@,
        SettingsCategory::Diff => "Diff"@,
        SettingsCategory::Logging => "Logging"@,
        SettingsCategory::Plugins => "Plugins"@,
    }
}

/// Whether a field has a row of its own in a tab: it is of that tab, the scope can set it, and it does not
/// stand for the logging targets.
pub open spec fn has_row(d: FieldDescriptor, c: SettingsCategory, scope: SettingsScope) -> bool {
    &&& d.category@ == tab_word(c)
    &&& scope == SettingsScope::Global || d.profile_overridable
    &&& !(d.widget matches WidgetKind::Custom { id } && id@ == "logging-targets"@)
}

proof fn lemma_primary(
    schema: Seq<FieldDescriptor>,
    n: nat,
    c: SettingsCategory,
    scope: SettingsScope,
    targets: nat,
    d: FieldDescriptor,
)
    requires
        n <= schema.len(),
    ensures
        primary_plan(schema, n, c, scope, targets).contains(RowPlan::Field(d)) <==> exists|k: int|
            0 <= k < n && #[trigger] schema[k] == d && has_row(d, c, scope) && !d.advanced,
        !primary_plan(schema, n, c, scope, targets).contains(RowPlan::AdvancedMarker),
    decreases n,
{
    let all = primary_plan(schema, n, c, scope, targets);
    let f = RowPlan::Field(d);
    if n == 0 {
        if all.contains(f) {
            let k = choose|k: int| 0 <= k < all.len() && all[k] == f;
            assert(false);
        }
        if all.contains(RowPlan::AdvancedMarker) {
            let k = choose|k: int| 0 <= k < all.len() && all[k] == RowPlan::AdvancedMarker;
            assert(false);
        }
    } else {
        let m = (n - 1) as nat;
        let before = primary_plan(schema, m, c, scope, targets);
        let e = schema[m as int];
        lemma_primary(schema, m, c, scope, targets, d);
        if before.contains(f) {
            let k = choose|k: int| 0 <= k < before.len() && before[k] == f;
            assert(all[k] == f);
            let j = choose|j: int| 0 <= j < m && #[trigger] schema[j] == d && has_row(d, c, scope) && !d.advanced;
            assert(schema[j] == d);
        }
        if all.contains(f) && !before.contains(f) {
            let k = choose|k: int| 0 <= k < all.len() && all[k] == f;
            if k < before.len() {
                assert(before[k] == f);
            }
            assert(all[k] == f);
            assert(e == d);
            assert(schema[m as int] == d);
        }
        if exists|k: int| 0 <= k < n && #[trigger] schema[k] == d && has_row(d, c, scope) && !d.advanced {
            let k = choose|k: int| 0 <= k < n && #[trigger] schema[k] == d && has_row(d, c, scope) && !d.advanced;
            if k < m {
                assert(schema[k] == d);
                assert(before.contains(f));
            } else {
                assert(all[before.len() as int] == f);
            }
        }
        if all.contains(RowPlan::AdvancedMarker) {
            let k = choose|k: int| 0 <= k < all.len() && all[k] == RowPlan::AdvancedMarker;
            if k < before.len() {
                assert(before[k] == RowPlan::AdvancedMarker);
            }
        }
    }
}

proof fn lemma_advanced(
    schema: Seq<FieldDescriptor>,
    n: nat,
    c: SettingsCategory,
    scope: SettingsScope,
    d: FieldDescriptor,
)
    requires
        n <= schema.len(),
    ensures
        advanced_plan(schema, n, c, scope).contains(RowPlan::Field(d)) <==> exists|k: int|
            0 <= k < n && #[trigger] schema[k] == d && has_row(d, c, scope) && d.advanced,
        forall|k: int|
            0 <= k < advanced_plan(schema, n, c, scope).len() ==> (#[trigger] advanced_plan(schema, n, c, scope)[k])
                is Field,
    decreases n,
{
    let all = advanced_plan(schema, n, c, scope);
    let f = RowPlan::Field(d);
    if n > 0 {
        let m = (n - 1) as nat;
        let before = advanced_plan(schema, m, c, scope);
        lemma_advanced(schema, m, c, scope, d);
        if before.contains(f) {
            let k = choose|k: int| 0 <= k < before.len() && before[k] == f;
            assert(all[k] == f);
            let j = choose|j: int| 0 <= j < m && #[trigger] schema[j] == d && has_row(d, c, scope) && d.advanced;
            assert(schema[j] == d);
        }
        if all.contains(f) && !before.contains(f) {
            let k = choose|k: int| 0 <= k < all.len() && all[k] == f;
            if k < before.len() {
                assert(before[k] == f);
            }
            assert(schema[m as int] == d);
        }
        if exists|k: int| 0 <= k < n && #[trigger] schema[k] == d && has_row(d, c, scope) && d.advanced {
            let k = choose|k: int| 0 <= k < n && #[trigger] schema[k] == d && has_row(d, c, scope) && d.advanced;
            if k < m {
                assert(schema[k] == d);
                assert(before.contains(f));
            } else {
                assert(all[before.len() as int] == f);
            }
        }
        assert forall|k: int| 0 <= k < all.len() implies (#[trigger] all[k]) is Field by {
            if k < before.len() {
                assert(all[k] == before[k]);
            }
        }
    }
}

/// Whether a row edits a field.
pub open spec fn row_of(r: SettingField, d: FieldDescriptor) -> bool {
    r.kind == (FieldKind::Schema {
        section: d.section,
        field: d.field,
        widget: d.widget,
        validation: d.validation,
        profile_overridable: d.profile_overridable,
    }) && r.label == d.label && r.description == d.description
}

/// A tab has a row for exactly those fields that are of it and that the scope can set, and the tab of
/// hooks has the three lists of hooks. A profile's description is first on the tab of themes.
pub proof fn law_tab_has_its_fields(
    c: SettingsCategory,
    scope: SettingsScope,
    base: &Json,
    overrides: &ProfileConfig,
    schema: Vec<FieldDescriptor>,
    host: &HostChoices,
    base_sound: SoundChoice,
    effective_sound: SoundChoice,
    rows: Vec<SettingField>,
    k: int,
    i: int,
)
    requires
        call_ensures(
            build_fields_for_category,
            (c, scope, base, overrides, schema, host, base_sound, effective_sound),
            rows,
        ),
    ensures
        c != SettingsCategory::Hooks && 0 <= k < schema@.len() && has_row(schema@[k], c, scope) ==> exists|j: int|
            0 <= j < rows@.len() && row_of(#[trigger] rows@[j], schema@[k]),
        c != SettingsCategory::Hooks && 0 <= i < rows@.len() && rows@[i].kind is Schema ==> exists|j: int|
            0 <= j < schema@.len() && has_row(#[trigger] schema@[j], c, scope) && row_of(rows@[i], schema@[j]),
        c == SettingsCategory::Hooks ==> rows@.len() == 3 && rows@[0].kind == FieldKind::Hook(HookField::OnCreate)
            && rows@[1].kind == FieldKind::Hook(HookField::OnLaunch) && rows@[2].kind == FieldKind::Hook(
            HookField::OnDestroy,
        ),
        c == SettingsCategory::Theme && scope == SettingsScope::Profile ==> rows@.len() > 0
            && rows@[0].kind is ProfileDescription,
{
    let s = schema@;
    let targets = host.logging_targets@.len();
    let plan = tab_plan(s, c, scope, targets);
    assert(rows@.len() == plan.len());
    let (over, effective) = choose|over: Json, effective: Json|
        {
            let ctx = BuildCtx {
                scope,
                base,
                over: &over,
                effective: &effective,
                host,
                base_sound,
                effective_sound,
            };
            &&& #[trigger] over@ == JsonV::Object(overrides.document())
            &&& #[trigger] effective@ == crate::fields::rows::effective_document(scope, base@, over@)
            &&& ctx.fulfils_all(rows@, plan, c, text_of(overrides.description))
        };
    let ctx = BuildCtx { scope, base, over: &over, effective: &effective, host, base_sound, effective_sound };
    assert(ctx.fulfils_all(rows@, plan, c, text_of(overrides.description)));
    if c == SettingsCategory::Hooks {
        assert(ctx.fulfils(rows@[0], plan[0], c, text_of(overrides.description)));
        assert(ctx.fulfils(rows@[1], plan[1], c, text_of(overrides.description)));
        assert(ctx.fulfils(rows@[2], plan[2], c, text_of(overrides.description)));
    } else {
        let top = primary_plan(s, s.len(), c, scope, targets);
        let adv = advanced_plan(s, s.len(), c, scope);
        let primary = if c == SettingsCategory::Session {
            top.push(RowPlan::Environment)
        } else {
            top
        };
        if c == SettingsCategory::Theme && scope == SettingsScope::Profile {
            lemma_description_first(s, s.len(), c, scope, targets);
            assert(plan[0] == top[0]);
            assert(ctx.fulfils(rows@[0], plan[0], c, text_of(overrides.description)));
        }
        if 0 <= k < s.len() && has_row(s[k], c, scope) {
            let d = s[k];
            let f = RowPlan::Field(d);
            lemma_primary(s, s.len(), c, scope, targets, d);
            lemma_advanced(s, s.len(), c, scope, d);
            if !d.advanced {
                assert(top.contains(f));
                let j = choose|j: int| 0 <= j < top.len() && top[j] == f;
                assert(plan[j] == f);
                assert(ctx.fulfils(rows@[j], plan[j], c, text_of(overrides.description)));
                assert(row_of(rows@[j], d));
            } else {
                assert(adv.contains(f));
                let j = choose|j: int| 0 <= j < adv.len() && adv[j] == f;
                let at = primary.len() + 1 + j;
                assert(plan[at] == f);
                assert(ctx.fulfils(rows@[at], plan[at], c, text_of(overrides.description)));
                assert(row_of(rows@[at], d));
            }
        }
        if 0 <= i < rows@.len() && rows@[i].kind is Schema {
            assert(ctx.fulfils(rows@[i], plan[i], c, text_of(overrides.description)));
            assert(plan[i] is Field);
            let d = plan[i]->Field_0;
            let f = RowPlan::Field(d);
            lemma_primary(s, s.len(), c, scope, targets, d);
            lemma_advanced(s, s.len(), c, scope, d);
            if i < top.len() {
                assert(top[i] == f);
                assert(top.contains(f));
            } else {
                let j = i - primary.len() - 1;
                assert(adv[j] == f);
                assert(adv.contains(f));
            }
            let j = choose|j: int| 0 <= j < s.len() && #[trigger] s[j] == d && has_row(d, c, scope);
            assert(has_row(s[j], c, scope) && row_of(rows@[i], s[j]));
        }
    }
}

proof fn lemma_description_first(
    schema: Seq<FieldDescriptor>,
    n: nat,
    c: SettingsCategory,
    scope: SettingsScope,
    targets: nat,
)
    requires
        n <= schema.len(),
        c == SettingsCategory::Theme && scope == SettingsScope::Profile,
    ensures
        primary_plan(schema, n, c, scope, targets).len() > 0,
        primary_plan(schema, n, c, scope, targets)[0] is Description,
    decreases n,
{
    if n > 0 {
        lemma_description_first(schema, (n - 1) as nat, c, scope, targets);
    }
}

/// A row of a field outside of plugins shows what is in effect, whether the profile sets it, and then what
/// it would inherit.
pub proof fn law_row_shows_what_is_in_effect(
    c: SettingsCategory,
    d: FieldDescriptor,
    ctx: &BuildCtx,
    r: SettingField,
)
    requires
        call_ensures(build_schema_row, (c, d, ctx), r),
        forall|x: Seq<char>| d.section@ != #[trigger] ("plugin:"@ + x),
    ensures
        row_of(r, d),
        r.category == c,
        r.has_override <==> d.profile_overridable && ctx.scope != SettingsScope::Global && leaf(
            ctx.over@,
            d.section@,
            d.field@,
        ) is Some,
        r.inherited_display is Some <==> r.has_override,
        d.widget is Toggle ==> (r.value matches FieldValue::Bool(b) && (b <==> leaf(
            ctx.effective@,
            d.section@,
            d.field@,
        ) == Some(JsonV::Bool(true)))),
        d.widget is Number || d.widget is Slider ==> (leaf(ctx.effective@, d.section@, d.field@) matches Some(
            JsonV::Unsigned(n),
        ) ==> r.value == FieldValue::Number(n)),
        d.widget is Text ==> (leaf(ctx.effective@, d.section@, d.field@) matches Some(JsonV::Text(s)) ==> (
        r.value matches FieldValue::Text(t) && t@ == s)),
        d.widget is Toggle && r.has_override ==> r.inherited_display->0@ == if leaf(ctx.base@, d.section@, d.field@)
            == Some(JsonV::Bool(true)) {
            "on"@
        } else {
            "off"@
        },
{
    lemma_leaf(ctx.over@, d.section@, d.field@);
    lemma_leaf(ctx.effective@, d.section@, d.field@);
    lemma_leaf(ctx.base@, d.section@, d.field@);
    if crate::text::begins(d.section@, "plugin:"@) {
        let x = d.section@.skip("plugin:"@.len() as int);
        assert(d.section@ =~= "plugin:"@ + x);
    }
}

/// The rows of hooks are on their tab, show the lists in effect, and say whether the profile sets them.
pub proof fn law_hook_rows(ctx: &BuildCtx, r: Vec<SettingField>)
    requires
        call_ensures(build_hook_rows, (ctx,), r),
    ensures
        r@.len() == 3,
        r@[0].label@ == "On Create"@ && r@[1].label@ == "On Launch"@ && r@[2].label@ == "On Destroy"@,
        r@[0].has_override <==> ctx.scope != SettingsScope::Global && leaf(ctx.over@, "hooks"@, "on_create"@) is Some,
        r@[1].has_override <==> ctx.scope != SettingsScope::Global && leaf(ctx.over@, "hooks"@, "on_launch"@) is Some,
        r@[2].has_override <==> ctx.scope != SettingsScope::Global && leaf(ctx.over@, "hooks"@, "on_destroy"@) is Some,
        r@[0].category == SettingsCategory::Hooks,
{
    lemma_leaf(ctx.over@, "hooks"@, "on_create"@);
    lemma_leaf(ctx.over@, "hooks"@, "on_launch"@);
    lemma_leaf(ctx.over@, "hooks"@, "on_destroy"@);
}

/// There is a row for each logging target, in order, under its name.
pub proof fn law_logging_rows(c: SettingsCategory, ctx: &BuildCtx, r: Vec<SettingField>, i: int)
    requires
        call_ensures(build_logging_target_rows, (c, ctx), r),
        0 <= i < ctx.host.logging_targets@.len(),
    ensures
        r@.len() == ctx.host.logging_targets@.len(),
        r@[i].kind == FieldKind::LoggingTarget(i as usize),
        r@[i].label@ == ctx.host.logging_targets@[i]@,
        r@[i].category == c,
        r@[i].value matches FieldValue::Select { selected, options } && texts(options@) == seq![
            "(default)"@,
            "trace"@,
            "debug"@,
            "info"@,
            "warn"@,
            "error"@,
        ],
{
    assert(ctx.is_logging_row(r@[i], c, i));
}

/// A row is checked by the rule of its field, but for three: the snooze by what the host says of it, the
/// name of a sound by whether there is one, and the defaults of agents, which are blank or an object.
pub proof fn law_row_is_validated(
    row: &SettingField,
    snooze: Result<(), String>,
    sound: Result<(), String>,
    section: String,
    field: String,
    by_rule: Result<(), String>,
    r: Result<(), String>,
)
    requires
        row.kind matches FieldKind::Schema { section: s, field: f, .. } && s == section && f == field,
        call_ensures(validate_field_value, (&row.kind->validation, &row.value), by_rule),
        call_ensures(SettingField::validate, (row, snooze, sound), r),
        !(row.kind->widget is Custom),
    ensures
        section@ == "session"@ && field@ == "snooze_duration_minutes"@ && row.value is Number ==> (r is Ok <==> snooze
            is Ok),
        section@ == "sound"@ && (row.value matches FieldValue::OptionalText(Some(t)) && t@.len() > 0) ==> (r is Ok <==> sound
            is Ok),
        section@ != "session"@ && section@ != "sound"@ ==> (r is Ok <==> by_rule is Ok),
        section@ == "session"@ && field@ != "snooze_duration_minutes"@ ==> (r is Ok <==> by_rule is Ok),
{
    reveal_strlit("session");
    reveal_strlit("sound");
    assert("session"@.len() == 7 && "sound"@.len() == 5);
}

/// The entries of a list have the grammar of their field.
pub proof fn law_entries_have_their_grammar(
    row: &SettingField,
    section: String,
    field: String,
    r: ListItemValidation,
)
    requires
        row.kind matches FieldKind::Schema { section: s, field: f, .. } && s == section && f == field,
        call_ensures(SettingField::list_item_validation, (row,), r),
    ensures
        section@ == "session"@ && (field@ == "agent_extra_args"@ || field@ == "agent_command_override"@) ==> r
            is AgentKeyValue,
        section@ == "session"@ && field@ == "custom_agents"@ ==> r is CustomAgent,
        section@ == "session"@ && field@ == "agent_detect_as"@ ==> r is DetectAs,
        section@ == "session"@ && field@ == "agent_acp_cmd"@ ==> r is AcpCmd,
        section@ == "sandbox"@ && field@ == "environment"@ ==> r is EnvEntry,
        section@ != "session"@ && section@ != "sandbox"@ ==> r is Unchecked,
{
    reveal_strlit("session");
    reveal_strlit("sandbox");
    reveal_strlit("agent_extra_args");
    reveal_strlit("agent_command_override");
    reveal_strlit("custom_agents");
    reveal_strlit("agent_detect_as");
    reveal_strlit("agent_acp_cmd");
    assert("agent_extra_args"@.len() == 16 && "agent_command_override"@.len() == 22 && "custom_agents"@.len() == 13
        && "agent_detect_as"@.len() == 15 && "agent_acp_cmd"@.len() == 13);
    assert("custom_agents"@[0] == 'c' && "agent_acp_cmd"@[0] == 'a');
    assert("session"@[1] == 'e' && "sandbox"@[1] == 'a');
}

/// Tabs are labelled by their names, and the names are those of the schema.
pub proof fn law_tabs_are_named(c: &SettingsCategory, a: &'static str, b: &'static str)
    requires
        call_ensures(SettingsCategory::label, (c,), a),
        call_ensures(SettingsCategory::schema_name, (c,), b),
    ensures
        a@ == tab_word(*c),
        b@ == tab_word(*c),
{
}

/// The fields that are seldom needed stand at the end of a tab, behind one heading, and the others before
/// it. A tab without such fields has no heading.
pub proof fn law_advanced_fields_come_last(
    c: SettingsCategory,
    scope: SettingsScope,
    base: &Json,
    overrides: &ProfileConfig,
    schema: Vec<FieldDescriptor>,
    host: &HostChoices,
    base_sound: SoundChoice,
    effective_sound: SoundChoice,
    rows: Vec<SettingField>,
    k: int,
) -> (m: int)
    requires
        c != SettingsCategory::Hooks,
        call_ensures(
            build_fields_for_category,
            (c, scope, base, overrides, schema, host, base_sound, effective_sound),
            rows,
        ),
    ensures
        0 <= m <= rows@.len(),
        m < rows@.len() ==> rows@[m].kind is SectionMarker && rows@[m].label@ == "Advanced"@,
        0 <= k < m && rows@[k].kind is Schema ==> exists|j: int|
            0 <= j < schema@.len() && has_row(#[trigger] schema@[j], c, scope) && !schema@[j].advanced && row_of(
                rows@[k],
                schema@[j],
            ),
        m < k < rows@.len() ==> exists|j: int|
            0 <= j < schema@.len() && has_row(#[trigger] schema@[j], c, scope) && schema@[j].advanced && row_of(
                rows@[k],
                schema@[j],
            ),
        m < rows@.len() <==> exists|j: int|
            0 <= j < schema@.len() && has_row(#[trigger] schema@[j], c, scope) && schema@[j].advanced,
        c == SettingsCategory::Session ==> m > 0 && rows@[m - 1].kind is HostEnvironment,
{
    let s = schema@;
    let targets = host.logging_targets@.len();
    let plan = tab_plan(s, c, scope, targets);
    let (over, effective) = choose|over: Json, effective: Json|
        {
            let ctx = BuildCtx {
                scope,
                base,
                over: &over,
                effective: &effective,
                host,
                base_sound,
                effective_sound,
            };
            &&& #[trigger] over@ == JsonV::Object(overrides.document())
            &&& #[trigger] effective@ == crate::fields::rows::effective_document(scope, base@, over@)
            &&& ctx.fulfils_all(rows@, plan, c, text_of(overrides.description))
        };
    let ctx = BuildCtx { scope, base, over: &over, effective: &effective, host, base_sound, effective_sound };
    assert(ctx.fulfils_all(rows@, plan, c, text_of(overrides.description)));
    let top = primary_plan(s, s.len(), c, scope, targets);
    let adv = advanced_plan(s, s.len(), c, scope);
    let primary = if c == SettingsCategory::Session {
        top.push(RowPlan::Environment)
    } else {
        top
    };
    let m = primary.len() as int;
    if m < rows@.len() {
        assert(adv.len() > 0);
        assert(plan[m] is AdvancedMarker);
        assert(ctx.fulfils(rows@[m], plan[m], c, text_of(overrides.description)));
        lemma_advanced(s, s.len(), c, scope, s[0]);
        assert(adv[0] is Field);
        let d = adv[0]->Field_0;
        assert(adv.contains(RowPlan::Field(d)));
        lemma_advanced(s, s.len(), c, scope, d);
        let j = choose|j: int| 0 <= j < s.len() && #[trigger] s[j] == d && has_row(d, c, scope) && d.advanced;
        assert(has_row(s[j], c, scope) && s[j].advanced);
    }
    if exists|j: int| 0 <= j < s.len() && has_row(#[trigger] s[j], c, scope) && s[j].advanced {
        let j = choose|j: int| 0 <= j < s.len() && has_row(#[trigger] s[j], c, scope) && s[j].advanced;
        lemma_advanced(s, s.len(), c, scope, s[j]);
        assert(adv.contains(RowPlan::Field(s[j])));
        assert(adv.len() > 0);
    }
    if 0 <= k < m && rows@[k].kind is Schema {
        assert(ctx.fulfils(rows@[k], plan[k], c, text_of(overrides.description)));
        assert(plan[k] is Field);
        let d = plan[k]->Field_0;
        lemma_primary(s, s.len(), c, scope, targets, d);
        assert(top[k] == RowPlan::Field(d));
        assert(top.contains(RowPlan::Field(d)));
        let j = choose|j: int| 0 <= j < s.len() && #[trigger] s[j] == d && has_row(d, c, scope) && !d.advanced;
        assert(has_row(s[j], c, scope) && !s[j].advanced && row_of(rows@[k], s[j]));
    }
    if m < k < rows@.len() {
        assert(ctx.fulfils(rows@[k], plan[k], c, text_of(overrides.description)));
        let i = k - m - 1;
        assert(plan[k] == adv[i]);
        lemma_advanced(s, s.len(), c, scope, s[0]);
        assert(adv[i] is Field);
        let d = adv[i]->Field_0;
        assert(adv.contains(RowPlan::Field(d)));
        lemma_advanced(s, s.len(), c, scope, d);
        let j = choose|j: int| 0 <= j < s.len() && #[trigger] s[j] == d && has_row(d, c, scope) && d.advanced;
        assert(has_row(s[j], c, scope) && s[j].advanced && row_of(rows@[k], s[j]));
    }
    if c == SettingsCategory::Session {
        assert(plan[m - 1] is Environment);
        assert(ctx.fulfils(rows@[m - 1], plan[m - 1], c, text_of(overrides.description)));
    }
    m
}

/// The level of a logging target is the one set for it in the document in effect, where that is a level.
pub proof fn law_logging_level_is_the_set_one(
    c: SettingsCategory,
    ctx: &BuildCtx,
    r: Vec<SettingField>,
    i: int,
    set: Map<Seq<char>, JsonV>,
    k: int,
)
    requires
        call_ensures(build_logging_target_rows, (c, ctx), r),
        0 <= i < ctx.host.logging_targets@.len(),
        leaf(ctx.effective@, "logging"@, "targets"@) == Some(JsonV::Object(set)),
        r@[i].value matches FieldValue::Select { selected, options } && k == selected,
    ensures
        !set.contains_key(ctx.host.logging_targets@[i]@) ==> k == 0,
        set.contains_key(ctx.host.logging_targets@[i]@) ==> {
            let level = set[ctx.host.logging_targets@[i]@];
            &&& level == JsonV::Text("trace"@) ==> k == 1
            &&& level == JsonV::Text("debug"@) ==> k == 2
            &&& level == JsonV::Text("info"@) ==> k == 3
            &&& level == JsonV::Text("warn"@) ==> k == 4
            &&& level == JsonV::Text("error"@) ==> k == 5
        },
{
    assert(ctx.is_logging_row(r@[i], c, i));
    lemma_leaf(ctx.effective@, "logging"@, "targets"@);
    reveal_strlit("(default)");
    reveal_strlit("trace");
    reveal_strlit("debug");
    reveal_strlit("info");
    reveal_strlit("warn");
    reveal_strlit("error");
    let all = seq!["(default)"@, "trace"@, "debug"@, "info"@, "warn"@, "error"@];
    assert("(default)"@.len() == 9 && "trace"@.len() == 5 && "debug"@.len() == 5 && "info"@.len() == 4
        && "warn"@.len() == 4 && "error"@.len() == 5);
    assert("trace"@[0] == 't' && "debug"@[0] == 'd' && "error"@[0] == 'e' && "info"@[0] == 'i' && "warn"@[0] == 'w');
    lemma_index_in(all, "(default)"@);
    lemma_index_in(all, "trace"@);
    lemma_index_in(all, "debug"@);
    lemma_index_in(all, "info"@);
    lemma_index_in(all, "warn"@);
    lemma_index_in(all, "error"@);
    assert(all[0] == "(default)"@ && all[1] == "trace"@ && all[2] == "debug"@ && all[3] == "info"@ && all[4] == "warn"@
        && all[5] == "error"@);
    assert(all.contains(all[0]) && all.contains(all[1]) && all.contains(all[2]) && all.contains(all[3])
        && all.contains(all[4]) && all.contains(all[5]));
}

/// The row of the host's environment is on the tab of sessions, and a profile sets it where its document has
/// it.
pub proof fn law_environment_row(ctx: &BuildCtx, r: SettingField)
    requires
        call_ensures(build_host_environment_row, (ctx,), r),
    ensures
        r.kind is HostEnvironment,
        r.category == SettingsCategory::Session,
        r.has_override <==> ctx.scope != SettingsScope::Global && ctx.over@ is Object
            && ctx.over@->Object_0.contains_key("environment"@),
        r.inherited_display is Some <==> r.has_override,
        r.value is List,
{
}

/// A row is found again by what it edits, and two rows of the schema by the same name edit the same field
/// where the sections have no dots.
pub proof fn law_rows_are_found_again(row: &SettingField, other: &SettingField, r: String, q: String)
    requires
        call_ensures(SettingField::ident, (row,), r),
        call_ensures(SettingField::ident, (other,), q),
    ensures
        row.kind matches FieldKind::Schema { section, field, .. } ==> r@ == section@.push('.') + field@,
        row.kind is ProfileDescription ==> r@ == "__profile.description"@,
        row.kind == FieldKind::Hook(HookField::OnCreate) ==> r@ == "hooks.on_create"@,
        row.kind == FieldKind::Hook(HookField::OnLaunch) ==> r@ == "hooks.on_launch"@,
        row.kind == FieldKind::Hook(HookField::OnDestroy) ==> r@ == "hooks.on_destroy"@,
        row.kind is HostEnvironment ==> r@ == "environment"@,
        row.kind is Schema && other.kind is Schema && r@ == q@ && !row.kind->section@.contains('.')
            && !other.kind->section@.contains('.') ==> row.kind->section@ == other.kind->section@ && row.kind->field@
            == other.kind->field@,
{
    reveal_strlit(".");
    reveal_strlit("hooks.");
    reveal_strlit("on_create");
    reveal_strlit("on_launch");
    reveal_strlit("on_destroy");
    reveal_strlit("hooks.on_create");
    reveal_strlit("hooks.on_launch");
    reveal_strlit("hooks.on_destroy");
    assert("hooks."@ + "on_create"@ =~= "hooks.on_create"@);
    assert("hooks."@ + "on_launch"@ =~= "hooks.on_launch"@);
    assert("hooks."@ + "on_destroy"@ =~= "hooks.on_destroy"@);
    if row.kind is Schema {
        assert(row.kind->section@ + "."@ =~= row.kind->section@.push('.'));
    }
    if other.kind is Schema {
        assert(other.kind->section@ + "."@ =~= other.kind->section@.push('.'));
    }
    if row.kind is Schema && other.kind is Schema && r@ == q@ && !row.kind->section@.contains('.')
        && !other.kind->section@.contains('.') {
        let a = row.kind->section@;
        let b = other.kind->section@;
        let x = row.kind->field@;
        let y = other.kind->field@;
        assert(r@[a.len() as int] == '.');
        assert(q@[b.len() as int] == '.');
        if a.len() < b.len() {
            assert(q@[a.len() as int] == b[a.len() as int]);
            assert(b.contains('.'));
        }
        if b.len() < a.len() {
            assert(r@[b.len() as int] == a[b.len() as int]);
            assert(a.contains('.'));
        }
        assert(r@.take(a.len() as int) =~= a);
        assert(q@.take(b.len() as int) =~= b);
        assert(r@.skip(a.len() as int + 1) =~= x);
        assert(q@.skip(b.len() as int + 1) =~= y);
    }
}

} // verus!
