//! The worker protocol, the session calls of plugins, the automation policy and the HTTP interface.

use aoe_host::acp::{
    capabilities_get, AcpAgentCapability, AcpCapabilitiesResponse, AcpModeCapability, AcpModelCapability,
    AgentOptionEntry, ApprovalClass, CatalogStatus, ConfigOptionCategory, ConfigOptionChoice, ConfigOptionDescriptor,
    OptionCatalog,
};
use aoe_host::automation::{
    classify_mode, ledger_write_failed, AgentProfile, AgentRegistry, AutomationPolicy, ModeDecision,
    MAX_ACTIVE_PLUGIN_SESSIONS, MAX_PLUGIN_CREATES_PER_HOUR, MAX_PLUGIN_TURNS_PER_HOUR,
};
use aoe_host::capability::{CapabilityId, TrustLevel, KNOWN_CAPABILITIES};
use aoe_host::events::{count_reply, highest_reply, highest_seq, open, SqlValue, Statement};
use aoe_host::host_api::{DispatchError, PluginRpcContext};
use aoe_host::json::{Json, JsonMap};
use aoe_host::plugin_settings::{resolve_option_source, resolve_options, OptionState, ResolveOptionsRequest};
use aoe_host::projects::{
    add_reply, create_project, delete_project, list_projects, list_reply, parse_project_patch, remove_reply, sets_pin,
    update_project, update_reply, ApiReply, CreateProjectBody, DeleteQuery, ListQuery, ListSource, Project,
    ProjectPatch, ProjectScope, RegistryError,
};
use aoe_host::protocol::codes;
use aoe_host::protocol::{parse_request, RpcResponse};
use aoe_host::session::Instance;
use aoe_host::session_api::{
    admit_and_create, check_create, count_active, dispatch, handles, map_create_error, map_send_error, sessions_create,
    sessions_turn_record, sessions_turn_send, SessionCall, SessionsCreateRequest, SessionsCreateResponse,
};
use aoe_host::session_service::SessionService;
use aoe_host::session_spawn::CreateError;
use aoe_host::settings::schema::OptionSource;
use aoe_host::turns::{SendTurnError, SupervisorError};
use rusqlite::{params_from_iter, Connection};
use serde_json::Value;

fn from_value(v: &Value) -> Json {
    match v {
        Value::Null => Json::Null,
        Value::Bool(b) => Json::Bool(*b),
        Value::Number(n) => match (n.as_u64(), n.as_i64()) {
            (Some(u), _) => Json::Unsigned(u),
            (None, Some(i)) => Json::Negative(i),
            (None, None) => Json::Float(n.to_string()),
        },
        Value::String(s) => Json::Text(s.clone()),
        Value::Array(a) => Json::Array(a.iter().map(from_value).collect()),
        Value::Object(m) => Json::Object(JsonMap {
            entries: m.iter().map(|(k, v)| (k.clone(), from_value(v))).collect(),
        }),
    }
}

fn to_value(v: &Json) -> Value {
    match v {
        Json::Null => Value::Null,
        Json::Bool(b) => Value::Bool(*b),
        Json::Unsigned(n) => Value::from(*n),
        Json::Negative(n) => Value::from(*n),
        Json::Float(t) => Value::Number(t.parse().expect("a number")),
        Json::Text(s) => Value::from(s.as_str()),
        Json::Array(a) => Value::Array(a.iter().map(to_value).collect()),
        Json::Object(m) => Value::Object(m.entries.iter().map(|(k, v)| (k.clone(), to_value(v))).collect()),
    }
}

fn value(text: &str) -> Value {
    serde_json::from_str(text).expect("JSON")
}

fn json(text: &str) -> Json {
    from_value(&value(text))
}

fn choice(value: &str) -> ConfigOptionChoice {
    ConfigOptionChoice { value: value.into(), name: value.into(), description: None }
}

fn offer(category: ConfigOptionCategory, values: &[&str]) -> ConfigOptionDescriptor {
    ConfigOptionDescriptor {
        id: "mode".into(),
        name: "Mode".into(),
        description: None,
        category,
        current_value: String::new(),
        options: values.iter().map(|v| choice(v)).collect(),
    }
}

fn catalog_with_modes(modes: &[&str]) -> AgentOptionEntry {
    AgentOptionEntry {
        updated_at: "2026-07-16T00:00:00Z".into(),
        options: vec![offer(ConfigOptionCategory::Mode, modes)],
    }
}

fn registry() -> AgentRegistry {
    AgentRegistry {
        names: vec!["opencode".into(), "codex".into()],
        profiles: vec![
            AgentProfile { agent: "opencode".into(), yolo_mode_id: Some("bypassPermissions".into()) },
            AgentProfile { agent: "codex".into(), yolo_mode_id: Some("agent-full-access".into()) },
        ],
    }
}

fn no_catalog() -> OptionCatalog {
    OptionCatalog { agents: Vec::new() }
}

fn ctx_with(caps: &[&str]) -> PluginRpcContext {
    PluginRpcContext {
        plugin_id: "cron".into(),
        granted_capabilities: caps.iter().map(|c| c.to_string()).collect(),
    }
}

fn kind(e: &DispatchError) -> String {
    e.kind().and_then(|k| k.as_str()).unwrap_or_default().to_string()
}

// The worker protocol.

#[test]
fn parse_request_round_trip() {
    let req = parse_request(r#"{"jsonrpc":"2.0","id":7,"method":"sessions.list","params":{}}"#)
        .unwrap()
        .unwrap();
    assert_eq!(req.validate_envelope().unwrap(), "sessions.list");
    assert_eq!(req.id.as_ref().map(to_value), Some(Value::from(7)));
    assert!(!req.is_notification());
}

#[test]
fn notification_has_no_id() {
    let req = parse_request(r#"{"jsonrpc":"2.0","method":"events.publish","params":{}}"#)
        .unwrap()
        .unwrap();
    assert!(req.is_notification());
    assert_eq!(req.validate_envelope().unwrap(), "events.publish");
}

#[test]
fn blank_line_is_skipped() {
    assert!(parse_request("   ").unwrap().is_none());
    assert!(parse_request("").unwrap().is_none());
}

#[test]
fn malformed_line_is_error() {
    assert!(parse_request("{not json").is_err());
}

#[test]
fn well_formed_json_with_bad_envelope_is_not_a_parse_error() {
    // Missing jsonrpc: parses fine, but the envelope is invalid.
    let req = parse_request(r#"{"method":"sessions.list"}"#).unwrap().unwrap();
    assert!(req.validate_envelope().is_err());
    // Wrong jsonrpc version.
    let req = parse_request(r#"{"jsonrpc":"1.0","method":"sessions.list"}"#).unwrap().unwrap();
    assert!(req.validate_envelope().is_err());
    // Missing method.
    let req = parse_request(r#"{"jsonrpc":"2.0"}"#).unwrap().unwrap();
    assert!(req.validate_envelope().is_err());
}

#[test]
fn response_lines_are_single_ndjson() {
    let ok = RpcResponse::success(json("1"), json("{\"ok\": true}")).to_line();
    assert!(ok.ends_with('\n'));
    assert_eq!(ok.matches('\n').count(), 1);
    let parsed: Value = serde_json::from_str(ok.trim()).unwrap();
    assert_eq!(parsed["result"]["ok"], Value::from(true));
    assert_eq!(parsed["jsonrpc"], Value::from("2.0"));

    let err = RpcResponse::error(json("2"), codes::FORBIDDEN, "nope").to_line();
    let parsed: Value = serde_json::from_str(err.trim()).unwrap();
    assert_eq!(parsed["error"]["code"], Value::from(codes::FORBIDDEN));
    assert!(parsed.get("result").is_none());
}

#[test]
fn envelopes_are_checked_part_by_part() {
    let words = |line: &str| parse_request(line).unwrap().unwrap().validate_envelope().unwrap_err().to_string();
    assert_eq!(words(r#"{"method":"m"}"#), words(r#"{"jsonrpc":"1.0","method":"m"}"#));
    assert_ne!(words(r#"{"jsonrpc":"2.0"}"#), words(r#"{"method":"m"}"#));
    // A part of the wrong type counts as missing: the line still is JSON.
    assert!(parse_request(r#"{"jsonrpc":2,"method":"m"}"#).unwrap().unwrap().validate_envelope().is_err());
    assert!(parse_request("17").is_err());
    let data = RpcResponse::error_with_data(json("null"), codes::CONFLICT, "no", Some(json("{\"kind\":\"k\"}")));
    assert_eq!(
        RpcResponse::success(json("3"), json("[\"a\\n\"]")).to_line(),
        "{\"jsonrpc\":\"2.0\",\"id\":3,\"result\":[\"a\\n\"]}\n"
    );
    assert_eq!(
        data.to_line(),
        "{\"jsonrpc\":\"2.0\",\"id\":null,\"error\":{\"code\":-32003,\"message\":\"no\",\"data\":{\"kind\":\"k\"}}}\n"
    );
}

#[test]
fn lines_that_are_no_request_are_named() {
    let words = |line: &str| parse_request(line).unwrap_err();
    assert_eq!(words("17"), "invalid type: integer `17`, expected struct RpcRequest at line 1 column 2");
    assert_eq!(words(" -3 "), "invalid type: integer `-3`, expected struct RpcRequest at line 1 column 2");
    assert_eq!(words("1.50"), "invalid type: floating point `1.5`, expected struct RpcRequest at line 1 column 4");
    assert_eq!(words("null"), "invalid type: null, expected struct RpcRequest at line 1 column 4");
    assert_eq!(words("true"), "invalid type: boolean `true`, expected struct RpcRequest at line 1 column 4");
    assert_eq!(
        words("\"\u{e9}\\\"\""),
        "invalid type: string \"\u{e9}\\\"\", expected struct RpcRequest at line 1 column 6"
    );
    // An array gives the parts in their order, no more of them, and texts where texts belong.
    let req = parse_request("[\"2.0\", 7, \"m\"]").unwrap().unwrap();
    assert_eq!(req.validate_envelope(), Ok("m"));
    assert!(matches!(req.params, Json::Null));
    assert_eq!(words("[null, null, null, null, 5]"), "trailing characters at line 1 column 26");
    assert_eq!(words("[5]"), "invalid type: integer `5`, expected a string at line 1 column 2");
}

// Capabilities.

#[test]
fn capabilities_are_known_or_not() {
    for c in KNOWN_CAPABILITIES {
        assert!(CapabilityId::new(c).is_known(), "{c}");
    }
    assert!(!CapabilityId::new("session.everything").is_known());
    assert_eq!(CapabilityId::new("net").as_str(), "net");
    assert_eq!(CapabilityId::from("net").clone(), CapabilityId::new("net"));
    assert_eq!(TrustLevel::Builtin.as_str(), "builtin");
}

#[test]
fn missing_capabilities_are_named() {
    let e = ctx_with(&[]).require("session.create").unwrap_err();
    assert_eq!(e.code, codes::FORBIDDEN);
    assert_eq!(kind(&e), "capability_missing");
    assert!(ctx_with(&["session.create"]).require("session.create").is_ok());
    assert!(DispatchError::internal("x".into()).kind().is_none());
}

// What agents offer.

#[test]
fn wire_fixture_is_stable() {
    let response = AcpCapabilitiesResponse {
        agents: vec![AcpAgentCapability {
            id: "opencode".into(),
            display_name: "OpenCode".into(),
            catalog_status: CatalogStatus::Discovered,
            catalog_updated_at: Some("2026-07-16T00:00:00Z".into()),
            models: vec![AcpModelCapability { id: "sonnet".into(), display_name: "Sonnet".into() }],
            modes: vec![
                AcpModeCapability {
                    id: "bypassPermissions".into(),
                    display_name: "Bypass Permissions".into(),
                    approval_class: ApprovalClass::Unattended,
                },
                AcpModeCapability {
                    id: "plan".into(),
                    display_name: "Plan".into(),
                    approval_class: ApprovalClass::Guarded,
                },
            ],
        }],
    };
    let answer = response.to_json();
    assert_eq!(
        to_value(&answer),
        value(
            r#"{
            "agents": [{
                "id": "opencode",
                "display_name": "OpenCode",
                "catalog_status": "discovered",
                "catalog_updated_at": "2026-07-16T00:00:00Z",
                "models": [{"id": "sonnet", "display_name": "Sonnet"}],
                "modes": [
                    {"id": "bypassPermissions", "display_name": "Bypass Permissions", "approval_class": "unattended"},
                    {"id": "plan", "display_name": "Plan", "approval_class": "guarded"}
                ]
            }]
        }"#
        )
    );
    let round = AcpCapabilitiesResponse::from_json(&answer).expect("deserialize");
    assert_eq!(round, response);
}

#[test]
fn undiscovered_omits_updated_at() {
    let agent = AcpAgentCapability {
        id: "codex".into(),
        display_name: "Codex".into(),
        catalog_status: CatalogStatus::Undiscovered,
        catalog_updated_at: None,
        models: vec![],
        modes: vec![],
    };
    let answer = to_value(&agent.to_json());
    assert!(answer.get("catalog_updated_at").is_none());
    assert_eq!(answer["catalog_status"], "undiscovered");
}

#[test]
fn answers_of_another_shape_are_not_read() {
    assert!(AcpCapabilitiesResponse::from_json(&json("{}")).is_none());
    assert!(AcpCapabilitiesResponse::from_json(&json("{\"agents\": [{\"id\": 1}]}")).is_none());
    assert!(AcpModeCapability::from_json(&json(
        "{\"id\": \"a\", \"display_name\": \"b\", \"approval_class\": \"none\"}"
    ))
    .is_none());
    assert!(AcpModelCapability::from_json(&json("{\"id\": \"a\", \"display_name\": \"b\", \"x\": 1}")).is_some());
}

/// An array gives the parts in their order, and a name can stand as the only key of an object.
#[test]
fn answers_are_read_from_arrays_too() {
    let text = "[[[\"a\", \"A\", {\"discovered\": null}, null, [[\"m\", \"M\"]], [[\"p\", \"P\", \"guarded\"]]]]]";
    let answer = AcpCapabilitiesResponse::from_json(&json(text)).expect("an array of parts");
    assert_eq!(
        answer,
        AcpCapabilitiesResponse {
            agents: vec![AcpAgentCapability {
                id: "a".into(),
                display_name: "A".into(),
                catalog_status: CatalogStatus::Discovered,
                catalog_updated_at: None,
                models: vec![AcpModelCapability { id: "m".into(), display_name: "M".into() }],
                modes: vec![AcpModeCapability {
                    id: "p".into(),
                    display_name: "P".into(),
                    approval_class: ApprovalClass::Guarded,
                }],
            }],
        }
    );
    assert!(AcpModelCapability::from_json(&json("[\"m\"]")).is_none());
    assert!(AcpModelCapability::from_json(&json("[\"m\", \"M\", \"x\"]")).is_none());
    assert!(AcpModeCapability::from_json(&json("[\"p\", \"P\", {\"guarded\": 1}]")).is_none());
    assert!(AcpModeCapability::from_json(&json("[\"p\", \"P\", {\"guarded\": null, \"x\": null}]")).is_none());
}

#[test]
fn capabilities_are_listed_in_order() {
    let catalog = OptionCatalog {
        agents: vec![(
            "opencode".into(),
            AgentOptionEntry {
                updated_at: "2026-07-16T00:00:00Z".into(),
                options: vec![
                    offer(ConfigOptionCategory::Mode, &["plan", "acceptEdits", "default"]),
                    offer(ConfigOptionCategory::Model, &["m2", "m1"]),
                ],
            },
        )],
    };
    let answer = capabilities_get(&registry(), &catalog);
    let ids: Vec<&str> = answer.agents.iter().map(|a| a.id.as_str()).collect();
    assert_eq!(ids, vec!["codex", "opencode"]);
    assert_eq!(answer.agents[0].catalog_status, CatalogStatus::Undiscovered);
    assert!(answer.agents[0].models.is_empty());
    let found = &answer.agents[1];
    assert_eq!(found.catalog_status, CatalogStatus::Discovered);
    let modes: Vec<(&str, ApprovalClass)> = found.modes.iter().map(|m| (m.id.as_str(), m.approval_class)).collect();
    assert_eq!(
        modes,
        vec![
            ("acceptEdits", ApprovalClass::Unattended),
            ("default", ApprovalClass::Interactive),
            ("plan", ApprovalClass::Guarded),
        ]
    );
    let models: Vec<&str> = found.models.iter().map(|m| m.id.as_str()).collect();
    assert_eq!(models, vec!["m1", "m2"]);
}

// The automation policy.

#[test]
fn classification_table() {
    let catalog = catalog_with_modes(&["default", "plan", "acceptEdits", "customMode"]);
    let class = ModeDecision::Class;
    let classify =
        |agent: &str, mode: Option<&str>, entry: Option<&AgentOptionEntry>| classify_mode(&registry(), agent, mode, entry);

    // Omitted mode: adapter default, interactive.
    assert_eq!(classify("opencode", None, None), class(ApprovalClass::Interactive));
    // Adapter bypass id from the profile: unattended, catalog or not.
    assert_eq!(
        classify("opencode", Some("bypassPermissions"), None),
        class(ApprovalClass::Unattended)
    );
    assert_eq!(
        classify("codex", Some("agent-full-access"), None),
        class(ApprovalClass::Unattended)
    );
    // Trusted table entries work without a discovered catalog.
    assert_eq!(classify("opencode", Some("plan"), None), class(ApprovalClass::Guarded));
    assert_eq!(
        classify("opencode", Some("default"), None),
        class(ApprovalClass::Interactive)
    );
    // acceptEdits auto-writes: unattended even though advertised.
    assert_eq!(
        classify("opencode", Some("acceptEdits"), Some(&catalog)),
        class(ApprovalClass::Unattended)
    );
    // Advertised but unknown semantics: fail closed to unattended.
    assert_eq!(
        classify("opencode", Some("customMode"), Some(&catalog)),
        class(ApprovalClass::Unattended)
    );
    // Not advertised, not known: invalid.
    assert_eq!(
        classify("opencode", Some("nope"), Some(&catalog)),
        ModeDecision::UnknownMode
    );
    // Explicit unknown mode with no catalog yet: refuse rather than guess.
    assert_eq!(
        classify("opencode", Some("customMode"), None),
        ModeDecision::CatalogNotDiscovered
    );
}

fn bound(s: &Statement) -> Vec<rusqlite::types::Value> {
    s.params
        .iter()
        .map(|p| match p {
            SqlValue::Text(t) => rusqlite::types::Value::Text(t.clone()),
            SqlValue::Integer(n) => rusqlite::types::Value::Integer(*n),
            SqlValue::Blob(b) => rusqlite::types::Value::Blob(b.clone()),
            SqlValue::Null => rusqlite::types::Value::Null,
        })
        .collect()
}

/// How many operations of a plugin the ledger counts.
fn used(conn: &Connection, policy: &AutomationPolicy, operation: &str, plugin: &str, now: i64) -> Result<u64, String> {
    let s = policy.used_query(operation, plugin, now);
    conn.query_row(&s.sql, params_from_iter(bound(&s)), |row| row.get::<_, i64>(0))
        .map(count_reply)
        .map_err(|e| e.to_string())
}

/// Records an admitted operation in the ledger.
fn record(conn: &Connection, policy: &AutomationPolicy, operation: &str, plugin: &str, now: i64) {
    let h = highest_seq(&policy.schema, &format!("{operation}/{plugin}"));
    let max: Option<i64> = conn.query_row(&h.sql, params_from_iter(bound(&h)), |row| row.get(0)).unwrap();
    let s = policy.admission_statement(operation, plugin, highest_reply(max), now);
    assert_eq!(conn.execute(&s.sql, params_from_iter(bound(&s))).unwrap(), 1);
}

const NOW: i64 = 1_700_000_000_000;

#[test]
fn limits_and_reservations() {
    let mut policy = AutomationPolicy::open().expect("open");
    let conn = Connection::open_in_memory().expect("a ledger");
    conn.execute_batch(&open(&policy.schema)).expect("its tables");

    // Concurrency: active sessions + reservations are capped together.
    let mut held = Vec::new();
    for _ in 0..MAX_ACTIVE_PLUGIN_SESSIONS {
        let n = used(&conn, &policy, "create", "cron", NOW);
        held.push(policy.admit_create("cron", 0, n).map_err(|e| e.message).expect("under the cap"));
        record(&conn, &policy, "create", "cron", NOW);
    }
    let n = used(&conn, &policy, "create", "cron", NOW);
    let denied = match policy.admit_create("cron", 0, n) {
        Err(e) => e,
        Ok(_) => panic!("cap reached"),
    };
    assert_eq!(denied.code, codes::RATE_LIMITED);
    assert_eq!(kind(&denied), "concurrency_limited");
    assert_eq!(denied.message, "plugin cron already has 5 active or pending sessions (limit 5)");
    // Another plugin is unaffected.
    let n = used(&conn, &policy, "create", "other", NOW);
    assert_eq!(n, Ok(0));
    let _other = policy.admit_create("other", 0, n).expect("separate scope");
    // Releasing a slot re-admits.
    let slot = held.pop().expect("a slot");
    policy.release_reservation(&slot.plugin_id);
    let n = used(&conn, &policy, "create", "cron", NOW);
    let _again = policy.admit_create("cron", 0, n).expect("slot released");

    // Turn rate: durable rolling window.
    for _ in 0..MAX_PLUGIN_TURNS_PER_HOUR {
        policy.admit_turn("cron", used(&conn, &policy, "turn", "cron", NOW)).expect("under the rate");
        record(&conn, &policy, "turn", "cron", NOW);
    }
    let denied = policy.admit_turn("cron", used(&conn, &policy, "turn", "cron", NOW)).expect_err("rate reached");
    assert_eq!(denied.code, codes::RATE_LIMITED);
    assert_eq!(kind(&denied), "rate_limited");
    policy.admit_turn("other", used(&conn, &policy, "turn", "other", NOW)).expect("separate scope");

    // The ledger survives a reopen (daemon restart): the window still
    // counts the prior admissions.
    let reopened = AutomationPolicy::open().expect("reopen");
    conn.execute_batch(&open(&reopened.schema)).expect("its tables");
    let denied = reopened
        .admit_turn("cron", used(&conn, &reopened, "turn", "cron", NOW))
        .expect_err("window persisted");
    assert_eq!(kind(&denied), "rate_limited");
    // An hour later the window is empty again.
    let later = NOW + 60 * 60 * 1000 + 1;
    assert_eq!(used(&conn, &reopened, "turn", "cron", later), Ok(0));
}

#[test]
fn limits_are_named() {
    let mut policy = AutomationPolicy::open().expect("open");
    let e = policy.admit_create("cron", 0, Ok(MAX_PLUGIN_CREATES_PER_HOUR)).unwrap_err();
    assert_eq!(kind(&e), "rate_limited");
    assert_eq!(e.message, "plugin cron exceeded 20 admitted create operations in the rolling hour");
    let e = policy.admit_create("cron", 0, Err("locked".into())).unwrap_err();
    assert_eq!(e.code, codes::INTERNAL_ERROR);
    assert_eq!(e.message, "automation ledger read failed: locked");
    assert!(policy.reservations.is_empty(), "a refused create reserves nothing");
    // Live sessions count as reserved ones do.
    assert!(policy.admit_create("cron", 4, Ok(0)).is_ok());
    assert_eq!(kind(&policy.admit_create("cron", 4, Ok(0)).unwrap_err()), "concurrency_limited");
    policy.release_reservation("nobody");
    assert_eq!(policy.reservations.len(), 1);
    assert_eq!(ledger_write_failed("full").code, codes::INTERNAL_ERROR);
    assert!(policy.retention_query("turn", "cron").is_some());
    let s = policy.audit("cron", &json("{\"op\": \"x\"}"), 4, 9);
    assert_eq!(s.params[0], SqlValue::Text("decision/cron".into()));
    assert_eq!(s.params[1], SqlValue::Integer(5));
}

// The session calls of plugins.

/// Every method refuses a caller missing its gating capability, before touching any state.
#[test]
fn authz_matrix_capability_gates() {
    let none = ctx_with(&[]);
    for method in ["acp.capabilities.get", "sessions.create", "sessions.turn.send"] {
        let err = dispatch(&none, method, &json("{}")).expect_err("must be refused without the capability");
        assert_eq!(err.code, codes::FORBIDDEN, "{method}");
        assert_eq!(kind(&err), "capability_missing", "{method}");
        assert!(handles(method));
    }
    // The wrong capability does not substitute for the right one.
    let wrong = ctx_with(&["session.prompt"]);
    let err = dispatch(&wrong, "sessions.create", &json("{}"))
        .expect_err("session.prompt must not grant sessions.create");
    assert_eq!(err.code, codes::FORBIDDEN);
}

fn create_request(params: &str) -> SessionsCreateRequest {
    match dispatch(&ctx_with(&["session.create"]), "sessions.create", &json(params)) {
        Ok(SessionCall::Create(q)) => q,
        r => panic!("a create, got {r:?}"),
    }
}

/// An unattended-classified mode needs the distinct session.unattended grant; session.create alone
/// is refused with the stable policy kind.
#[test]
fn unattended_mode_requires_the_distinct_grant() {
    let req = create_request(r#"{"agent_id": "opencode", "project_path": "/tmp", "mode_id": "bypassPermissions"}"#);
    let ctx = ctx_with(&["session.create"]);
    let mut policy = AutomationPolicy::open().expect("open");
    let err = admit_and_create(
        &ctx,
        &registry(),
        &no_catalog(),
        &req,
        Ok("/tmp".into()),
        &Vec::new(),
        &mut policy,
        Ok(0),
        "test",
    )
    .expect_err("unattended without the grant must be refused");
    assert_eq!(err.code, codes::POLICY_DENIED);
    assert_eq!(kind(&err), "unattended_grant_required");
    assert_eq!(
        err.data.as_ref().map(to_value),
        Some(value(
            r#"{"kind": "unattended_grant_required", "required_capability": "session.unattended",
                "agent_id": "opencode", "mode_id": "bypassPermissions", "approval_class": "unattended"}"#
        ))
    );
    let ctx = ctx_with(&["session.create", "session.unattended"]);
    assert_eq!(
        check_create(&ctx, &registry(), &no_catalog(), &req).expect("granted"),
        ApprovalClass::Unattended
    );
}

/// A payload smuggling an unknown field (a would-be bypass flag) is rejected at decode, before any
/// capability-gated work.
#[test]
fn create_rejects_unknown_payload_fields() {
    let ctx = ctx_with(&["session.create"]);
    let err = dispatch(
        &ctx,
        "sessions.create",
        &json(r#"{"agent_id": "opencode", "project_path": "/tmp", "allow_untrusted": true}"#),
    )
    .expect_err("unknown fields must be rejected");
    assert_eq!(err.code, codes::INVALID_PARAMS);
}

#[test]
fn parameters_are_refused_by_their_first_fault() {
    let create = |params: &str| dispatch(&ctx_with(&["session.create"]), "sessions.create", &json(params)).unwrap_err();
    let words = |params: &str| create(params).message.replace("sessions.create params: ", "");
    assert_eq!(create("{}").message, "sessions.create params: missing field `agent_id`");
    assert_eq!(words("{\"agent_id\": \"a\"}"), "missing field `project_path`");
    assert_eq!(words("[]"), "invalid type: sequence, expected struct SessionsCreateRequest");
    assert_eq!(words("{\"agent_id\": null, \"zzz\": 1}"), "invalid type: null, expected a string");
    assert_eq!(words("{\"agent_id\": {}}"), "invalid type: map, expected a string");
    assert_eq!(words("{\"title\": 1.5}"), "invalid type: floating point `1.5`, expected a string");
    assert_eq!(
        words("{\"aaa\": 1, \"agent_id\": 2}"),
        "unknown field `aaa`, expected one of `agent_id`, `project_path`, `title`, `group`, `mode_id`, `model_id`, \
         `idempotency_key`, `initial_turn`"
    );
    assert_eq!(words("{\"initial_turn\": {}}"), "missing field `text`");
    assert_eq!(words("{\"initial_turn\": {\"x\": 1}}"), "unknown field `x`, expected `text`");
    let send = |params: &str| dispatch(&ctx_with(&["session.prompt"]), "sessions.turn.send", &json(params)).unwrap_err();
    assert_eq!(
        send("{\"session\": 1}").message,
        "sessions.turn.send params: unknown field `session`, expected `session_id` or `text`"
    );
}

/// turn.send maps the service's ownership and existence denials to the stable error kinds.
#[test]
fn turn_send_maps_ownership_and_missing_session() {
    let mut user_session = Instance::new("user-owned", "/tmp/aoe-2897-project");
    user_session.id = "sess-user".to_string();
    let mut other_session = Instance::new("other-owned", "/tmp/aoe-2897-project");
    other_session.id = "sess-other".to_string();
    other_session.created_by_plugin = Some("other-plugin".to_string());
    let service = SessionService::new(vec![user_session, other_session]);
    let policy = AutomationPolicy::open().expect("policy");
    let ctx = ctx_with(&["session.prompt"]);

    for (session, expected_kind, expected_code) in [
        ("sess-user", "not_owner", codes::FORBIDDEN),
        ("sess-other", "not_owner", codes::FORBIDDEN),
        ("sess-gone", "session_not_found", codes::INVALID_PARAMS),
    ] {
        let params = format!("{{\"session_id\": \"{session}\", \"text\": \"hi\"}}");
        let req = match dispatch(&ctx, "sessions.turn.send", &json(&params)) {
            Ok(SessionCall::TurnSend(q)) => q,
            r => panic!("a turn, got {r:?}"),
        };
        assert_eq!(req.text, "hi");
        let err = sessions_turn_send(&ctx, &policy, &service, &req, Ok(0)).expect_err("must be refused");
        assert_eq!(err.code, expected_code, "{session}");
        assert_eq!(kind(&err), expected_kind, "{session}");
        // The limit comes first.
        let err = sessions_turn_send(&ctx, &policy, &service, &req, Ok(MAX_PLUGIN_TURNS_PER_HOUR)).unwrap_err();
        assert_eq!(kind(&err), "rate_limited");
    }
}

#[test]
fn methods_of_others_are_not_routed_here() {
    let e = dispatch(&ctx_with(&[]), "sessions.list", &json("{}")).unwrap_err();
    assert_eq!(e.message, "session_api routed unknown method \"sessions.list\"");
    assert_eq!(e.code, codes::INTERNAL_ERROR);
    assert!(!handles("sessions.list"));
    assert!(matches!(
        dispatch(&ctx_with(&["acp.capabilities.read"]), "acp.capabilities.get", &json("null")),
        Ok(SessionCall::CapabilitiesGet)
    ));
}

#[test]
fn create_requests_are_checked() {
    let caps = ctx_with(&["session.create", "session.unattended"]);
    let catalog = OptionCatalog {
        agents: vec![(
            "opencode".into(),
            AgentOptionEntry {
                updated_at: "t".into(),
                options: vec![offer(ConfigOptionCategory::Model, &["m1"])],
            },
        )],
    };
    let refused = |catalog: &OptionCatalog, params: &str| {
        kind(&check_create(&caps, &registry(), catalog, &create_request(params)).unwrap_err())
    };
    assert_eq!(refused(&catalog, r#"{"agent_id": "x", "project_path": "/"}"#), "unknown_agent");
    assert_eq!(
        refused(&catalog, r#"{"agent_id": "opencode", "project_path": "/", "mode_id": "odd"}"#),
        "unknown_mode"
    );
    assert_eq!(
        refused(&no_catalog(), r#"{"agent_id": "opencode", "project_path": "/", "mode_id": "odd"}"#),
        "catalog_not_discovered"
    );
    assert_eq!(
        refused(&catalog, r#"{"agent_id": "opencode", "project_path": "/", "model_id": "m2"}"#),
        "unknown_model"
    );
    assert_eq!(
        refused(&catalog, r#"{"agent_id": "opencode", "project_path": "/", "initial_turn": {"text": "go"}}"#),
        "capability_missing"
    );
    let fine = create_request(r#"{"agent_id": "opencode", "project_path": "/", "model_id": "m1"}"#);
    assert_eq!(check_create(&caps, &registry(), &catalog, &fine).unwrap(), ApprovalClass::Interactive);
    // A model cannot be checked before the agent has advertised any.
    let unchecked = create_request(r#"{"agent_id": "opencode", "project_path": "/", "model_id": "m9"}"#);
    assert!(check_create(&caps, &registry(), &no_catalog(), &unchecked).is_ok());
}

#[test]
fn creates_are_admitted_and_counted() {
    let ctx = ctx_with(&["session.create"]);
    let req = create_request(r#"{"agent_id": "opencode", "project_path": "../p", "title": "T", "mode_id": "plan"}"#);
    let mut policy = AutomationPolicy::open().expect("open");
    let mut mine = Instance::new("a", "/p");
    mine.created_by_plugin = Some("cron".into());
    let mut gone = Instance::new("b", "/p");
    gone.created_by_plugin = Some("cron".into());
    gone.trashed = true;
    let sessions = vec![mine, gone, Instance::new("c", "/p")];
    assert_eq!(count_active(&sessions, "cron"), 1);
    let missing = admit_and_create(
        &ctx,
        &registry(),
        &no_catalog(),
        &req,
        Err("No such file".into()),
        &sessions,
        &mut policy,
        Ok(0),
        "work",
    )
    .unwrap_err();
    assert_eq!(missing.code, codes::INVALID_PARAMS);
    assert_eq!(missing.message, "project_path \"../p\": No such file");
    assert!(policy.reservations.is_empty());
    let admitted = admit_and_create(
        &ctx,
        &registry(),
        &no_catalog(),
        &req,
        Ok("/home/p".into()),
        &sessions,
        &mut policy,
        Ok(0),
        "work",
    )
    .expect("admitted");
    assert_eq!(admitted.spec.path, "/home/p");
    assert_eq!(admitted.spec.tool, "opencode");
    assert_eq!(admitted.spec.profile, "work");
    assert_eq!(admitted.spec.acp_mode_id.as_deref(), Some("plan"));
    assert_eq!(admitted.spec.trust_hooks, Some(false));
    assert_eq!(admitted.reservation.plugin_id, "cron");
    assert_eq!(policy.reservations, vec!["cron"]);
}

#[test]
fn failures_become_stable_errors() {
    let e = map_create_error(CreateError::IdempotencyConflict { key: "k".into() });
    assert_eq!((e.code, kind(&e).as_str()), (codes::CONFLICT, "idempotency_conflict"));
    let e = map_create_error(CreateError::HooksNeedTrust);
    assert_eq!((e.code, kind(&e).as_str()), (codes::FAILED_PRECONDITION, "repo_untrusted"));
    let e = map_create_error(CreateError::BuildPanicked("p".into()));
    assert_eq!((e.code, e.message.as_str()), (codes::INTERNAL_ERROR, "session create failed: p"));
    let e = map_create_error(CreateError::Failed("f".into()));
    assert_eq!((e.code, e.message.as_str()), (codes::INTERNAL_ERROR, "session create failed: f"));
    let e = map_send_error(SendTurnError::ModeApplication(SupervisorError::Other("m".into())));
    assert_eq!((e.code, kind(&e).as_str()), (codes::FAILED_PRECONDITION, "mode_application_failed"));
    let e = map_send_error(SendTurnError::ResumeFailed(SupervisorError::Other("m".into())));
    assert_eq!((e.code, kind(&e).as_str()), (codes::SERVICE_UNAVAILABLE, "worker_not_ready"));
    assert_eq!(e.message, "worker resume failed: m");
    let e = map_send_error(SendTurnError::WorkerNotReady);
    assert_eq!(e.message, "worker not ready; retry");
    let e = map_send_error(SendTurnError::Send(SupervisorError::Other("s".into())));
    assert_eq!((e.code, e.message.as_str()), (codes::INTERNAL_ERROR, "prompt forward failed: s"));
}

#[test]
fn calls_are_recorded() {
    let (record, answer) =
        sessions_create(Ok(SessionsCreateResponse { session_id: "s".into(), created: true }));
    assert_eq!(
        to_value(&record),
        value(r#"{"op": "sessions.create", "decision": "ok", "session": "s", "created": true}"#)
    );
    assert_eq!(to_value(&answer.expect("an answer")), value(r#"{"session_id": "s", "created": true}"#));
    let (record, answer) = sessions_create(Err(map_create_error(CreateError::HooksNeedTrust)));
    assert_eq!(
        to_value(&record),
        value(r#"{"op": "sessions.create", "decision": "denied", "code": -32005, "kind": "repo_untrusted"}"#)
    );
    assert!(answer.is_err());
    assert_eq!(
        to_value(&sessions_turn_record("s", &Ok(()))),
        value(r#"{"op": "sessions.turn.send", "session": "s", "decision": "ok", "kind": null}"#)
    );
    assert_eq!(
        to_value(&sessions_turn_record("s", &Err(map_send_error(SendTurnError::NotOwner)))),
        value(r#"{"op": "sessions.turn.send", "session": "s", "decision": "denied", "kind": "not_owner"}"#)
    );
}

// The choices of settings.

#[test]
fn resolves_agents_models_and_groups() {
    let mut a = Instance::new("one", "/tmp/p");
    a.group_path = "work/backend".to_string();
    let mut b = Instance::new("two", "/tmp/q");
    b.group_path = "work/backend".to_string();
    let instances = vec![a, b];
    let agents = registry().names;
    let catalog = no_catalog();
    let nothing = Vec::new();
    let state = OptionState {
        registry: &agents,
        custom_agents: &nothing,
        catalog: &catalog,
        instances: &instances,
        project_paths: &nothing,
        project_names: &nothing,
        project_error: None,
    };

    // Agents: those of the registry.
    let agents = resolve_option_source(&state, OptionSource::AcpAgents, &Vec::new()).expect("agents");
    assert!(agents.iter().any(|o| o.value == "opencode"));

    // Models with no selected agent: empty (nothing to resolve yet).
    let models = resolve_option_source(&state, OptionSource::AcpModels, &Vec::new()).expect("models");
    assert!(models.is_empty());
    // Models for an agent with no discovered catalog: still empty, never errors.
    let models = resolve_option_source(&state, OptionSource::AcpModels, &vec!["opencode".to_string()]).expect("models");
    assert!(models.is_empty());

    // Groups: derived from live instances, deduped.
    let groups = resolve_option_source(&state, OptionSource::Groups, &Vec::new()).expect("groups");
    assert_eq!(
        groups.iter().map(|o| o.value.as_str()).collect::<Vec<_>>(),
        vec!["work/backend"]
    );
}

#[test]
fn resolves_offers_and_projects() {
    let agents = vec!["n".to_string(), "m".to_string()];
    let custom = vec!["l".to_string(), "n".to_string()];
    let catalog = OptionCatalog { agents: vec![("x".into(), catalog_with_modes(&["b", "a"]))] };
    let instances = Vec::new();
    let paths = vec!["/z".to_string(), "/a".to_string()];
    let names = vec!["Z".to_string(), "A".to_string()];
    let mut state = OptionState {
        registry: &agents,
        custom_agents: &custom,
        catalog: &catalog,
        instances: &instances,
        project_paths: &paths,
        project_names: &names,
        project_error: None,
    };
    let pairs = |state: &OptionState, source, depends: &[&str]| -> Vec<(String, String)> {
        let req = ResolveOptionsRequest { source, depends: depends.iter().map(|d| d.to_string()).collect() };
        let answer = resolve_options(state, &req).expect("choices");
        answer.options.into_iter().map(|o| (o.value, o.label)).collect()
    };
    let pair = |a: &str, b: &str| (a.to_string(), b.to_string());
    assert_eq!(
        pairs(&state, OptionSource::AcpAgents, &[]),
        vec![pair("l", "l"), pair("m", "m"), pair("n", "n")]
    );
    assert_eq!(pairs(&state, OptionSource::AcpModes, &["x", "y"]), vec![pair("b", "b"), pair("a", "a")]);
    assert!(pairs(&state, OptionSource::AcpModes, &["y"]).is_empty());
    assert_eq!(pairs(&state, OptionSource::Projects, &[]), vec![pair("/z", "Z"), pair("/a", "A")]);
    state.project_error = Some("bad file");
    let req = ResolveOptionsRequest { source: OptionSource::Projects, depends: Vec::new() };
    assert_eq!(resolve_options(&state, &req).unwrap_err(), "option resolve failed: bad file");
}

// Projects.

#[test]
fn project_patch_requires_at_least_one_field() {
    // An empty body is a no-op, not an intent to clear: it must not wipe the default base branch.
    assert_eq!(
        parse_project_patch(&json("{}")),
        Err(("no_fields", "provide at least one of: default_base_branch, pinned"))
    );
}

#[test]
fn project_patch_parses_base_branch() {
    // null clears, a string sets; the key being present is what matters.
    assert_eq!(
        parse_project_patch(&json("{\"default_base_branch\": null}")),
        Ok(ProjectPatch { base_branch: Some(None), pinned: None })
    );
    assert_eq!(
        parse_project_patch(&json("{\"default_base_branch\": \"develop\"}")),
        Ok(ProjectPatch { base_branch: Some(Some("develop".to_string())), pinned: None })
    );
    assert_eq!(
        parse_project_patch(&json("{\"default_base_branch\": 42}")),
        Err(("bad_field", "default_base_branch must be a string or null"))
    );
}

#[test]
fn project_patch_parses_pinned_alone() {
    // The unpin path sends only `pinned`, with no base-branch key.
    assert_eq!(
        parse_project_patch(&json("{\"pinned\": false}")),
        Ok(ProjectPatch { base_branch: None, pinned: Some(false) })
    );
    assert_eq!(
        parse_project_patch(&json("{\"pinned\": \"yes\"}")),
        Err(("bad_field", "pinned must be a boolean"))
    );
}

fn project(name: &str) -> Project {
    Project {
        name: name.into(),
        path: "/p".into(),
        scope: ProjectScope::Profile,
        default_base_branch: None,
        pinned: true,
    }
}

fn scope(s: Option<&str>) -> DeleteQuery {
    DeleteQuery { scope: s.map(|s| s.into()) }
}

#[test]
fn projects_are_listed() {
    assert_eq!(list_projects(&ListQuery { scope: None }).unwrap(), ListSource::Merged);
    assert_eq!(list_projects(&ListQuery { scope: Some("global".into()) }).unwrap(), ListSource::Global);
    assert_eq!(list_projects(&ListQuery { scope: Some("profile".into()) }).unwrap(), ListSource::Profile);
    let e = list_projects(&ListQuery { scope: Some("x".into()) }).unwrap_err();
    assert_eq!(e.status, 400);
    assert_eq!(
        to_value(&e.body),
        value("{\"error\": \"bad_scope\", \"message\": \"Unknown scope 'x'. Use 'global', 'profile', or omit.\"}")
    );
    let r = list_reply(Ok(vec![project("a")]));
    assert_eq!(r.status, 200);
    assert_eq!(
        to_value(&r.body),
        value("[{\"name\": \"a\", \"path\": \"/p\", \"scope\": \"profile\", \"pinned\": true}]")
    );
    assert_eq!(list_reply(Err("x".into())).status, 500);
}

fn body(path: &str, name: Option<&str>, scope: Option<&str>) -> Result<CreateProjectBody, ApiReply> {
    Ok(CreateProjectBody {
        path: path.into(),
        name: name.map(|n| n.into()),
        scope: scope.map(|s| s.into()),
        allow_override: true,
        default_base_branch: Some("  main ".into()),
        pinned: false,
    })
}

#[test]
fn projects_are_created() {
    let order = create_project(None, false, body("x", None, None), "/w/app", true).expect("an order");
    assert_eq!(order.project.name, "app");
    assert_eq!(order.project.path, "/w/app");
    assert_eq!(order.scope, ProjectScope::Global);
    assert_eq!(order.project.default_base_branch.as_deref(), Some("main"));
    assert!(order.allow_override);
    let named = create_project(None, false, body("x", Some("n"), Some("profile")), "/", true).expect("an order");
    assert_eq!((named.project.name.as_str(), named.scope), ("n", ProjectScope::Profile));
    assert_eq!(create_project(None, false, body("x", None, None), "/", true).unwrap().project.name, "project");
    let error = |r: Result<_, ApiReply>| {
        let e: ApiReply = match r {
            Err(e) => e,
            Ok(()) => panic!("refused"),
        };
        (e.status, to_value(&e.body)["error"].as_str().unwrap_or_default().to_string())
    };
    let create = |blocked, read_only, b, is_dir| create_project(blocked, read_only, b, "/w", is_dir).map(|_| ());
    assert_eq!(error(create(None, true, body("x", None, None), true)), (403, "read_only".into()));
    assert_eq!(error(create(None, false, body("x", None, Some("q")), true)), (400, "bad_scope".into()));
    assert_eq!(error(create(None, false, body("x", None, None), false)), (400, "not_a_directory".into()));
    let blocked = Some(ApiReply { status: 409, body: json("{\"error\": \"client\"}") });
    assert_eq!(error(create(blocked, true, body("x", None, None), true)), (409, "client".into()));
    let replied = |r: ApiReply| (r.status, to_value(&r.body)["error"].as_str().unwrap_or_default().to_string());
    assert_eq!(replied(add_reply(Ok(project("a")))), (201, "".into()));
    assert_eq!(replied(add_reply(Err(RegistryError::Conflict("c".into())))).0, 409);
    assert_eq!(replied(add_reply(Err(RegistryError::Other("o".into())))), (500, "add_failed".into()));
    assert_eq!(replied(remove_reply(Err(RegistryError::NotFound("n".into())))).0, 404);
    assert_eq!(replied(remove_reply(Ok(project("a")))).0, 200);
}

#[test]
fn projects_are_changed() {
    assert_eq!(delete_project(None, false, &scope(None)).unwrap(), ProjectScope::Global);
    assert_eq!(delete_project(None, true, &scope(None)).unwrap_err().status, 403);
    assert_eq!(delete_project(None, false, &scope(Some("z"))).unwrap_err().status, 400);
    let order =
        update_project(None, false, Ok(json("{\"pinned\": true}")), &scope(Some("profile"))).expect("an order");
    assert_eq!(order.scope, ProjectScope::Profile);
    assert_eq!(order.patch, ProjectPatch { base_branch: None, pinned: Some(true) });
    assert_eq!(update_project(None, false, Ok(json("{}")), &scope(None)).unwrap_err().status, 400);
    // The pin is not tried once the base branch has failed, so that its error is answered.
    let failed = Some(Err(RegistryError::NotFound("gone".into())));
    assert!(!sets_pin(&order.patch, &failed));
    assert!(sets_pin(&order.patch, &None));
    assert!(!sets_pin(&ProjectPatch { base_branch: Some(None), pinned: None }, &Some(Ok(project("a")))));
    assert_eq!(update_reply(failed, None).status, 404);
    assert_eq!(update_reply(Some(Ok(project("a"))), Some(Err(RegistryError::Other("x".into())))).status, 500);
    assert_eq!(update_reply(Some(Ok(project("a"))), None).status, 200);
}
