//! The worker calls that drive sessions: asking for the agents, creating a session, sending a turn.
//!
//! What lets a call through, in this order: the capabilities of the connection, the classification
//! of the approval mode by the host, the limits of the automation policy, and the rules of the
//! session service.

use vstd::prelude::*;

use crate::acp::{is_offered, ApprovalClass, ConfigOptionCategory, OptionCatalog};
use crate::acp_wire::{get_text, text_at};
use crate::automation::{
    classify_mode, create_verdict, mode_decision, rate_check, reserved, AgentRegistry, AutomationPolicy,
    CreateReservation, ModeDecision, MAX_ACTIVE_PLUGIN_SESSIONS, MAX_PLUGIN_TURNS_PER_HOUR,
};
use crate::decode::{invalid_type, invalid_type_words, missing_field, unknown_field, unknown_field_words};
use crate::host_api::{kind_of, DispatchError, PluginRpcContext};
use crate::json::{key_list, lists_keys, member, owned_json_of, text, text_or_null, Json, JsonMap, JsonV};
use crate::protocol::{codes, integer, integer_json};
use crate::session::{Instance, SessionView};
use crate::session_service::{conflict_words, IdempotencyConflict, SessionService};
use crate::session_spawn::{CreateError, StructuredSessionSpec};
use crate::text::{
    blank, copy_text, debug, debug_text, has_text, join2, join3, same, str_of, text_of, texts,
};
use crate::turns::{gate, supervisor_words, AdmittedTurn, SendTurnError, SessionCaller};

verus! {

/// The capability to ask for the agents.
pub const CAP_ACP_CAPABILITIES_READ: &'static str = "acp.capabilities.read";

/// The capability to create sessions.
pub const CAP_SESSION_CREATE: &'static str = "session.create";

/// The capability to send turns.
pub const CAP_SESSION_PROMPT: &'static str = "session.prompt";

/// The capability to create sessions in which an agent acts with nobody present.
pub const CAP_SESSION_UNATTENDED: &'static str = "session.unattended";

/// Whether a method is one of this module.
pub open spec fn is_session_method(method: Seq<char>) -> bool {
    method == "acp.capabilities.get"@ || method == "sessions.create"@ || method == "sessions.turn.send"@
}

/// Whether a method is one of this module.
pub fn handles(method: &str) -> (r: bool)
    ensures
        r == is_session_method(method@),
{
    same(method, "acp.capabilities.get") || same(method, "sessions.create") || same(method, "sessions.turn.send")
}

/// The request to create a session.
#[derive(Debug)]
pub struct SessionsCreateRequest {
    pub agent_id: String,
    pub project_path: String,
    pub title: Option<String>,
    pub group: Option<String>,
    pub mode_id: Option<String>,
    pub model_id: Option<String>,
    pub idempotency_key: Option<String>,
    /// The words of the first turn.
    pub initial_turn: Option<String>,
}

/// The request to send a turn.
#[derive(Debug)]
pub struct TurnSendRequest {
    pub session_id: String,
    pub text: String,
}

/// The answer to a create.
#[derive(Debug)]
pub struct SessionsCreateResponse {
    pub session_id: String,
    /// Whether the session is new, and not one that the same request made before.
    pub created: bool,
}

/// What parameters are read as.
#[derive(Debug, Clone, Copy, PartialEq, Eq, Structural)]
pub enum Shape {
    /// The request to create a session.
    Create,
    /// The first turn in such a request.
    FirstTurn,
    /// The request to send a turn.
    Turn,
}

impl Shape {
    /// The fields that have to be there, each a text.
    pub open spec fn required(self) -> Seq<Seq<char>> {
        match self {
            Shape::Create => seq!["agent_id"@, "project_path"@],
            Shape::FirstTurn => seq!["text"@],
            Shape::Turn => seq!["session_id"@, "text"@],
        }
    }

    /// The fields that may be left out, each a text.
    pub open spec fn optional(self) -> Seq<Seq<char>> {
        match self {
            Shape::Create => seq!["title"@, "group"@, "mode_id"@, "model_id"@, "idempotency_key"@],
            _ => Seq::empty(),
        }
    }

    /// All the fields.
    pub open spec fn fields(self) -> Seq<Seq<char>> {
        match self {
            Shape::Create => (self.required() + self.optional()).push("initial_turn"@),
            _ => self.required(),
        }
    }

    /// What is expected where something else is found.
    pub open spec fn expected(self) -> Seq<char> {
        match self {
            Shape::Create => "struct SessionsCreateRequest"@,
            Shape::FirstTurn => "struct InitialTurn"@,
            Shape::Turn => "struct TurnSendRequest"@,
        }
    }

    /// How deep shapes are nested in the shape.
    pub open spec fn depth(self) -> nat {
        match self {
            Shape::Create => 1,
            _ => 0,
        }
    }

    fn required_names(self) -> (r: Vec<String>)
        ensures
            texts(r@) == self.required(),
    {
        let names = match self {
            Shape::Create => vec!["agent_id".to_owned(), "project_path".to_owned()],
            Shape::FirstTurn => vec!["text".to_owned()],
            Shape::Turn => vec!["session_id".to_owned(), "text".to_owned()],
        };
        assert(texts(names@) =~= self.required());
        names
    }

    fn optional_names(self) -> (r: Vec<String>)
        ensures
            texts(r@) == self.optional(),
    {
        let names = match self {
            Shape::Create => vec![
                "title".to_owned(),
                "group".to_owned(),
                "mode_id".to_owned(),
                "model_id".to_owned(),
                "idempotency_key".to_owned(),
            ],
            _ => Vec::new(),
        };
        assert(texts(names@) =~= self.optional());
        names
    }

    fn field_names(self) -> (r: Vec<String>)
        ensures
            texts(r@) == self.fields(),
    {
        let mut names = self.required_names();
        let mut more = self.optional_names();
        names.append(&mut more);
        if matches!(self, Shape::Create) {
            names.push("initial_turn".to_owned());
        }
        assert(texts(names@) =~= self.fields());
        names
    }

    fn expected_words(self) -> (r: &'static str)
        ensures
            r@ == self.expected(),
    {
        match self {
            Shape::Create => "struct SessionsCreateRequest",
            Shape::FirstTurn => "struct InitialTurn",
            Shape::Turn => "struct TurnSendRequest",
        }
    }
}

/// What is wrong with a value that has to be a text, or may also be `null`.
pub open spec fn text_error(v: JsonV, may_be_null: bool) -> Option<Seq<char>> {
    if v is Text || (may_be_null && v is Null) {
        None
    } else {
        Some(invalid_type(v, "a string"@))
    }
}

fn find_text_error(v: &Json, may_be_null: bool) -> (r: Option<String>)
    ensures
        text_of(r) == text_error(v@, may_be_null),
{
    match v {
        Json::Text(_) => None,
        Json::Null => if may_be_null {
            None
        } else {
            Some(invalid_type_words(v, "a string"))
        },
        _ => Some(invalid_type_words(v, "a string")),
    }
}

/// What is wrong with the member under a key. The first turn of a create is an object of its own.
pub open spec fn member_error(k: Seq<char>, v: JsonV, shape: Shape) -> Option<Seq<char>>
    decreases shape.depth(), 0nat, 0nat,
{
    if shape.required().contains(k) {
        text_error(v, false)
    } else if shape.optional().contains(k) {
        text_error(v, true)
    } else if shape is Create && k == "initial_turn"@ {
        if v is Null {
            None
        } else {
            params_error(v, Shape::FirstTurn)
        }
    } else {
        Some(unknown_field(k, shape.fields()))
    }
}

/// The first thing that is wrong with the members under some keys.
pub open spec fn first_error(ks: Seq<Seq<char>>, m: Map<Seq<char>, JsonV>, shape: Shape) -> Option<Seq<char>>
    decreases shape.depth(), 1nat, ks.len(),
{
    if ks.len() == 0 {
        None
    } else {
        match member_error(ks[0], m[ks[0]], shape) {
            Some(e) => Some(e),
            None => first_error(ks.skip(1), m, shape),
        }
    }
}

/// The first name of a list that an object has no member for.
pub open spec fn first_missing(names: Seq<Seq<char>>, m: Map<Seq<char>, JsonV>) -> Option<Seq<char>>
    decreases names.len(),
{
    if names.len() == 0 {
        None
    } else if m.contains_key(names[0]) {
        first_missing(names.skip(1), m)
    } else {
        Some(names[0])
    }
}

/// What is wrong with parameters: no object; the first member, by its key, that is not known or no
/// text; the first field that is missing.
pub open spec fn params_error(v: JsonV, shape: Shape) -> Option<Seq<char>>
    decreases shape.depth(), 2nat, 0nat,
{
    match v {
        JsonV::Object(m) => match first_error(key_list(m), m, shape) {
            Some(e) => Some(e),
            None => match first_missing(shape.required(), m) {
                Some(k) => Some(missing_field(k)),
                None => None,
            },
        },
        _ => Some(invalid_type(v, shape.expected())),
    }
}

fn find_member_error(k: &str, v: &Json, shape: Shape) -> (r: Option<String>)
    ensures
        text_of(r) == member_error(k@, v@, shape),
    decreases shape.depth(), 0nat, 0nat,
{
    if has_text(&shape.required_names(), k) {
        find_text_error(v, false)
    } else if has_text(&shape.optional_names(), k) {
        find_text_error(v, true)
    } else if matches!(shape, Shape::Create) && same(k, "initial_turn") {
        if v.is_null() {
            None
        } else {
            find_params_error(v, Shape::FirstTurn)
        }
    } else {
        Some(unknown_field_words(k, &shape.field_names()))
    }
}

fn find_missing(names: &Vec<String>, m: &JsonMap) -> (r: Option<String>)
    ensures
        text_of(r) == first_missing(texts(names@), m@),
{
    let ghost all = texts(names@);
    let mut i: usize = 0;
    assert(all.skip(0) =~= all);
    while i < names.len()
        invariant
            i <= names@.len(),
            all == texts(names@),
            first_missing(all.skip(i as int), m@) == first_missing(all, m@),
        decreases names@.len() - i,
    {
        assert(all.skip(i as int)[0] == names@[i as int]@);
        assert(all.skip(i as int).skip(1) =~= all.skip(i + 1));
        if !m.contains_key(names[i].as_str()) {
            return Some(names[i].clone());
        }
        i = i + 1;
    }
    None
}

fn find_params_error(v: &Json, shape: Shape) -> (r: Option<String>)
    ensures
        text_of(r) == params_error(v@, shape),
    decreases shape.depth(), 2nat, 0nat,
{
    let m = match v.as_object() {
        Some(m) => m,
        None => {
            return Some(invalid_type_words(v, shape.expected_words()));
        },
    };
    let keys = m.keys();
    let ghost all = texts(keys@);
    let mut i: usize = 0;
    assert(all.skip(0) =~= all);
    while i < keys.len()
        invariant
            i <= keys@.len(),
            v@ == JsonV::Object(m@),
            all == texts(keys@),
            all == key_list(m@),
            lists_keys(all, m@),
            first_error(all.skip(i as int), m@, shape) == first_error(all, m@, shape),
        decreases keys@.len() - i,
    {
        assert(all.skip(i as int)[0] == keys@[i as int]@);
        assert(all.skip(i as int).skip(1) =~= all.skip(i + 1));
        assert(all.contains(all[i as int]));
        if let Some(item) = m.get(keys[i].as_str()) {
            let found = find_member_error(keys[i].as_str(), item, shape);
            if found.is_some() {
                return found;
            }
        }
        i = i + 1;
    }
    match find_missing(&shape.required_names(), m) {
        Some(k) => Some(join3("missing field `", k.as_str(), "`")),
        None => None,
    }
}

proof fn lemma_none_missing(names: Seq<Seq<char>>, m: Map<Seq<char>, JsonV>, i: int)
    requires
        first_missing(names, m) is None,
        0 <= i < names.len(),
    ensures
        m.contains_key(names[i]),
    decreases names.len(),
{
    if i > 0 {
        lemma_none_missing(names.skip(1), m, i - 1);
        assert(names.skip(1)[i - 1] == names[i]);
    }
}

proof fn lemma_none_wrong(ks: Seq<Seq<char>>, m: Map<Seq<char>, JsonV>, shape: Shape, i: int)
    requires
        first_error(ks, m, shape) is None,
        0 <= i < ks.len(),
    ensures
        member_error(ks[i], m[ks[i]], shape) is None,
    decreases ks.len(),
{
    if i > 0 {
        lemma_none_wrong(ks.skip(1), m, shape, i - 1);
        assert(ks.skip(1)[i - 1] == ks[i]);
    }
}

/// Parameters with nothing wrong have every field that has to be there, as a text.
proof fn lemma_required_text(v: JsonV, shape: Shape, i: int)
    requires
        params_error(v, shape) is None,
        v matches JsonV::Object(m) ==> m.dom().finite(),
        0 <= i < shape.required().len(),
    ensures
        text_at(v, shape.required()[i]) is Some,
{
    let m = v->Object_0;
    let k = shape.required()[i];
    lemma_none_missing(shape.required(), m, i);
    crate::json::lemma_key_list_exists(m);
    assert(key_list(m).contains(k));
    let j = choose|j: int| 0 <= j < key_list(m).len() && key_list(m)[j] == k;
    lemma_none_wrong(key_list(m), m, shape, j);
    assert(shape.required().contains(k));
}

/// The words of the first turn in the parameters of a create.
pub open spec fn turn_words(v: JsonV) -> Option<Seq<char>> {
    match member(v, "initial_turn"@) {
        Some(t) => text_at(t, "text"@),
        None => None,
    }
}

impl SessionsCreateRequest {
    /// Whether this is the request that parameters write.
    pub open spec fn read_from(&self, v: JsonV) -> bool {
        &&& Some(self.agent_id@) == text_at(v, "agent_id"@)
        &&& Some(self.project_path@) == text_at(v, "project_path"@)
        &&& text_of(self.title) == text_at(v, "title"@)
        &&& text_of(self.group) == text_at(v, "group"@)
        &&& text_of(self.mode_id) == text_at(v, "mode_id"@)
        &&& text_of(self.model_id) == text_at(v, "model_id"@)
        &&& text_of(self.idempotency_key) == text_at(v, "idempotency_key"@)
        &&& text_of(self.initial_turn) == turn_words(v)
    }

    /// Reads the parameters of a create. A field that is not known is an error.
    pub fn from_json(v: &Json) -> (r: Result<SessionsCreateRequest, String>)
        ensures
            match r {
                Ok(q) => params_error(v@, Shape::Create) is None && q.read_from(v@),
                Err(e) => params_error(v@, Shape::Create) == Some(e@),
            },
    {
        if let Some(e) = find_params_error(v, Shape::Create) {
            return Err(e);
        }
        let initial_turn = match v.get("initial_turn") {
            None => None,
            Some(t) => get_text(t, "text"),
        };
        proof {
            if let Json::Object(m) = v {
                crate::json::lemma_object_finite(m.entries@);
            }
            lemma_required_text(v@, Shape::Create, 0);
            lemma_required_text(v@, Shape::Create, 1);
        }
        match (get_text(v, "agent_id"), get_text(v, "project_path")) {
            (Some(agent_id), Some(project_path)) => Ok(
                SessionsCreateRequest {
                    agent_id,
                    project_path,
                    title: get_text(v, "title"),
                    group: get_text(v, "group"),
                    mode_id: get_text(v, "mode_id"),
                    model_id: get_text(v, "model_id"),
                    idempotency_key: get_text(v, "idempotency_key"),
                    initial_turn,
                },
            ),
            _ => Err(blank()),
        }
    }
}

impl TurnSendRequest {
    /// Whether this is the request that parameters write.
    pub open spec fn read_from(&self, v: JsonV) -> bool {
        Some(self.session_id@) == text_at(v, "session_id"@) && Some(self.text@) == text_at(v, "text"@)
    }

    /// Reads the parameters of a turn.
    pub fn from_json(v: &Json) -> (r: Result<TurnSendRequest, String>)
        ensures
            match r {
                Ok(q) => params_error(v@, Shape::Turn) is None && q.read_from(v@),
                Err(e) => params_error(v@, Shape::Turn) == Some(e@),
            },
    {
        if let Some(e) = find_params_error(v, Shape::Turn) {
            return Err(e);
        }
        proof {
            if let Json::Object(m) = v {
                crate::json::lemma_object_finite(m.entries@);
            }
            lemma_required_text(v@, Shape::Turn, 0);
            lemma_required_text(v@, Shape::Turn, 1);
        }
        match (get_text(v, "session_id"), get_text(v, "text")) {
            (Some(session_id), Some(text)) => Ok(TurnSendRequest { session_id, text }),
            _ => Err(blank()),
        }
    }
}

/// A call that was let through to its handler.
#[derive(Debug)]
pub enum SessionCall {
    CapabilitiesGet,
    Create(SessionsCreateRequest),
    TurnSend(TurnSendRequest),
}

/// The capability that a method needs.
pub open spec fn needed_capability(method: Seq<char>) -> Option<Seq<char>> {
    if method == "acp.capabilities.get"@ {
        Some("acp.capabilities.read"@)
    } else if method == "sessions.create"@ {
        Some("session.create"@)
    } else if method == "sessions.turn.send"@ {
        Some("session.prompt"@)
    } else {
        None
    }
}

/// What the parameters of a method come to.
pub open spec fn decoded(r: Result<SessionCall, DispatchError>, method: Seq<char>, params: JsonV) -> bool {
    if method == "acp.capabilities.get"@ {
        r matches Ok(c) && c is CapabilitiesGet
    } else if method == "sessions.create"@ {
        match params_error(params, Shape::Create) {
            Some(e) => r matches Err(d) && d.is(codes::INVALID_PARAMS, "sessions.create params: "@ + e, None),
            None => r matches Ok(SessionCall::Create(q)) && q.read_from(params),
        }
    } else {
        match params_error(params, Shape::Turn) {
            Some(e) => r matches Err(d) && d.is(codes::INVALID_PARAMS, "sessions.turn.send params: "@ + e, None),
            None => r matches Ok(SessionCall::TurnSend(q)) && q.read_from(params),
        }
    }
}

/// Lets a call through to its handler: the caller has the capability that the method needs, and
/// the parameters are those of the method.
pub fn dispatch(ctx: &PluginRpcContext, method: &str, params: &Json) -> (r: Result<SessionCall, DispatchError>)
    ensures
        match needed_capability(method@) {
            None => r matches Err(d) && d.is(
                codes::INTERNAL_ERROR,
                "session_api routed unknown method "@ + debug_text(method@),
                None,
            ),
            Some(c) => if ctx.granted(c) {
                decoded(r, method@, params@)
            } else {
                r matches Err(d) && ctx.misses(d, c)
            },
        },
{
    if same(method, "acp.capabilities.get") {
        match ctx.require(CAP_ACP_CAPABILITIES_READ) {
            Ok(_) => Ok(SessionCall::CapabilitiesGet),
            Err(e) => Err(e),
        }
    } else if same(method, "sessions.create") {
        match ctx.require(CAP_SESSION_CREATE) {
            Ok(_) => match SessionsCreateRequest::from_json(params) {
                Ok(q) => Ok(SessionCall::Create(q)),
                Err(e) => Err(DispatchError::invalid_params(join2("sessions.create params: ", e.as_str()))),
            },
            Err(e) => Err(e),
        }
    } else if same(method, "sessions.turn.send") {
        match ctx.require(CAP_SESSION_PROMPT) {
            Ok(_) => match TurnSendRequest::from_json(params) {
                Ok(q) => Ok(SessionCall::TurnSend(q)),
                Err(e) => Err(DispatchError::invalid_params(join2("sessions.turn.send params: ", e.as_str()))),
            },
            Err(e) => Err(e),
        }
    } else {
        Err(DispatchError::internal(join2("session_api routed unknown method ", debug(method).as_str())))
    }
}

/// No method is reached without the capability that it needs.
pub proof fn law_capability_gates(
    ctx: PluginRpcContext,
    r: Result<SessionCall, DispatchError>,
    method: Seq<char>,
    params: JsonV,
    capability: Seq<char>,
)
    requires
        needed_capability(method) == Some(capability),
        if ctx.granted(capability) {
            decoded(r, method, params)
        } else {
            r matches Err(d) && ctx.misses(d, capability)
        },
        !ctx.granted(capability),
    ensures
        r is Err,
        r->Err_0.code == codes::FORBIDDEN,
        kind_of(owned_json_of(r->Err_0.data)) == Some(JsonV::Text("capability_missing"@)),
{
}

/// What the host makes of a create request, before it looks at the project and the limits.
pub enum CreateVerdict {
    UnknownAgent,
    UnknownMode,
    CatalogNotDiscovered,
    NeedsUnattended,
    UnknownModel,
    NeedsPrompt,
    Fine(ApprovalClass),
}

/// What the host makes of a create request.
pub open spec fn request_verdict(
    ctx: PluginRpcContext,
    registry: AgentRegistry,
    catalog: OptionCatalog,
    req: SessionsCreateRequest,
) -> CreateVerdict {
    let entry = catalog.entry(req.agent_id@);
    let decision = mode_decision(registry.bypass(req.agent_id@), text_of(req.mode_id), entry);
    if !registry.has(req.agent_id@) && entry is None {
        CreateVerdict::UnknownAgent
    } else if decision is UnknownMode {
        CreateVerdict::UnknownMode
    } else if decision is CatalogNotDiscovered {
        CreateVerdict::CatalogNotDiscovered
    } else if decision == ModeDecision::Class(ApprovalClass::Unattended) && !ctx.granted("session.unattended"@) {
        CreateVerdict::NeedsUnattended
    } else if req.model_id is Some && entry is Some && !entry->0.offers(
        ConfigOptionCategory::Model,
        req.model_id->0@,
    ) {
        CreateVerdict::UnknownModel
    } else if req.initial_turn is Some && !ctx.granted("session.prompt"@) {
        CreateVerdict::NeedsPrompt
    } else {
        CreateVerdict::Fine(decision->Class_0)
    }
}

/// A text that may be missing, as the empty text where it is.
pub open spec fn or_blank_text(o: Option<Seq<char>>) -> Seq<char> {
    match o {
        Some(s) => s,
        None => Seq::empty(),
    }
}

/// The data of the error about a missing grant for unattended modes.
pub open spec fn unattended_data(agent: Seq<char>, mode: Option<Seq<char>>) -> JsonV {
    JsonV::Object(
        Map::empty().insert("kind"@, JsonV::Text("unattended_grant_required"@)).insert(
            "required_capability"@,
            JsonV::Text("session.unattended"@),
        ).insert("agent_id"@, JsonV::Text(agent)).insert("mode_id"@, text_or_null(mode)).insert(
            "approval_class"@,
            JsonV::Text("unattended"@),
        ),
    )
}

/// Whether an error is the one for a verdict.
pub open spec fn refused_with(ctx: PluginRpcContext, req: SessionsCreateRequest, v: CreateVerdict, e: DispatchError) -> bool {
    let agent = req.agent_id@;
    let mode = text_of(req.mode_id);
    match v {
        CreateVerdict::UnknownAgent => e.is_kind(
            codes::INVALID_PARAMS,
            "unknown_agent"@,
            "unknown agent "@ + debug_text(agent),
        ),
        CreateVerdict::UnknownMode => e.is_kind(
            codes::INVALID_PARAMS,
            "unknown_mode"@,
            "mode "@ + debug_text(or_blank_text(mode)) + " is neither known to the host nor advertised by "@
                + debug_text(agent),
        ),
        CreateVerdict::CatalogNotDiscovered => e.is_kind(
            codes::FAILED_PRECONDITION,
            "catalog_not_discovered"@,
            "agent "@ + debug_text(agent) + " has not advertised its options yet; run it once or omit mode_id"@,
        ),
        CreateVerdict::NeedsUnattended => e.is(
            codes::POLICY_DENIED,
            "mode "@ + debug_text(or_blank_text(mode))
                + " is classified unattended and needs the session.unattended grant"@,
            Some(unattended_data(agent, mode)),
        ),
        CreateVerdict::UnknownModel => e.is_kind(
            codes::INVALID_PARAMS,
            "unknown_model"@,
            "model "@ + debug_text(or_blank_text(text_of(req.model_id))) + " is not advertised by "@ + debug_text(agent),
        ),
        CreateVerdict::NeedsPrompt => ctx.misses(e, "session.prompt"@),
        CreateVerdict::Fine(_) => false,
    }
}

fn blank_text(o: &Option<String>) -> (r: String)
    ensures
        r@ == or_blank_text(text_of(*o)),
{
    match o {
        Some(s) => s.clone(),
        None => blank(),
    }
}

fn opt_str(o: &Option<String>) -> (r: Option<&str>)
    ensures
        str_of(r) == text_of(*o),
{
    match o {
        Some(s) => Some(s.as_str()),
        None => None,
    }
}

fn unattended_error(req: &SessionsCreateRequest) -> (e: DispatchError)
    ensures
        e.is(
            codes::POLICY_DENIED,
            "mode "@ + debug_text(or_blank_text(text_of(req.mode_id)))
                + " is classified unattended and needs the session.unattended grant"@,
            Some(unattended_data(req.agent_id@, text_of(req.mode_id))),
        ),
{
    let mut m = JsonMap::new();
    m.insert("kind".to_owned(), text("unattended_grant_required"));
    m.insert("required_capability".to_owned(), text("session.unattended"));
    m.insert("agent_id".to_owned(), text(req.agent_id.as_str()));
    let mode = match &req.mode_id {
        Some(s) => Json::Text(s.clone()),
        None => Json::Null,
    };
    m.insert("mode_id".to_owned(), mode);
    m.insert("approval_class".to_owned(), text("unattended"));
    DispatchError {
        code: codes::POLICY_DENIED,
        message: join3(
            "mode ",
            debug(blank_text(&req.mode_id).as_str()).as_str(),
            " is classified unattended and needs the session.unattended grant",
        ),
        data: Some(Json::Object(m)),
    }
}

/// Checks a create request: the agent, the mode and the grant that it needs, the model, and the
/// capability that a first turn needs.
pub fn check_create(
    ctx: &PluginRpcContext,
    registry: &AgentRegistry,
    catalog: &OptionCatalog,
    req: &SessionsCreateRequest,
) -> (r: Result<ApprovalClass, DispatchError>)
    ensures
        match r {
            Ok(c) => request_verdict(*ctx, *registry, *catalog, *req) == CreateVerdict::Fine(c),
            Err(e) => refused_with(*ctx, *req, request_verdict(*ctx, *registry, *catalog, *req), e),
        },
{
    let entry = catalog.get(req.agent_id.as_str());
    if !registry.contains(req.agent_id.as_str()) && entry.is_none() {
        return Err(
            DispatchError::with_kind(
                codes::INVALID_PARAMS,
                "unknown_agent",
                join2("unknown agent ", debug(req.agent_id.as_str()).as_str()),
            ),
        );
    }
    let class = match classify_mode(registry, req.agent_id.as_str(), opt_str(&req.mode_id), entry) {
        ModeDecision::Class(c) => c,
        ModeDecision::UnknownMode => {
            return Err(
                DispatchError::with_kind(
                    codes::INVALID_PARAMS,
                    "unknown_mode",
                    "mode ".to_owned().concat(debug(blank_text(&req.mode_id).as_str()).as_str()).concat(
                        " is neither known to the host nor advertised by ",
                    ).concat(debug(req.agent_id.as_str()).as_str()),
                ),
            );
        },
        ModeDecision::CatalogNotDiscovered => {
            return Err(
                DispatchError::with_kind(
                    codes::FAILED_PRECONDITION,
                    "catalog_not_discovered",
                    join3(
                        "agent ",
                        debug(req.agent_id.as_str()).as_str(),
                        " has not advertised its options yet; run it once or omit mode_id",
                    ),
                ),
            );
        },
    };
    if matches!(class, ApprovalClass::Unattended) && ctx.require(CAP_SESSION_UNATTENDED).is_err() {
        return Err(unattended_error(req));
    }
    if let Some(model) = &req.model_id {
        if let Some(e) = entry {
            if !is_offered(e, ConfigOptionCategory::Model, model.as_str()) {
                return Err(
                    DispatchError::with_kind(
                        codes::INVALID_PARAMS,
                        "unknown_model",
                        "model ".to_owned().concat(debug(model.as_str()).as_str()).concat(
                            " is not advertised by ",
                        ).concat(debug(req.agent_id.as_str()).as_str()),
                    ),
                );
            }
        }
    }
    if req.initial_turn.is_some() {
        if let Err(e) = ctx.require(CAP_SESSION_PROMPT) {
            return Err(e);
        }
    }
    Ok(class)
}

/// How many live sessions a plugin has.
pub open spec fn active_count(s: Seq<Instance>, plugin_id: Seq<char>) -> nat
    decreases s.len(),
{
    if s.len() == 0 {
        0
    } else {
        active_count(s.drop_last(), plugin_id) + (if s.last().owned_by(plugin_id) && s.last().active() {
            1nat
        } else {
            0nat
        })
    }
}

/// How many live sessions a plugin has.
pub fn count_active(instances: &Vec<Instance>, plugin_id: &str) -> (r: usize)
    ensures
        r == active_count(instances@, plugin_id@),
        r <= instances@.len(),
{
    let mut n: usize = 0;
    let mut i: usize = 0;
    assert(active_count(instances@.take(0), plugin_id@) == 0);
    while i < instances.len()
        invariant
            n <= i <= instances@.len(),
            n == active_count(instances@.take(i as int), plugin_id@),
        decreases instances@.len() - i,
    {
        assert(instances@.take(i + 1).drop_last() =~= instances@.take(i as int));
        assert(instances@.take(i + 1).last() == instances@[i as int]);
        let x = &instances[i];
        if x.is_owned_by(plugin_id) && !x.archived && !x.snoozed && !x.trashed {
            n = n + 1;
        }
        i = i + 1;
    }
    assert(instances@.take(i as int) =~= instances@);
    n
}

/// Whether a specification is the one that a plugin's create request asks for.
pub open spec fn spec_for(s: StructuredSessionSpec, req: SessionsCreateRequest, path: Seq<char>, profile: Seq<char>) -> bool {
    &&& text_of(s.title) == text_of(req.title)
    &&& s.path@ == path
    &&& s.group@ == or_blank_text(text_of(req.group))
    &&& s.tool@ == req.agent_id@
    &&& !s.worktree_enabled
    &&& s.worktree_branch is None
    &&& !s.create_new_branch
    &&& s.base_branch is None
    &&& !s.sandbox
    &&& s.sandbox_image is None
    &&& !s.yolo_mode
    &&& s.extra_env@.len() == 0
    &&& s.extra_args@.len() == 0
    &&& s.command_override@.len() == 0
    &&& s.extra_repo_paths@.len() == 0
    &&& !s.scratch
    &&& s.trust_hooks == Some(false)
    &&& s.custom_instruction is None
    &&& s.profile@ == profile
    &&& s.created_by_plugin is None
    &&& s.plugin_create_idempotency is None
    &&& s.pending_initial_turn is None
    &&& text_of(s.acp_mode_id) == text_of(req.mode_id)
    &&& s.view == SessionView::Structured
    &&& s.agent_name is None
    &&& text_of(s.agent_model) == text_of(req.model_id)
    &&& s.agent_effort is None
    &&& s.import_acp_session_id is None
    &&& s.fork_seed is None
}

/// The specification that a plugin's create request asks for.
pub fn create_spec(req: &SessionsCreateRequest, path: String, profile: &str) -> (r: StructuredSessionSpec)
    ensures
        spec_for(r, *req, path@, profile@),
{
    StructuredSessionSpec {
        title: copy_text(&req.title),
        path,
        group: blank_text(&req.group),
        tool: req.agent_id.clone(),
        worktree_enabled: false,
        worktree_branch: None,
        create_new_branch: false,
        base_branch: None,
        sandbox: false,
        sandbox_image: None,
        yolo_mode: false,
        extra_env: Vec::new(),
        extra_args: blank(),
        command_override: blank(),
        extra_repo_paths: Vec::new(),
        scratch: false,
        trust_hooks: Some(false),
        custom_instruction: None,
        profile: profile.to_owned(),
        created_by_plugin: None,
        plugin_create_idempotency: None,
        pending_initial_turn: None,
        acp_mode_id: copy_text(&req.mode_id),
        view: SessionView::Structured,
        agent_name: None,
        agent_model: copy_text(&req.model_id),
        agent_effort: None,
        import_acp_session_id: None,
        fork_seed: None,
    }
}

/// A create that was let through to the session service. The reservation is to be released when
/// the create is over.
#[derive(Debug)]
pub struct AdmittedCreate {
    pub spec: StructuredSessionSpec,
    pub reservation: CreateReservation,
}

/// What a create comes to before it reaches the session service.
pub open spec fn admission(
    ctx: PluginRpcContext,
    registry: AgentRegistry,
    catalog: OptionCatalog,
    req: SessionsCreateRequest,
    canonical: Result<String, String>,
    instances: Seq<Instance>,
    policy: AutomationPolicy,
    used: Result<u64, String>,
    profile: Seq<char>,
    r: Result<AdmittedCreate, DispatchError>,
) -> bool {
    let v = request_verdict(ctx, registry, catalog, req);
    if !(v is Fine) {
        r matches Err(e) && refused_with(ctx, req, v, e)
    } else {
        match canonical {
            Err(w) => r matches Err(e) && e.is(
                codes::INVALID_PARAMS,
                "project_path "@ + debug_text(req.project_path@) + ": "@ + w@,
                None,
            ),
            Ok(path) => match r {
                Ok(a) => create_verdict(
                    policy,
                    ctx.plugin_id@,
                    active_count(instances, ctx.plugin_id@),
                    used,
                    Ok(a.reservation),
                ) && spec_for(a.spec, req, path@, profile),
                Err(e) => create_verdict(
                    policy,
                    ctx.plugin_id@,
                    active_count(instances, ctx.plugin_id@),
                    used,
                    Err(e),
                ),
            },
        }
    }
}

/// Lets a create through to the session service: the request is checked, the project has to be
/// there (`canonical` is its path, or why there is none), and the policy has to admit it (`used` is
/// how many creates the ledger counts in the last hour).
pub fn admit_and_create(
    ctx: &PluginRpcContext,
    registry: &AgentRegistry,
    catalog: &OptionCatalog,
    req: &SessionsCreateRequest,
    canonical: Result<String, String>,
    instances: &Vec<Instance>,
    policy: &mut AutomationPolicy,
    used: Result<u64, String>,
    profile: &str,
) -> (r: Result<AdmittedCreate, DispatchError>)
    requires
        old(policy).wf(),
        instances@.len() <= usize::MAX - MAX_ACTIVE_PLUGIN_SESSIONS,
    ensures
        final(policy).wf(),
        final(policy).schema == old(policy).schema,
        admission(
            *ctx,
            *registry,
            *catalog,
            *req,
            canonical,
            instances@,
            *old(policy),
            used,
            profile@,
            r,
        ),
        reserved(
            *old(policy),
            *final(policy),
            ctx.plugin_id@,
            if r is Ok {
                1
            } else {
                0
            },
        ),
{
    match check_create(ctx, registry, catalog, req) {
        Ok(_) => {},
        Err(e) => {
            return Err(e);
        },
    }
    let path = match canonical {
        Ok(path) => path,
        Err(w) => {
            return Err(
                DispatchError::invalid_params(
                    "project_path ".to_owned().concat(debug(req.project_path.as_str()).as_str()).concat(": ").concat(
                        w.as_str(),
                    ),
                ),
            );
        },
    };
    let active = count_active(instances, ctx.plugin_id.as_str());
    match policy.admit_create(ctx.plugin_id.as_str(), active, used) {
        Ok(reservation) => Ok(AdmittedCreate { spec: create_spec(req, path, profile), reservation }),
        Err(e) => Err(e),
    }
}

/// A mode that the host classifies as unattended is never let through without its own grant.
pub proof fn law_unattended_needs_its_grant(
    ctx: PluginRpcContext,
    registry: AgentRegistry,
    catalog: OptionCatalog,
    req: SessionsCreateRequest,
)
    requires
        !ctx.granted("session.unattended"@),
        request_verdict(ctx, registry, catalog, req) is Fine,
    ensures
        request_verdict(ctx, registry, catalog, req)->Fine_0 != ApprovalClass::Unattended,
{
}

/// A mode that the host has not reviewed is never let through without the grant for unattended modes.
pub proof fn law_unreviewed_mode_needs_the_grant(
    ctx: PluginRpcContext,
    registry: AgentRegistry,
    catalog: OptionCatalog,
    req: SessionsCreateRequest,
)
    requires
        req.mode_id is Some,
        crate::automation::trusted_class(req.mode_id->0@) is None,
        request_verdict(ctx, registry, catalog, req) is Fine,
    ensures
        ctx.granted("session.unattended"@),
{
}

/// Whether an error is the one for a create that failed.
pub open spec fn create_failed_with(e: CreateError, d: DispatchError) -> bool {
    match e {
        CreateError::IdempotencyConflict { key } => d.is_kind(
            codes::CONFLICT,
            "idempotency_conflict"@,
            conflict_words(key@),
        ),
        CreateError::HooksNeedTrust => d.is_kind(
            codes::FAILED_PRECONDITION,
            "repo_untrusted"@,
            "the repository's hooks need user approval; a plugin cannot grant trust"@,
        ),
        CreateError::BuildPanicked(w) => d.is(codes::INTERNAL_ERROR, "session create failed: "@ + w@, None),
        CreateError::Failed(w) => d.is(codes::INTERNAL_ERROR, "session create failed: "@ + w@, None),
    }
}

/// The error of a worker call for a create that failed.
pub fn map_create_error(e: CreateError) -> (d: DispatchError)
    ensures
        create_failed_with(e, d),
{
    match e {
        CreateError::IdempotencyConflict { key } => {
            let conflict = IdempotencyConflict { key };
            DispatchError::with_kind(codes::CONFLICT, "idempotency_conflict", conflict.message())
        },
        CreateError::HooksNeedTrust => DispatchError::with_kind(
            codes::FAILED_PRECONDITION,
            "repo_untrusted",
            "the repository's hooks need user approval; a plugin cannot grant trust".to_owned(),
        ),
        CreateError::BuildPanicked(w) => DispatchError::internal(join2("session create failed: ", w.as_str())),
        CreateError::Failed(w) => DispatchError::internal(join2("session create failed: ", w.as_str())),
    }
}

/// Whether an error is the one for a turn that failed.
pub open spec fn send_failed_with(e: SendTurnError, d: DispatchError) -> bool {
    match e {
        SendTurnError::SessionNotFound => d.is_kind(
            codes::INVALID_PARAMS,
            "session_not_found"@,
            "session not found"@,
        ),
        SendTurnError::NotOwner => d.is_kind(
            codes::FORBIDDEN,
            "not_owner"@,
            "the session was not created by the calling plugin"@,
        ),
        SendTurnError::ModeApplication(e) => d.is_kind(
            codes::FAILED_PRECONDITION,
            "mode_application_failed"@,
            "mode application failed: "@ + supervisor_words(e),
        ),
        SendTurnError::ResumeFailed(e) => d.is_kind(
            codes::SERVICE_UNAVAILABLE,
            "worker_not_ready"@,
            "worker resume failed: "@ + supervisor_words(e),
        ),
        SendTurnError::WorkerNotReady => d.is_kind(
            codes::SERVICE_UNAVAILABLE,
            "worker_not_ready"@,
            "worker not ready; retry"@,
        ),
        SendTurnError::Send(e) => d.is(
            codes::INTERNAL_ERROR,
            "prompt forward failed: "@ + supervisor_words(e),
            None,
        ),
    }
}

/// The error of a worker call for a turn that failed.
pub fn map_send_error(e: SendTurnError) -> (d: DispatchError)
    ensures
        send_failed_with(e, d),
{
    match e {
        SendTurnError::SessionNotFound => DispatchError::with_kind(
            codes::INVALID_PARAMS,
            "session_not_found",
            "session not found".to_owned(),
        ),
        SendTurnError::NotOwner => DispatchError::with_kind(
            codes::FORBIDDEN,
            "not_owner",
            "the session was not created by the calling plugin".to_owned(),
        ),
        SendTurnError::ModeApplication(e) => DispatchError::with_kind(
            codes::FAILED_PRECONDITION,
            "mode_application_failed",
            join2("mode application failed: ", e.message()),
        ),
        SendTurnError::ResumeFailed(e) => DispatchError::with_kind(
            codes::SERVICE_UNAVAILABLE,
            "worker_not_ready",
            join2("worker resume failed: ", e.message()),
        ),
        SendTurnError::WorkerNotReady => DispatchError::with_kind(
            codes::SERVICE_UNAVAILABLE,
            "worker_not_ready",
            "worker not ready; retry".to_owned(),
        ),
        SendTurnError::Send(e) => DispatchError::internal(join2("prompt forward failed: ", e.message())),
    }
}

/// What a plugin's turn comes to before it is delivered: the limit comes before what the
/// session service says.
pub open spec fn turn_admission(
    plugin_id: String,
    used: Result<u64, String>,
    instances: Seq<Instance>,
    session_id: Seq<char>,
    r: Result<AdmittedTurn, DispatchError>,
) -> bool {
    exists|limit: Result<(), DispatchError>, gated: Result<AdmittedTurn, SendTurnError>|
        {
            &&& #[trigger] rate_check(limit, "turn"@, plugin_id@, MAX_PLUGIN_TURNS_PER_HOUR, used)
            &&& #[trigger] gate(gated, SessionCaller::Plugin { plugin_id }, instances, session_id)
            &&& match (limit, gated) {
                (Err(e), _) => r matches Err(d) && d == e,
                (Ok(_), Err(e)) => r matches Err(d) && send_failed_with(e, d),
                (Ok(_), Ok(t)) => r matches Ok(u) && u == t,
            }
        }
}

/// Lets a plugin's turn through to its session. `used` is how many turns the ledger counts in the
/// last hour.
pub fn sessions_turn_send(
    ctx: &PluginRpcContext,
    policy: &AutomationPolicy,
    service: &SessionService,
    req: &TurnSendRequest,
    used: Result<u64, String>,
) -> (r: Result<AdmittedTurn, DispatchError>)
    ensures
        turn_admission(ctx.plugin_id, used, service.instances@, req.session_id@, r),
{
    let caller = SessionCaller::Plugin { plugin_id: ctx.plugin_id.clone() };
    let gated = service.send_turn(&caller, req.session_id.as_str());
    let limit = policy.admit_turn(ctx.plugin_id.as_str(), used);
    let ghost g = gated;
    let ghost l = limit;
    assert(rate_check(l, "turn"@, ctx.plugin_id@, MAX_PLUGIN_TURNS_PER_HOUR, used));
    assert(gate(g, SessionCaller::Plugin { plugin_id: ctx.plugin_id }, service.instances@, req.session_id@));
    match limit {
        Err(e) => Err(e),
        Ok(_) => match gated {
            Ok(t) => Ok(t),
            Err(e) => Err(map_send_error(e)),
        },
    }
}

/// The record of a create in the ledger.
pub open spec fn create_record(r: Result<SessionsCreateResponse, DispatchError>) -> JsonV {
    match r {
        Ok(a) => JsonV::Object(
            Map::empty().insert("op"@, JsonV::Text("sessions.create"@)).insert(
                "decision"@,
                JsonV::Text("ok"@),
            ).insert("session"@, JsonV::Text(a.session_id@)).insert("created"@, JsonV::Bool(a.created)),
        ),
        Err(e) => JsonV::Object(
            Map::empty().insert("op"@, JsonV::Text("sessions.create"@)).insert(
                "decision"@,
                JsonV::Text("denied"@),
            ).insert("code"@, integer(e.code)).insert("kind"@, kind_or_null(e)),
        ),
    }
}

/// The kind of an error; `null` where it has none.
pub open spec fn kind_or_null(e: DispatchError) -> JsonV {
    match kind_of(owned_json_of(e.data)) {
        Some(k) => k,
        None => JsonV::Null,
    }
}

fn kind_json(e: &DispatchError) -> (r: Json)
    ensures
        r@ == kind_or_null(*e),
{
    match e.kind() {
        Some(k) => k.clone(),
        None => Json::Null,
    }
}

fn sessions_create_record(r: &Result<SessionsCreateResponse, DispatchError>) -> (v: Json)
    ensures
        v@ == create_record(*r),
{
    let mut m = JsonMap::new();
    m.insert("op".to_owned(), text("sessions.create"));
    match r {
        Ok(a) => {
            m.insert("decision".to_owned(), text("ok"));
            m.insert("session".to_owned(), text(a.session_id.as_str()));
            m.insert("created".to_owned(), Json::Bool(a.created));
        },
        Err(e) => {
            m.insert("decision".to_owned(), text("denied"));
            m.insert("code".to_owned(), integer_json(e.code));
            m.insert("kind".to_owned(), kind_json(e));
        },
    }
    Json::Object(m)
}

/// The record of a turn in the ledger. The words of the turn are not in it.
pub open spec fn turn_record(session_id: Seq<char>, r: Result<(), DispatchError>) -> JsonV {
    JsonV::Object(
        Map::empty().insert("op"@, JsonV::Text("sessions.turn.send"@)).insert(
            "session"@,
            JsonV::Text(session_id),
        ).insert(
            "decision"@,
            JsonV::Text(
                if r is Ok {
                    "ok"@
                } else {
                    "denied"@
                },
            ),
        ).insert(
            "kind"@,
            match r {
                Ok(_) => JsonV::Null,
                Err(e) => kind_or_null(e),
            },
        ),
    )
}

/// The record of a turn in the ledger.
pub fn sessions_turn_record(session_id: &str, r: &Result<(), DispatchError>) -> (v: Json)
    ensures
        v@ == turn_record(session_id@, *r),
{
    let mut m = JsonMap::new();
    m.insert("op".to_owned(), text("sessions.turn.send"));
    m.insert("session".to_owned(), text(session_id));
    match r {
        Ok(_) => {
            m.insert("decision".to_owned(), text("ok"));
            m.insert("kind".to_owned(), Json::Null);
        },
        Err(e) => {
            m.insert("decision".to_owned(), text("denied"));
            m.insert("kind".to_owned(), kind_json(e));
        },
    }
    Json::Object(m)
}

/// Ends a create: the record of it for the ledger, and the answer.
pub fn sessions_create(outcome: Result<SessionsCreateResponse, DispatchError>) -> (r: (
    Json,
    Result<Json, DispatchError>,
))
    ensures
        r.0@ == create_record(outcome),
        match outcome {
            Ok(a) => r.1 matches Ok(v) && v@ == a.document(),
            Err(e) => r.1 matches Err(f) && f == e,
        },
{
    let record = sessions_create_record(&outcome);
    match outcome {
        Ok(a) => (record, Ok(a.to_json())),
        Err(e) => (record, Err(e)),
    }
}

impl SessionsCreateResponse {
    pub open spec fn document(&self) -> JsonV {
        JsonV::Object(
            Map::empty().insert("session_id"@, JsonV::Text(self.session_id@)).insert(
                "created"@,
                JsonV::Bool(self.created),
            ),
        )
    }

    pub fn to_json(&self) -> (r: Json)
        ensures
            r@ == self.document(),
    {
        let mut m = JsonMap::new();
        m.insert("session_id".to_owned(), text(self.session_id.as_str()));
        m.insert("created".to_owned(), Json::Bool(self.created));
        Json::Object(m)
    }
}

/// The host knows every capability that these calls need.
pub proof fn law_needed_capabilities_are_known(method: Seq<char>)
    requires
        is_session_method(method),
    ensures
        needed_capability(method) is Some,
        crate::capability::known(needed_capability(method)->0),
        crate::capability::known("session.unattended"@),
{
    assert(crate::capability::KNOWN_CAPABILITIES@[15]@ == "acp.capabilities.read"@);
    assert(crate::capability::KNOWN_CAPABILITIES@[16]@ == "session.create"@);
    assert(crate::capability::KNOWN_CAPABILITIES@[17]@ == "session.prompt"@);
    assert(crate::capability::KNOWN_CAPABILITIES@[18]@ == "session.unattended"@);
}

} // verus!
