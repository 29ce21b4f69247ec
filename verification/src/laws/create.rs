//! Creating sessions: what is asked for reaches the session and its worker.

use vstd::prelude::*;

use crate::acp::OptionCatalog;
use crate::automation::{AgentRegistry, AutomationPolicy};
use crate::host_api::{DispatchError, PluginRpcContext};
use crate::json::{Json, JsonV};
use crate::session::{find_session, lemma_find_session, Instance, SessionView};
use crate::session_api::{admit_and_create, dispatch, AdmittedCreate, SessionCall, SessionsCreateRequest};
use crate::session_service::{CreateStep, SessionService};
use crate::session_spawn::{
    has_pending_initial_turn, spawn_structured_session, AgentQuery, BuildOrder, CreateError, Created, HookOrder,
    HookQuery, PersistOrder, SpawnFailure, SpawnOutcome, SpawnTarget, StructuredSessionSpec,
};
use crate::text::{nonempty, str_of, text_of, texts, trimmed};
use crate::turns::{PendingTurn, SessionCaller};

verus! {

/// The text that an object has under a key.
pub open spec fn said(v: JsonV, k: Seq<char>) -> Option<Seq<char>> {
    match v {
        JsonV::Object(m) => if m.contains_key(k) && m[k] is Text {
            Some(m[k]->Text_0)
        } else {
            None
        },
        _ => None,
    }
}

/// The value that an object has under a key.
pub open spec fn under(v: JsonV, k: Seq<char>) -> JsonV {
    match v {
        JsonV::Object(m) => if m.contains_key(k) {
            m[k]
        } else {
            JsonV::Null
        },
        _ => JsonV::Null,
    }
}

/// A text without the blanks around it; none where nothing is left.
pub open spec fn kept(o: Option<Seq<char>>) -> Option<Seq<char>> {
    match o {
        Some(s) => if trimmed(s).len() > 0 {
            Some(trimmed(s))
        } else {
            None
        },
        None => None,
    }
}

proof fn lemma_nonempty(s: Seq<String>)
    ensures
        forall|j: int|
            0 <= j < nonempty(s).len() ==> (#[trigger] nonempty(s)[j])@.len() > 0 && s.contains(nonempty(s)[j]),
        forall|j: int| 0 <= j < s.len() && s[j]@.len() > 0 ==> nonempty(s).contains(#[trigger] s[j]),
    decreases s.len(),
{
    if s.len() > 0 {
        let t = s.drop_last();
        lemma_nonempty(t);
        assert forall|j: int| 0 <= j < nonempty(s).len() implies (#[trigger] nonempty(s)[j])@.len() > 0 && s.contains(
            nonempty(s)[j],
        ) by {
            if j < nonempty(t).len() {
                let k = choose|k: int| 0 <= k < t.len() && t[k] == nonempty(t)[j];
                assert(s[k] == nonempty(s)[j]);
            } else {
                assert(s[s.len() - 1] == nonempty(s)[j]);
            }
        }
        assert forall|j: int| 0 <= j < s.len() && s[j]@.len() > 0 implies nonempty(s).contains(#[trigger] s[j]) by {
            if j < t.len() {
                assert(t[j] == s[j]);
                let k = choose|k: int| 0 <= k < nonempty(t).len() && nonempty(t)[k] == t[j];
                assert(nonempty(s)[k] == s[j]);
            } else {
                assert(nonempty(s)[nonempty(s).len() - 1] == s[j]);
            }
        }
    }
}

/// The steps of a create that succeeds, from the request to the registered session.
pub struct Creation {
    pub spec: StructuredSessionSpec,
    pub query: HookQuery,
    pub order: BuildOrder,
    pub built: SpawnOutcome,
    pub agent: AgentQuery,
    pub model: Option<String>,
    pub effort: Option<String>,
    pub registry: Vec<String>,
    pub command_is_valid: bool,
    pub hooks: HookOrder,
    pub persist: PersistOrder,
    pub is_scratch_path: bool,
    pub created: Created,
    pub outcome: SpawnOutcome,
    pub target: Option<SpawnTarget>,
}

impl Creation {
    /// Whether every step is what the step before it led to.
    pub open spec fn happens(&self, image: &str) -> bool {
        &&& call_ensures(spawn_structured_session, (self.spec, image), self.query)
        &&& call_ensures(
            HookQuery::hooks_resolved,
            (self.query, Ok::<(), CreateError>(())),
            Ok::<BuildOrder, CreateError>(self.order),
        )
        &&& call_ensures(
            BuildOrder::built,
            (self.order, Ok::<SpawnOutcome, CreateError>(self.built)),
            Ok::<AgentQuery, CreateError>(self.agent),
        )
        &&& call_ensures(
            AgentQuery::agent_resolved,
            (self.agent, self.model, self.effort, &self.registry, self.command_is_valid),
            self.hooks,
        )
        &&& call_ensures(
            HookOrder::hooks_ran,
            (self.hooks, Ok::<(), String>(())),
            Ok::<PersistOrder, SpawnFailure>(self.persist),
        )
        &&& call_ensures(
            PersistOrder::stored,
            (self.persist, Ok::<(), String>(()), self.is_scratch_path),
            Ok::<Created, SpawnFailure>(self.created),
        )
    }
}

/// The registered session is the built one with what the request says of it: the profile, the plugin
/// and its key, the first turn, the mode and the agent. What the build settled stays.
pub proof fn law_registered_session_is_as_asked(
    c: Creation,
    image: &str,
    list: &mut Vec<Instance>,
    creates: &mut u32,
    i: int,
)
    requires
        c.happens(image),
        call_ensures(Created::register, (c.created, list, creates), (c.outcome, c.target)),
        find_session(final(list)@, c.built.instance.id@) == Some(i),
    ensures
        0 <= i < final(list)@.len(),
        c.outcome.instance == final(list)@[i],
        c.outcome.warnings == c.built.warnings,
        ({
            let s = final(list)@[i];
            &&& s.source_profile == c.spec.profile
            &&& s.created_by_plugin == c.spec.created_by_plugin
            &&& s.plugin_create_idempotency == c.spec.plugin_create_idempotency
            &&& s.pending_initial_turn == c.spec.pending_initial_turn
            &&& s.acp_mode_id == c.spec.acp_mode_id
            &&& s.agent_name == c.spec.agent_name
            &&& s.id == c.built.instance.id
            &&& s.title == c.built.instance.title
            &&& s.project_path == c.built.instance.project_path
            &&& s.group_path == c.built.instance.group_path
            &&& s.tool == c.built.instance.tool
            &&& s.command == c.built.instance.command
            &&& s.worktree_branch == c.built.instance.worktree_branch
            &&& s.scratch == c.built.instance.scratch
            &&& s.yolo_mode == c.built.instance.yolo_mode
            &&& s.archived == c.built.instance.archived
            &&& s.snoozed == c.built.instance.snoozed
            &&& s.trashed == c.built.instance.trashed
            &&& (s.sandbox_info is Some) == (c.built.instance.sandbox_info is Some)
            &&& s.sandbox_info matches Some(info) ==> (info.custom_instruction == if c.spec.custom_instruction is Some {
                c.spec.custom_instruction
            } else {
                c.built.instance.sandbox_info->0.custom_instruction
            })
        }),
{
    lemma_find_session(old(list)@, c.created.instance.id@);
    lemma_find_session(final(list)@, c.created.instance.id@);
    crate::session_spawn::law_registered_is_found(old(list)@, c.created.instance);
}

/// A session is structured exactly where that was asked for, or a session is imported, and its agent can
/// run so; only then a worker is started, for this very session, under its mode, in its directory, with
/// the model and the effort that were settled for its agent.
pub proof fn law_worker_is_as_asked(c: Creation, image: &str, list: &mut Vec<Instance>, creates: &mut u32)
    requires
        c.happens(image),
        call_ensures(Created::register, (c.created, list, creates), (c.outcome, c.target)),
    ensures
        ({
            let importing = kept(text_of(c.spec.import_acp_session_id)) is Some;
            let wanted = c.spec.view == SessionView::Structured || importing;
            let agent = match c.spec.agent_name {
                Some(n) => if n@.len() > 0 {
                    n@
                } else {
                    c.built.instance.tool@
                },
                None => c.built.instance.tool@,
            };
            let can_run = texts(c.registry@).contains(agent) || c.command_is_valid;
            let s = c.outcome.instance;
            &&& (s.view == SessionView::Structured) == (wanted && can_run)
            &&& (c.target is Some) == (wanted && can_run)
            &&& c.agent.agent_key@ == agent
            &&& text_of(c.agent.explicit_model) == kept(text_of(c.spec.agent_model))
            &&& c.agent.requested_effort == c.spec.agent_effort
            &&& !(wanted && can_run) ==> text_of(s.agent_model) == kept(text_of(c.spec.agent_model))
            &&& wanted && !can_run ==> s.import_pending is None && s.fork_pending is None
            &&& wanted && can_run ==> s.agent_model == c.model && s.fork_pending == c.built.instance.fork_pending
                && s.import_pending == if importing {
                Some(true)
            } else {
                c.built.instance.import_pending
            }
            &&& s.acp_session_id == if importing {
                c.spec.import_acp_session_id
            } else {
                c.built.instance.acp_session_id
            }
            &&& c.target matches Some(t) ==> {
                &&& t.id == c.built.instance.id
                &&& t.tool == c.built.instance.tool
                &&& t.agent_override == c.spec.agent_name
                &&& t.model == c.model
                &&& t.effort == c.effort
                &&& t.project_path == c.built.instance.project_path
                &&& t.stored_acp_session_id == s.acp_session_id
                &&& t.source_profile == c.spec.profile
                &&& t.yolo_mode == c.built.instance.yolo_mode
                &&& t.acp_mode_id == c.spec.acp_mode_id
                &&& t.command == c.built.instance.command
                &&& t.fork_from == c.built.instance.fork_pending
                &&& t.seed_history_replay == (importing || c.built.instance.import_pending == Some(true))
            }
        }),
{
}

/// A session is built from what the request asks for. Blanks around the names of branches are dropped,
/// a base branch counts only for a new branch, and empty paths of further repositories are left out.
pub proof fn law_build_is_as_asked(c: Creation, image: &str)
    requires
        c.happens(image),
    ensures
        c.query.profile == c.spec.profile,
        c.query.path == c.spec.path,
        c.query.scratch == c.spec.scratch,
        c.query.trust <==> c.spec.trust_hooks == Some(true),
        c.order.original_path == c.spec.path,
        c.agent.original_path == c.spec.path,
        c.hooks.original_path == c.spec.path,
        c.order.params.title@ == match c.spec.title {
            Some(t) => t@,
            None => Seq::empty(),
        },
        c.order.params.path == c.spec.path,
        c.order.params.group == c.spec.group,
        c.order.params.tool == c.spec.tool,
        c.order.params.worktree_enabled == c.spec.worktree_enabled,
        text_of(c.order.params.worktree_branch) == kept(text_of(c.spec.worktree_branch)),
        c.order.params.create_new_branch == c.spec.create_new_branch,
        c.spec.create_new_branch ==> text_of(c.order.params.base_branch) == kept(text_of(c.spec.base_branch)),
        !c.spec.create_new_branch ==> c.order.params.base_branch is None,
        c.order.params.sandbox == c.spec.sandbox,
        c.spec.sandbox_image is Some ==> c.order.params.sandbox_image@ == c.spec.sandbox_image->0@,
        c.spec.sandbox_image is None && image@.len() > 0 ==> c.order.params.sandbox_image@ == image@,
        c.spec.sandbox_image is None && image@.len() == 0 ==> c.order.params.sandbox_image@ == "ubuntu:latest"@,
        c.order.params.yolo_mode == c.spec.yolo_mode,
        c.order.params.extra_env == c.spec.extra_env,
        c.order.params.extra_args == c.spec.extra_args,
        c.order.params.command_override == c.spec.command_override,
        c.order.params.scratch == c.spec.scratch,
        c.order.params.fork_seed == c.spec.fork_seed,
        forall|j: int|
            0 <= j < c.order.params.extra_repo_paths@.len() ==> (#[trigger] c.order.params.extra_repo_paths@[j])@.len()
                > 0 && c.spec.extra_repo_paths@.contains(c.order.params.extra_repo_paths@[j]),
        forall|j: int|
            0 <= j < c.spec.extra_repo_paths@.len() && c.spec.extra_repo_paths@[j]@.len() > 0
                ==> c.order.params.extra_repo_paths@.contains(#[trigger] c.spec.extra_repo_paths@[j]),
{
    lemma_nonempty(c.spec.extra_repo_paths@);
}

/// Registering a session puts it where the one with its id is, or behind the others, and counts it.
pub proof fn law_register_adds_one(
    created: Created,
    list: &mut Vec<Instance>,
    creates: &mut u32,
    r: (SpawnOutcome, Option<SpawnTarget>),
)
    requires
        call_ensures(Created::register, (created, list, creates), r),
    ensures
        *final(creates) == (*old(creates) + 1) % 0x1_0000_0000,
        forall|i: int|
            0 <= i < old(list)@.len() ==> final(list)@[i] == old(list)@[i] || (final(list)@[i] == created.instance && (
            #[trigger] old(list)@[i]).id@ == created.instance.id@),
        exists|i: int| 0 <= i < final(list)@.len() && #[trigger] final(list)@[i] == created.instance,
        (exists|i: int| 0 <= i < old(list)@.len() && (#[trigger] old(list)@[i]).id@ == created.instance.id@)
            ==> final(list)@.len() == old(list)@.len(),
        (forall|i: int| 0 <= i < old(list)@.len() ==> (#[trigger] old(list)@[i]).id@ != created.instance.id@)
            ==> final(list)@.len() == old(list)@.len() + 1,
{
    lemma_find_session(old(list)@, created.instance.id@);
    match find_session(old(list)@, created.instance.id@) {
        Some(i) => {
            assert(final(list)@[i] == created.instance);
        },
        None => {
            assert(final(list)@[old(list)@.len() as int] == created.instance);
        },
    }
}

/// A first turn that comes with a request is pending in the registered session, and what is then
/// delivered is that turn, to that session, on behalf of whoever created it. Without one, nothing is
/// delivered.
pub proof fn law_first_turn_is_delivered(
    c: Creation,
    image: &str,
    list: &mut Vec<Instance>,
    creates: &mut u32,
    service: &mut SessionService,
    id: &str,
    turn: Option<PendingTurn>,
    registered: &Vec<Instance>,
    pending: bool,
)
    requires
        c.happens(image),
        call_ensures(Created::register, (c.created, list, creates), (c.outcome, c.target)),
        registered@ == final(list)@,
        id@ == c.built.instance.id@,
        call_ensures(has_pending_initial_turn, (registered, id), pending),
        old(service).instances@ == final(list)@,
        call_ensures(SessionService::drain_pending_initial_turn, (service, id), turn),
    ensures
        pending == (c.spec.pending_initial_turn is Some),
        (turn is Some) == (c.spec.pending_initial_turn is Some),
        turn matches Some(t) ==> {
            &&& t.text == c.spec.pending_initial_turn->0
            &&& t.session_id@ == c.built.instance.id@
            &&& t.profile == c.spec.profile
            &&& t.caller == match c.spec.created_by_plugin {
                Some(p) => SessionCaller::Plugin { plugin_id: p },
                None => SessionCaller::User,
            }
        },
{
    crate::session_spawn::law_registered_is_found(old(list)@, c.created.instance);
}

/// The service hands on what it was given. It notes the first turn; of a plugin's request also the
/// plugin, and it withdraws the trust in a repository's hooks; with a key it notes the key.
pub proof fn law_planned_create_is_as_asked(
    service: &mut SessionService,
    spec: StructuredSessionSpec,
    plugin_id: Option<&str>,
    key: Option<&str>,
    turn: Option<&str>,
    step: CreateStep,
)
    requires
        call_ensures(SessionService::create_structured_session, (service, spec, plugin_id, key, turn), step),
    ensures
        ({
            let s = step.plan.spec;
            &&& s.title == spec.title
            &&& s.path == spec.path
            &&& s.group == spec.group
            &&& s.tool == spec.tool
            &&& s.worktree_enabled == spec.worktree_enabled
            &&& s.worktree_branch == spec.worktree_branch
            &&& s.create_new_branch == spec.create_new_branch
            &&& s.base_branch == spec.base_branch
            &&& s.sandbox == spec.sandbox
            &&& s.sandbox_image == spec.sandbox_image
            &&& s.yolo_mode == spec.yolo_mode
            &&& s.extra_env == spec.extra_env
            &&& s.extra_args == spec.extra_args
            &&& s.command_override == spec.command_override
            &&& s.extra_repo_paths == spec.extra_repo_paths
            &&& s.scratch == spec.scratch
            &&& s.custom_instruction == spec.custom_instruction
            &&& s.profile == spec.profile
            &&& s.acp_mode_id == spec.acp_mode_id
            &&& s.view == spec.view
            &&& s.agent_name == spec.agent_name
            &&& s.agent_model == spec.agent_model
            &&& s.agent_effort == spec.agent_effort
            &&& s.import_acp_session_id == spec.import_acp_session_id
            &&& s.fork_seed == spec.fork_seed
            &&& text_of(s.pending_initial_turn) == str_of(turn)
            &&& plugin_id is Some ==> text_of(s.created_by_plugin) == str_of(plugin_id) && s.trust_hooks == Some(false)
            &&& plugin_id is None ==> s.created_by_plugin == spec.created_by_plugin && s.trust_hooks
                == spec.trust_hooks
            &&& plugin_id is Some && key is Some ==> s.plugin_create_idempotency is Some
                && s.plugin_create_idempotency->0.key@ == key->0@
            &&& plugin_id is None || key is None ==> step.decision is Build && s.plugin_create_idempotency
                == spec.plugin_create_idempotency
        }),
{
}

/// What a plugin's parameters say is what its session is built from and run with: the agent, the title,
/// the group, the mode, the model and the first turn, as the texts stand in the parameters. The host adds
/// the directory, the profile and the plugin, and nothing else is switched on.
pub proof fn law_plugin_create_is_as_asked(
    ctx: &PluginRpcContext,
    method: &str,
    params: &Json,
    req: SessionsCreateRequest,
    registry: &AgentRegistry,
    catalog: &OptionCatalog,
    path: String,
    instances: &Vec<Instance>,
    policy: &mut AutomationPolicy,
    used: Result<u64, String>,
    profile: &str,
    admitted: AdmittedCreate,
    service: &mut SessionService,
    plugin_id: &str,
    key: Option<&str>,
    turn: Option<&str>,
    step: CreateStep,
    image: &str,
    c: Creation,
)
    requires
        method@ == "sessions.create"@,
        call_ensures(dispatch, (ctx, method, params), Ok::<SessionCall, DispatchError>(SessionCall::Create(req))),
        call_ensures(
            admit_and_create,
            (ctx, registry, catalog, &req, Ok::<String, String>(path), instances, policy, used, profile),
            Ok::<AdmittedCreate, DispatchError>(admitted),
        ),
        plugin_id@ == ctx.plugin_id@,
        str_of(key) == text_of(req.idempotency_key),
        str_of(turn) == text_of(req.initial_turn),
        call_ensures(
            SessionService::create_structured_session,
            (service, admitted.spec, Some(plugin_id), key, turn),
            step,
        ),
        c.spec == step.plan.spec,
        c.happens(image),
    ensures
        c.order.params.tool@ == said(params@, "agent_id"@)->0,
        c.order.params.title@ == match said(params@, "title"@) {
            Some(t) => t,
            None => Seq::empty(),
        },
        c.order.params.group@ == match said(params@, "group"@) {
            Some(t) => t,
            None => Seq::empty(),
        },
        c.order.params.path@ == path@,
        text_of(c.agent.explicit_model) == kept(said(params@, "model_id"@)),
        text_of(c.created.instance.acp_mode_id) == said(params@, "mode_id"@),
        text_of(c.created.instance.pending_initial_turn) == said(under(params@, "initial_turn"@), "text"@),
        said(params@, "idempotency_key"@) is Some ==> c.created.instance.plugin_create_idempotency is Some
            && c.created.instance.plugin_create_idempotency->0.key@ == said(params@, "idempotency_key"@)->0,
        said(params@, "idempotency_key"@) is None ==> c.created.instance.plugin_create_idempotency is None,
        text_of(c.created.instance.created_by_plugin) == Some(ctx.plugin_id@),
        c.created.instance.source_profile@ == profile@,
        c.created.instance.agent_name is None,
        !c.query.trust,
        !c.order.params.worktree_enabled,
        c.order.params.worktree_branch is None,
        !c.order.params.create_new_branch,
        c.order.params.base_branch is None,
        !c.order.params.sandbox,
        !c.order.params.yolo_mode,
        !c.order.params.scratch,
        c.order.params.extra_env@.len() == 0,
        c.order.params.extra_args@.len() == 0,
        c.order.params.command_override@.len() == 0,
        c.order.params.extra_repo_paths@.len() == 0,
        c.order.params.fork_seed is None,
        c.agent.requested_effort is None,
        texts(c.registry@).contains(c.built.instance.tool@) || c.command_is_valid ==> c.created.instance.view
            == SessionView::Structured,
{
    lemma_nonempty(c.spec.extra_repo_paths@);
}

} // verus!
