//! Creating a session: what is built, how the built session is completed, and what follows.
//!
//! Each step is a method of the value that the step before it gives, which keeps the order: the
//! trust in a repository's hooks is settled before anything is built, the hooks run before the
//! session is stored, and a session is registered only once it is stored and started.

use vstd::prelude::*;

use crate::session::{
    find_session, lemma_find_session, position_of, upsert_instance, upserted, Instance, PluginCreateIdempotency,
    SandboxInfo, SessionView,
};
use crate::text::{
    blank, copy_text, has_text, is_blank, is_empty, join2, keep_nonempty, nonempty, text_of, texts, trim_text, trimmed,
    trimmed_text,
};

verus! {

/// The session that another one is forked from.
#[derive(Debug)]
pub struct ForkSeed {
    pub session_id: String,
}

/// The decoded request for a session.
#[derive(Debug)]
pub struct StructuredSessionSpec {
    pub title: Option<String>,
    pub path: String,
    pub group: String,
    pub tool: String,
    pub worktree_enabled: bool,
    pub worktree_branch: Option<String>,
    pub create_new_branch: bool,
    pub base_branch: Option<String>,
    pub sandbox: bool,
    pub sandbox_image: Option<String>,
    pub yolo_mode: bool,
    pub extra_env: Vec<String>,
    pub extra_args: String,
    pub command_override: String,
    pub extra_repo_paths: Vec<String>,
    pub scratch: bool,
    pub trust_hooks: Option<bool>,
    pub custom_instruction: Option<String>,
    pub profile: String,
    pub created_by_plugin: Option<String>,
    pub plugin_create_idempotency: Option<PluginCreateIdempotency>,
    pub pending_initial_turn: Option<String>,
    pub acp_mode_id: Option<String>,
    pub view: SessionView,
    pub agent_name: Option<String>,
    pub agent_model: Option<String>,
    pub agent_effort: Option<String>,
    pub import_acp_session_id: Option<String>,
    pub fork_seed: Option<ForkSeed>,
}

/// Why a session could not be created.
#[derive(Debug)]
pub enum CreateError {
    /// The repository's hooks need the user's approval.
    HooksNeedTrust,
    /// The build panicked.
    BuildPanicked(String),
    /// The idempotency key was used with another request.
    IdempotencyConflict { key: String },
    /// Anything else.
    Failed(String),
}

/// What comes out of a create.
#[derive(Debug)]
pub struct SpawnOutcome {
    pub instance: Instance,
    pub warnings: Vec<String>,
}

/// What a session is built from.
#[derive(Debug)]
pub struct InstanceParams {
    pub title: String,
    pub path: String,
    pub group: String,
    pub tool: String,
    pub worktree_enabled: bool,
    pub worktree_branch: Option<String>,
    pub create_new_branch: bool,
    pub base_branch: Option<String>,
    pub sandbox: bool,
    pub sandbox_image: String,
    pub yolo_mode: bool,
    pub extra_env: Vec<String>,
    pub extra_args: String,
    pub command_override: String,
    pub extra_repo_paths: Vec<String>,
    pub scratch: bool,
    pub fork_seed: Option<ForkSeed>,
}

/// What is set on a session once it is built.
#[derive(Debug)]
pub struct Stamp {
    pub profile: String,
    pub created_by_plugin: Option<String>,
    pub plugin_create_idempotency: Option<PluginCreateIdempotency>,
    pub pending_initial_turn: Option<String>,
    pub acp_mode_id: Option<String>,
    pub custom_instruction: Option<String>,
    pub view: SessionView,
    pub agent_name: Option<String>,
    pub agent_model: Option<String>,
    pub agent_effort: Option<String>,
    pub import_acp_session_id: Option<String>,
}

/// Whether the hooks of a repository may run has to be settled first. `trust` says that the
/// request approves them.
#[derive(Debug)]
pub struct HookQuery {
    pub profile: String,
    pub path: String,
    pub scratch: bool,
    pub trust: bool,
    pub params: InstanceParams,
    pub stamp: Stamp,
}

/// The image of a sandbox: the requested one, else the configured one, else a fixed one.
pub open spec fn image_for(requested: Option<String>, default_image: Seq<char>) -> Seq<char> {
    match requested {
        Some(image) => image@,
        None => if default_image.len() == 0 {
            "ubuntu:latest"@
        } else {
            default_image
        },
    }
}

/// Whether parameters are those that a request asks for.
pub open spec fn params_of(p: InstanceParams, spec: StructuredSessionSpec, default_image: Seq<char>) -> bool {
    &&& p.title@ == match spec.title {
        Some(t) => t@,
        None => Seq::empty(),
    }
    &&& p.path == spec.path
    &&& p.group == spec.group
    &&& p.tool == spec.tool
    &&& p.worktree_enabled == spec.worktree_enabled
    &&& text_of(p.worktree_branch) == trimmed_text(text_of(spec.worktree_branch))
    &&& p.create_new_branch == spec.create_new_branch
    &&& text_of(p.base_branch) == if spec.create_new_branch {
        trimmed_text(text_of(spec.base_branch))
    } else {
        None
    }
    &&& p.sandbox == spec.sandbox
    &&& p.sandbox_image@ == image_for(spec.sandbox_image, default_image)
    &&& p.yolo_mode == spec.yolo_mode
    &&& p.extra_env == spec.extra_env
    &&& p.extra_args == spec.extra_args
    &&& p.command_override == spec.command_override
    &&& p.extra_repo_paths@ == nonempty(spec.extra_repo_paths@)
    &&& p.scratch == spec.scratch
    &&& p.fork_seed == spec.fork_seed
}

/// What a request sets on the built session.
pub open spec fn stamp_of(spec: StructuredSessionSpec) -> Stamp {
    Stamp {
        profile: spec.profile,
        created_by_plugin: spec.created_by_plugin,
        plugin_create_idempotency: spec.plugin_create_idempotency,
        pending_initial_turn: spec.pending_initial_turn,
        acp_mode_id: spec.acp_mode_id,
        custom_instruction: spec.custom_instruction,
        view: spec.view,
        agent_name: spec.agent_name,
        agent_model: spec.agent_model,
        agent_effort: spec.agent_effort,
        import_acp_session_id: spec.import_acp_session_id,
    }
}

/// The titles of the sessions that there are.
pub fn existing_titles(instances: &Vec<Instance>) -> (r: Vec<String>)
    ensures
        r@.len() == instances@.len(),
        forall|i: int| 0 <= i < r@.len() ==> #[trigger] r@[i] == instances@[i].title,
{
    let mut out: Vec<String> = Vec::new();
    let mut i: usize = 0;
    while i < instances.len()
        invariant
            i <= instances@.len(),
            out@.len() == i,
            forall|k: int| 0 <= k < i ==> #[trigger] out@[k] == instances@[k].title,
        decreases instances@.len() - i,
    {
        out.push(instances[i].title.clone());
        i = i + 1;
    }
    out
}

/// The worktree branches of the first sessions.
pub open spec fn branches_of(s: Seq<Instance>) -> Seq<String>
    decreases s.len(),
{
    if s.len() == 0 {
        Seq::empty()
    } else {
        match s.last().worktree_branch {
            Some(b) => branches_of(s.drop_last()).push(b),
            None => branches_of(s.drop_last()),
        }
    }
}

/// The worktree branches of the sessions that there are.
pub fn existing_branches(instances: &Vec<Instance>) -> (r: Vec<String>)
    ensures
        r@ == branches_of(instances@),
{
    let mut out: Vec<String> = Vec::new();
    let mut i: usize = 0;
    assert(branches_of(instances@.take(0)) =~= out@);
    while i < instances.len()
        invariant
            i <= instances@.len(),
            out@ == branches_of(instances@.take(i as int)),
        decreases instances@.len() - i,
    {
        assert(instances@.take(i + 1).drop_last() =~= instances@.take(i as int));
        assert(instances@.take(i + 1).last() == instances@[i as int]);
        if let Some(b) = &instances[i].worktree_branch {
            out.push(b.clone());
        }
        i = i + 1;
    }
    assert(instances@.take(i as int) =~= instances@);
    out
}

/// Begins to create a session. `default_image` is the configured image of sandboxes.
pub fn spawn_structured_session(spec: StructuredSessionSpec, default_image: &str) -> (r: HookQuery)
    ensures
        r.profile == spec.profile,
        r.path == spec.path,
        r.scratch == spec.scratch,
        r.trust == (spec.trust_hooks == Some(true)),
        params_of(r.params, spec, default_image@),
        r.stamp == stamp_of(spec),
{
    let sandbox_image = match &spec.sandbox_image {
        Some(image) => image.clone(),
        None => if is_empty(default_image) {
            "ubuntu:latest".to_owned()
        } else {
            default_image.to_owned()
        },
    };
    let title = match &spec.title {
        Some(t) => t.clone(),
        None => blank(),
    };
    let base_branch = if spec.create_new_branch {
        trim_text(&spec.base_branch)
    } else {
        None
    };
    let worktree_branch = trim_text(&spec.worktree_branch);
    let extra_repo_paths = keep_nonempty(&spec.extra_repo_paths);
    let trust = match spec.trust_hooks {
        Some(t) => t,
        None => false,
    };
    HookQuery {
        profile: spec.profile.clone(),
        path: spec.path.clone(),
        scratch: spec.scratch,
        trust,
        params: InstanceParams {
            title,
            path: spec.path,
            group: spec.group,
            tool: spec.tool,
            worktree_enabled: spec.worktree_enabled,
            worktree_branch,
            create_new_branch: spec.create_new_branch,
            base_branch,
            sandbox: spec.sandbox,
            sandbox_image,
            yolo_mode: spec.yolo_mode,
            extra_env: spec.extra_env,
            extra_args: spec.extra_args,
            command_override: spec.command_override,
            extra_repo_paths,
            scratch: spec.scratch,
            fork_seed: spec.fork_seed,
        },
        stamp: Stamp {
            profile: spec.profile,
            created_by_plugin: spec.created_by_plugin,
            plugin_create_idempotency: spec.plugin_create_idempotency,
            pending_initial_turn: spec.pending_initial_turn,
            acp_mode_id: spec.acp_mode_id,
            custom_instruction: spec.custom_instruction,
            view: spec.view,
            agent_name: spec.agent_name,
            agent_model: spec.agent_model,
            agent_effort: spec.agent_effort,
            import_acp_session_id: spec.import_acp_session_id,
        },
    }
}

/// A session is to be built.
#[derive(Debug)]
pub struct BuildOrder {
    pub original_path: String,
    pub params: InstanceParams,
    pub stamp: Stamp,
}

impl HookQuery {
    /// The hooks were approved or there are none, and the session can be built; or they were
    /// not, and nothing is built.
    pub fn hooks_resolved(self, r: Result<(), CreateError>) -> (n: Result<BuildOrder, CreateError>)
        ensures
            match r {
                Ok(_) => n == Ok::<BuildOrder, CreateError>(
                    (BuildOrder { original_path: self.path, params: self.params, stamp: self.stamp }),
                ),
                Err(e) => n == Err::<BuildOrder, CreateError>(e),
            },
    {
        match r {
            Ok(_) => Ok(BuildOrder { original_path: self.path, params: self.params, stamp: self.stamp }),
            Err(e) => Err(e),
        }
    }
}

/// The request for a session that was given a session to import.
pub open spec fn imports(s: Stamp) -> bool {
    match s.import_acp_session_id {
        Some(id) => trimmed(id@).len() > 0,
        None => false,
    }
}

/// A built session with what the request sets on it.
pub open spec fn stamped(built: Instance, s: Stamp) -> Instance {
    Instance {
        source_profile: s.profile,
        created_by_plugin: s.created_by_plugin,
        plugin_create_idempotency: s.plugin_create_idempotency,
        pending_initial_turn: s.pending_initial_turn,
        acp_mode_id: s.acp_mode_id,
        sandbox_info: match built.sandbox_info {
            Some(info) => Some(
                if s.custom_instruction is Some {
                    SandboxInfo { custom_instruction: s.custom_instruction }
                } else {
                    info
                },
            ),
            None => None,
        },
        view: if imports(s) {
            SessionView::Structured
        } else {
            s.view
        },
        acp_session_id: if imports(s) {
            s.import_acp_session_id
        } else {
            built.acp_session_id
        },
        import_pending: if imports(s) {
            Some(true)
        } else {
            built.import_pending
        },
        agent_name: s.agent_name,
        ..built
    }
}

/// The agent of a session: the named one, else the tool.
pub open spec fn agent_key_of(i: Instance) -> Seq<char> {
    match i.agent_name {
        Some(n) => if n@.len() > 0 {
            n@
        } else {
            i.tool@
        },
        None => i.tool@,
    }
}

/// The agent of a session: the named one, else the tool.
pub fn agent_key(i: &Instance) -> (r: String)
    ensures
        r@ == agent_key_of(*i),
{
    match &i.agent_name {
        Some(n) => if is_empty(n.as_str()) {
            i.tool.clone()
        } else {
            n.clone()
        },
        None => i.tool.clone(),
    }
}

/// A built session, whose agent has to be looked up: its default model and effort, and whether
/// it can run in the structured view.
#[derive(Debug)]
pub struct AgentQuery {
    pub original_path: String,
    pub instance: Instance,
    pub warnings: Vec<String>,
    pub agent_key: String,
    pub explicit_model: Option<String>,
    pub requested_effort: Option<String>,
}

impl BuildOrder {
    /// The session was built, and gets what the request sets on it.
    pub fn built(self, r: Result<SpawnOutcome, CreateError>) -> (n: Result<AgentQuery, CreateError>)
        ensures
            match r {
                Ok(b) => n matches Ok(q) && q.original_path == self.original_path && q.instance == stamped(
                    b.instance,
                    self.stamp,
                ) && q.warnings == b.warnings && q.agent_key@ == agent_key_of(stamped(b.instance, self.stamp))
                    && text_of(q.explicit_model) == trimmed_text(text_of(self.stamp.agent_model))
                    && q.requested_effort == self.stamp.agent_effort,
                Err(e) => n == Err::<AgentQuery, CreateError>(e),
            },
    {
        let b = match r {
            Ok(b) => b,
            Err(e) => {
                return Err(e);
            },
        };
        let s = self.stamp;
        let importing = match &s.import_acp_session_id {
            Some(id) => !is_blank(id.as_str()),
            None => false,
        };
        let explicit_model = trim_text(&s.agent_model);
        let ghost built = b.instance;
        let mut instance = b.instance;
        instance.source_profile = s.profile;
        instance.created_by_plugin = s.created_by_plugin;
        instance.plugin_create_idempotency = s.plugin_create_idempotency;
        instance.pending_initial_turn = s.pending_initial_turn;
        instance.acp_mode_id = s.acp_mode_id;
        if instance.sandbox_info.is_some() && s.custom_instruction.is_some() {
            instance.sandbox_info = Some(SandboxInfo { custom_instruction: s.custom_instruction });
        }
        instance.view = s.view;
        if importing {
            instance.view = SessionView::Structured;
            instance.acp_session_id = s.import_acp_session_id;
            instance.import_pending = Some(true);
        }
        instance.agent_name = s.agent_name;
        let agent_key = agent_key(&instance);
        Ok(
            AgentQuery {
                original_path: self.original_path,
                instance,
                warnings: b.warnings,
                agent_key,
                explicit_model,
                requested_effort: s.agent_effort,
            },
        )
    }
}

/// Whether an agent can run in the structured view: it is registered, or the tool has a valid
/// launch command of its own.
pub open spec fn capable(registry: Seq<Seq<char>>, agent: Seq<char>, command_is_valid: bool) -> bool {
    registry.contains(agent) || command_is_valid
}

/// A session whose view is settled. One whose agent cannot run in the structured view falls back
/// to the terminal, without the marks of an import or a fork.
pub open spec fn settled(i: Instance, capable: bool, model: Option<String>, explicit: Option<String>) -> Instance {
    if i.view == SessionView::Structured && capable {
        Instance { agent_model: model, ..i }
    } else if i.view == SessionView::Structured {
        Instance {
            view: SessionView::Terminal,
            fork_pending: None,
            import_pending: None,
            agent_model: explicit,
            ..i
        }
    } else {
        Instance { agent_model: explicit, ..i }
    }
}

/// A session that is complete; the hooks for a new session are to run.
#[derive(Debug)]
pub struct HookOrder {
    pub original_path: String,
    pub instance: Instance,
    pub warnings: Vec<String>,
    pub effort: Option<String>,
}

impl AgentQuery {
    /// The agent was looked up: the model and effort to run it with, whether it is registered,
    /// and whether the tool has a valid launch command of its own.
    pub fn agent_resolved(
        self,
        model: Option<String>,
        effort: Option<String>,
        registry: &Vec<String>,
        command_is_valid: bool,
    ) -> (n: HookOrder)
        ensures
            n.original_path == self.original_path,
            n.warnings == self.warnings,
            n.instance == settled(
                self.instance,
                capable(texts(registry@), agent_key_of(self.instance), command_is_valid),
                model,
                self.explicit_model,
            ),
            n.effort == if n.instance.view == SessionView::Structured {
                effort
            } else {
                None
            },
    {
        let mut instance = self.instance;
        let mut effort = effort;
        let agent = agent_key(&instance);
        instance.agent_model = model;
        if instance.is_structured() {
            let can_run = has_text(registry, agent.as_str()) || command_is_valid;
            if !can_run {
                instance.view = SessionView::Terminal;
                instance.fork_pending = None;
                instance.import_pending = None;
            }
        }
        if !instance.is_structured() {
            effort = None;
            instance.agent_model = self.explicit_model;
        }
        HookOrder { original_path: self.original_path, instance, warnings: self.warnings, effort }
    }
}

/// A session that is to be stored.
#[derive(Debug)]
pub struct PersistOrder {
    pub instance: Instance,
    pub warnings: Vec<String>,
    pub effort: Option<String>,
}

/// A create that failed, and what has to be undone.
#[derive(Debug)]
pub struct SpawnFailure {
    pub error: CreateError,
    /// The worktree and the container that were built are to be removed.
    pub remove_build: bool,
    /// The scratch directory is to be removed.
    pub remove_scratch: Option<String>,
}

impl HookOrder {
    /// The hooks ran; where one failed, what was built is removed.
    pub fn hooks_ran(self, r: Result<(), String>) -> (n: Result<PersistOrder, SpawnFailure>)
        ensures
            match r {
                Ok(_) => n == Ok::<PersistOrder, SpawnFailure>(
                    (PersistOrder { instance: self.instance, warnings: self.warnings, effort: self.effort }),
                ),
                Err(e) => n matches Err(f) && (f.error matches CreateError::Failed(m) && m@ == "on_create hook failed: "@
                    + e@) && f.remove_build && f.remove_scratch is None,
            },
    {
        match r {
            Ok(_) => Ok(PersistOrder { instance: self.instance, warnings: self.warnings, effort: self.effort }),
            Err(e) => Err(
                SpawnFailure {
                    error: CreateError::Failed(join2("on_create hook failed: ", e.as_str())),
                    remove_build: true,
                    remove_scratch: None,
                },
            ),
        }
    }
}

/// A session that is stored and started.
#[derive(Debug)]
pub struct Created {
    pub instance: Instance,
    pub warnings: Vec<String>,
    pub effort: Option<String>,
}

impl PersistOrder {
    /// Whether a terminal has to be started: a structured session has none.
    pub fn starts_terminal(&self) -> (r: bool)
        ensures
            r == (self.instance.view != SessionView::Structured),
    {
        !self.instance.is_structured()
    }

    /// The session was stored and started, or that failed. Then the directory of a scratch session
    /// is removed, provided that it is one (`is_scratch_path`).
    pub fn stored(self, r: Result<(), String>, is_scratch_path: bool) -> (n: Result<Created, SpawnFailure>)
        ensures
            match r {
                Ok(_) => n == Ok::<Created, SpawnFailure>(
                    (Created { instance: self.instance, warnings: self.warnings, effort: self.effort }),
                ),
                Err(e) => n matches Err(f) && (f.error matches CreateError::Failed(m) && m == e) && !f.remove_build
                    && f.remove_scratch == if self.instance.scratch && is_scratch_path {
                    Some(self.instance.project_path)
                } else {
                    None
                },
            },
    {
        match r {
            Ok(_) => Ok(Created { instance: self.instance, warnings: self.warnings, effort: self.effort }),
            Err(e) => {
                let remove_scratch = if self.instance.scratch && is_scratch_path {
                    Some(self.instance.project_path)
                } else {
                    None
                };
                Err(SpawnFailure { error: CreateError::Failed(e), remove_build: false, remove_scratch })
            },
        }
    }
}

/// The worker that a structured session is to be run by.
#[derive(Debug)]
pub struct SpawnTarget {
    pub id: String,
    pub tool: String,
    pub agent_override: Option<String>,
    pub model: Option<String>,
    pub effort: Option<String>,
    pub project_path: String,
    pub stored_acp_session_id: Option<String>,
    pub source_profile: String,
    pub yolo_mode: bool,
    pub acp_mode_id: Option<String>,
    pub command: String,
    pub seed_history_replay: bool,
    pub fork_from: Option<String>,
}

/// The worker of a session; none for one that is not structured.
pub open spec fn target_of(i: Instance, effort: Option<String>) -> Option<SpawnTarget> {
    if i.view == SessionView::Structured {
        Some(
            SpawnTarget {
                id: i.id,
                tool: i.tool,
                agent_override: i.agent_name,
                model: i.agent_model,
                effort,
                project_path: i.project_path,
                stored_acp_session_id: i.acp_session_id,
                source_profile: i.source_profile,
                yolo_mode: i.yolo_mode,
                acp_mode_id: i.acp_mode_id,
                command: i.command,
                seed_history_replay: i.import_pending == Some(true),
                fork_from: i.fork_pending,
            },
        )
    } else {
        None
    }
}

/// The worker of a session.
pub fn spawn_target(i: &Instance, effort: Option<String>) -> (r: Option<SpawnTarget>)
    ensures
        r == target_of(*i, effort),
{
    if !i.is_structured() {
        return None;
    }
    Some(
        SpawnTarget {
            id: i.id.clone(),
            tool: i.tool.clone(),
            agent_override: copy_text(&i.agent_name),
            model: copy_text(&i.agent_model),
            effort,
            project_path: i.project_path.clone(),
            stored_acp_session_id: copy_text(&i.acp_session_id),
            source_profile: i.source_profile.clone(),
            yolo_mode: i.yolo_mode,
            acp_mode_id: copy_text(&i.acp_mode_id),
            command: i.command.clone(),
            seed_history_replay: match i.import_pending {
                Some(b) => b,
                None => false,
            },
            fork_from: copy_text(&i.fork_pending),
        },
    )
}

impl Created {
    /// Registers the session: it is put into the list, the count of creates goes up, and the
    /// worker to run it by comes back with the outcome.
    pub fn register(self, instances: &mut Vec<Instance>, creates: &mut u32) -> (r: (
        SpawnOutcome,
        Option<SpawnTarget>,
    ))
        ensures
            final(instances)@ == upserted(old(instances)@, self.instance),
            *final(creates) == if *old(creates) == u32::MAX {
                0u32
            } else {
                (*old(creates) + 1) as u32
            },
            r.0.instance == self.instance,
            r.0.warnings == self.warnings,
            r.1 == target_of(self.instance, self.effort),
    {
        let target = spawn_target(&self.instance, self.effort);
        upsert_instance(instances, self.instance.clone());
        *creates = creates.wrapping_add(1);
        (SpawnOutcome { instance: self.instance, warnings: self.warnings }, target)
    }
}

/// Whether a session has a first turn that was not delivered yet.
pub open spec fn has_pending(s: Seq<Instance>, id: Seq<char>) -> bool {
    match find_session(s, id) {
        Some(i) => s[i].pending_initial_turn is Some,
        None => false,
    }
}

/// Whether a session has a first turn that was not delivered yet.
pub fn has_pending_initial_turn(instances: &Vec<Instance>, id: &str) -> (r: bool)
    ensures
        r == has_pending(instances@, id@),
{
    match position_of(instances, id) {
        Some(i) => instances[i].pending_initial_turn.is_some(),
        None => false,
    }
}

/// What follows the start of a worker.
#[derive(Debug)]
pub enum AfterSpawn {
    /// The first turn is delivered.
    DeliverTurn,
    /// Nothing.
    Nothing,
    /// The error is shown in the session.
    PublishError(String),
    /// The session is gone, and the error with it.
    Ignore(String),
}

/// The container of a sandbox could not be had.
pub fn container_failed(error: &str) -> (r: AfterSpawn)
    ensures
        r matches AfterSpawn::PublishError(m) && m@ == "sandbox container ensure failed: "@ + error@,
{
    AfterSpawn::PublishError(join2("sandbox container ensure failed: ", error))
}

/// The worker was started, or could not be; then the error is shown where the session is still
/// there.
pub fn after_spawn(instances: &Vec<Instance>, id: &str, result: Result<(), String>, pending_turn: bool) -> (r:
    AfterSpawn)
    ensures
        r == match result {
            Ok(_) => if pending_turn {
                AfterSpawn::DeliverTurn
            } else {
                AfterSpawn::Nothing
            },
            Err(e) => if find_session(instances@, id@) is Some {
                AfterSpawn::PublishError(e)
            } else {
                AfterSpawn::Ignore(e)
            },
        },
{
    match result {
        Ok(_) => if pending_turn {
            AfterSpawn::DeliverTurn
        } else {
            AfterSpawn::Nothing
        },
        Err(e) => match position_of(instances, id) {
            Some(_) => AfterSpawn::PublishError(e),
            None => AfterSpawn::Ignore(e),
        },
    }
}

/// An agent that cannot run in the structured view never gets a structured session, whatever was
/// asked for; and what is left carries no mark of an import or a fork and no default model.
pub proof fn law_incapable_falls_back(i: Instance, model: Option<String>, explicit: Option<String>)
    ensures
        settled(i, false, model, explicit).view != SessionView::Structured,
        settled(i, false, model, explicit).agent_model == explicit,
        i.view == SessionView::Structured ==> settled(i, false, model, explicit).import_pending is None && settled(
            i,
            false,
            model,
            explicit,
        ).fork_pending is None,
        target_of(settled(i, false, model, explicit), None) is None,
{
}

/// A created session that is registered can be found again under its id.
pub proof fn law_registered_is_found(s: Seq<Instance>, x: Instance)
    ensures
        find_session(upserted(s, x), x.id@) matches Some(i) && upserted(s, x)[i] == x,
{
    lemma_find_session(s, x.id@);
    let t = upserted(s, x);
    lemma_find_session(t, x.id@);
    match find_session(s, x.id@) {
        Some(i) => {
            assert(t[i] == x);
            let k = find_session(t, x.id@)->0;
            if k < i {
                assert(t[k] == s[k]);
            }
        },
        None => {
            assert(t[s.len() as int] == x);
            let k = find_session(t, x.id@)->0;
            if k < s.len() {
                assert(t[k] == s[k]);
            }
        },
    }
}

} // verus!
