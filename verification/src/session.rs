//! Sessions as the host keeps them.

use vstd::prelude::*;

use crate::text::{blank, copy_text, same, text_of};

verus! {

/// How a session is shown and run.
#[derive(Debug, Clone, Copy, PartialEq, Eq, Structural)]
pub enum SessionView {
    Terminal,
    Structured,
}

/// What a plugin's create is recognized by when it is tried again.
#[derive(Debug)]
pub struct PluginCreateIdempotency {
    pub key: String,
    pub payload_hash: String,
}

/// The sandbox of a session.
#[derive(Debug)]
pub struct SandboxInfo {
    pub custom_instruction: Option<String>,
}

/// A session.
#[derive(Debug)]
pub struct Instance {
    pub id: String,
    pub title: String,
    pub project_path: String,
    pub group_path: String,
    pub tool: String,
    pub command: String,
    pub source_profile: String,
    pub worktree_branch: Option<String>,
    pub sandbox_info: Option<SandboxInfo>,
    pub scratch: bool,
    pub yolo_mode: bool,
    pub view: SessionView,
    pub agent_name: Option<String>,
    pub agent_model: Option<String>,
    pub acp_session_id: Option<String>,
    pub acp_mode_id: Option<String>,
    pub import_pending: Option<bool>,
    pub fork_pending: Option<String>,
    pub created_by_plugin: Option<String>,
    pub plugin_create_idempotency: Option<PluginCreateIdempotency>,
    pub pending_initial_turn: Option<String>,
    pub archived: bool,
    pub snoozed: bool,
    pub trashed: bool,
}

impl Clone for PluginCreateIdempotency {
    fn clone(&self) -> (r: PluginCreateIdempotency)
        ensures
            r == *self,
    {
        PluginCreateIdempotency { key: self.key.clone(), payload_hash: self.payload_hash.clone() }
    }
}

impl Clone for Instance {
    fn clone(&self) -> (r: Instance)
        ensures
            r == *self,
    {
        Instance {
            id: self.id.clone(),
            title: self.title.clone(),
            project_path: self.project_path.clone(),
            group_path: self.group_path.clone(),
            tool: self.tool.clone(),
            command: self.command.clone(),
            source_profile: self.source_profile.clone(),
            worktree_branch: copy_text(&self.worktree_branch),
            sandbox_info: match &self.sandbox_info {
                Some(s) => Some(SandboxInfo { custom_instruction: copy_text(&s.custom_instruction) }),
                None => None,
            },
            scratch: self.scratch,
            yolo_mode: self.yolo_mode,
            view: self.view,
            agent_name: copy_text(&self.agent_name),
            agent_model: copy_text(&self.agent_model),
            acp_session_id: copy_text(&self.acp_session_id),
            acp_mode_id: copy_text(&self.acp_mode_id),
            import_pending: self.import_pending,
            fork_pending: copy_text(&self.fork_pending),
            created_by_plugin: copy_text(&self.created_by_plugin),
            plugin_create_idempotency: match &self.plugin_create_idempotency {
                Some(p) => Some(p.clone()),
                None => None,
            },
            pending_initial_turn: copy_text(&self.pending_initial_turn),
            archived: self.archived,
            snoozed: self.snoozed,
            trashed: self.trashed,
        }
    }
}

impl Instance {
    /// A session with a title in a directory, and nothing else set.
    pub fn new(title: &str, project_path: &str) -> (r: Instance)
        ensures
            r.title@ == title@,
            r.project_path@ == project_path@,
            r.is_blank(),
    {
        Instance {
            id: blank(),
            title: title.to_owned(),
            project_path: project_path.to_owned(),
            group_path: blank(),
            tool: blank(),
            command: blank(),
            source_profile: blank(),
            worktree_branch: None,
            sandbox_info: None,
            scratch: false,
            yolo_mode: false,
            view: SessionView::Terminal,
            agent_name: None,
            agent_model: None,
            acp_session_id: None,
            acp_mode_id: None,
            import_pending: None,
            fork_pending: None,
            created_by_plugin: None,
            plugin_create_idempotency: None,
            pending_initial_turn: None,
            archived: false,
            snoozed: false,
            trashed: false,
        }
    }

    /// Whether nothing but the title and the directory is set.
    pub open spec fn is_blank(&self) -> bool {
        &&& self.id@.len() == 0
        &&& self.group_path@.len() == 0
        &&& self.tool@.len() == 0
        &&& self.command@.len() == 0
        &&& self.source_profile@.len() == 0
        &&& self.worktree_branch is None
        &&& self.sandbox_info is None
        &&& !self.scratch
        &&& !self.yolo_mode
        &&& self.view == SessionView::Terminal
        &&& self.agent_name is None
        &&& self.agent_model is None
        &&& self.acp_session_id is None
        &&& self.acp_mode_id is None
        &&& self.import_pending is None
        &&& self.fork_pending is None
        &&& self.created_by_plugin is None
        &&& self.plugin_create_idempotency is None
        &&& self.pending_initial_turn is None
        &&& self.active()
    }

    /// Whether the session runs in the structured view.
    pub fn is_structured(&self) -> (r: bool)
        ensures
            r == (self.view == SessionView::Structured),
    {
        matches!(self.view, SessionView::Structured)
    }

    /// Whether a plugin created the session.
    pub open spec fn owned_by(&self, plugin_id: Seq<char>) -> bool {
        text_of(self.created_by_plugin) == Some(plugin_id)
    }

    /// Whether a plugin created the session.
    pub fn is_owned_by(&self, plugin_id: &str) -> (r: bool)
        ensures
            r == self.owned_by(plugin_id@),
    {
        match &self.created_by_plugin {
            Some(p) => same(p.as_str(), plugin_id),
            None => false,
        }
    }

    /// Whether the session is live: not archived, snoozed or trashed.
    pub open spec fn active(&self) -> bool {
        !self.archived && !self.snoozed && !self.trashed
    }
}

/// The first session with an id.
pub open spec fn find_session(s: Seq<Instance>, id: Seq<char>) -> Option<int>
    decreases s.len(),
{
    if s.len() == 0 {
        None
    } else if s[0].id@ == id {
        Some(0)
    } else {
        match find_session(s.skip(1), id) {
            Some(i) => Some(i + 1),
            None => None,
        }
    }
}

/// What `find_session` finds is the first session with the id, and it finds one wherever there is one.
pub proof fn lemma_find_session(s: Seq<Instance>, id: Seq<char>)
    ensures
        match find_session(s, id) {
            Some(i) => 0 <= i < s.len() && s[i].id@ == id && forall|j: int| 0 <= j < i ==> (#[trigger] s[j]).id@ != id,
            None => forall|j: int| 0 <= j < s.len() ==> (#[trigger] s[j]).id@ != id,
        },
    decreases s.len(),
{
    if s.len() > 0 && s[0].id@ != id {
        lemma_find_session(s.skip(1), id);
        let rest = s.skip(1);
        match find_session(rest, id) {
            Some(i) => {
                assert forall|j: int| 0 <= j < i + 1 implies (#[trigger] s[j]).id@ != id by {
                    if j > 0 {
                        assert(s[j] == rest[j - 1]);
                    }
                }
            },
            None => {
                assert forall|j: int| 0 <= j < s.len() implies (#[trigger] s[j]).id@ != id by {
                    if j > 0 {
                        assert(s[j] == rest[j - 1]);
                    }
                }
            },
        }
    }
}

/// The index of the first session with an id.
pub fn position_of(instances: &Vec<Instance>, id: &str) -> (r: Option<usize>)
    ensures
        match r {
            Some(i) => find_session(instances@, id@) == Some(i as int) && i < instances@.len(),
            None => find_session(instances@, id@) is None,
        },
{
    let mut i: usize = 0;
    while i < instances.len()
        invariant
            i <= instances@.len(),
            forall|j: int| 0 <= j < i ==> (#[trigger] instances@[j]).id@ != id@,
        decreases instances@.len() - i,
    {
        if same(instances[i].id.as_str(), id) {
            proof {
                lemma_find_session(instances@, id@);
            }
            return Some(i);
        }
        i = i + 1;
    }
    proof {
        lemma_find_session(instances@, id@);
    }
    None
}

/// The sessions with one put in: in place of the first with its id, or at the end.
pub open spec fn upserted(s: Seq<Instance>, x: Instance) -> Seq<Instance> {
    match find_session(s, x.id@) {
        Some(i) => s.update(i, x),
        None => s.push(x),
    }
}

/// Puts a session in: in place of the first with its id, or at the end.
pub fn upsert_instance(instances: &mut Vec<Instance>, instance: Instance)
    ensures
        final(instances)@ == upserted(old(instances)@, instance),
{
    match position_of(instances, instance.id.as_str()) {
        Some(i) => {
            instances.set(i, instance);
        },
        None => {
            instances.push(instance);
        },
    }
}

} // verus!
