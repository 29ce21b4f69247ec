//! The rules of the project registry's web interface: what each request asks for, and how it is
//! answered.

use vstd::prelude::*;

use crate::json::{array_view, lemma_array_view, member, text, Json, JsonMap, JsonV};
use crate::protocol::with_some;
use crate::text::{is_empty, join2, pieces, same, split, text_of, texts, trim_text, trimmed_text};

verus! {

broadcast use lemma_array_view;

/// Where a project is registered.
#[derive(Debug, Clone, Copy, PartialEq, Eq, Structural)]
pub enum ProjectScope {
    Global,
    Profile,
}

impl ProjectScope {
    pub open spec fn name(&self) -> Seq<char> {
        match *self {
            ProjectScope::Global => "global"@,
            ProjectScope::Profile => "profile"@,
        }
    }

    pub fn as_str(&self) -> (r: &'static str)
        ensures
            r@ == self.name(),
    {
        match self {
            ProjectScope::Global => "global",
            ProjectScope::Profile => "profile",
        }
    }
}

/// A registered project.
#[derive(Debug)]
pub struct Project {
    pub name: String,
    pub path: String,
    pub scope: ProjectScope,
    pub default_base_branch: Option<String>,
    pub pinned: bool,
}

/// Why the registry refused.
#[derive(Debug)]
pub enum RegistryError {
    Conflict(String),
    NotFound(String),
    Other(String),
}

/// A project as it is answered.
#[derive(Debug)]
pub struct ProjectResponse {
    pub name: String,
    pub path: String,
    pub scope: String,
    pub default_base_branch: Option<String>,
    pub pinned: bool,
}

/// The query of a list: one scope, or all.
#[derive(Debug)]
pub struct ListQuery {
    pub scope: Option<String>,
}

/// The body of a create.
#[derive(Debug)]
pub struct CreateProjectBody {
    pub path: String,
    pub name: Option<String>,
    pub scope: Option<String>,
    /// Whether a project of the other scope may have the same path.
    pub allow_override: bool,
    pub default_base_branch: Option<String>,
    pub pinned: bool,
}

/// The query of a delete or an update: the scope, the global one where it is left out.
#[derive(Debug)]
pub struct DeleteQuery {
    pub scope: Option<String>,
}

/// An answer: its status and its body.
#[derive(Debug)]
pub struct ApiReply {
    pub status: u16,
    pub body: Json,
}

/// The body of an answer that refuses.
pub open spec fn refusal(error: Seq<char>, message: Seq<char>) -> JsonV {
    JsonV::Object(
        Map::empty().insert("error"@, JsonV::Text(error)).insert("message"@, JsonV::Text(message)),
    )
}

impl ApiReply {
    /// Whether this is the answer with a status and a body.
    pub open spec fn is(&self, status: u16, body: JsonV) -> bool {
        self.status == status && self.body@ == body
    }

    fn refused(status: u16, error: &str, message: &str) -> (r: ApiReply)
        ensures
            r.is(status, refusal(error@, message@)),
    {
        let mut m = JsonMap::new();
        m.insert("error".to_owned(), text(error));
        m.insert("message".to_owned(), text(message));
        ApiReply { status, body: Json::Object(m) }
    }
}

/// The JSON object of a project.
pub open spec fn project_document(p: Project) -> JsonV {
    JsonV::Object(
        with_some(
            Map::empty().insert("name"@, JsonV::Text(p.name@)).insert("path"@, JsonV::Text(p.path@)).insert(
                "scope"@,
                JsonV::Text(p.scope.name()),
            ).insert("pinned"@, JsonV::Bool(p.pinned)),
            "default_base_branch"@,
            match p.default_base_branch {
                Some(b) => Some(JsonV::Text(b@)),
                None => None,
            },
        ),
    )
}

impl ProjectResponse {
    /// A project as it is answered.
    pub fn of(p: Project) -> (r: ProjectResponse)
        ensures
            r.name == p.name,
            r.path == p.path,
            r.scope@ == p.scope.name(),
            r.default_base_branch == p.default_base_branch,
            r.pinned == p.pinned,
    {
        ProjectResponse {
            name: p.name,
            path: p.path,
            scope: p.scope.as_str().to_owned(),
            default_base_branch: p.default_base_branch,
            pinned: p.pinned,
        }
    }

    fn to_json(&self) -> (r: Json)
        ensures
            r@ == JsonV::Object(
                with_some(
                    Map::empty().insert("name"@, JsonV::Text(self.name@)).insert(
                        "path"@,
                        JsonV::Text(self.path@),
                    ).insert("scope"@, JsonV::Text(self.scope@)).insert("pinned"@, JsonV::Bool(self.pinned)),
                    "default_base_branch"@,
                    match self.default_base_branch {
                        Some(b) => Some(JsonV::Text(b@)),
                        None => None,
                    },
                ),
            ),
    {
        let mut m = JsonMap::new();
        m.insert("name".to_owned(), text(self.name.as_str()));
        m.insert("path".to_owned(), text(self.path.as_str()));
        m.insert("scope".to_owned(), text(self.scope.as_str()));
        m.insert("pinned".to_owned(), Json::Bool(self.pinned));
        if let Some(b) = &self.default_base_branch {
            m.insert("default_base_branch".to_owned(), text(b.as_str()));
        }
        Json::Object(m)
    }
}

/// The answer with a project.
fn project_reply(status: u16, p: Project) -> (r: ApiReply)
    ensures
        r.is(status, project_document(p)),
{
    ApiReply { status, body: ProjectResponse::of(p).to_json() }
}

/// Which list is asked for.
#[derive(Debug, Clone, Copy, PartialEq, Eq, Structural)]
pub enum ListSource {
    Global,
    Profile,
    Merged,
}

/// The words about a scope that there is not.
pub open spec fn bad_scope_words(scope: Seq<char>, choices: Seq<char>) -> Seq<char> {
    "Unknown scope '"@ + scope + "'. Use "@ + choices
}

/// Which list a query asks for: that of a scope, or both where it names none.
pub fn list_projects(q: &ListQuery) -> (r: Result<ListSource, ApiReply>)
    ensures
        match text_of(q.scope) {
            None => r == Ok::<ListSource, ApiReply>(ListSource::Merged),
            Some(s) => if s == "global"@ {
                r == Ok::<ListSource, ApiReply>(ListSource::Global)
            } else if s == "profile"@ {
                r == Ok::<ListSource, ApiReply>(ListSource::Profile)
            } else {
                r matches Err(e) && e.is(
                    400,
                    refusal("bad_scope"@, bad_scope_words(s, "'global', 'profile', or omit."@)),
                )
            },
        },
{
    match &q.scope {
        None => Ok(ListSource::Merged),
        Some(s) => {
            proof {
                reveal_strlit("global");
                reveal_strlit("profile");
                assert("global"@.len() != "profile"@.len());
            }
            if same(s.as_str(), "global") {
                Ok(ListSource::Global)
            } else if same(s.as_str(), "profile") {
                Ok(ListSource::Profile)
            } else {
                Err(
                    ApiReply::refused(
                        400,
                        "bad_scope",
                        "Unknown scope '".to_owned().concat(s.as_str()).concat("'. Use ").concat(
                            "'global', 'profile', or omit.",
                        ).as_str(),
                    ),
                )
            }
        },
    }
}

/// The documents of projects.
pub open spec fn project_documents(s: Seq<Project>) -> Seq<JsonV> {
    Seq::new(s.len(), |i: int| project_document(s[i]))
}

/// The answer to a list.
pub fn list_reply(result: Result<Vec<Project>, String>) -> (r: ApiReply)
    ensures
        match result {
            Ok(list) => r.is(200, JsonV::Array(project_documents(list@))),
            Err(e) => r.is(500, refusal("load_failed"@, e@)),
        },
{
    let list = match result {
        Ok(list) => list,
        Err(e) => {
            return ApiReply::refused(500, "load_failed", e.as_str());
        },
    };
    let ghost all = list@;
    let mut out: Vec<Json> = Vec::new();
    for p in it: list
        invariant
            it.seq() == all,
            out@.len() == it.index(),
            forall|k: int| 0 <= k < out@.len() ==> (#[trigger] out@[k])@ == project_document(all[k]),
    {
        out.push(ProjectResponse::of(p).to_json());
    }
    assert(array_view(out@) =~= project_documents(all));
    ApiReply { status: 200, body: Json::Array(out) }
}

/// The scope that a request names; the global one where it names none.
pub open spec fn named_scope(scope: Option<Seq<char>>) -> Option<ProjectScope> {
    match scope {
        None => Some(ProjectScope::Global),
        Some(s) => if s == "profile"@ {
            Some(ProjectScope::Profile)
        } else if s == "global"@ {
            Some(ProjectScope::Global)
        } else {
            None
        },
    }
}

/// The scope that a request names.
fn parse_scope(scope: &Option<String>) -> (r: Result<ProjectScope, ApiReply>)
    ensures
        match named_scope(text_of(*scope)) {
            Some(s) => r == Ok::<ProjectScope, ApiReply>(s),
            None => r matches Err(e) && e.is(
                400,
                refusal("bad_scope"@, bad_scope_words(text_of(*scope)->0, "'global' or 'profile'."@)),
            ),
        },
{
    match scope {
        None => Ok(ProjectScope::Global),
        Some(s) => if same(s.as_str(), "profile") {
            Ok(ProjectScope::Profile)
        } else if same(s.as_str(), "global") {
            Ok(ProjectScope::Global)
        } else {
            Err(
                ApiReply::refused(
                    400,
                    "bad_scope",
                    "Unknown scope '".to_owned().concat(s.as_str()).concat("'. Use ").concat(
                        "'global' or 'profile'.",
                    ).as_str(),
                ),
            )
        },
    }
}

/// The answer to a change while the server is read-only.
pub open spec fn read_only_refusal() -> JsonV {
    refusal("read_only"@, "Server is in read-only mode"@)
}

/// Whether changes are let through: not where the client mode blocks them (`blocked` is its answer),
/// and not on a read-only server.
fn write_gate(blocked: Option<ApiReply>, read_only: bool) -> (r: Result<(), ApiReply>)
    ensures
        match blocked {
            Some(b) => r == Err::<(), ApiReply>(b),
            None => if read_only {
                r matches Err(e) && e.is(403, read_only_refusal())
            } else {
                r is Ok
            },
        },
{
    if let Some(b) = blocked {
        return Err(b);
    }
    if read_only {
        return Err(ApiReply::refused(403, "read_only", "Server is in read-only mode"));
    }
    Ok(())
}

/// The parts of a path that count: not the empty ones, and not the dots that stand for where one is.
pub open spec fn path_parts(parts: Seq<Seq<char>>) -> Seq<Seq<char>>
    decreases parts.len(),
{
    if parts.len() == 0 {
        Seq::empty()
    } else {
        let before = path_parts(parts.drop_last());
        if parts.last().len() == 0 || parts.last() == "."@ {
            before
        } else {
            before.push(parts.last())
        }
    }
}

/// The last part of a path; none for the root and for one that ends in a step upwards.
pub open spec fn file_name(path: Seq<char>) -> Option<Seq<char>> {
    let parts = path_parts(pieces(path, '/'));
    if parts.len() == 0 || parts.last() == ".."@ {
        None
    } else {
        Some(parts.last())
    }
}

/// The last part of a path.
pub fn last_part(path: &str) -> (r: Option<String>)
    ensures
        text_of(r) == file_name(path@),
{
    let parts = split(path, '/');
    let ghost all = pieces(path@, '/');
    let mut last: Option<String> = None;
    let mut i: usize = 0;
    while i < parts.len()
        invariant
            i <= parts@.len(),
            all == texts(parts@),
            match last {
                Some(s) => path_parts(all.take(i as int)).len() > 0 && path_parts(all.take(i as int)).last() == s@,
                None => path_parts(all.take(i as int)).len() == 0,
            },
        decreases parts@.len() - i,
    {
        assert(all.take(i + 1).drop_last() =~= all.take(i as int));
        assert(all.take(i + 1).last() == parts@[i as int]@);
        if !is_empty(parts[i].as_str()) && !same(parts[i].as_str(), ".") {
            last = Some(parts[i].clone());
        }
        i = i + 1;
    }
    assert(all.take(i as int) =~= all);
    match last {
        Some(s) => if same(s.as_str(), "..") {
            None
        } else {
            Some(s)
        },
        None => None,
    }
}

/// A project that is to be registered.
#[derive(Debug)]
pub struct AddOrder {
    pub scope: ProjectScope,
    pub project: Project,
    pub allow_override: bool,
}

/// Whether an order is the one that a body asks for.
pub open spec fn orders(o: AddOrder, body: CreateProjectBody, scope: ProjectScope, canonical: Seq<char>) -> bool {
    &&& o.scope == scope
    &&& o.allow_override == body.allow_override
    &&& o.project.scope == scope
    &&& o.project.path@ == canonical
    &&& o.project.name@ == match text_of(body.name) {
        Some(n) => n,
        None => match file_name(canonical) {
            Some(n) => n,
            None => "project"@,
        },
    }
    &&& text_of(o.project.default_base_branch) == trimmed_text(text_of(body.default_base_branch))
    &&& o.project.pinned == body.pinned
}

/// What a create comes to: the client mode and a read-only server come first, then the body, the
/// scope and the directory.
pub open spec fn create_outcome(
    r: Result<AddOrder, ApiReply>,
    blocked: Option<ApiReply>,
    read_only: bool,
    body: Result<CreateProjectBody, ApiReply>,
    canonical: Seq<char>,
    is_dir: bool,
) -> bool {
    match blocked {
        Some(b) => r == Err::<AddOrder, ApiReply>(b),
        None => if read_only {
            r matches Err(e) && e.is(403, read_only_refusal())
        } else {
            match body {
                Err(b) => r == Err::<AddOrder, ApiReply>(b),
                Ok(body) => match named_scope(text_of(body.scope)) {
                    None => r matches Err(e) && e.is(
                        400,
                        refusal("bad_scope"@, bad_scope_words(text_of(body.scope)->0, "'global' or 'profile'."@)),
                    ),
                    Some(scope) => if is_dir {
                        r matches Ok(o) && orders(o, body, scope, canonical)
                    } else {
                        r matches Err(e) && e.is(
                            400,
                            refusal(
                                "not_a_directory"@,
                                "Path does not exist or is not a directory: "@ + canonical,
                            ),
                        )
                    },
                },
            }
        },
    }
}

/// Decides on a create. `canonical` is the path of the body without links and dots, or the path as
/// it is where it does not exist; `is_dir` whether a directory is there.
pub fn create_project(
    blocked: Option<ApiReply>,
    read_only: bool,
    body: Result<CreateProjectBody, ApiReply>,
    canonical: &str,
    is_dir: bool,
) -> (r: Result<AddOrder, ApiReply>)
    ensures
        create_outcome(r, blocked, read_only, body, canonical@, is_dir),
{
    match write_gate(blocked, read_only) {
        Ok(_) => {},
        Err(e) => {
            return Err(e);
        },
    }
    let body = match body {
        Ok(b) => b,
        Err(e) => {
            return Err(e);
        },
    };
    let scope = match parse_scope(&body.scope) {
        Ok(s) => s,
        Err(e) => {
            return Err(e);
        },
    };
    if !is_dir {
        return Err(
            ApiReply::refused(
                400,
                "not_a_directory",
                join2("Path does not exist or is not a directory: ", canonical).as_str(),
            ),
        );
    }
    let name = match &body.name {
        Some(n) => n.clone(),
        None => match last_part(canonical) {
            Some(n) => n,
            None => "project".to_owned(),
        },
    };
    let project = Project {
        name,
        path: canonical.to_owned(),
        scope,
        default_base_branch: trim_text(&body.default_base_branch),
        pinned: body.pinned,
    };
    Ok(AddOrder { scope, project, allow_override: body.allow_override })
}

/// The answer to what the registry said.
pub open spec fn registry_reply(
    result: Result<Project, RegistryError>,
    status: u16,
    failure: Seq<char>,
    r: ApiReply,
) -> bool {
    match result {
        Ok(p) => r.is(status, project_document(p)),
        Err(RegistryError::Conflict(m)) => r.is(409, refusal("conflict"@, m@)),
        Err(RegistryError::NotFound(m)) => r.is(404, refusal("not_found"@, m@)),
        Err(RegistryError::Other(m)) => r.is(500, refusal(failure, m@)),
    }
}

fn reply_to(result: Result<Project, RegistryError>, status: u16, failure: &str) -> (r: ApiReply)
    ensures
        registry_reply(result, status, failure@, r),
{
    match result {
        Ok(p) => project_reply(status, p),
        Err(RegistryError::Conflict(m)) => ApiReply::refused(409, "conflict", m.as_str()),
        Err(RegistryError::NotFound(m)) => ApiReply::refused(404, "not_found", m.as_str()),
        Err(RegistryError::Other(m)) => ApiReply::refused(500, failure, m.as_str()),
    }
}

/// The answer to a create that reached the registry.
pub fn add_reply(result: Result<Project, RegistryError>) -> (r: ApiReply)
    ensures
        registry_reply(result, 201, "add_failed"@, r),
{
    reply_to(result, 201, "add_failed")
}

/// What a change of a registered project comes to before it reaches the registry.
pub open spec fn scope_outcome(
    r: Result<ProjectScope, ApiReply>,
    blocked: Option<ApiReply>,
    read_only: bool,
    scope: Option<Seq<char>>,
) -> bool {
    match blocked {
        Some(b) => r == Err::<ProjectScope, ApiReply>(b),
        None => if read_only {
            r matches Err(e) && e.is(403, read_only_refusal())
        } else {
            match named_scope(scope) {
                Some(s) => r == Ok::<ProjectScope, ApiReply>(s),
                None => r matches Err(e) && e.is(
                    400,
                    refusal("bad_scope"@, bad_scope_words(scope->0, "'global' or 'profile'."@)),
                ),
            }
        },
    }
}

/// Decides on a delete: in which scope the project is removed.
pub fn delete_project(blocked: Option<ApiReply>, read_only: bool, q: &DeleteQuery) -> (r: Result<
    ProjectScope,
    ApiReply,
>)
    ensures
        scope_outcome(r, blocked, read_only, text_of(q.scope)),
{
    match write_gate(blocked, read_only) {
        Ok(_) => parse_scope(&q.scope),
        Err(e) => Err(e),
    }
}

/// The answer to a delete that reached the registry.
pub fn remove_reply(result: Result<Project, RegistryError>) -> (r: ApiReply)
    ensures
        registry_reply(result, 200, "remove_failed"@, r),
{
    reply_to(result, 200, "remove_failed")
}

/// A change of a project. What is `None` stays as it is; a base branch of `Some(None)` is cleared.
#[derive(Debug, PartialEq, Eq)]
pub struct ProjectPatch {
    pub base_branch: Option<Option<String>>,
    pub pinned: Option<bool>,
}

/// What is wrong with the body of an update.
pub open spec fn patch_error(body: JsonV) -> Option<(Seq<char>, Seq<char>)> {
    let base = member(body, "default_base_branch"@);
    let pinned = member(body, "pinned"@);
    if base is Some && !(base->0 is Null) && !(base->0 is Text) {
        Some(("bad_field"@, "default_base_branch must be a string or null"@))
    } else if pinned is Some && !(pinned->0 is Bool) {
        Some(("bad_field"@, "pinned must be a boolean"@))
    } else if base is None && pinned is None {
        Some(("no_fields"@, "provide at least one of: default_base_branch, pinned"@))
    } else {
        None
    }
}

impl ProjectPatch {
    /// Whether this is the change that a body asks for. A key that is absent is told from one that
    /// is `null`.
    pub open spec fn read_from(&self, body: JsonV) -> bool {
        &&& match (member(body, "default_base_branch"@), self.base_branch) {
            (None, None) => true,
            (Some(JsonV::Null), Some(None)) => true,
            (Some(JsonV::Text(s)), Some(Some(t))) => s == t@,
            _ => false,
        }
        &&& match (member(body, "pinned"@), self.pinned) {
            (None, None) => true,
            (Some(JsonV::Bool(a)), Some(b)) => a == b,
            _ => false,
        }
    }
}

/// Reads the body of an update.
pub fn parse_project_patch(body: &Json) -> (r: Result<ProjectPatch, (&'static str, &'static str)>)
    ensures
        match r {
            Ok(p) => patch_error(body@) is None && p.read_from(body@),
            Err((e, m)) => patch_error(body@) == Some((e@, m@)),
        },
{
    let base_branch = match body.get("default_base_branch") {
        None => None,
        Some(v) => match v {
            Json::Null => Some(None),
            Json::Text(s) => Some(Some(s.clone())),
            _ => {
                return Err(("bad_field", "default_base_branch must be a string or null"));
            },
        },
    };
    let pinned = match body.get("pinned") {
        None => None,
        Some(v) => match v {
            Json::Bool(b) => Some(*b),
            _ => {
                return Err(("bad_field", "pinned must be a boolean"));
            },
        },
    };
    if base_branch.is_none() && pinned.is_none() {
        return Err(("no_fields", "provide at least one of: default_base_branch, pinned"));
    }
    Ok(ProjectPatch { base_branch, pinned })
}

/// A change that is let through always changes something.
pub proof fn law_patch_is_never_empty(p: ProjectPatch, body: JsonV)
    requires
        patch_error(body) is None,
        p.read_from(body),
    ensures
        p.base_branch is Some || p.pinned is Some,
{
}

/// The base branch is cleared only where the body says so.
pub proof fn law_patch_clears_only_on_null(p: ProjectPatch, body: JsonV)
    requires
        p.read_from(body),
        p.base_branch == Some(None::<String>),
    ensures
        member(body, "default_base_branch"@) == Some(JsonV::Null),
{
}

/// A change of a project that was let through to the registry.
#[derive(Debug)]
pub struct UpdateOrder {
    pub scope: ProjectScope,
    pub patch: ProjectPatch,
}

/// What an update comes to: the client mode and a read-only server come first, then the body, the
/// scope and the fields.
pub open spec fn update_outcome(
    r: Result<UpdateOrder, ApiReply>,
    blocked: Option<ApiReply>,
    read_only: bool,
    body: Result<Json, ApiReply>,
    scope: Option<Seq<char>>,
) -> bool {
    match blocked {
        Some(b) => r == Err::<UpdateOrder, ApiReply>(b),
        None => if read_only {
            r matches Err(e) && e.is(403, read_only_refusal())
        } else {
            match body {
                Err(b) => r == Err::<UpdateOrder, ApiReply>(b),
                Ok(body) => match named_scope(scope) {
                    None => r matches Err(e) && e.is(
                        400,
                        refusal("bad_scope"@, bad_scope_words(scope->0, "'global' or 'profile'."@)),
                    ),
                    Some(s) => match patch_error(body@) {
                        Some((error, message)) => r matches Err(e) && e.is(400, refusal(error, message)),
                        None => r matches Ok(o) && o.scope == s && o.patch.read_from(body@),
                    },
                },
            }
        },
    }
}

/// Decides on an update.
pub fn update_project(
    blocked: Option<ApiReply>,
    read_only: bool,
    body: Result<Json, ApiReply>,
    q: &DeleteQuery,
) -> (r: Result<UpdateOrder, ApiReply>)
    ensures
        update_outcome(r, blocked, read_only, body, text_of(q.scope)),
{
    match write_gate(blocked, read_only) {
        Ok(_) => {},
        Err(e) => {
            return Err(e);
        },
    }
    let body = match body {
        Ok(b) => b,
        Err(e) => {
            return Err(e);
        },
    };
    let scope = match parse_scope(&q.scope) {
        Ok(s) => s,
        Err(e) => {
            return Err(e);
        },
    };
    match parse_project_patch(&body) {
        Ok(patch) => Ok(UpdateOrder { scope, patch }),
        Err((error, message)) => Err(ApiReply::refused(400, error, message)),
    }
}

/// Whether the pin is set after the base branch: not where that failed, so that its error is the
/// one that is answered.
pub fn sets_pin(patch: &ProjectPatch, base: &Option<Result<Project, RegistryError>>) -> (r: bool)
    ensures
        r == (patch.pinned is Some && !(base matches Some(Err(_)))),
{
    let failed = match base {
        Some(Err(_)) => true,
        _ => false,
    };
    patch.pinned.is_some() && !failed
}

/// The answer to an update that reached the registry: that of the last change that was tried.
/// `base` is what setting the base branch came to, `pin` what setting the pin came to.
pub fn update_reply(base: Option<Result<Project, RegistryError>>, pin: Option<Result<Project, RegistryError>>) -> (r:
    ApiReply)
    requires
        base is Some || pin is Some,
    ensures
        registry_reply(
            if pin is Some {
                pin->0
            } else {
                base->0
            },
            200,
            "update_failed"@,
            r,
        ),
{
    match pin {
        Some(result) => reply_to(result, 200, "update_failed"),
        None => match base {
            Some(result) => reply_to(result, 200, "update_failed"),
            None => ApiReply { status: 200, body: Json::Null },
        },
    }
}

} // verus!
