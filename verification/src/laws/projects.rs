//! The project registry's web interface: what is asked of the registry and how it is answered.

use vstd::prelude::*;

use crate::json::{lemma_array_view, member, Json, JsonV};
use crate::laws::create::{kept, said};
use crate::projects::{
    add_reply, create_project, delete_project, last_part, list_projects, list_reply, parse_project_patch, path_parts,
    project_document, project_documents, remove_reply, sets_pin, update_project, update_reply, AddOrder, ApiReply,
    CreateProjectBody, DeleteQuery, ListQuery, ListSource, Project, ProjectPatch, ProjectScope, RegistryError,
    UpdateOrder,
};
use crate::text::{joined, lemma_split_joined, text_of};

verus! {

broadcast use lemma_array_view;

proof fn lemma_scope_names()
    ensures
        "global"@.len() == 6,
        "profile"@.len() == 7,
{
    reveal_strlit("global");
    reveal_strlit("profile");
}

proof fn lemma_body_names()
    ensures
        "error"@.len() == 5 && "error"@[0] == 'e',
        "message"@.len() == 7,
        "name"@.len() == 4 && "name"@[0] == 'n',
        "path"@.len() == 4 && "path"@[0] == 'p',
        "scope"@.len() == 5 && "scope"@[0] == 's',
        "pinned"@.len() == 6,
        "default_base_branch"@.len() == 19,
{
    reveal_strlit("error");
    reveal_strlit("message");
    reveal_strlit("name");
    reveal_strlit("path");
    reveal_strlit("scope");
    reveal_strlit("pinned");
    reveal_strlit("default_base_branch");
}

/// Whether an answer refuses with a status and an error that programs go by.
pub open spec fn refuses(r: ApiReply, status: int, error: Seq<char>) -> bool {
    r.status == status && said(r.body@, "error"@) == Some(error) && said(r.body@, "message"@) is Some
}

/// Whether a body is a project as it is answered.
pub open spec fn shows(v: JsonV, p: Project) -> bool {
    &&& said(v, "name"@) == Some(p.name@)
    &&& said(v, "path"@) == Some(p.path@)
    &&& said(v, "scope"@) == Some(
        if p.scope == ProjectScope::Global {
            "global"@
        } else {
            "profile"@
        },
    )
    &&& said(v, "default_base_branch"@) == text_of(p.default_base_branch)
    &&& v is Object && v->Object_0.contains_key("pinned"@) && v->Object_0["pinned"@] == JsonV::Bool(p.pinned)
    &&& p.default_base_branch is None ==> !v->Object_0.contains_key("default_base_branch"@)
}

proof fn lemma_shows(p: Project)
    ensures
        shows(project_document(p), p),
{
    lemma_body_names();
}

/// A list is that of the scope that a query names, or of both where it names none; another scope is
/// refused.
pub proof fn law_list_is_of_its_scope(q: &ListQuery, r: Result<ListSource, ApiReply>)
    requires
        call_ensures(list_projects, (q,), r),
    ensures
        q.scope is None ==> r is Ok && r->Ok_0 == ListSource::Merged,
        q.scope matches Some(s) ==> {
            &&& s@ == "global"@ ==> r is Ok && r->Ok_0 == ListSource::Global
            &&& s@ == "profile"@ ==> r is Ok && r->Ok_0 == ListSource::Profile
            &&& s@ != "global"@ && s@ != "profile"@ ==> r is Err && refuses(r->Err_0, 400, "bad_scope"@)
        },
{
    lemma_scope_names();
    lemma_body_names();
}

/// A list is answered with its projects in their order, and a failure with its words.
pub proof fn law_list_is_answered(result: Result<Vec<Project>, String>, r: ApiReply, i: int)
    requires
        call_ensures(list_reply, (result,), r),
    ensures
        result matches Ok(list) ==> {
            &&& r.status == 200
            &&& r.body@ is Array && r.body@->Array_0.len() == list@.len()
            &&& 0 <= i < list@.len() ==> shows(r.body@->Array_0[i], list@[i])
        },
        result matches Err(e) ==> refuses(r, 500, "load_failed"@) && said(r.body@, "message"@) == Some(e@),
{
    lemma_body_names();
    if let Ok(list) = result {
        if 0 <= i < list@.len() {
            lemma_shows(list@[i]);
            assert(project_documents(list@)[i] == project_document(list@[i]));
        }
    }
}

/// The scope that a request names; the global one where it names none.
pub open spec fn scope_asked(scope: Option<String>) -> Option<ProjectScope> {
    if scope is None || scope->0@ == "global"@ {
        Some(ProjectScope::Global)
    } else if scope->0@ == "profile"@ {
        Some(ProjectScope::Profile)
    } else {
        None
    }
}

/// A project is registered exactly where changes are let through, its body can be read, its scope is one,
/// and a directory is at its path. It is then registered as the body says: under the name given, or the
/// last part of the path, or `project`; with the base branch given, without blanks around it.
pub proof fn law_project_is_registered(
    blocked: Option<ApiReply>,
    read_only: bool,
    body: Result<CreateProjectBody, ApiReply>,
    canonical: &str,
    is_dir: bool,
    last: Option<String>,
    r: Result<AddOrder, ApiReply>,
)
    requires
        call_ensures(last_part, (canonical,), last),
        call_ensures(create_project, (blocked, read_only, body, canonical, is_dir), r),
    ensures
        r is Ok <==> blocked is None && !read_only && body is Ok && scope_asked(body->Ok_0.scope) is Some && is_dir,
        r matches Ok(o) ==> {
            let b = body->Ok_0;
            &&& o.scope == scope_asked(b.scope)->0
            &&& o.project.scope == scope_asked(b.scope)->0
            &&& o.allow_override == b.allow_override
            &&& o.project.path@ == canonical@
            &&& o.project.pinned == b.pinned
            &&& text_of(o.project.default_base_branch) == kept(text_of(b.default_base_branch))
            &&& b.name is Some ==> o.project.name@ == b.name->0@
            &&& b.name is None && last is Some ==> o.project.name@ == last->0@
            &&& b.name is None && last is None ==> o.project.name@ == "project"@
        },
        blocked is Some ==> r == Err::<AddOrder, ApiReply>(blocked->0),
        blocked is None && read_only ==> refuses(r->Err_0, 403, "read_only"@),
        blocked is None && !read_only && body is Err ==> r == Err::<AddOrder, ApiReply>(body->Err_0),
        blocked is None && !read_only && body is Ok && scope_asked(body->Ok_0.scope) is None ==> refuses(
            r->Err_0,
            400,
            "bad_scope"@,
        ),
        blocked is None && !read_only && body is Ok && scope_asked(body->Ok_0.scope) is Some && !is_dir ==> refuses(
            r->Err_0,
            400,
            "not_a_directory"@,
        ),
{
    lemma_scope_names();
    lemma_body_names();
}

proof fn lemma_path_parts(parts: Seq<Seq<char>>, i: int)
    requires
        0 <= i < parts.len(),
        parts[i].len() > 0,
        parts[i] != "."@,
        forall|j: int| i < j < parts.len() ==> (#[trigger] parts[j]).len() == 0 || parts[j] == "."@,
    ensures
        path_parts(parts).len() > 0,
        path_parts(parts).last() == parts[i],
    decreases parts.len(),
{
    if i < parts.len() - 1 {
        let front = parts.drop_last();
        assert(parts[parts.len() - 1].len() == 0 || parts[parts.len() - 1] == "."@);
        assert forall|j: int| i < j < front.len() implies (#[trigger] front[j]).len() == 0 || front[j] == "."@ by {
            assert(front[j] == parts[j]);
        }
        lemma_path_parts(front, i);
    }
}

/// The last part of a path is the last between its slashes that is neither empty nor a dot; a path that
/// ends in a step upwards has none.
pub proof fn law_last_part_of_path(path: &str, parts: Seq<Seq<char>>, i: int, r: Option<String>)
    requires
        forall|j: int| 0 <= j < parts.len() ==> !(#[trigger] parts[j]).contains('/'),
        path@ == joined(parts, seq!['/']),
        0 <= i < parts.len(),
        parts[i].len() > 0,
        parts[i] != "."@,
        forall|j: int| i < j < parts.len() ==> (#[trigger] parts[j]).len() == 0 || parts[j] == "."@,
        call_ensures(last_part, (path,), r),
    ensures
        parts[i] != ".."@ ==> r is Some && r->0@ == parts[i],
        parts[i] == ".."@ ==> r is None,
{
    lemma_split_joined(parts, '/');
    lemma_path_parts(parts, i);
}

/// What the registry said is answered with the project, or by why it refused.
pub proof fn law_registry_is_answered(
    result: Result<Project, RegistryError>,
    added: ApiReply,
    removed: ApiReply,
)
    requires
        call_ensures(add_reply, (result,), added),
        call_ensures(remove_reply, (result,), removed),
    ensures
        result matches Ok(p) ==> added.status == 201 && shows(added.body@, p) && removed.status == 200 && shows(
            removed.body@,
            p,
        ),
        result matches Err(RegistryError::Conflict(m)) ==> refuses(added, 409, "conflict"@) && refuses(
            removed,
            409,
            "conflict"@,
        ) && said(added.body@, "message"@) == Some(m@),
        result matches Err(RegistryError::NotFound(m)) ==> refuses(added, 404, "not_found"@) && refuses(
            removed,
            404,
            "not_found"@,
        ) && said(removed.body@, "message"@) == Some(m@),
        result matches Err(RegistryError::Other(m)) ==> refuses(added, 500, "add_failed"@) && refuses(
            removed,
            500,
            "remove_failed"@,
        ),
{
    lemma_body_names();
    if let Ok(p) = result {
        lemma_shows(p);
    }
}

/// A project is removed from the scope that is named, exactly where changes are let through and the scope
/// is one.
pub proof fn law_project_is_removed(
    blocked: Option<ApiReply>,
    read_only: bool,
    q: &DeleteQuery,
    r: Result<ProjectScope, ApiReply>,
)
    requires
        call_ensures(delete_project, (blocked, read_only, q), r),
    ensures
        r is Ok <==> blocked is None && !read_only && scope_asked(q.scope) is Some,
        r is Ok ==> r->Ok_0 == scope_asked(q.scope)->0,
        blocked is Some ==> r == Err::<ProjectScope, ApiReply>(blocked->0),
        blocked is None && read_only ==> refuses(r->Err_0, 403, "read_only"@),
        blocked is None && !read_only && scope_asked(q.scope) is None ==> refuses(r->Err_0, 400, "bad_scope"@),
{
    lemma_scope_names();
    lemma_body_names();
}

/// What an object has under a key, if anything.
pub open spec fn under_key(v: JsonV, k: Seq<char>) -> Option<JsonV> {
    match v {
        JsonV::Object(m) => if m.contains_key(k) {
            Some(m[k])
        } else {
            None
        },
        _ => None,
    }
}

/// Whether the body of an update asks for a change: a base branch that is a text or `null`, a pin that is
/// one or the other, and at least one of the two.
pub open spec fn asks_for_change(v: JsonV) -> bool {
    let base = under_key(v, "default_base_branch"@);
    let pin = under_key(v, "pinned"@);
    &&& base is None || base->0 is Null || base->0 is Text
    &&& pin is None || pin->0 is Bool
    &&& base is Some || pin is Some
}

/// A change is read from its body exactly where it asks for one: a base branch is set to its text, cleared
/// by `null` and left where it is not named, and so is the pin.
pub proof fn law_change_is_read(body: &Json, r: Result<ProjectPatch, (&'static str, &'static str)>)
    requires
        call_ensures(parse_project_patch, (body,), r),
    ensures
        r is Ok <==> asks_for_change(body@),
        r matches Ok(p) ==> {
            let base = under_key(body@, "default_base_branch"@);
            let pin = under_key(body@, "pinned"@);
            &&& p.base_branch is None <==> base is None
            &&& base == Some(JsonV::Null) ==> p.base_branch == Some(None::<String>)
            &&& base is Some && base->0 is Text ==> p.base_branch->0 is Some && p.base_branch->0->0@ == base->0->Text_0
            &&& p.pinned is None <==> pin is None
            &&& pin is Some ==> p.pinned == Some(pin->0->Bool_0)
        },
        r matches Err((e, m)) ==> e@ == "bad_field"@ || e@ == "no_fields"@,
{
    assert(member(body@, "default_base_branch"@) == under_key(body@, "default_base_branch"@));
    assert(member(body@, "pinned"@) == under_key(body@, "pinned"@));
}

/// An update reaches the registry exactly where changes are let through, the scope is one and the body
/// asks for a change. The pin is set after the base branch, and not where that failed; the last change
/// that was tried is answered.
pub proof fn law_project_is_updated(
    blocked: Option<ApiReply>,
    read_only: bool,
    body: Result<Json, ApiReply>,
    q: &DeleteQuery,
    r: Result<UpdateOrder, ApiReply>,
    patch: &ProjectPatch,
    base: Option<Result<Project, RegistryError>>,
    pins: bool,
    pin: Option<Result<Project, RegistryError>>,
    reply: ApiReply,
)
    requires
        call_ensures(update_project, (blocked, read_only, body, q), r),
        call_ensures(sets_pin, (patch, &base), pins),
        base is Some || pin is Some,
        call_ensures(update_reply, (base, pin), reply),
    ensures
        r is Ok <==> blocked is None && !read_only && body is Ok && scope_asked(q.scope) is Some && asks_for_change(
            body->Ok_0@,
        ),
        r is Ok ==> r->Ok_0.scope == scope_asked(q.scope)->0,
        blocked is Some ==> r == Err::<UpdateOrder, ApiReply>(blocked->0),
        blocked is None && read_only ==> refuses(r->Err_0, 403, "read_only"@),
        pins <==> patch.pinned is Some && !(base is Some && base->0 is Err),
        pin matches Some(Ok(p)) ==> reply.status == 200 && shows(reply.body@, p),
        pin is None && (base matches Some(Ok(p)) && true) ==> reply.status == 200 && shows(reply.body@, base->0->Ok_0),
        pin matches Some(Err(RegistryError::NotFound(m))) ==> refuses(reply, 404, "not_found"@),
        pin matches Some(Err(RegistryError::Other(m))) ==> refuses(reply, 500, "update_failed"@),
{
    lemma_scope_names();
    lemma_body_names();
    if let Some(Ok(p)) = pin {
        lemma_shows(p);
    }
    if let Some(Ok(p)) = base {
        lemma_shows(p);
    }
    if let Ok(b) = body {
        assert(member(b@, "default_base_branch"@) == under_key(b@, "default_base_branch"@));
        assert(member(b@, "pinned"@) == under_key(b@, "pinned"@));
    }
}

} // verus!
