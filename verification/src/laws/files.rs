//! What is written down, and read again: the report on agents, the launch of a daemon, the files of a
//! server, the numbers of events.

use vstd::prelude::*;

use crate::acp::{AcpAgentCapability, AcpCapabilitiesResponse, ApprovalClass, CatalogStatus};
use crate::acp_wire::{agent_documents, law_answer_round_trips, mode_documents, model_documents, same_agent};
use crate::daemon::print_status;
use crate::events::{
    count_reply, discriminant_of, ensure_discriminant_column, from_stored, highest_reply, lowest_reply, reply_views,
    row_views, scan_reply, to_stored, Schema,
};
use crate::json::{member, Json, JsonV};
use crate::launch_file::{all_texts, law_launch_round_trips, read_serve_launch, texts_in, write_serve_launch};
use crate::profile_config::{get_profile_config_path, profile_has_overrides, ProfileConfig};
use crate::serve::{
    launch_needs_passphrase, pid_file_path, serve_launch_exists, serve_launch_path, stale_files, stdio_redirect_path,
    AuthMode, ServeLaunch,
};
use crate::session_service::SessionService;
use crate::session::{lemma_find_session, Instance};
use crate::text::{cut, find_char, lemma_find_char, lemma_index_in, text_of, texts};
use crate::turns::clear_pending_turn;

verus! {

/// What a class is called.
pub open spec fn class_word(c: ApprovalClass) -> Seq<char> {
    match c {
        ApprovalClass::Interactive => "interactive"@,
        ApprovalClass::Guarded => "guarded"@,
        ApprovalClass::Unattended => "unattended"@,
    }
}

proof fn lemma_report_names()
    ensures
        "id"@ != "display_name"@ && "id"@ != "catalog_status"@ && "id"@ != "models"@ && "id"@ != "modes"@,
        "id"@ != "approval_class"@ && "display_name"@ != "approval_class"@,
        "display_name"@ != "catalog_status"@ && "display_name"@ != "models"@ && "display_name"@ != "modes"@,
        "catalog_status"@ != "models"@ && "catalog_status"@ != "modes"@ && "models"@ != "modes"@,
        "catalog_updated_at"@.len() == 18,
        "id"@.len() == 2 && "display_name"@.len() == 12 && "catalog_status"@.len() == 14 && "models"@.len() == 6
            && "modes"@.len() == 5 && "approval_class"@.len() == 14,
{
    reveal_strlit("id");
    reveal_strlit("display_name");
    reveal_strlit("catalog_status");
    reveal_strlit("catalog_updated_at");
    reveal_strlit("models");
    reveal_strlit("modes");
    reveal_strlit("approval_class");
    assert("id"@.len() == 2 && "display_name"@.len() == 12 && "catalog_status"@.len() == 14 && "models"@.len() == 6
        && "modes"@.len() == 5 && "approval_class"@.len() == 14 && "catalog_updated_at"@.len() == 18);
}

/// An agent is written with its parts under their names: the time only where there is one.
pub proof fn law_agent_is_written_by_name(a: &AcpAgentCapability, r: Json, i: int, j: int)
    requires
        call_ensures(AcpAgentCapability::to_json, (a,), r),
    ensures
        member(r@, "id"@) == Some(JsonV::Text(a.id@)),
        member(r@, "display_name"@) == Some(JsonV::Text(a.display_name@)),
        member(r@, "catalog_status"@) == Some(
            JsonV::Text(
                if a.catalog_status == CatalogStatus::Discovered {
                    "discovered"@
                } else {
                    "undiscovered"@
                },
            ),
        ),
        a.catalog_updated_at is None ==> member(r@, "catalog_updated_at"@) is None,
        a.catalog_updated_at matches Some(t) ==> member(r@, "catalog_updated_at"@) == Some(JsonV::Text(t@)),
        member(r@, "models"@) matches Some(JsonV::Array(m)) && m.len() == a.models@.len() && (0 <= i < m.len() ==> member(
            m[i],
            "id"@,
        ) == Some(JsonV::Text(a.models@[i].id@)) && member(m[i], "display_name"@) == Some(
            JsonV::Text(a.models@[i].display_name@),
        )),
        member(r@, "modes"@) matches Some(JsonV::Array(m)) && m.len() == a.modes@.len() && (0 <= j < m.len() ==> member(
            m[j],
            "id"@,
        ) == Some(JsonV::Text(a.modes@[j].id@)) && member(m[j], "display_name"@) == Some(
            JsonV::Text(a.modes@[j].display_name@),
        ) && member(m[j], "approval_class"@) == Some(JsonV::Text(class_word(a.modes@[j].approval_class)))),
{
    lemma_report_names();
    let models = model_documents(a.models@);
    let modes = mode_documents(a.modes@);
    assert(member(r@, "models"@) == Some(JsonV::Array(models)));
    assert(member(r@, "modes"@) == Some(JsonV::Array(modes)));
}

/// The report on agents is a list of them under its name, and reads back as it was written.
pub proof fn law_report_is_read_back(
    a: &AcpCapabilitiesResponse,
    r: Json,
    back: Option<AcpCapabilitiesResponse>,
    i: int,
    one: Json,
)
    requires
        call_ensures(AcpCapabilitiesResponse::to_json, (a,), r),
        call_ensures(AcpCapabilitiesResponse::from_json, (&r,), back),
        0 <= i < a.agents@.len(),
        call_ensures(AcpAgentCapability::to_json, (&a.agents@[i],), one),
    ensures
        member(r@, "agents"@) matches Some(JsonV::Array(v)) && v.len() == a.agents@.len() && v[i] == one@,
        back matches Some(b) && b.agents@.len() == a.agents@.len() && same_agent(b.agents@[i], a.agents@[i]),
{
    let items = agent_documents(a.agents@);
    assert(member(r@, "agents"@) == Some(JsonV::Array(items)));
    lemma_reads_itself(*a);
    law_answer_round_trips(*a, *a);
    if let Some(b) = back {
        law_answer_round_trips(*a, b);
    }
}

proof fn lemma_reads_itself(a: AcpCapabilitiesResponse)
    ensures
        a.read_from(a.document()),
{
    lemma_report_names();
    reveal_strlit("interactive");
    reveal_strlit("guarded");
    reveal_strlit("unattended");
    reveal_strlit("undiscovered");
    reveal_strlit("discovered");
    assert("interactive"@.len() == 11 && "guarded"@.len() == 7 && "unattended"@.len() == 10 && "undiscovered"@.len()
        == 12 && "discovered"@.len() == 10);
    let items = agent_documents(a.agents@);
    assert(member(a.document(), "agents"@) == Some(JsonV::Array(items)));
    assert forall|i: int| 0 <= i < items.len() implies (#[trigger] a.agents@[i]).read_from(items[i]) by {
        let x = a.agents@[i];
        let v = x.document();
        let models = model_documents(x.models@);
        let modes = mode_documents(x.modes@);
        assert(member(v, "models"@) == Some(JsonV::Array(models)));
        assert(member(v, "modes"@) == Some(JsonV::Array(modes)));
        assert forall|k: int| 0 <= k < models.len() implies (#[trigger] x.models@[k]).read_from(models[k]) by {}
        assert forall|k: int| 0 <= k < modes.len() implies (#[trigger] x.modes@[k]).read_from(modes[k]) by {}
    }
}

/// Whether two launches are the same.
pub open spec fn same_launch(a: ServeLaunch, b: ServeLaunch) -> bool {
    &&& a.schema == b.schema && a.pid == b.pid && a.port == b.port && a.auth_mode == b.auth_mode
    &&& a.profile@ == b.profile@ && a.host@ == b.host@
    &&& a.behind_proxy == b.behind_proxy && a.read_only == b.read_only && a.remote == b.remote
    &&& text_of(a.tunnel_name) == text_of(b.tunnel_name) && text_of(a.tunnel_url) == text_of(b.tunnel_url)
    &&& a.no_tailscale == b.no_tailscale
    &&& texts(a.allowed_host@) == texts(b.allowed_host@) && texts(a.allowed_origin@) == texts(b.allowed_origin@)
}

/// The launch of a daemon that was written down is read back as it was.
pub proof fn law_launch_is_read_back(
    l: &ServeLaunch,
    path: &str,
    written: String,
    r: Result<ServeLaunch, String>,
    lost: Result<ServeLaunch, String>,
    why: String,
)
    requires
        call_ensures(write_serve_launch, (l,), written),
        call_ensures(read_serve_launch, (path, Ok(written)), r),
        call_ensures(read_serve_launch, (path, Err(why)), lost),
    ensures
        r matches Ok(m) && same_launch(m, *l),
        lost matches Err(e) && e@ == "reading "@ + path@,
{
    law_launch_round_trips(*l, path@, written, r);
}

/// The parts of a launch are read from an object by their names.
pub proof fn law_launch_is_read_by_name(v: &Json, l: ServeLaunch)
    requires
        call_ensures(ServeLaunch::from_json, (v,), Some(l)),
        v@ is Object,
    ensures
        member(v@, "schema"@) == Some(JsonV::Unsigned(l.schema as u64)),
        member(v@, "pid"@) == Some(JsonV::Unsigned(l.pid as u64)),
        member(v@, "profile"@) == Some(JsonV::Text(l.profile@)),
        member(v@, "host"@) == Some(JsonV::Text(l.host@)),
        member(v@, "port"@) == Some(JsonV::Unsigned(l.port as u64)),
        member(v@, "behind_proxy"@) == Some(JsonV::Bool(l.behind_proxy)),
        member(v@, "read_only"@) == Some(JsonV::Bool(l.read_only)),
        member(v@, "remote"@) == Some(JsonV::Bool(l.remote)),
        member(v@, "no_tailscale"@) == Some(JsonV::Bool(l.no_tailscale)),
        l.tunnel_name matches Some(t) ==> member(v@, "tunnel_name"@) == Some(JsonV::Text(t@)),
        l.tunnel_url matches Some(t) ==> member(v@, "tunnel_url"@) == Some(JsonV::Text(t@)),
        member(v@, "auth_mode"@) == Some(JsonV::Text("token"@)) ==> l.auth_mode == AuthMode::Token,
        member(v@, "auth_mode"@) == Some(JsonV::Text("passphrase"@)) ==> l.auth_mode == AuthMode::Passphrase,
        member(v@, "auth_mode"@) == Some(JsonV::Text("none"@)) ==> l.auth_mode == AuthMode::NoAuth,
        member(v@, "allowed_host"@) matches Some(JsonV::Array(s)) ==> s.len() == l.allowed_host@.len() && forall|
            i: int,
        |
            0 <= i < s.len() ==> #[trigger] s[i] == JsonV::Text(l.allowed_host@[i]@),
        member(v@, "allowed_origin"@) matches Some(JsonV::Array(s)) ==> s.len() == l.allowed_origin@.len() && forall|
            i: int,
        |
            0 <= i < s.len() ==> #[trigger] s[i] == JsonV::Text(l.allowed_origin@[i]@),
        member(v@, "allowed_host"@) is None ==> l.allowed_host@.len() == 0,
        member(v@, "allowed_origin"@) is None ==> l.allowed_origin@.len() == 0,
{
    reveal_strlit("token");
    reveal_strlit("passphrase");
    reveal_strlit("none");
    assert("token"@.len() == 5 && "passphrase"@.len() == 10 && "none"@.len() == 4);
    if let Some(JsonV::Array(s)) = member(v@, "allowed_host"@) {
        let t = texts(l.allowed_host@);
        assert(all_texts(s) && texts_in(s) == t);
        assert(texts_in(s).len() == s.len());
        assert forall|i: int| 0 <= i < s.len() implies #[trigger] s[i] == JsonV::Text(l.allowed_host@[i]@) by {
            assert(t[i] == l.allowed_host@[i]@);
            assert(texts_in(s)[i] == t[i]);
        }
    }
    if let Some(JsonV::Array(s)) = member(v@, "allowed_origin"@) {
        let t = texts(l.allowed_origin@);
        assert(all_texts(s) && texts_in(s) == t);
        assert(texts_in(s).len() == s.len());
        assert forall|i: int| 0 <= i < s.len() implies #[trigger] s[i] == JsonV::Text(l.allowed_origin@[i]@) by {
            assert(t[i] == l.allowed_origin@[i]@);
            assert(texts_in(s)[i] == t[i]);
        }
    }
    if member(v@, "allowed_host"@) is None {
        assert(texts(l.allowed_host@).len() == 0);
    }
    if member(v@, "allowed_origin"@) is None {
        assert(texts(l.allowed_origin@).len() == 0);
    }
}

/// The files of a server stand in one directory under their names, and all of them go with the server.
pub proof fn law_server_files(
    dir: &str,
    base: Seq<char>,
    pid: String,
    launch: String,
    stale: Vec<String>,
    log: String,
    named: &str,
    other: String,
)
    requires
        base.len() > 0 && base[base.len() - 1] != '/',
        dir@ == base,
        call_ensures(pid_file_path, (dir,), pid),
        call_ensures(serve_launch_path, (dir,), launch),
        call_ensures(stale_files, (dir,), stale),
        call_ensures(stdio_redirect_path, (dir, None), log),
        call_ensures(stdio_redirect_path, (dir, Some(named)), other),
    ensures
        pid@ == base + "/serve.pid"@,
        launch@ == base + "/serve.launch"@,
        stale@.len() == 5,
        stale@[0]@ == pid@ && stale@[4]@ == launch@,
        stale@[1]@ == base + "/serve.url"@,
        stale@[2]@ == base + "/serve.mode"@,
        stale@[3]@ == base + "/serve.passphrase"@,
        log@ == base + "/debug.log"@,
        named@.len() == 0 ==> other@ == log@,
        named@.len() > 0 && named@[0] == '/' ==> other@ == named@,
        named@.len() > 0 && named@[0] != '/' ==> other@ == base.push('/') + named@,
{
    reveal_strlit("/");
    reveal_strlit("serve.pid");
    reveal_strlit("/serve.pid");
    reveal_strlit("serve.launch");
    reveal_strlit("/serve.launch");
    reveal_strlit("serve.url");
    reveal_strlit("/serve.url");
    reveal_strlit("serve.mode");
    reveal_strlit("/serve.mode");
    reveal_strlit("serve.passphrase");
    reveal_strlit("/serve.passphrase");
    reveal_strlit("debug.log");
    reveal_strlit("/debug.log");
    assert("/"@ + "serve.pid"@ =~= "/serve.pid"@);
    assert("/"@ + "serve.launch"@ =~= "/serve.launch"@);
    assert("/"@ + "serve.url"@ =~= "/serve.url"@);
    assert("/"@ + "serve.mode"@ =~= "/serve.mode"@);
    assert("/"@ + "serve.passphrase"@ =~= "/serve.passphrase"@);
    assert("/"@ + "debug.log"@ =~= "/debug.log"@);
    assert(base + "/"@ + "serve.pid"@ =~= base + ("/"@ + "serve.pid"@));
    assert(base + "/"@ + "serve.launch"@ =~= base + ("/"@ + "serve.launch"@));
    assert(base + "/"@ + "serve.url"@ =~= base + ("/"@ + "serve.url"@));
    assert(base + "/"@ + "serve.mode"@ =~= base + ("/"@ + "serve.mode"@));
    assert(base + "/"@ + "serve.passphrase"@ =~= base + ("/"@ + "serve.passphrase"@));
    assert(base + "/"@ + "debug.log"@ =~= base + ("/"@ + "debug.log"@));
    assert(base + "/"@ =~= base.push('/'));
    let t = texts(stale@);
    assert(t.len() == 5);
    assert(t[0] == stale@[0]@ && t[1] == stale@[1]@ && t[2] == stale@[2]@ && t[3] == stale@[3]@ && t[4] == stale@[4]@);
}

/// A daemon takes a passphrase to be started again where it is reached through a tunnel or signs in by one.
pub proof fn law_passphrase_is_taken(l: &ServeLaunch, r: bool, there: Option<bool>, e: bool)
    requires
        call_ensures(launch_needs_passphrase, (l,), r),
        call_ensures(serve_launch_exists, (there,), e),
    ensures
        r <==> l.remote || l.auth_mode == AuthMode::Passphrase,
        e <==> there is Some && there->0,
{
}

/// The report on a daemon elsewhere says where it is and whether there is a token for it, and comes only
/// where it is reached.
pub proof fn law_daemon_elsewhere_is_reported(
    url: &str,
    has_token: bool,
    health: Result<(), String>,
    r: Result<Vec<String>, String>,
)
    requires
        call_ensures(print_status, (url, has_token, health), r),
    ensures
        r is Ok <==> health is Ok,
        r matches Ok(v) ==> v@.len() == 3 && v@[1]@ == "URL:    "@ + url@ && v@[2]@ == "Token:  "@ + (if has_token {
            "set"@
        } else {
            "unset"@
        }),
{
    if let Ok(v) = r {
        let t = texts(v@);
        assert(t.len() == 3);
        assert(t[1] == v@[1]@ && t[2] == v@[2]@);
    }
}

/// The number of an event is kept as it is where the column can hold it, every number is read back, and no
/// two are kept alike.
pub proof fn law_numbers_are_read_back(a: u64, b: u64, x: i64, y: i64, back: u64, c: i64, n: u64)
    requires
        call_ensures(to_stored, (a,), x),
        call_ensures(to_stored, (b,), y),
        call_ensures(from_stored, (x,), back),
        call_ensures(count_reply, (c,), n),
    ensures
        back == a,
        a <= i64::MAX ==> x == a,
        a != b ==> x != y,
        c >= 0 ==> n == c,
        c < 0 ==> n == 0,
{
}

/// The rows that the log replies come out in their order, each with its text and its number; the highest
/// number of a topic without events is zero, and it has no lowest.
pub proof fn law_replies_are_read(
    rows: &Vec<(i64, String)>,
    r: Vec<(u64, String)>,
    k: int,
    seq: u64,
    x: i64,
    high: u64,
    low: Option<u64>,
    no_high: u64,
    no_low: Option<u64>,
)
    requires
        call_ensures(scan_reply, (rows,), r),
        0 <= k < rows@.len(),
        call_ensures(to_stored, (seq,), x),
        call_ensures(highest_reply, (Some(x),), high),
        call_ensures(lowest_reply, (Some(x),), low),
        call_ensures(highest_reply, (None,), no_high),
        call_ensures(lowest_reply, (None,), no_low),
    ensures
        r@.len() == rows@.len(),
        r@[k].1@ == rows@[k].1@,
        rows@[k].0 == x ==> r@[k].0 == seq,
        high == seq && low == Some(seq),
        no_high == 0 && no_low is None,
{
    let a = reply_views(r@);
    let b = row_views(rows@);
    assert(a.len() == r@.len());
    assert(a[k] == (r@[k].0, r@[k].1@));
    assert(b[k] == (rows@[k].0, rows@[k].1@));
}

/// The variant of an event is what stands between its first two quotation marks.
pub proof fn law_variant_is_between_quotes(json: &str, r: String, a: Seq<char>, name: Seq<char>, rest: Seq<char>)
    requires
        call_ensures(discriminant_of, (json,), r),
        json@ == a.push('"') + (name.push('"') + rest),
        forall|k: int| 0 <= k < a.len() ==> #[trigger] a[k] != '"',
        forall|k: int| 0 <= k < name.len() ==> #[trigger] name[k] != '"',
    ensures
        r@ == name,
{
    lemma_cut(a, name.push('"') + rest, '"');
    lemma_cut(name, rest, '"');
}

proof fn lemma_cut(a: Seq<char>, b: Seq<char>, c: char)
    requires
        forall|k: int| 0 <= k < a.len() ==> #[trigger] a[k] != c,
    ensures
        cut(a.push(c) + b, c) == Some((a, b)),
{
    let s = a.push(c) + b;
    lemma_find_char(s, c);
    assert(s[a.len() as int] == c);
    assert forall|k: int| 0 <= k < a.len() implies s[k] != c by {
        assert(s[k] == a[k]);
    }
    let i = find_char(s, c)->0;
    assert(i == a.len());
    assert(s.take(i) =~= a);
    assert(s.skip(i + 1) =~= b);
}

/// The configuration of a profile is a file in its directory, and it sets something where it has a
/// description or an override.
pub proof fn law_profile_file(dir: &str, r: String, p: &ProfileConfig, sets: bool, k: Seq<char>)
    requires
        dir@.len() > 0 && dir@[dir@.len() - 1] != '/',
        call_ensures(get_profile_config_path, (dir,), r),
        call_ensures(profile_has_overrides, (p,), sets),
    ensures
        r@ == dir@ + "/config.toml"@,
        p.description is Some ==> sets,
        p.overrides@.dom().contains(k) ==> sets,
        p.description is None && sets ==> exists|x: Seq<char>| #[trigger] p.overrides@.dom().contains(x),
{
    reveal_strlit("/");
    reveal_strlit("config.toml");
    reveal_strlit("/config.toml");
    assert("/"@ + "config.toml"@ =~= "/config.toml"@);
    assert(dir@ + "/"@ + "config.toml"@ =~= dir@ + ("/"@ + "config.toml"@));
    if p.overrides@.dom().contains(k) {
        assert(!Map::<Seq<char>, JsonV>::empty().dom().contains(k));
    }
    if !(exists|x: Seq<char>| #[trigger] p.overrides@.dom().contains(x)) {
        assert(p.overrides@ =~= Map::<Seq<char>, JsonV>::empty());
    }
}

/// A first turn that was delivered is gone from its session, and nothing else changes.
pub proof fn law_delivered_turn_is_gone(s: &mut Vec<Instance>, id: &str, r: (), k: int)
    requires
        call_ensures(clear_pending_turn, (s, id), r),
        0 <= k < old(s)@.len(),
    ensures
        final(s)@.len() == old(s)@.len(),
        old(s)@[k].id@ != id@ ==> final(s)@[k] == old(s)@[k],
        final(s)@[k].id@ == old(s)@[k].id@,
        final(s)@[k].agent_model == old(s)@[k].agent_model,
        old(s)@[k].id@ == id@ && (forall|j: int| 0 <= j < k ==> (#[trigger] old(s)@[j]).id@ != id@)
            ==> final(s)@[k].pending_initial_turn is None,
{
    lemma_find_session(old(s)@, id@);
}

/// The column of variants is added and filled only where the table has none, and the index on it is made in
/// any case, last.
pub proof fn law_column_is_added_once(schema: &Schema, n: i64, there: Vec<String>, missing: Vec<String>, none: Vec<String>)
    requires
        n > 0,
        call_ensures(ensure_discriminant_column, (schema, Some(n)), there),
        call_ensures(ensure_discriminant_column, (schema, Some(0i64)), missing),
        call_ensures(ensure_discriminant_column, (schema, None), none),
    ensures
        there@.len() == 1,
        missing@.len() == 2,
        missing@[1]@ == there@[0]@,
        texts(none@) == texts(missing@),
        missing@[0]@ != there@[0]@,
{
    let t = texts(there@);
    let m = texts(missing@);
    assert(t.len() == 1 && m.len() == 2);
    assert(t[0] == there@[0]@ && m[0] == missing@[0]@ && m[1] == missing@[1]@);
    reveal_strlit("BEGIN; ALTER TABLE ");
    reveal_strlit("CREATE INDEX IF NOT EXISTS idx_");
    assert("BEGIN; ALTER TABLE "@[0] == 'B' && "CREATE INDEX IF NOT EXISTS idx_"@[0] == 'C');
    assert(m[0][0] == 'B' && t[0][0] == 'C');
}

/// A session has one lock, and keeps it; two sessions have two.
pub proof fn law_locks_are_by_session(
    s: &mut SessionService,
    t: &mut SessionService,
    id: &str,
    other: &str,
    a: usize,
    b: usize,
)
    requires
        call_ensures(SessionService::instance_lock, (s, id), a),
        *old(t) == *final(s),
        call_ensures(SessionService::instance_lock, (t, other), b),
    ensures
        id@ == other@ <==> a == b,
        final(s).instances == old(s).instances,
        final(s).pending_drains == old(s).pending_drains,
        final(s).create_in_flight == old(s).create_in_flight,
{
    let x = texts(final(s).instance_locks@);
    let y = texts(final(t).instance_locks@);
    lemma_index_in(x, id@);
    lemma_index_in(y, other@);
    lemma_index_in(x, other@);
    assert(x[a as int] == id@);
    assert(y[a as int] == x[a as int]);
    if id@ == other@ {
        assert(x =~= y);
    }
}

} // verus!
