//! The file that a daemon's launch is kept in.

use vstd::prelude::*;

use crate::acp_wire::{by_name, get_name, get_text, is_optional_text, name_at, optional_text, text_at, to_object};
use crate::fields::values::{list_to_json, text_array};
use crate::json::{
    array_view, exact, json_read, lemma_array_view, member, nested_within, read_json, read_result,
    reads_as, text, text_or_null, unmarked, writable, Json, JsonV,
};
use crate::ordered::{
    keys_differ, lemma_object_of_take, member_views, members_written_pretty, object_of, write_members_pretty,
};
use crate::serve::{AuthMode, ServeLaunch};
use crate::text::{join2, text_of, texts};

verus! {

broadcast use lemma_array_view;

/// A number of an object, where it is within a bound.
pub open spec fn number_at(v: JsonV, k: Seq<char>, max: int) -> Option<int> {
    match member(v, k) {
        Some(JsonV::Unsigned(n)) => if n <= max {
            Some(n as int)
        } else {
            None
        },
        _ => None,
    }
}

fn get_number(v: &Json, k: &str, max: u64) -> (r: Option<u64>)
    ensures
        match r {
            Some(n) => number_at(v@, k@, max as int) == Some(n as int) && n <= max,
            None => number_at(v@, k@, max as int) is None,
        },
{
    match v.get(k) {
        Some(m) => match m.as_u64() {
            Some(n) => if n <= max {
                Some(n)
            } else {
                None
            },
            None => None,
        },
        None => None,
    }
}

/// A truth value of an object.
pub open spec fn truth_at(v: JsonV, k: Seq<char>) -> Option<bool> {
    match member(v, k) {
        Some(JsonV::Bool(b)) => Some(b),
        _ => None,
    }
}

fn get_truth(v: &Json, k: &str) -> (r: Option<bool>)
    ensures
        r == truth_at(v@, k@),
{
    match v.get(k) {
        Some(m) => m.as_bool(),
        None => None,
    }
}

/// Whether every item is a text.
pub open spec fn all_texts(s: Seq<JsonV>) -> bool {
    forall|i: int| 0 <= i < s.len() ==> (#[trigger] s[i]) is Text
}

/// The texts of an array.
pub open spec fn texts_in(s: Seq<JsonV>) -> Seq<Seq<char>> {
    Seq::new(s.len(), |i: int| s[i]->Text_0)
}

/// The list of texts of an object; an empty one where it is absent.
pub open spec fn list_at(v: JsonV, k: Seq<char>) -> Option<Seq<Seq<char>>> {
    match member(v, k) {
        None => Some(Seq::empty()),
        Some(JsonV::Array(s)) => if all_texts(s) {
            Some(texts_in(s))
        } else {
            None
        },
        _ => None,
    }
}

fn get_list(v: &Json, k: &str) -> (r: Option<Vec<String>>)
    ensures
        match r {
            Some(l) => list_at(v@, k@) == Some(texts(l@)),
            None => list_at(v@, k@) is None,
        },
{
    let items = match v.get(k) {
        None => {
            let out: Vec<String> = Vec::new();
            assert(texts(out@) =~= Seq::<Seq<char>>::empty());
            return Some(out);
        },
        Some(m) => match m.as_array() {
            Some(items) => items,
            None => {
                return None;
            },
        },
    };
    let ghost views = array_view(items@);
    let mut out: Vec<String> = Vec::new();
    let mut i: usize = 0;
    while i < items.len()
        invariant
            i <= items@.len(),
            views == array_view(items@),
            member(v@, k@) == Some(JsonV::Array(views)),
            out@.len() == i,
            forall|j: int| 0 <= j < i ==> (#[trigger] views[j]) is Text && out@[j]@ == views[j]->Text_0,
        decreases items@.len() - i,
    {
        assert(views[i as int] == items@[i as int]@);
        match items[i].as_str() {
            Some(s) => {
                out.push(s.to_owned());
            },
            None => {
                assert(!(views[i as int] is Text));
                return None;
            },
        }
        i = i + 1;
    }
    assert(texts(out@) =~= texts_in(views));
    Some(out)
}

/// The mode that an object names.
pub open spec fn auth_at(v: JsonV, k: Seq<char>) -> Option<AuthMode> {
    match name_at(v, k) {
        Some(s) => AuthMode::named(s),
        None => None,
    }
}

fn get_auth(v: &Json, k: &str) -> (r: Option<AuthMode>)
    ensures
        r == auth_at(v@, k@),
{
    match get_name(v, k) {
        Some(s) => AuthMode::from_cli_str(s.as_str()),
        None => None,
    }
}

/// The names of the parts of a launch, in their order.
pub open spec fn launch_names() -> Seq<Seq<char>> {
    seq![
        "schema"@,
        "pid"@,
        "profile"@,
        "host"@,
        "port"@,
        "auth_mode"@,
        "behind_proxy"@,
        "read_only"@,
        "remote"@,
        "tunnel_name"@,
        "tunnel_url"@,
        "no_tailscale"@,
        "allowed_host"@,
        "allowed_origin"@,
    ]
}

impl ServeLaunch {
    /// The JSON object of a launch.
    pub open spec fn document(&self) -> JsonV {
        JsonV::Object(
            Map::empty().insert("schema"@, JsonV::Unsigned(self.schema as u64)).insert(
                "pid"@,
                JsonV::Unsigned(self.pid as u64),
            ).insert("profile"@, JsonV::Text(self.profile@)).insert("host"@, JsonV::Text(self.host@)).insert(
                "port"@,
                JsonV::Unsigned(self.port as u64),
            ).insert("auth_mode"@, JsonV::Text(self.auth_mode.cli_name())).insert(
                "behind_proxy"@,
                JsonV::Bool(self.behind_proxy),
            ).insert("read_only"@, JsonV::Bool(self.read_only)).insert("remote"@, JsonV::Bool(self.remote)).insert(
                "tunnel_name"@,
                text_or_null(text_of(self.tunnel_name)),
            ).insert("tunnel_url"@, text_or_null(text_of(self.tunnel_url))).insert(
                "no_tailscale"@,
                JsonV::Bool(self.no_tailscale),
            ).insert("allowed_host"@, text_array(texts(self.allowed_host@))).insert(
                "allowed_origin"@,
                text_array(texts(self.allowed_origin@)),
            ),
        )
    }

    /// The members of a launch, in the order in which they are written.
    pub open spec fn members(&self) -> Seq<(Seq<char>, JsonV)> {
        seq![
            ("schema"@, JsonV::Unsigned(self.schema as u64)),
            ("pid"@, JsonV::Unsigned(self.pid as u64)),
            ("profile"@, JsonV::Text(self.profile@)),
            ("host"@, JsonV::Text(self.host@)),
            ("port"@, JsonV::Unsigned(self.port as u64)),
            ("auth_mode"@, JsonV::Text(self.auth_mode.cli_name())),
            ("behind_proxy"@, JsonV::Bool(self.behind_proxy)),
            ("read_only"@, JsonV::Bool(self.read_only)),
            ("remote"@, JsonV::Bool(self.remote)),
            ("tunnel_name"@, text_or_null(text_of(self.tunnel_name))),
            ("tunnel_url"@, text_or_null(text_of(self.tunnel_url))),
            ("no_tailscale"@, JsonV::Bool(self.no_tailscale)),
            ("allowed_host"@, text_array(texts(self.allowed_host@))),
            ("allowed_origin"@, text_array(texts(self.allowed_origin@))),
        ]
    }

    fn to_members(&self) -> (r: Vec<(String, Json)>)
        ensures
            member_views(r@) == self.members(),
    {
        let mut m: Vec<(String, Json)> = Vec::new();
        m.push(("schema".to_owned(), Json::Unsigned(self.schema as u64)));
        m.push(("pid".to_owned(), Json::Unsigned(self.pid as u64)));
        m.push(("profile".to_owned(), text(self.profile.as_str())));
        m.push(("host".to_owned(), text(self.host.as_str())));
        m.push(("port".to_owned(), Json::Unsigned(self.port as u64)));
        m.push(("auth_mode".to_owned(), text(self.auth_mode.as_cli_str())));
        m.push(("behind_proxy".to_owned(), Json::Bool(self.behind_proxy)));
        m.push(("read_only".to_owned(), Json::Bool(self.read_only)));
        m.push(("remote".to_owned(), Json::Bool(self.remote)));
        m.push(("tunnel_name".to_owned(), optional_json(&self.tunnel_name)));
        m.push(("tunnel_url".to_owned(), optional_json(&self.tunnel_url)));
        m.push(("no_tailscale".to_owned(), Json::Bool(self.no_tailscale)));
        m.push(("allowed_host".to_owned(), list_to_json(&self.allowed_host)));
        m.push(("allowed_origin".to_owned(), list_to_json(&self.allowed_origin)));
        assert(member_views(m@) =~= self.members());
        m
    }

    /// Whether a value writes a launch: an object, or an array of its parts. The allowed hosts and
    /// origins may be left out.
    pub open spec fn readable(v: JsonV) -> bool {
        let o = by_name(v, launch_names(), 12);
        &&& number_at(o, "schema"@, u32::MAX as int) is Some
        &&& number_at(o, "pid"@, u32::MAX as int) is Some
        &&& text_at(o, "profile"@) is Some
        &&& text_at(o, "host"@) is Some
        &&& number_at(o, "port"@, u16::MAX as int) is Some
        &&& auth_at(o, "auth_mode"@) is Some
        &&& truth_at(o, "behind_proxy"@) is Some
        &&& truth_at(o, "read_only"@) is Some
        &&& truth_at(o, "remote"@) is Some
        &&& optional_text(o, "tunnel_name"@)
        &&& optional_text(o, "tunnel_url"@)
        &&& truth_at(o, "no_tailscale"@) is Some
        &&& list_at(o, "allowed_host"@) is Some
        &&& list_at(o, "allowed_origin"@) is Some
    }

    /// Whether this is the launch that a value writes.
    pub open spec fn read_from(&self, v: JsonV) -> bool {
        let o = by_name(v, launch_names(), 12);
        &&& number_at(o, "schema"@, u32::MAX as int) == Some(self.schema as int)
        &&& number_at(o, "pid"@, u32::MAX as int) == Some(self.pid as int)
        &&& text_at(o, "profile"@) == Some(self.profile@)
        &&& text_at(o, "host"@) == Some(self.host@)
        &&& number_at(o, "port"@, u16::MAX as int) == Some(self.port as int)
        &&& auth_at(o, "auth_mode"@) == Some(self.auth_mode)
        &&& truth_at(o, "behind_proxy"@) == Some(self.behind_proxy)
        &&& truth_at(o, "read_only"@) == Some(self.read_only)
        &&& truth_at(o, "remote"@) == Some(self.remote)
        &&& text_at(o, "tunnel_name"@) == text_of(self.tunnel_name)
        &&& text_at(o, "tunnel_url"@) == text_of(self.tunnel_url)
        &&& truth_at(o, "no_tailscale"@) == Some(self.no_tailscale)
        &&& list_at(o, "allowed_host"@) == Some(texts(self.allowed_host@))
        &&& list_at(o, "allowed_origin"@) == Some(texts(self.allowed_origin@))
    }

    /// The launch that a value writes.
    pub fn from_json(v: &Json) -> (r: Option<ServeLaunch>)
        ensures
            match r {
                Some(l) => Self::readable(v@) && l.read_from(v@),
                None => !Self::readable(v@),
            },
    {
        let names = vec![
            "schema".to_owned(),
            "pid".to_owned(),
            "profile".to_owned(),
            "host".to_owned(),
            "port".to_owned(),
            "auth_mode".to_owned(),
            "behind_proxy".to_owned(),
            "read_only".to_owned(),
            "remote".to_owned(),
            "tunnel_name".to_owned(),
            "tunnel_url".to_owned(),
            "no_tailscale".to_owned(),
            "allowed_host".to_owned(),
            "allowed_origin".to_owned(),
        ];
        assert(texts(names@) =~= launch_names());
        let o = to_object(v, &names, 12);
        if !is_optional_text(&o, "tunnel_name") || !is_optional_text(&o, "tunnel_url") {
            return None;
        }
        let (schema, pid, port) = match (
            get_number(&o, "schema", 0xFFFF_FFFF),
            get_number(&o, "pid", 0xFFFF_FFFF),
            get_number(&o, "port", 0xFFFF),
        ) {
            (Some(a), Some(b), Some(c)) => (a as u32, b as u32, c as u16),
            _ => {
                return None;
            },
        };
        let (profile, host, auth_mode) = match (
            get_text(&o, "profile"),
            get_text(&o, "host"),
            get_auth(&o, "auth_mode"),
        ) {
            (Some(a), Some(b), Some(c)) => (a, b, c),
            _ => {
                return None;
            },
        };
        let (behind_proxy, read_only, remote, no_tailscale) = match (
            get_truth(&o, "behind_proxy"),
            get_truth(&o, "read_only"),
            get_truth(&o, "remote"),
            get_truth(&o, "no_tailscale"),
        ) {
            (Some(a), Some(b), Some(c), Some(d)) => (a, b, c, d),
            _ => {
                return None;
            },
        };
        match (get_list(&o, "allowed_host"), get_list(&o, "allowed_origin")) {
            (Some(allowed_host), Some(allowed_origin)) => Some(
                ServeLaunch {
                    schema,
                    pid,
                    profile,
                    host,
                    port,
                    auth_mode,
                    behind_proxy,
                    read_only,
                    remote,
                    tunnel_name: get_text(&o, "tunnel_name"),
                    tunnel_url: get_text(&o, "tunnel_url"),
                    no_tailscale,
                    allowed_host,
                    allowed_origin,
                },
            ),
            _ => None,
        }
    }
}

fn optional_json(o: &Option<String>) -> (r: Json)
    ensures
        r@ == text_or_null(text_of(*o)),
{
    match o {
        Some(s) => Json::Text(s.clone()),
        None => Json::Null,
    }
}

/// A flat value is one that can be nested in an object that is written.
spec fn flat(v: JsonV) -> bool {
    match v {
        JsonV::Array(s) => all_texts(s),
        JsonV::Object(_) => false,
        JsonV::Float(_) => false,
        JsonV::Negative(_) => false,
        _ => true,
    }
}

proof fn lemma_flat_is_writable(m: Map<Seq<char>, JsonV>)
    requires
        m.dom().finite(),
        forall|k: Seq<char>| #[trigger] m.contains_key(k) ==> flat(m[k]),
        !m.contains_key("$serde_json::private::RawValue"@),
    ensures
        writable(JsonV::Object(m)),
{
    assert forall|k: Seq<char>| #[trigger] m.contains_key(k) implies exact(m[k]) && unmarked(m[k])
        && nested_within(m[k], 126) by {
        assert(flat(m[k]));
        if let JsonV::Array(s) = m[k] {
            assert forall|i: int| 0 <= i < s.len() implies exact(#[trigger] s[i]) && unmarked(s[i])
                && nested_within(s[i], 125) by {
                assert(s[i] is Text);
            }
        }
    }
}

proof fn lemma_launch_is_writable(l: ServeLaunch)
    ensures
        writable(l.document()),
{
    let m = l.document()->Object_0;
    assert forall|k: Seq<char>| #[trigger] m.contains_key(k) implies flat(m[k]) by {}
    lemma_launch_names_differ();
    reveal_strlit("$serde_json::private::RawValue");
    assert("$serde_json::private::RawValue"@.len() == 30);
    lemma_flat_is_writable(m);
}

/// The members of a launch make up its object, and no key stands twice among them.
proof fn lemma_launch_members(l: ServeLaunch)
    ensures
        keys_differ(l.members()),
        JsonV::Object(object_of(l.members())) == l.document(),
{
    lemma_launch_names_differ();
    let s = l.members();
    assert(s.take(0) =~= Seq::empty());
    assert(s.take(14) =~= s);
    lemma_object_of_take(s, 0);
    lemma_object_of_take(s, 1);
    lemma_object_of_take(s, 2);
    lemma_object_of_take(s, 3);
    lemma_object_of_take(s, 4);
    lemma_object_of_take(s, 5);
    lemma_object_of_take(s, 6);
    lemma_object_of_take(s, 7);
    lemma_object_of_take(s, 8);
    lemma_object_of_take(s, 9);
    lemma_object_of_take(s, 10);
    lemma_object_of_take(s, 11);
    lemma_object_of_take(s, 12);
    lemma_object_of_take(s, 13);
}

/// The text that a launch is kept as, its members in their order. Read again, it gives the launch's
/// JSON object.
pub fn write_serve_launch(state: &ServeLaunch) -> (r: String)
    ensures
        r@ == members_written_pretty(state.members()),
        reads_as(r@, state.document()),
{
    proof {
        lemma_launch_is_writable(*state);
        lemma_launch_members(*state);
    }
    write_members_pretty(&state.to_members())
}

/// What reading a kept launch comes to. The errors name the file.
pub open spec fn launch_outcome(r: Result<ServeLaunch, String>, path: Seq<char>, raw: Result<String, String>) -> bool {
    match raw {
        Err(_) => r matches Err(e) && e@ == "reading "@ + path,
        Ok(s) => match json_read(s@) {
            Ok(v) => if ServeLaunch::readable(v) {
                r matches Ok(l) && l.read_from(v)
            } else {
                r matches Err(e) && e@ == "parsing "@ + path
            },
            Err(_) => r matches Err(e) && e@ == "parsing "@ + path,
        },
    }
}

/// Reads a kept launch. `raw` is what the file holds, or why it could not be read.
pub fn read_serve_launch(path: &str, raw: Result<String, String>) -> (r: Result<ServeLaunch, String>)
    ensures
        launch_outcome(r, path@, raw),
{
    match raw {
        Err(_) => Err(join2("reading ", path)),
        Ok(s) => {
            let read = read_json(s.as_str());
            assert(read_result(read) == json_read(s@));
            match read {
                Ok(v) => match ServeLaunch::from_json(&v) {
                    Some(l) => Ok(l),
                    None => Err(join2("parsing ", path)),
                },
                Err(_) => Err(join2("parsing ", path)),
            }
        },
    }
}

proof fn lemma_launch_names_differ()
    ensures
        "schema"@ != "remote"@,
        "schema"@.len() == 6,
        "pid"@.len() == 3,
        "profile"@.len() == 7,
        "host"@.len() == 4,
        "port"@.len() == 4,
        "host"@ != "port"@,
        "auth_mode"@.len() == 9,
        "behind_proxy"@.len() == 12,
        "read_only"@.len() == 9,
        "auth_mode"@ != "read_only"@,
        "remote"@.len() == 6,
        "tunnel_name"@.len() == 11,
        "tunnel_url"@.len() == 10,
        "no_tailscale"@.len() == 12,
        "allowed_host"@.len() == 12,
        "behind_proxy"@ != "no_tailscale"@,
        "behind_proxy"@ != "allowed_host"@,
        "no_tailscale"@ != "allowed_host"@,
        "allowed_origin"@.len() == 14,
{
    reveal_strlit("schema");
    reveal_strlit("pid");
    reveal_strlit("profile");
    reveal_strlit("host");
    reveal_strlit("port");
    reveal_strlit("auth_mode");
    reveal_strlit("behind_proxy");
    reveal_strlit("read_only");
    reveal_strlit("remote");
    reveal_strlit("tunnel_name");
    reveal_strlit("tunnel_url");
    reveal_strlit("no_tailscale");
    reveal_strlit("allowed_host");
    reveal_strlit("allowed_origin");
    assert("schema"@[0] != "remote"@[0]);
    assert("host"@[0] != "port"@[0]);
    assert("auth_mode"@[0] != "read_only"@[0]);
    assert("behind_proxy"@[0] != "no_tailscale"@[0]);
    assert("behind_proxy"@[0] != "allowed_host"@[0]);
    assert("no_tailscale"@[0] != "allowed_host"@[0]);
}

/// What is read from the file that a launch was written to is that launch.
pub proof fn law_launch_round_trips(l: ServeLaunch, path: Seq<char>, raw: String, r: Result<ServeLaunch, String>)
    requires
        reads_as(raw@, l.document()),
        launch_outcome(r, path, Ok(raw)),
    ensures
        r matches Ok(m) && m.schema == l.schema && m.pid == l.pid && m.profile@ == l.profile@ && m.host@ == l.host@
            && m.port == l.port && m.auth_mode == l.auth_mode && m.behind_proxy == l.behind_proxy && m.read_only
            == l.read_only && m.remote == l.remote && text_of(m.tunnel_name) == text_of(l.tunnel_name) && text_of(
            m.tunnel_url,
        ) == text_of(l.tunnel_url) && m.no_tailscale == l.no_tailscale && texts(m.allowed_host@) == texts(
            l.allowed_host@,
        ) && texts(m.allowed_origin@) == texts(l.allowed_origin@),
{
    lemma_launch_names_differ();
    crate::serve::law_auth_mode_name_round_trips(l.auth_mode);
    let v = l.document();
    let hosts = text_array(texts(l.allowed_host@))->Array_0;
    let origins = text_array(texts(l.allowed_origin@))->Array_0;
    assert(member(v, "allowed_host"@) == Some(JsonV::Array(hosts)));
    assert(member(v, "allowed_origin"@) == Some(JsonV::Array(origins)));
    assert(all_texts(hosts));
    assert(all_texts(origins));
    assert(texts_in(hosts) =~= texts(l.allowed_host@));
    assert(texts_in(origins) =~= texts(l.allowed_origin@));
    assert(ServeLaunch::readable(v));
}

} // verus!
