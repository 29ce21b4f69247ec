//! The plugin worker protocol: JSON-RPC 2.0, one object per line.

pub mod codes;

use vstd::prelude::*;
use vstd::utf8::encode_utf8;

use crate::decode::{invalid_type, invalid_type_words};
use crate::json::{
    array_view, json_of, json_read, lemma_array_view, member, owned_json_of, read_json, read_result, writable,
    Json, JsonV,
};
use crate::ordered::{
    all_keys_differ, keys_differ, lemma_parts_text_in_braces, member_views, object_of, part_values, part_views,
    parts_text, write_parts, Part, PartV,
};
use crate::text::{blank, decimal, is_empty, join3, same, show, text_of, trim, trimmed};

verus! {

/// A request of a worker. Its parts are optional, so that every JSON object is a request; the
/// envelope is validated apart from that.
#[derive(Debug, Clone)]
pub struct RpcRequest {
    pub jsonrpc: Option<String>,
    pub id: Option<Json>,
    pub method: Option<String>,
    pub params: Json,
}

/// A part of a request that has to be a text; absent where it is anything else.
pub open spec fn text_part(o: Option<JsonV>) -> Option<Seq<char>> {
    match o {
        Some(JsonV::Text(s)) => Some(s),
        _ => None,
    }
}

/// A part of a request that may be any value; absent where it is `null`.
pub open spec fn value_part(o: Option<JsonV>) -> Option<JsonV> {
    match o {
        Some(JsonV::Null) => None,
        other => other,
    }
}

impl RpcRequest {
    /// Whether this is the request with the given parts.
    pub open spec fn has_parts(
        &self,
        jsonrpc: Option<JsonV>,
        id: Option<JsonV>,
        method: Option<JsonV>,
        params: Option<JsonV>,
    ) -> bool {
        &&& text_of(self.jsonrpc) == text_part(jsonrpc)
        &&& owned_json_of(self.id) == value_part(id)
        &&& text_of(self.method) == text_part(method)
        &&& self.params@ == match params {
            Some(v) => v,
            None => JsonV::Null,
        }
    }

    /// Whether this is the request that a JSON value writes, by name in an object or by place in
    /// an array.
    pub open spec fn is_written_by(&self, v: JsonV) -> bool {
        match v {
            JsonV::Object(_) => self.has_parts(
                member(v, "jsonrpc"@),
                member(v, "id"@),
                member(v, "method"@),
                member(v, "params"@),
            ),
            JsonV::Array(s) => self.has_parts(place(s, 0), place(s, 1), place(s, 2), place(s, 3)),
            _ => false,
        }
    }

    /// Whether the request asks for no answer: it has no id.
    pub fn is_notification(&self) -> (r: bool)
        ensures
            r == (self.id is None),
    {
        self.id.is_none()
    }

    /// The method, where the envelope is that of JSON-RPC 2.0.
    pub open spec fn envelope(&self) -> Result<Seq<char>, Seq<char>> {
        if text_of(self.jsonrpc) != Some("2.0"@) {
            Err("jsonrpc field must be \"2.0\""@)
        } else if self.method is None || self.method->0@.len() == 0 {
            Err("missing or empty \"method\""@)
        } else {
            Ok(self.method->0@)
        }
    }

    /// Validates the envelope and gives the method.
    pub fn validate_envelope(&self) -> (r: Result<&str, &'static str>)
        ensures
            match r {
                Ok(m) => self.envelope() == Ok::<Seq<char>, Seq<char>>(m@),
                Err(e) => self.envelope() == Err::<Seq<char>, Seq<char>>(e@),
            },
    {
        let versioned = match &self.jsonrpc {
            Some(v) => same(v.as_str(), "2.0"),
            None => false,
        };
        if !versioned {
            return Err("jsonrpc field must be \"2.0\"");
        }
        match &self.method {
            Some(m) => if is_empty(m.as_str()) {
                Err("missing or empty \"method\"")
            } else {
                Ok(m.as_str())
            },
            None => Err("missing or empty \"method\""),
        }
    }
}

/// The item at a place of an array.
pub open spec fn place(s: Seq<JsonV>, i: int) -> Option<JsonV> {
    if 0 <= i < s.len() {
        Some(s[i])
    } else {
        None
    }
}

/// Whether a part of an array may stand for a text: it is one, `null` or not there.
pub open spec fn may_be_text(o: Option<JsonV>) -> bool {
    o is None || o->0 is Null || o->0 is Text
}

/// Whether a JSON value writes a request: an object, or an array of no more than its parts, those
/// that are texts in their places.
pub open spec fn writes_request(v: JsonV) -> bool {
    match v {
        JsonV::Object(_) => true,
        JsonV::Array(s) => s.len() <= 4 && may_be_text(place(s, 0)) && may_be_text(place(s, 2)),
        _ => false,
    }
}

fn text_of_part(o: Option<&Json>) -> (r: Option<String>)
    ensures
        text_of(r) == text_part(json_of(o)),
{
    match o {
        Some(v) => match v.as_str() {
            Some(s) => Some(s.to_owned()),
            None => None,
        },
        None => None,
    }
}

fn value_of_part(o: Option<&Json>) -> (r: Option<Json>)
    ensures
        owned_json_of(r) == value_part(json_of(o)),
{
    match o {
        Some(v) => if v.is_null() {
            None
        } else {
            Some(v.clone())
        },
        None => None,
    }
}

fn item_at(items: &Vec<Json>, i: usize) -> (r: Option<&Json>)
    ensures
        json_of(r) == place(array_view(items@), i as int),
{
    proof {
        lemma_array_view(items@);
    }
    if i < items.len() {
        Some(&items[i])
    } else {
        None
    }
}

fn request_from_parts(jsonrpc: Option<&Json>, id: Option<&Json>, method: Option<&Json>, params: Option<&Json>) -> (r:
    RpcRequest)
    ensures
        r.has_parts(json_of(jsonrpc), json_of(id), json_of(method), json_of(params)),
{
    RpcRequest {
        jsonrpc: text_of_part(jsonrpc),
        id: value_of_part(id),
        method: text_of_part(method),
        params: match params {
            Some(v) => v.clone(),
            None => Json::Null,
        },
    }
}

fn is_text_or_null(o: Option<&Json>) -> (r: bool)
    ensures
        r == may_be_text(json_of(o)),
{
    match o {
        Some(Json::Null) => true,
        Some(Json::Text(_)) => true,
        Some(_) => false,
        None => true,
    }
}

/// The request that a JSON value writes, where it writes one.
pub fn request_of(v: &Json) -> (r: Option<RpcRequest>)
    ensures
        match r {
            Some(q) => writes_request(v@) && q.is_written_by(v@),
            None => !writes_request(v@),
        },
{
    broadcast use lemma_array_view;

    match v {
        Json::Object(m) => {
            Some(request_from_parts(m.get("jsonrpc"), m.get("id"), m.get("method"), m.get("params")))
        },
        Json::Array(items) => {
            assert(v@ == JsonV::Array(array_view(items@)));
            if items.len() <= 4 && is_text_or_null(item_at(items, 0)) && is_text_or_null(item_at(items, 2)) {
                Some(
                    request_from_parts(
                        item_at(items, 0),
                        item_at(items, 1),
                        item_at(items, 2),
                        item_at(items, 3),
                    ),
                )
            } else {
                None
            }
        },
        _ => None,
    }
}

/// Why a text is not read as an array of the four parts of a request; `None` where it is.
pub uninterp spec fn parts_refusal(text: Seq<char>) -> Option<Seq<char>>;

/// Calls `serde_json::from_str` for a tuple of the four parts of a request, and gives the words of its
/// error. A text that reads as an array is refused where it has more items, or another value in the
/// place of a text. What the words are is left to the name `parts_refusal`.
#[verifier::external_body]
fn refuse_parts(text: &str) -> (r: Option<String>)
    ensures
        text_of(r) == parts_refusal(text@),
        json_read(text@) matches Ok(v) ==> v is Array && !writes_request(v) ==> r is Some,
{
    serde_json::from_str::<(Option<String>, Option<serde_json::Value>, Option<String>, serde_json::Value)>(text)
        .err().map(|e| e.to_string())
}

/// The words about a line that is JSON and no request. `t` is the line, `v` what it reads as, and
/// `parts` why it is no array of the parts.
pub open spec fn refusal(t: Seq<char>, v: JsonV, parts: Option<Seq<char>>) -> Option<Seq<char>> {
    match v {
        JsonV::Array(_) => parts,
        _ => Some(
            invalid_type(v, "struct RpcRequest"@) + " at line 1 column "@ + decimal(encode_utf8(t).len()),
        ),
    }
}

/// What a line that reads as a value comes to. `parts` is why it is no array of the parts of a request;
/// it counts only for an array that writes none.
pub fn request_outcome(t: &str, v: &Json, parts: Option<String>) -> (r: Result<RpcRequest, Option<String>>)
    ensures
        if writes_request(v@) {
            r matches Ok(q) && q.is_written_by(v@)
        } else {
            r matches Err(e) && text_of(e) == refusal(t@, v@, text_of(parts))
        },
{
    match request_of(v) {
        Some(q) => Ok(q),
        None => match v {
            Json::Array(_) => Err(parts),
            _ => Err(
                Some(
                    join3(
                        invalid_type_words(v, "struct RpcRequest").as_str(),
                        " at line 1 column ",
                        show(t.as_bytes().len() as u64).as_str(),
                    ),
                ),
            ),
        },
    }
}

/// Reads one line as a request. A blank line holds none; a line that is not JSON is an error.
pub fn parse_request(line: &str) -> (r: Result<Option<RpcRequest>, String>)
    ensures
        if trimmed(line@).len() == 0 {
            r matches Ok(None)
        } else {
            match json_read(trimmed(line@)) {
                Err(e) => r matches Err(f) && f@ == e,
                Ok(v) => if writes_request(v) {
                    r matches Ok(Some(q)) && q.is_written_by(v)
                } else {
                    r matches Err(f) && Some(f@) == refusal(trimmed(line@), v, parts_refusal(trimmed(line@)))
                },
            }
        },
{
    let t = trim(line);
    if is_empty(t.as_str()) {
        return Ok(None);
    }
    let read = read_json(t.as_str());
    assert(read_result(read) == json_read(trimmed(line@)));
    match read {
        Err(e) => Err(e),
        Ok(v) => {
            let parts = match &v {
                Json::Array(_) => refuse_parts(t.as_str()),
                _ => None,
            };
            match request_outcome(t.as_str(), &v, parts) {
                Ok(q) => Ok(Some(q)),
                Err(Some(e)) => Err(e),
                Err(None) => Err(blank()),
            }
        },
    }
}

/// A JSON-RPC error. The `kind` in its data is what programs go by; the message is prose.
#[derive(Debug, Clone)]
pub struct RpcError {
    pub code: i64,
    pub message: String,
    pub data: Option<Json>,
}

/// An answer to a worker: a result or an error.
#[derive(Debug, Clone)]
pub struct RpcResponse {
    pub jsonrpc: &'static str,
    pub id: Json,
    pub result: Option<Json>,
    pub error: Option<RpcError>,
}

/// An integer as JSON.
pub open spec fn integer(n: i64) -> JsonV {
    if n < 0 {
        JsonV::Negative(n)
    } else {
        JsonV::Unsigned(n as u64)
    }
}

/// An integer as JSON.
pub fn integer_json(n: i64) -> (r: Json)
    ensures
        r@ == integer(n),
{
    if n < 0 {
        Json::Negative(n)
    } else {
        Json::Unsigned(n as u64)
    }
}

/// A map with a member added where there is a value for it.
pub open spec fn with_some(m: Map<Seq<char>, JsonV>, k: Seq<char>, o: Option<JsonV>) -> Map<Seq<char>, JsonV> {
    match o {
        Some(v) => m.insert(k, v),
        None => m,
    }
}

impl RpcError {
    /// The JSON object of the error.
    pub open spec fn document(&self) -> JsonV {
        JsonV::Object(
            with_some(
                Map::empty().insert("code"@, integer(self.code)).insert("message"@, JsonV::Text(self.message@)),
                "data"@,
                owned_json_of(self.data),
            ),
        )
    }

    /// The members of the error, in the order in which they are written.
    pub open spec fn members(&self) -> Seq<(Seq<char>, JsonV)> {
        let m = seq![("code"@, integer(self.code)), ("message"@, JsonV::Text(self.message@))];
        match owned_json_of(self.data) {
            Some(d) => m.push(("data"@, d)),
            None => m,
        }
    }

    fn to_members(&self) -> (r: Vec<(String, Json)>)
        ensures
            member_views(r@) == self.members(),
    {
        let mut m: Vec<(String, Json)> = Vec::new();
        m.push(("code".to_owned(), integer_json(self.code)));
        m.push(("message".to_owned(), Json::Text(self.message.clone())));
        if let Some(d) = &self.data {
            m.push(("data".to_owned(), d.clone()));
        }
        assert(member_views(m@) =~= self.members());
        m
    }
}

impl RpcResponse {
    /// Whether the answer is a well-formed one: of version 2.0, with either a result or an error.
    pub open spec fn wf(&self) -> bool {
        self.jsonrpc@ == "2.0"@ && (self.result is Some) != (self.error is Some)
    }

    /// The JSON object of the answer.
    pub open spec fn document(&self) -> JsonV {
        JsonV::Object(
            with_some(
                with_some(
                    Map::empty().insert("jsonrpc"@, JsonV::Text(self.jsonrpc@)).insert("id"@, self.id@),
                    "result"@,
                    owned_json_of(self.result),
                ),
                "error"@,
                match self.error {
                    Some(e) => Some(e.document()),
                    None => None,
                },
            ),
        )
    }

    /// The answer with a result.
    pub fn success(id: Json, result: Json) -> (r: RpcResponse)
        ensures
            r.wf(),
            r.id@ == id@,
            owned_json_of(r.result) == Some(result@),
    {
        RpcResponse { jsonrpc: "2.0", id, result: Some(result), error: None }
    }

    /// The answer with an error.
    pub fn error(id: Json, code: i64, message: &str) -> (r: RpcResponse)
        ensures
            r.wf(),
            r.id@ == id@,
            r.error matches Some(e) && e.code == code && e.message@ == message@ && e.data is None,
    {
        RpcResponse::error_with_data(id, code, message, None)
    }

    /// The answer with an error that carries data.
    pub fn error_with_data(id: Json, code: i64, message: &str, data: Option<Json>) -> (r: RpcResponse)
        ensures
            r.wf(),
            r.id@ == id@,
            r.error matches Some(e) && e.code == code && e.message@ == message@ && e.data == data,
    {
        RpcResponse {
            jsonrpc: "2.0",
            id,
            result: None,
            error: Some(RpcError { code, message: message.to_owned(), data }),
        }
    }

    /// The members of the answer, in the order in which they are written.
    pub open spec fn parts(&self) -> Seq<(Seq<char>, PartV)> {
        let head = seq![
            ("jsonrpc"@, PartV::Value(JsonV::Text(self.jsonrpc@))),
            ("id"@, PartV::Value(self.id@)),
        ];
        let with_result = match owned_json_of(self.result) {
            Some(v) => head.push(("result"@, PartV::Value(v))),
            None => head,
        };
        match self.error {
            Some(e) => with_result.push(("error"@, PartV::Members(e.members()))),
            None => with_result,
        }
    }

    fn to_parts(&self) -> (r: Vec<(String, Part)>)
        ensures
            part_views(r@) == self.parts(),
    {
        let mut m: Vec<(String, Part)> = Vec::new();
        m.push(("jsonrpc".to_owned(), Part::Value(Json::Text(self.jsonrpc.to_owned()))));
        m.push(("id".to_owned(), Part::Value(self.id.clone())));
        if let Some(v) = &self.result {
            m.push(("result".to_owned(), Part::Value(v.clone())));
        }
        if let Some(e) = &self.error {
            m.push(("error".to_owned(), Part::Members(e.to_members())));
        }
        assert(part_views(m@) =~= self.parts());
        m
    }

    /// The answer as one line, its members in their order. Without its line break, which is the only
    /// one, it reads as the answer's JSON object.
    pub fn to_line(&self) -> (r: String)
        ensures
            r@ == parts_text(self.parts()).push('\n'),
            !parts_text(self.parts()).contains('\n'),
            writable(self.document()) ==> json_read(trimmed(r@)) == Ok::<JsonV, Seq<char>>(self.document()),
    {
        let mut line = write_parts(&self.to_parts());
        let ghost body = line@;
        line.push('\n');
        proof {
            lemma_response_parts(*self);
            lemma_parts_text_in_braces(self.parts());
            assert(line@.drop_last() =~= body);
            assert(line@[0] == '{' && line@.last() == '\n' && body.last() == '}');
            crate::text::lemma_trim_line(body);
        }
        line
    }
}

proof fn lemma_error_members(e: RpcError)
    ensures
        keys_differ(e.members()),
        JsonV::Object(object_of(e.members())) == e.document(),
{
    reveal_strlit("code");
    reveal_strlit("message");
    reveal_strlit("data");
    assert("code"@.len() == 4 && "message"@.len() == 7 && "data"@.len() == 4);
    assert("code"@[0] == 'c' && "data"@[0] == 'd');
    reveal_with_fuel(object_of, 4);
    let m = e.members();
    let head = seq![("code"@, integer(e.code)), ("message"@, JsonV::Text(e.message@))];
    assert(head.drop_last() =~= seq![("code"@, integer(e.code))]);
    assert(head.drop_last().drop_last() =~= Seq::empty());
    if e.data is Some {
        assert(m.drop_last() =~= head);
    }
}

proof fn lemma_response_parts(r: RpcResponse)
    ensures
        all_keys_differ(r.parts()),
        JsonV::Object(object_of(part_values(r.parts()))) == r.document(),
{
    reveal_strlit("result");
    reveal_strlit("error");
    reveal_strlit("jsonrpc");
    reveal_strlit("id");
    assert("id"@.len() == 2 && "error"@.len() == 5 && "result"@.len() == 6 && "jsonrpc"@.len() == 7);
    reveal_with_fuel(object_of, 5);
    if let Some(e) = r.error {
        lemma_error_members(e);
    }
    let p = part_values(r.parts());
    let head = seq![("jsonrpc"@, JsonV::Text(r.jsonrpc@)), ("id"@, r.id@)];
    assert(head.drop_last() =~= seq![("jsonrpc"@, JsonV::Text(r.jsonrpc@))]);
    assert(head.drop_last().drop_last() =~= Seq::empty());
    let with_result = match owned_json_of(r.result) {
        Some(v) => head.push(("result"@, v)),
        None => head,
    };
    assert(r.result is Some ==> with_result.drop_last() =~= head);
    match r.error {
        Some(e) => {
            assert(p =~= with_result.push(("error"@, e.document())));
            assert(p.drop_last() =~= with_result);
        },
        None => {
            assert(p =~= with_result);
        },
    }
}

/// An answer has a result or an error, and its JSON object has the member for the one and not
/// for the other.
pub proof fn law_response_has_one_outcome(r: RpcResponse)
    requires
        r.wf(),
    ensures
        (member(r.document(), "result"@) is Some) != (member(r.document(), "error"@) is Some),
        member(r.document(), "jsonrpc"@) == Some(JsonV::Text("2.0"@)),
        member(r.document(), "id"@) == Some(r.id@),
{
    reveal_strlit("result");
    reveal_strlit("error");
    reveal_strlit("jsonrpc");
    reveal_strlit("id");
    assert("id"@.len() == 2 && "error"@.len() == 5 && "result"@.len() == 6 && "jsonrpc"@.len() == 7);
}

} // verus!
