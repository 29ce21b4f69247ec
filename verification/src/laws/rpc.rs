//! The worker protocol: requests are read as they are written, and answers say one thing.

use vstd::prelude::*;

use crate::json::{json_read, writable, Json, JsonV};
use crate::laws::create::said;
use crate::laws::projects::under_key;
use crate::protocol::{codes, parse_request, request_of, RpcRequest, RpcResponse};
use crate::text::{text_of, trimmed};

verus! {

/// An object is a request with the parts that it has under their names. Its id is missing where it is
/// `null`, and its parameters are `null` where they are missing.
pub proof fn law_request_is_read_by_name(v: &Json, r: Option<RpcRequest>)
    requires
        v@ is Object,
        call_ensures(request_of, (v,), r),
    ensures
        r is Some,
        text_of(r->0.jsonrpc) == said(v@, "jsonrpc"@),
        text_of(r->0.method) == said(v@, "method"@),
        under_key(v@, "params"@) is Some ==> r->0.params@ == under_key(v@, "params"@)->0,
        under_key(v@, "params"@) is None ==> r->0.params@ is Null,
        r->0.id is None <==> under_key(v@, "id"@) is None || under_key(v@, "id"@)->0 is Null,
        r->0.id is Some ==> r->0.id->0@ == under_key(v@, "id"@)->0,
{
}

/// A request is taken exactly where it is of version 2.0 and has a method that is not empty, and that is
/// the method.
pub proof fn law_envelope_is_checked(q: &RpcRequest, r: Result<&str, &'static str>, n: bool)
    requires
        call_ensures(RpcRequest::validate_envelope, (q,), r),
        call_ensures(RpcRequest::is_notification, (q,), n),
    ensures
        r is Ok <==> q.jsonrpc is Some && q.jsonrpc->0@ == "2.0"@ && q.method is Some && q.method->0@.len() > 0,
        r is Ok ==> r->Ok_0@ == q.method->0@,
        n <==> q.id is None,
{
}

/// An answer with a result has the id of its request and that result and no error; one with an error has
/// its code, its words and its data and no result.
pub proof fn law_answers_say_one_thing(
    id: Json,
    result: Json,
    a: RpcResponse,
    code: i64,
    message: &str,
    data: Option<Json>,
    b: RpcResponse,
    c: RpcResponse,
)
    requires
        call_ensures(RpcResponse::success, (id, result), a),
        call_ensures(RpcResponse::error, (id, code, message), b),
        call_ensures(RpcResponse::error_with_data, (id, code, message, data), c),
    ensures
        a.jsonrpc@ == "2.0"@ && b.jsonrpc@ == "2.0"@ && c.jsonrpc@ == "2.0"@,
        a.id@ == id@ && b.id@ == id@ && c.id@ == id@,
        a.error is None && a.result is Some && a.result->0@ == result@,
        b.result is None && b.error is Some,
        b.error->0.code == code && b.error->0.message@ == message@ && b.error->0.data is None,
        c.result is None && c.error is Some,
        c.error->0.code == code && c.error->0.message@ == message@ && c.error->0.data == data,
{
}

/// The line of an answer, read as JSON, is an object with the version, the id and the result or the error
/// with its code and its words. It has one line break, at its end.
pub proof fn law_answer_is_one_line(a: &RpcResponse, line: String, v: JsonV)
    requires
        call_ensures(RpcResponse::to_line, (a,), line),
        writable(a.document()),
        json_read(trimmed(line@)) == Ok::<JsonV, Seq<char>>(v),
    ensures
        line@.len() > 0 && line@.last() == '\n',
        forall|i: int| 0 <= i < line@.len() - 1 ==> #[trigger] line@[i] != '\n',
        said(v, "jsonrpc"@) == Some(a.jsonrpc@),
        under_key(v, "id"@) == Some(a.id@),
        a.result is Some && a.error is None ==> under_key(v, "result"@) == Some(a.result->0@) && under_key(v, "error"@)
            is None,
        a.result is None && a.error is Some ==> under_key(v, "result"@) is None && under_key(v, "error"@) is Some
            && said(under_key(v, "error"@)->0, "message"@) == Some(a.error->0.message@),
        a.error is Some && a.error->0.data is Some ==> under_key(under_key(v, "error"@)->0, "data"@) == Some(
            a.error->0.data->0@,
        ),
        a.error is Some ==> under_key(under_key(v, "error"@)->0, "code"@) == Some(
            if a.error->0.code >= 0 {
                JsonV::Unsigned(a.error->0.code as u64)
            } else {
                JsonV::Negative(a.error->0.code)
            },
        ),
{
    reveal_strlit("jsonrpc");
    reveal_strlit("id");
    reveal_strlit("result");
    reveal_strlit("error");
    reveal_strlit("code");
    reveal_strlit("message");
    reveal_strlit("data");
    assert("jsonrpc"@.len() == 7 && "id"@.len() == 2 && "result"@.len() == 6 && "error"@.len() == 5);
    assert("code"@.len() == 4 && "message"@.len() == 7 && "data"@.len() == 4 && "code"@[0] == 'c' && "data"@[0] == 'd');
    let body = crate::ordered::parts_text(a.parts());
    assert(line@ == body.push('\n'));
    assert forall|i: int| 0 <= i < line@.len() - 1 implies #[trigger] line@[i] != '\n' by {
        if line@[i] == '\n' {
            assert(body[i] == '\n');
            assert(body.contains('\n'));
        }
    }
}

/// A blank line is no request and no error.
pub proof fn law_blank_line_is_nothing(line: &str, r: Result<Option<RpcRequest>, String>)
    requires
        call_ensures(parse_request, (line,), r),
        trimmed(line@).len() == 0,
    ensures
        r is Ok && r->Ok_0 is None,
{
}

/// The codes of errors are those of the protocol, each its own.
pub proof fn law_codes()
    ensures
        codes::PARSE_ERROR == -32700,
        codes::INVALID_REQUEST == -32600,
        codes::METHOD_NOT_FOUND == -32601,
        codes::INVALID_PARAMS == -32602,
        codes::INTERNAL_ERROR == -32603,
        codes::FORBIDDEN == -32001,
        codes::POLICY_DENIED == -32002,
        codes::CONFLICT == -32003,
        codes::RATE_LIMITED == -32004,
        codes::FAILED_PRECONDITION == -32005,
        codes::SERVICE_UNAVAILABLE == -32006,
{
}

} // verus!
