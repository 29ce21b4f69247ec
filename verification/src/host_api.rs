//! What every worker call goes through: the errors it can end in, and the capabilities of the
//! calling plugin.

use vstd::prelude::*;

use crate::json::{json_of, member, owned_json_of, text, Json, JsonV};
use crate::protocol::codes;
use crate::settings::merge::{nest, single};
use crate::text::{debug, debug_text, has_text, join3, texts};

verus! {

/// The error of a worker call. Programs go by the `kind` in its data.
#[derive(Debug)]
pub struct DispatchError {
    pub code: i64,
    pub message: String,
    pub data: Option<Json>,
}

/// The kind in the data of an error.
pub open spec fn kind_of(data: Option<JsonV>) -> Option<JsonV> {
    match data {
        Some(d) => member(d, "kind"@),
        None => None,
    }
}

impl DispatchError {
    /// Whether this is the error with the given code, message and data.
    pub open spec fn is(&self, code: i64, message: Seq<char>, data: Option<JsonV>) -> bool {
        self.code == code && self.message@ == message && owned_json_of(self.data) == data
    }

    /// Whether this is the error of a kind.
    pub open spec fn is_kind(&self, code: i64, kind: Seq<char>, message: Seq<char>) -> bool {
        self.is(code, message, Some(single("kind"@, JsonV::Text(kind))))
    }

    /// An error of the host itself.
    pub fn internal(message: String) -> (r: DispatchError)
        ensures
            r.is(codes::INTERNAL_ERROR, message@, None),
    {
        DispatchError { code: codes::INTERNAL_ERROR, message, data: None }
    }

    /// An error of the caller's parameters.
    pub fn invalid_params(message: String) -> (r: DispatchError)
        ensures
            r.is(codes::INVALID_PARAMS, message@, None),
    {
        DispatchError { code: codes::INVALID_PARAMS, message, data: None }
    }

    /// An error of a kind.
    pub fn with_kind(code: i64, kind: &str, message: String) -> (r: DispatchError)
        ensures
            r.is_kind(code, kind@, message@),
    {
        DispatchError { code, message, data: Some(nest("kind", text(kind))) }
    }

    /// The kind of the error.
    pub fn kind(&self) -> (r: Option<&Json>)
        ensures
            json_of(r) == kind_of(owned_json_of(self.data)),
    {
        match &self.data {
            Some(d) => d.get("kind"),
            None => None,
        }
    }
}

/// Who calls: the plugin of the connection, and what it was granted. Never read from a request.
#[derive(Debug)]
pub struct PluginRpcContext {
    pub plugin_id: String,
    pub granted_capabilities: Vec<String>,
}

impl PluginRpcContext {
    /// Whether a capability was granted.
    pub open spec fn granted(&self, capability: Seq<char>) -> bool {
        texts(self.granted_capabilities@).contains(capability)
    }

    /// Whether an error says that a capability is missing.
    pub open spec fn misses(&self, e: DispatchError, capability: Seq<char>) -> bool {
        e.is_kind(
            codes::FORBIDDEN,
            "capability_missing"@,
            "capability "@ + debug_text(capability) + " is not granted"@,
        )
    }

    /// Refuses a caller that was not granted a capability.
    pub fn require(&self, capability: &str) -> (r: Result<(), DispatchError>)
        ensures
            match r {
                Ok(_) => self.granted(capability@),
                Err(e) => !self.granted(capability@) && self.misses(e, capability@),
            },
    {
        if has_text(&self.granted_capabilities, capability) {
            Ok(())
        } else {
            Err(
                DispatchError::with_kind(
                    codes::FORBIDDEN,
                    "capability_missing",
                    join3("capability ", debug(capability).as_str(), " is not granted"),
                ),
            )
        }
    }
}

} // verus!
