//! The capabilities that a plugin can be granted, and how far a plugin is trusted.

use vstd::prelude::*;

use crate::text::same;

verus! {

/// A capability that a plugin requests. It is a free text: the host grants only those it knows.
#[derive(Debug, Clone, PartialEq, Eq, PartialOrd, Ord, Hash)]
pub struct CapabilityId(pub String);

impl From<&str> for CapabilityId {
    fn from(value: &str) -> (r: CapabilityId)
        ensures
            r.0@ == value@,
    {
        CapabilityId(value.to_owned())
    }
}

impl vstd::std_specs::convert::FromSpecImpl<&str> for CapabilityId {
    open spec fn obeys_from_spec() -> bool {
        false
    }

    open spec fn from_spec(value: &str) -> CapabilityId {
        arbitrary()
    }
}

/// The capabilities that this host knows.
pub const KNOWN_CAPABILITIES: [&'static str; 19] = [
    "runtime.worker",
    "session.read",
    "session.write",
    "config.read",
    "config.write",
    "process.spawn",
    "net",
    "fs.read",
    "fs.write",
    "clipboard.read",
    "clipboard.write",
    "notifications",
    "browser_open",
    "composer.read",
    "composer.write",
    "acp.capabilities.read",
    "session.create",
    "session.prompt",
    "session.unattended",
];

/// The version of the plugin interface.
pub const API_VERSION: u32 = 9;

/// Whether this host knows a capability.
pub open spec fn known(id: Seq<char>) -> bool {
    exists|i: int| 0 <= i < 19 && (#[trigger] KNOWN_CAPABILITIES@[i])@ == id
}

impl CapabilityId {
    pub fn new(id: &str) -> (r: CapabilityId)
        ensures
            r.0@ == id@,
    {
        CapabilityId(id.to_owned())
    }

    pub fn as_str(&self) -> (r: &str)
        ensures
            r@ == self.0@,
    {
        self.0.as_str()
    }

    /// Whether this host knows the capability.
    pub fn is_known(&self) -> (r: bool)
        ensures
            r == known(self.0@),
    {
        let all = KNOWN_CAPABILITIES;
        let mut i: usize = 0;
        while i < 19
            invariant
                i <= 19,
                all@ == KNOWN_CAPABILITIES@,
                forall|j: int| 0 <= j < i ==> (#[trigger] KNOWN_CAPABILITIES@[j])@ != self.0@,
            decreases 19 - i,
        {
            assert(all@[i as int] == KNOWN_CAPABILITIES@[i as int]);
            if same(all[i], self.0.as_str()) {
                return true;
            }
            i = i + 1;
        }
        false
    }
}

/// How far a plugin is trusted.
#[derive(Debug, Clone, Copy, PartialEq, Eq, Structural)]
pub enum TrustLevel {
    /// Part of the program: what it requests is granted.
    Builtin,
    /// Installed from elsewhere: the user grants each capability.
    Community,
}

impl TrustLevel {
    pub fn as_str(self) -> (r: &'static str)
        ensures
            r@ == match self {
                TrustLevel::Builtin => "builtin"@,
                TrustLevel::Community => "community"@,
            },
    {
        match self {
            TrustLevel::Builtin => "builtin",
            TrustLevel::Community => "community",
        }
    }
}

} // verus!
