//! The persisted root document: the tool's working root, the shared ACME
//! directory, the route table and the login-group bindings.

use vstd::prelude::*;
use crate::table::{keys_unique, kv_map};

verus! {

pub struct Registry {
    /// Working root for web-server output and password files.
    pub home: String,
    /// Directory shared with the ACME client.
    pub acme_redirect_configs: String,
    /// Source domain to target URL, keys unique.
    pub routes: Vec<(String, String)>,
    /// Source domain to login-group name, keys unique.
    pub login_groups: Vec<(String, String)>,
}

impl Registry {
    /// Both tables carry pairwise-distinct keys.
    pub open spec fn wf(self) -> bool {
        keys_unique(self.routes@) && keys_unique(self.login_groups@)
    }

    /// The route table as a map from source domain to target URL.
    pub open spec fn routes_map(self) -> Map<Seq<char>, Seq<char>> {
        kv_map(self.routes@)
    }

    /// The binding table as a map from source domain to group name.
    pub open spec fn groups_map(self) -> Map<Seq<char>, Seq<char>> {
        kv_map(self.login_groups@)
    }
}

/// The registry written on first invocation: default paths, no routes, no
/// bindings.
pub fn default_registry() -> (r: Registry)
    ensures
        r.wf(),
        r.home@ == "/etc/web-distributor"@,
        r.acme_redirect_configs@ == "/etc/acme-redirect.d"@,
        r.routes@.len() == 0,
        r.login_groups@.len() == 0,
{
    Registry {
        home: String::from_str("/etc/web-distributor"),
        acme_redirect_configs: String::from_str("/etc/acme-redirect.d"),
        routes: Vec::new(),
        login_groups: Vec::new(),
    }
}

} // verus!
