use vstd::prelude::*;
use crate::store::VariableStore;
use crate::text::{lower_of, lowercase};

verus! {

/// The stores a run was given. Either may be absent, which is not the same
/// as present and empty. Secrets take precedence over plain variables.
#[derive(Debug)]
pub struct Sources {
    pub secrets: Option<VariableStore>,
    pub vars: Option<VariableStore>,
}

/// The store a placeholder's value came from.
#[derive(PartialEq, Eq, Structural, Clone, Copy, Debug)]
pub enum Origin {
    Secrets,
    Vars,
}

/// A placeholder that no configured store could resolve.
#[derive(Debug)]
pub struct Unresolved {
    /// The placeholder's name, trimmed but not lower-cased.
    pub name: String,
    /// Where in the document the placeholder stands (`$.a.b[0]`).
    pub path: String,
    /// Whether a secrets store was configured.
    pub secrets_configured: bool,
    /// Whether a variables store was configured.
    pub vars_configured: bool,
}

impl Sources {
    /// Whether the secrets store is configured and holds `key`.
    pub open spec fn in_secrets(&self, key: Seq<char>) -> bool {
        self.secrets matches Some(s) && s.get_spec(key) is Some
    }

    /// The value for `key`: from the secrets if they hold it, else from the
    /// plain variables.
    pub open spec fn lookup(&self, key: Seq<char>) -> Option<Seq<char>> {
        if self.in_secrets(key) {
            self.secrets->0.get_spec(key)
        } else if let Some(v) = self.vars {
            v.get_spec(key)
        } else {
            None
        }
    }

    /// The value for the placeholder name `name`, looked up lower-cased.
    pub open spec fn value_of(&self, name: Seq<char>) -> Option<Seq<char>> {
        self.lookup(lower_of(name))
    }

    /// Resolves the placeholder name `name` (already trimmed), found at
    /// `path`: its value and the store it came from, or the failure.
    pub fn resolve(&self, name: &str, path: &str) -> (r: Result<(String, Origin), Unresolved>)
        ensures
            r is Ok <==> self.value_of(name@) is Some,
            r matches Ok((v, o)) ==> {
                &&& self.value_of(name@) == Some(v@)
                &&& (o == Origin::Secrets <==> self.in_secrets(lower_of(name@)))
            },
            r matches Err(e) ==> {
                &&& e.name@ == name@
                &&& e.path@ == path@
                &&& e.secrets_configured == self.secrets is Some
                &&& e.vars_configured == self.vars is Some
            },
    {
        let key = lowercase(name);
        if let Some(secrets) = &self.secrets {
            if let Some(v) = secrets.get(&key) {
                return Ok((v, Origin::Secrets));
            }
        }
        if let Some(vars) = &self.vars {
            if let Some(v) = vars.get(&key) {
                return Ok((v, Origin::Vars));
            }
        }
        Err(
            Unresolved {
                name: name.to_owned(),
                path: path.to_owned(),
                secrets_configured: self.secrets.is_some(),
                vars_configured: self.vars.is_some(),
            },
        )
    }
}

} // verus!
