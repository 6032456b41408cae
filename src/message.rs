use vstd::prelude::*;
use crate::path::{decimal, push_decimal};
use crate::pipeline::{RenderError, Violation};
use crate::resolve::Unresolved;

verus! {

/// What follows "but " in the message for an unresolved placeholder; it
/// depends on which stores were configured.
pub open spec fn missing_tail(secrets: bool, vars: bool) -> Seq<char> {
    if secrets && vars {
        "its value was not found in env_secrets or env_vars"@
    } else if secrets {
        "its value was not found in env_secrets, and no env_vars was specified"@
    } else if vars {
        "its value was not found in env_vars, and no env_secrets was specified"@
    } else {
        "no substitution sources (env_vars, env_secrets) were provided"@
    }
}

/// The message for an unresolved placeholder: its name, its path, and which
/// stores were configured.
pub open spec fn unresolved_message(u: Unresolved) -> Seq<char> {
    "Substitution variable '"@ + u.name@ + "' specified at path '"@ + u.path@ + "', but "@
        + missing_tail(u.secrets_configured, u.vars_configured)
}

/// One line of a validation report: `\n  N. Path: '<path>' - <message>`.
pub open spec fn violation_line(n: nat, v: Violation) -> Seq<char> {
    "\n  "@ + decimal(n) + ". Path: '"@ + v.path@ + "' - "@ + v.message@
}

/// The lines for the first `k` violations, numbered from 1.
pub open spec fn violation_lines(vs: Seq<Violation>, k: nat) -> Seq<char>
    decreases k,
{
    if k == 0 || k > vs.len() {
        Seq::empty()
    } else {
        violation_lines(vs, (k - 1) as nat) + violation_line(k, vs[k - 1])
    }
}

/// A validation report: how many violations, then each of them, numbered
/// from 1 in the order given.
pub open spec fn report_message(vs: Seq<Violation>) -> Seq<char> {
    "Schema validation failed with "@ + decimal(vs.len()) + " error(s):"@ + violation_lines(
        vs,
        vs.len(),
    )
}

impl Unresolved {
    /// The message an operator reads for this failure.
    pub fn message(&self) -> (r: String)
        ensures
            r@ == unresolved_message(*self),
    {
        let mut r = String::new();
        r.append("Substitution variable '");
        r.append(self.name.as_str());
        r.append("' specified at path '");
        r.append(self.path.as_str());
        r.append("', but ");
        if self.secrets_configured && self.vars_configured {
            r.append("its value was not found in env_secrets or env_vars");
        } else if self.secrets_configured {
            r.append("its value was not found in env_secrets, and no env_vars was specified");
        } else if self.vars_configured {
            r.append("its value was not found in env_vars, and no env_secrets was specified");
        } else {
            r.append("no substitution sources (env_vars, env_secrets) were provided");
        }
        assert(r@ =~= unresolved_message(*self));
        r
    }
}

/// The report for the violations `vs`.
pub fn describe_violations(vs: &Vec<Violation>) -> (r: String)
    ensures
        r@ == report_message(vs@),
{
    let mut r = String::new();
    r.append("Schema validation failed with ");
    push_decimal(&mut r, vs.len());
    r.append(" error(s):");
    let ghost head = r@;
    let mut k: usize = 0;
    while k < vs.len()
        invariant
            k <= vs@.len(),
            r@ == head + violation_lines(vs@, k as nat),
        decreases vs@.len() - k,
    {
        r.append("\n  ");
        push_decimal(&mut r, k + 1);
        r.append(". Path: '");
        r.append(vs[k].path.as_str());
        r.append("' - ");
        r.append(vs[k].message.as_str());
        k = k + 1;
        assert(r@ =~= head + violation_lines(vs@, k as nat));
    }
    assert(r@ =~= report_message(vs@));
    r
}

impl RenderError {
    /// The message an operator reads for this failure.
    pub fn message(&self) -> (r: String)
        ensures
            *self is OutputAlreadyExists ==> r@ == "Output file already exists. Will not overwrite"@,
            *self matches RenderError::Unresolved(u) ==> r@ == unresolved_message(u),
            *self matches RenderError::Invalid(vs) ==> r@ == report_message(vs@),
    {
        match self {
            RenderError::OutputAlreadyExists => "Output file already exists. Will not overwrite".to_owned(),
            RenderError::Unresolved(u) => u.message(),
            RenderError::Invalid(vs) => describe_violations(vs),
        }
    }
}

} // verus!
