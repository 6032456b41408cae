use vstd::prelude::*;
use crate::json::{first_failure, rendered, resolvable, substitute_json, Json};
use crate::resolve::{Sources, Unresolved};

verus! {

/// One schema violation: where in the document, and what is wrong.
#[derive(Debug)]
pub struct Violation {
    pub path: String,
    pub message: String,
}

/// Why a run stopped.
#[derive(Debug)]
pub enum RenderError {
    /// The output file exists already; it is never overwritten.
    OutputAlreadyExists,
    /// A placeholder did not resolve.
    Unresolved(Unresolved),
    /// The rendered document broke its schema: every violation found.
    Invalid(Vec<Violation>),
}

/// The first stage of a run: refuses to go on when the output exists, then
/// substitutes every placeholder of `input` from `src`, starting at `$`.
pub fn render(output_exists: bool, input: &Json, src: &Sources) -> (r: Result<Json, RenderError>)
    ensures
        output_exists ==> r matches Err(RenderError::OutputAlreadyExists),
        !output_exists ==> (r is Ok <==> resolvable(*input, *src)),
        r matches Ok(d) ==> rendered(*input, d, *src),
        !output_exists && r is Err ==> (r matches Err(RenderError::Unresolved(u)) && {
            &&& first_failure(*input, "$"@, *src) == Some((u.name@, u.path@))
            &&& src.value_of(u.name@) is None
            &&& u.secrets_configured == src.secrets is Some
            &&& u.vars_configured == src.vars is Some
        }),
{
    if output_exists {
        return Err(RenderError::OutputAlreadyExists);
    }
    let root = "$";
    match substitute_json(input, src, &root.to_owned()) {
        Ok(d) => Ok(d),
        Err(u) => Err(RenderError::Unresolved(u)),
    }
}

/// The last stage of a run: given the rendered document and the violations
/// that schema validation found in it, either fails with all of them, or
/// hands back the document to write when an output is configured.
pub fn conclude(doc: Json, violations: Vec<Violation>, has_output: bool) -> (r: Result<Option<Json>, RenderError>)
    ensures
        r is Err <==> violations@.len() > 0,
        r is Err ==> (r matches Err(RenderError::Invalid(vs)) && vs@ == violations@),
        r matches Ok(o) ==> (o is Some <==> has_output),
        r matches Ok(Some(d)) ==> d == doc,
{
    if violations.len() > 0 {
        Err(RenderError::Invalid(violations))
    } else if has_output {
        Ok(Some(doc))
    } else {
        Ok(None)
    }
}

} // verus!
