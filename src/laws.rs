use vstd::prelude::*;
use crate::json::{lemma_children_smaller, no_placeholders, rendered, resolvable, same, Json};
use crate::placeholder::placeholders;
use crate::resolve::Sources;
use crate::substitute::substituted;
use crate::text::{lower_of, trimmed};

verus! {

/// A document without placeholders renders as itself: it always resolves,
/// and its rendering is exactly the same document.
pub proof fn lemma_plain_document_unchanged(doc: Json, out: Json, src: Sources)
    requires
        no_placeholders(doc),
    ensures
        resolvable(doc, src),
        rendered(doc, out, src) == same(doc, out),
    decreases doc,
{
    lemma_children_smaller(doc);
    match doc {
        Json::Str(s) => {
            assert(placeholders(s@).len() == 0);
            assert(substituted(s@, src) == Ok::<Seq<char>, Seq<char>>(s@));
        },
        Json::Array(v) => {
            assert forall|i: int| 0 <= i < v@.len() implies resolvable(#[trigger] v@[i], src) by {
                lemma_plain_document_unchanged(v@[i], v@[i], src);
            }
            if out is Array && out->Array_0@.len() == v@.len() {
                let w = out->Array_0;
                assert forall|i: int| 0 <= i < v@.len() implies rendered(#[trigger] v@[i], w@[i], src)
                    == same(v@[i], w@[i]) by {
                    lemma_plain_document_unchanged(v@[i], w@[i], src);
                }
            }
        },
        Json::Object(m) => {
            assert forall|i: int| 0 <= i < m@.len() implies resolvable((#[trigger] m@[i]).1, src) by {
                lemma_plain_document_unchanged(m@[i].1, m@[i].1, src);
            }
            if out is Object && out->Object_0@.len() == m@.len() {
                let n = out->Object_0;
                assert forall|i: int| 0 <= i < m@.len() implies rendered((#[trigger] m@[i]).1, n@[i].1, src)
                    == same(m@[i].1, n@[i].1) by {
                    lemma_plain_document_unchanged(m@[i].1, n@[i].1, src);
                }
            }
        },
        _ => {},
    }
}

/// Secrets shadow plain variables: when the secrets hold a name, its value
/// comes from them, whatever the plain variables hold for it.
pub proof fn lemma_secrets_win(src: Sources, name: Seq<char>)
    requires
        src.secrets is Some,
        src.secrets->0.get_spec(lower_of(name)) is Some,
    ensures
        src.value_of(name) == src.secrets->0.get_spec(lower_of(name)),
{
}

/// Lookup ignores case and surrounding white space: two placeholder names
/// that agree once trimmed and lower-cased resolve to the same value.
pub proof fn lemma_lookup_ignores_case_and_spaces(src: Sources, a: Seq<char>, b: Seq<char>)
    requires
        lower_of(trimmed(a)) == lower_of(trimmed(b)),
    ensures
        src.value_of(trimmed(a)) == src.value_of(trimmed(b)),
{
}

/// A document renders only when all its placeholders resolve: a document
/// with an unresolved placeholder has no rendering at all, so there is
/// nothing that could be written.
pub proof fn lemma_rendering_needs_resolution(doc: Json, out: Json, src: Sources)
    requires
        rendered(doc, out, src),
    ensures
        resolvable(doc, src),
    decreases doc,
{
    lemma_children_smaller(doc);
    match doc {
        Json::Array(v) => {
            let w = out->Array_0;
            assert forall|i: int| 0 <= i < v@.len() implies resolvable(#[trigger] v@[i], src) by {
                lemma_rendering_needs_resolution(v@[i], w@[i], src);
            }
        },
        Json::Object(m) => {
            let n = out->Object_0;
            assert forall|i: int| 0 <= i < m@.len() implies resolvable((#[trigger] m@[i]).1, src) by {
                lemma_rendering_needs_resolution(m@[i].1, n@[i].1, src);
            }
        },
        _ => {},
    }
}

/// Rendering is deterministic: two renderings of one document from the
/// same stores are the same document.
pub proof fn lemma_rendering_deterministic(doc: Json, a: Json, b: Json, src: Sources)
    requires
        rendered(doc, a, src),
        rendered(doc, b, src),
    ensures
        same(a, b),
    decreases doc,
{
    lemma_children_smaller(doc);
    lemma_children_smaller(a);
    match doc {
        Json::Array(v) => {
            let (x, y) = (a->Array_0, b->Array_0);
            assert forall|i: int| 0 <= i < x@.len() implies same(#[trigger] x@[i], y@[i]) by {
                lemma_rendering_deterministic(v@[i], x@[i], y@[i], src);
            }
        },
        Json::Object(m) => {
            let (x, y) = (a->Object_0, b->Object_0);
            assert forall|i: int| 0 <= i < x@.len() implies y@[i].0@ == (#[trigger] x@[i]).0@ && same(x@[i].1, y@[i].1) by {
                lemma_rendering_deterministic(m@[i].1, x@[i].1, y@[i].1, src);
            }
        },
        _ => {},
    }
}

} // verus!
