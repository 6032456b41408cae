use vstd::prelude::*;
use crate::path::{element, element_path, member, member_path};
use crate::placeholder::placeholders;
use crate::resolve::{Sources, Unresolved};
use crate::substitute::{substitute_text, substituted};

verus! {

/// A JSON document. A number keeps the text that the parser gave it.
#[derive(Debug)]
pub enum Json {
    Null,
    Bool(bool),
    Number(String),
    Str(String),
    Array(Vec<Json>),
    Object(Vec<(String, Json)>),
}

/// Whether `a` and `b` are the same document: same kinds, same texts, same
/// members in the same order.
pub open spec fn same(a: Json, b: Json) -> bool
    decreases a,
{
    match a {
        Json::Null => b is Null,
        Json::Bool(x) => b == Json::Bool(x),
        Json::Number(t) => b is Number && b->Number_0@ == t@,
        Json::Str(s) => b is Str && b->Str_0@ == s@,
        Json::Array(v) => b is Array && b->Array_0@.len() == v@.len() && forall|i: int|
            0 <= i < v@.len() ==> same(#[trigger] v@[i], b->Array_0@[i]),
        Json::Object(m) => b is Object && b->Object_0@.len() == m@.len() && forall|i: int|
            0 <= i < m@.len() ==> b->Object_0@[i].0@ == (#[trigger] m@[i]).0@ && same(
                m@[i].1,
                b->Object_0@[i].1,
            ),
    }
}

/// Whether no string of `j` holds a placeholder.
pub open spec fn no_placeholders(j: Json) -> bool
    decreases j,
{
    match j {
        Json::Str(s) => placeholders(s@).len() == 0,
        Json::Array(v) => forall|i: int| 0 <= i < v@.len() ==> no_placeholders(#[trigger] v@[i]),
        Json::Object(m) => forall|i: int|
            0 <= i < m@.len() ==> no_placeholders((#[trigger] m@[i]).1),
        _ => true,
    }
}

/// Whether every placeholder in `j` resolves against `src`.
pub open spec fn resolvable(j: Json, src: Sources) -> bool
    decreases j,
{
    match j {
        Json::Str(s) => substituted(s@, src) is Ok,
        Json::Array(v) => forall|i: int| 0 <= i < v@.len() ==> resolvable(#[trigger] v@[i], src),
        Json::Object(m) => forall|i: int|
            0 <= i < m@.len() ==> resolvable((#[trigger] m@[i]).1, src),
        _ => true,
    }
}

/// Whether `b` is `a` with the placeholders of every string substituted
/// from `src`; all else is kept as it is.
pub open spec fn rendered(a: Json, b: Json, src: Sources) -> bool
    decreases a,
{
    match a {
        Json::Null => b is Null,
        Json::Bool(x) => b == Json::Bool(x),
        Json::Number(t) => b is Number && b->Number_0@ == t@,
        Json::Str(s) => b is Str && substituted(s@, src) == Ok::<Seq<char>, Seq<char>>(b->Str_0@),
        Json::Array(v) => b is Array && b->Array_0@.len() == v@.len() && forall|i: int|
            0 <= i < v@.len() ==> rendered(#[trigger] v@[i], b->Array_0@[i], src),
        Json::Object(m) => b is Object && b->Object_0@.len() == m@.len() && forall|i: int|
            0 <= i < m@.len() ==> b->Object_0@[i].0@ == (#[trigger] m@[i]).0@ && rendered(
                m@[i].1,
                b->Object_0@[i].1,
                src,
            ),
    }
}

/// The index of the first value of `vs` at or after `k` that does not
/// resolve, or the length of `vs` when all do.
pub open spec fn first_unresolvable(vs: Seq<Json>, k: int, src: Sources) -> int
    decreases vs.len() - k,
{
    if k < 0 || k >= vs.len() {
        vs.len() as int
    } else if !resolvable(vs[k], src) {
        k
    } else {
        first_unresolvable(vs, k + 1, src)
    }
}

/// The member values of an object, in order.
pub open spec fn member_values(m: Seq<(String, Json)>) -> Seq<Json> {
    m.map_values(|e: (String, Json)| e.1)
}

/// The name and the path of the first placeholder of `j` (at `path`) that
/// does not resolve, walking members and elements in order.
pub open spec fn first_failure(j: Json, path: Seq<char>, src: Sources) -> Option<(Seq<char>, Seq<char>)>
    decreases j,
{
    match j {
        Json::Str(s) => match substituted(s@, src) {
            Err(name) => Some((name, path)),
            Ok(_) => None,
        },
        Json::Array(v) => {
            let i = first_unresolvable(v@, 0, src);
            if 0 <= i < v@.len() {
                first_failure(v@[i], element_path(path, i as nat), src)
            } else {
                None
            }
        },
        Json::Object(m) => {
            let i = first_unresolvable(member_values(m@), 0, src);
            if 0 <= i < m@.len() {
                first_failure(m@[i].1, member_path(path, m@[i].0@), src)
            } else {
                None
            }
        },
        _ => None,
    }
}

/// Where every value before `i` resolves and the one at `i` does not, `i`
/// is the first that does not.
proof fn lemma_first_unresolvable(vs: Seq<Json>, k: int, i: int, src: Sources)
    requires
        0 <= k <= i < vs.len(),
        forall|t: int| k <= t < i ==> resolvable(#[trigger] vs[t], src),
        !resolvable(vs[i], src),
    ensures
        first_unresolvable(vs, k, src) == i,
    decreases i - k,
{
    if k < i {
        lemma_first_unresolvable(vs, k + 1, i, src);
    }
}

/// The elements and member values of `j` are smaller than `j`.
pub proof fn lemma_children_smaller(j: Json)
    ensures
        j is Array ==> forall|i: int|
            0 <= i < j->Array_0@.len() ==> decreases_to!(j => #[trigger] j->Array_0@[i]),
        j is Object ==> forall|i: int|
            0 <= i < j->Object_0@.len() ==> decreases_to!(j => (#[trigger] j->Object_0@[i]).1),
{
    if j is Array {
        let v = j->Array_0;
        assert(decreases_to!(j => j->Array_0));
        assert(decreases_to!(v => v@));
        assert forall|i: int| 0 <= i < v@.len() implies decreases_to!(j => #[trigger] v@[i]) by {
            assert(decreases_to!(v@ => v@[i]));
        }
    }
    if j is Object {
        let m = j->Object_0;
        assert(decreases_to!(j => j->Object_0));
        assert(decreases_to!(m => m@));
        assert forall|i: int| 0 <= i < m@.len() implies decreases_to!(j => (#[trigger] m@[i]).1) by {
            assert(decreases_to!(m@ => m@[i]));
            assert(decreases_to!(m@[i] => m@[i].1));
        }
    }
}

/// Substitutes every placeholder of `doc`, whose location is `path` (`$`
/// for a whole document): strings have their placeholders replaced, members
/// and elements are walked in order, other values are kept. The first
/// placeholder that does not resolve stops the walk.
pub fn substitute_json(doc: &Json, src: &Sources, path: &String) -> (r: Result<Json, Unresolved>)
    ensures
        r is Ok <==> resolvable(*doc, *src),
        r matches Ok(d) ==> rendered(*doc, d, *src),
        r matches Err(e) ==> {
            &&& first_failure(*doc, path@, *src) == Some((e.name@, e.path@))
            &&& src.value_of(e.name@) is None
            &&& e.secrets_configured == src.secrets is Some
            &&& e.vars_configured == src.vars is Some
        },
    decreases doc,
{
    proof {
        lemma_children_smaller(*doc);
    }
    match doc {
        Json::Null => Ok(Json::Null),
        Json::Bool(b) => Ok(Json::Bool(*b)),
        Json::Number(t) => Ok(Json::Number(t.clone())),
        Json::Str(s) => match substitute_text(s, src, path) {
            Ok(t) => Ok(Json::Str(t)),
            Err(e) => Err(e),
        },
        Json::Array(v) => {
            let mut out: Vec<Json> = Vec::new();
            let mut i: usize = 0;
            while i < v.len()
                invariant
                    *doc == Json::Array(*v),
                    i <= v@.len(),
                    out@.len() == i,
                    forall|k: int| 0 <= k < i ==> rendered(#[trigger] v@[k], out@[k], *src),
                    forall|k: int| 0 <= k < i ==> resolvable(#[trigger] v@[k], *src),
                decreases v@.len() - i,
            {
                proof {
                    lemma_children_smaller(*doc);
                    assert(decreases_to!(*doc => doc->Array_0@[i as int]));
                }
                let p = element(path, i);
                match substitute_json(&v[i], src, &p) {
                    Ok(d) => {
                        out.push(d);
                    },
                    Err(e) => {
                        assert(!resolvable(v@[i as int], *src));
                        assert(!resolvable(*doc, *src));
                        proof {
                            lemma_first_unresolvable(v@, 0, i as int, *src);
                        }
                        return Err(e);
                    },
                }
                i = i + 1;
            }
            Ok(Json::Array(out))
        },
        Json::Object(m) => {
            let mut out: Vec<(String, Json)> = Vec::new();
            let mut i: usize = 0;
            while i < m.len()
                invariant
                    *doc == Json::Object(*m),
                    i <= m@.len(),
                    out@.len() == i,
                    forall|k: int|
                        0 <= k < i ==> out@[k].0@ == (#[trigger] m@[k]).0@ && rendered(
                            m@[k].1,
                            out@[k].1,
                            *src,
                        ),
                    forall|k: int| 0 <= k < i ==> resolvable((#[trigger] m@[k]).1, *src),
                decreases m@.len() - i,
            {
                proof {
                    lemma_children_smaller(*doc);
                    assert(decreases_to!(*doc => doc->Object_0@[i as int].1));
                }
                let p = member(path, &m[i].0);
                match substitute_json(&m[i].1, src, &p) {
                    Ok(d) => {
                        out.push((m[i].0.clone(), d));
                    },
                    Err(e) => {
                        assert(!resolvable(m@[i as int].1, *src));
                        assert(!resolvable(*doc, *src));
                        proof {
                            let vals = member_values(m@);
                            assert forall|t: int| 0 <= t < i implies resolvable(#[trigger] vals[t], *src) by {
                                assert(vals[t] == m@[t].1);
                            }
                            lemma_first_unresolvable(vals, 0, i as int, *src);
                        }
                        return Err(e);
                    },
                }
                i = i + 1;
            }
            Ok(Json::Object(out))
        },
    }
}

} // verus!
