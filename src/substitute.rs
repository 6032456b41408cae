use vstd::prelude::*;
use crate::placeholder::{
    find_placeholders, inner, lemma_placeholders_well_placed, placeholders, placeholders_from,
    spans, whole,
};
use crate::resolve::{Sources, Unresolved};
use crate::text::{chars_of, replace_all, replace_text, trim, trimmed};

verus! {

/// Applies the placeholders `ps[k..]` of the original text `s` to `cur`, in
/// order: each one's trimmed name is resolved, and every occurrence of its
/// whole text in `cur` is replaced by the value. The first name that does not
/// resolve is the error.
pub open spec fn apply_from(
    s: Seq<char>,
    ps: Seq<(int, int)>,
    k: int,
    cur: Seq<char>,
    src: Sources,
) -> Result<Seq<char>, Seq<char>>
    decreases ps.len() - k,
{
    if k < 0 || k >= ps.len() {
        Ok(cur)
    } else {
        let name = trimmed(inner(s, ps[k]));
        match src.value_of(name) {
            None => Err(name),
            Some(v) => apply_from(s, ps, k + 1, replace_all(cur, whole(s, ps[k]), v), src),
        }
    }
}

/// The text `s` with its placeholders substituted, or the name of the first
/// placeholder that does not resolve.
pub open spec fn substituted(s: Seq<char>, src: Sources) -> Result<Seq<char>, Seq<char>> {
    apply_from(s, placeholders(s), 0, s, src)
}

/// A failed substitution names a placeholder that does not resolve.
proof fn lemma_failure_unresolved(
    s: Seq<char>,
    ps: Seq<(int, int)>,
    k: int,
    cur: Seq<char>,
    src: Sources,
)
    ensures
        apply_from(s, ps, k, cur, src) matches Err(n) ==> src.value_of(n) is None,
    decreases ps.len() - k,
{
    if 0 <= k < ps.len() {
        let name = trimmed(inner(s, ps[k]));
        if let Some(v) = src.value_of(name) {
            lemma_failure_unresolved(s, ps, k + 1, replace_all(cur, whole(s, ps[k]), v), src);
        }
    }
}

/// Substitutes every placeholder of the string `s`, which stands at `path`
/// in its document.
pub fn substitute_text(s: &String, src: &Sources, path: &String) -> (r: Result<String, Unresolved>)
    ensures
        r matches Ok(t) ==> substituted(s@, *src) == Ok::<Seq<char>, Seq<char>>(t@),
        r matches Err(e) ==> {
            &&& substituted(s@, *src) == Err::<Seq<char>, Seq<char>>(e.name@)
            &&& src.value_of(e.name@) is None
            &&& e.path@ == path@
            &&& e.secrets_configured == src.secrets is Some
            &&& e.vars_configured == src.vars is Some
        },
{
    proof {
        lemma_placeholders_well_placed(s@, 0);
        lemma_failure_unresolved(s@, placeholders(s@), 0, s@, *src);
    }
    let cs = chars_of(s.as_str());
    let found = find_placeholders(&cs);
    let ghost ps = placeholders(s@);
    let mut cur = s.clone();
    let mut k: usize = 0;
    while k < found.len()
        invariant
            spans(found@) == ps,
            ps == placeholders_from(s@, 0),
            k <= found@.len(),
            apply_from(s@, ps, k as int, cur@, *src) == substituted(s@, *src),
            forall|m: int|
                0 <= m < ps.len() ==> {
                    let p = #[trigger] ps[m];
                    &&& 0 <= p.0
                    &&& p.0 + 5 <= p.1 <= s@.len()
                },
        decreases found@.len() - k,
    {
        let (start, end) = found[k];
        assert(ps[k as int] == (start as int, end as int));
        let name = trim(s.as_str().substring_char(start + 2, end - 2));
        match src.resolve(name.as_str(), path.as_str()) {
            Err(e) => {
                return Err(e);
            },
            Ok((v, _)) => {
                let pat = s.as_str().substring_char(start, end);
                cur = replace_text(cur.as_str(), pat, v.as_str());
            },
        }
        k = k + 1;
    }
    Ok(cur)
}

} // verus!
