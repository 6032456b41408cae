use vstd::prelude::*;

verus! {

/// The first position at or after `i` that holds `}`, or the length of `s`
/// when none does.
pub open spec fn close_from(s: Seq<char>, i: int) -> int
    decreases s.len() - i,
{
    if i < 0 || i >= s.len() {
        s.len() as int
    } else if s[i] == '}' {
        i
    } else {
        close_from(s, i + 1)
    }
}

/// Whether a placeholder starts at position `i`: `{{`, then one or more
/// characters other than `}`, then `}}`.
pub open spec fn opens_at(s: Seq<char>, i: int) -> bool {
    &&& 0 <= i
    &&& i + 1 < s.len()
    &&& s[i] == '{'
    &&& s[i + 1] == '{'
    &&& close_from(s, i + 2) > i + 2
    &&& close_from(s, i + 2) + 1 < s.len()
    &&& s[close_from(s, i + 2) + 1] == '}'
}

/// The placeholders of `s` found from position `i` on, leftmost first and
/// without overlap, each as the pair of its start and its end (exclusive).
pub open spec fn placeholders_from(s: Seq<char>, i: int) -> Seq<(int, int)>
    decreases s.len() - i,
{
    if i < 0 || i >= s.len() {
        Seq::empty()
    } else if opens_at(s, i) {
        seq![(i, close_from(s, i + 2) + 2)] + placeholders_from(s, close_from(s, i + 2) + 2)
    } else {
        placeholders_from(s, i + 1)
    }
}

/// The placeholders of `s`, leftmost first and without overlap.
pub open spec fn placeholders(s: Seq<char>) -> Seq<(int, int)> {
    placeholders_from(s, 0)
}

/// The text between the braces of the placeholder `p`.
pub open spec fn inner(s: Seq<char>, p: (int, int)) -> Seq<char> {
    s.subrange(p.0 + 2, p.1 - 2)
}

/// The whole text of the placeholder `p`, braces included.
pub open spec fn whole(s: Seq<char>, p: (int, int)) -> Seq<char> {
    s.subrange(p.0, p.1)
}

/// The pairs of `v` as pairs of integers.
pub open spec fn spans(v: Seq<(usize, usize)>) -> Seq<(int, int)> {
    v.map_values(|p: (usize, usize)| (p.0 as int, p.1 as int))
}

pub(crate) proof fn lemma_placeholders_well_placed(s: Seq<char>, i: int)
    ensures
        forall|k: int|
            0 <= k < placeholders_from(s, i).len() ==> {
                let p = #[trigger] placeholders_from(s, i)[k];
                &&& i <= p.0
                &&& p.0 + 5 <= p.1 <= s.len()
                &&& opens_at(s, p.0)
                &&& p.1 == close_from(s, p.0 + 2) + 2
            },
    decreases s.len() - i,
{
    if 0 <= i < s.len() {
        if opens_at(s, i) {
            let j = close_from(s, i + 2) + 2;
            lemma_placeholders_well_placed(s, j);
            let rest = placeholders_from(s, j);
            assert forall|k: int| 0 <= k < placeholders_from(s, i).len() implies {
                let p = #[trigger] placeholders_from(s, i)[k];
                &&& i <= p.0
                &&& p.0 + 5 <= p.1 <= s.len()
                &&& opens_at(s, p.0)
                &&& p.1 == close_from(s, p.0 + 2) + 2
            } by {
                if k > 0 {
                    assert(placeholders_from(s, i)[k] == rest[k - 1]);
                } else {
                    assert(placeholders_from(s, i)[k] == (i, j));
                }
            }
        } else {
            lemma_placeholders_well_placed(s, i + 1);
            assert(placeholders_from(s, i) == placeholders_from(s, i + 1));
        }
    } else {
        assert(placeholders_from(s, i).len() == 0);
    }
}

/// The first position at or after `i` that holds `}`, or the length.
fn find_close(cs: &Vec<char>, i: usize) -> (j: usize)
    requires
        i <= cs@.len(),
    ensures
        j == close_from(cs@, i as int),
        i <= j <= cs@.len(),
{
    let mut j = i;
    while j < cs.len() && cs[j] != '}'
        invariant
            i <= j <= cs@.len(),
            close_from(cs@, j as int) == close_from(cs@, i as int),
        decreases cs@.len() - j,
    {
        j = j + 1;
    }
    j
}

/// Finds the placeholders of the text `cs`: leftmost first, without overlap,
/// each as its start and its end (exclusive).
pub fn find_placeholders(cs: &Vec<char>) -> (r: Vec<(usize, usize)>)
    ensures
        spans(r@) == placeholders(cs@),
{
    let n = cs.len();
    let mut r: Vec<(usize, usize)> = Vec::new();
    let mut i: usize = 0;
    while i < n
        invariant
            n == cs@.len(),
            i <= n,
            spans(r@) + placeholders_from(cs@, i as int) == placeholders(cs@),
        decreases n - i,
    {
        let mut found = false;
        if i + 1 < n && cs[i] == '{' && cs[i + 1] == '{' {
            let j = find_close(cs, i + 2);
            if j > i + 2 && j < n - 1 && cs[j + 1] == '}' {
                found = true;
                assert(opens_at(cs@, i as int));
                let ghost before = spans(r@);
                r.push((i, j + 2));
                assert(spans(r@) =~= before.push((i as int, j + 2)));
                assert(spans(r@) + placeholders_from(cs@, (j + 2) as int) =~= before + placeholders_from(cs@, i as int));
                i = j + 2;
            }
        }
        if !found {
            i = i + 1;
        }
    }
    assert(spans(r@) + placeholders_from(cs@, i as int) =~= spans(r@));
    r
}

} // verus!
