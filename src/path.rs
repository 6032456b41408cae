use vstd::prelude::*;

verus! {

/// The decimal digit `d` (below ten) as a character.
pub open spec fn digit(d: nat) -> char {
    if d == 0 { '0' }
    else if d == 1 { '1' }
    else if d == 2 { '2' }
    else if d == 3 { '3' }
    else if d == 4 { '4' }
    else if d == 5 { '5' }
    else if d == 6 { '6' }
    else if d == 7 { '7' }
    else if d == 8 { '8' }
    else { '9' }
}

/// `n` written in decimal, without leading zeros.
pub open spec fn decimal(n: nat) -> Seq<char>
    decreases n,
{
    if n < 10 {
        seq![digit(n)]
    } else {
        decimal(n / 10).push(digit(n % 10))
    }
}

/// Appends `n` in decimal to `out`.
pub fn push_decimal(out: &mut String, n: usize)
    ensures
        final(out)@ == old(out)@ + decimal(n as nat),
    decreases n,
{
    if n >= 10 {
        push_decimal(out, n / 10);
    }
    let d = n % 10;
    let digits = "0123456789";
    proof {
        reveal_strlit("0123456789");
    }
    let one = digits.substring_char(d, d + 1);
    assert(one@ =~= seq![digit(d as nat)]);
    out.append(one);
    assert(final(out)@ =~= old(out)@ + decimal(n as nat));
}

/// The path of the member `key` of the value at `path`: `path.key`.
pub open spec fn member_path(path: Seq<char>, key: Seq<char>) -> Seq<char> {
    path + seq!['.'] + key
}

/// The path of element `i` of the array at `path`: `path[i]`.
pub open spec fn element_path(path: Seq<char>, i: nat) -> Seq<char> {
    path + seq!['['] + decimal(i) + seq![']']
}

/// Extends `path` by the member `key`.
pub fn member(path: &String, key: &String) -> (r: String)
    ensures
        r@ == member_path(path@, key@),
{
    let mut r = path.clone();
    let dot = ".";
    proof {
        reveal_strlit(".");
    }
    r.append(dot);
    r.append(key.as_str());
    assert(r@ =~= member_path(path@, key@));
    r
}

/// Extends `path` by the array index `i`.
pub fn element(path: &String, i: usize) -> (r: String)
    ensures
        r@ == element_path(path@, i as nat),
{
    let mut r = path.clone();
    let open = "[";
    let close = "]";
    proof {
        reveal_strlit("[");
        reveal_strlit("]");
    }
    r.append(open);
    push_decimal(&mut r, i);
    r.append(close);
    assert(r@ =~= element_path(path@, i as nat));
    r
}

} // verus!
