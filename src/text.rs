use vstd::prelude::*;

verus! {

/// Index of the first occurrence of `c` in `s`, or `s.len()` when there is none.
pub open spec fn find_spec(s: Seq<char>, c: char) -> nat
    decreases s.len(),
{
    if s.len() == 0 {
        0
    } else if s[0] == c {
        0
    } else {
        1 + find_spec(s.drop_first(), c)
    }
}

/// `i` is where `c` first occurs in `s` (or `s.len()`) exactly when no earlier
/// position holds `c` and `i` itself holds it or is the end.
pub proof fn lemma_find_spec(s: Seq<char>, c: char, i: int)
    requires
        0 <= i <= s.len(),
        forall|j: int| 0 <= j < i ==> s[j] != c,
        i == s.len() || s[i] == c,
    ensures
        find_spec(s, c) == i,
    decreases i,
{
    if i > 0 {
        let t = s.drop_first();
        assert forall|j: int| 0 <= j < i - 1 implies t[j] != c by {
            assert(t[j] == s[j + 1]);
        }
        if i - 1 < t.len() {
            assert(t[i - 1] == s[i]);
        }
        lemma_find_spec(t, c, i - 1);
    }
}

/// What `find_spec` tells about the positions it scanned.
pub proof fn lemma_find_spec_bounds(s: Seq<char>, c: char)
    ensures
        find_spec(s, c) <= s.len(),
        forall|j: int| 0 <= j < find_spec(s, c) ==> s[j] != c,
        find_spec(s, c) < s.len() ==> s[find_spec(s, c) as int] == c,
    decreases s.len(),
{
    if s.len() > 0 && s[0] != c {
        let t = s.drop_first();
        lemma_find_spec_bounds(t, c);
        assert forall|j: int| 0 <= j < find_spec(s, c) implies s[j] != c by {
            if j > 0 {
                assert(s[j] == t[j - 1]);
            }
        }
        if find_spec(s, c) < s.len() {
            assert(s[find_spec(s, c) as int] == t[find_spec(t, c) as int]);
        }
    }
}

/// Position of the first `c` in `s`, counted in characters, or the length of `s`.
pub fn find_char(s: &str, c: char) -> (r: usize)
    ensures
        r == find_spec(s@, c),
{
    let n = s.unicode_len();
    let mut i: usize = 0;
    while i < n
        invariant
            n == s@.len(),
            0 <= i <= n,
            forall|j: int| 0 <= j < i ==> s@[j] != c,
        decreases n - i,
    {
        if s.get_char(i) == c {
            proof {
                lemma_find_spec(s@, c, i as int);
            }
            return i;
        }
        i = i + 1;
    }
    proof {
        lemma_find_spec(s@, c, i as int);
    }
    i
}

/// Whether two strings hold the same characters.
pub fn same_text(a: &str, b: &str) -> (r: bool)
    ensures
        r == (a@ == b@),
{
    let n = a.unicode_len();
    if n != b.unicode_len() {
        return false;
    }
    let mut i: usize = 0;
    while i < n
        invariant
            n == a@.len(),
            n == b@.len(),
            0 <= i <= n,
            forall|j: int| 0 <= j < i ==> a@[j] == b@[j],
        decreases n - i,
    {
        if a.get_char(i) != b.get_char(i) {
            return false;
        }
        i = i + 1;
    }
    assert(a@ =~= b@);
    true
}

/// The pieces of `s` between occurrences of `c`; an empty `s` gives one empty piece.
pub open spec fn split_spec(s: Seq<char>, c: char) -> Seq<Seq<char>>
    decreases s.len(),
{
    let p = find_spec(s, c);
    if p < s.len() {
        seq![s.subrange(0, p as int)] + split_spec(s.subrange((p + 1) as int, s.len() as int), c)
    } else {
        seq![s]
    }
}

/// Cuts `s` at every `c`.
pub fn split_char<'a>(s: &'a str, c: char) -> (r: Vec<&'a str>)
    ensures
        r@.map_values(|x: &str| x@) == split_spec(s@, c),
{
    let mut out: Vec<&'a str> = Vec::new();
    let mut rest: &'a str = s;
    loop
        invariant
            split_spec(s@, c) == out@.map_values(|x: &str| x@) + split_spec(rest@, c),
        decreases rest@.len(),
    {
        let ghost before = out@;
        let n = rest.unicode_len();
        let p = find_char(rest, c);
        proof {
            lemma_find_spec_bounds(rest@, c);
        }
        if p < n {
            let t = rest.substring_char(0, p);
            let u = rest.substring_char(p + 1, n);
            out.push(t);
            assert(out@.map_values(|x: &str| x@) =~= before.map_values(|x: &str| x@) + seq![t@]);
            assert(split_spec(rest@, c) == seq![t@] + split_spec(u@, c));
            assert(before.map_values(|x: &str| x@) + split_spec(rest@, c) =~= out@.map_values(
                |x: &str| x@,
            ) + split_spec(u@, c));
            rest = u;
        } else {
            out.push(rest);
            assert(out@.map_values(|x: &str| x@) =~= before.map_values(|x: &str| x@) + seq![rest@]);
            return out;
        }
    }
}

/// The pieces joined again, with `c` between neighbours.
pub open spec fn join_spec(xs: Seq<Seq<char>>, c: char) -> Seq<char>
    decreases xs.len(),
{
    if xs.len() == 0 {
        seq![]
    } else if xs.len() == 1 {
        xs[0]
    } else {
        xs[0] + seq![c] + join_spec(xs.drop_first(), c)
    }
}

/// Splitting at every `c` and joining the pieces with `c` gives the string back.
pub proof fn lemma_split_join(s: Seq<char>, c: char)
    ensures
        join_spec(split_spec(s, c), c) == s,
    decreases s.len(),
{
    lemma_find_spec_bounds(s, c);
    let p = find_spec(s, c);
    if p < s.len() {
        let rest = s.subrange((p + 1) as int, s.len() as int);
        lemma_split_join(rest, c);
        let xs = split_spec(s, c);
        assert(split_spec(rest, c).len() > 0);
        assert(xs.drop_first() =~= split_spec(rest, c));
        assert(xs[0] == s.subrange(0, p as int));
        assert(s.subrange(0, p as int) + seq![c] + rest =~= s);
    }
}

} // verus!
