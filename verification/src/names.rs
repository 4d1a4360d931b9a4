//! File names: their extension, and the order in which they sort.

use crate::text::{chars_of, views};
use vstd::prelude::*;

verus! {

/// Whether `a` comes before `b` in the order of their code points, a
/// proper prefix first: the order std gives strings on sorting them.
pub open spec fn lex_lt(a: Seq<char>, b: Seq<char>) -> bool
    decreases a.len(),
{
    if a.len() == 0 {
        b.len() > 0
    } else if b.len() == 0 {
        false
    } else if a[0] != b[0] {
        (a[0] as u32) < (b[0] as u32)
    } else {
        lex_lt(a.drop_first(), b.drop_first())
    }
}

/// Nothing comes before itself.
pub proof fn lemma_lex_irreflexive(a: Seq<char>)
    ensures
        !lex_lt(a, a),
    decreases a.len(),
{
    if a.len() > 0 {
        lemma_lex_irreflexive(a.drop_first());
    }
}

/// The order is transitive.
pub proof fn lemma_lex_transitive(a: Seq<char>, b: Seq<char>, c: Seq<char>)
    requires
        lex_lt(a, b),
        lex_lt(b, c),
    ensures
        lex_lt(a, c),
    decreases a.len(),
{
    if a.len() > 0 && b.len() > 0 && c.len() > 0 && a[0] == b[0] && b[0] == c[0] {
        lemma_lex_transitive(a.drop_first(), b.drop_first(), c.drop_first());
    }
}

/// Decides `lex_lt`.
pub fn lex_less(a: &str, b: &str) -> (r: bool)
    ensures
        r == lex_lt(a@, b@),
{
    let x = chars_of(a);
    let y = chars_of(b);
    let mut i: usize = 0;
    assert(a@.skip(0) =~= a@);
    assert(b@.skip(0) =~= b@);
    while i < x.len() && i < y.len() && x[i] == y[i]
        invariant
            i <= x@.len(),
            i <= y@.len(),
            x@ == a@,
            y@ == b@,
            lex_lt(a@, b@) == lex_lt(a@.skip(i as int), b@.skip(i as int)),
        decreases x@.len() - i,
    {
        assert(a@.skip(i as int).drop_first() =~= a@.skip(i + 1));
        assert(b@.skip(i as int).drop_first() =~= b@.skip(i + 1));
        i = i + 1;
    }
    if i == x.len() {
        i < y.len()
    } else if i == y.len() {
        false
    } else {
        (x[i] as u32) < (y[i] as u32)
    }
}

/// A letter in ASCII lower case; other characters unchanged.
pub open spec fn lower_char(c: char) -> char {
    if 'A' <= c <= 'Z' {
        ((c as u32) + 32) as char
    } else {
        c
    }
}

/// `s` with its ASCII letters in lower case.
pub open spec fn lowered(s: Seq<char>) -> Seq<char> {
    s.map_values(|c: char| lower_char(c))
}

fn lower_of(c: char) -> (r: char)
    ensures
        r == lower_char(c),
{
    if 'A' <= c && c <= 'Z' {
        ((c as u32 + 32) as u8) as char
    } else {
        c
    }
}

/// The index of the last `.` in `name`, or -1.
pub open spec fn last_dot(name: Seq<char>) -> int
    decreases name.len(),
{
    if name.len() == 0 {
        -1
    } else if name.last() == '.' {
        name.len() - 1
    } else {
        last_dot(name.drop_last())
    }
}

/// Whether the file `name` has the extension `ext`, in any ASCII case, as
/// std's `Path::extension` and `eq_ignore_ascii_case` decide it: the name
/// has a dot that does not start it, and what follows the last dot equals
/// `ext` up to the case of ASCII letters.
pub open spec fn has_extension(name: Seq<char>, ext: Seq<char>) -> bool {
    let k = last_dot(name);
    k > 0 && lowered(name.skip(k + 1)) == lowered(ext)
}

/// Decides `has_extension`.
pub fn extension_is(name: &str, ext: &str) -> (r: bool)
    ensures
        r == has_extension(name@, ext@),
{
    let cs = chars_of(name);
    let want = chars_of(ext);
    let n = cs.len();
    let mut k = n;
    assert(name@.take(n as int) =~= name@);
    while k > 0 && cs[k - 1] != '.'
        invariant
            k <= n == cs@.len(),
            cs@ == name@,
            last_dot(name@) == last_dot(name@.take(k as int)),
        decreases k,
    {
        assert(name@.take(k as int).drop_last() =~= name@.take(k - 1));
        k = k - 1;
    }
    proof {
        if k > 0 {
            assert(name@.take(k as int).last() == '.');
            assert(last_dot(name@) == k - 1);
        }
    }
    if k <= 1 {
        return false;
    }
    let ghost tail = name@.skip(k as int);
    if n - k != want.len() {
        assert(lowered(tail).len() != lowered(ext@).len());
        return false;
    }
    let mut i: usize = 0;
    while i < want.len()
        invariant
            i <= want@.len(),
            n - k == want@.len(),
            k <= n == cs@.len(),
            cs@ == name@,
            want@ == ext@,
            tail == name@.skip(k as int),
            last_dot(name@) == k - 1,
            k > 1,
            forall|j: int| 0 <= j < i ==> lower_char(#[trigger] tail[j]) == lower_char(want@[j]),
        decreases want@.len() - i,
    {
        let c = cs[k + i];
        assert(tail[i as int] == c);
        if lower_of(c) != lower_of(want[i]) {
            assert(lowered(tail)[i as int] != lowered(ext@)[i as int]);
            assert(lowered(tail) != lowered(ext@));
            return false;
        }
        i = i + 1;
    }
    assert(lowered(tail) =~= lowered(ext@));
    true
}

/// Whether `s` is in order: no entry comes before one ahead of it.
pub open spec fn in_order(s: Seq<Seq<char>>) -> bool {
    forall|i: int, j: int| 0 <= i < j < s.len() ==> !lex_lt(#[trigger] s[j], #[trigger] s[i])
}

/// `names` sorted, as std's `sort` orders strings.
pub fn sorted(names: Vec<String>) -> (r: Vec<String>)
    ensures
        in_order(views(r@)),
        views(r@).to_multiset() == views(names@).to_multiset(),
{
    broadcast use vstd::seq_lib::group_to_multiset_ensures;

    let mut out: Vec<String> = Vec::new();
    let mut k: usize = 0;
    let ghost all = views(names@);
    assert(all.take(0) =~= Seq::<Seq<char>>::empty());
    assert(views(out@) =~= Seq::<Seq<char>>::empty());
    while k < names.len()
        invariant
            k <= names@.len(),
            all == views(names@),
            in_order(views(out@)),
            views(out@).to_multiset() == all.take(k as int).to_multiset(),
        decreases names@.len() - k,
    {
        let x = &names[k];
        let mut p: usize = 0;
        while p < out.len() && !lex_less(x.as_str(), out[p].as_str())
            invariant
                p <= out@.len(),
                forall|i: int| 0 <= i < p ==> !lex_lt(x@, #[trigger] views(out@)[i]),
            decreases out@.len() - p,
        {
            p = p + 1;
        }
        let ghost before = views(out@);
        out.insert(p, x.clone());
        proof {
            assert(views(out@) =~= before.insert(p as int, x@));
            vstd::seq_lib::to_multiset_insert(before, p as int, x@);
            assert(all[k as int] == x@);
            assert(all.take(k + 1) =~= all.take(k as int).push(x@));
            vstd::seq_lib::to_multiset_build(all.take(k as int), x@);
            let after = views(out@);
            assert forall|i: int, j: int| 0 <= i < j < after.len() implies !lex_lt(
                #[trigger] after[j],
                #[trigger] after[i],
            ) by {
                if j == p {
                    assert(after[i] == before[i]);
                } else if i == p {
                    assert(after[j] == before[j - 1]);
                    lemma_lex_irreflexive(x@);
                    if lex_lt(before[j - 1], x@) {
                        if j - 1 > p {
                            assert(!lex_lt(before[j - 1], before[p as int]));
                            lemma_lex_transitive(before[j - 1], x@, before[p as int]);
                        } else {
                            lemma_lex_transitive(x@, before[p as int], x@);
                        }
                    }
                } else if i < p && j < p {
                    assert(after[i] == before[i] && after[j] == before[j]);
                } else if i < p && j > p {
                    assert(after[i] == before[i] && after[j] == before[j - 1]);
                } else {
                    assert(after[i] == before[i - 1] && after[j] == before[j - 1]);
                }
            }
        }
        k = k + 1;
    }
    assert(all.take(k as int) =~= all);
    out
}

} // verus!
