//! Text helpers with their meaning stated over sequences of characters.

use vstd::prelude::*;
use vstd::string::*;

verus! {

/// Appends `c` to `s`. Calls std's `String::push`, which documents that it
/// appends the given char to the end of the string.
#[verifier::external_body]
pub fn push_char(s: &mut String, c: char)
    ensures
        final(s)@ == old(s)@.push(c),
{
    s.push(c);
}

/// The characters of `s`, in order.
pub fn chars_of(s: &str) -> (r: Vec<char>)
    ensures
        r@ == s@,
{
    let mut out: Vec<char> = Vec::new();
    for c in it: s.chars()
        invariant
            out@ == it.seq().take(it.index() as int),
    {
        out.push(c);
    }
    out
}

/// The string made of the characters `cs[from..to]`.
pub fn from_chars(cs: &Vec<char>, from: usize, to: usize) -> (r: String)
    requires
        from <= to <= cs@.len(),
    ensures
        r@ == cs@.subrange(from as int, to as int),
{
    let mut out = String::new();
    let mut i = from;
    while i < to
        invariant
            from <= i <= to <= cs@.len(),
            out@ == cs@.subrange(from as int, i as int),
        decreases to - i,
    {
        push_char(&mut out, cs[i]);
        assert(cs@.subrange(from as int, i + 1) =~= cs@.subrange(from as int, i as int).push(cs@[i as int]));
        i = i + 1;
    }
    out
}

/// An owned copy of a string slice.
pub fn owned(s: &str) -> (r: String)
    ensures
        r@ == s@,
{
    String::from_str(s)
}

/// The concatenation of `a` and `b`.
pub fn cat(a: &str, b: &str) -> (r: String)
    ensures
        r@ == a@ + b@,
{
    String::from_str(a).concat(b)
}

/// The concatenation of `a`, `b` and `c`.
pub fn cat3(a: &str, b: &str, c: &str) -> (r: String)
    ensures
        r@ == a@ + b@ + c@,
{
    String::from_str(a).concat(b).concat(c)
}

/// The decimal digit `d`, for `d < 10`.
pub open spec fn digit_char(d: nat) -> char {
    seq!['0', '1', '2', '3', '4', '5', '6', '7', '8', '9'][d as int]
}

/// The decimal rendering of `n`, most significant digit first, no leading zeros.
pub open spec fn decimal(n: nat) -> Seq<char>
    decreases n,
{
    if n < 10 {
        seq![digit_char(n)]
    } else {
        decimal(n / 10).push(digit_char(n % 10))
    }
}

fn digit(d: u64) -> (c: char)
    requires
        d < 10,
    ensures
        c == digit_char(d as nat),
{
    if d == 0 { '0' }
    else if d == 1 { '1' }
    else if d == 2 { '2' }
    else if d == 3 { '3' }
    else if d == 4 { '4' }
    else if d == 5 { '5' }
    else if d == 6 { '6' }
    else if d == 7 { '7' }
    else if d == 8 { '8' }
    else { '9' }
}

/// `n` written in decimal.
pub fn decimal_text(n: u64) -> (r: String)
    ensures
        r@ == decimal(n as nat),
    decreases n,
{
    if n < 10 {
        let mut s = String::new();
        push_char(&mut s, digit(n));
        s
    } else {
        let mut s = decimal_text(n / 10);
        push_char(&mut s, digit(n % 10));
        s
    }
}

/// The views of a list of strings.
pub open spec fn views(parts: Seq<String>) -> Seq<Seq<char>> {
    parts.map_values(|p: String| p@)
}

/// An optional string, as seen by specifications.
pub open spec fn opt_text(o: Option<String>) -> Option<Seq<char>> {
    match o {
        Some(s) => Some(s@),
        None => None,
    }
}

/// Optional strings, as seen by specifications.
pub open spec fn opt_texts(list: Seq<Option<String>>) -> Seq<Option<Seq<char>>> {
    list.map_values(|o: Option<String>| opt_text(o))
}

/// The parts with `sep` between each two neighbours.
pub open spec fn joined(parts: Seq<Seq<char>>, sep: Seq<char>) -> Seq<char>
    decreases parts.len(),
{
    if parts.len() == 0 {
        Seq::empty()
    } else if parts.len() == 1 {
        parts[0]
    } else {
        joined(parts.drop_last(), sep) + sep + parts.last()
    }
}

/// The strings of `parts` with `sep` between each two neighbours.
pub fn join(parts: &Vec<String>, sep: &str) -> (r: String)
    ensures
        r@ == joined(views(parts@), sep@),
{
    let mut out = String::new();
    let ghost all = views(parts@);
    let mut i: usize = 0;
    while i < parts.len()
        invariant
            i <= parts@.len(),
            all == views(parts@),
            out@ == joined(all.take(i as int), sep@),
        decreases parts@.len() - i,
    {
        assert(all.take(i + 1).drop_last() =~= all.take(i as int));
        if i > 0 {
            out.append(sep);
        }
        out.append(parts[i].as_str());
        i = i + 1;
    }
    assert(all.take(parts@.len() as int) =~= all);
    out
}

/// Whether `c` has the Unicode White_Space property, the test std's
/// `char::is_whitespace` makes.
pub open spec fn is_space(c: char) -> bool {
    let u = c as u32;
    ||| 0x9 <= u <= 0xd
    ||| u == 0x20
    ||| u == 0x85
    ||| u == 0xa0
    ||| u == 0x1680
    ||| 0x2000 <= u <= 0x200a
    ||| u == 0x2028
    ||| u == 0x2029
    ||| u == 0x202f
    ||| u == 0x205f
    ||| u == 0x3000
}

/// Decides `is_space`.
pub fn space(c: char) -> (r: bool)
    ensures
        r == is_space(c),
{
    let u = c as u32;
    (0x9 <= u && u <= 0xd) || u == 0x20 || u == 0x85 || u == 0xa0 || u == 0x1680 || (0x2000
        <= u && u <= 0x200a) || u == 0x2028 || u == 0x2029 || u == 0x202f || u == 0x205f || u
        == 0x3000
}

/// `s` without its leading white space.
pub open spec fn trim_start(s: Seq<char>) -> Seq<char>
    decreases s.len(),
{
    if s.len() > 0 && is_space(s[0]) {
        trim_start(s.drop_first())
    } else {
        s
    }
}

/// `s` without its trailing white space.
pub open spec fn trim_end(s: Seq<char>) -> Seq<char>
    decreases s.len(),
{
    if s.len() > 0 && is_space(s.last()) {
        trim_end(s.drop_last())
    } else {
        s
    }
}

/// `s` without leading and trailing white space, as std's `str::trim`.
pub open spec fn trim(s: Seq<char>) -> Seq<char> {
    trim_end(trim_start(s))
}

/// `trim_start` drops a run of white space at the front and nothing else:
/// what it leaves is a suffix that does not start with white space.
pub proof fn lemma_trim_start_suffix(s: Seq<char>)
    ensures
        exists|b: int| 0 <= b <= s.len() && trim_start(s) == s.skip(b)
            && forall|k: int| 0 <= k < b ==> is_space(#[trigger] s[k]),
        trim_start(s).len() > 0 ==> !is_space(trim_start(s)[0]),
    decreases s.len(),
{
    if s.len() > 0 && is_space(s[0]) {
        let rest = s.drop_first();
        lemma_trim_start_suffix(rest);
        let b = choose|b: int| 0 <= b <= rest.len() && trim_start(rest) == rest.skip(b)
            && forall|k: int| 0 <= k < b ==> is_space(#[trigger] rest[k]);
        assert(rest.skip(b) =~= s.skip(b + 1));
        assert forall|k: int| 0 <= k < b + 1 implies is_space(#[trigger] s[k]) by {
            if k > 0 {
                assert(s[k] == rest[k - 1]);
            }
        }
    } else {
        assert(s.skip(0) =~= s);
    }
}

/// `trim_end` drops a run of white space at the back and nothing else:
/// what it leaves is a prefix that does not end with white space.
pub proof fn lemma_trim_end_prefix(s: Seq<char>)
    ensures
        exists|e: int| 0 <= e <= s.len() && trim_end(s) == s.take(e)
            && forall|k: int| e <= k < s.len() ==> is_space(#[trigger] s[k]),
        trim_end(s).len() > 0 ==> !is_space(trim_end(s).last()),
    decreases s.len(),
{
    if s.len() > 0 && is_space(s.last()) {
        let front = s.drop_last();
        lemma_trim_end_prefix(front);
        let e = choose|e: int| 0 <= e <= front.len() && trim_end(front) == front.take(e)
            && forall|k: int| e <= k < front.len() ==> is_space(#[trigger] front[k]);
        assert(front.take(e) =~= s.take(e));
        assert forall|k: int| e <= k < s.len() implies is_space(#[trigger] s[k]) by {
            if k < s.len() - 1 {
                assert(s[k] == front[k]);
            }
        }
    } else {
        assert(s.take(s.len() as int) =~= s);
    }
}

/// `trim` keeps one stretch of `s` whole, starting at the index returned:
/// everything before it and after it is white space, and it neither starts
/// nor ends with white space.
pub proof fn lemma_trim_stretch(s: Seq<char>) -> (a: int)
    ensures
        0 <= a && a + trim(s).len() <= s.len(),
        s.subrange(a, a + trim(s).len()) == trim(s),
        forall|k: int| 0 <= k < a ==> is_space(#[trigger] s[k]),
        forall|k: int| a + trim(s).len() <= k < s.len() ==> is_space(#[trigger] s[k]),
        trim(s).len() > 0 ==> !is_space(trim(s)[0]) && !is_space(trim(s).last()),
{
    lemma_trim_start_suffix(s);
    let u = trim_start(s);
    lemma_trim_end_prefix(u);
    let b = choose|b: int| 0 <= b <= s.len() && trim_start(s) == s.skip(b)
        && forall|k: int| 0 <= k < b ==> is_space(#[trigger] s[k]);
    let e = choose|e: int| 0 <= e <= u.len() && trim_end(u) == u.take(e)
        && forall|k: int| e <= k < u.len() ==> is_space(#[trigger] u[k]);
    assert(trim(s) == u.take(e));
    assert(s.subrange(b, b + e) =~= u.take(e));
    assert forall|k: int| b + e <= k < s.len() implies is_space(#[trigger] s[k]) by {
        assert(s[k] == u[k - b]);
    }
    if trim(s).len() > 0 {
        assert(trim(s)[0] == u[0]);
    }
    b
}

/// Bounds `(a, b)` such that `cs[a..b]` is `cs[from..to]` trimmed.
pub fn trim_bounds(cs: &Vec<char>, from: usize, to: usize) -> (r: (usize, usize))
    requires
        from <= to <= cs@.len(),
    ensures
        from <= r.0 <= r.1 <= to,
        cs@.subrange(r.0 as int, r.1 as int) == trim(cs@.subrange(from as int, to as int)),
{
    let ghost whole = cs@.subrange(from as int, to as int);
    let mut a = from;
    while a < to && space(cs[a])
        invariant
            from <= a <= to <= cs@.len(),
            trim_start(whole) == trim_start(cs@.subrange(a as int, to as int)),
        decreases to - a,
    {
        assert(cs@.subrange(a as int, to as int).drop_first() =~= cs@.subrange(a + 1, to as int));
        a = a + 1;
    }
    assert(trim_start(whole) == cs@.subrange(a as int, to as int));
    let mut b = to;
    while b > a && space(cs[b - 1])
        invariant
            from <= a <= b <= to <= cs@.len(),
            trim_end(trim_start(whole)) == trim_end(cs@.subrange(a as int, b as int)),
        decreases b - a,
    {
        assert(cs@.subrange(a as int, b as int).drop_last() =~= cs@.subrange(a as int, b - 1));
        b = b - 1;
    }
    (a, b)
}

/// `s` trimmed of white space at both ends.
pub fn trimmed(s: &str) -> (r: String)
    ensures
        r@ == trim(s@),
{
    let cs = chars_of(s);
    let (a, b) = trim_bounds(&cs, 0, cs.len());
    assert(cs@.subrange(0, cs@.len() as int) =~= cs@);
    from_chars(&cs, a, b)
}

/// Whether `s` holds anything but white space.
pub open spec fn has_text(s: Seq<char>) -> bool {
    exists|i: int| 0 <= i < s.len() && !is_space(#[trigger] s[i])
}

/// Decides `has_text`.
pub fn not_blank(s: &str) -> (r: bool)
    ensures
        r == has_text(s@),
{
    let cs = chars_of(s);
    let mut i: usize = 0;
    while i < cs.len()
        invariant
            i <= cs@.len(),
            cs@ == s@,
            forall|j: int| 0 <= j < i ==> is_space(#[trigger] cs@[j]),
        decreases cs@.len() - i,
    {
        if !space(cs[i]) {
            return true;
        }
        i = i + 1;
    }
    false
}

/// The index of the first line feed in `s` at or after `i`, or `s.len()`.
pub open spec fn first_newline(s: Seq<char>, i: int) -> int
    decreases s.len() - i,
{
    if i < 0 || i >= s.len() {
        s.len() as int
    } else if s[i] == '\n' {
        i
    } else {
        first_newline(s, i + 1)
    }
}

/// `first_newline` lies between `i` and the end.
pub proof fn lemma_first_newline_bounds(s: Seq<char>, i: int)
    requires
        0 <= i <= s.len(),
    ensures
        i <= first_newline(s, i) <= s.len(),
        first_newline(s, i) < s.len() ==> s[first_newline(s, i)] == '\n',
    decreases s.len() - i,
{
    if i < s.len() && s[i] != '\n' {
        lemma_first_newline_bounds(s, i + 1);
    }
}

/// `t` without one trailing carriage return.
pub open spec fn strip_cr(t: Seq<char>) -> Seq<char> {
    if t.len() > 0 && t.last() == '\r' {
        t.drop_last()
    } else {
        t
    }
}

/// The lines of `s` from index `i` on, as std's `str::lines` gives them: split
/// at each line feed, a carriage return just before it dropped, and no empty
/// line after a final line feed.
pub open spec fn lines_from(s: Seq<char>, i: int) -> Seq<Seq<char>>
    decreases s.len() - i,
{
    if i < 0 || i >= s.len() {
        Seq::empty()
    } else {
        let j = first_newline(s, i);
        if j >= s.len() {
            seq![s.subrange(i, s.len() as int)]
        } else {
            proof {
                lemma_first_newline_bounds(s, i);
            }
            seq![strip_cr(s.subrange(i, j))] + lines_from(s, j + 1)
        }
    }
}

/// The lines of `s`.
pub open spec fn lines_of(s: Seq<char>) -> Seq<Seq<char>> {
    lines_from(s, 0)
}

/// The lines of `s`, as std's `str::lines` splits them.
pub fn lines(s: &str) -> (r: Vec<String>)
    ensures
        views(r@) == lines_of(s@),
{
    let cs = chars_of(s);
    let n = cs.len();
    let mut out: Vec<String> = Vec::new();
    let mut i: usize = 0;
    while i < n
        invariant
            n == cs@.len(),
            cs@ == s@,
            i <= n,
            views(out@) + lines_from(cs@, i as int) == lines_of(cs@),
        decreases n - i,
    {
        let mut j = i;
        while j < n && cs[j] != '\n'
            invariant
                i <= j <= n,
                n == cs@.len(),
                first_newline(cs@, i as int) == first_newline(cs@, j as int),
            decreases n - j,
        {
            j = j + 1;
        }
        let ghost before = out@;
        if j >= n {
            out.push(from_chars(&cs, i, n));
            assert(views(out@) =~= views(before).push(cs@.subrange(i as int, n as int)));
            assert(lines_from(cs@, n as int) =~= Seq::<Seq<char>>::empty());
            i = n;
        } else {
            let mut end = j;
            if end > i && cs[end - 1] == '\r' {
                end = end - 1;
            }
            let line = from_chars(&cs, i, end);
            proof {
                let t = cs@.subrange(i as int, j as int);
                if j > i && cs@[j - 1] == '\r' {
                    assert(t.drop_last() =~= cs@.subrange(i as int, end as int));
                } else {
                    assert(t =~= cs@.subrange(i as int, end as int));
                }
            }
            out.push(line);
            assert(views(out@) =~= views(before).push(strip_cr(cs@.subrange(i as int, j as int))));
            i = j + 1;
        }
    }
    assert(lines_from(cs@, i as int) =~= Seq::<Seq<char>>::empty());
    out
}

/// The first index at or after `i` whose character is (`space`) or is not
/// (`!space`) white space, or `s.len()`.
pub open spec fn next_where(s: Seq<char>, i: int, space: bool) -> int
    decreases s.len() - i,
{
    if i < 0 || i >= s.len() {
        s.len() as int
    } else if is_space(s[i]) == space {
        i
    } else {
        next_where(s, i + 1, space)
    }
}

/// `next_where` lies between `i` and the end, and stops at a fitting character.
pub proof fn lemma_next_where(s: Seq<char>, i: int, space: bool)
    requires
        0 <= i <= s.len(),
    ensures
        i <= next_where(s, i, space) <= s.len(),
        next_where(s, i, space) < s.len() ==> is_space(s[next_where(s, i, space)]) == space,
        forall|k: int| i <= k < next_where(s, i, space) ==> is_space(#[trigger] s[k]) != space,
    decreases s.len() - i,
{
    if i < s.len() && is_space(s[i]) != space {
        lemma_next_where(s, i + 1, space);
    }
}

/// The white-space separated words of `s` from index `i` on, as std's
/// `str::split_whitespace` gives them.
pub open spec fn words_from(s: Seq<char>, i: int) -> Seq<Seq<char>>
    decreases s.len() - i,
{
    if i < 0 || i > s.len() {
        Seq::empty()
    } else {
        let a = next_where(s, i, false);
        if a >= s.len() {
            Seq::empty()
        } else {
            let b = next_where(s, a, true);
            proof {
                lemma_next_where(s, i, false);
                lemma_next_where(s, a, true);
            }
            seq![s.subrange(a, b)] + words_from(s, b)
        }
    }
}

/// The white-space separated words of `s`.
pub open spec fn words_of(s: Seq<char>) -> Seq<Seq<char>> {
    words_from(s, 0)
}

/// The words of `s`, as std's `str::split_whitespace` splits them.
pub fn words(s: &str) -> (r: Vec<String>)
    ensures
        views(r@) == words_of(s@),
{
    let cs = chars_of(s);
    let n = cs.len();
    let mut out: Vec<String> = Vec::new();
    let mut i: usize = 0;
    while i < n
        invariant
            n == cs@.len(),
            cs@ == s@,
            i <= n,
            views(out@) + words_from(cs@, i as int) == words_of(cs@),
        decreases n - i,
    {
        let mut a = i;
        while a < n && space(cs[a])
            invariant
                i <= a <= n,
                n == cs@.len(),
                next_where(cs@, i as int, false) == next_where(cs@, a as int, false),
            decreases n - a,
        {
            a = a + 1;
        }
        if a >= n {
            assert(words_from(cs@, i as int) =~= Seq::<Seq<char>>::empty());
            assert(views(out@) =~= words_of(cs@));
            i = n;
        } else {
            let mut b = a;
            while b < n && !space(cs[b])
                invariant
                    a <= b <= n,
                    n == cs@.len(),
                    next_where(cs@, a as int, true) == next_where(cs@, b as int, true),
                decreases n - b,
            {
                b = b + 1;
            }
            let ghost before = out@;
            out.push(from_chars(&cs, a, b));
            assert(views(out@) =~= views(before).push(cs@.subrange(a as int, b as int)));
            i = b;
        }
    }
    assert(words_from(cs@, n as int) =~= Seq::<Seq<char>>::empty());
    out
}

/// Whether `c` is a control character (Unicode category Cc), the test std's
/// `char::is_control` makes.
pub open spec fn is_control(c: char) -> bool {
    (c as u32) <= 0x1f || (0x7f <= (c as u32) <= 0x9f)
}

/// Decides `is_control`.
pub fn control(c: char) -> (r: bool)
    ensures
        r == is_control(c),
{
    let u = c as u32;
    u <= 0x1f || (0x7f <= u && u <= 0x9f)
}

/// Whether `pat` occurs in `s` at index `k`.
pub open spec fn occurs_at(s: Seq<char>, pat: Seq<char>, k: int) -> bool {
    0 <= k && k + pat.len() <= s.len() && s.subrange(k, k + pat.len()) == pat
}

/// The first index at or after `i` where `pat` occurs in `s`.
pub open spec fn find_from(s: Seq<char>, pat: Seq<char>, i: int) -> Option<int>
    decreases s.len() + 1 - i,
{
    if i < 0 || i + pat.len() > s.len() {
        None
    } else if occurs_at(s, pat, i) {
        Some(i)
    } else {
        find_from(s, pat, i + 1)
    }
}

fn occurs_here(cs: &Vec<char>, pat: &Vec<char>, k: usize) -> (r: bool)
    requires
        k + pat@.len() <= cs@.len(),
    ensures
        r == occurs_at(cs@, pat@, k as int),
{
    let n = cs.len();
    let mut j: usize = 0;
    while j < pat.len()
        invariant
            j <= pat@.len(),
            n == cs@.len(),
            k + pat@.len() <= cs@.len(),
            forall|m: int| 0 <= m < j ==> cs@[k + m] == pat@[m],
        decreases pat@.len() - j,
    {
        if cs[k + j] != pat[j] {
            assert(cs@.subrange(k as int, k + pat@.len())[j as int] != pat@[j as int]);
            return false;
        }
        j = j + 1;
    }
    assert(cs@.subrange(k as int, k + pat@.len()) =~= pat@);
    true
}

/// Where `find_from` finds `pat`, at or after `i`, the whole of it lies in `s`.
pub proof fn lemma_find_from_fits(s: Seq<char>, pat: Seq<char>, i: int)
    ensures
        find_from(s, pat, i) matches Some(k) ==> i <= k && k + pat.len() <= s.len(),
    decreases s.len() + 1 - i,
{
    if !(i < 0 || i + pat.len() > s.len()) && !occurs_at(s, pat, i) {
        lemma_find_from_fits(s, pat, i + 1);
    }
}

/// The first index at or after `from` where `pat` occurs in `cs`.
pub fn find_in_chars(cs: &Vec<char>, pat: &Vec<char>, from: usize) -> (r: Option<usize>)
    requires
        from <= cs@.len(),
    ensures
        match r {
            Some(k) => find_from(cs@, pat@, from as int) == Some(k as int),
            None => find_from(cs@, pat@, from as int) is None,
        },
{
    if pat.len() > cs.len() {
        assert(find_from(cs@, pat@, from as int) is None);
        return None;
    }
    let last = cs.len() - pat.len();
    let mut k = from;
    while k <= last
        invariant
            from <= k,
            last + pat@.len() == cs@.len(),
            find_from(cs@, pat@, from as int) == find_from(cs@, pat@, k as int),
        decreases last + 1 - k,
    {
        if occurs_here(cs, pat, k) {
            return Some(k);
        }
        assert(find_from(cs@, pat@, k as int) == find_from(cs@, pat@, k + 1));
        if k == last {
            assert(find_from(cs@, pat@, k + 1) is None);
            return None;
        }
        k = k + 1;
    }
    None
}

/// The index of the first `sep` in `s` at or after `i`, or `s.len()`.
pub open spec fn next_sep(s: Seq<char>, sep: char, i: int) -> int
    decreases s.len() - i,
{
    if i < 0 || i >= s.len() {
        s.len() as int
    } else if s[i] == sep {
        i
    } else {
        next_sep(s, sep, i + 1)
    }
}

/// `next_sep` lies between `i` and the end.
pub proof fn lemma_next_sep(s: Seq<char>, sep: char, i: int)
    requires
        0 <= i <= s.len(),
    ensures
        i <= next_sep(s, sep, i) <= s.len(),
    decreases s.len() - i,
{
    if i < s.len() && s[i] != sep {
        lemma_next_sep(s, sep, i + 1);
    }
}

/// The pieces of `s` from `i` on between the separators `sep`, as std's
/// `str::split` with a char gives them: empty pieces included.
pub open spec fn split_from(s: Seq<char>, sep: char, i: int) -> Seq<Seq<char>>
    decreases s.len() + 1 - i,
{
    if i < 0 || i > s.len() {
        Seq::empty()
    } else {
        let j = next_sep(s, sep, i);
        proof {
            lemma_next_sep(s, sep, i);
        }
        if j >= s.len() {
            seq![s.subrange(i, s.len() as int)]
        } else {
            seq![s.subrange(i, j)] + split_from(s, sep, j + 1)
        }
    }
}

/// The pieces of `cs[from..to]` between the separators `sep`.
pub fn split_chars(cs: &Vec<char>, from: usize, to: usize, sep: char) -> (r: Vec<String>)
    requires
        from <= to <= cs@.len(),
    ensures
        views(r@) == split_from(cs@.subrange(from as int, to as int), sep, 0),
{
    let ghost s = cs@.subrange(from as int, to as int);
    let mut out: Vec<String> = Vec::new();
    let mut i = from;
    loop
        invariant
            from <= i <= to,
            to <= cs@.len(),
            s == cs@.subrange(from as int, to as int),
            views(out@) + split_from(s, sep, i - from) == split_from(s, sep, 0),
        decreases to - i,
    {
        let mut j = i;
        while j < to && cs[j] != sep
            invariant
                from <= i <= j <= to,
                to <= cs@.len(),
                s == cs@.subrange(from as int, to as int),
                next_sep(s, sep, i - from) == next_sep(s, sep, j - from),
            decreases to - j,
        {
            assert(s[j - from] == cs@[j as int]);
            j = j + 1;
        }
        proof {
            if j < to {
                assert(s[j - from] == cs@[j as int]);
            }
        }
        let ghost before = views(out@);
        out.push(from_chars(cs, i, j));
        assert(s.subrange(i - from, j - from) =~= cs@.subrange(i as int, j as int));
        assert(views(out@) =~= before.push(cs@.subrange(i as int, j as int)));
        if j >= to {
            return out;
        }
        i = j + 1;
    }
}

/// Whether `c` is an ASCII decimal digit.
pub open spec fn is_digit(c: char) -> bool {
    '0' <= c <= '9'
}

/// The value of a string of decimal digits.
pub open spec fn digits_value(s: Seq<char>) -> nat
    decreases s.len(),
{
    if s.len() == 0 {
        0
    } else {
        digits_value(s.drop_last()) * 10 + ((s.last() as u32) - 48) as nat
    }
}

/// What std's `u32::from_str` gives: an optional `+`, then one or more
/// decimal digits whose value fits in 32 bits.
pub open spec fn parse_u32(s: Seq<char>) -> Option<u32> {
    parse_digits(unsigned_body(s))
}

/// `s` without one leading `+`.
pub open spec fn unsigned_body(s: Seq<char>) -> Seq<char> {
    if s.len() > 0 && s[0] == '+' {
        s.drop_first()
    } else {
        s
    }
}

/// Whether every character of `s` is a decimal digit.
pub open spec fn all_digits(s: Seq<char>) -> bool {
    forall|i: int| 0 <= i < s.len() ==> is_digit(#[trigger] s[i])
}

/// The value of one or more decimal digits, if it fits in 32 bits.
pub open spec fn parse_digits(body: Seq<char>) -> Option<u32> {
    if body.len() > 0 && all_digits(body) && digits_value(body) <= u32::MAX {
        Some(digits_value(body) as u32)
    } else {
        None
    }
}

/// Parses `cs[from..to]` as `u32::from_str` would.
pub fn parse_u32_in(cs: &Vec<char>, from: usize, to: usize) -> (r: Option<u32>)
    requires
        from <= to <= cs@.len(),
    ensures
        r == parse_u32(cs@.subrange(from as int, to as int)),
{
    let ghost s = cs@.subrange(from as int, to as int);
    let start = if from < to && cs[from] == '+' { from + 1 } else { from };
    let ghost body = cs@.subrange(start as int, to as int);
    assert(body =~= unsigned_body(s));
    if start == to {
        return None;
    }
    let mut value: u64 = 0;
    let mut i = start;
    while i < to
        invariant
            start <= i <= to <= cs@.len(),
            body == cs@.subrange(start as int, to as int),
            body == unsigned_body(cs@.subrange(from as int, to as int)),
            value == digits_value(cs@.subrange(start as int, i as int)),
            value <= u32::MAX,
            forall|k: int| start <= k < i ==> is_digit(#[trigger] cs@[k]),
        decreases to - i,
    {
        let c = cs[i];
        assert(cs@.subrange(start as int, i + 1).drop_last() =~= cs@.subrange(start as int, i as int));
        if !('0' <= c && c <= '9') {
            assert(body[i - start] == c);
            assert(!is_digit(body[i - start]));
            assert(!all_digits(body));
            return None;
        }
        let d = (c as u32 - 48) as u64;
        let next = value * 10 + d;
        if next > 0xffff_ffff {
            proof {
                assert(body.take(i - start + 1) =~= cs@.subrange(start as int, i + 1));
                if all_digits(body) {
                    lemma_digits_grow(body, i - start + 1);
                }
            }
            return None;
        }
        value = next;
        i = i + 1;
    }
    assert(cs@.subrange(start as int, i as int) =~= body);
    Some(value as u32)
}

/// A string of digits is worth at least what any of its prefixes is worth.
proof fn lemma_digits_grow(s: Seq<char>, k: int)
    requires
        0 <= k <= s.len(),
        all_digits(s),
    ensures
        digits_value(s.take(k)) <= digits_value(s),
    decreases s.len() - k,
{
    if k < s.len() {
        lemma_digits_grow(s, k + 1);
        assert(s.take(k + 1).drop_last() =~= s.take(k));
    } else {
        assert(s.take(k) =~= s);
    }
}

} // verus!
