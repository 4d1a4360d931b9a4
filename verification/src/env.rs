//! A snapshot of the environment variables the build depends on.

use crate::text::{
    cat, cat3, chars_of, find_from, find_in_chars, lemma_find_from_fits, from_chars, lemma_next_sep, lemma_next_where,
    lines, lines_of, next_sep, next_where, owned, push_char, space, trim, trim_bounds, trim_end,
    views, is_space, trim_start, lemma_trim_end_prefix, lemma_trim_stretch,
    opt_text, opt_texts,
};
use vstd::prelude::*;

verus! {

/// The folders of PATH, LIB and LD_LIBRARY_PATH, where they were read from,
/// and the entries that differ between the saved settings and this process.
#[derive(Clone)]
pub struct EnvSnapshot {
    pub path: Vec<String>,
    pub lib: Vec<String>,
    pub lib_defined: bool,
    pub library_path: Vec<String>,
    pub source: &'static str,
    pub missing_here: Vec<String>,
    pub session_only: Vec<String>,
}

/// A snapshot, as seen by specifications.
pub struct EnvView {
    pub path: Seq<Seq<char>>,
    pub lib: Seq<Seq<char>>,
    pub lib_defined: bool,
    pub library_path: Seq<Seq<char>>,
    pub source: Seq<char>,
    pub missing_here: Seq<Seq<char>>,
    pub session_only: Seq<Seq<char>>,
}

impl View for EnvSnapshot {
    type V = EnvView;

    open spec fn view(&self) -> EnvView {
        EnvView {
            path: views(self.path@),
            lib: views(self.lib@),
            lib_defined: self.lib_defined,
            library_path: views(self.library_path@),
            source: self.source@,
            missing_here: views(self.missing_here@),
            session_only: views(self.session_only@),
        }
    }
}

/// The snapshot before anything is read: no folders, no LIB, no source.
pub open spec fn empty_view() -> EnvView {
    EnvView {
        path: Seq::empty(),
        lib: Seq::empty(),
        lib_defined: false,
        library_path: Seq::empty(),
        source: Seq::empty(),
        missing_here: Seq::empty(),
        session_only: Seq::empty(),
    }
}

impl EnvSnapshot {
    /// A snapshot with nothing read yet.
    pub fn empty() -> (r: Self)
        ensures
            r@ == empty_view(),
    {
        proof {
            reveal_strlit("");
        }
        let r = EnvSnapshot {
            path: Vec::new(),
            lib: Vec::new(),
            lib_defined: false,
            library_path: Vec::new(),
            source: "",
            missing_here: Vec::new(),
            session_only: Vec::new(),
        };
        assert(r@.path =~= Seq::<Seq<char>>::empty());
        assert(r@.lib =~= Seq::<Seq<char>>::empty());
        assert(r@.library_path =~= Seq::<Seq<char>>::empty());
        assert(r@.missing_here =~= Seq::<Seq<char>>::empty());
        assert(r@.session_only =~= Seq::<Seq<char>>::empty());
        assert(r@.source =~= Seq::<char>::empty());
        r
    }

    /// Whether the saved settings hold entries this process does not see.
    pub fn is_stale(&self) -> (r: bool)
        ensures
            r == (self.missing_here@.len() > 0),
    {
        self.missing_here.len() > 0
    }
}

/// The non-empty entries of `parts`, in order.
pub open spec fn kept(parts: Seq<Seq<char>>) -> Seq<Seq<char>>
    decreases parts.len(),
{
    if parts.len() == 0 {
        Seq::empty()
    } else if parts.last().len() == 0 {
        kept(parts.drop_last())
    } else {
        kept(parts.drop_last()).push(parts.last())
    }
}

/// The entries of a split search path that name something: the empty ones,
/// which std's `split_paths` yields for doubled or trailing separators, are
/// dropped.
pub fn drop_empty(parts: &Vec<String>) -> (r: Vec<String>)
    ensures
        views(r@) == kept(views(parts@)),
{
    let mut out: Vec<String> = Vec::new();
    let mut i: usize = 0;
    while i < parts.len()
        invariant
            i <= parts@.len(),
            views(out@) == kept(views(parts@).take(i as int)),
        decreases parts@.len() - i,
    {
        let ghost before = views(out@);
        assert(views(parts@).take(i + 1).drop_last() =~= views(parts@).take(i as int));
        if !parts[i].as_str().is_empty() {
            out.push(parts[i].clone());
            assert(views(out@) =~= before.push(parts@[i as int]@));
        }
        i = i + 1;
    }
    assert(views(parts@).take(i as int) =~= views(parts@));
    out
}

/// Whether `c` separates the parts of a path.
pub open spec fn is_slash(c: char) -> bool {
    c == '/' || c == '\\'
}

/// `s` without its trailing slashes and backslashes.
pub open spec fn trim_slashes(s: Seq<char>) -> Seq<char>
    decreases s.len(),
{
    if s.len() > 0 && is_slash(s.last()) {
        trim_slashes(s.drop_last())
    } else {
        s
    }
}

/// One character of a path key: ASCII letters in lower case, every slash a
/// backslash.
pub open spec fn key_char(c: char) -> char {
    if c == '/' {
        '\\'
    } else if 'A' <= c <= 'Z' {
        ((c as u32) + 32) as char
    } else {
        c
    }
}

/// The key under which two spellings of one Windows folder compare equal:
/// trailing slashes dropped, ASCII letters lowered, slashes made backslashes.
pub open spec fn path_key(s: Seq<char>) -> Seq<char> {
    trim_slashes(s).map_values(|c: char| key_char(c))
}

fn key_of_char(c: char) -> (r: char)
    ensures
        r == key_char(c),
{
    if c == '/' {
        '\\'
    } else if 'A' <= c && c <= 'Z' {
        let u = ((c as u32) + 32) as u8;
        u as char
    } else {
        c
    }
}

/// The key of a Windows folder, for comparing two lists of folders.
pub fn normalise(path: &str) -> (r: String)
    ensures
        r@ == path_key(path@),
{
    let cs = chars_of(path);
    let mut end = cs.len();
    assert(cs@.take(end as int) =~= cs@);
    while end > 0 && (cs[end - 1] == '/' || cs[end - 1] == '\\')
        invariant
            end <= cs@.len(),
            cs@ == path@,
            trim_slashes(path@) == trim_slashes(cs@.take(end as int)),
        decreases end,
    {
        assert(cs@.take(end as int).drop_last() =~= cs@.take(end - 1));
        end = end - 1;
    }
    assert(trim_slashes(cs@.take(end as int)) == cs@.take(end as int));
    let ghost kept_part = cs@.take(end as int);
    let mut out = String::new();
    let mut i: usize = 0;
    while i < end
        invariant
            i <= end <= cs@.len(),
            kept_part == cs@.take(end as int),
            out@ == kept_part.take(i as int).map_values(|c: char| key_char(c)),
        decreases end - i,
    {
        let k = key_of_char(cs[i]);
        crate::text::push_char(&mut out, k);
        assert(kept_part.take(i + 1).map_values(|c: char| key_char(c)) =~= kept_part.take(
            i as int,
        ).map_values(|c: char| key_char(c)).push(k));
        i = i + 1;
    }
    assert(kept_part.take(end as int) =~= kept_part);
    out
}

/// `acc` with `entry` added at the end unless it is there already.
pub open spec fn with_once(acc: Seq<Seq<char>>, entry: Seq<char>) -> Seq<Seq<char>> {
    if acc.contains(entry) {
        acc
    } else {
        acc.push(entry)
    }
}

/// Adds `entry` to `into` unless `into` holds it already.
pub fn push_once(into: &mut Vec<String>, entry: String)
    ensures
        views(final(into)@) == with_once(views(old(into)@), entry@),
{
    let mut i: usize = 0;
    while i < into.len()
        invariant
            i <= into@.len(),
            forall|k: int| 0 <= k < i ==> into@[k]@ != entry@,
        decreases into@.len() - i,
    {
        if into[i] == entry {
            assert(views(into@)[i as int] == entry@);
            return;
        }
        i = i + 1;
    }
    assert(!views(into@).contains(entry@)) by {
        if views(into@).contains(entry@) {
            let k = choose|k: int| 0 <= k < views(into@).len() && views(into@)[k] == entry@;
            assert(into@[k]@ == entry@);
        }
    }
    let ghost before = views(into@);
    into.push(entry);
    assert(views(into@) =~= before.push(entry@));
}

/// The keys of a list of folders.
pub open spec fn keys(entries: Seq<Seq<char>>) -> Seq<Seq<char>> {
    entries.map_values(|e: Seq<char>| path_key(e))
}

/// `acc` with a note `label entry` added, once, for each entry of `from`
/// whose key is not among the keys of `against`.
pub open spec fn noted(
    acc: Seq<Seq<char>>,
    label: Seq<char>,
    from: Seq<Seq<char>>,
    against: Seq<Seq<char>>,
) -> Seq<Seq<char>>
    decreases from.len(),
{
    if from.len() == 0 {
        acc
    } else {
        let rest = noted(acc, label, from.drop_last(), against);
        if keys(against).contains(path_key(from.last())) {
            rest
        } else {
            with_once(rest, label + " "@ + from.last())
        }
    }
}

fn keys_of(entries: &Vec<String>) -> (r: Vec<String>)
    ensures
        views(r@) == keys(views(entries@)),
{
    let mut out: Vec<String> = Vec::new();
    let mut i: usize = 0;
    while i < entries.len()
        invariant
            i <= entries@.len(),
            views(out@) == keys(views(entries@).take(i as int)),
        decreases entries@.len() - i,
    {
        let ghost before = views(out@);
        out.push(normalise(entries[i].as_str()));
        assert(keys(views(entries@).take(i + 1)) =~= keys(views(entries@).take(i as int)).push(
            path_key(entries@[i as int]@),
        ));
        assert(views(out@) =~= before.push(path_key(entries@[i as int]@)));
        i = i + 1;
    }
    assert(views(entries@).take(i as int) =~= views(entries@));
    out
}

fn holds(list: &Vec<String>, item: &String) -> (r: bool)
    ensures
        r == views(list@).contains(item@),
{
    let mut i: usize = 0;
    while i < list.len()
        invariant
            i <= list@.len(),
            forall|k: int| 0 <= k < i ==> list@[k]@ != item@,
        decreases list@.len() - i,
    {
        if list[i] == *item {
            assert(views(list@)[i as int] == item@);
            return true;
        }
        i = i + 1;
    }
    assert(!views(list@).contains(item@)) by {
        if views(list@).contains(item@) {
            let k = choose|k: int| 0 <= k < views(list@).len() && views(list@)[k] == item@;
            assert(list@[k]@ == item@);
        }
    }
    false
}

fn note(
    label: &str,
    from: &Vec<String>,
    from_keys: &Vec<String>,
    against_keys: &Vec<String>,
    into: &mut Vec<String>,
    Ghost(against): Ghost<Seq<Seq<char>>>,
)
    requires
        views(from_keys@) == keys(views(from@)),
        views(against_keys@) == keys(against),
    ensures
        views(final(into)@) == noted(views(old(into)@), label@, views(from@), against),
{
    let ghost start = views(into@);
    let mut i: usize = 0;
    assert(views(from_keys@).len() == from_keys@.len());
    assert(views(from@).take(0) =~= Seq::<Seq<char>>::empty());
    while i < from.len()
        invariant
            i <= from@.len(),
            from_keys@.len() == from@.len(),
            views(from_keys@) == keys(views(from@)),
            views(against_keys@) == keys(against),
            views(into@) == noted(start, label@, views(from@).take(i as int), against),
        decreases from@.len() - i,
    {
        let ghost f = views(from@).take(i + 1);
        assert(f.drop_last() =~= views(from@).take(i as int));
        assert(f.last() == from@[i as int]@);
        assert(views(from_keys@)[i as int] == path_key(from@[i as int]@));
        let ghost rest = views(into@);
        let found = holds(against_keys, &from_keys[i]);
        if !found {
            let entry = cat3(label, " ", from[i].as_str());
            push_once(into, entry);
            assert(views(into@) == with_once(rest, label@ + " "@ + f.last()));
        }
        assert(views(into@) == noted(start, label@, f, against));
        i = i + 1;
    }
    assert(views(from@).take(i as int) =~= views(from@));
}

/// Notes, under `label`, each folder of the saved settings (`live`) that this
/// process lacks in `missing_here`, and each folder this process has that
/// the saved settings lack in `session_only`; folders compare by their
/// `normalise`d keys, and no note is added twice.
pub fn compare(
    label: &str,
    live: &Vec<String>,
    process: &Vec<String>,
    missing_here: &mut Vec<String>,
    session_only: &mut Vec<String>,
)
    ensures
        views(final(missing_here)@) == noted(
            views(old(missing_here)@),
            label@,
            views(live@),
            views(process@),
        ),
        views(final(session_only)@) == noted(
            views(old(session_only)@),
            label@,
            views(process@),
            views(live@),
        ),
{
    let live_keys = keys_of(live);
    let process_keys = keys_of(process);
    note(label, live, &live_keys, &process_keys, missing_here, Ghost(views(process@)));
    note(label, process, &process_keys, &live_keys, session_only, Ghost(views(live@)));
}

/// A letter in ASCII upper case; other characters unchanged.
pub open spec fn upper_char(c: char) -> char {
    if 'a' <= c <= 'z' {
        ((c as u32) - 32) as char
    } else {
        c
    }
}

/// `s` in ASCII upper case, as std's `to_ascii_uppercase`.
pub open spec fn upper(s: Seq<char>) -> Seq<char> {
    s.map_values(|c: char| upper_char(c))
}

fn upper_of_char(c: char) -> (r: char)
    ensures
        r == upper_char(c),
{
    if 'a' <= c && c <= 'z' {
        let u = ((c as u32) - 32) as u8;
        u as char
    } else {
        c
    }
}

/// The characters `cs[from..to]` in ASCII upper case.
fn upper_text(cs: &Vec<char>, from: usize, to: usize) -> (r: String)
    requires
        from <= to <= cs@.len(),
    ensures
        r@ == upper(cs@.subrange(from as int, to as int)),
{
    let ghost whole = cs@.subrange(from as int, to as int);
    let mut out = String::new();
    let mut i = from;
    while i < to
        invariant
            from <= i <= to <= cs@.len(),
            whole == cs@.subrange(from as int, to as int),
            out@ == upper(whole.take(i - from)),
        decreases to - i,
    {
        let c = upper_of_char(cs[i]);
        push_char(&mut out, c);
        assert(upper(whole.take(i - from + 1)) =~= upper(whole.take(i - from)).push(c));
        i = i + 1;
    }
    assert(whole.take(to - from) =~= whole);
    out
}

/// What follows the first white-space character of `s`; nothing if it has none.
pub open spec fn after_first_space(s: Seq<char>) -> Seq<char> {
    let k = next_where(s, 0, true);
    if k >= s.len() {
        Seq::empty()
    } else {
        s.skip(k + 1)
    }
}

/// The value a line of `reg query` output names: the text before `REG_`,
/// trimmed and in upper case, and the text after the type that follows
/// `REG_`, trimmed; nothing for a line without `REG_` or without a name.
pub open spec fn registry_entry(line: Seq<char>) -> Option<(Seq<char>, Seq<char>)> {
    let t = trim_end(line);
    match find_from(t, "REG_"@, 0) {
        None => None,
        Some(m) => {
            let name = trim(t.take(m));
            if name.len() == 0 {
                None
            } else {
                Some((upper(name), trim(after_first_space(t.skip(m)))))
            }
        },
    }
}

/// Whether `v` stands in `line` from index `a` on, with only white space
/// after it to the end of the line.
pub open spec fn ends_line_at(line: Seq<char>, v: Seq<char>, a: int) -> bool {
    &&& 0 <= a && a + v.len() <= line.len()
    &&& line.subrange(a, a + v.len()) == v
    &&& forall|k: int| a + v.len() <= k < line.len() ==> is_space(#[trigger] line[k])
}

/// The value read from a line of `reg query` output is the rest of the line
/// after the type word, whole: it stands in the line as one stretch, white
/// space inside it kept, with only white space after it, and it neither
/// starts nor ends with white space.
pub proof fn law_registry_value_runs_to_line_end(line: Seq<char>)
    ensures
        match registry_entry(line) {
            Some((_, v)) => {
                &&& exists|a: int| #[trigger] ends_line_at(line, v, a)
                &&& v.len() > 0 ==> !is_space(v[0]) && !is_space(v.last())
            },
            None => true,
        },
{
    let t = trim_end(line);
    lemma_trim_end_prefix(line);
    let e = choose|e: int| 0 <= e <= line.len() && trim_end(line) == line.take(e)
        && forall|k: int| e <= k < line.len() ==> is_space(#[trigger] line[k]);
    lemma_find_from_fits(t, "REG_"@, 0);
    if registry_entry(line) is Some {
        let m = find_from(t, "REG_"@, 0)->0;
        let rest = t.skip(m);
        let (_, v) = registry_entry(line)->0;
        assert(v == trim(after_first_space(rest)));
        lemma_next_where(rest, 0, true);
        let kk = next_where(rest, 0, true);
        if kk >= rest.len() {
            assert(after_first_space(rest) == Seq::<char>::empty());
            assert(trim_start(Seq::<char>::empty()) == Seq::<char>::empty());
            assert(trim_end(Seq::<char>::empty()) == Seq::<char>::empty());
            assert(v.len() == 0);
            assert(line.subrange(line.len() as int, line.len() as int) =~= v);
            assert(ends_line_at(line, v, line.len() as int));
        } else {
            let p = m + kk + 1;
            let after = after_first_space(rest);
            assert(after =~= t.skip(p));
            let a0 = lemma_trim_stretch(after);
            let a = p + a0;
            assert(line.subrange(a, a + v.len()) =~= after.subrange(a0, a0 + v.len()));
            assert forall|k: int| a + v.len() <= k < line.len() implies is_space(#[trigger] line[k]) by {
                if k < e {
                    assert(line[k] == t[k]);
                    assert(t[k] == after[k - p]);
                }
            }
            assert(ends_line_at(line, v, a));
        }
    }
}

/// The values named by `lines`, in order.
pub open spec fn registry_entries(lines: Seq<Seq<char>>) -> Seq<(Seq<char>, Seq<char>)>
    decreases lines.len(),
{
    if lines.len() == 0 {
        Seq::empty()
    } else {
        let rest = registry_entries(lines.drop_last());
        match registry_entry(lines.last()) {
            None => rest,
            Some(e) => rest.push(e),
        }
    }
}

/// Name and value pairs, as seen by specifications.
pub open spec fn pair_views(pairs: Seq<(String, String)>) -> Seq<(Seq<char>, Seq<char>)> {
    pairs.map_values(|p: (String, String)| (p.0@, p.1@))
}

/// Reads one line of `reg query` output.
fn registry_line(line: &str) -> (r: Option<(String, String)>)
    ensures
        match r {
            None => registry_entry(line@) is None,
            Some(p) => registry_entry(line@) == Some((p.0@, p.1@)),
        },
{
    let cs = chars_of(line);
    let mut e = cs.len();
    assert(cs@.take(e as int) =~= cs@);
    while e > 0 && space(cs[e - 1])
        invariant
            e <= cs@.len(),
            cs@ == line@,
            trim_end(line@) == trim_end(cs@.take(e as int)),
        decreases e,
    {
        assert(cs@.take(e as int).drop_last() =~= cs@.take(e - 1));
        e = e - 1;
    }
    let t_text = from_chars(&cs, 0, e);
    let t = chars_of(t_text.as_str());
    assert(t@ =~= trim_end(line@));
    let n = t.len();
    let reg = chars_of("REG_");
    let m = match find_in_chars(&t, &reg, 0) {
        None => {
            return None;
        },
        Some(m) => m,
    };
    proof {
        lemma_find_from_fits(t@, reg@, 0);
    }
    let (a, b) = trim_bounds(&t, 0, m);
    assert(t@.subrange(0, m as int) =~= t@.take(m as int));
    if a == b {
        return None;
    }
    let name = upper_text(&t, a, b);
    let ghost rest = t@.skip(m as int);
    let mut k = m;
    assert(rest.len() == n - m);
    while k < n && !space(t[k])
        invariant
            m <= k <= n == t@.len(),
            rest == t@.skip(m as int),
            next_where(rest, 0, true) == next_where(rest, k - m, true),
        decreases n - k,
    {
        assert(rest[k - m] == t@[k as int]);
        k = k + 1;
    }
    proof {
        if k < n {
            assert(rest[k - m] == t@[k as int]);
        }
    }
    let data = if k >= n {
        proof {
            assert(after_first_space(rest) == Seq::<char>::empty());
            assert(trim(Seq::<char>::empty()) =~= Seq::<char>::empty());
        }
        String::new()
    } else {
        let (c, d) = trim_bounds(&t, k + 1, n);
        assert(rest.skip(k - m + 1) =~= t@.subrange(k + 1, n as int));
        from_chars(&t, c, d)
    };
    Some((name, data))
}

/// The values in the output of `reg query`, in the order they are listed.
pub fn registry_values(output: &str) -> (r: Vec<(String, String)>)
    ensures
        pair_views(r@) == registry_entries(lines_of(output@)),
{
    let ls = lines(output);
    let ghost lv = views(ls@);
    let mut out: Vec<(String, String)> = Vec::new();
    let mut i: usize = 0;
    while i < ls.len()
        invariant
            i <= ls@.len(),
            lv == views(ls@),
            lv == lines_of(output@),
            pair_views(out@) == registry_entries(lv.take(i as int)),
        decreases ls@.len() - i,
    {
        assert(lv.take(i + 1).drop_last() =~= lv.take(i as int));
        assert(lv.take(i + 1).last() == ls@[i as int]@);
        let ghost before = pair_views(out@);
        match registry_line(ls[i].as_str()) {
            None => {},
            Some(p) => {
                out.push(p);
                assert(pair_views(out@) =~= before.push((out@.last().0@, out@.last().1@)));
            },
        }
        i = i + 1;
    }
    assert(lv.take(i as int) =~= lv);
    out
}

/// The value last given for `name` among `entries`, as a map that each
/// entry overwrites holds it.
pub open spec fn value_of(entries: Seq<(Seq<char>, Seq<char>)>, name: Seq<char>) -> Option<
    Seq<char>,
>
    decreases entries.len(),
{
    if entries.len() == 0 {
        None
    } else if entries.last().0 == name {
        Some(entries.last().1)
    } else {
        value_of(entries.drop_last(), name)
    }
}

/// The value last given for `name` among `entries`.
pub fn lookup(entries: &Vec<(String, String)>, name: &str) -> (r: Option<String>)
    ensures
        match r {
            None => value_of(pair_views(entries@), name@) is None,
            Some(v) => value_of(pair_views(entries@), name@) == Some(v@),
        },
{
    let wanted = owned(name);
    let ghost pv = pair_views(entries@);
    let mut i = entries.len();
    assert(pv.take(i as int) =~= pv);
    while i > 0
        invariant
            i <= entries@.len(),
            pv == pair_views(entries@),
            wanted@ == name@,
            value_of(pv, name@) == value_of(pv.take(i as int), name@),
        decreases i,
    {
        assert(pv.take(i as int).drop_last() =~= pv.take(i - 1));
        assert(pv.take(i as int).last() == (entries@[i - 1].0@, entries@[i - 1].1@));
        if entries[i - 1].0 == wanted {
            return Some(entries[i - 1].1.clone());
        }
        i = i - 1;
    }
    None
}

/// The value found for the `k`-th reference, if one was found.
pub open spec fn found_at(found: Seq<Option<Seq<char>>>, k: int) -> Option<Seq<char>> {
    if 0 <= k < found.len() {
        found[k]
    } else {
        None
    }
}

/// `rest` with each `%NAME%` replaced, in order, by the value found for
/// it (`found`, from its `k`-th entry on), or left as it stands where none
/// was; a lone `%` stays.
pub open spec fn expansion(rest: Seq<char>, found: Seq<Option<Seq<char>>>, k: int) -> Seq<char>
    decreases rest.len(),
{
    let start = next_sep(rest, '%', 0);
    if start >= rest.len() {
        rest
    } else {
        let after = rest.skip(start + 1);
        let end = next_sep(after, '%', 0);
        if end >= after.len() {
            rest.take(start) + seq!['%'] + after
        } else {
            proof {
                lemma_next_sep(rest, '%', 0);
                lemma_next_sep(after, '%', 0);
            }
            let name = after.take(end);
            let value = match found_at(found, k) {
                Some(v) => v,
                None => seq!['%'] + name + seq!['%'],
            };
            rest.take(start) + value + expansion(after.skip(end + 1), found, k + 1)
        }
    }
}

/// The names `%NAME%` in `rest` refers to, in order.
pub open spec fn referenced(rest: Seq<char>) -> Seq<Seq<char>>
    decreases rest.len(),
{
    let start = next_sep(rest, '%', 0);
    if start >= rest.len() {
        Seq::empty()
    } else {
        let after = rest.skip(start + 1);
        let end = next_sep(after, '%', 0);
        if end >= after.len() {
            Seq::empty()
        } else {
            proof {
                lemma_next_sep(rest, '%', 0);
                lemma_next_sep(after, '%', 0);
            }
            seq![after.take(end)] + referenced(after.skip(end + 1))
        }
    }
}

/// The first `%` in `cs` at or after `from`, or `cs.len()`.
fn next_percent(cs: &Vec<char>, from: usize) -> (r: usize)
    requires
        from <= cs@.len(),
    ensures
        from <= r <= cs@.len(),
        r - from == next_sep(cs@.skip(from as int), '%', 0),
{
    let ghost rest = cs@.skip(from as int);
    let n = cs.len();
    let mut j = from;
    while j < n && cs[j] != '%'
        invariant
            from <= j <= n == cs@.len(),
            rest == cs@.skip(from as int),
            next_sep(rest, '%', 0) == next_sep(rest, '%', j - from),
        decreases n - j,
    {
        assert(rest[j - from] == cs@[j as int]);
        j = j + 1;
    }
    proof {
        if j < n {
            assert(rest[j - from] == cs@[j as int]);
        }
    }
    j
}

/// The names of the variables `%NAME%` in `value` refers to, in order: the
/// values to hand `expand` are looked up under these names.
pub fn references(value: &str) -> (r: Vec<String>)
    ensures
        views(r@) == referenced(value@),
{
    let cs = chars_of(value);
    let n = cs.len();
    let mut out: Vec<String> = Vec::new();
    let mut i: usize = 0;
    assert(cs@.skip(0) =~= cs@);
    loop
        invariant
            i <= n == cs@.len(),
            cs@ == value@,
            views(out@) + referenced(cs@.skip(i as int)) == referenced(value@),
        decreases n - i,
    {
        let ghost rest = cs@.skip(i as int);
        let start = next_percent(&cs, i);
        if start >= n {
            assert(views(out@) + Seq::<Seq<char>>::empty() =~= views(out@));
            return out;
        }
        assert(rest.skip(start - i + 1) =~= cs@.skip(start + 1));
        let end = next_percent(&cs, start + 1);
        if end >= n {
            assert(views(out@) + Seq::<Seq<char>>::empty() =~= views(out@));
            return out;
        }
        let ghost before = views(out@);
        out.push(from_chars(&cs, start + 1, end));
        assert(cs@.skip(start + 1).take(end - start - 1) =~= cs@.subrange(start + 1, end as int));
        assert(cs@.skip(start + 1).skip(end - start) =~= cs@.skip(end + 1));
        assert(views(out@) =~= before.push(cs@.subrange(start + 1, end as int)));
        assert(views(out@) + referenced(cs@.skip(end + 1)) =~= before + referenced(rest));
        i = end + 1;
    }
}

/// `value` with each `%NAME%` replaced by what was found for it: `found`
/// holds, for the names `references` lists, in that order, the value of
/// each variable this process has (`None` where it has none).
pub fn expand(value: &str, found: &Vec<Option<String>>) -> (r: String)
    ensures
        r@ == expansion(value@, opt_texts(found@), 0),
{
    let ghost fv = opt_texts(found@);
    let cs = chars_of(value);
    let n = cs.len();
    let mut out = String::new();
    let mut i: usize = 0;
    let mut k: usize = 0;
    assert(cs@.skip(0) =~= cs@);
    loop
        invariant
            k <= i <= n == cs@.len(),
            cs@ == value@,
            fv == opt_texts(found@),
            out@ + expansion(cs@.skip(i as int), fv, k as int) == expansion(value@, fv, 0),
        decreases n - i,
    {
        let ghost rest = cs@.skip(i as int);
        let start = next_percent(&cs, i);
        if start >= n {
            let tail = from_chars(&cs, i, n);
            assert(rest =~= cs@.subrange(i as int, n as int));
            return cat(out.as_str(), tail.as_str());
        }
        assert(rest.skip(start - i + 1) =~= cs@.skip(start + 1));
        assert(rest.take(start - i) =~= cs@.subrange(i as int, start as int));
        let end = next_percent(&cs, start + 1);
        let head = from_chars(&cs, i, start);
        if end >= n {
            let tail = from_chars(&cs, start + 1, n);
            assert(cs@.skip(start + 1) =~= cs@.subrange(start + 1, n as int));
            let with_head = cat3(out.as_str(), head.as_str(), "%");
            proof {
                reveal_strlit("%");
            }
            let r = cat(with_head.as_str(), tail.as_str());
            assert(r@ =~= out@ + (rest.take(start - i) + seq!['%'] + rest.skip(start - i + 1)));
            return r;
        }
        let name = from_chars(&cs, start + 1, end);
        assert(cs@.skip(start + 1).take(end - start - 1) =~= cs@.subrange(start + 1, end as int));
        assert(cs@.skip(start + 1).skip(end - start) =~= cs@.skip(end + 1));
        let piece = if k < found.len() && found[k].is_some() {
            let v = found[k].clone().unwrap();
            v
        } else {
            proof {
                reveal_strlit("%");
            }
            cat3("%", name.as_str(), "%")
        };
        assert(piece@ == match found_at(fv, k as int) {
            Some(v) => v,
            None => seq!['%'] + name@ + seq!['%'],
        });
        let joined_out = cat3(out.as_str(), head.as_str(), piece.as_str());
        assert(joined_out@ + expansion(cs@.skip(end + 1), fv, k + 1) =~= out@ + expansion(rest, fv, k as int));
        out = joined_out;
        i = end + 1;
        k = k + 1;
    }
}

/// `s` without its trailing `;`s.
pub open spec fn trim_semicolons(s: Seq<char>) -> Seq<char>
    decreases s.len(),
{
    if s.len() > 0 && s.last() == ';' {
        trim_semicolons(s.drop_last())
    } else {
        s
    }
}

/// The machine value, then the user value, of a list variable; both joined
/// by one `;` where both are set.
pub open spec fn joined_value(system: Option<Seq<char>>, user: Option<Seq<char>>) -> Option<
    Seq<char>,
> {
    match (system, user) {
        (Some(first), Some(second)) => Some(trim_semicolons(first) + ";"@ + second),
        (Some(first), None) => Some(first),
        (None, Some(second)) => Some(second),
        (None, None) => None,
    }
}

/// Joins the machine and the user value of a list variable, as Windows
/// joins them for a new process.
pub fn joined(system: Option<String>, user: Option<String>) -> (r: Option<String>)
    ensures
        opt_text(r) == joined_value(opt_text(system), opt_text(user)),
{
    match (system, user) {
        (Some(first), Some(second)) => {
            let cs = chars_of(first.as_str());
            let mut e = cs.len();
            assert(cs@.take(e as int) =~= cs@);
            while e > 0 && cs[e - 1] == ';'
                invariant
                    e <= cs@.len(),
                    cs@ == first@,
                    trim_semicolons(first@) == trim_semicolons(cs@.take(e as int)),
                decreases e,
            {
                assert(cs@.take(e as int).drop_last() =~= cs@.take(e - 1));
                e = e - 1;
            }
            let head = from_chars(&cs, 0, e);
            Some(cat3(head.as_str(), ";", second.as_str()))
        },
        (Some(first), None) => Some(first),
        (None, Some(second)) => Some(second),
        (None, None) => None,
    }
}

/// Where a snapshot read from this process says it comes from.
pub const PROCESS_SOURCE: &'static str = "this process, exported shell changes need a restart";

/// Where a snapshot read from the registry says it comes from.
pub const REGISTRY_SOURCE: &'static str = "machine and user registry";

/// Where a snapshot says it comes from when the registry could not be read.
pub const FALLBACK_SOURCE: &'static str = "this process, the registry could not be read";

/// The parts of an optional split list, none where it is missing.
pub open spec fn parts_of(list: Option<Vec<String>>) -> Seq<Seq<char>> {
    match list {
        Some(v) => views(v@),
        None => Seq::empty(),
    }
}

fn parts_or_none(list: &Option<Vec<String>>) -> (r: Vec<String>)
    ensures
        views(r@) == kept(parts_of(*list)),
{
    match list {
        Some(v) => drop_empty(v),
        None => {
            let empty: Vec<String> = Vec::new();
            assert(views(empty@) =~= Seq::<Seq<char>>::empty());
            empty
        },
    }
}

/// The snapshot of the variables of this process on a system without a
/// registry: each list is std's `split_paths` of the variable's value, or
/// `None` where the variable is not set.
pub open spec fn process_snapshot(
    path: Option<Vec<String>>,
    lib: Option<Vec<String>>,
    library_path: Option<Vec<String>>,
) -> EnvView {
    EnvView {
        path: kept(parts_of(path)),
        lib: kept(parts_of(lib)),
        lib_defined: lib is Some,
        library_path: kept(parts_of(library_path)),
        source: PROCESS_SOURCE@,
        missing_here: Seq::empty(),
        session_only: Seq::empty(),
    }
}

/// The snapshot on Windows, from the joined machine and user values of PATH
/// and LIB in the registry and the split values this process has; where the
/// registry gave no PATH, the process's own lists are taken instead.
pub open spec fn registry_snapshot(
    registry_path: Option<Vec<String>>,
    registry_lib: Option<Vec<String>>,
    process_path: Option<Vec<String>>,
    process_lib: Option<Vec<String>>,
) -> EnvView {
    let pp = kept(parts_of(process_path));
    let pl = kept(parts_of(process_lib));
    match registry_path {
        Some(_) => {
            let path = kept(parts_of(registry_path));
            let lib = kept(parts_of(registry_lib));
            EnvView {
                path,
                lib,
                lib_defined: registry_lib is Some,
                library_path: Seq::empty(),
                source: REGISTRY_SOURCE@,
                missing_here: noted(noted(Seq::empty(), "PATH"@, path, pp), "LIB"@, lib, pl),
                session_only: noted(noted(Seq::empty(), "PATH"@, pp, path), "LIB"@, pl, lib),
            }
        },
        None => EnvView {
            path: pp,
            lib: pl,
            lib_defined: process_lib is Some,
            library_path: Seq::empty(),
            source: FALLBACK_SOURCE@,
            missing_here: Seq::empty(),
            session_only: Seq::empty(),
        },
    }
}

impl EnvSnapshot {
    /// The snapshot of this process's own PATH, LIB and LD_LIBRARY_PATH.
    pub fn from_process(
        path: Option<Vec<String>>,
        lib: Option<Vec<String>>,
        library_path: Option<Vec<String>>,
    ) -> (r: Self)
        ensures
            r@ == process_snapshot(path, lib, library_path),
    {
        let r = EnvSnapshot {
            path: parts_or_none(&path),
            lib_defined: lib.is_some(),
            lib: parts_or_none(&lib),
            library_path: parts_or_none(&library_path),
            source: PROCESS_SOURCE,
            missing_here: Vec::new(),
            session_only: Vec::new(),
        };
        assert(r@.missing_here =~= Seq::<Seq<char>>::empty());
        assert(r@.session_only =~= Seq::<Seq<char>>::empty());
        r
    }

    /// The snapshot on Windows, comparing the saved settings with this
    /// process.
    pub fn from_registry(
        registry_path: Option<Vec<String>>,
        registry_lib: Option<Vec<String>>,
        process_path: Option<Vec<String>>,
        process_lib: Option<Vec<String>>,
    ) -> (r: Self)
        ensures
            r@ == registry_snapshot(registry_path, registry_lib, process_path, process_lib),
    {
        let pp = parts_or_none(&process_path);
        let pl = parts_or_none(&process_lib);
        if registry_path.is_some() {
            let path = parts_or_none(&registry_path);
            let lib = parts_or_none(&registry_lib);
            let mut missing_here: Vec<String> = Vec::new();
            let mut session_only: Vec<String> = Vec::new();
            assert(views(missing_here@) =~= Seq::<Seq<char>>::empty());
            assert(views(session_only@) =~= Seq::<Seq<char>>::empty());
            compare("PATH", &path, &pp, &mut missing_here, &mut session_only);
            compare("LIB", &lib, &pl, &mut missing_here, &mut session_only);
            let r = EnvSnapshot {
                path,
                lib,
                lib_defined: registry_lib.is_some(),
                library_path: Vec::new(),
                source: REGISTRY_SOURCE,
                missing_here,
                session_only,
            };
            assert(r@.library_path =~= Seq::<Seq<char>>::empty());
            r
        } else {
            let r = EnvSnapshot {
                path: pp,
                lib: pl,
                lib_defined: process_lib.is_some(),
                library_path: Vec::new(),
                source: FALLBACK_SOURCE,
                missing_here: Vec::new(),
                session_only: Vec::new(),
            };
            assert(r@.library_path =~= Seq::<Seq<char>>::empty());
            assert(r@.missing_here =~= Seq::<Seq<char>>::empty());
            assert(r@.session_only =~= Seq::<Seq<char>>::empty());
            r
        }
    }
}

proof fn lemma_noted_grows(acc: Seq<Seq<char>>, label: Seq<char>, from: Seq<Seq<char>>, against: Seq<Seq<char>>)
    ensures
        acc.len() <= noted(acc, label, from, against).len(),
        acc.len() == noted(acc, label, from, against).len() ==> acc == noted(acc, label, from, against),
    decreases from.len(),
{
    if from.len() > 0 {
        lemma_noted_grows(acc, label, from.drop_last(), against);
    }
}

proof fn lemma_noted_empty(label: Seq<char>, from: Seq<Seq<char>>, against: Seq<Seq<char>>)
    ensures
        noted(Seq::empty(), label, from, against).len() == 0 <==> forall|i: int|
            0 <= i < from.len() ==> keys(against).contains(path_key(#[trigger] from[i])),
    decreases from.len(),
{
    if from.len() > 0 {
        let rest = from.drop_last();
        lemma_noted_empty(label, rest, against);
        let r = noted(Seq::empty(), label, rest, against);
        let last_in = keys(against).contains(path_key(from.last()));
        if !last_in {
            let e = label + " "@ + from.last();
            if r.contains(e) {
                assert(r.len() > 0);
            }
            assert(with_once(r, e).len() > 0);
            assert(!keys(against).contains(path_key(from[from.len() - 1])));
        } else {
            if forall|i: int| 0 <= i < rest.len() ==> keys(against).contains(path_key(#[trigger] rest[i])) {
                assert forall|i: int| 0 <= i < from.len() implies keys(against).contains(path_key(#[trigger] from[i])) by {
                    if i < rest.len() {
                        assert(rest[i] == from[i]);
                    }
                }
            } else {
                let i = choose|i: int| 0 <= i < rest.len() && !keys(against).contains(path_key(#[trigger] rest[i]));
                assert(rest[i] == from[i]);
            }
        }
    }
}

/// Whether `s` holds no entry twice.
pub open spec fn distinct(s: Seq<Seq<char>>) -> bool {
    forall|i: int, j: int| 0 <= i < j < s.len() ==> s[i] != s[j]
}

/// No note is listed twice: comparing lists adds a note only where it is
/// not there yet.
pub proof fn law_notes_are_distinct(
    acc: Seq<Seq<char>>,
    label: Seq<char>,
    from: Seq<Seq<char>>,
    against: Seq<Seq<char>>,
)
    requires
        distinct(acc),
    ensures
        distinct(noted(acc, label, from, against)),
    decreases from.len(),
{
    if from.len() > 0 {
        law_notes_are_distinct(acc, label, from.drop_last(), against);
        let r = noted(acc, label, from.drop_last(), against);
        let e = label + " "@ + from.last();
        if !r.contains(e) {
            assert forall|i: int, j: int| 0 <= i < j < r.push(e).len() implies r.push(e)[i] != r.push(e)[j] by {
                if j == r.len() {
                    assert(r[i] != e);
                }
            }
        }
    }
}

/// A snapshot read from the registry is stale exactly when the saved
/// settings name a folder, of PATH or of LIB, that this process lacks.
pub proof fn law_stale_when_a_saved_folder_is_missing(
    registry_path: Option<Vec<String>>,
    registry_lib: Option<Vec<String>>,
    process_path: Option<Vec<String>>,
    process_lib: Option<Vec<String>>,
)
    requires
        registry_path is Some,
    ensures
        ({
            let s = registry_snapshot(registry_path, registry_lib, process_path, process_lib);
            let pp = kept(parts_of(process_path));
            let pl = kept(parts_of(process_lib));
            s.missing_here.len() > 0 <==> (exists|i: int|
                0 <= i < s.path.len() && !keys(pp).contains(path_key(#[trigger] s.path[i])))
                || (exists|i: int| 0 <= i < s.lib.len() && !keys(pl).contains(path_key(#[trigger] s.lib[i])))
        }),
{
    let pp = kept(parts_of(process_path));
    let pl = kept(parts_of(process_lib));
    let path = kept(parts_of(registry_path));
    let lib = kept(parts_of(registry_lib));
    let first = noted(Seq::empty(), "PATH"@, path, pp);
    let s = registry_snapshot(registry_path, registry_lib, process_path, process_lib);
    assert(s.path == path && s.lib == lib);
    lemma_noted_empty("PATH"@, path, pp);
    lemma_noted_empty("LIB"@, lib, pl);
    lemma_noted_grows(first, "LIB"@, lib, pl);
    if first.len() == 0 {
        assert(first =~= Seq::<Seq<char>>::empty());
        assert(s.missing_here == noted(Seq::empty(), "LIB"@, lib, pl));
    }
}

/// A value whose references were all left unresolved reads as it was
/// written: each `%NAME%` for which nothing was found stays as it stands.
pub proof fn law_unresolved_references_stay(value: Seq<char>, k: int)
    requires
        k >= 0,
    ensures
        expansion(value, Seq::empty(), k) == value,
    decreases value.len(),
{
    let start = next_sep(value, '%', 0);
    lemma_next_sep(value, '%', 0);
    if start < value.len() {
        let after = value.skip(start + 1);
        let end = next_sep(after, '%', 0);
        lemma_next_sep(after, '%', 0);
        lemma_next_sep_hit(value, '%', 0);
        if end >= after.len() {
            assert(value.take(start) + seq!['%'] + after =~= value);
        } else {
            lemma_next_sep_hit(after, '%', 0);
            law_unresolved_references_stay(after.skip(end + 1), k + 1);
            assert(value.take(start) + (seq!['%'] + after.take(end) + seq!['%']) + after.skip(end + 1)
                =~= value);
        }
    }
}

proof fn lemma_next_sep_hit(s: Seq<char>, sep: char, i: int)
    requires
        0 <= i <= s.len(),
    ensures
        next_sep(s, sep, i) < s.len() ==> s[next_sep(s, sep, i)] == sep,
    decreases s.len() - i,
{
    if i < s.len() && s[i] != sep {
        lemma_next_sep_hit(s, sep, i + 1);
    }
}

} // verus!
