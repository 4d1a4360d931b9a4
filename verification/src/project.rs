//! The project that is checked: its root folder, its test project and the
//! .NET version that test project targets.

use crate::names::{extension_is, has_extension, lemma_lex_irreflexive, lemma_lex_transitive, lex_less, lex_lt};
use crate::paths::{join_path, path_join};
use crate::text::{
    lemma_find_from_fits,
    all_digits, chars_of, owned, find_from, find_in_chars, is_digit, parse_digits, parse_u32,
    parse_u32_in, split_chars, split_from, trim, trimmed, unsigned_body, views,
    opt_text, opt_texts,
};
use vstd::prelude::*;

verus! {

/// Where the project lives and what its test project targets.
pub struct Project {
    pub root: String,
    pub test_project: Option<String>,
    pub framework: Option<u32>,
}

/// A project, as seen by specifications.
pub struct ProjectView {
    pub root: Seq<char>,
    pub test_project: Option<Seq<char>>,
    pub framework: Option<u32>,
}

impl View for Project {
    type V = ProjectView;

    open spec fn view(&self) -> ProjectView {
        ProjectView {
            root: self.root@,
            test_project: match self.test_project {
                Some(p) => Some(p@),
                None => None,
            },
            framework: self.framework,
        }
    }
}

impl Project {
    /// The project at `root` with the test project `test_project` (relative
    /// to the root). `project_text` is what the test project's file holds,
    /// where it could be read: the target framework is read from it, and
    /// there is none without a test project.
    pub fn from_parts(root: String, test_project: Option<String>, project_text: Option<String>) -> (r: Project)
        ensures
            r@.root == root@,
            r@.test_project == opt_text(test_project),
            r@.framework == match (test_project, project_text) {
                (Some(_), Some(t)) => framework_in(t@),
                _ => None,
            },
            test_project is None ==> r@.framework is None,
    {
        let framework = match (&test_project, &project_text) {
            (Some(_), Some(t)) => framework_of(t.as_str()),
            _ => None,
        };
        Project { root, test_project, framework }
    }
}

/// `s` with every leading `net` taken off, as std's `trim_start_matches("net")`.
pub open spec fn strip_net(s: Seq<char>) -> Seq<char>
    decreases s.len(),
{
    if s.len() >= 3 && s[0] == 'n' && s[1] == 'e' && s[2] == 't' {
        strip_net(s.skip(3))
    } else {
        s
    }
}

/// The number of decimal digits at the start of `s` from index `i` on.
pub open spec fn digit_run(s: Seq<char>, i: int) -> int
    decreases s.len() - i,
{
    if 0 <= i < s.len() && is_digit(s[i]) {
        digit_run(s, i + 1)
    } else {
        i
    }
}

/// The longest prefix of `s` made of decimal digits.
pub open spec fn leading_digits(s: Seq<char>) -> Seq<char> {
    s.take(digit_run(s, 0))
}

/// The major version a target framework moniker names: `net8.0` gives 8,
/// `net481` gives 481, `netstandard2.0` gives nothing.
pub open spec fn major_of(value: Seq<char>) -> Option<u32> {
    parse_digits(leading_digits(strip_net(value)))
}

proof fn lemma_digit_run(s: Seq<char>, i: int)
    requires
        0 <= i <= s.len(),
    ensures
        i <= digit_run(s, i) <= s.len(),
        forall|k: int| i <= k < digit_run(s, i) ==> is_digit(#[trigger] s[k]),
        digit_run(s, i) < s.len() ==> !is_digit(s[digit_run(s, i)]),
    decreases s.len() - i,
{
    if i < s.len() && is_digit(s[i]) {
        lemma_digit_run(s, i + 1);
    }
}

/// The major version named by a target framework moniker: leading `net`s
/// are taken off, then the decimal digits that follow are read, if there
/// are any and they fit in 32 bits.
pub fn major_version(value: &str) -> (r: Option<u32>)
    ensures
        r == major_of(value@),
{
    let cs = chars_of(value);
    let n = cs.len();
    let mut a: usize = 0;
    assert(cs@.skip(0) =~= cs@);
    while n - a >= 3 && cs[a] == 'n' && cs[a + 1] == 'e' && cs[a + 2] == 't'
        invariant
            a <= n == cs@.len(),
            strip_net(cs@) == strip_net(cs@.skip(a as int)),
        decreases n - a,
    {
        assert(cs@.skip(a as int).skip(3) =~= cs@.skip(a + 3));
        a = a + 3;
    }
    let ghost rest = cs@.skip(a as int);
    assert(strip_net(cs@) == rest);
    let mut b = a;
    while b < n && '0' <= cs[b] && cs[b] <= '9'
        invariant
            a <= b <= n == cs@.len(),
            rest == cs@.skip(a as int),
            digit_run(rest, 0) == digit_run(rest, b - a),
        decreases n - b,
    {
        b = b + 1;
    }
    proof {
        lemma_digit_run(rest, 0);
        assert(digit_run(rest, b - a) == b - a);
        assert(leading_digits(rest) =~= cs@.subrange(a as int, b as int));
        let d = cs@.subrange(a as int, b as int);
        if d.len() > 0 {
            assert(is_digit(d[0]));
        }
        assert(unsigned_body(d) == d);
    }
    parse_u32_in(&cs, a, b)
}

/// The text between `tag` and the next `</` after it in `text`, split at
/// `;`; nothing where either is missing.
pub open spec fn tag_values(text: Seq<char>, tag: Seq<char>) -> Seq<Seq<char>> {
    match find_from(text, tag, 0) {
        None => Seq::empty(),
        Some(start) => match find_from(text, "</"@, start + tag.len()) {
            None => Seq::empty(),
            Some(end) => split_from(text.subrange(start + tag.len(), end), ';', 0),
        },
    }
}

/// The larger of `acc` and `m`, where either may be missing.
pub open spec fn newer_of(acc: Option<u32>, m: Option<u32>) -> Option<u32> {
    match m {
        None => acc,
        Some(m) => match acc {
            None => Some(m),
            Some(c) => Some(if c < m { m } else { c }),
        },
    }
}

/// The newest major version among `values`, each trimmed, starting from `acc`.
pub open spec fn newest_framework(values: Seq<Seq<char>>, acc: Option<u32>) -> Option<u32>
    decreases values.len(),
{
    if values.len() == 0 {
        acc
    } else {
        newest_framework(values.drop_first(), newer_of(acc, major_of(trim(values[0]))))
    }
}

/// The newest .NET major version that a project file's text targets, read
/// from its `<TargetFramework>` and then its `<TargetFrameworks>` element.
pub open spec fn framework_in(text: Seq<char>) -> Option<u32> {
    newest_framework(
        tag_values(text, "<TargetFrameworks>"@),
        newest_framework(tag_values(text, "<TargetFramework>"@), None),
    )
}

proof fn lemma_newest_step(values: Seq<Seq<char>>, k: int, acc: Option<u32>)
    requires
        0 <= k < values.len(),
    ensures
        newest_framework(values.skip(k), acc) == newest_framework(
            values.skip(k + 1),
            newer_of(acc, major_of(trim(values[k]))),
        ),
{
    assert(values.skip(k).drop_first() =~= values.skip(k + 1));
}

/// Folds the major versions of the pieces of `tag`'s value in `cs` into `acc`.
fn fold_tag(cs: &Vec<char>, tag: &str, acc: Option<u32>) -> (r: Option<u32>)
    ensures
        r == newest_framework(tag_values(cs@, tag@), acc),
{
    let tag_chars = chars_of(tag);
    let close = chars_of("</");
    let n = cs.len();
    let start = match find_in_chars(cs, &tag_chars, 0) {
        None => {
            return acc;
        },
        Some(start) => start,
    };
    proof {
        lemma_find_from_fits(cs@, tag_chars@, 0);
        assert(start + tag_chars@.len() <= cs@.len());
    }
    let from = start + tag_chars.len();
    let end = match find_in_chars(cs, &close, from) {
        None => {
            return acc;
        },
        Some(end) => end,
    };
    proof {
        lemma_find_from_fits(cs@, close@, from as int);
    }
    let values = split_chars(cs, from, end, ';');
    let ghost vs = views(values@);
    let mut newest = acc;
    let mut k: usize = 0;
    assert(vs.skip(0) =~= vs);
    while k < values.len()
        invariant
            k <= values@.len(),
            vs == views(values@),
            vs == tag_values(cs@, tag@),
            newest_framework(vs, acc) == newest_framework(vs.skip(k as int), newest),
        decreases values@.len() - k,
    {
        proof {
            lemma_newest_step(vs, k as int, newest);
        }
        let t = trimmed(values[k].as_str());
        let m = major_version(t.as_str());
        newest = match m {
            None => newest,
            Some(m) => match newest {
                None => Some(m),
                Some(c) => Some(if c < m { m } else { c }),
            },
        };
        k = k + 1;
    }
    assert(vs.skip(k as int) =~= Seq::<Seq<char>>::empty());
    newest
}

/// The newest .NET major version that a project file's text targets.
pub fn framework_of(text: &str) -> (r: Option<u32>)
    ensures
        r == framework_in(text@),
{
    let cs = chars_of(text);
    let first = fold_tag(&cs, "<TargetFramework>", None);
    fold_tag(&cs, "<TargetFrameworks>", first)
}

/// Whether the file `name` has the extension `csproj`, in any ASCII case.
pub open spec fn is_csproj(name: Seq<char>) -> bool {
    has_extension(name, "csproj"@)
}

/// The project file `csproj_in` picks from a folder holding the entries
/// `names`: the first, in the order of `lex_lt`, of those with the
/// extension `csproj`.
pub open spec fn picked_csproj(names: Seq<Seq<char>>, r: Option<Seq<char>>) -> bool {
    match r {
        None => forall|i: int| 0 <= i < names.len() ==> !is_csproj(#[trigger] names[i]),
        Some(x) => {
            &&& exists|i: int| 0 <= i < names.len() && #[trigger] names[i] == x && is_csproj(x)
            &&& forall|i: int|
                0 <= i < names.len() && is_csproj(#[trigger] names[i]) ==> !lex_lt(names[i], x)
        },
    }
}

/// Picks the project file among the entries `names` of a folder: the first
/// in sorted order whose extension is `csproj`, in any ASCII case.
pub fn csproj_in(names: &Vec<String>) -> (r: Option<String>)
    ensures
        picked_csproj(views(names@), opt_text(r)),
{
    let ghost nv = views(names@);
    let mut best: Option<String> = None;
    let mut i: usize = 0;
    while i < names.len()
        invariant
            i <= names@.len(),
            nv == views(names@),
            match best {
                None => forall|j: int| 0 <= j < i ==> !is_csproj(#[trigger] nv[j]),
                Some(b) => {
                    &&& exists|j: int| 0 <= j < i && #[trigger] nv[j] == b@ && is_csproj(b@)
                    &&& forall|j: int| 0 <= j < i && is_csproj(#[trigger] nv[j]) ==> !lex_lt(nv[j], b@)
                },
            },
        decreases names@.len() - i,
    {
        let name = &names[i];
        assert(nv[i as int] == name@);
        if extension_is(name.as_str(), "csproj") {
            let take = match &best {
                None => true,
                Some(b) => lex_less(name.as_str(), b.as_str()),
            };
            if take {
                proof {
                    lemma_lex_irreflexive(name@);
                    assert forall|j: int| 0 <= j < i + 1 && is_csproj(#[trigger] nv[j]) implies !lex_lt(nv[j], name@) by {
                        if j < i && lex_lt(nv[j], name@) {
                            match best {
                                Some(b) => lemma_lex_transitive(nv[j], name@, b@),
                                None => {},
                            }
                        }
                    }
                }
                best = Some(name.clone());
            }
        }
        i = i + 1;
    }
    best
}

/// How many folders are searched for a test project before the others.
pub const TEST_DIR_COUNT: usize = 4;

/// The `k`-th folder searched for a test project before the others.
pub open spec fn test_dir(k: int) -> Seq<char> {
    if k == 0 {
        "tests"@
    } else if k == 1 {
        "test"@
    } else if k == 2 {
        "Tests"@
    } else {
        "Test"@
    }
}

/// The name of the `k`-th folder searched for a test project before the
/// others: `tests`, `test`, `Tests`, `Test`.
pub fn test_dir_name(k: usize) -> (r: &'static str)
    requires
        k < TEST_DIR_COUNT,
    ensures
        r@ == test_dir(k as int),
{
    if k == 0 {
        "tests"
    } else if k == 1 {
        "test"
    } else if k == 2 {
        "Tests"
    } else {
        "Test"
    }
}

/// The index of the first of `hits[from..]` that holds a project file, or
/// `hits.len()`.
pub open spec fn first_hit(hits: Seq<Option<Seq<char>>>, from: int) -> int
    decreases hits.len() - from,
{
    if from < 0 || from >= hits.len() {
        hits.len() as int
    } else if hits[from] is Some {
        from
    } else {
        first_hit(hits, from + 1)
    }
}

/// Whether the pair `(folder, file)` `a` sorts before `b`: by folder, then
/// by file, as std orders the paths `folder/file`.
pub open spec fn pair_lt(a: (Seq<char>, Seq<char>), b: (Seq<char>, Seq<char>)) -> bool {
    lex_lt(a.0, b.0) || (a.0 == b.0 && lex_lt(a.1, b.1))
}

/// Whether `m` is the first of `found` in the order `pair_lt`.
pub open spec fn least_pair(found: Seq<(Seq<char>, Seq<char>)>, m: (Seq<char>, Seq<char>)) -> bool {
    &&& exists|i: int| 0 <= i < found.len() && #[trigger] found[i] == m
    &&& forall|i: int| 0 <= i < found.len() ==> !pair_lt(#[trigger] found[i], m)
}

/// The test project `find_test_project` settles on, given the project file
/// of the root (`root_hit`), those of the folders `test_dir(k)`, in order
/// (`hits`), and those of the other subfolders of the root (`found`):
/// the root's own, else that of the first such folder that has one, else
/// the first of the others in sorted order. `r` is the path relative to
/// the root.
pub open spec fn test_project_choice(
    root_hit: Option<Seq<char>>,
    hits: Seq<Option<Seq<char>>>,
    found: Seq<(Seq<char>, Seq<char>)>,
    r: Option<Seq<char>>,
) -> bool {
    let k = first_hit(hits, 0);
    if root_hit is Some {
        r == root_hit
    } else if k < hits.len() {
        r == Some(path_join(test_dir(k), hits[k]->0))
    } else if found.len() > 0 {
        exists|m: (Seq<char>, Seq<char>)| least_pair(found, m) && r == Some(path_join(m.0, m.1))
    } else {
        r is None
    }
}

proof fn lemma_first_hit(hits: Seq<Option<Seq<char>>>, from: int)
    requires
        0 <= from <= hits.len(),
    ensures
        from <= first_hit(hits, from) <= hits.len(),
        first_hit(hits, from) < hits.len() ==> hits[first_hit(hits, from)] is Some,
    decreases hits.len() - from,
{
    if from < hits.len() && hits[from] is None {
        lemma_first_hit(hits, from + 1);
    }
}

/// Pairs of texts, as seen by specifications.
pub open spec fn pair_views(found: Seq<(String, String)>) -> Seq<(Seq<char>, Seq<char>)> {
    found.map_values(|p: (String, String)| (p.0@, p.1@))
}

/// Settles on the test project, relative to the root: the root's own
/// project file, else that of the first of the folders `test_dir_name(k)`
/// that has one (`hits[k]`), else the first in sorted order of the
/// `(folder, file)` pairs found in the root's other subfolders.
pub fn test_project_of(
    root_hit: Option<String>,
    hits: &Vec<Option<String>>,
    found: &Vec<(String, String)>,
) -> (r: Option<String>)
    requires
        hits@.len() <= TEST_DIR_COUNT,
    ensures
        test_project_choice(opt_text(root_hit), opt_texts(hits@), pair_views(found@), opt_text(r)),
{
    let ghost rv = opt_text(root_hit);
    match root_hit {
        Some(name) => {
            return Some(name);
        },
        None => {},
    }
    assert(rv is None);
    let ghost hv = opt_texts(hits@);
    let mut k: usize = 0;
    while k < hits.len()
        invariant
            k <= hits@.len() <= TEST_DIR_COUNT,
            hv == opt_texts(hits@),
            rv is None,
            rv == opt_text(root_hit),
            first_hit(hv, 0) == first_hit(hv, k as int),
        decreases hits@.len() - k,
    {
        match &hits[k] {
            Some(name) => {
                assert(hv.len() == hits@.len());
                assert(hv[k as int] == Some(name@));
                assert(first_hit(hv, k as int) == k);
                let dir = test_dir_name(k);
                let joined = join_path(dir, name.as_str());
                assert(joined@ == path_join(test_dir(k as int), hv[k as int]->0));
                return Some(joined);
            },
            None => {
                assert(hv[k as int] is None);
            },
        }
        k = k + 1;
    }
    let ghost fv = pair_views(found@);
    if found.len() == 0 {
        return None;
    }
    let mut best: usize = 0;
    let mut i: usize = 1;
    proof {
        lemma_pair_irreflexive(fv[0]);
    }
    while i < found.len()
        invariant
            1 <= i <= found@.len(),
            best < i,
            fv == pair_views(found@),
            forall|j: int| 0 <= j < i ==> !pair_lt(#[trigger] fv[j], fv[best as int]),
        decreases found@.len() - i,
    {
        let d = lex_less(found[i].0.as_str(), found[best].0.as_str());
        let same = found[i].0 == found[best].0;
        let f = lex_less(found[i].1.as_str(), found[best].1.as_str());
        assert(fv[i as int] == (found@[i as int].0@, found@[i as int].1@));
        assert(fv[best as int] == (found@[best as int].0@, found@[best as int].1@));
        if d || (same && f) {
            proof {
                lemma_pair_irreflexive(fv[i as int]);
                assert forall|j: int| 0 <= j < i + 1 implies !pair_lt(#[trigger] fv[j], fv[i as int]) by {
                    if j < i && pair_lt(fv[j], fv[i as int]) {
                        lemma_pair_transitive(fv[j], fv[i as int], fv[best as int]);
                    }
                }
            }
            best = i;
        }
        i = i + 1;
    }
    assert(least_pair(fv, fv[best as int]));
    Some(join_path(found[best].0.as_str(), found[best].1.as_str()))
}

proof fn lemma_pair_irreflexive(a: (Seq<char>, Seq<char>))
    ensures
        !pair_lt(a, a),
{
    lemma_lex_irreflexive(a.0);
    lemma_lex_irreflexive(a.1);
}

proof fn lemma_pair_transitive(
    a: (Seq<char>, Seq<char>),
    b: (Seq<char>, Seq<char>),
    c: (Seq<char>, Seq<char>),
)
    requires
        pair_lt(a, b),
        pair_lt(b, c),
    ensures
        pair_lt(a, c),
{
    if lex_lt(a.0, b.0) && lex_lt(b.0, c.0) {
        lemma_lex_transitive(a.0, b.0, c.0);
    }
    if a.0 == b.0 && b.0 == c.0 && lex_lt(a.1, b.1) && lex_lt(b.1, c.1) {
        lemma_lex_transitive(a.1, b.1, c.1);
    }
}

/// One folder on the way from where the dashboard started up to the file
/// system's root: whether it holds a `.git` entry and whether it holds a
/// project file.
pub struct Level {
    pub dir: String,
    pub git: bool,
    pub csproj: bool,
}

/// The index of the first of `levels[from..]` with a `.git` entry (`git`)
/// or with a project file (`!git`), or `levels.len()`.
pub open spec fn first_level(levels: Seq<Level>, from: int, git: bool) -> int
    decreases levels.len() - from,
{
    if from < 0 || from >= levels.len() {
        levels.len() as int
    } else if (if git { levels[from].git } else { levels[from].csproj }) {
        from
    } else {
        first_level(levels, from + 1, git)
    }
}

/// The project's root, given the folders from the start upward: the first
/// with a `.git` entry, else the first with a project file, else the start.
pub open spec fn root_choice(start: Seq<char>, levels: Seq<Level>) -> Seq<char> {
    let g = first_level(levels, 0, true);
    let c = first_level(levels, 0, false);
    if g < levels.len() {
        levels[g].dir@
    } else if c < levels.len() {
        levels[c].dir@
    } else {
        start
    }
}

fn first_level_of(levels: &Vec<Level>, git: bool) -> (r: usize)
    ensures
        r == first_level(levels@, 0, git),
{
    let mut k: usize = 0;
    while k < levels.len()
        invariant
            k <= levels@.len(),
            first_level(levels@, 0, git) == first_level(levels@, k as int, git),
        decreases levels@.len() - k,
    {
        let hit = if git { levels[k].git } else { levels[k].csproj };
        if hit {
            return k;
        }
        k = k + 1;
    }
    k
}

/// Finds the project's root among the folders from the start upward.
pub fn root_of(start: &str, levels: &Vec<Level>) -> (r: String)
    ensures
        r@ == root_choice(start@, levels@),
{
    let g = first_level_of(levels, true);
    if g < levels.len() {
        return levels[g].dir.clone();
    }
    let c = first_level_of(levels, false);
    if c < levels.len() {
        return levels[c].dir.clone();
    }
    owned(start)
}

/// The framework read is the newest named: no value whose major version
/// can be read is newer, nor what was known before.
pub proof fn law_newest_framework_is_newest(values: Seq<Seq<char>>, acc: Option<u32>)
    ensures
        acc matches Some(a) ==> newest_framework(values, acc) matches Some(m) && a <= m,
        forall|i: int|
            0 <= i < values.len() ==> (major_of(trim(#[trigger] values[i])) matches Some(x)
                ==> newest_framework(values, acc) matches Some(m) && x <= m),
    decreases values.len(),
{
    if values.len() > 0 {
        let next = newer_of(acc, major_of(trim(values[0])));
        law_newest_framework_is_newest(values.drop_first(), next);
        assert forall|i: int|
            0 <= i < values.len() implies (major_of(trim(#[trigger] values[i])) matches Some(x)
                ==> newest_framework(values, acc) matches Some(m) && x <= m) by {
            if i > 0 {
                assert(values.drop_first()[i - 1] == values[i]);
            }
        }
    }
}

} // verus!
