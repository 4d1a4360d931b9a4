//! The requirement checks: what each one found, and how the results are
//! grouped and counted.

use vstd::prelude::*;

use crate::builds::TEST_PROJECT_CHECK;
use crate::env::{EnvSnapshot, EnvView};
use crate::project::{Project, ProjectView};
use crate::names::{extension_is, has_extension, in_order, sorted};
use crate::paths::{is_dir, is_file, join_path, path_join};
use crate::text::{cat, cat3, chars_of, decimal, decimal_text, join, joined, owned, parse_u32, parse_u32_in, views, opt_text};

pub mod unix;
pub mod windows;

verus! {

/// The verdict of one check.
#[derive(Clone, Copy, Debug, PartialEq, Eq, Structural)]
pub enum Status {
    Pass,
    Warn,
    Fail,
}

/// The badge text of a verdict.
pub open spec fn badge_text(status: Status) -> Seq<char> {
    match status {
        Status::Pass => " MET  "@,
        Status::Warn => " WARN "@,
        Status::Fail => " UNMET"@,
    }
}

/// The sentence that spells out a verdict.
pub open spec fn word_text(status: Status) -> Seq<char> {
    match status {
        Status::Pass => "Requirement met"@,
        Status::Warn => "Requirement met with a mismatch"@,
        Status::Fail => "Requirement not met"@,
    }
}

impl Status {
    /// The six-character badge shown beside a check.
    pub fn badge(self) -> (r: &'static str)
        ensures
            r@ == badge_text(self),
    {
        match self {
            Status::Pass => " MET  ",
            Status::Warn => " WARN ",
            Status::Fail => " UNMET",
        }
    }

    /// The verdict in words.
    pub fn word(self) -> (r: &'static str)
        ensures
            r@ == word_text(self),
    {
        match self {
            Status::Pass => "Requirement met",
            Status::Warn => "Requirement met with a mismatch",
            Status::Fail => "Requirement not met",
        }
    }
}

/// One requirement: its verdict, what was expected, what was found and how
/// to fix it.
pub struct Check {
    pub name: String,
    pub status: Status,
    pub summary: String,
    pub expected: String,
    pub found: String,
    pub remedy: Vec<String>,
}

/// A check, as seen by specifications.
pub struct CheckView {
    pub name: Seq<char>,
    pub status: Status,
    pub summary: Seq<char>,
    pub expected: Seq<char>,
    pub found: Seq<char>,
    pub remedy: Seq<Seq<char>>,
}

impl View for Check {
    type V = CheckView;

    open spec fn view(&self) -> CheckView {
        CheckView {
            name: self.name@,
            status: self.status,
            summary: self.summary@,
            expected: self.expected@,
            found: self.found@,
            remedy: views(self.remedy@),
        }
    }
}

/// A titled list of checks.
pub struct Group {
    pub title: String,
    pub checks: Vec<Check>,
}

/// A group, as seen by specifications.
pub struct GroupView {
    pub title: Seq<char>,
    pub checks: Seq<CheckView>,
}

/// The views of a list of checks.
pub open spec fn check_views(checks: Seq<Check>) -> Seq<CheckView> {
    checks.map_values(|c: Check| c@)
}

impl View for Group {
    type V = GroupView;

    open spec fn view(&self) -> GroupView {
        GroupView { title: self.title@, checks: check_views(self.checks@) }
    }
}

/// The views of a list of groups.
pub open spec fn group_views(groups: Seq<Group>) -> Seq<GroupView> {
    groups.map_values(|g: Group| g@)
}

/// The platform the checks are made for.
#[derive(Clone, Copy, Debug, PartialEq, Eq, Structural)]
pub enum Platform {
    Unix,
    Windows,
}

/// The name shown for a platform.
pub open spec fn platform_name(platform: Platform) -> Seq<char> {
    match platform {
        Platform::Unix => "Linux"@,
        Platform::Windows => "Windows"@,
    }
}

/// How to install the .NET SDK on a platform.
pub open spec fn dotnet_remedy_text(platform: Platform) -> Seq<char> {
    match platform {
        Platform::Unix => "sudo snap install --classic dotnet && sudo snap install dotnet-sdk-100"@,
        Platform::Windows => "https://dotnet.microsoft.com/download"@,
    }
}

/// The file names under which a program is looked for in a folder.
pub open spec fn candidate_paths(platform: Platform, dir: Seq<char>, name: Seq<char>) -> Seq<Seq<char>> {
    match platform {
        Platform::Unix => seq![path_join(dir, name)],
        Platform::Windows => seq![
            path_join(dir, name + ".exe"@),
            path_join(dir, name + ".cmd"@),
            path_join(dir, name + ".bat"@),
        ],
    }
}

impl Platform {
    /// The name shown for this platform.
    pub fn name(self) -> (r: &'static str)
        ensures
            r@ == platform_name(self),
    {
        match self {
            Platform::Unix => unix::NAME,
            Platform::Windows => windows::NAME,
        }
    }

    /// How to install the .NET SDK here.
    pub fn dotnet_remedy(self) -> (r: &'static str)
        ensures
            r@ == dotnet_remedy_text(self),
    {
        match self {
            Platform::Unix => unix::DOTNET_REMEDY,
            Platform::Windows => windows::DOTNET_REMEDY,
        }
    }

    /// The paths under which `name` is looked for in `dir`.
    pub fn candidates(self, dir: &str, name: &str) -> (r: Vec<String>)
        ensures
            views(r@) == candidate_paths(self, dir@, name@),
    {
        match self {
            Platform::Unix => unix::candidates(dir, name),
            Platform::Windows => windows::candidates(dir, name),
        }
    }
}

/// The candidates for `name` in each of `dirs`, folder by folder, in the
/// order they are tried.
pub open spec fn all_candidates(platform: Platform, dirs: Seq<Seq<char>>, name: Seq<char>) -> Seq<Seq<char>>
    decreases dirs.len(),
{
    if dirs.len() == 0 {
        Seq::empty()
    } else {
        all_candidates(platform, dirs.drop_last(), name) + candidate_paths(platform, dirs.last(), name)
    }
}

/// The first of `paths` that the file system says is a file, `files`
/// holding its answer for each, in order; nothing where none is.
pub open spec fn first_file(paths: Seq<Seq<char>>, files: Seq<bool>) -> Option<Seq<char>>
    decreases paths.len(),
{
    if paths.len() == 0 || files.len() == 0 {
        None
    } else if files[0] {
        Some(paths[0])
    } else {
        first_file(paths.drop_first(), files.drop_first())
    }
}

proof fn lemma_first_file_at(paths: Seq<Seq<char>>, files: Seq<bool>, k: int)
    requires
        0 <= k < paths.len(),
        files.len() == paths.len(),
        files[k],
        forall|j: int| 0 <= j < k ==> !files[j],
    ensures
        first_file(paths, files) == Some(paths[k]),
    decreases k,
{
    if k > 0 {
        lemma_first_file_at(paths.drop_first(), files.drop_first(), k - 1);
    }
}

proof fn lemma_first_file_none(paths: Seq<Seq<char>>, files: Seq<bool>)
    requires
        files.len() == paths.len(),
        forall|j: int| 0 <= j < files.len() ==> !files[j],
    ensures
        first_file(paths, files) is None,
    decreases paths.len(),
{
    if paths.len() > 0 {
        lemma_first_file_none(paths.drop_first(), files.drop_first());
    }
}

proof fn lemma_first_file_member(paths: Seq<Seq<char>>, files: Seq<bool>)
    ensures
        first_file(paths, files) matches Some(p) ==> exists|k: int| 0 <= k < paths.len() && #[trigger] paths[k] == p,
    decreases paths.len(),
{
    if paths.len() > 0 && files.len() > 0 && !files[0] {
        lemma_first_file_member(paths.drop_first(), files.drop_first());
        if first_file(paths, files) is Some {
            let p = first_file(paths, files)->0;
            let k = choose|k: int| 0 <= k < paths.drop_first().len() && #[trigger] paths.drop_first()[k] == p;
            assert(paths[k + 1] == p);
        }
    }
}

/// Asks the file system about `paths` in order and gives the first that
/// is a file: what it gives is `first_file` of the paths for the answers
/// the file system gave.
fn first_present(paths: &Vec<String>) -> (r: Option<String>)
    ensures
        exists|files: Seq<bool>| files.len() == paths@.len() && opt_text(r) == first_file(views(paths@), files),
{
    let ghost pv = views(paths@);
    let ghost mut answers: Seq<bool> = Seq::empty();
    let mut i: usize = 0;
    while i < paths.len()
        invariant
            i <= paths@.len(),
            pv == views(paths@),
            answers.len() == i,
            forall|j: int| 0 <= j < i ==> !answers[j],
        decreases paths@.len() - i,
    {
        if is_file(paths[i].as_str()) {
            let found = paths[i].clone();
            proof {
                let files = answers.push(true) + Seq::new((paths@.len() - i - 1) as nat, |j: int| false);
                assert(files.len() == paths@.len());
                assert(files[i as int]);
                assert forall|j: int| 0 <= j < i implies !files[j] by {
                    assert(files[j] == answers[j]);
                }
                lemma_first_file_at(pv, files, i as int);
                assert(pv[i as int] == found@);
            }
            return Some(found);
        }
        proof {
            answers = answers.push(false);
        }
        i = i + 1;
    }
    proof {
        lemma_first_file_none(pv, answers);
    }
    None
}

fn candidate_list(env: &EnvSnapshot, name: &str, platform: Platform) -> (r: Vec<String>)
    ensures
        views(r@) == all_candidates(platform, env@.path, name@),
{
    let mut out: Vec<String> = Vec::new();
    let mut i: usize = 0;
    while i < env.path.len()
        invariant
            i <= env.path@.len(),
            views(out@) == all_candidates(platform, env@.path.take(i as int), name@),
        decreases env.path@.len() - i,
    {
        let candidates = platform.candidates(env.path[i].as_str(), name);
        let ghost before = views(out@);
        let mut j: usize = 0;
        while j < candidates.len()
            invariant
                j <= candidates@.len(),
                views(out@) == before + views(candidates@).take(j as int),
            decreases candidates@.len() - j,
        {
            let ghost prior = views(out@);
            out.push(candidates[j].clone());
            assert(views(out@) =~= prior.push(candidates@[j as int]@));
            assert(views(candidates@).take(j + 1) =~= views(candidates@).take(j as int).push(candidates@[j as int]@));
            assert(views(out@) =~= before + views(candidates@).take(j + 1));
            j = j + 1;
        }
        assert(views(candidates@).take(j as int) =~= views(candidates@));
        assert(env@.path.take(i + 1).drop_last() =~= env@.path.take(i as int));
        assert(env@.path.take(i + 1).last() == env.path@[i as int]@);
        i = i + 1;
    }
    assert(env@.path.take(i as int) =~= env@.path);
    out
}

/// Looks `name` up along PATH: the first candidate, folder by folder, that
/// the file system says is a file.
pub fn which(env: &EnvSnapshot, name: &str, platform: Platform) -> (r: Option<String>)
    ensures
        exists|files: Seq<bool>|
            files.len() == all_candidates(platform, env@.path, name@).len() && opt_text(r) == first_file(
                all_candidates(platform, env@.path, name@),
                files,
            ),
{
    let candidates = candidate_list(env, name, platform);
    first_present(&candidates)
}

/// The paths `file` has in each of `dirs`.
pub open spec fn paths_in(dirs: Seq<Seq<char>>, file: Seq<char>) -> Seq<Seq<char>> {
    dirs.map_values(|d: Seq<char>| path_join(d, file))
}

/// Whether `found` is what asking the file system about `file` in each of
/// `dirs`, in order, may give: the first of those paths it says is a file,
/// for some answers it gives.
pub open spec fn first_hit(dirs: Seq<Seq<char>>, file: Seq<char>, found: Option<Seq<char>>) -> bool {
    exists|files: Seq<bool>| files.len() == dirs.len() && found == first_file(paths_in(dirs, file), files)
}

/// The first of `dirs` joined with `file` that the file system says is a
/// file.
pub fn find_in(dirs: &Vec<String>, file: &str) -> (r: Option<String>)
    ensures
        first_hit(views(dirs@), file@, opt_text(r)),
        r matches Some(p) ==> exists|i: int| 0 <= i < dirs@.len() && p@ == path_join(#[trigger] dirs@[i]@, file@),
{
    let mut candidates: Vec<String> = Vec::new();
    let mut i: usize = 0;
    while i < dirs.len()
        invariant
            i <= dirs@.len(),
            views(candidates@) == paths_in(views(dirs@).take(i as int), file@),
        decreases dirs@.len() - i,
    {
        let ghost before = views(candidates@);
        let joined = join_path(dirs[i].as_str(), file);
        candidates.push(joined);
        assert(views(candidates@) =~= before.push(joined@));
        assert(views(dirs@).take(i + 1) =~= views(dirs@).take(i as int).push(dirs@[i as int]@));
        assert(views(candidates@) =~= paths_in(views(dirs@).take(i + 1), file@));
        i = i + 1;
    }
    assert(views(dirs@).take(i as int) =~= views(dirs@));
    let r = first_present(&candidates);
    proof {
        let files = choose|files: Seq<bool>| files.len() == candidates@.len() && opt_text(r) == first_file(views(candidates@), files);
        assert(files.len() == views(dirs@).len() && opt_text(r) == first_file(paths_in(views(dirs@), file@), files));
        lemma_first_file_member(views(candidates@), files);
        if r is Some {
            let k = choose|k: int| 0 <= k < views(candidates@).len() && #[trigger] views(candidates@)[k] == r->0@;
            assert(views(candidates@)[k] == path_join(views(dirs@)[k], file@));
            assert(dirs@[k]@ == views(dirs@)[k]);
        }
    }
    r
}

/// The verdicts of all checks of `groups`, group by group.
pub open spec fn statuses(groups: Seq<Group>) -> Seq<Status>
    decreases groups.len(),
{
    if groups.len() == 0 {
        Seq::empty()
    } else {
        statuses(groups.drop_last()) + groups.last().checks@.map_values(|c: Check| c.status)
    }
}

/// How many of `s` are `status`.
pub open spec fn count(s: Seq<Status>, status: Status) -> nat
    decreases s.len(),
{
    if s.len() == 0 {
        0
    } else {
        count(s.drop_last(), status) + if s.last() == status { 1nat } else { 0nat }
    }
}

/// The title and the number of checks of each group.
pub open spec fn shape(groups: Seq<GroupView>) -> Seq<(Seq<char>, nat)> {
    groups.map_values(|g: GroupView| (g.title, g.checks.len()))
}

/// How many checks the groups hold in all.
pub open spec fn checks_in(groups: Seq<GroupView>) -> nat
    decreases groups.len(),
{
    if groups.len() == 0 {
        0
    } else {
        checks_in(groups.drop_last()) + groups.last().checks.len()
    }
}

/// The verdicts of the groups are one per check.
pub proof fn lemma_statuses_len(groups: Seq<Group>)
    ensures
        statuses(groups).len() == checks_in(group_views(groups)),
    decreases groups.len(),
{
    if groups.len() > 0 {
        lemma_statuses_len(groups.drop_last());
        assert(group_views(groups).drop_last() =~= group_views(groups.drop_last()));
        assert(group_views(groups).last().checks.len() == groups.last().checks@.len());
    }
}

impl Report {
    /// The report of a scan on Linux: the tool chain (given where plc and
    /// cc were found and what they printed for `--version`), the shared
    /// objects along the loader path of a machine of architecture `arch`,
    /// the libNX1P2 artifact, the .NET group (given where dotnet was found
    /// and the SDKs it lists) and the sources group (given the .st files of
    /// the source, libNX1P2 and externals folders). The loader path, the
    /// artifact and the compiled folder are asked of the file system.
    pub fn for_unix(
        env: EnvSnapshot,
        project: Project,
        plc: &Option<Located>,
        cc: &Option<Located>,
        arch: &str,
        dotnet: &Option<String>,
        sdks: &Vec<String>,
        source: &Vec<String>,
        library: &Vec<String>,
        externals: &Vec<String>,
    ) -> (r: Report)
        ensures
            r.platform@ == platform_name(Platform::Unix),
            r.env@ == env@,
            r.root@ == project@.root,
            r.test_project == project.test_project,
            shape(group_views(r.groups@)) == seq![
                ("Compiler toolchain"@, 2nat),
                ("Run time libraries (loader path)"@, 2nat),
                ("Build artifacts"@, 1nat),
                (".NET test host"@, 3nat),
                ("Project sources"@, 4nat),
            ],
            statuses(r.groups@).len() == 12,
            group_views(r.groups@)[0] == unix::toolchain_group_view(env@.path.len(), located_view(*plc), located_view(*cc)),
            group_views(r.groups@)[3] == dotnet_group_view(env@.path.len(), opt_text(*dotnet), views(sdks@), project@, Platform::Unix),
            exists|compiled: bool|
                group_views(r.groups@)[4] == sources_group_view(project@.root, views(source@), views(library@), views(externals@), compiled),
    {
        let root = project.root.clone();
        let groups = unix::groups(&env, plc, cc, arch, root.as_str());
        let net = dotnet_group(&env, dotnet, sdks, &project, Platform::Unix);
        let sources = sources_group(root.as_str(), source, library, externals);
        let ghost gv = group_views(groups@);
        let r = Report::run(env, project, Platform::Unix, groups, net, sources);
        proof {
            let all = group_views(r.groups@);
            assert(all[0] == gv[0] && all[1] == gv[1] && all[2] == gv[2]);
            assert(gv[0].checks.len() == 2);
            assert(shape(all) =~= seq![
                ("Compiler toolchain"@, 2nat),
                ("Run time libraries (loader path)"@, 2nat),
                ("Build artifacts"@, 1nat),
                (".NET test host"@, 3nat),
                ("Project sources"@, 4nat),
            ]);
            lemma_statuses_len(r.groups@);
            reveal_with_fuel(checks_in, 6);
        }
        r
    }

    /// The report of a scan on Windows: the tool chain (given where plc,
    /// clang and lld-link were found and what plc and clang printed for
    /// `--version`), the link libraries along LIB, the run time stdlib along
    /// PATH, the export lists, the libNX1P2 artifact, the .NET group (given
    /// where dotnet was found and the SDKs it lists) and the sources group
    /// (given the .st files of the three source folders). The folders and
    /// files are asked of the file system.
    pub fn for_windows(
        env: EnvSnapshot,
        project: Project,
        plc: &Option<Located>,
        clang: &Option<Located>,
        lld: &Option<String>,
        dotnet: &Option<String>,
        sdks: &Vec<String>,
        source: &Vec<String>,
        library: &Vec<String>,
        externals: &Vec<String>,
    ) -> (r: Report)
        ensures
            r.platform@ == platform_name(Platform::Windows),
            r.env@ == env@,
            r.root@ == project@.root,
            r.test_project == project.test_project,
            shape(group_views(r.groups@)) == seq![
                ("Compiler toolchain"@, 3nat),
                ("Link libraries (LIB)"@, 8nat),
                ("Run time libraries (PATH)"@, 1nat),
                ("Link exports"@, 2nat),
                ("Build artifacts"@, 1nat),
                (".NET test host"@, 3nat),
                ("Project sources"@, 4nat),
            ],
            statuses(r.groups@).len() == 22,
            group_views(r.groups@)[0] == windows::toolchain_group_view(
                env@.path.len(),
                located_view(*plc),
                located_view(*clang),
                opt_text(*lld),
            ),
            group_views(r.groups@)[5] == dotnet_group_view(env@.path.len(), opt_text(*dotnet), views(sdks@), project@, Platform::Windows),
            exists|compiled: bool|
                group_views(r.groups@)[6] == sources_group_view(project@.root, views(source@), views(library@), views(externals@), compiled),
    {
        let root = project.root.clone();
        let groups = windows::groups(&env, plc, clang, lld, root.as_str());
        let net = dotnet_group(&env, dotnet, sdks, &project, Platform::Windows);
        let sources = sources_group(root.as_str(), source, library, externals);
        let ghost gv = group_views(groups@);
        let r = Report::run(env, project, Platform::Windows, groups, net, sources);
        proof {
            let all = group_views(r.groups@);
            assert(all[0] == gv[0] && all[1] == gv[1] && all[2] == gv[2] && all[3] == gv[3] && all[4] == gv[4]);
            assert(gv[1].checks.len() == 8);
            assert(shape(all) =~= seq![
                ("Compiler toolchain"@, 3nat),
                ("Link libraries (LIB)"@, 8nat),
                ("Run time libraries (PATH)"@, 1nat),
                ("Link exports"@, 2nat),
                ("Build artifacts"@, 1nat),
                (".NET test host"@, 3nat),
                ("Project sources"@, 4nat),
            ]);
            lemma_statuses_len(r.groups@);
            reveal_with_fuel(checks_in, 8);
        }
        r
    }
}

/// The checks counted are those met, those met with a warning and those
/// not met: every verdict is one of the three.
pub proof fn law_totals_add_up(s: Seq<Status>)
    ensures
        count(s, Status::Pass) + count(s, Status::Warn) + count(s, Status::Fail) == s.len(),
    decreases s.len(),
{
    if s.len() > 0 {
        law_totals_add_up(s.drop_last());
    }
}

/// A program found on PATH, and the first line its `--version` printed, if any.
pub struct Located {
    pub path: String,
    pub version: Option<String>,
}

/// A located program, as seen by specifications: its path and version line.
pub open spec fn located_view(o: Option<Located>) -> Option<(Seq<char>, Option<Seq<char>>)> {
    match o {
        Some(l) => Some((l.path@, opt_text(l.version))),
        None => None,
    }
}

/// The check on a program of the tool chain: its name, what is expected of
/// it, what to do when it is missing, and where (and in which version) it was found.
pub open spec fn tool_check_view(
    name: Seq<char>,
    expected: Seq<char>,
    program: Seq<char>,
    remedy: Seq<Seq<char>>,
    path_folders: nat,
    found: Option<(Seq<char>, Option<Seq<char>>)>,
) -> CheckView {
    match found {
        Some((path, version)) => {
            let v = match version {
                Some(v) => v,
                None => "version not reported"@,
            };
            check_of(name, Status::Pass, v, expected, path + "\n"@ + v, Seq::empty())
        },
        None => check_of(
            name,
            Status::Fail,
            "not found on PATH"@,
            expected,
            "no "@ + program + " in any of the "@ + decimal(path_folders) + " PATH folder(s)"@,
            remedy,
        ),
    }
}

/// The check on a program of the tool chain, given where it was found and
/// the first line it printed for `--version`.
pub fn tool_check(
    name: &str,
    expected: &str,
    program: &str,
    remedy: Vec<String>,
    path_folders: usize,
    found: &Option<Located>,
) -> (r: Check)
    ensures
        r@ == tool_check_view(name@, expected@, program@, views(remedy@), path_folders as nat, located_view(*found)),
{
    match found {
        Some(tool) => {
            let version = match &tool.version {
                Some(v) => v.clone(),
                None => owned("version not reported"),
            };
            let found_text = cat3(tool.path.as_str(), "\n", version.as_str());
            let r = Check {
                name: owned(name),
                status: Status::Pass,
                summary: version,
                expected: owned(expected),
                found: found_text,
                remedy: Vec::new(),
            };
            assert(r@.remedy =~= Seq::<Seq<char>>::empty());
            r
        },
        None => {
            let count = decimal_text(path_folders as u64);
            let text = cat3("no ", program, " in any of the ").concat(count.as_str()).concat(" PATH folder(s)");
            Check {
                name: owned(name),
                status: Status::Fail,
                summary: owned("not found on PATH"),
                expected: owned(expected),
                found: text,
                remedy,
            }
        },
    }
}

/// The outcome of one scan.
pub struct Report {
    pub root: String,
    pub test_project: Option<String>,
    pub platform: &'static str,
    pub env: EnvSnapshot,
    pub groups: Vec<Group>,
}

impl Report {
    /// The report shown before the first scan: the project, and no groups.
    pub fn pending(project: Project, platform: Platform) -> (r: Self)
        ensures
            r.root@ == project@.root,
            r.test_project == project.test_project,
            r.platform@ == platform_name(platform),
            r.env@ == crate::env::empty_view(),
            r.groups@.len() == 0,
    {
        Report {
            root: project.root,
            test_project: project.test_project,
            platform: platform.name(),
            env: EnvSnapshot::empty(),
            groups: Vec::new(),
        }
    }

    /// A scan's report: the platform's groups, then the .NET group, then the
    /// sources group.
    pub fn run(
        env: EnvSnapshot,
        project: Project,
        platform: Platform,
        platform_groups: Vec<Group>,
        dotnet: Group,
        sources: Group,
    ) -> (r: Self)
        ensures
            r.root@ == project@.root,
            r.test_project == project.test_project,
            r.platform@ == platform_name(platform),
            r.env@ == env@,
            group_views(r.groups@) == group_views(platform_groups@).push(dotnet@).push(sources@),
    {
        let mut groups = platform_groups;
        let ghost before = groups@;
        groups.push(dotnet);
        groups.push(sources);
        assert(group_views(groups@) =~= group_views(before).push(dotnet@).push(sources@));
        Report {
            root: project.root,
            test_project: project.test_project,
            platform: platform.name(),
            env,
            groups,
        }
    }

    /// The number of checks, then of those met, met with a warning, and not met.
    pub fn totals(&self) -> (r: (usize, usize, usize, usize))
        requires
            statuses(self.groups@).len() <= usize::MAX,
        ensures
            r.0 == statuses(self.groups@).len(),
            r.1 == count(statuses(self.groups@), Status::Pass),
            r.2 == count(statuses(self.groups@), Status::Warn),
            r.3 == count(statuses(self.groups@), Status::Fail),
    {
        let mut pass: usize = 0;
        let mut warn: usize = 0;
        let mut fail: usize = 0;
        let ghost all = statuses(self.groups@);
        let mut g: usize = 0;
        while g < self.groups.len()
            invariant
                g <= self.groups@.len(),
                all == statuses(self.groups@),
                all.len() <= usize::MAX,
                pass == count(statuses(self.groups@.take(g as int)), Status::Pass),
                warn == count(statuses(self.groups@.take(g as int)), Status::Warn),
                fail == count(statuses(self.groups@.take(g as int)), Status::Fail),
                statuses(self.groups@.take(g as int)).len() <= all.len(),
            decreases self.groups@.len() - g,
        {
            let group = &self.groups[g];
            let ghost done = statuses(self.groups@.take(g as int));
            let ghost mine = group.checks@.map_values(|c: Check| c.status);
            proof {
                assert(self.groups@.take(g + 1).drop_last() =~= self.groups@.take(g as int));
                assert(statuses(self.groups@.take(g + 1)) == done + mine);
                lemma_statuses_prefix(self.groups@, g as int + 1);
            }
            let mut c: usize = 0;
            while c < group.checks.len()
                invariant
                    c <= group.checks@.len(),
                    done + mine == statuses(self.groups@.take(g + 1)),
                    statuses(self.groups@.take(g + 1)).len() <= usize::MAX,
                    mine == group.checks@.map_values(|c: Check| c.status),
                    pass == count(done + mine.take(c as int), Status::Pass),
                    warn == count(done + mine.take(c as int), Status::Warn),
                    fail == count(done + mine.take(c as int), Status::Fail),
                decreases group.checks@.len() - c,
            {
                let ghost before = done + mine.take(c as int);
                proof {
                    assert((done + mine.take(c + 1)).drop_last() =~= before);
                    assert((done + mine.take(c + 1)).last() == group.checks@[c as int].status);
                    law_totals_add_up(before);
                    assert(before.len() < (done + mine).len());
                }
                match group.checks[c].status {
                    Status::Pass => pass = pass + 1,
                    Status::Warn => warn = warn + 1,
                    Status::Fail => fail = fail + 1,
                }
                c = c + 1;
            }
            assert(mine.take(c as int) =~= mine);
            g = g + 1;
        }
        assert(self.groups@.take(g as int) =~= self.groups@);
        proof {
            law_totals_add_up(all);
        }
        (pass + warn + fail, pass, warn, fail)
    }
}

/// The verdicts of a prefix of the groups are no more than all of them.
proof fn lemma_statuses_prefix(groups: Seq<Group>, k: int)
    requires
        0 <= k <= groups.len(),
    ensures
        statuses(groups.take(k)).len() <= statuses(groups).len(),
    decreases groups.len() - k,
{
    if k < groups.len() {
        lemma_statuses_prefix(groups, k + 1);
        assert(groups.take(k + 1).drop_last() =~= groups.take(k));
    } else {
        assert(groups.take(k) =~= groups);
    }
}

/// The index of the first `.` or space in `s` at or after `i`, or `s.len()`.
pub open spec fn first_separator(s: Seq<char>, i: int) -> int
    decreases s.len() - i,
{
    if i < 0 || i >= s.len() {
        s.len() as int
    } else if s[i] == '.' || s[i] == ' ' {
        i
    } else {
        first_separator(s, i + 1)
    }
}

/// The major version at the start of a line of `dotnet --list-sdks`: the
/// text before the first `.` or space, read as a number.
pub open spec fn sdk_major_of(line: Seq<char>) -> Option<u32> {
    parse_u32(line.take(first_separator(line, 0)))
}

/// Reads the major version at the start of an SDK line.
pub fn sdk_major(line: &str) -> (r: Option<u32>)
    ensures
        r == sdk_major_of(line@),
{
    let cs = chars_of(line);
    let mut i: usize = 0;
    while i < cs.len() && cs[i] != '.' && cs[i] != ' '
        invariant
            i <= cs@.len(),
            cs@ == line@,
            first_separator(line@, 0) == first_separator(line@, i as int),
        decreases cs@.len() - i,
    {
        i = i + 1;
    }
    assert(cs@.subrange(0, i as int) =~= line@.take(i as int));
    parse_u32_in(&cs, 0, i)
}

/// The larger of two optional versions.
pub open spec fn newer(a: Option<u32>, b: Option<u32>) -> Option<u32> {
    match (a, b) {
        (Some(x), Some(y)) => Some(if x >= y { x } else { y }),
        (Some(x), None) => Some(x),
        (None, y) => y,
    }
}

/// The newest major version among the SDK lines that have one.
pub open spec fn newest_sdk(lines: Seq<Seq<char>>) -> Option<u32>
    decreases lines.len(),
{
    if lines.len() == 0 {
        None
    } else {
        newer(newest_sdk(lines.drop_last()), sdk_major_of(lines.last()))
    }
}

/// The newest major version among the SDK lines.
pub fn newest_major(sdks: &Vec<String>) -> (r: Option<u32>)
    ensures
        r == newest_sdk(views(sdks@)),
{
    let mut newest: Option<u32> = None;
    let mut i: usize = 0;
    while i < sdks.len()
        invariant
            i <= sdks@.len(),
            newest == newest_sdk(views(sdks@).take(i as int)),
        decreases sdks@.len() - i,
    {
        assert(views(sdks@).take(i + 1).drop_last() =~= views(sdks@).take(i as int));
        let major = sdk_major(sdks[i].as_str());
        newest = match (newest, major) {
            (Some(x), Some(y)) => Some(if x >= y { x } else { y }),
            (Some(x), None) => Some(x),
            (None, y) => y,
        };
        i = i + 1;
    }
    assert(views(sdks@).take(i as int) =~= views(sdks@));
    newest
}

/// A check built from its parts.
pub open spec fn check_of(
    name: Seq<char>,
    status: Status,
    summary: Seq<char>,
    expected: Seq<char>,
    found: Seq<char>,
    remedy: Seq<Seq<char>>,
) -> CheckView {
    CheckView { name, status, summary, expected, found, remedy }
}

/// The check on a file under the project root, at `path`, for each answer
/// `present` the file system may give.
pub open spec fn file_check_view(
    path: Seq<char>,
    present: bool,
    name: Seq<char>,
    purpose: Seq<char>,
    remedy: Seq<Seq<char>>,
) -> CheckView {
    if present {
        check_of(name, Status::Pass, "present"@, name + ", "@ + purpose, path, Seq::empty())
    } else {
        check_of(name, Status::Fail, "missing"@, name + ", "@ + purpose, path + " does not exist"@, remedy)
    }
}

/// The check on a file at `path`, given whether the file system says a
/// file is there.
pub fn file_check_for(path: String, present: bool, name: &str, purpose: &str, remedy: Vec<String>) -> (r: Check)
    ensures
        r@ == file_check_view(path@, present, name@, purpose@, views(remedy@)),
{
    let expected = cat3(name, ", ", purpose);
    if present {
        let r = Check {
            name: owned(name),
            status: Status::Pass,
            summary: owned("present"),
            expected,
            found: path,
            remedy: Vec::new(),
        };
        assert(r@.remedy =~= Seq::<Seq<char>>::empty());
        r
    } else {
        let found = cat(path.as_str(), " does not exist");
        Check {
            name: owned(name),
            status: Status::Fail,
            summary: owned("missing"),
            expected,
            found,
            remedy,
        }
    }
}

/// Checks that `relative` names a file under `root`, asking the file
/// system.
pub fn file_check(root: &str, relative: &str, name: &str, purpose: &str, remedy: Vec<String>) -> (r: Check)
    ensures
        exists|present: bool|
            r@ == file_check_view(path_join(root@, relative@), present, name@, purpose@, views(remedy@)),
{
    let path = join_path(root, relative);
    let present = is_file(path.as_str());
    file_check_for(path, present, name, purpose, remedy)
}

/// The check on a folder of .st sources at `dir`, given the sources found there.
pub open spec fn st_dir_check_view(dir: Seq<char>, name: Seq<char>, purpose: Seq<char>, files: Seq<Seq<char>>) -> CheckView {
    if files.len() == 0 {
        check_of(
            name,
            Status::Fail,
            "no .st files"@,
            name + ", "@ + purpose,
            dir + " holds no .st files"@,
            seq!["Restore the sources from source control."@],
        )
    } else {
        check_of(
            name,
            Status::Pass,
            decimal(files.len()) + " file(s)"@,
            name + ", "@ + purpose,
            joined(files, "\n"@),
            Seq::empty(),
        )
    }
}

/// The paths in the folder `dir` of those of its entries `names` whose
/// extension is `st`, in any ASCII case, in the order listed.
pub open spec fn st_paths(dir: Seq<char>, names: Seq<Seq<char>>) -> Seq<Seq<char>>
    decreases names.len(),
{
    if names.len() == 0 {
        Seq::empty()
    } else if has_extension(names.last(), "st"@) {
        st_paths(dir, names.drop_last()).push(path_join(dir, names.last()))
    } else {
        st_paths(dir, names.drop_last())
    }
}

/// The .st sources in the folder `dir`, whose entries are `names`: their
/// paths, sorted.
pub fn st_files(dir: &str, names: &Vec<String>) -> (r: Vec<String>)
    ensures
        in_order(views(r@)),
        views(r@).to_multiset() == st_paths(dir@, views(names@)).to_multiset(),
{
    let ghost nv = views(names@);
    let mut found: Vec<String> = Vec::new();
    let mut i: usize = 0;
    while i < names.len()
        invariant
            i <= names@.len(),
            nv == views(names@),
            views(found@) == st_paths(dir@, nv.take(i as int)),
        decreases names@.len() - i,
    {
        assert(nv.take(i + 1).drop_last() =~= nv.take(i as int));
        assert(nv.take(i + 1).last() == names@[i as int]@);
        if extension_is(names[i].as_str(), "st") {
            let ghost before = views(found@);
            found.push(join_path(dir, names[i].as_str()));
            assert(views(found@) =~= before.push(found@.last()@));
        }
        i = i + 1;
    }
    assert(nv.take(i as int) =~= nv);
    sorted(found)
}

/// Checks that the folder `relative` under `root` holds .st sources, given
/// the sources listed there.
pub fn st_dir_check(root: &str, relative: &str, name: &str, purpose: &str, files: &Vec<String>) -> (r: Check)
    ensures
        r@ == st_dir_check_view(path_join(root@, relative@), name@, purpose@, views(files@)),
{
    let dir = join_path(root, relative);
    let expected = cat3(name, ", ", purpose);
    if files.len() == 0 {
        let remedy = vec![owned("Restore the sources from source control.")];
        let r = Check {
            name: owned(name),
            status: Status::Fail,
            summary: owned("no .st files"),
            expected,
            found: cat(dir.as_str(), " holds no .st files"),
            remedy,
        };
        assert(r@.remedy =~= seq!["Restore the sources from source control."@]);
        r
    } else {
        let count = decimal_text(files.len() as u64);
        let r = Check {
            name: owned(name),
            status: Status::Pass,
            summary: cat(count.as_str(), " file(s)"),
            expected,
            found: join(files, "\n"),
            remedy: Vec::new(),
        };
        assert(r@.remedy =~= Seq::<Seq<char>>::empty());
        r
    }
}

/// What the compiled output folder check says, at `path`, for each answer
/// `present` the file system may give.
pub open spec fn compiled_check_view(path: Seq<char>, present: bool) -> CheckView {
    if present {
        check_of(
            "compiled output folder"@,
            Status::Pass,
            "present"@,
            "the compiled folder, which plc and the linker write their output into"@,
            path,
            Seq::empty(),
        )
    } else {
        check_of(
            "compiled output folder"@,
            Status::Fail,
            "missing"@,
            "the compiled folder, which plc and the linker write their output into"@,
            path + " does not exist"@,
            seq![
                "The folder is ignored by git, so a fresh clone does not have it."@,
                "Neither plc nor the linker creates it, so create it yourself:"@,
                "mkdir compiled"@,
            ],
        )
    }
}

/// The sources group, given the .st files listed in the source, libNX1P2 and
/// externals folders, for each answer `compiled` the file system may give
/// about the compiled folder.
pub open spec fn sources_group_view(
    root: Seq<char>,
    source: Seq<Seq<char>>,
    library: Seq<Seq<char>>,
    externals: Seq<Seq<char>>,
    compiled: bool,
) -> GroupView {
    GroupView {
        title: "Project sources"@,
        checks: seq![
            st_dir_check_view(
                path_join(root, "source"@),
                "source .st files"@,
                "the Structured Text sources plc compiles into the shared library"@,
                source,
            ),
            st_dir_check_view(
                path_join(root, "libNX1P2"@),
                "libNX1P2 .st files"@,
                "the library sources plc compiles into libNX1P2, which the shared library links against"@,
                library,
            ),
            st_dir_check_view(
                path_join(root, "externals"@),
                "externals .st files"@,
                "the declaration files passed to plc with -i, without which the sources will not compile"@,
                externals,
            ),
            compiled_check_view(path_join(root, "compiled"@), compiled),
        ],
    }
}

/// The check on the compiled output folder at `path`, given whether the
/// file system says a folder is there.
pub fn compiled_check(path: String, present: bool) -> (r: Check)
    ensures
        r@ == compiled_check_view(path@, present),
{
    if present {
        let c = Check {
            name: owned("compiled output folder"),
            status: Status::Pass,
            summary: owned("present"),
            expected: owned("the compiled folder, which plc and the linker write their output into"),
            found: path,
            remedy: Vec::new(),
        };
        assert(c@.remedy =~= Seq::<Seq<char>>::empty());
        c
    } else {
        let remedy = vec![
            owned("The folder is ignored by git, so a fresh clone does not have it."),
            owned("Neither plc nor the linker creates it, so create it yourself:"),
            owned("mkdir compiled"),
        ];
        let c = Check {
            name: owned("compiled output folder"),
            status: Status::Fail,
            summary: owned("missing"),
            expected: owned("the compiled folder, which plc and the linker write their output into"),
            found: cat(path.as_str(), " does not exist"),
            remedy,
        };
        assert(c@.remedy =~= seq![
            "The folder is ignored by git, so a fresh clone does not have it."@,
            "Neither plc nor the linker creates it, so create it yourself:"@,
            "mkdir compiled"@,
        ]);
        c
    }
}

/// The group on the project's sources and output folder, given the .st
/// files listed in the source, libNX1P2 and externals folders and whether
/// the compiled folder exists.
pub fn sources_group_for(
    root: &str,
    source: &Vec<String>,
    library: &Vec<String>,
    externals: &Vec<String>,
    compiled: bool,
) -> (r: Group)
    ensures
        r@ == sources_group_view(root@, views(source@), views(library@), views(externals@), compiled),
{
    let first = st_dir_check(
        root,
        "source",
        "source .st files",
        "the Structured Text sources plc compiles into the shared library",
        source,
    );
    let second = st_dir_check(
        root,
        "libNX1P2",
        "libNX1P2 .st files",
        "the library sources plc compiles into libNX1P2, which the shared library links against",
        library,
    );
    let third = st_dir_check(
        root,
        "externals",
        "externals .st files",
        "the declaration files passed to plc with -i, without which the sources will not compile",
        externals,
    );
    let last = compiled_check(join_path(root, "compiled"), compiled);
    let checks = vec![first, second, third, last];
    let r = Group { title: owned("Project sources"), checks };
    assert(r@.checks =~= sources_group_view(root@, views(source@), views(library@), views(externals@), compiled).checks);
    r
}

/// The group on the project's sources and output folder, asking the file
/// system whether the compiled folder exists.
pub fn sources_group(root: &str, source: &Vec<String>, library: &Vec<String>, externals: &Vec<String>) -> (r: Group)
    ensures
        exists|compiled: bool|
            r@ == sources_group_view(root@, views(source@), views(library@), views(externals@), compiled),
{
    let compiled = join_path(root, "compiled");
    let present = is_dir(compiled.as_str());
    sources_group_for(root, source, library, externals, present)
}

/// What the project's test project check says.
pub open spec fn test_project_check_view(project: ProjectView) -> CheckView {
    match project.test_project {
        Some(relative) => check_of(
            TEST_PROJECT_CHECK@,
            Status::Pass,
            relative,
            "a .csproj in the project root or in a tests folder, the project dotnet test runs"@,
            path_join(project.root, relative) + "\n"@ + match project.framework {
                Some(major) => "target framework: net"@ + decimal(major as nat) + ".0"@,
                None => "target framework could not be read"@,
            },
            Seq::empty(),
        ),
        None => check_of(
            TEST_PROJECT_CHECK@,
            Status::Fail,
            "no .csproj found"@,
            "a .csproj in the project root or in a tests folder, the project dotnet test runs"@,
            "searched "@ + project.root + " and its immediate subfolders"@,
            seq![
                "dotnet test needs a project file to run."@,
                "Put the test .csproj in the project root or in a tests folder."@,
                "Start this app from inside the checkout that holds it."@,
            ],
        ),
    }
}

/// Checks that the project has a test project.
pub fn test_project_check(project: &Project) -> (r: Check)
    ensures
        r@ == test_project_check_view(project@),
{
    let expected = owned("a .csproj in the project root or in a tests folder, the project dotnet test runs");
    match &project.test_project {
        Some(relative) => {
            let framework = match project.framework {
                Some(major) => {
                    let digits = decimal_text(major as u64);
                    cat3("target framework: net", digits.as_str(), ".0")
                },
                None => owned("target framework could not be read"),
            };
            let path = join_path(project.root.as_str(), relative.as_str());
            let found = cat3(path.as_str(), "\n", framework.as_str());
            let r = Check {
                name: owned(TEST_PROJECT_CHECK),
                status: Status::Pass,
                summary: relative.clone(),
                expected,
                found,
                remedy: Vec::new(),
            };
            assert(r@.remedy =~= Seq::<Seq<char>>::empty());
            r
        },
        None => {
            let remedy = vec![
                owned("dotnet test needs a project file to run."),
                owned("Put the test .csproj in the project root or in a tests folder."),
                owned("Start this app from inside the checkout that holds it."),
            ];
            let r = Check {
                name: owned(TEST_PROJECT_CHECK),
                status: Status::Fail,
                summary: owned("no .csproj found"),
                expected,
                found: cat3("searched ", project.root.as_str(), " and its immediate subfolders"),
                remedy,
            };
            assert(r@.remedy =~= seq![
                "dotnet test needs a project file to run."@,
                "Put the test .csproj in the project root or in a tests folder."@,
                "Start this app from inside the checkout that holds it."@,
            ]);
            r
        },
    }
}

/// The name of the SDK check, by the version the test project wants.
pub open spec fn sdk_name(wanted: Option<u32>) -> Seq<char> {
    match wanted {
        Some(major) => ".NET SDK "@ + decimal(major as nat) + " or newer"@,
        None => ".NET SDK"@,
    }
}

/// What the SDK check expects, by the version the test project wants.
pub open spec fn sdk_expected(wanted: Option<u32>) -> Seq<char> {
    match wanted {
        Some(major) => ".NET SDK "@ + decimal(major as nat)
            + ".x, the target framework declared by the test project is net"@ + decimal(major as nat) + ".0"@,
        None => ".NET SDK, needed to build and run the test project"@,
    }
}

/// The SDK check once dotnet was found and listed `sdks`.
pub open spec fn sdk_check_view(wanted: Option<u32>, sdks: Seq<Seq<char>>, platform: Platform) -> CheckView {
    match newest_sdk(sdks) {
        Some(major) => if wanted is Some && major < wanted->0 {
            check_of(
                sdk_name(wanted),
                Status::Fail,
                "newest SDK is "@ + decimal(major as nat) + ".x"@,
                sdk_expected(wanted),
                joined(sdks, "\n"@),
                seq![
                    "The test project targets net"@ + decimal(wanted->0 as nat) + ".0, which SDK "@
                        + decimal(major as nat) + ".x cannot build."@,
                    "Install the .NET "@ + decimal(wanted->0 as nat) + " SDK:"@,
                    dotnet_remedy_text(platform),
                ],
            )
        } else {
            check_of(
                sdk_name(wanted),
                Status::Pass,
                "SDK "@ + decimal(major as nat) + ".x installed"@,
                sdk_expected(wanted),
                joined(sdks, "\n"@),
                Seq::empty(),
            )
        },
        None => check_of(
            sdk_name(wanted),
            Status::Fail,
            "no SDK installed"@,
            sdk_expected(wanted),
            "dotnet --list-sdks returned nothing"@,
            seq![
                "Only a runtime is installed, dotnet test needs the SDK."@,
                "Install the .NET SDK:"@,
                dotnet_remedy_text(platform),
            ],
        ),
    }
}

/// The .NET group: dotnet on PATH (found at `dotnet`, with `sdks` the lines
/// `dotnet --list-sdks` printed), the SDK version, and the test project.
pub open spec fn dotnet_group_view(
    path_folders: nat,
    dotnet: Option<Seq<char>>,
    sdks: Seq<Seq<char>>,
    project: ProjectView,
    platform: Platform,
) -> GroupView {
    let wanted = project.framework;
    GroupView {
        title: ".NET test host"@,
        checks: match dotnet {
            Some(path) => seq![
                check_of(
                    "dotnet on PATH"@,
                    Status::Pass,
                    "available"@,
                    "the dotnet driver resolvable through PATH, used by dotnet test"@,
                    path,
                    Seq::empty(),
                ),
                sdk_check_view(wanted, sdks, platform),
                test_project_check_view(project),
            ],
            None => seq![
                check_of(
                    "dotnet on PATH"@,
                    Status::Fail,
                    "not found on PATH"@,
                    "the dotnet driver resolvable through PATH, used by dotnet test"@,
                    "no dotnet in any of the "@ + decimal(path_folders) + " PATH folder(s)"@,
                    seq!["Install the .NET SDK:"@, dotnet_remedy_text(platform)],
                ),
                check_of(
                    sdk_name(wanted),
                    Status::Fail,
                    "cannot be queried"@,
                    sdk_expected(wanted),
                    "dotnet is not installed"@,
                    seq!["Install the .NET SDK first."@],
                ),
                test_project_check_view(project),
            ],
        },
    }
}

fn sdk_name_text(wanted: Option<u32>) -> (r: String)
    ensures
        r@ == sdk_name(wanted),
{
    match wanted {
        Some(major) => {
            let digits = decimal_text(major as u64);
            cat3(".NET SDK ", digits.as_str(), " or newer")
        },
        None => owned(".NET SDK"),
    }
}

fn sdk_expected_text(wanted: Option<u32>) -> (r: String)
    ensures
        r@ == sdk_expected(wanted),
{
    match wanted {
        Some(major) => {
            let digits = decimal_text(major as u64);
            cat3(".NET SDK ", digits.as_str(), ".x, the target framework declared by the test project is net")
                .concat(digits.as_str()).concat(".0")
        },
        None => owned(".NET SDK, needed to build and run the test project"),
    }
}

fn sdk_check(wanted: Option<u32>, sdks: &Vec<String>, platform: Platform) -> (r: Check)
    ensures
        r@ == sdk_check_view(wanted, views(sdks@), platform),
{
    let name = sdk_name_text(wanted);
    let expected = sdk_expected_text(wanted);
    match newest_major(sdks) {
        Some(major) => {
            let have = decimal_text(major as u64);
            match wanted {
                Some(required) if major < required => {
                    let want = decimal_text(required as u64);
                    let remedy = vec![
                        cat3("The test project targets net", want.as_str(), ".0, which SDK ")
                            .concat(have.as_str()).concat(".x cannot build."),
                        cat3("Install the .NET ", want.as_str(), " SDK:"),
                        owned(platform.dotnet_remedy()),
                    ];
                    let r = Check {
                        name,
                        status: Status::Fail,
                        summary: cat3("newest SDK is ", have.as_str(), ".x"),
                        expected,
                        found: join(sdks, "\n"),
                        remedy,
                    };
                    assert(r@.remedy =~= sdk_check_view(wanted, views(sdks@), platform).remedy);
                    r
                },
                _ => {
                    let r = Check {
                        name,
                        status: Status::Pass,
                        summary: cat3("SDK ", have.as_str(), ".x installed"),
                        expected,
                        found: join(sdks, "\n"),
                        remedy: Vec::new(),
                    };
                    assert(r@.remedy =~= Seq::<Seq<char>>::empty());
                    r
                },
            }
        },
        None => {
            let remedy = vec![
                owned("Only a runtime is installed, dotnet test needs the SDK."),
                owned("Install the .NET SDK:"),
                owned(platform.dotnet_remedy()),
            ];
            let r = Check {
                name,
                status: Status::Fail,
                summary: owned("no SDK installed"),
                expected,
                found: owned("dotnet --list-sdks returned nothing"),
                remedy,
            };
            assert(r@.remedy =~= sdk_check_view(wanted, views(sdks@), platform).remedy);
            r
        },
    }
}

/// The group on the .NET test host: whether dotnet was found on PATH (at
/// `dotnet`), what `dotnet --list-sdks` printed there (`sdks`, empty when it
/// was not found), and the test project.
pub fn dotnet_group(
    env: &EnvSnapshot,
    dotnet: &Option<String>,
    sdks: &Vec<String>,
    project: &Project,
    platform: Platform,
) -> (r: Group)
    ensures
        r@ == dotnet_group_view(
            env@.path.len(),
            match dotnet {
                Some(p) => Some(p@),
                None => None,
            },
            views(sdks@),
            project@,
            platform,
        ),
{
    let wanted = project.framework;
    let expected_driver = "the dotnet driver resolvable through PATH, used by dotnet test";
    let mut checks: Vec<Check> = Vec::new();
    match dotnet {
        Some(path) => {
            checks.push(Check {
                name: owned("dotnet on PATH"),
                status: Status::Pass,
                summary: owned("available"),
                expected: owned(expected_driver),
                found: path.clone(),
                remedy: Vec::new(),
            });
            checks.push(sdk_check(wanted, sdks, platform));
        },
        None => {
            let count = decimal_text(env.path.len() as u64);
            checks.push(Check {
                name: owned("dotnet on PATH"),
                status: Status::Fail,
                summary: owned("not found on PATH"),
                expected: owned(expected_driver),
                found: cat3("no dotnet in any of the ", count.as_str(), " PATH folder(s)"),
                remedy: vec![owned("Install the .NET SDK:"), owned(platform.dotnet_remedy())],
            });
            checks.push(Check {
                name: sdk_name_text(wanted),
                status: Status::Fail,
                summary: owned("cannot be queried"),
                expected: sdk_expected_text(wanted),
                found: owned("dotnet is not installed"),
                remedy: vec![owned("Install the .NET SDK first.")],
            });
        },
    }
    checks.push(test_project_check(project));
    let r = Group { title: owned(".NET test host"), checks };
    proof {
        let want = dotnet_group_view(
            env@.path.len(),
            match dotnet {
                Some(p) => Some(p@),
                None => None,
            },
            views(sdks@),
            project@,
            platform,
        );
        assert(r@.checks[0].remedy =~= want.checks[0].remedy);
        assert(r@.checks[1].remedy =~= want.checks[1].remedy);
        assert(r@.checks =~= want.checks);
    }
    r
}


/// What `newest_sdk` finds: a major version some line has and no line
/// exceeds, or nothing when no line has one.
proof fn lemma_newest_sdk(lines: Seq<Seq<char>>)
    ensures
        match newest_sdk(lines) {
            Some(n) => (exists|i: int| 0 <= i < lines.len() && #[trigger] sdk_major_of(lines[i]) == Some(n))
                && forall|i: int| 0 <= i < lines.len() && (#[trigger] sdk_major_of(lines[i])) is Some
                    ==> sdk_major_of(lines[i])->0 <= n,
            None => forall|i: int| 0 <= i < lines.len() ==> (#[trigger] sdk_major_of(lines[i])) is None,
        },
    decreases lines.len(),
{
    if lines.len() > 0 {
        let front = lines.drop_last();
        lemma_newest_sdk(front);
        assert forall|i: int| 0 <= i < front.len() implies #[trigger] front[i] == lines[i] by {}
        let last = lines.len() - 1;
        assert(lines[last] == lines.last());
        match newest_sdk(lines) {
            Some(n) => {
                if newest_sdk(front) is Some && newest_sdk(front)->0 == n {
                    let i = choose|i: int| 0 <= i < front.len() && #[trigger] sdk_major_of(front[i]) == Some(n);
                    assert(sdk_major_of(lines[i]) == Some(n));
                } else {
                    assert(sdk_major_of(lines[last]) == Some(n));
                }
                assert forall|i: int| 0 <= i < lines.len() && (#[trigger] sdk_major_of(lines[i])) is Some
                    implies sdk_major_of(lines[i])->0 <= n by {
                    if i < last {
                        assert(sdk_major_of(front[i]) == sdk_major_of(lines[i]));
                    }
                }
            },
            None => {
                assert forall|i: int| 0 <= i < lines.len() implies (#[trigger] sdk_major_of(lines[i])) is None by {
                    if i < last {
                        assert(sdk_major_of(front[i]) == sdk_major_of(lines[i]));
                    }
                }
            },
        }
    }
}

/// Once dotnet is found, the SDK check passes exactly when some line of
/// `dotnet --list-sdks` has a major version at least the one the test
/// project targets (any major when it names none), an SDK of the target's
/// own major included; it then reports the newest major listed. It fails
/// when every listed major is below the target, reporting the newest, or
/// when no line has one.
pub proof fn law_sdk_check_passes_at_target(
    path_folders: nat,
    dotnet: Seq<char>,
    sdks: Seq<Seq<char>>,
    project: ProjectView,
    platform: Platform,
)
    ensures
        ({
            let check = dotnet_group_view(path_folders, Some(dotnet), sdks, project, platform).checks[1];
            let wanted = project.framework;
            &&& (check.status == Status::Pass) <==> (exists|i: int| 0 <= i < sdks.len()
                && (#[trigger] sdk_major_of(sdks[i])) is Some
                && (wanted is None || sdk_major_of(sdks[i])->0 >= wanted->0))
            &&& check.status == Status::Pass ==> exists|i: int| 0 <= i < sdks.len()
                && (#[trigger] sdk_major_of(sdks[i])) is Some
                && check.summary == "SDK "@ + decimal(sdk_major_of(sdks[i])->0 as nat) + ".x installed"@
                && forall|j: int| 0 <= j < sdks.len() && (#[trigger] sdk_major_of(sdks[j])) is Some
                    ==> sdk_major_of(sdks[j])->0 <= sdk_major_of(sdks[i])->0
            &&& check.status == Status::Fail ==> match wanted {
                Some(w) => {
                    ||| (forall|i: int| 0 <= i < sdks.len() ==> (#[trigger] sdk_major_of(sdks[i])) is None)
                        && check.summary == "no SDK installed"@
                    ||| exists|i: int| 0 <= i < sdks.len()
                        && (#[trigger] sdk_major_of(sdks[i])) is Some
                        && sdk_major_of(sdks[i])->0 < w
                        && check.summary == "newest SDK is "@ + decimal(sdk_major_of(sdks[i])->0 as nat) + ".x"@
                        && forall|j: int| 0 <= j < sdks.len() && (#[trigger] sdk_major_of(sdks[j])) is Some
                            ==> sdk_major_of(sdks[j])->0 <= sdk_major_of(sdks[i])->0
                },
                None => (forall|i: int| 0 <= i < sdks.len() ==> (#[trigger] sdk_major_of(sdks[i])) is None)
                    && check.summary == "no SDK installed"@,
            }
        }),
{
    lemma_newest_sdk(sdks);
    let check = dotnet_group_view(path_folders, Some(dotnet), sdks, project, platform).checks[1];
    assert(check == sdk_check_view(project.framework, sdks, platform));
}

} // verus!
