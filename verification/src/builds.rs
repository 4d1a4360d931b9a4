//! The build targets and the steps that make them.

use vstd::prelude::*;

use crate::text::{cat, cat3, chars_of, control, from_chars, is_control, join, joined, owned, push_char, views, opt_text};

pub mod unix;
pub mod windows;

verus! {

/// The name of the check on the source .st files.
pub const SOURCE_CHECK: &'static str = "source .st files";

/// The name of the check on the test project.
pub const TEST_PROJECT_CHECK: &'static str = "tests folder with .csproj";

/// The argument that stands for the test project's path.
pub const PROJECT_TOKEN: &'static str = "{project}";

/// One program run with its arguments.
pub struct Step {
    pub program: &'static str,
    pub args: Vec<String>,
}

/// A step, as seen by specifications.
pub struct StepView {
    pub program: Seq<char>,
    pub args: Seq<Seq<char>>,
}

impl View for Step {
    type V = StepView;

    open spec fn view(&self) -> StepView {
        StepView { program: self.program@, args: views(self.args@) }
    }
}

/// Something the Build pane can build: its label, the checks that may fail
/// without keeping it from being built, the artifact it needs first, and its steps.
pub struct Target {
    pub label: &'static str,
    pub ignores: &'static [&'static str],
    pub requires: Option<&'static str>,
    pub steps: Vec<Step>,
}

/// The views of a list of string slices.
pub open spec fn str_views(s: Seq<&str>) -> Seq<Seq<char>> {
    s.map_values(|x: &str| x@)
}

/// A target, as seen by specifications.
pub struct TargetView {
    pub label: Seq<char>,
    pub ignores: Seq<Seq<char>>,
    pub requires: Option<Seq<char>>,
    pub steps: Seq<StepView>,
}

/// The views of a list of steps.
pub open spec fn step_views(steps: Seq<Step>) -> Seq<StepView> {
    steps.map_values(|s: Step| s@)
}

impl View for Target {
    type V = TargetView;

    open spec fn view(&self) -> TargetView {
        TargetView {
            label: self.label@,
            ignores: str_views(self.ignores@),
            requires: match self.requires {
                Some(r) => Some(r@),
                None => None,
            },
            steps: step_views(self.steps@),
        }
    }
}

/// The views of a list of targets.
pub open spec fn target_views(targets: Seq<Target>) -> Seq<TargetView> {
    targets.map_values(|t: Target| t@)
}

/// The arguments of a step with the project placeholder replaced by the
/// test project's path, or dropped when there is none.
pub open spec fn resolve_args(args: Seq<Seq<char>>, project: Option<Seq<char>>) -> Seq<Seq<char>>
    decreases args.len(),
{
    if args.len() == 0 {
        Seq::empty()
    } else {
        let rest = resolve_args(args.drop_last(), project);
        if args.last() == PROJECT_TOKEN@ {
            match project {
                Some(p) => rest.push(p),
                None => rest,
            }
        } else {
            rest.push(args.last())
        }
    }
}

/// The owned copies of string slices.
pub fn args(values: &[&str]) -> (r: Vec<String>)
    ensures
        views(r@) == str_views(values@),
{
    let mut out: Vec<String> = Vec::new();
    let mut i: usize = 0;
    while i < values.len()
        invariant
            i <= values@.len(),
            views(out@) == str_views(values@).take(i as int),
        decreases values@.len() - i,
    {
        let ghost before = out@;
        out.push(owned(values[i]));
        assert(views(out@) =~= views(before).push(values@[i as int]@));
        assert(views(out@) =~= str_views(values@).take(i + 1));
        i = i + 1;
    }
    assert(str_views(values@).take(i as int) =~= str_views(values@));
    out
}

fn resolved_args(args: &Vec<String>, project: Option<&str>) -> (r: Vec<String>)
    ensures
        views(r@) == resolve_args(views(args@), match project {
            Some(p) => Some(p@),
            None => None,
        }),
{
    let ghost p = match project {
        Some(p) => Some(p@),
        None => None::<Seq<char>>,
    };
    let token = owned(PROJECT_TOKEN);
    let mut out: Vec<String> = Vec::new();
    let mut i: usize = 0;
    while i < args.len()
        invariant
            i <= args@.len(),
            token@ == PROJECT_TOKEN@,
            p == match project {
                Some(p) => Some(p@),
                None => None::<Seq<char>>,
            },
            views(out@) == resolve_args(views(args@).take(i as int), p),
        decreases args@.len() - i,
    {
        assert(views(args@).take(i + 1).drop_last() =~= views(args@).take(i as int));
        let ghost before = out@;
        if args[i] == token {
            match project {
                Some(path) => {
                    out.push(owned(path));
                    assert(views(out@) =~= views(before).push(path@));
                },
                None => {},
            }
        } else {
            out.push(args[i].clone());
            assert(views(out@) =~= views(before).push(args@[i as int]@));
        }
        i = i + 1;
    }
    assert(views(args@).take(i as int) =~= views(args@));
    out
}

impl Target {
    /// The target with the project placeholder in its steps' arguments
    /// replaced by the test project's path, or dropped when there is none.
    pub fn resolved(&self, project: Option<&str>) -> (r: Target)
        ensures
            r@.label == self@.label,
            r@.ignores == self@.ignores,
            r@.requires == self@.requires,
            r@.steps.len() == self@.steps.len(),
            forall|i: int| 0 <= i < r@.steps.len() ==> (#[trigger] r@.steps[i]).program == self@.steps[i].program
                && r@.steps[i].args == resolve_args(self@.steps[i].args, match project {
                    Some(p) => Some(p@),
                    None => None,
                }),
    {
        let mut steps: Vec<Step> = Vec::new();
        let mut i: usize = 0;
        while i < self.steps.len()
            invariant
                i <= self.steps@.len(),
                steps@.len() == i,
                forall|k: int| 0 <= k < i ==> (#[trigger] steps@[k])@.program == self@.steps[k].program
                    && steps@[k]@.args == resolve_args(self@.steps[k].args, match project {
                        Some(p) => Some(p@),
                        None => None,
                    }),
            decreases self.steps@.len() - i,
        {
            let step = &self.steps[i];
            steps.push(Step { program: step.program, args: resolved_args(&step.args, project) });
            i = i + 1;
        }
        Target { label: self.label, ignores: self.ignores, requires: self.requires, steps }
    }
}

/// The test target: `dotnet test` on the test project, once the main library
/// exists at `artifact`.
pub open spec fn test_target_view(artifact: Seq<char>) -> TargetView {
    TargetView {
        label: "dotnet test"@,
        ignores: Seq::empty(),
        requires: Some(artifact),
        steps: seq![StepView {
            program: "dotnet"@,
            args: seq!["test"@, PROJECT_TOKEN@, "--logger"@, "console;verbosity=detailed"@],
        }],
    }
}

/// The target that runs the tests, once the main library exists at `artifact`.
pub fn test_target(artifact: &'static str) -> (r: Target)
    ensures
        r@ == test_target_view(artifact@),
{
    let a = args(&["test", PROJECT_TOKEN, "--logger", "console;verbosity=detailed"]);
    let r = Target { label: "dotnet test", ignores: &[], requires: Some(artifact), steps: vec![Step { program: "dotnet", args: a }] };
    assert(r@.ignores =~= Seq::<Seq<char>>::empty());
    assert(r@.steps[0].args =~= test_target_view(artifact@).steps[0].args);
    assert(r@.steps =~= test_target_view(artifact@).steps);
    r
}

/// Where a control sequence that starts at `i` (after `ESC [`) ends: just
/// after its final character, one of `@` to `~`, or at the end of `s`.
pub open spec fn csi_end(s: Seq<char>, i: int) -> int
    decreases s.len() - i,
{
    if i < 0 || i >= s.len() {
        s.len() as int
    } else if 0x40 <= (s[i] as u32) <= 0x7e {
        i + 1
    } else {
        csi_end(s, i + 1)
    }
}

/// Where an operating system command that starts at `i` (after `ESC ]`)
/// ends: just after a BEL, or one character after an ESC, or at the end of `s`.
pub open spec fn osc_end(s: Seq<char>, i: int) -> int
    decreases s.len() - i,
{
    if i < 0 || i >= s.len() {
        s.len() as int
    } else if s[i] == '\u{7}' {
        i + 1
    } else if s[i] == '\u{1b}' {
        if i + 1 < s.len() { i + 2 } else { i + 1 }
    } else {
        osc_end(s, i + 1)
    }
}

/// Both ends lie after where the sequence starts and within `s`.
pub proof fn lemma_sequence_ends(s: Seq<char>, i: int)
    requires
        0 <= i <= s.len(),
    ensures
        i <= csi_end(s, i) <= s.len(),
        i <= osc_end(s, i) <= s.len(),
    decreases s.len() - i,
{
    if i < s.len() {
        lemma_sequence_ends(s, i + 1);
    }
}

/// The text of `s` from `i` on with terminal escape sequences removed:
/// `ESC [` control sequences, `ESC ]` commands, and any other escape
/// together with the one character after it; other control characters but
/// tab are dropped too.
pub open spec fn plain_from(s: Seq<char>, i: int) -> Seq<char>
    decreases s.len() - i,
{
    if i < 0 || i >= s.len() {
        Seq::empty()
    } else if s[i] != '\u{1b}' {
        (if !is_control(s[i]) || s[i] == '\t' { seq![s[i]] } else { Seq::empty() }) + plain_from(s, i + 1)
    } else if i + 1 >= s.len() {
        Seq::empty()
    } else if s[i + 1] == '[' {
        proof {
            lemma_sequence_ends(s, i + 2);
        }
        plain_from(s, csi_end(s, i + 2))
    } else if s[i + 1] == ']' {
        proof {
            lemma_sequence_ends(s, i + 2);
        }
        plain_from(s, osc_end(s, i + 2))
    } else {
        plain_from(s, i + 2)
    }
}

fn final_byte(c: char) -> (r: bool)
    ensures
        r == (0x40 <= (c as u32) <= 0x7e),
{
    let u = c as u32;
    0x40 <= u && u <= 0x7e
}

/// `text` as it reads on a plain terminal: escape sequences and control
/// characters other than tab removed.
pub fn plain(text: &str) -> (r: String)
    ensures
        r@ == plain_from(text@, 0),
{
    let cs = chars_of(text);
    let n = cs.len();
    let mut out = String::new();
    let mut i: usize = 0;
    while i < n
        invariant
            n == cs@.len(),
            cs@ == text@,
            i <= n,
            out@ + plain_from(cs@, i as int) == plain_from(cs@, 0),
        decreases n - i,
    {
        let c = cs[i];
        if c != '\u{1b}' {
            let ghost before = out@;
            if !control(c) || c == '\t' {
                push_char(&mut out, c);
                assert(before + plain_from(cs@, i as int) =~= out@ + plain_from(cs@, i + 1));
            } else {
                assert(before + plain_from(cs@, i as int) =~= out@ + plain_from(cs@, i + 1));
            }
            i = i + 1;
        } else if i + 1 >= n {
            assert(plain_from(cs@, i + 1) =~= Seq::<char>::empty());
            i = n;
        } else if cs[i + 1] == '[' {
            let mut j = i + 2;
            while j < n && !final_byte(cs[j])
                invariant
                    i + 2 <= j <= n,
                    n == cs@.len(),
                    csi_end(cs@, i + 2) == csi_end(cs@, j as int),
                decreases n - j,
            {
                j = j + 1;
            }
            if j < n {
                j = j + 1;
            }
            i = j;
        } else if cs[i + 1] == ']' {
            let mut j = i + 2;
            while j < n && cs[j] != '\u{7}' && cs[j] != '\u{1b}'
                invariant
                    i + 2 <= j <= n,
                    n == cs@.len(),
                    osc_end(cs@, i + 2) == osc_end(cs@, j as int),
                decreases n - j,
            {
                j = j + 1;
            }
            let end = if j >= n {
                n
            } else if cs[j] == '\u{7}' {
                j + 1
            } else if j + 1 < n {
                j + 2
            } else {
                j + 1
            };
            assert(end == osc_end(cs@, i + 2));
            i = end;
        } else {
            i = i + 2;
        }
    }
    assert(plain_from(cs@, i as int) =~= Seq::<char>::empty());
    out
}

/// `s` without the carriage returns and line feeds at its end.
pub open spec fn trim_newlines(s: Seq<char>) -> Seq<char>
    decreases s.len(),
{
    if s.len() > 0 && (s.last() == '\r' || s.last() == '\n') {
        trim_newlines(s.drop_last())
    } else {
        s
    }
}

/// One line a build printed, as shown in the output pane: its line ending
/// cut off, then made plain.
pub fn line_text(raw: &str) -> (r: String)
    ensures
        r@ == plain_from(trim_newlines(raw@), 0),
{
    let cs = chars_of(raw);
    let mut end = cs.len();
    assert(cs@.subrange(0, end as int) =~= raw@);
    while end > 0 && (cs[end - 1] == '\r' || cs[end - 1] == '\n')
        invariant
            end <= cs@.len(),
            cs@ == raw@,
            trim_newlines(raw@) == trim_newlines(cs@.subrange(0, end as int)),
        decreases end,
    {
        assert(cs@.subrange(0, end as int).drop_last() =~= cs@.subrange(0, end - 1));
        end = end - 1;
    }
    assert(trim_newlines(raw@) == cs@.subrange(0, end as int));
    let trimmed = from_chars(&cs, 0, end);
    plain(trimmed.as_str())
}

/// The line echoed before a step runs: `$`, the program and its arguments.
pub open spec fn echo_view(step: StepView) -> Seq<char> {
    "$ "@ + step.program + " "@ + joined(step.args, " "@)
}

/// The line echoed before a step runs.
pub fn echo(step: &Step) -> (r: String)
    ensures
        r@ == echo_view(step@),
{
    let rest = join(&step.args, " ");
    cat3("$ ", step.program, " ").concat(rest.as_str())
}

/// How a step of a build ended.
pub enum StepEnd {
    /// The program was not found on PATH.
    Missing,
    /// The program could not be started; the error as text.
    SpawnFailed(String),
    /// The program ran to its end; the last non-blank line each of its
    /// outputs printed.
    Exited { success: bool, code: Option<i32>, stdout_tail: Option<String>, stderr_tail: Option<String> },
    /// Waiting for the program failed; the error as text.
    WaitFailed(String),
}

/// Where a build stands: whether it has gone well, the exit code of the step
/// that failed, and the message to show.
pub struct Progress {
    pub ok: bool,
    pub code: Option<i32>,
    pub message: String,
}

/// A build's progress, as seen by specifications.
pub struct ProgressView {
    pub ok: bool,
    pub code: Option<i32>,
    pub message: Seq<char>,
}

impl View for Progress {
    type V = ProgressView;

    open spec fn view(&self) -> ProgressView {
        ProgressView { ok: self.ok, code: self.code, message: self.message@ }
    }
}

/// What the build does after a step of `program` ended with `end`: its new
/// progress, whether it goes on to the next step, and the line it prints.
pub open spec fn after_step(p: ProgressView, program: Seq<char>, end: StepEnd) -> (ProgressView, bool, Option<Seq<char>>) {
    match end {
        StepEnd::Missing => {
            let m = program + " was not found on PATH"@;
            (ProgressView { ok: false, code: p.code, message: m }, false, Some(m))
        },
        StepEnd::SpawnFailed(e) => {
            let m = program + ": "@ + e@;
            (ProgressView { ok: false, code: p.code, message: m }, false, Some(m))
        },
        StepEnd::Exited { success, code, stdout_tail, stderr_tail } => {
            let tail = match stderr_tail {
                Some(t) => Some(t@),
                None => match stdout_tail {
                    Some(t) => Some(t@),
                    None => None,
                },
            };
            let m = match tail {
                Some(t) => t,
                None => p.message,
            };
            if success {
                (ProgressView { ok: p.ok, code: p.code, message: m }, true, None)
            } else {
                let m2 = if m.len() == 0 { program + " failed"@ } else { m };
                (ProgressView { ok: false, code, message: m2 }, false, None)
            }
        },
        StepEnd::WaitFailed(e) => {
            let m = program + ": "@ + e@;
            (ProgressView { ok: false, code: p.code, message: m }, false, Some(m))
        },
    }
}

/// The progress a build's last state gives it once it stops: a build that
/// went well and said nothing reports that `label` finished.
pub open spec fn finish_view(p: ProgressView, label: Seq<char>) -> ProgressView {
    if p.ok && p.message.len() == 0 {
        ProgressView { ok: p.ok, code: p.code, message: label + " finished"@ }
    } else {
        p
    }
}

impl Progress {
    /// The progress of a build that has not run a step yet.
    pub fn new() -> (r: Progress)
        ensures
            r@ == (ProgressView { ok: true, code: None, message: Seq::empty() }),
    {
        Progress { ok: true, code: None, message: String::new() }
    }

    /// Takes in how a step of `program` ended; says whether the build goes on
    /// and what to print.
    pub fn after(self, program: &str, end: StepEnd) -> (r: (Progress, bool, Option<String>))
        ensures
            r.0@ == after_step(self@, program@, end).0,
            r.1 == after_step(self@, program@, end).1,
            opt_text(r.2) == after_step(self@, program@, end).2,
    {
        let ghost e = end;
        match end {
            StepEnd::Missing => {
                let m = cat(program, " was not found on PATH");
                let shown = m.clone();
                (Progress { ok: false, code: self.code, message: m }, false, Some(shown))
            },
            StepEnd::SpawnFailed(error) => {
                let m = cat3(program, ": ", error.as_str());
                let shown = m.clone();
                (Progress { ok: false, code: self.code, message: m }, false, Some(shown))
            },
            StepEnd::Exited { success, code, stdout_tail, stderr_tail } => {
                let tail = match stderr_tail {
                    Some(t) => Some(t),
                    None => stdout_tail,
                };
                let m = match tail {
                    Some(t) => t,
                    None => self.message,
                };
                if success {
                    (Progress { ok: self.ok, code: self.code, message: m }, true, None)
                } else {
                    let m2 = if m.as_str().is_empty() { cat(program, " failed") } else { m };
                    (Progress { ok: false, code, message: m2 }, false, None)
                }
            },
            StepEnd::WaitFailed(error) => {
                let m = cat3(program, ": ", error.as_str());
                let shown = m.clone();
                (Progress { ok: false, code: self.code, message: m }, false, Some(shown))
            },
        }
    }

    /// The progress once the build stops.
    pub fn finish(self, label: &str) -> (r: Progress)
        ensures
            r@ == finish_view(self@, label@),
    {
        if self.ok && self.message.as_str().is_empty() {
            Progress { ok: self.ok, code: self.code, message: cat(label, " finished") }
        } else {
            self
        }
    }
}

/// After resolution no argument is the placeholder (as long as the test
/// project's path is not the placeholder itself), and resolving again
/// changes nothing.
pub proof fn law_resolution_settles(args: Seq<Seq<char>>, project: Option<Seq<char>>)
    requires
        project != Some(PROJECT_TOKEN@),
    ensures
        forall|i: int| 0 <= i < resolve_args(args, project).len() ==> #[trigger] resolve_args(args, project)[i] != PROJECT_TOKEN@,
        resolve_args(resolve_args(args, project), project) == resolve_args(args, project),
    decreases args.len(),
{
    if args.len() > 0 {
        law_resolution_settles(args.drop_last(), project);
        let rest = resolve_args(args.drop_last(), project);
        let r = resolve_args(args, project);
        if r.len() > rest.len() {
            assert(r.drop_last() =~= rest);
        } else {
            assert(r =~= rest);
        }
    }
}

/// Arguments without the placeholder are left as they are.
pub proof fn law_resolution_keeps_plain_arguments(args: Seq<Seq<char>>, project: Option<Seq<char>>)
    requires
        forall|i: int| 0 <= i < args.len() ==> #[trigger] args[i] != PROJECT_TOKEN@,
    ensures
        resolve_args(args, project) == args,
    decreases args.len(),
{
    if args.len() > 0 {
        law_resolution_keeps_plain_arguments(args.drop_last(), project);
        assert(args.drop_last().push(args.last()) =~= args);
    }
}

/// Text made plain holds no escape and no control character other than tab.
pub proof fn law_plain_text_has_no_controls(s: Seq<char>, i: int)
    requires
        0 <= i,
    ensures
        forall|k: int| 0 <= k < plain_from(s, i).len() ==> (!is_control(#[trigger] plain_from(s, i)[k]) || plain_from(s, i)[k] == '\t'),
    decreases s.len() - i,
{
    if i < s.len() {
        lemma_sequence_ends(s, i);
        if s[i] != '\u{1b}' {
            law_plain_text_has_no_controls(s, i + 1);
            let head: Seq<char> = if !is_control(s[i]) || s[i] == '\t' { seq![s[i]] } else { Seq::empty() };
            let all = plain_from(s, i);
            assert(all == head + plain_from(s, i + 1));
            assert forall|k: int| 0 <= k < all.len() implies (!is_control(#[trigger] all[k]) || all[k] == '\t') by {
                if k >= head.len() {
                    assert(all[k] == plain_from(s, i + 1)[k - head.len()]);
                }
            }
        } else if i + 1 < s.len() {
            lemma_sequence_ends(s, i + 2);
            if s[i + 1] == '[' {
                law_plain_text_has_no_controls(s, csi_end(s, i + 2));
                assert(plain_from(s, i) == plain_from(s, csi_end(s, i + 2)));
            } else if s[i + 1] == ']' {
                law_plain_text_has_no_controls(s, osc_end(s, i + 2));
                assert(plain_from(s, i) == plain_from(s, osc_end(s, i + 2)));
            } else {
                law_plain_text_has_no_controls(s, i + 2);
                assert(plain_from(s, i) == plain_from(s, i + 2));
            }
        }
    }
}

/// Whether every character of `s` from `i` on is kept by `plain`: none is
/// a control character other than tab.
pub open spec fn clean_from(s: Seq<char>, i: int) -> bool {
    forall|k: int| i <= k < s.len() ==> (!is_control(#[trigger] s[k]) || s[k] == '\t')
}

proof fn lemma_plain_keeps_clean(s: Seq<char>, i: int)
    requires
        0 <= i <= s.len(),
        clean_from(s, i),
    ensures
        plain_from(s, i) == s.skip(i),
    decreases s.len() - i,
{
    if i < s.len() {
        assert(!is_control(s[i]) || s[i] == '\t');
        assert(s[i] != '\u{1b}');
        lemma_plain_keeps_clean(s, i + 1);
        assert(s.skip(i) =~= seq![s[i]] + s.skip(i + 1));
    } else {
        assert(s.skip(i) =~= Seq::<char>::empty());
    }
}

/// Making text plain a second time changes nothing, and text with no
/// control character other than tab is already plain.
pub proof fn law_plain_is_idempotent(s: Seq<char>)
    ensures
        plain_from(plain_from(s, 0), 0) == plain_from(s, 0),
        clean_from(s, 0) ==> plain_from(s, 0) == s,
{
    law_plain_text_has_no_controls(s, 0);
    let p = plain_from(s, 0);
    assert(clean_from(p, 0));
    lemma_plain_keeps_clean(p, 0);
    assert(p.skip(0) =~= p);
    if clean_from(s, 0) {
        lemma_plain_keeps_clean(s, 0);
        assert(s.skip(0) =~= s);
    }
}

/// A build goes on past a step only when that step's program ran and
/// succeeded; every other ending stops it and marks it failed.
pub proof fn law_failed_step_stops_build(p: ProgressView, program: Seq<char>, end: StepEnd)
    ensures
        after_step(p, program, end).1 <==> (end matches StepEnd::Exited { success, .. } && success),
        !after_step(p, program, end).1 ==> !after_step(p, program, end).0.ok,
        after_step(p, program, end).1 ==> after_step(p, program, end).0.ok == p.ok,
{
}

/// A build that stops always has something to say: a failed one its reason,
/// one that went well at least that it finished.
pub proof fn law_stopped_build_has_message(p: ProgressView, program: Seq<char>, end: StepEnd, label: Seq<char>)
    requires
        !after_step(p, program, end).1,
    ensures
        finish_view(after_step(p, program, end).0, label).message.len() > 0,
{
    reveal_strlit(" failed");
    reveal_strlit(" was not found on PATH");
    reveal_strlit(": ");
    reveal_strlit(" finished");
}

} // verus!
