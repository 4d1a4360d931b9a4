//! The checks made on Windows.

use vstd::prelude::*;

use crate::builds::windows::{OMRON_ARTIFACT, OMRON_CHECK};
use crate::env::{EnvSnapshot, EnvView};
use crate::paths::{is_dir, is_file, join_path, path_join};
use crate::text::{cat, cat3, decimal, decimal_text, join, joined, owned, views, words, words_of, opt_text, opt_texts};

use super::{
    first_hit, check_of, file_check_for, file_check_view, find_in, located_view, tool_check,
    tool_check_view, Check, CheckView, Group, GroupView, Located, Status,
};

verus! {

/// The platform's name.
pub const NAME: &'static str = "Windows";

/// Where to get the .NET SDK.
pub const DOTNET_REMEDY: &'static str = "https://dotnet.microsoft.com/download";

/// The LLVM release the Rusty Compiler stdlib is built against.
pub const REQUIRED_LLVM: &'static str = "14.0.6";

/// Where the Rusty Compiler builds for Windows are published.
pub const PLC_PIPELINE: &'static str = "https://github.com/doublecouponday/rusty-fork/actions/workflows/windows.yml";

/// Where that LLVM release is published.
pub const LLVM_RELEASE: &'static str = "https://github.com/PLC-lang/llvm-package-windows/releases/tag/v14.0.6";

/// On Windows a program is looked for with the extensions exe, cmd and bat.
pub fn candidates(dir: &str, name: &str) -> (r: Vec<String>)
    ensures
        r@.len() == 3,
        r@[0]@ == path_join(dir@, name@ + ".exe"@),
        r@[1]@ == path_join(dir@, name@ + ".cmd"@),
        r@[2]@ == path_join(dir@, name@ + ".bat"@),
{
    let exe = cat(name, ".exe");
    let cmd = cat(name, ".cmd");
    let bat = cat(name, ".bat");
    vec![join_path(dir, exe.as_str()), join_path(dir, cmd.as_str()), join_path(dir, bat.as_str())]
}

/// The index of the first word `version` in `w` at or after `k`, or `w.len()`.
pub open spec fn version_word(w: Seq<Seq<char>>, k: int) -> int
    decreases w.len() - k,
{
    if k < 0 || k >= w.len() {
        w.len() as int
    } else if w[k] == "version"@ {
        k
    } else {
        version_word(w, k + 1)
    }
}

/// The word after the first word `version` of a `clang --version` line.
pub open spec fn clang_version_of(line: Seq<char>) -> Option<Seq<char>> {
    let w = words_of(line);
    let k = version_word(w, 0);
    if k + 1 < w.len() {
        Some(w[k + 1])
    } else {
        None
    }
}

/// Reads the version out of the first line `clang --version` prints.
pub fn clang_version(line: &str) -> (r: Option<String>)
    ensures
        opt_text(r) == clang_version_of(line@),
{
    let w = words(line);
    let ghost ws = views(w@);
    let version = owned("version");
    let mut k: usize = 0;
    while k < w.len()
        invariant
            k <= w@.len(),
            ws == views(w@),
            ws == words_of(line@),
            version@ == "version"@,
            version_word(ws, 0) == version_word(ws, k as int),
        decreases w@.len() - k,
    {
        if w[k] == version {
            assert(ws[k as int] == "version"@);
            if k + 1 < w.len() {
                return Some(w[k + 1].clone());
            }
            return None;
        }
        k = k + 1;
    }
    None
}

/// How to build libNX1P2.dll, should it be missing.
pub open spec fn artifact_remedy() -> Seq<Seq<char>> {
    seq![
        "lib_structured_text.dll and lib_structured_text.xml cannot be built until it exists."@,
        "It is produced from the libomron sources, so build libNX1P2.dll first:"@,
        "plc ./libomron/*.st -c -l iec61131std -l ws2_32 -l ntdll -l userenv -o ./compiled/libNX1P2.o"@,
        "clang ./compiled/libNX1P2.o --shared -l iec61131std -l ws2_32 -l ntdll -l userenv -fuse-ld=lld-link \"-Wl,/DEF:libomron/exports.def\" -o ./compiled/libNX1P2.dll"@,
        "The Build pane runs both steps for you."@,
    ]
}

/// The group on the libNX1P2.dll build artifact, given whether the file
/// system says the artifact is there.
pub fn artifact_group_for(root: &str, present: bool) -> (r: Group)
    ensures
        r@.title == "Build artifacts"@,
        r@.checks == seq![
            file_check_view(
                path_join(root@, OMRON_ARTIFACT@),
                present,
                OMRON_CHECK@,
                "the library that the lib_structured_text builds link against with -l libNX1P2"@,
                artifact_remedy(),
            ),
        ],
{
    let remedy = vec![
        owned("lib_structured_text.dll and lib_structured_text.xml cannot be built until it exists."),
        owned("It is produced from the libomron sources, so build libNX1P2.dll first:"),
        owned("plc ./libomron/*.st -c -l iec61131std -l ws2_32 -l ntdll -l userenv -o ./compiled/libNX1P2.o"),
        owned("clang ./compiled/libNX1P2.o --shared -l iec61131std -l ws2_32 -l ntdll -l userenv -fuse-ld=lld-link \"-Wl,/DEF:libomron/exports.def\" -o ./compiled/libNX1P2.dll"),
        owned("The Build pane runs both steps for you."),
    ];
    assert(views(remedy@) =~= artifact_remedy());
    let check = file_check_for(
        join_path(root, OMRON_ARTIFACT),
        present,
        OMRON_CHECK,
        "the library that the lib_structured_text builds link against with -l libNX1P2",
        remedy,
    );
    let r = Group { title: owned("Build artifacts"), checks: vec![check] };
    assert(r@.checks =~= seq![check@]);
    r
}

/// The group on the libNX1P2.dll build artifact, asking the file system.
pub fn artifact_group(root: &str) -> (r: Group)
    ensures
        r@.title == "Build artifacts"@,
        exists|present: bool|
            r@.checks == seq![
                file_check_view(
                    path_join(root@, OMRON_ARTIFACT@),
                    present,
                    OMRON_CHECK@,
                    "the library that the lib_structured_text builds link against with -l libNX1P2"@,
                    artifact_remedy(),
                ),
            ],
{
    let present = is_file(join_path(root, OMRON_ARTIFACT).as_str());
    artifact_group_for(root, present)
}

/// The two export-list checks, for each answer the file system may give.
pub open spec fn exports_checks(root: Seq<char>, main: bool, omron: bool) -> Seq<CheckView> {
    seq![
        file_check_view(
            path_join(root, "exports.def"@),
            main,
            "exports.def"@,
            "the export list handed to lld-link for lib_structured_text.dll"@,
            seq!["Restore the file from source control."@],
        ),
        file_check_view(
            path_join(root, "libomron/exports.def"@),
            omron,
            "libomron/exports.def"@,
            "the export list handed to lld-link for libNX1P2.dll"@,
            seq!["Restore the file from source control."@],
        ),
    ]
}

/// The group on the export lists the linker is given, given whether the
/// file system says each is there.
pub fn exports_group_for(root: &str, main: bool, omron: bool) -> (r: Group)
    ensures
        r@.title == "Link exports"@,
        r@.checks == exports_checks(root@, main, omron),
{
    let first_help = vec![owned("Restore the file from source control.")];
    assert(views(first_help@) =~= seq!["Restore the file from source control."@]);
    let second_help = vec![owned("Restore the file from source control.")];
    assert(views(second_help@) =~= seq!["Restore the file from source control."@]);
    let first = file_check_for(
        join_path(root, "exports.def"),
        main,
        "exports.def",
        "the export list handed to lld-link for lib_structured_text.dll",
        first_help,
    );
    let second = file_check_for(
        join_path(root, "libomron/exports.def"),
        omron,
        "libomron/exports.def",
        "the export list handed to lld-link for libNX1P2.dll",
        second_help,
    );
    let r = Group { title: owned("Link exports"), checks: vec![first, second] };
    assert(r@.checks =~= exports_checks(root@, main, omron));
    r
}

/// The group on the export lists the linker is given, asking the file
/// system.
pub fn exports_group(root: &str) -> (r: Group)
    ensures
        r@.title == "Link exports"@,
        exists|main: bool, omron: bool| r@.checks == exports_checks(root@, main, omron),
{
    let main = is_file(join_path(root, "exports.def").as_str());
    let omron = is_file(join_path(root, "libomron/exports.def").as_str());
    exports_group_for(root, main, omron)
}

/// The group on the run time stdlib, found on PATH at `found` (or not at all).
pub open spec fn runtime_group_view(path_folders: nat, found: Option<Seq<char>>) -> GroupView {
    GroupView {
        title: "Run time libraries (PATH)"@,
        checks: seq![match found {
            Some(path) => check_of(
                "iec61131std.dll on PATH"@,
                Status::Pass,
                "resolvable"@,
                "iec61131std.dll loadable at run time by lib_structured_text.dll"@,
                path,
                Seq::empty(),
            ),
            None => check_of(
                "iec61131std.dll on PATH"@,
                Status::Fail,
                "not found on PATH"@,
                "iec61131std.dll loadable at run time by lib_structured_text.dll"@,
                "no iec61131std.dll in any of the "@ + decimal(path_folders) + " PATH folder(s)"@,
                seq![
                    "The compiled library imports the stdlib at run time, so dotnet test cannot load it without this DLL."@,
                    "Take it from the Windows build pipeline artifacts and install it next to plc.exe:"@,
                    PLC_PIPELINE@,
                    "Keep that folder on PATH."@,
                ],
            ),
        }],
    }
}

/// The group on the stdlib DLL the compiled library loads at run time,
/// given where the search along PATH found it.
pub fn runtime_group_for(env: &EnvSnapshot, found: Option<String>) -> (r: Group)
    ensures
        r@ == runtime_group_view(env@.path.len(), opt_text(found)),
{
    let ghost found_view = opt_text(found);
    let check = match found {
        Some(path) => {
            let c = Check {
                name: owned("iec61131std.dll on PATH"),
                status: Status::Pass,
                summary: owned("resolvable"),
                expected: owned("iec61131std.dll loadable at run time by lib_structured_text.dll"),
                found: path,
                remedy: Vec::new(),
            };
            assert(c@.remedy =~= Seq::<Seq<char>>::empty());
            c
        },
        None => {
            let count = decimal_text(env.path.len() as u64);
            let remedy = vec![
                owned("The compiled library imports the stdlib at run time, so dotnet test cannot load it without this DLL."),
                owned("Take it from the Windows build pipeline artifacts and install it next to plc.exe:"),
                owned(PLC_PIPELINE),
                owned("Keep that folder on PATH."),
            ];
            let c = Check {
                name: owned("iec61131std.dll on PATH"),
                status: Status::Fail,
                summary: owned("not found on PATH"),
                expected: owned("iec61131std.dll loadable at run time by lib_structured_text.dll"),
                found: cat3("no iec61131std.dll in any of the ", count.as_str(), " PATH folder(s)"),
                remedy,
            };
            assert(c@.remedy =~= runtime_group_view(env@.path.len(), None).checks[0].remedy);
            c
        },
    };
    let r = Group { title: owned("Run time libraries (PATH)"), checks: vec![check] };
    assert(r@.checks =~= runtime_group_view(env@.path.len(), found_view).checks);
    r
}

/// The group on the stdlib DLL the compiled library loads at run time,
/// searching PATH on the file system.
pub fn runtime_group(env: &EnvSnapshot) -> (r: Group)
    ensures
        exists|found: Option<Seq<char>>|
            first_hit(env@.path, "iec61131std.dll"@, found) && r@ == runtime_group_view(env@.path.len(), found),
{
    let found = find_in(&env.path, "iec61131std.dll");
    assert(first_hit(env@.path, "iec61131std.dll"@, opt_text(found)));
    runtime_group_for(env, found)
}

/// What to do when plc.exe is missing.
pub open spec fn plc_remedy() -> Seq<Seq<char>> {
    seq![
        "Download plc.zip from the Rusty Compiler Windows build pipeline:"@,
        PLC_PIPELINE@,
        "Extract it to a permanent location, an AppData folder is recommended:"@,
        "%LOCALAPPDATA%\\rustycompiler"@,
        "Add that folder to PATH."@,
    ]
}

/// The name of the clang check.
pub open spec fn clang_name() -> Seq<char> {
    "clang "@ + REQUIRED_LLVM@ + " on PATH"@
}

/// What the clang check expects.
pub open spec fn clang_expected() -> Seq<char> {
    "clang from LLVM "@ + REQUIRED_LLVM@
}

/// The clang check: where clang was found, with the first line it printed
/// for `--version`.
pub open spec fn clang_check_view(path_folders: nat, found: Option<(Seq<char>, Option<Seq<char>>)>) -> CheckView {
    match found {
        Some((path, version)) => {
            let line = match version {
                Some(v) => v,
                None => Seq::empty(),
            };
            match clang_version_of(line) {
                Some(v) => if v == REQUIRED_LLVM@ {
                    check_of(
                        clang_name(),
                        Status::Pass,
                        "clang "@ + REQUIRED_LLVM@,
                        clang_expected(),
                        path + "\n"@ + line,
                        Seq::empty(),
                    )
                } else {
                    check_of(
                        clang_name(),
                        Status::Warn,
                        "clang "@ + v + ", expected "@ + REQUIRED_LLVM@,
                        clang_expected(),
                        path + "\n"@ + line,
                        seq![
                            "clang "@ + v + " may emit objects the Rusty Compiler stdlib was not built against."@,
                            "Install LLVM "@ + REQUIRED_LLVM@ + " and put its bin folder first on PATH:"@,
                            LLVM_RELEASE@,
                        ],
                    )
                },
                None => check_of(
                    clang_name(),
                    Status::Warn,
                    "version could not be read"@,
                    clang_expected(),
                    path + "\n"@ + line,
                    seq!["Run clang --version manually to inspect the install."@],
                ),
            }
        },
        None => check_of(
            clang_name(),
            Status::Fail,
            "not found on PATH"@,
            clang_expected(),
            "no clang.exe in any of the "@ + decimal(path_folders) + " PATH folder(s)"@,
            seq!["Install LLVM "@ + REQUIRED_LLVM@ + ":"@, LLVM_RELEASE@, "Add its bin folder to PATH."@],
        ),
    }
}

fn clang_check(path_folders: usize, found: &Option<Located>) -> (r: Check)
    ensures
        r@ == clang_check_view(path_folders as nat, located_view(*found)),
{
    let name = cat3("clang ", REQUIRED_LLVM, " on PATH");
    let expected = cat("clang from LLVM ", REQUIRED_LLVM);
    match found {
        Some(tool) => {
            let line = match &tool.version {
                Some(v) => v.clone(),
                None => String::new(),
            };
            let found_text = cat3(tool.path.as_str(), "\n", line.as_str());
            let wanted = owned(REQUIRED_LLVM);
            match clang_version(line.as_str()) {
                Some(v) => {
                    if v == wanted {
                        let r = Check {
                            name,
                            status: Status::Pass,
                            summary: cat("clang ", REQUIRED_LLVM),
                            expected,
                            found: found_text,
                            remedy: Vec::new(),
                        };
                        assert(r@.remedy =~= Seq::<Seq<char>>::empty());
                        r
                    } else {
                        let remedy = vec![
                            cat3("clang ", v.as_str(), " may emit objects the Rusty Compiler stdlib was not built against."),
                            cat3("Install LLVM ", REQUIRED_LLVM, " and put its bin folder first on PATH:"),
                            owned(LLVM_RELEASE),
                        ];
                        let r = Check {
                            name,
                            status: Status::Warn,
                            summary: cat3("clang ", v.as_str(), ", expected ").concat(REQUIRED_LLVM),
                            expected,
                            found: found_text,
                            remedy,
                        };
                        assert(r@.remedy =~= clang_check_view(path_folders as nat, located_view(*found)).remedy);
                        r
                    }
                },
                None => {
                    let remedy = vec![owned("Run clang --version manually to inspect the install.")];
                    let r = Check {
                        name,
                        status: Status::Warn,
                        summary: owned("version could not be read"),
                        expected,
                        found: found_text,
                        remedy,
                    };
                    assert(r@.remedy =~= seq!["Run clang --version manually to inspect the install."@]);
                    r
                },
            }
        },
        None => {
            let count = decimal_text(path_folders as u64);
            let remedy = vec![
                cat3("Install LLVM ", REQUIRED_LLVM, ":"),
                owned(LLVM_RELEASE),
                owned("Add its bin folder to PATH."),
            ];
            let r = Check {
                name,
                status: Status::Fail,
                summary: owned("not found on PATH"),
                expected,
                found: cat3("no clang.exe in any of the ", count.as_str(), " PATH folder(s)"),
                remedy,
            };
            assert(r@.remedy =~= clang_check_view(path_folders as nat, None).remedy);
            r
        },
    }
}

/// The lld-link check, by where lld-link was found on PATH.
pub open spec fn lld_check_view(path_folders: nat, found: Option<Seq<char>>) -> CheckView {
    match found {
        Some(path) => check_of(
            "lld-link on PATH"@,
            Status::Pass,
            "available"@,
            "lld-link.exe, used by clang through -fuse-ld=lld-link"@,
            path,
            Seq::empty(),
        ),
        None => check_of(
            "lld-link on PATH"@,
            Status::Fail,
            "not found on PATH"@,
            "lld-link.exe, used by clang through -fuse-ld=lld-link"@,
            "no lld-link.exe in any of the "@ + decimal(path_folders) + " PATH folder(s)"@,
            seq!["lld-link ships inside the LLVM bin folder."@, "Add the LLVM bin folder to PATH."@],
        ),
    }
}

fn lld_check(path_folders: usize, found: &Option<String>) -> (r: Check)
    ensures
        r@ == lld_check_view(path_folders as nat, opt_text(*found)),
{
    match found {
        Some(path) => {
            let r = Check {
                name: owned("lld-link on PATH"),
                status: Status::Pass,
                summary: owned("available"),
                expected: owned("lld-link.exe, used by clang through -fuse-ld=lld-link"),
                found: path.clone(),
                remedy: Vec::new(),
            };
            assert(r@.remedy =~= Seq::<Seq<char>>::empty());
            r
        },
        None => {
            let count = decimal_text(path_folders as u64);
            let remedy = vec![owned("lld-link ships inside the LLVM bin folder."), owned("Add the LLVM bin folder to PATH.")];
            let r = Check {
                name: owned("lld-link on PATH"),
                status: Status::Fail,
                summary: owned("not found on PATH"),
                expected: owned("lld-link.exe, used by clang through -fuse-ld=lld-link"),
                found: cat3("no lld-link.exe in any of the ", count.as_str(), " PATH folder(s)"),
                remedy,
            };
            assert(r@.remedy =~= lld_check_view(path_folders as nat, None).remedy);
            r
        },
    }
}

/// The tool chain group: plc, clang and lld-link, as found on PATH.
pub open spec fn toolchain_group_view(
    path_folders: nat,
    plc: Option<(Seq<char>, Option<Seq<char>>)>,
    clang: Option<(Seq<char>, Option<Seq<char>>)>,
    lld: Option<Seq<char>>,
) -> GroupView {
    GroupView {
        title: "Compiler toolchain"@,
        checks: seq![
            tool_check_view(
                "plc (Rusty Compiler) on PATH"@,
                "plc.exe resolvable through PATH"@,
                "plc.exe"@,
                plc_remedy(),
                path_folders,
                plc,
            ),
            clang_check_view(path_folders, clang),
            lld_check_view(path_folders, lld),
        ],
    }
}

/// The group on the compiler tool chain, given where plc, clang and lld-link
/// were found on PATH and the first line plc and clang printed for `--version`.
pub fn toolchain_group(env: &EnvSnapshot, plc: &Option<Located>, clang: &Option<Located>, lld: &Option<String>) -> (r: Group)
    ensures
        r@ == toolchain_group_view(env@.path.len(), located_view(*plc), located_view(*clang), opt_text(*lld)),
{
    let plc_help = vec![
        owned("Download plc.zip from the Rusty Compiler Windows build pipeline:"),
        owned(PLC_PIPELINE),
        owned("Extract it to a permanent location, an AppData folder is recommended:"),
        owned("%LOCALAPPDATA%\\rustycompiler"),
        owned("Add that folder to PATH."),
    ];
    assert(views(plc_help@) =~= plc_remedy());
    let first = tool_check(
        "plc (Rusty Compiler) on PATH",
        "plc.exe resolvable through PATH",
        "plc.exe",
        plc_help,
        env.path.len(),
        plc,
    );
    let second = clang_check(env.path.len(), clang);
    let third = lld_check(env.path.len(), lld);
    let r = Group { title: owned("Compiler toolchain"), checks: vec![first, second, third] };
    assert(r@.checks =~= toolchain_group_view(env@.path.len(), located_view(*plc), located_view(*clang), opt_text(*lld)).checks);
    r
}

/// Where a link library comes from.
#[derive(Clone, Copy, Debug, PartialEq, Eq, Structural)]
pub enum LibSource {
    Stdlib,
    WindowsSdkUm,
    WindowsSdkUcrt,
    Msvc,
}

/// The origin named for a source of link libraries.
pub open spec fn origin_text(source: LibSource) -> Seq<char> {
    match source {
        LibSource::Stdlib => "Rusty Compiler stdlib"@,
        LibSource::WindowsSdkUm => "Windows SDK, Lib\\<sdk version>\\um\\x64"@,
        LibSource::WindowsSdkUcrt => "Windows SDK, Lib\\<sdk version>\\ucrt\\x64"@,
        LibSource::Msvc => "MSVC build tools, VC\\Tools\\MSVC\\<version>\\lib\\x64"@,
    }
}

/// How to install the link libraries of a source.
pub open spec fn source_remedy(source: LibSource) -> Seq<Seq<char>> {
    match source {
        LibSource::Stdlib => seq![
            "Download stdlib.lib from the Rusty Compiler Windows build pipeline:"@,
            PLC_PIPELINE@,
            "Install it next to plc.exe as iec61131std.lib."@,
            "Add that folder to the LIB environment variable."@,
        ],
        LibSource::WindowsSdkUm | LibSource::WindowsSdkUcrt => seq![
            "Install the Windows SDK with the Visual Studio Installer, or standalone."@,
            "Add its x64 lib folders to the LIB environment variable:"@,
            "C:\\Program Files (x86)\\Windows Kits\\10\\Lib\\<sdk version>\\um\\x64"@,
            "C:\\Program Files (x86)\\Windows Kits\\10\\Lib\\<sdk version>\\ucrt\\x64"@,
        ],
        LibSource::Msvc => seq![
            "Install MSVC with the Visual Studio Installer, or standalone."@,
            "Add its x64 lib folder to the LIB environment variable:"@,
            "C:\\Program Files\\Microsoft Visual Studio\\<edition>\\VC\\Tools\\MSVC\\<version>\\lib\\x64"@,
        ],
    }
}

impl LibSource {
    /// Where the libraries of this source come from.
    pub fn origin(&self) -> (r: &'static str)
        ensures
            r@ == origin_text(*self),
    {
        match self {
            LibSource::Stdlib => "Rusty Compiler stdlib",
            LibSource::WindowsSdkUm => "Windows SDK, Lib\\<sdk version>\\um\\x64",
            LibSource::WindowsSdkUcrt => "Windows SDK, Lib\\<sdk version>\\ucrt\\x64",
            LibSource::Msvc => "MSVC build tools, VC\\Tools\\MSVC\\<version>\\lib\\x64",
        }
    }

    /// How to install the libraries of this source.
    pub fn remedy(&self) -> (r: Vec<String>)
        ensures
            views(r@) == source_remedy(*self),
    {
        let r = match self {
            LibSource::Stdlib => vec![
                owned("Download stdlib.lib from the Rusty Compiler Windows build pipeline:"),
                owned(PLC_PIPELINE),
                owned("Install it next to plc.exe as iec61131std.lib."),
                owned("Add that folder to the LIB environment variable."),
            ],
            LibSource::WindowsSdkUm | LibSource::WindowsSdkUcrt => vec![
                owned("Install the Windows SDK with the Visual Studio Installer, or standalone."),
                owned("Add its x64 lib folders to the LIB environment variable:"),
                owned("C:\\Program Files (x86)\\Windows Kits\\10\\Lib\\<sdk version>\\um\\x64"),
                owned("C:\\Program Files (x86)\\Windows Kits\\10\\Lib\\<sdk version>\\ucrt\\x64"),
            ],
            LibSource::Msvc => vec![
                owned("Install MSVC with the Visual Studio Installer, or standalone."),
                owned("Add its x64 lib folder to the LIB environment variable:"),
                owned("C:\\Program Files\\Microsoft Visual Studio\\<edition>\\VC\\Tools\\MSVC\\<version>\\lib\\x64"),
            ],
        };
        assert(views(r@) =~= source_remedy(*self));
        r
    }
}

/// The link libraries the build needs, each with where it comes from.
pub open spec fn required_libs_view() -> Seq<(Seq<char>, LibSource)> {
    seq![
        ("iec61131std.lib"@, LibSource::Stdlib),
        ("ws2_32.lib"@, LibSource::WindowsSdkUm),
        ("ntdll.lib"@, LibSource::WindowsSdkUm),
        ("userenv.lib"@, LibSource::WindowsSdkUm),
        ("libcmt.lib"@, LibSource::Msvc),
        ("oldnames.lib"@, LibSource::Msvc),
        ("libucrt.lib"@, LibSource::WindowsSdkUcrt),
    ]
}

/// The link libraries the build needs.
pub fn required_libs() -> (r: Vec<(&'static str, LibSource)>)
    ensures
        r@.len() == required_libs_view().len(),
        forall|i: int| 0 <= i < r@.len() ==> (#[trigger] r@[i]).0@ == required_libs_view()[i].0 && r@[i].1 == required_libs_view()[i].1,
{
    vec![
        ("iec61131std.lib", LibSource::Stdlib),
        ("ws2_32.lib", LibSource::WindowsSdkUm),
        ("ntdll.lib", LibSource::WindowsSdkUm),
        ("userenv.lib", LibSource::WindowsSdkUm),
        ("libcmt.lib", LibSource::Msvc),
        ("oldnames.lib", LibSource::Msvc),
        ("libucrt.lib", LibSource::WindowsSdkUcrt),
    ]
}

/// How many folders of LIB are missing from disk.
pub open spec fn missing_count(present: Seq<bool>) -> nat
    decreases present.len(),
{
    if present.len() == 0 {
        0
    } else {
        missing_count(present.drop_last()) + if present.last() { 0nat } else { 1nat }
    }
}

/// The listing of the LIB folders, each marked `ok` or `missing`.
pub open spec fn listing_lines(dirs: Seq<Seq<char>>, present: Seq<bool>) -> Seq<Seq<char>> {
    Seq::new(dirs.len(), |i: int| (if present[i] { "[ok] "@ } else { "[missing] "@ }) + dirs[i])
}

/// The check on the LIB variable itself, `present` telling which of its
/// folders exist.
pub open spec fn lib_env_check_view(env: EnvView, present: Seq<bool>) -> CheckView {
    if !env.lib_defined || env.lib.len() == 0 {
        check_of(
            "LIB environment variable"@,
            Status::Fail,
            "not set"@,
            "LIB holding the folders that contain every link library"@,
            "LIB is empty or undefined, read from "@ + env.source,
            seq![
                "Create a LIB environment variable containing these folders:"@,
                "%LOCALAPPDATA%\\rustycompiler"@,
                "C:\\Program Files (x86)\\Windows Kits\\10\\Lib\\<sdk version>\\um\\x64"@,
                "C:\\Program Files (x86)\\Windows Kits\\10\\Lib\\<sdk version>\\ucrt\\x64"@,
                "C:\\Program Files\\Microsoft Visual Studio\\<edition>\\VC\\Tools\\MSVC\\<version>\\lib\\x64"@,
            ],
        )
    } else {
        let missing = missing_count(present);
        check_of(
            "LIB environment variable"@,
            if missing == 0 { Status::Pass } else { Status::Warn },
            decimal(env.lib.len()) + " folder(s), "@ + decimal(missing) + " missing from disk"@,
            "LIB holding the folders that contain every link library"@,
            joined(listing_lines(env.lib, present), "\n"@),
            if missing == 0 {
                Seq::empty()
            } else {
                seq![
                    "The folders marked missing do not exist on disk."@,
                    "Correct the paths in the LIB environment variable."@,
                ]
            },
        )
    }
}

/// The check on one link library, found through LIB at `found` (or not at all).
pub open spec fn lib_check_view(lib: Seq<char>, source: LibSource, folders: nat, found: Option<Seq<char>>) -> CheckView {
    let expected = lib + " reachable through LIB, supplied by the "@ + origin_text(source);
    match found {
        Some(path) => check_of(lib, Status::Pass, "found"@, expected, path, Seq::empty()),
        None => check_of(
            lib,
            Status::Fail,
            "not in any LIB folder"@,
            expected,
            lib + " is not present in any of the "@ + decimal(folders) + " LIB folder(s)"@,
            source_remedy(source),
        ),
    }
}

/// The link library group, `present` telling which LIB folders exist and
/// `found` where each required library was found.
pub open spec fn lib_group_view(env: EnvView, present: Seq<bool>, found: Seq<Option<Seq<char>>>) -> GroupView {
    GroupView {
        title: "Link libraries (LIB)"@,
        checks: seq![lib_env_check_view(env, present)] + Seq::new(
            required_libs_view().len(),
            |i: int| lib_check_view(required_libs_view()[i].0, required_libs_view()[i].1, env.lib.len(), found[i]),
        ),
    }
}

fn lib_env_check(env: &EnvSnapshot, present: &Vec<bool>) -> (r: Check)
    requires
        present@.len() == env@.lib.len(),
    ensures
        r@ == lib_env_check_view(env@, present@),
{
    if !env.lib_defined || env.lib.len() == 0 {
        let remedy = vec![
            owned("Create a LIB environment variable containing these folders:"),
            owned("%LOCALAPPDATA%\\rustycompiler"),
            owned("C:\\Program Files (x86)\\Windows Kits\\10\\Lib\\<sdk version>\\um\\x64"),
            owned("C:\\Program Files (x86)\\Windows Kits\\10\\Lib\\<sdk version>\\ucrt\\x64"),
            owned("C:\\Program Files\\Microsoft Visual Studio\\<edition>\\VC\\Tools\\MSVC\\<version>\\lib\\x64"),
        ];
        let c = Check {
            name: owned("LIB environment variable"),
            status: Status::Fail,
            summary: owned("not set"),
            expected: owned("LIB holding the folders that contain every link library"),
            found: cat("LIB is empty or undefined, read from ", env.source),
            remedy,
        };
        assert(c@.remedy =~= lib_env_check_view(env@, present@).remedy);
        c
    } else {
        let mut lines: Vec<String> = Vec::new();
        let mut missing: usize = 0;
        let mut i: usize = 0;
        while i < env.lib.len()
            invariant
                i <= env.lib@.len(),
                present@.len() == env.lib@.len(),
                missing == missing_count(present@.take(i as int)),
                missing <= i,
                views(lines@) == listing_lines(views(env.lib@).take(i as int), present@.take(i as int)),
            decreases env.lib@.len() - i,
        {
            let here = present[i];
            let line = if here {
                cat("[ok] ", env.lib[i].as_str())
            } else {
                cat("[missing] ", env.lib[i].as_str())
            };
            let ghost before = lines@;
            lines.push(line);
            proof {
                let now = present@.take(i + 1);
                let was = present@.take(i as int);
                assert(now.drop_last() =~= was);
                assert(views(lines@) =~= views(before).push(line@));
                let want = listing_lines(views(env.lib@).take(i + 1), now);
                let had = listing_lines(views(env.lib@).take(i as int), was);
                assert forall|j: int| 0 <= j < i implies want[j] == had[j] by {
                    assert(now[j] == was[j]);
                    assert(views(env.lib@).take(i + 1)[j] == views(env.lib@).take(i as int)[j]);
                }
                assert(want[i as int] == line@);
                assert(views(lines@) =~= want);
            }
            if !here {
                missing = missing + 1;
            }
            i = i + 1;
        }
        assert(views(env.lib@).take(i as int) =~= views(env.lib@));
        assert(present@.take(i as int) =~= present@);
        let count = decimal_text(env.lib.len() as u64);
        let gone = decimal_text(missing as u64);
        let summary = cat3(count.as_str(), " folder(s), ", gone.as_str()).concat(" missing from disk");
        let remedy = if missing == 0 {
            Vec::new()
        } else {
            vec![
                owned("The folders marked missing do not exist on disk."),
                owned("Correct the paths in the LIB environment variable."),
            ]
        };
        let c = Check {
            name: owned("LIB environment variable"),
            status: if missing == 0 { Status::Pass } else { Status::Warn },
            summary,
            expected: owned("LIB holding the folders that contain every link library"),
            found: join(&lines, "\n"),
            remedy,
        };
        assert(c@.remedy =~= lib_env_check_view(env@, present@).remedy);
        c
    }
}

/// The group on the link libraries reachable through LIB, given which LIB
/// folders exist (`present`) and where each required library was found
/// (`found`, in the order of `required_libs`).
pub fn lib_group_for(env: &EnvSnapshot, present: &Vec<bool>, found: &Vec<Option<String>>) -> (r: Group)
    requires
        present@.len() == env@.lib.len(),
        found@.len() == required_libs_view().len(),
    ensures
        r@ == lib_group_view(env@, present@, opt_texts(found@)),
{
    let ghost fv = opt_texts(found@);
    let first = lib_env_check(env, present);
    let mut checks: Vec<Check> = Vec::new();
    checks.push(first);
    let libs = required_libs();
    let mut k: usize = 0;
    while k < libs.len()
        invariant
            k <= libs@.len(),
            libs@.len() == required_libs_view().len(),
            found@.len() == required_libs_view().len(),
            fv == opt_texts(found@),
            forall|i: int| 0 <= i < libs@.len() ==> (#[trigger] libs@[i]).0@ == required_libs_view()[i].0 && libs@[i].1 == required_libs_view()[i].1,
            checks@.len() == k + 1,
            checks@[0]@ == lib_env_check_view(env@, present@),
            forall|i: int| 0 <= i < k ==> (#[trigger] checks@[i + 1])@ == lib_check_view(required_libs_view()[i].0, required_libs_view()[i].1, env@.lib.len(), fv[i]),
        decreases libs@.len() - k,
    {
        let (lib, source) = libs[k];
        let expected = cat3(lib, " reachable through LIB, supplied by the ", source.origin());
        assert(fv[k as int] == opt_text(found@[k as int]));
        let check = match &found[k] {
            Some(path) => {
                let c = Check {
                    name: owned(lib),
                    status: Status::Pass,
                    summary: owned("found"),
                    expected,
                    found: path.clone(),
                    remedy: Vec::new(),
                };
                assert(c@.remedy =~= Seq::<Seq<char>>::empty());
                c
            },
            None => {
                let count = decimal_text(env.lib.len() as u64);
                Check {
                    name: owned(lib),
                    status: Status::Fail,
                    summary: owned("not in any LIB folder"),
                    expected,
                    found: cat3(lib, " is not present in any of the ", count.as_str()).concat(" LIB folder(s)"),
                    remedy: source.remedy(),
                }
            },
        };
        assert(check@ == lib_check_view(required_libs_view()[k as int].0, required_libs_view()[k as int].1, env@.lib.len(), fv[k as int]));
        checks.push(check);
        k = k + 1;
    }
    let r = Group { title: owned("Link libraries (LIB)"), checks };
    proof {
        let want = lib_group_view(env@, present@, fv).checks;
        assert(r@.checks.len() == want.len());
        assert forall|i: int| 0 <= i < want.len() implies r@.checks[i] == want[i] by {
            if i > 0 {
                assert(r@.checks[i] == r.checks@[(i - 1) + 1]@);
            }
        }
        assert(r@.checks =~= want);
    }
    r
}

/// The group on the link libraries reachable through LIB, asking the file
/// system which LIB folders exist and where each library is.
pub fn lib_group(env: &EnvSnapshot) -> (r: Group)
    ensures
        exists|present: Seq<bool>, found: Seq<Option<Seq<char>>>|
            present.len() == env@.lib.len() && found.len() == required_libs_view().len()
                && (forall|i: int| 0 <= i < found.len() ==> first_hit(env@.lib, required_libs_view()[i].0, #[trigger] found[i]))
                && r@ == lib_group_view(env@, present, found),
{
    let mut present: Vec<bool> = Vec::new();
    let mut i: usize = 0;
    while i < env.lib.len()
        invariant
            i <= env.lib@.len(),
            present@.len() == i,
        decreases env.lib@.len() - i,
    {
        present.push(is_dir(env.lib[i].as_str()));
        i = i + 1;
    }
    let libs = required_libs();
    let mut found: Vec<Option<String>> = Vec::new();
    let mut k: usize = 0;
    while k < libs.len()
        invariant
            k <= libs@.len(),
            libs@.len() == required_libs_view().len(),
            forall|j: int| 0 <= j < libs@.len() ==> (#[trigger] libs@[j]).0@ == required_libs_view()[j].0,
            found@.len() == k,
            forall|j: int| 0 <= j < k ==> first_hit(env@.lib, required_libs_view()[j].0, #[trigger] opt_texts(found@)[j]),
        decreases libs@.len() - k,
    {
        let (lib, _) = libs[k];
        let hit = find_in(&env.lib, lib);
        let ghost hit_view = opt_text(hit);
        proof {
            assert(lib@ == required_libs_view()[k as int].0);
            assert(first_hit(env@.lib, lib@, hit_view));
        }
        let ghost before = found@;
        found.push(hit);
        proof {
            assert forall|j: int| 0 <= j < k + 1 implies first_hit(env@.lib, required_libs_view()[j].0, #[trigger] opt_texts(found@)[j]) by {
                assert(opt_texts(found@)[j] == opt_text(found@[j]));
                if j < k {
                    assert(found@[j] == before[j]);
                    assert(opt_texts(before)[j] == opt_text(before[j]));
                } else {
                    assert(found@[j] == hit);
                }
            }
        }
        k = k + 1;
    }
    lib_group_for(env, &present, &found)
}

/// The platform's groups: the tool chain (given where plc, clang and lld-link
/// were found and what plc and clang printed), the link libraries, the run
/// time stdlib, the export lists and the libNX1P2 artifact.
pub fn groups(env: &EnvSnapshot, plc: &Option<Located>, clang: &Option<Located>, lld: &Option<String>, root: &str) -> (r: Vec<Group>)
    ensures
        r@.len() == 5,
        r@[0]@ == toolchain_group_view(env@.path.len(), located_view(*plc), located_view(*clang), opt_text(*lld)),
        exists|present: Seq<bool>, found: Seq<Option<Seq<char>>>|
            present.len() == env@.lib.len() && found.len() == required_libs_view().len()
                && (forall|i: int| 0 <= i < found.len() ==> first_hit(env@.lib, required_libs_view()[i].0, #[trigger] found[i]))
                && r@[1]@ == lib_group_view(env@, present, found),
        exists|found: Option<Seq<char>>|
            first_hit(env@.path, "iec61131std.dll"@, found) && r@[2]@ == runtime_group_view(env@.path.len(), found),
        r@[3]@.title == "Link exports"@,
        exists|main: bool, omron: bool| r@[3]@.checks == exports_checks(root@, main, omron),
        r@[4]@.title == "Build artifacts"@,
        exists|present: bool|
            r@[4]@.checks == seq![
                file_check_view(
                    path_join(root@, OMRON_ARTIFACT@),
                    present,
                    OMRON_CHECK@,
                    "the library that the lib_structured_text builds link against with -l libNX1P2"@,
                    artifact_remedy(),
                ),
            ],
{
    vec![toolchain_group(env, plc, clang, lld), lib_group(env), runtime_group(env), exports_group(root), artifact_group(root)]
}

} // verus!
