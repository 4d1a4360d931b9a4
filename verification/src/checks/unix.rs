//! The checks made on Linux.

use vstd::prelude::*;

use crate::builds::unix::{OMRON_ARTIFACT, OMRON_CHECK};
use crate::env::{EnvSnapshot, EnvView};
use crate::paths::{is_file, join_path, path_join};
use crate::text::{cat, cat3, decimal, decimal_text, join, joined, owned, views, opt_text};

use super::{
    first_hit, check_of, file_check, file_check_for, file_check_view, find_in, located_view, tool_check,
    tool_check_view, Check, CheckView, Group, GroupView, Located, Status,
};

verus! {

/// The platform's name.
pub const NAME: &'static str = "Linux";

/// How to install the .NET SDK.
pub const DOTNET_REMEDY: &'static str = "sudo snap install --classic dotnet && sudo snap install dotnet-sdk-100";

/// Where the Rusty Compiler builds for Linux are published.
pub const PLC_PIPELINE: &'static str = "https://github.com/doublecouponday/rusty-fork/actions/workflows/linux.yml";

/// On Linux a program is looked for under its own name.
pub fn candidates(dir: &str, name: &str) -> (r: Vec<String>)
    ensures
        r@.len() == 1,
        r@[0]@ == path_join(dir@, name@),
{
    vec![join_path(dir, name)]
}

/// How to build libNX1P2.so, should it be missing.
pub open spec fn artifact_remedy() -> Seq<Seq<char>> {
    seq![
        "lib_structured_text.so and lib_structured_text.xml cannot be built until it exists."@,
        "It is produced from the libomron sources, so build libNX1P2.so first:"@,
        "plc ./libomron/*.st --shared --linker=cc --target=x86_64 -l iec61131std -o ./compiled/libNX1P2.so"@,
        "The Build pane runs that for you."@,
    ]
}

/// The group on the libNX1P2.so build artifact, given whether the file
/// system says the artifact is there.
pub fn artifact_group_for(root: &str, present: bool) -> (r: Group)
    ensures
        r@.title == "Build artifacts"@,
        r@.checks == seq![
            file_check_view(
                path_join(root@, OMRON_ARTIFACT@),
                present,
                OMRON_CHECK@,
                "the library that the lib_structured_text builds link against with -l NX1P2"@,
                artifact_remedy(),
            ),
        ],
{
    let remedy = vec![
        owned("lib_structured_text.so and lib_structured_text.xml cannot be built until it exists."),
        owned("It is produced from the libomron sources, so build libNX1P2.so first:"),
        owned("plc ./libomron/*.st --shared --linker=cc --target=x86_64 -l iec61131std -o ./compiled/libNX1P2.so"),
        owned("The Build pane runs that for you."),
    ];
    assert(views(remedy@) =~= artifact_remedy());
    let check = file_check_for(
        join_path(root, OMRON_ARTIFACT),
        present,
        OMRON_CHECK,
        "the library that the lib_structured_text builds link against with -l NX1P2",
        remedy,
    );
    let r = Group { title: owned("Build artifacts"), checks: vec![check] };
    assert(r@.checks =~= seq![check@]);
    r
}

/// The group on the libNX1P2.so build artifact, asking the file system.
pub fn artifact_group(root: &str) -> (r: Group)
    ensures
        r@.title == "Build artifacts"@,
        exists|present: bool|
            r@.checks == seq![
                file_check_view(
                    path_join(root@, OMRON_ARTIFACT@),
                    present,
                    OMRON_CHECK@,
                    "the library that the lib_structured_text builds link against with -l NX1P2"@,
                    artifact_remedy(),
                ),
            ],
{
    let present = is_file(join_path(root, OMRON_ARTIFACT).as_str());
    artifact_group_for(root, present)
}

/// What to do when plc is missing.
pub open spec fn plc_remedy() -> Seq<Seq<char>> {
    seq![
        "Download plc.zip from the Rusty Compiler Linux build pipeline:"@,
        PLC_PIPELINE@,
        "Decompress it and install the executable:"@,
        "7z e ./Downloads/plc.zip && sudo cp ./Downloads/plc /usr/bin"@,
    ]
}

/// What to do when cc is missing.
pub open spec fn cc_remedy() -> Seq<Seq<char>> {
    seq!["cc comes from build-essential:"@, "sudo apt update && sudo apt install build-essential"@]
}

/// The tool chain group: plc and cc, as found on PATH.
pub open spec fn toolchain_group_view(
    path_folders: nat,
    plc: Option<(Seq<char>, Option<Seq<char>>)>,
    cc: Option<(Seq<char>, Option<Seq<char>>)>,
) -> GroupView {
    GroupView {
        title: "Compiler toolchain"@,
        checks: seq![
            tool_check_view(
                "plc (Rusty Compiler) on PATH"@,
                "plc resolvable through PATH, /usr/bin is the documented location"@,
                "plc"@,
                plc_remedy(),
                path_folders,
                plc,
            ),
            tool_check_view(
                "cc on PATH"@,
                "cc, the linker plc drives through --linker=cc"@,
                "cc"@,
                cc_remedy(),
                path_folders,
                cc,
            ),
        ],
    }
}

/// The group on the compiler tool chain, given where plc and cc were found on
/// PATH and the first line each printed for `--version`.
pub fn toolchain_group(env: &EnvSnapshot, plc: &Option<Located>, cc: &Option<Located>) -> (r: Group)
    ensures
        r@ == toolchain_group_view(env@.path.len(), located_view(*plc), located_view(*cc)),
{
    let plc_help = vec![
        owned("Download plc.zip from the Rusty Compiler Linux build pipeline:"),
        owned(PLC_PIPELINE),
        owned("Decompress it and install the executable:"),
        owned("7z e ./Downloads/plc.zip && sudo cp ./Downloads/plc /usr/bin"),
    ];
    assert(views(plc_help@) =~= plc_remedy());
    let cc_help = vec![
        owned("cc comes from build-essential:"),
        owned("sudo apt update && sudo apt install build-essential"),
    ];
    assert(views(cc_help@) =~= cc_remedy());
    let first = tool_check(
        "plc (Rusty Compiler) on PATH",
        "plc resolvable through PATH, /usr/bin is the documented location",
        "plc",
        plc_help,
        env.path.len(),
        plc,
    );
    let second = tool_check(
        "cc on PATH",
        "cc, the linker plc drives through --linker=cc",
        "cc",
        cc_help,
        env.path.len(),
        cc,
    );
    let r = Group { title: owned("Compiler toolchain"), checks: vec![first, second] };
    assert(r@.checks =~= toolchain_group_view(env@.path.len(), located_view(*plc), located_view(*cc)).checks);
    r
}

/// The folders the dynamic loader searches: LD_LIBRARY_PATH, then the
/// system folders, `arch` naming the machine.
pub open spec fn loader_dirs_view(library_path: Seq<Seq<char>>, arch: Seq<char>) -> Seq<Seq<char>> {
    library_path + seq![
        "/lib"@,
        "/usr/lib"@,
        path_join("/lib"@, arch + "-linux-gnu"@),
        path_join("/usr/lib"@, arch + "-linux-gnu"@),
        "/usr/local/lib"@,
    ]
}

/// The folders the dynamic loader searches on a machine of architecture `arch`.
pub fn loader_dirs(env: &EnvSnapshot, arch: &str) -> (r: Vec<String>)
    ensures
        views(r@) == loader_dirs_view(env@.library_path, arch@),
{
    let triple = cat(arch, "-linux-gnu");
    let mut dirs: Vec<String> = Vec::new();
    let mut i: usize = 0;
    while i < env.library_path.len()
        invariant
            i <= env.library_path@.len(),
            views(dirs@) == views(env.library_path@).take(i as int),
        decreases env.library_path@.len() - i,
    {
        let entry = env.library_path[i].clone();
        assert(entry@ == env.library_path@[i as int]@);
        let ghost before = dirs@;
        dirs.push(entry);
        assert(views(dirs@) =~= views(before).push(entry@));
        assert(views(dirs@) =~= views(env.library_path@).take(i + 1));
        i = i + 1;
    }
    let ghost before = dirs@;
    dirs.push(owned("/lib"));
    dirs.push(owned("/usr/lib"));
    dirs.push(join_path("/lib", triple.as_str()));
    dirs.push(join_path("/usr/lib", triple.as_str()));
    dirs.push(owned("/usr/local/lib"));
    assert(views(env.library_path@).take(i as int) =~= views(env.library_path@));
    assert(views(dirs@) =~= loader_dirs_view(env@.library_path, arch@));
    dirs
}

/// The check on a shared object the loader must find.
pub open spec fn shared_object_check_view(
    name: Seq<char>,
    expected: Seq<char>,
    listing: Seq<char>,
    remedy: Seq<Seq<char>>,
    found: Option<Seq<char>>,
) -> CheckView {
    match found {
        Some(path) => check_of(name, Status::Pass, "found"@, expected, path, Seq::empty()),
        None => check_of(
            name,
            Status::Fail,
            "not on the loader search path"@,
            expected,
            "searched:\n"@ + listing,
            remedy,
        ),
    }
}

/// What to do when the stdlib shared object is missing.
pub open spec fn stdlib_remedy(arch: Seq<char>) -> Seq<Seq<char>> {
    seq![
        "Download stdlib.zip from the Rusty Compiler Linux build pipeline:"@,
        PLC_PIPELINE@,
        "Take the copy for your architecture, most likely "@ + arch + "-linux-gnu:"@,
        "sudo cp ~/Downloads/stdlib/"@ + arch + "-linux-gnu/libiec61131std.so /lib"@,
    ]
}

/// What to do when libNX1P2.so is missing from the loader path.
pub open spec fn omron_remedy() -> Seq<Seq<char>> {
    seq![
        "It is built from the libomron sources before the main sources are compiled:"@,
        "plc ./libomron/*.st --shared --linker=cc --target=x86_64 -l iec61131std -o ./compiled/libNX1P2.so"@,
        "Install it where the dynamic loader can find it:"@,
        "sudo cp ./compiled/libNX1P2.so /lib"@,
    ]
}

/// The loader path group, given where each shared object was found.
pub open spec fn shared_object_group_view(
    env: EnvView,
    arch: Seq<char>,
    stdlib: Option<Seq<char>>,
    omron: Option<Seq<char>>,
) -> GroupView {
    let listing = joined(loader_dirs_view(env.library_path, arch), "\n"@);
    GroupView {
        title: "Run time libraries (loader path)"@,
        checks: seq![
            shared_object_check_view(
                "libiec61131std.so"@,
                "libiec61131std.so on the loader search path, linked with -l iec61131std"@,
                listing,
                stdlib_remedy(arch),
                stdlib,
            ),
            shared_object_check_view(
                "libNX1P2.so"@,
                "libNX1P2.so on the loader search path, lib_structured_text.so records a dependency on it"@,
                listing,
                omron_remedy(),
                omron,
            ),
        ],
    }
}

fn shared_object_check(name: &str, expected: &str, listing: &str, remedy: Vec<String>, found: Option<String>) -> (r: Check)
    ensures
        r@ == shared_object_check_view(name@, expected@, listing@, views(remedy@), opt_text(found)),
{
    match found {
        Some(path) => {
            let r = Check {
                name: owned(name),
                status: Status::Pass,
                summary: owned("found"),
                expected: owned(expected),
                found: path,
                remedy: Vec::new(),
            };
            assert(r@.remedy =~= Seq::<Seq<char>>::empty());
            r
        },
        None => Check {
            name: owned(name),
            status: Status::Fail,
            summary: owned("not on the loader search path"),
            expected: owned(expected),
            found: cat("searched:\n", listing),
            remedy,
        },
    }
}

/// The group on the shared objects the loader must find, on a machine of
/// architecture `arch`, given where the loader path search found each.
pub fn shared_object_group_for(
    env: &EnvSnapshot,
    arch: &str,
    stdlib: Option<String>,
    omron: Option<String>,
) -> (r: Group)
    ensures
        r@ == shared_object_group_view(env@, arch@, opt_text(stdlib), opt_text(omron)),
{
    let dirs = loader_dirs(env, arch);
    let listing = join(&dirs, "\n");
    let ghost stdlib_view = opt_text(stdlib);
    let ghost omron_view = opt_text(omron);
    let copy_line = cat3("sudo cp ~/Downloads/stdlib/", arch, "-linux-gnu/libiec61131std.so /lib");
    let stdlib_help = vec![
        owned("Download stdlib.zip from the Rusty Compiler Linux build pipeline:"),
        owned(PLC_PIPELINE),
        cat3("Take the copy for your architecture, most likely ", arch, "-linux-gnu:"),
        copy_line,
    ];
    assert(views(stdlib_help@) =~= stdlib_remedy(arch@));
    let omron_help = vec![
        owned("It is built from the libomron sources before the main sources are compiled:"),
        owned("plc ./libomron/*.st --shared --linker=cc --target=x86_64 -l iec61131std -o ./compiled/libNX1P2.so"),
        owned("Install it where the dynamic loader can find it:"),
        owned("sudo cp ./compiled/libNX1P2.so /lib"),
    ];
    assert(views(omron_help@) =~= omron_remedy());
    let first = shared_object_check(
        "libiec61131std.so",
        "libiec61131std.so on the loader search path, linked with -l iec61131std",
        listing.as_str(),
        stdlib_help,
        stdlib,
    );
    let second = shared_object_check(
        "libNX1P2.so",
        "libNX1P2.so on the loader search path, lib_structured_text.so records a dependency on it",
        listing.as_str(),
        omron_help,
        omron,
    );
    let r = Group { title: owned("Run time libraries (loader path)"), checks: vec![first, second] };
    assert(r@.checks =~= shared_object_group_view(env@, arch@, stdlib_view, omron_view).checks);
    r
}

/// The group on the shared objects the loader must find, on a machine of
/// architecture `arch`, asking the file system along the loader path.
pub fn shared_object_group(env: &EnvSnapshot, arch: &str) -> (r: Group)
    ensures
        exists|stdlib: Option<Seq<char>>, omron: Option<Seq<char>>|
            first_hit(loader_dirs_view(env@.library_path, arch@), "libiec61131std.so"@, stdlib)
                && first_hit(loader_dirs_view(env@.library_path, arch@), "libNX1P2.so"@, omron)
                && r@ == shared_object_group_view(env@, arch@, stdlib, omron),
{
    let dirs = loader_dirs(env, arch);
    let stdlib = find_in(&dirs, "libiec61131std.so");
    let omron = find_in(&dirs, "libNX1P2.so");
    let ghost stdlib_view = opt_text(stdlib);
    let ghost omron_view = opt_text(omron);
    proof {
        let d = loader_dirs_view(env@.library_path, arch@);
        assert(d == views(dirs@));
        assert(first_hit(d, "libiec61131std.so"@, stdlib_view));
        assert(first_hit(d, "libNX1P2.so"@, omron_view));
    }
    shared_object_group_for(env, arch, stdlib, omron)
}

/// The platform's groups: the tool chain (given where plc and cc were found
/// and what they printed for `--version`), the shared objects the loader
/// needs on a machine of architecture `arch`, and the libNX1P2 artifact.
pub fn groups(env: &EnvSnapshot, plc: &Option<Located>, cc: &Option<Located>, arch: &str, root: &str) -> (r: Vec<Group>)
    ensures
        r@.len() == 3,
        r@[0]@ == toolchain_group_view(env@.path.len(), located_view(*plc), located_view(*cc)),
        exists|stdlib: Option<Seq<char>>, omron: Option<Seq<char>>|
            first_hit(loader_dirs_view(env@.library_path, arch@), "libiec61131std.so"@, stdlib)
                && first_hit(loader_dirs_view(env@.library_path, arch@), "libNX1P2.so"@, omron)
                && r@[1]@ == shared_object_group_view(env@, arch@, stdlib, omron),
        r@[2]@.title == "Build artifacts"@,
        exists|present: bool|
            r@[2]@.checks == seq![
                file_check_view(
                    path_join(root@, OMRON_ARTIFACT@),
                    present,
                    OMRON_CHECK@,
                    "the library that the lib_structured_text builds link against with -l NX1P2"@,
                    artifact_remedy(),
                ),
            ],
{
    vec![toolchain_group(env, plc, cc), shared_object_group(env, arch), artifact_group(root)]
}

} // verus!
