//! The build targets on Linux.

use vstd::prelude::*;

use super::{args, target_views, test_target, test_target_view, Step, StepView, Target, TargetView, SOURCE_CHECK, TEST_PROJECT_CHECK};

verus! {

/// The name of the check on the libNX1P2 artifact.
pub const OMRON_CHECK: &'static str = "libNX1P2.so";

/// Where the libNX1P2 build writes its artifact.
pub const OMRON_ARTIFACT: &'static str = "compiled/libNX1P2.so";

/// Where the main library build writes its artifact.
pub const LIBRARY_ARTIFACT: &'static str = "compiled/lib_structured_text.so";

/// The targets the Build pane offers on Linux, in build order.
pub open spec fn targets_view() -> Seq<TargetView> {
    seq![
        TargetView {
            label: "libNX1P2.so"@,
            ignores: seq![SOURCE_CHECK@, OMRON_CHECK@, TEST_PROJECT_CHECK@],
            requires: None,
            steps: seq![StepView { program: "plc"@, args: seq!["./libNX1P2/*.st"@, "--shared"@, "--linker=cc"@, "-l"@, "iec61131std"@, "-o"@, "./compiled/libNX1P2.so"@] }],
        },
        TargetView {
            label: "lib_structured_text.so"@,
            ignores: seq![TEST_PROJECT_CHECK@],
            requires: Some(OMRON_ARTIFACT@),
            steps: seq![StepView { program: "plc"@, args: seq!["./source/*.st"@, "--shared"@, "--linker=cc"@, "-i"@, "./externals/stdlib_externals.st"@, "-i"@, "./externals/omron_externals.st"@, "-L"@, "./compiled"@, "-l"@, "iec61131std"@, "-l"@, "NX1P2"@, "--linker-arg=--rpath=$ORIGIN"@, "-o"@, "./compiled/lib_structured_text.so"@] }],
        },
        TargetView {
            label: "lib_structured_text.xml"@,
            ignores: seq![TEST_PROJECT_CHECK@],
            requires: Some(OMRON_ARTIFACT@),
            steps: seq![StepView { program: "plc"@, args: seq!["./source/clampandsaw.st"@, "./source/testallbuiltins.st"@, "--xml-omron"@, "-i"@, "./externals/stdlib_externals.st"@, "-i"@, "./externals/omron_externals.st"@, "-L"@, "./compiled"@, "-l"@, "iec61131std"@, "-l"@, "NX1P2"@, "-o"@, "./compiled/lib_structured_text.xml"@] }],
        },
        test_target_view(LIBRARY_ARTIFACT@),
    ]
}

/// The targets the Build pane offers on Linux, in build order.
pub fn targets() -> (r: Vec<Target>)
    ensures
        target_views(r@) == targets_view(),
{
    let s00 = Step { program: "plc", args: args(&["./libNX1P2/*.st", "--shared", "--linker=cc", "-l", "iec61131std", "-o", "./compiled/libNX1P2.so"]) };
    assert(s00@.args =~= seq!["./libNX1P2/*.st"@, "--shared"@, "--linker=cc"@, "-l"@, "iec61131std"@, "-o"@, "./compiled/libNX1P2.so"@]);
    let t0 = Target { label: "libNX1P2.so", ignores: &[SOURCE_CHECK, OMRON_CHECK, TEST_PROJECT_CHECK], requires: None, steps: vec![s00] };
    assert(t0@.ignores =~= seq![SOURCE_CHECK@, OMRON_CHECK@, TEST_PROJECT_CHECK@]);
    assert(t0@.steps =~= seq![s00@]);
    assert(t0@ == targets_view()[0]);
    let s10 = Step { program: "plc", args: args(&["./source/*.st", "--shared", "--linker=cc", "-i", "./externals/stdlib_externals.st", "-i", "./externals/omron_externals.st", "-L", "./compiled", "-l", "iec61131std", "-l", "NX1P2", "--linker-arg=--rpath=$ORIGIN", "-o", "./compiled/lib_structured_text.so"]) };
    assert(s10@.args =~= seq!["./source/*.st"@, "--shared"@, "--linker=cc"@, "-i"@, "./externals/stdlib_externals.st"@, "-i"@, "./externals/omron_externals.st"@, "-L"@, "./compiled"@, "-l"@, "iec61131std"@, "-l"@, "NX1P2"@, "--linker-arg=--rpath=$ORIGIN"@, "-o"@, "./compiled/lib_structured_text.so"@]);
    let t1 = Target { label: "lib_structured_text.so", ignores: &[TEST_PROJECT_CHECK], requires: Some(OMRON_ARTIFACT), steps: vec![s10] };
    assert(t1@.ignores =~= seq![TEST_PROJECT_CHECK@]);
    assert(t1@.steps =~= seq![s10@]);
    assert(t1@ == targets_view()[1]);
    let s20 = Step { program: "plc", args: args(&["./source/clampandsaw.st", "./source/testallbuiltins.st", "--xml-omron", "-i", "./externals/stdlib_externals.st", "-i", "./externals/omron_externals.st", "-L", "./compiled", "-l", "iec61131std", "-l", "NX1P2", "-o", "./compiled/lib_structured_text.xml"]) };
    assert(s20@.args =~= seq!["./source/clampandsaw.st"@, "./source/testallbuiltins.st"@, "--xml-omron"@, "-i"@, "./externals/stdlib_externals.st"@, "-i"@, "./externals/omron_externals.st"@, "-L"@, "./compiled"@, "-l"@, "iec61131std"@, "-l"@, "NX1P2"@, "-o"@, "./compiled/lib_structured_text.xml"@]);
    let t2 = Target { label: "lib_structured_text.xml", ignores: &[TEST_PROJECT_CHECK], requires: Some(OMRON_ARTIFACT), steps: vec![s20] };
    assert(t2@.ignores =~= seq![TEST_PROJECT_CHECK@]);
    assert(t2@.steps =~= seq![s20@]);
    assert(t2@ == targets_view()[2]);
    let t3 = test_target(LIBRARY_ARTIFACT);
    let r = vec![t0, t1, t2, t3];
    assert(target_views(r@) =~= targets_view());
    r
}

} // verus!
