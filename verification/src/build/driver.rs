//! The order of a build: which piece of work comes next, given what the last
//! one found. The caller does the work (running steps, computing the
//! fingerprint, compiling, packaging, packing the image), reports what the
//! driver asks it to report, and hands back what happened.
use vstd::prelude::*;

use crate::text::str_eq;

verus! {

/// What the driver waits for.
#[derive(Debug, Clone, Copy, PartialEq, Eq, Structural)]
pub enum Phase {
    Start,
    SetUp,
    StepsChecked,
    StepsRun,
    Fingerprinted,
    Compiled,
    FingerprintWritten,
    Packaged,
    PostStepsChecked,
    PostStepsRun,
    Verified,
    Packed,
    Done,
}

/// The state of one project's build: the phase, the settings that steer it,
/// and whether the pre-build steps ran.
#[derive(Debug, Clone, Copy, PartialEq, Eq, Structural)]
pub struct BuildState {
    pub phase: Phase,
    /// `--force`: steps run and sources compile whatever their state.
    pub force: bool,
    /// `DCR_DEBUG` is set: an up-to-date build still goes through packaging,
    /// post-build steps, expectations and packing.
    pub debugging: bool,
    /// The project is packaged as a library (headers and library files copied
    /// under `target/`).
    pub packages_library: bool,
    /// The manifest has an `[archive]` section.
    pub has_archive: bool,
    pub steps_dirty: bool,
}

/// What the caller found or did.
#[derive(Debug, Clone, Copy, PartialEq, Eq, Structural)]
pub enum BuildInput {
    Begin,
    /// The manifest is read, the target directory made and the dependencies
    /// resolved; whether the project is packaged as a library and whether it
    /// has an `[archive]` section.
    SetUp { packages_library: bool, has_archive: bool },
    /// Whether some pre-build step has an input newer than its output.
    StepsNeedRun(bool),
    StepsRan,
    /// Whether the main artifact exists and the saved fingerprint matches.
    Fingerprint { fresh: bool },
    Compiled,
    FingerprintWritten,
    Packaged,
    /// Whether some post-build step has an input newer than its output.
    PostStepsNeedRun(bool),
    PostStepsRan,
    Verified,
    Packed,
    /// The work failed; the caller has its message.
    Failed,
    /// The user asked to stop.
    Cancelled,
}

/// The work the caller does next.
#[derive(Debug, Clone, Copy, PartialEq, Eq, Structural)]
pub enum Work {
    /// Read the manifest, make the target directory, resolve (and build)
    /// the dependencies and write the lock file.
    Setup,
    CheckSteps,
    /// Remove the files the manifest marks as generated, then run the steps.
    CleanAndRunSteps,
    /// Collect sources, headers and library files and compute the fingerprint.
    Fingerprint,
    Compile,
    WriteFingerprint,
    PackageLibrary,
    CheckPostSteps,
    RunPostSteps,
    VerifyExpectations,
    PackArchive,
    /// The build succeeded.
    Succeed,
    /// The build stops with "Build interrupted".
    Interrupt,
    /// The build stops with the caller's error.
    Abort,
    /// The build is over; nothing is left to do.
    Idle,
}

/// What the caller reports before the work: `Compiling` (with the project's
/// name and version) or `Packing` (with the image path).
#[derive(Debug, Clone, Copy, PartialEq, Eq, Structural)]
pub enum Report {
    Compiling,
    Packing,
}

/// The driver's answer: an optional report, then the work.
#[derive(Debug, Clone, Copy, PartialEq, Eq, Structural)]
pub struct BuildAction {
    pub report: Option<Report>,
    pub work: Work,
}

/// The message of an interrupted build.
pub open spec fn interrupted_spec() -> Seq<char> {
    "Build interrupted"@
}

/// The message of an interrupted build.
pub fn interrupted_message() -> (r: String)
    ensures
        r@ == interrupted_spec(),
{
    String::from_str("Build interrupted")
}

/// `s` in phase `p`, asking for `work` with no report.
pub open spec fn go(s: BuildState, p: Phase, work: Work) -> (BuildState, BuildAction) {
    (BuildState { phase: p, ..s }, BuildAction { report: None, work })
}

/// What follows compiling (or an up-to-date build that goes on): packaging
/// for a library, else the check of the post-build steps.
pub open spec fn after_compile(s: BuildState) -> (BuildState, BuildAction) {
    if s.packages_library {
        go(s, Phase::Packaged, Work::PackageLibrary)
    } else {
        go(s, Phase::PostStepsChecked, Work::CheckPostSteps)
    }
}

/// One step of a project's build. The order is: setup (manifest, target
/// directory, dependencies), pre-build steps (run when
/// one is out of date or the build is forced, after the generated files are
/// removed), fingerprint, compile (reported as `Compiling`, skipped when the
/// build is up to date and neither forced nor after steps that ran; an
/// up-to-date build ends there unless debugging), fingerprint saved, library
/// packaging, post-build steps (when out of date or forced), expectations,
/// and the disk image (reported as `Packing`). A cancellation ends the build
/// as interrupted, a failure ends it with the caller's error, and an input
/// the phase does not expect ends it as failed.
pub open spec fn build_step_spec(s: BuildState, e: BuildInput) -> (BuildState, BuildAction) {
    if s.phase == Phase::Done {
        go(s, Phase::Done, Work::Idle)
    } else if e == BuildInput::Cancelled {
        go(s, Phase::Done, Work::Interrupt)
    } else {
        match (s.phase, e) {
            (Phase::Start, BuildInput::Begin) => go(s, Phase::SetUp, Work::Setup),
            (Phase::SetUp, BuildInput::SetUp { packages_library, has_archive }) => go(
                BuildState { packages_library, has_archive, ..s },
                Phase::StepsChecked,
                Work::CheckSteps,
            ),
            (Phase::StepsChecked, BuildInput::StepsNeedRun(d)) => {
                let s1 = BuildState { steps_dirty: d || s.force, ..s };
                if d || s.force {
                    go(s1, Phase::StepsRun, Work::CleanAndRunSteps)
                } else {
                    go(s1, Phase::Fingerprinted, Work::Fingerprint)
                }
            },
            (Phase::StepsRun, BuildInput::StepsRan) => go(s, Phase::Fingerprinted, Work::Fingerprint),
            (Phase::Fingerprinted, BuildInput::Fingerprint { fresh }) => {
                let skip = fresh && !s.steps_dirty && !s.force;
                if !skip {
                    (
                        BuildState { phase: Phase::Compiled, ..s },
                        BuildAction { report: Some(Report::Compiling), work: Work::Compile },
                    )
                } else if s.debugging {
                    after_compile(s)
                } else {
                    go(s, Phase::Done, Work::Succeed)
                }
            },
            (Phase::Compiled, BuildInput::Compiled) => go(s, Phase::FingerprintWritten, Work::WriteFingerprint),
            (Phase::FingerprintWritten, BuildInput::FingerprintWritten) => after_compile(s),
            (Phase::Packaged, BuildInput::Packaged) => go(s, Phase::PostStepsChecked, Work::CheckPostSteps),
            (Phase::PostStepsChecked, BuildInput::PostStepsNeedRun(d)) => if d || s.force {
                go(s, Phase::PostStepsRun, Work::RunPostSteps)
            } else {
                go(s, Phase::Verified, Work::VerifyExpectations)
            },
            (Phase::PostStepsRun, BuildInput::PostStepsRan) => go(s, Phase::Verified, Work::VerifyExpectations),
            (Phase::Verified, BuildInput::Verified) => if s.has_archive {
                (
                    BuildState { phase: Phase::Packed, ..s },
                    BuildAction { report: Some(Report::Packing), work: Work::PackArchive },
                )
            } else {
                go(s, Phase::Done, Work::Succeed)
            },
            (Phase::Packed, BuildInput::Packed) => go(s, Phase::Done, Work::Succeed),
            _ => go(s, Phase::Done, Work::Abort),
        }
    }
}

/// The state a project's build starts in (nothing is known of the project yet).
pub fn start_state(force: bool, debugging: bool) -> (r: BuildState)
    ensures
        r == (BuildState {
            phase: Phase::Start,
            force,
            debugging,
            packages_library: false,
            has_archive: false,
            steps_dirty: false,
        }),
{
    BuildState { phase: Phase::Start, force, debugging, packages_library: false, has_archive: false, steps_dirty: false }
}

fn go_exec(s: &BuildState, p: Phase, work: Work) -> (r: (BuildState, BuildAction))
    ensures
        r == go(*s, p, work),
{
    (BuildState { phase: p, ..*s }, BuildAction { report: None, work })
}

fn after_compile_exec(s: &BuildState) -> (r: (BuildState, BuildAction))
    ensures
        r == after_compile(*s),
{
    if s.packages_library {
        go_exec(s, Phase::Packaged, Work::PackageLibrary)
    } else {
        go_exec(s, Phase::PostStepsChecked, Work::CheckPostSteps)
    }
}

/// One step of a project's build (see `build_step_spec`).
pub fn build_step(state: &BuildState, event: &BuildInput) -> (r: (BuildState, BuildAction))
    ensures
        r == build_step_spec(*state, *event),
{
    let s = state;
    if s.phase == Phase::Done {
        return go_exec(s, Phase::Done, Work::Idle);
    }
    if *event == BuildInput::Cancelled {
        return go_exec(s, Phase::Done, Work::Interrupt);
    }
    match (s.phase, *event) {
        (Phase::Start, BuildInput::Begin) => go_exec(s, Phase::SetUp, Work::Setup),
        (Phase::SetUp, BuildInput::SetUp { packages_library, has_archive }) => {
            let s1 = BuildState { packages_library, has_archive, ..*s };
            go_exec(&s1, Phase::StepsChecked, Work::CheckSteps)
        },
        (Phase::StepsChecked, BuildInput::StepsNeedRun(d)) => {
            let s1 = BuildState { steps_dirty: d || s.force, ..*s };
            if d || s.force {
                go_exec(&s1, Phase::StepsRun, Work::CleanAndRunSteps)
            } else {
                go_exec(&s1, Phase::Fingerprinted, Work::Fingerprint)
            }
        },
        (Phase::StepsRun, BuildInput::StepsRan) => go_exec(s, Phase::Fingerprinted, Work::Fingerprint),
        (Phase::Fingerprinted, BuildInput::Fingerprint { fresh }) => {
            let skip = fresh && !s.steps_dirty && !s.force;
            if !skip {
                (
                    BuildState { phase: Phase::Compiled, ..*s },
                    BuildAction { report: Some(Report::Compiling), work: Work::Compile },
                )
            } else if s.debugging {
                after_compile_exec(s)
            } else {
                go_exec(s, Phase::Done, Work::Succeed)
            }
        },
        (Phase::Compiled, BuildInput::Compiled) => go_exec(s, Phase::FingerprintWritten, Work::WriteFingerprint),
        (Phase::FingerprintWritten, BuildInput::FingerprintWritten) => after_compile_exec(s),
        (Phase::Packaged, BuildInput::Packaged) => go_exec(s, Phase::PostStepsChecked, Work::CheckPostSteps),
        (Phase::PostStepsChecked, BuildInput::PostStepsNeedRun(d)) => {
            if d || s.force {
                go_exec(s, Phase::PostStepsRun, Work::RunPostSteps)
            } else {
                go_exec(s, Phase::Verified, Work::VerifyExpectations)
            }
        },
        (Phase::PostStepsRun, BuildInput::PostStepsRan) => go_exec(s, Phase::Verified, Work::VerifyExpectations),
        (Phase::Verified, BuildInput::Verified) => {
            if s.has_archive {
                (
                    BuildState { phase: Phase::Packed, ..*s },
                    BuildAction { report: Some(Report::Packing), work: Work::PackArchive },
                )
            } else {
                go_exec(s, Phase::Done, Work::Succeed)
            }
        },
        (Phase::Packed, BuildInput::Packed) => go_exec(s, Phase::Done, Work::Succeed),
        _ => go_exec(s, Phase::Done, Work::Abort),
    }
}



/// A build cancelled before it starts ends at once as interrupted: its first
/// step asks for no report and no work on the project, not even its setup.
pub proof fn lemma_cancel_before_setup(force: bool, debugging: bool)
    ensures
        build_step_spec(
            BuildState { phase: Phase::Start, force, debugging, packages_library: false, has_archive: false, steps_dirty: false },
            BuildInput::Cancelled,
        ).1 == (BuildAction { report: None, work: Work::Interrupt }),
{
}

/// A cancellation ends any build that is not over, as interrupted.
pub proof fn lemma_cancel_interrupts(s: BuildState)
    requires
        s.phase != Phase::Done,
    ensures
        build_step_spec(s, BuildInput::Cancelled).0.phase == Phase::Done,
        build_step_spec(s, BuildInput::Cancelled).1.work == Work::Interrupt,
{
}

/// A forced build, or one whose pre-build steps ran, compiles whatever the
/// fingerprint says, and reports `Compiling` first.
pub proof fn lemma_forced_or_stepped_build_compiles(s: BuildState, fresh: bool)
    requires
        s.phase == Phase::Fingerprinted,
        s.force || s.steps_dirty,
    ensures
        build_step_spec(s, BuildInput::Fingerprint { fresh }).1 == (BuildAction { report: Some(Report::Compiling), work: Work::Compile }),
{
}

/// An up-to-date build that is neither forced, after steps, nor debugging
/// ends without compiling.
pub proof fn lemma_fresh_build_stops(s: BuildState)
    requires
        s.phase == Phase::Fingerprinted,
        !s.force,
        !s.steps_dirty,
        !s.debugging,
    ensures
        build_step_spec(s, BuildInput::Fingerprint { fresh: true }).1.work == Work::Succeed,
{
}

// ---------------------------------------------------------------------------
// Workspaces and targets
// ---------------------------------------------------------------------------

/// A member of a workspace: its name and its directory.
#[derive(Debug)]
pub struct WorkspaceMember {
    pub name: String,
    pub path: String,
}

/// The members as (name, path) text.
pub open spec fn members_view(m: Seq<WorkspaceMember>) -> Seq<(Seq<char>, Seq<char>)> {
    m.map_values(|x: WorkspaceMember| (x.name@, x.path@))
}

/// The members `--workspace <name>` selects: all of them without a name,
/// else those with that name, in order.
pub open spec fn filtered_members(m: Seq<(Seq<char>, Seq<char>)>, filter: Option<Seq<char>>) -> Seq<(Seq<char>, Seq<char>)> {
    match filter {
        None => m,
        Some(f) => m.filter(|x: (Seq<char>, Seq<char>)| x.0 == f),
    }
}

/// The members a build covers (see `filtered_members`).
pub fn filter_members(members: &[WorkspaceMember], filter: Option<&str>) -> (r: Vec<WorkspaceMember>)
    ensures
        members_view(r@) == filtered_members(members_view(members@), crate::platform::opt_view(filter)),
{
    let ghost mv = members_view(members@);
    let mut out: Vec<WorkspaceMember> = Vec::new();
    let mut i: usize = 0;
    proof {
        reveal_with_fuel(Seq::filter, 1);
    }
    assert(members_view(out@) =~= filtered_members(mv.take(0), crate::platform::opt_view(filter)));
    while i < members.len()
        invariant
            i <= members@.len(),
            mv == members_view(members@),
            members_view(out@) == filtered_members(mv.take(i as int), crate::platform::opt_view(filter)),
        decreases members.len() - i,
    {
        let ghost before = members_view(out@);
        assert(mv.take(i + 1).drop_last() =~= mv.take(i as int));
        assert(mv.take(i + 1).last() == (members@[i as int].name@, members@[i as int].path@));
        proof {
            reveal_with_fuel(Seq::filter, 1);
        }
        let keep = match filter {
            None => true,
            Some(f) => str_eq(members[i].name.as_str(), f),
        };
        if keep {
            out.push(WorkspaceMember { name: members[i].name.clone(), path: members[i].path.clone() });
            assert(members_view(out@) =~= before.push((members@[i as int].name@, members@[i as int].path@)));
        } else {
            assert(members_view(out@) =~= before);
        }
        proof {
            if filter is None {
                assert(mv.take(i + 1) =~= mv.take(i as int).push(mv[i as int]));
            }
        }
        i = i + 1;
    }
    assert(mv.take(members@.len() as int) =~= mv);
    out
}

/// The message when `--workspace` names no member of a workspace-only root.
pub open spec fn no_members_spec() -> Seq<char> {
    "No matching workspace members to build"@
}

/// The message when `--workspace` names no member of a workspace-only root.
pub fn no_members_message() -> (r: String)
    ensures
        r@ == no_members_spec(),
{
    String::from_str("No matching workspace members to build")
}

/// The members a workspace-only root builds: those `filter_members` selects,
/// refused when there are none.
pub fn select_members(members: &[WorkspaceMember], filter: Option<&str>) -> (r: Result<Vec<WorkspaceMember>, String>)
    ensures
        match r {
            Ok(v) => members_view(v@) == filtered_members(members_view(members@), crate::platform::opt_view(filter))
                && v@.len() > 0,
            Err(m) => filtered_members(members_view(members@), crate::platform::opt_view(filter)).len() == 0 && m@
                == no_members_spec(),
        },
{
    let v = filter_members(members, filter);
    if v.len() == 0 {
        assert(members_view(v@).len() == 0);
        return Err(String::from_str("No matching workspace members to build"));
    }
    Ok(v)
}

/// How the start of a target's build is reported: each of several targets by
/// its number, a single one as the start of the project.
#[derive(Debug, Clone, Copy, PartialEq, Eq, Structural)]
pub enum StartReport {
    TargetStart,
    ProjectStart,
}

/// The report at the start of a target, given how many targets are built.
pub fn start_report(total: usize) -> (r: StartReport)
    ensures
        r == (if total > 1 {
            StartReport::TargetStart
        } else {
            StartReport::ProjectStart
        }),
{
    if total > 1 {
        StartReport::TargetStart
    } else {
        StartReport::ProjectStart
    }
}

/// The name a target is reported by: the target, or `native` for the host.
pub fn target_label(target: Option<&str>) -> (r: &str)
    ensures
        r@ == match target {
            Some(t) => t@,
            None => "native"@,
        },
{
    match target {
        Some(t) => t,
        None => "native",
    }
}


// ---------------------------------------------------------------------------
// The order of a whole build: targets, workspace members and the root
// ---------------------------------------------------------------------------

/// What a whole build waits for.
#[derive(Debug, Clone, Copy, PartialEq, Eq, Structural)]
pub enum WsPhase {
    Start,
    Member,
    Root,
    Skipped,
    Archive,
    Done,
}

/// The state of a whole build: the targets (`targets` of them, the current
/// one `target`), the selected workspace members (`members`, the current one
/// `member`), whether the root package is built after them, whether the root
/// only lists members, and whether it has an `[archive]` section.
#[derive(Debug, Clone, Copy, PartialEq, Eq, Structural)]
pub struct WorkspaceBuild {
    pub phase: WsPhase,
    pub workspace_only: bool,
    pub targets: usize,
    pub target: usize,
    pub members: usize,
    pub member: usize,
    pub build_root: bool,
    pub has_archive: bool,
}

/// What the caller found or did.
#[derive(Debug, Clone, Copy, PartialEq, Eq, Structural)]
pub enum WorkspaceInput {
    Begin,
    /// The project asked for (a member or the root) is built, or the skipped
    /// target is passed.
    Built,
    Packed,
    Failed,
    Cancelled,
}

/// The work of a whole build.
#[derive(Debug, Clone, Copy, PartialEq, Eq, Structural)]
pub enum WsWork {
    /// Build the selected member with this index, for the current target.
    BuildMember(usize),
    /// Build the root package, the members' directories excluded.
    BuildRoot,
    /// Nothing to build for this target.
    Skip,
    PackArchive,
    /// Report `Finished` and succeed.
    Finish,
    /// Succeed without a report.
    Succeed,
    /// Stop with "No matching workspace members to build".
    NoMembers,
    Interrupt,
    Abort,
    Idle,
}

/// The answer: the target whose start is reported first (if one starts), then
/// the work.
#[derive(Debug, Clone, Copy, PartialEq, Eq, Structural)]
pub struct WorkspaceAction {
    pub start_target: Option<usize>,
    pub work: WsWork,
}

/// `s` in phase `p` for target `t`, asking for `work`.
pub open spec fn ws_go(s: WorkspaceBuild, p: WsPhase, t: usize, start: Option<usize>, work: WsWork) -> (
    WorkspaceBuild,
    WorkspaceAction,
) {
    (WorkspaceBuild { phase: p, target: t, ..s }, WorkspaceAction { start_target: start, work })
}

/// Starting target `t`: its start is reported, then the first selected
/// member is built, else the root, else nothing.
pub open spec fn enter_target(s: WorkspaceBuild, t: usize) -> (WorkspaceBuild, WorkspaceAction) {
    if s.members > 0 {
        ws_go(WorkspaceBuild { member: 0, ..s }, WsPhase::Member, t, Some(t), WsWork::BuildMember(0))
    } else if s.build_root {
        ws_go(s, WsPhase::Root, t, Some(t), WsWork::BuildRoot)
    } else {
        ws_go(s, WsPhase::Skipped, t, Some(t), WsWork::Skip)
    }
}

/// After the current target: a root that only lists members packs its image
/// (if any) and succeeds; otherwise the next target starts, or the build
/// reports `Finished`.
pub open spec fn after_target(s: WorkspaceBuild) -> (WorkspaceBuild, WorkspaceAction) {
    if s.workspace_only {
        if s.has_archive {
            ws_go(s, WsPhase::Archive, s.target, None, WsWork::PackArchive)
        } else {
            ws_go(s, WsPhase::Done, s.target, None, WsWork::Succeed)
        }
    } else if s.target + 1 < s.targets {
        enter_target(s, (s.target + 1) as usize)
    } else {
        ws_go(s, WsPhase::Done, s.target, None, WsWork::Finish)
    }
}

/// One step of a whole build. A root that only lists members builds each
/// selected member once (refused when none is selected), then packs its image;
/// otherwise each target in turn reports its start and builds the selected
/// members and then, unless one member was asked for, the root. A failure
/// stops the build; a cancellation interrupts it.
pub open spec fn workspace_step_spec(s: WorkspaceBuild, e: WorkspaceInput) -> (WorkspaceBuild, WorkspaceAction) {
    if s.phase == WsPhase::Done {
        ws_go(s, WsPhase::Done, s.target, None, WsWork::Idle)
    } else if e == WorkspaceInput::Cancelled {
        ws_go(s, WsPhase::Done, s.target, None, WsWork::Interrupt)
    } else if e == WorkspaceInput::Failed {
        ws_go(s, WsPhase::Done, s.target, None, WsWork::Abort)
    } else {
        match (s.phase, e) {
            (WsPhase::Start, WorkspaceInput::Begin) => if s.workspace_only {
                if s.members == 0 {
                    ws_go(s, WsPhase::Done, 0, None, WsWork::NoMembers)
                } else {
                    ws_go(WorkspaceBuild { member: 0, ..s }, WsPhase::Member, 0, None, WsWork::BuildMember(0))
                }
            } else if s.targets == 0 {
                ws_go(s, WsPhase::Done, 0, None, WsWork::Finish)
            } else {
                enter_target(s, 0)
            },
            (WsPhase::Member, WorkspaceInput::Built) => if s.member + 1 < s.members {
                ws_go(
                    WorkspaceBuild { member: (s.member + 1) as usize, ..s },
                    WsPhase::Member,
                    s.target,
                    None,
                    WsWork::BuildMember((s.member + 1) as usize),
                )
            } else if s.build_root && !s.workspace_only {
                ws_go(s, WsPhase::Root, s.target, None, WsWork::BuildRoot)
            } else {
                after_target(s)
            },
            (WsPhase::Root, WorkspaceInput::Built) => after_target(s),
            (WsPhase::Skipped, WorkspaceInput::Built) => after_target(s),
            (WsPhase::Archive, WorkspaceInput::Packed) => ws_go(s, WsPhase::Done, s.target, None, WsWork::Succeed),
            _ => ws_go(s, WsPhase::Done, s.target, None, WsWork::Abort),
        }
    }
}

/// The state a whole build starts in: `targets` targets, `members` selected
/// members, the root built after them when `build_root`.
pub fn workspace_start(workspace_only: bool, targets: usize, members: usize, build_root: bool, has_archive: bool) -> (r: WorkspaceBuild)
    ensures
        r == (WorkspaceBuild {
            phase: WsPhase::Start,
            workspace_only,
            targets,
            target: 0,
            members,
            member: 0,
            build_root,
            has_archive,
        }),
{
    WorkspaceBuild { phase: WsPhase::Start, workspace_only, targets, target: 0, members, member: 0, build_root, has_archive }
}

fn ws_go_exec(s: &WorkspaceBuild, p: WsPhase, t: usize, start: Option<usize>, work: WsWork) -> (r: (WorkspaceBuild, WorkspaceAction))
    ensures
        r == ws_go(*s, p, t, start, work),
{
    (WorkspaceBuild { phase: p, target: t, ..*s }, WorkspaceAction { start_target: start, work })
}

fn enter_target_exec(s: &WorkspaceBuild, t: usize) -> (r: (WorkspaceBuild, WorkspaceAction))
    ensures
        r == enter_target(*s, t),
{
    if s.members > 0 {
        let s1 = WorkspaceBuild { member: 0, ..*s };
        ws_go_exec(&s1, WsPhase::Member, t, Some(t), WsWork::BuildMember(0))
    } else if s.build_root {
        ws_go_exec(s, WsPhase::Root, t, Some(t), WsWork::BuildRoot)
    } else {
        ws_go_exec(s, WsPhase::Skipped, t, Some(t), WsWork::Skip)
    }
}

fn after_target_exec(s: &WorkspaceBuild) -> (r: (WorkspaceBuild, WorkspaceAction))
    ensures
        r == after_target(*s),
{
    if s.workspace_only {
        if s.has_archive {
            ws_go_exec(s, WsPhase::Archive, s.target, None, WsWork::PackArchive)
        } else {
            ws_go_exec(s, WsPhase::Done, s.target, None, WsWork::Succeed)
        }
    } else if s.targets > 0 && s.target < s.targets - 1 {
        enter_target_exec(s, s.target + 1)
    } else {
        ws_go_exec(s, WsPhase::Done, s.target, None, WsWork::Finish)
    }
}

/// One step of a whole build (see `workspace_step_spec`).
pub fn workspace_step(state: &WorkspaceBuild, event: &WorkspaceInput) -> (r: (WorkspaceBuild, WorkspaceAction))
    ensures
        r == workspace_step_spec(*state, *event),
{
    let s = state;
    if s.phase == WsPhase::Done {
        return ws_go_exec(s, WsPhase::Done, s.target, None, WsWork::Idle);
    }
    if *event == WorkspaceInput::Cancelled {
        return ws_go_exec(s, WsPhase::Done, s.target, None, WsWork::Interrupt);
    }
    if *event == WorkspaceInput::Failed {
        return ws_go_exec(s, WsPhase::Done, s.target, None, WsWork::Abort);
    }
    match (s.phase, *event) {
        (WsPhase::Start, WorkspaceInput::Begin) => {
            if s.workspace_only {
                if s.members == 0 {
                    ws_go_exec(s, WsPhase::Done, 0, None, WsWork::NoMembers)
                } else {
                    let s1 = WorkspaceBuild { member: 0, ..*s };
                    ws_go_exec(&s1, WsPhase::Member, 0, None, WsWork::BuildMember(0))
                }
            } else if s.targets == 0 {
                ws_go_exec(s, WsPhase::Done, 0, None, WsWork::Finish)
            } else {
                enter_target_exec(s, 0)
            }
        },
        (WsPhase::Member, WorkspaceInput::Built) => {
            if s.members > 0 && s.member < s.members - 1 {
                let s1 = WorkspaceBuild { member: s.member + 1, ..*s };
                ws_go_exec(&s1, WsPhase::Member, s.target, None, WsWork::BuildMember(s.member + 1))
            } else if s.build_root && !s.workspace_only {
                ws_go_exec(s, WsPhase::Root, s.target, None, WsWork::BuildRoot)
            } else {
                after_target_exec(s)
            }
        },
        (WsPhase::Root, WorkspaceInput::Built) => after_target_exec(s),
        (WsPhase::Skipped, WorkspaceInput::Built) => after_target_exec(s),
        (WsPhase::Archive, WorkspaceInput::Packed) => ws_go_exec(s, WsPhase::Done, s.target, None, WsWork::Succeed),
        _ => ws_go_exec(s, WsPhase::Done, s.target, None, WsWork::Abort),
    }
}

} // verus!
