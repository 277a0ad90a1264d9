use dcr::build::driver::{WorkspaceAction as A, WorkspaceInput as I, WsWork as W};
use dcr::build::driver::{
    build_step, filter_members, interrupted_message, select_members, start_report, start_state, target_label, BuildAction,
    BuildInput, BuildState, Phase, Report, StartReport, Work, WorkspaceMember,
};

const SU: BuildInput = BuildInput::SetUp { packages_library: false, has_archive: false };

fn run(mut state: BuildState, inputs: &[BuildInput]) -> Vec<BuildAction> {
    let mut actions = Vec::new();
    for input in inputs {
        let (next, action) = build_step(&state, input);
        state = next;
        actions.push(action);
    }
    actions
}

fn works(actions: &[BuildAction]) -> Vec<Work> {
    actions.iter().map(|a| a.work).collect()
}

#[test]
fn full_build_runs_in_order() {
    let s = start_state(false, false);
    let acts = run(
        s,
        &[
            BuildInput::Begin,
            BuildInput::SetUp { packages_library: true, has_archive: true },
            BuildInput::StepsNeedRun(true),
            BuildInput::StepsRan,
            BuildInput::Fingerprint { fresh: true },
            BuildInput::Compiled,
            BuildInput::FingerprintWritten,
            BuildInput::Packaged,
            BuildInput::PostStepsNeedRun(false),
            BuildInput::Verified,
            BuildInput::Packed,
            BuildInput::Begin,
        ],
    );
    assert_eq!(
        works(&acts),
        vec![
            Work::Setup,
            Work::CheckSteps,
            Work::CleanAndRunSteps,
            Work::Fingerprint,
            Work::Compile,
            Work::WriteFingerprint,
            Work::PackageLibrary,
            Work::CheckPostSteps,
            Work::VerifyExpectations,
            Work::PackArchive,
            Work::Succeed,
            Work::Idle,
        ]
    );
    assert_eq!(acts[4].report, Some(Report::Compiling));
    assert_eq!(acts[9].report, Some(Report::Packing));
}

#[test]
fn up_to_date_build_stops_after_fingerprint() {
    let acts = run(
        start_state(false, false),
        &[BuildInput::Begin, SU, BuildInput::StepsNeedRun(false), BuildInput::Fingerprint { fresh: true }],
    );
    assert_eq!(works(&acts), vec![Work::Setup, Work::CheckSteps, Work::Fingerprint, Work::Succeed]);
    let debug = run(
        start_state(false, true),
        &[BuildInput::Begin, SU, BuildInput::StepsNeedRun(false), BuildInput::Fingerprint { fresh: true }, BuildInput::PostStepsNeedRun(true), BuildInput::PostStepsRan, BuildInput::Verified],
    );
    assert_eq!(
        works(&debug),
        vec![Work::Setup, Work::CheckSteps, Work::Fingerprint, Work::CheckPostSteps, Work::RunPostSteps, Work::VerifyExpectations, Work::Succeed]
    );
}

#[test]
fn forced_build_runs_steps_and_compiles() {
    let acts = run(
        start_state(true, false),
        &[BuildInput::Begin, SU, BuildInput::StepsNeedRun(false), BuildInput::StepsRan, BuildInput::Fingerprint { fresh: true }, BuildInput::Compiled, BuildInput::FingerprintWritten, BuildInput::PostStepsNeedRun(false)],
    );
    assert_eq!(
        works(&acts),
        vec![Work::Setup, Work::CheckSteps, Work::CleanAndRunSteps, Work::Fingerprint, Work::Compile, Work::WriteFingerprint, Work::CheckPostSteps, Work::RunPostSteps]
    );
}

#[test]
fn cancellation_and_failure_end_the_build() {
    let acts = run(start_state(false, false), &[BuildInput::Begin, SU, BuildInput::StepsNeedRun(true), BuildInput::Cancelled, BuildInput::Begin]);
    assert_eq!(works(&acts), vec![Work::Setup, Work::CheckSteps, Work::CleanAndRunSteps, Work::Interrupt, Work::Idle]);
    assert_eq!(interrupted_message(), "Build interrupted");
    let failed = run(start_state(false, false), &[BuildInput::Begin, BuildInput::Failed]);
    assert_eq!(works(&failed), vec![Work::Setup, Work::Abort]);
    let at_entry = run(start_state(false, false), &[BuildInput::Cancelled]);
    assert_eq!(at_entry, vec![BuildAction { report: None, work: Work::Interrupt }]);
    let wrong = run(start_state(false, false), &[BuildInput::Compiled]);
    assert_eq!(works(&wrong), vec![Work::Abort]);
    let (s, _) = build_step(&start_state(false, false), &BuildInput::Cancelled);
    assert_eq!(s.phase, Phase::Done);
}

fn member(name: &str) -> WorkspaceMember {
    WorkspaceMember { name: name.to_string(), path: format!("/ws/{name}") }
}

#[test]
fn workspace_members_and_start_reports() {
    let ms = vec![member("core"), member("app"), member("core")];
    assert_eq!(filter_members(&ms, None).len(), 3);
    let core = filter_members(&ms, Some("core"));
    assert_eq!(core.iter().map(|m| m.path.as_str()).collect::<Vec<_>>(), vec!["/ws/core", "/ws/core"]);
    assert_eq!(select_members(&ms, Some("app")).unwrap()[0].path, "/ws/app");
    assert_eq!(select_members(&ms, Some("gui")).unwrap_err(), "No matching workspace members to build");
    assert_eq!(select_members(&[], None).unwrap_err(), "No matching workspace members to build");
    assert_eq!(start_report(3), StartReport::TargetStart);
    assert_eq!(start_report(1), StartReport::ProjectStart);
    assert_eq!(target_label(None), "native");
    assert_eq!(target_label(Some("aarch64-linux")), "aarch64-linux");
}

fn ws_run(workspace_only: bool, targets: usize, members: usize, build_root: bool, archive: bool, inputs: &[dcr::build::driver::WorkspaceInput]) -> Vec<dcr::build::driver::WorkspaceAction> {
    let mut s = dcr::build::driver::workspace_start(workspace_only, targets, members, build_root, archive);
    let mut out = Vec::new();
    for e in inputs {
        let (n, a) = dcr::build::driver::workspace_step(&s, e);
        s = n;
        out.push(a);
    }
    out
}

#[test]
fn workspace_build_order() {
    let acts = ws_run(false, 2, 2, true, false, &[I::Begin, I::Built, I::Built, I::Built, I::Built, I::Built, I::Built]);
    assert_eq!(
        acts,
        vec![
            A { start_target: Some(0), work: W::BuildMember(0) },
            A { start_target: None, work: W::BuildMember(1) },
            A { start_target: None, work: W::BuildRoot },
            A { start_target: Some(1), work: W::BuildMember(0) },
            A { start_target: None, work: W::BuildMember(1) },
            A { start_target: None, work: W::BuildRoot },
            A { start_target: None, work: W::Finish },
        ]
    );
    let only = ws_run(true, 1, 2, false, true, &[I::Begin, I::Built, I::Built, I::Packed]);
    assert_eq!(only.iter().map(|a| a.work).collect::<Vec<_>>(), vec![W::BuildMember(0), W::BuildMember(1), W::PackArchive, W::Succeed]);
    assert!(only.iter().all(|a| a.start_target.is_none()));
    let none = ws_run(true, 1, 0, false, false, &[I::Begin]);
    assert_eq!(none[0].work, W::NoMembers);
    assert_eq!(dcr::build::driver::no_members_message(), "No matching workspace members to build");
    let plain = ws_run(false, 1, 0, true, false, &[I::Begin, I::Built]);
    assert_eq!(plain.iter().map(|a| a.work).collect::<Vec<_>>(), vec![W::BuildRoot, W::Finish]);
    let filtered_out = ws_run(false, 1, 0, false, false, &[I::Begin, I::Built]);
    assert_eq!(filtered_out.iter().map(|a| a.work).collect::<Vec<_>>(), vec![W::Skip, W::Finish]);
    let stopped = ws_run(false, 2, 1, true, false, &[I::Begin, I::Failed, I::Begin]);
    assert_eq!(stopped.iter().map(|a| a.work).collect::<Vec<_>>(), vec![W::BuildMember(0), W::Abort, W::Idle]);
    let cancelled = ws_run(false, 2, 1, true, false, &[I::Cancelled]);
    assert_eq!(cancelled[0], A { start_target: None, work: W::Interrupt });
}
