use arch_repo_builder::builder::{
    after_attempt, build_invocation, build_queue, extract_if_need_build, start_build,
    temp_pkgdir, BuildPrep, BuildState, DirState, Disk, Step, BUILD_WORKERS, CLEAN_WORKERS,
    EXTRACT_WORKERS, MAX_ATTEMPTS,
};
use arch_repo_builder::recipe::{fill_all_pkgdirs, Pkgbuild};

fn strings(items: &[&str]) -> Vec<String> {
    items.iter().map(|s| s.to_string()).collect()
}

fn recipe(name: &str) -> Pkgbuild {
    let mut all = vec![Pkgbuild::new(name.to_string(), format!("https://h.x/{}", name))];
    fill_all_pkgdirs(&mut all);
    all.pop().unwrap()
}

fn run_build(codes: &[Option<i32>], sign: bool, start: Disk) -> (BuildState, Disk, Vec<Step>, usize) {
    let (mut state, steps) = start_build();
    let mut disk = start.steps(&steps);
    let mut all_steps = steps;
    let mut runs = 0;
    for code in codes {
        if !matches!(state, BuildState::Attempt(_)) {
            break;
        }
        runs += 1;
        disk = disk.ran(*code);
        assert!(disk.output == DirState::Missing || disk.output == DirState::Complete);
        let (next, steps) = after_attempt(state, *code, sign);
        for step in steps.iter() {
            disk = disk.step(*step);
            assert!(disk.output == DirState::Missing || disk.output == DirState::Complete);
        }
        all_steps.extend(steps);
        state = next;
    }
    (state, disk, all_steps, runs)
}

#[test]
fn caps_are_three_five_and_twenty() {
    assert_eq!(MAX_ATTEMPTS, 3);
    assert_eq!(BUILD_WORKERS, 5);
    assert_eq!(EXTRACT_WORKERS, 20);
    assert_eq!(CLEAN_WORKERS, 30);
}

#[test]
fn temp_directory_is_the_package_directory_with_a_suffix() {
    let p = recipe("foo");
    assert_eq!(temp_pkgdir(&p), format!("pkgs/foo-{}.temp", "0".repeat(40)));
}

#[test]
fn plain_build_runs_the_build_tool_with_its_flags() {
    let p = recipe("foo");
    let call = build_invocation(&p, false, 1000, 1000, "/usr/bin:/bin", "/home/u", "/abs/pkgs/x.temp");
    assert_eq!(call.program, "/bin/bash");
    assert_eq!(
        call.args,
        strings(&["/usr/bin/makepkg", "--holdver", "--nodeps", "--noextract", "--ignorearch"])
    );
    assert_eq!(call.arg0, Some(format!("[BUILDER/foo-{}] /bin/bash", "0".repeat(40))));
    assert_eq!(call.cwd, Some("build/foo".to_string()));
    assert_eq!(
        call.env,
        vec![
            ("PATH".to_string(), "/usr/bin:/bin".to_string()),
            ("HOME".to_string(), "/home/u".to_string()),
            ("PKGDEST".to_string(), "/abs/pkgs/x.temp".to_string()),
        ]
    );
    assert!(!call.capture_stdout);
}

#[test]
fn build_without_network_enters_a_network_namespace() {
    let p = recipe("foo");
    let call = build_invocation(&p, true, 1000, 985, "/bin", "/root", "/abs/t");
    assert_eq!(call.program, "/usr/bin/unshare");
    assert_eq!(
        call.args,
        strings(&[
            "--map-root-user",
            "--net",
            "--",
            "sh",
            "-c",
            "ip link set dev lo up\nunshare --map-users=1000:0:1 --map-groups=985:0:1 -- makepkg --holdver --nodeps --noextract --ignorearch",
        ])
    );
    assert_eq!(call.arg0, Some(format!("[BUILDER/foo-{}] /bin/bash", "0".repeat(40))));
    assert_eq!(call.cwd, Some("build/foo".to_string()));
    assert_eq!(call.env[2], ("PKGDEST".to_string(), "/abs/t".to_string()));
}

#[test]
fn built_recipes_are_not_queued() {
    let mut all = vec![recipe("a"), recipe("b"), recipe("c"), recipe("d"), recipe("e")];
    all[1].extract = true;
    all[3].extract = true;
    let built = vec![true, true, false, false];
    let prep = extract_if_need_build(&mut all, &built);
    assert_eq!(prep, BuildPrep { clean: vec![1], extract: vec![2, 4] });
    let flags: Vec<bool> = all.iter().map(|p| p.extract).collect();
    assert_eq!(flags, vec![false, false, true, true, true]);
    assert_eq!(build_queue(&all), vec![2, 3, 4]);
}

#[test]
fn second_run_builds_nothing() {
    let mut all = vec![recipe("a"), recipe("b"), recipe("c")];
    all[0].extract = true;
    let ids: Vec<String> = all.iter().map(|p| p.pkgid.clone()).collect();
    let prep = extract_if_need_build(&mut all, &vec![true, true, true]);
    assert_eq!(prep.extract, Vec::<usize>::new());
    assert_eq!(prep.clean, vec![0]);
    assert_eq!(build_queue(&all), Vec::<usize>::new());
    let again: Vec<String> = vec![recipe("a"), recipe("b"), recipe("c")]
        .iter()
        .map(|p| p.pkgid.clone())
        .collect();
    assert_eq!(ids, again);
}

#[test]
fn no_recipes_means_no_builds() {
    let mut none: Vec<Pkgbuild> = Vec::new();
    let prep = extract_if_need_build(&mut none, &Vec::new());
    assert_eq!(prep, BuildPrep { clean: Vec::new(), extract: Vec::new() });
    assert_eq!(build_queue(&none), Vec::<usize>::new());
}

#[test]
fn a_build_starts_with_its_temporary_directory() {
    assert_eq!(start_build(), (BuildState::Attempt(1), vec![Step::MakeTemp]));
}

#[test]
fn success_publishes_by_rename() {
    assert_eq!(
        after_attempt(BuildState::Attempt(1), Some(0), false),
        (
            BuildState::Built,
            vec![Step::RemoveOutput, Step::Publish, Step::LinkUpdated, Step::RemoveScratch]
        )
    );
    assert_eq!(
        after_attempt(BuildState::Attempt(2), Some(0), true),
        (
            BuildState::Built,
            vec![
                Step::RemoveOutput,
                Step::Publish,
                Step::LinkUpdated,
                Step::Sign,
                Step::RemoveScratch
            ]
        )
    );
}

#[test]
fn failure_before_the_last_attempt_extracts_anew() {
    let retry = vec![
        Step::RemoveOutput,
        Step::RemoveTemp,
        Step::RemoveScratch,
        Step::ReExtract,
        Step::MakeTemp,
    ];
    assert_eq!(after_attempt(BuildState::Attempt(1), Some(1), false), (BuildState::Attempt(2), retry.clone()));
    assert_eq!(after_attempt(BuildState::Attempt(2), None, true), (BuildState::Attempt(3), retry));
}

#[test]
fn failure_of_the_last_attempt_gives_up() {
    assert_eq!(
        after_attempt(BuildState::Attempt(3), Some(2), false),
        (BuildState::Skipped, vec![Step::RemoveOutput, Step::RemoveTemp])
    );
}

#[test]
fn ended_builds_stay_ended() {
    assert_eq!(after_attempt(BuildState::Built, Some(1), false), (BuildState::Built, Vec::new()));
    assert_eq!(after_attempt(BuildState::Skipped, Some(0), true), (BuildState::Skipped, Vec::new()));
}

#[test]
fn build_that_fails_twice_then_succeeds_is_published() {
    let start = Disk { output: DirState::Missing, temp: DirState::Missing };
    let (state, disk, steps, runs) = run_build(&[Some(1), Some(2), Some(0)], false, start);
    assert_eq!(state, BuildState::Built);
    assert_eq!(runs, 3);
    assert_eq!(disk, Disk { output: DirState::Complete, temp: DirState::Missing });
    assert_eq!(steps.iter().filter(|s| **s == Step::ReExtract).count(), 2);
    assert_eq!(steps.iter().filter(|s| **s == Step::Publish).count(), 1);
    assert!(steps.contains(&Step::LinkUpdated));
}

#[test]
fn build_that_fails_three_times_leaves_nothing_behind() {
    let start = Disk { output: DirState::Missing, temp: DirState::Missing };
    let (state, disk, steps, runs) = run_build(&[Some(1), Some(1), Some(1), Some(0)], true, start);
    assert_eq!(state, BuildState::Skipped);
    assert_eq!(runs, 3);
    assert_eq!(disk, Disk { output: DirState::Missing, temp: DirState::Missing });
    assert!(!steps.contains(&Step::Publish));
    assert!(!steps.contains(&Step::LinkUpdated));
    assert!(!steps.contains(&Step::Sign));
}

#[test]
fn first_success_needs_one_attempt() {
    let start = Disk { output: DirState::Missing, temp: DirState::Missing };
    let (state, disk, steps, runs) = run_build(&[Some(0), Some(1)], false, start);
    assert_eq!(state, BuildState::Built);
    assert_eq!(runs, 1);
    assert_eq!(disk.output, DirState::Complete);
    assert!(!steps.contains(&Step::ReExtract));
}

#[test]
fn disk_steps_follow_the_model() {
    let disk = Disk { output: DirState::Complete, temp: DirState::Partial };
    assert_eq!(disk.step(Step::RemoveOutput).output, DirState::Missing);
    assert_eq!(disk.step(Step::RemoveTemp).temp, DirState::Missing);
    assert_eq!(disk.step(Step::Publish), disk);
    assert_eq!(disk.step(Step::MakeTemp), disk);
    assert_eq!(disk.step(Step::Sign), disk);
    let fresh = Disk { output: DirState::Missing, temp: DirState::Missing };
    assert_eq!(fresh.step(Step::MakeTemp).temp, DirState::Empty);
    assert_eq!(fresh.step(Step::Publish), fresh);
    assert_eq!(fresh.ran(Some(0)).temp, DirState::Complete);
    assert_eq!(fresh.ran(Some(3)).temp, DirState::Partial);
    assert_eq!(fresh.ran(None).temp, DirState::Partial);
    assert_eq!(
        fresh.ran(Some(0)).steps(&vec![Step::RemoveOutput, Step::Publish]),
        Disk { output: DirState::Complete, temp: DirState::Missing }
    );
}
