use arch_repo_builder::deps::{
    collect_deps, depends_reader, drop_installed, installer, judge_install, judge_query,
    missing_query, read_atoms, read_query_answer, DepError,
};

fn strings(items: &[&str]) -> Vec<String> {
    items.iter().map(|s| s.to_string()).collect()
}

#[test]
fn depends_reader_runs_the_script_on_the_recipe_file() {
    let call = depends_reader("echo deps", "/tmp/run/foo");
    assert_eq!(call.program, "/bin/bash");
    assert_eq!(call.arg0, None);
    assert_eq!(call.args, strings(&["-ec", "echo deps", "Depends reader", "/tmp/run/foo"]));
    assert_eq!(call.cwd, None);
    assert!(call.env.is_empty());
    assert!(call.capture_stdout);
}

#[test]
fn read_atoms_keeps_order_and_repeats() {
    let outputs = vec![b"gcc\nmake\n".to_vec(), b"".to_vec(), b"\ncmake\ngcc".to_vec()];
    assert_eq!(read_atoms(&outputs), strings(&["gcc", "make", "cmake", "gcc"]));
}

#[test]
fn collect_deps_sorts_and_deduplicates() {
    let outputs = vec![b"gcc\nmake\n".to_vec(), b"\ncmake\ngcc".to_vec()];
    assert_eq!(collect_deps(&outputs), strings(&["cmake", "gcc", "make"]));
    assert_eq!(collect_deps(&Vec::new()), Vec::<String>::new());
    assert_eq!(collect_deps(&vec![b"\n\n".to_vec()]), Vec::<String>::new());
}

#[test]
fn base_packages_count_as_installed() {
    let deps = strings(&["base-devel", "cmake", "gcc"]);
    assert_eq!(drop_installed(&deps, &strings(&["base-devel"])), strings(&["cmake", "gcc"]));
    assert_eq!(drop_installed(&deps, &Vec::new()), deps);
}

#[test]
fn no_dependency_means_no_query() {
    assert_eq!(missing_query(&Vec::new()), None);
}

#[test]
fn missing_query_asks_for_all_dependencies() {
    let call = missing_query(&strings(&["cmake", "gcc"])).unwrap();
    assert_eq!(call.program, "/usr/bin/pacman");
    assert_eq!(call.args, strings(&["-T", "cmake", "gcc"]));
    assert!(call.capture_stdout);
    assert_eq!(call.arg0, None);
    assert_eq!(call.cwd, None);
    assert!(call.env.is_empty());
}

#[test]
fn exit_zero_means_all_present() {
    assert_eq!(read_query_answer(Some(0), b"ignored\n"), Ok(Vec::new()));
}

#[test]
fn exit_127_lists_the_missing() {
    assert_eq!(read_query_answer(Some(127), b"cmake\n\ngcc\n"), Ok(strings(&["cmake", "gcc"])));
    assert_eq!(read_query_answer(Some(127), b""), Ok(Vec::new()));
}

#[test]
fn any_other_exit_is_fatal() {
    assert_eq!(read_query_answer(Some(1), b"cmake\n"), Err(DepError::UnexpectedCode(1)));
    assert_eq!(read_query_answer(Some(-1), b""), Err(DepError::UnexpectedCode(-1)));
    assert_eq!(read_query_answer(None, b""), Err(DepError::NoExitCode));
    assert_eq!(judge_query(Some(126), strings(&["x"])), Err(DepError::UnexpectedCode(126)));
}

#[test]
fn installer_runs_the_package_manager_under_sudo() {
    let call = installer(&strings(&["cmake", "gcc"])).unwrap();
    assert_eq!(call.program, "/usr/bin/sudo");
    assert_eq!(call.args, strings(&["/usr/bin/pacman", "-S", "--noconfirm", "cmake", "gcc"]));
    assert!(!call.capture_stdout);
    assert_eq!(installer(&Vec::new()), None);
}

#[test]
fn installer_must_end_with_success() {
    assert_eq!(judge_install(Some(0)), Ok(()));
    assert_eq!(judge_install(Some(1)), Err(DepError::InstallFailed));
    assert_eq!(judge_install(None), Err(DepError::InstallFailed));
}
