use arch_repo_builder::pipeline::{
    duties, first_stage, next_stage, severity, Duties, ErrorKind, Severity, Stage, Switches,
};

fn stages(switches: Switches, healthy_first: bool, healthy_after: bool) -> (Vec<Stage>, Option<ErrorKind>) {
    let mut seen = vec![first_stage(switches)];
    loop {
        let stage = *seen.last().unwrap();
        if stage == Stage::Finished {
            return (seen, None);
        }
        let healthy = if stage == Stage::ProbeHealth { healthy_first } else { healthy_after };
        match next_stage(stage, switches, healthy) {
            Ok(next) => seen.push(next),
            Err(kind) => return (seen, Some(kind)),
        }
    }
}

#[test]
fn stages_follow_the_order_of_the_run() {
    let switches = Switches { holdpkg: false, nobuild: false, noclean: false };
    assert_eq!(
        stages(switches, true, true),
        (
            vec![
                Stage::Sync,
                Stage::CheckHealth,
                Stage::Dump,
                Stage::Deps,
                Stage::Sources,
                Stage::Versions,
                Stage::PkgIds,
                Stage::BuildDecide,
                Stage::Build,
                Stage::Publish,
                Stage::Clean,
                Stage::Finished,
            ],
            None
        )
    );
}

#[test]
fn held_healthy_recipes_are_not_synced() {
    let switches = Switches { holdpkg: true, nobuild: false, noclean: false };
    let (seen, error) = stages(switches, true, true);
    assert_eq!(error, None);
    assert_eq!(seen[0], Stage::ProbeHealth);
    assert_eq!(seen[1], Stage::Dump);
    assert!(!seen.contains(&Stage::Sync));
    assert!(!seen.contains(&Stage::CheckHealth));
}

#[test]
fn held_unhealthy_recipes_are_synced_anyway() {
    let switches = Switches { holdpkg: true, nobuild: false, noclean: false };
    let (seen, error) = stages(switches, false, true);
    assert_eq!(error, None);
    assert_eq!(&seen[..4], &[Stage::ProbeHealth, Stage::Sync, Stage::CheckHealth, Stage::Dump]);
}

#[test]
fn recipes_broken_by_the_sync_end_the_run() {
    let switches = Switches { holdpkg: false, nobuild: false, noclean: false };
    assert_eq!(stages(switches, true, false), (vec![Stage::Sync, Stage::CheckHealth], Some(ErrorKind::Health)));
}

#[test]
fn nobuild_skips_the_builds_but_not_views_and_janitor() {
    let switches = Switches { holdpkg: false, nobuild: true, noclean: false };
    let (seen, error) = stages(switches, true, true);
    assert_eq!(error, None);
    assert_eq!(
        &seen[seen.len() - 4..],
        &[Stage::BuildDecide, Stage::Publish, Stage::Clean, Stage::Finished]
    );
    assert!(!seen.contains(&Stage::Build));
    assert_eq!(next_stage(Stage::BuildDecide, switches, true), Ok(Stage::Publish));
}

#[test]
fn nobuild_and_noclean_end_after_the_views() {
    let switches = Switches { holdpkg: false, nobuild: true, noclean: true };
    let (seen, error) = stages(switches, true, true);
    assert_eq!(error, None);
    assert_eq!(&seen[seen.len() - 3..], &[Stage::BuildDecide, Stage::Publish, Stage::Finished]);
    assert!(!seen.contains(&Stage::Build));
    assert!(!seen.contains(&Stage::Clean));
}

#[test]
fn noclean_leaves_the_janitor_out() {
    let switches = Switches { holdpkg: false, nobuild: false, noclean: true };
    let (seen, error) = stages(switches, true, true);
    assert_eq!(error, None);
    assert_eq!(&seen[seen.len() - 2..], &[Stage::Publish, Stage::Finished]);
    assert!(!seen.contains(&Stage::Clean));
}

#[test]
fn finished_run_stays_finished() {
    let switches = Switches { holdpkg: true, nobuild: true, noclean: true };
    assert_eq!(next_stage(Stage::Finished, switches, false), Ok(Stage::Finished));
}

#[test]
fn build_and_janitor_failures_do_not_end_the_run() {
    assert_eq!(severity(ErrorKind::Build), Severity::SkipsRecipe);
    assert_eq!(severity(ErrorKind::Publish), Severity::SkipsRecipe);
    assert_eq!(severity(ErrorKind::Janitor), Severity::Logged);
    for kind in [
        ErrorKind::Config,
        ErrorKind::Identity,
        ErrorKind::Fetch,
        ErrorKind::Health,
        ErrorKind::Source,
        ErrorKind::Dep,
    ] {
        assert_eq!(severity(kind), Severity::Fatal);
    }
}

fn due_in_run(switches: Switches, healthy_first: bool) -> (usize, usize, usize, usize) {
    let (seen, _) = stages(switches, healthy_first, true);
    let mut counts = (0, 0, 0, 0);
    for stage in seen {
        let due = duties(stage, switches);
        counts.0 += due.sweep_recipe_cache as usize;
        counts.1 += due.sweep_source_caches as usize;
        counts.2 += due.sweep_output_root as usize;
        counts.3 += due.reset_views as usize;
    }
    counts
}

#[test]
fn every_sweep_is_due_once_unless_noclean() {
    for holdpkg in [false, true] {
        for nobuild in [false, true] {
            for healthy in [false, true] {
                let clean = Switches { holdpkg, nobuild, noclean: false };
                assert_eq!(due_in_run(clean, healthy), (1, 1, 1, 1));
                let keep = Switches { holdpkg, nobuild, noclean: true };
                assert_eq!(due_in_run(keep, healthy), (0, 0, 0, 1));
            }
        }
    }
}

#[test]
fn held_healthy_repositories_are_swept_too() {
    let switches = Switches { holdpkg: true, nobuild: false, noclean: false };
    let none = Duties {
        sweep_recipe_cache: false,
        sweep_source_caches: false,
        sweep_output_root: false,
        reset_views: false,
    };
    assert_eq!(duties(Stage::ProbeHealth, switches), Duties { sweep_recipe_cache: true, ..none });
    assert_eq!(duties(Stage::Sync, switches), none);
    let synced = Switches { holdpkg: false, nobuild: false, noclean: false };
    assert_eq!(duties(Stage::Sync, synced), Duties { sweep_recipe_cache: true, ..none });
    assert_eq!(duties(Stage::Versions, synced), Duties { sweep_source_caches: true, ..none });
    assert_eq!(duties(Stage::Clean, synced), Duties { sweep_output_root: true, ..none });
    assert_eq!(duties(Stage::Dump, synced), none);
}

#[test]
fn views_are_made_anew_before_anything_is_linked() {
    let build = Switches { holdpkg: false, nobuild: false, noclean: false };
    assert!(duties(Stage::Build, build).reset_views);
    assert!(!duties(Stage::Publish, build).reset_views);
    let nobuild = Switches { holdpkg: false, nobuild: true, noclean: false };
    assert!(duties(Stage::Publish, nobuild).reset_views);
    assert!(!duties(Stage::BuildDecide, nobuild).reset_views);
}
