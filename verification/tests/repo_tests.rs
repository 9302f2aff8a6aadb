use arch_repo_builder::recipe::{Commit, Pkgbuild};
use arch_repo_builder::repo::{
    fetch_settings, fetch_step, head_targets, healthy_pkgbuild, healthy_pkgbuilds,
    open_or_init_step, origin_of, recipe_refspecs, refspecs, sync_needed, FetchSettings,
    FetchState, HealthProbe, Refspecs, RemoteHead, RepoAction, RepoState,
};

fn recipe(name: &str) -> Pkgbuild {
    Pkgbuild::new(name.to_string(), format!("https://h.x/{}", name))
}

fn tip(first: u8) -> Commit {
    let mut bytes = [0u8; 20];
    bytes[0] = first;
    Commit::from_bytes(bytes)
}

fn head(name: &str, target: Option<&str>) -> RemoteHead {
    RemoteHead { name: name.to_string(), symref_target: target.map(|t| t.to_string()) }
}

fn good(first: u8) -> HealthProbe {
    HealthProbe { opened: true, tip: Some(tip(first)), has_pkgbuild: true }
}

#[test]
fn recipe_repositories_fetch_master_only() {
    assert_eq!(
        refspecs(Refspecs::MasterOnly),
        vec!["+refs/heads/master:refs/heads/master".to_string()]
    );
    assert_eq!(refspecs(Refspecs::Everything), vec!["+refs/*:refs/*".to_string()]);
    assert_eq!(recipe_refspecs(), vec!["+refs/heads/master:refs/heads/master".to_string()]);
}

#[test]
fn new_repository_mirrors_origin() {
    let origin = origin_of("https://h.x/foo.git");
    assert_eq!(origin.name, "origin");
    assert_eq!(origin.url, "https://h.x/foo.git");
    assert_eq!(origin.refspec, "+refs/*:refs/*");
}

#[test]
fn opened_repository_is_ready() {
    assert_eq!(
        open_or_init_step(RepoState::Opening, true, false),
        (RepoState::Ready, RepoAction::Nothing)
    );
}

#[test]
fn missing_repository_is_made_and_registered() {
    assert_eq!(
        open_or_init_step(RepoState::Opening, false, true),
        (RepoState::Creating, RepoAction::InitBare)
    );
    assert_eq!(
        open_or_init_step(RepoState::Creating, true, false),
        (RepoState::Registering, RepoAction::AddOrigin)
    );
    assert_eq!(
        open_or_init_step(RepoState::Registering, true, false),
        (RepoState::Ready, RepoAction::Nothing)
    );
}

#[test]
fn failed_registration_removes_the_directory() {
    assert_eq!(
        open_or_init_step(RepoState::Registering, false, false),
        (RepoState::Failed, RepoAction::RemoveDirectory)
    );
}

#[test]
fn other_failures_are_reported() {
    assert_eq!(
        open_or_init_step(RepoState::Opening, false, false),
        (RepoState::Failed, RepoAction::Report)
    );
    assert_eq!(
        open_or_init_step(RepoState::Creating, false, true),
        (RepoState::Failed, RepoAction::Report)
    );
    assert_eq!(
        open_or_init_step(RepoState::Failed, true, true),
        (RepoState::Failed, RepoAction::Nothing)
    );
    assert_eq!(
        open_or_init_step(RepoState::Ready, false, true),
        (RepoState::Ready, RepoAction::Nothing)
    );
}

#[test]
fn fetch_downloads_tags_prunes_and_updates_fetch_head() {
    assert_eq!(
        fetch_settings(),
        FetchSettings { download_all_tags: true, prune: true, update_fetchhead: true }
    );
}

#[test]
fn failed_fetch_is_retried_once_through_the_proxy() {
    assert_eq!(fetch_step(FetchState::Direct, true, None), FetchState::Done);
    assert_eq!(fetch_step(FetchState::Direct, false, Some("http://p")), FetchState::ViaProxy);
    assert_eq!(fetch_step(FetchState::ViaProxy, true, Some("http://p")), FetchState::Done);
    assert_eq!(fetch_step(FetchState::ViaProxy, false, Some("http://p")), FetchState::Failed);
}

#[test]
fn failed_fetch_without_proxy_is_final() {
    assert_eq!(fetch_step(FetchState::Direct, false, None), FetchState::Failed);
    assert_eq!(fetch_step(FetchState::Failed, true, Some("p")), FetchState::Failed);
    assert_eq!(fetch_step(FetchState::Done, false, None), FetchState::Done);
}

#[test]
fn head_follows_the_symbolic_head_of_the_remote() {
    let heads = vec![
        head("HEAD", Some("refs/heads/master")),
        head("refs/heads/master", None),
        head("refs/heads/dev", Some("refs/heads/master")),
    ];
    assert_eq!(head_targets(&heads), vec!["refs/heads/master".to_string()]);
}

#[test]
fn detached_remote_head_sets_nothing() {
    assert_eq!(head_targets(&vec![head("HEAD", None), head("refs/heads/x", None)]), Vec::<String>::new());
    assert_eq!(head_targets(&Vec::new()), Vec::<String>::new());
    assert_eq!(
        head_targets(&vec![head("HEAD", Some("a")), head("HEAD", Some("b"))]),
        vec!["a".to_string(), "b".to_string()]
    );
}

#[test]
fn held_and_healthy_repositories_are_not_synced() {
    assert!(!sync_needed(true, true));
    assert!(sync_needed(true, false));
    assert!(sync_needed(false, true));
    assert!(sync_needed(false, false));
}

#[test]
fn healthy_repository_gives_its_tip() {
    let mut p = recipe("foo");
    assert!(healthy_pkgbuild(&mut p, &good(0xAA), true));
    assert_eq!(p.commit, tip(0xAA));
    assert_eq!(p.name, "foo");
}

#[test]
fn commit_is_kept_where_it_is_not_asked_for() {
    let mut p = recipe("foo");
    p.commit = tip(0x01);
    assert!(healthy_pkgbuild(&mut p, &good(0xAA), false));
    assert_eq!(p.commit, tip(0x01));
}

#[test]
fn repository_without_master_is_unhealthy_in_both_modes() {
    let mut p = recipe("foo");
    p.commit = tip(0x01);
    let no_tip = HealthProbe { opened: true, tip: None, has_pkgbuild: true };
    assert!(!healthy_pkgbuild(&mut p, &no_tip, false));
    assert_eq!(p.commit, tip(0x01));
    assert!(!healthy_pkgbuild(&mut p, &no_tip, true));
    assert_eq!(p.commit, tip(0x01));
}

#[test]
fn unhealthy_repositories_are_told() {
    let mut p = recipe("foo");
    let closed = HealthProbe { opened: false, tip: Some(tip(1)), has_pkgbuild: true };
    assert!(!healthy_pkgbuild(&mut p, &closed, true));
    assert_eq!(p.commit, Commit::zero());
    let no_master = HealthProbe { opened: true, tip: None, has_pkgbuild: true };
    assert!(!healthy_pkgbuild(&mut p, &no_master, true));
    assert_eq!(p.commit, Commit::zero());
    let no_blob = HealthProbe { opened: true, tip: Some(tip(2)), has_pkgbuild: false };
    assert!(!healthy_pkgbuild(&mut p, &no_blob, true));
    assert_eq!(p.commit, tip(2));
}

#[test]
fn health_check_stops_at_the_first_unhealthy_recipe() {
    let mut all = vec![recipe("a"), recipe("b"), recipe("c")];
    let bad = HealthProbe { opened: true, tip: Some(tip(2)), has_pkgbuild: false };
    assert!(!healthy_pkgbuilds(&mut all, &vec![good(1), bad, good(3)], true));
    assert_eq!(all[0].commit, tip(1));
    assert_eq!(all[1].commit, tip(2));
    assert_eq!(all[2].commit, Commit::zero());
}

#[test]
fn all_healthy_recipes_get_their_commits() {
    let mut all = vec![recipe("a"), recipe("b")];
    assert!(healthy_pkgbuilds(&mut all, &vec![good(1), good(2)], true));
    assert_eq!(all[0].commit, tip(1));
    assert_eq!(all[1].commit, tip(2));
    let mut none: Vec<Pkgbuild> = Vec::new();
    assert!(healthy_pkgbuilds(&mut none, &Vec::new(), true));
}

#[test]
fn recipe_without_probe_is_unhealthy() {
    let mut all = vec![recipe("a"), recipe("b")];
    assert!(!healthy_pkgbuilds(&mut all, &vec![good(1)], true));
    assert_eq!(all[0].commit, tip(1));
    assert_eq!(all[1].commit, Commit::zero());
}

#[test]
fn probe_is_healthy_when_all_is_found() {
    assert!(good(1).healthy());
    let no_tip = HealthProbe { opened: true, tip: None, has_pkgbuild: true };
    assert!(!no_tip.healthy());
    let closed = HealthProbe { opened: false, tip: Some(tip(1)), has_pkgbuild: true };
    assert!(!closed.healthy());
    let no_blob = HealthProbe { opened: true, tip: Some(tip(1)), has_pkgbuild: false };
    assert!(!no_blob.healthy());
}
