use arch_repo_builder::publish::{
    artifact_links, latest_links, reset_views, updated_links, Link, ViewStep,
};
use arch_repo_builder::recipe::{fill_all_pkgdirs, Pkgbuild};

fn strings(items: &[&str]) -> Vec<String> {
    items.iter().map(|s| s.to_string()).collect()
}

fn recipes(names: &[&str]) -> Vec<Pkgbuild> {
    let mut all: Vec<Pkgbuild> = names
        .iter()
        .map(|n| Pkgbuild::new(n.to_string(), format!("https://h.x/{}", n)))
        .collect();
    fill_all_pkgdirs(&mut all);
    all
}

fn link(link: &str, target: &str) -> Link {
    Link { link: link.to_string(), target: target.to_string() }
}

#[test]
fn links_point_into_the_package_directory_beside_the_view() {
    let links = artifact_links("pkgs/updated", "foo-abc", &strings(&["foo-1-1.pkg.tar.zst", "foo.sig"]));
    assert_eq!(
        links,
        vec![
            link("pkgs/updated/foo-1-1.pkg.tar.zst", "../foo-abc/foo-1-1.pkg.tar.zst"),
            link("pkgs/updated/foo.sig", "../foo-abc/foo.sig"),
        ]
    );
    assert_eq!(artifact_links("pkgs/latest", "foo-abc", &Vec::new()), Vec::<Link>::new());
}

#[test]
fn finished_build_is_linked_into_updated() {
    let all = recipes(&["foo"]);
    let id = format!("foo-{}", "0".repeat(40));
    assert_eq!(
        updated_links(&all[0], &strings(&["a.pkg"])),
        vec![link("pkgs/updated/a.pkg", &format!("../{}/a.pkg", id))]
    );
}

#[test]
fn latest_holds_the_artifacts_of_every_recipe() {
    let all = recipes(&["a", "b"]);
    let zeros = "0".repeat(40);
    let listings = vec![strings(&["a.pkg"]), strings(&["b1.pkg", "b2.pkg"])];
    assert_eq!(
        latest_links(&all, &listings),
        vec![
            link("pkgs/latest/a.pkg", &format!("../a-{}/a.pkg", zeros)),
            link("pkgs/latest/b1.pkg", &format!("../b-{}/b1.pkg", zeros)),
            link("pkgs/latest/b2.pkg", &format!("../b-{}/b2.pkg", zeros)),
        ]
    );
}

#[test]
fn failed_recipe_is_absent_from_latest() {
    let all = recipes(&["bad", "good"]);
    let zeros = "0".repeat(40);
    let listings = vec![Vec::new(), strings(&["good.pkg"])];
    let links = latest_links(&all, &listings);
    assert_eq!(links, vec![link("pkgs/latest/good.pkg", &format!("../good-{}/good.pkg", zeros))]);
    assert!(links.iter().all(|l| !l.target.contains("bad-")));
}

#[test]
fn run_without_recipes_leaves_the_views_empty() {
    assert_eq!(latest_links(&Vec::new(), &Vec::new()), Vec::<Link>::new());
    assert_eq!(latest_links(&recipes(&["a"]), &Vec::new()), Vec::<Link>::new());
}

#[test]
fn views_are_removed_and_made_anew() {
    assert_eq!(
        reset_views(),
        vec![
            ViewStep::Remove("pkgs/updated".to_string()),
            ViewStep::Remove("pkgs/latest".to_string()),
            ViewStep::Create("pkgs/updated".to_string()),
            ViewStep::Create("pkgs/latest".to_string()),
        ]
    );
}
