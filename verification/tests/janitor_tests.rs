use arch_repo_builder::janitor::{recipe_names, unused_entries, used_pkgdir_names};
use arch_repo_builder::manifest::{pkgbuilds_from_entries, restrict_entries};
use arch_repo_builder::recipe::{fill_all_pkgdirs, Pkgbuild};

fn strings(items: &[&str]) -> Vec<String> {
    items.iter().map(|s| s.to_string()).collect()
}

fn recipes(names: &[&str]) -> Vec<Pkgbuild> {
    let mut all: Vec<Pkgbuild> = names
        .iter()
        .map(|n| Pkgbuild::new(n.to_string(), format!("https://h.x/{}", n)))
        .collect();
    fill_all_pkgdirs(&mut all);
    all
}

#[test]
fn janitor_removes_what_is_not_in_use() {
    let entries = strings(&["a", "stale", "b", "old"]);
    let used = strings(&["b", "a", "c"]);
    assert_eq!(unused_entries(&entries, &used), strings(&["stale", "old"]));
}

#[test]
fn remaining_entries_are_those_in_use() {
    let entries = strings(&["a", "stale", "b", "old"]);
    let used = strings(&["b", "a", "c"]);
    let removed = unused_entries(&entries, &used);
    let remaining: Vec<String> = entries.iter().filter(|e| !removed.contains(e)).cloned().collect();
    let expected: Vec<String> = entries.iter().filter(|e| used.contains(e)).cloned().collect();
    assert_eq!(remaining, expected);
    assert_eq!(remaining, strings(&["a", "b"]));
}

#[test]
fn janitor_on_edge_inputs() {
    assert_eq!(unused_entries(&Vec::new(), &strings(&["a"])), Vec::<String>::new());
    assert_eq!(unused_entries(&strings(&["a", "b"]), &Vec::new()), strings(&["a", "b"]));
    assert_eq!(unused_entries(&strings(&["a"]), &strings(&["a"])), Vec::<String>::new());
}

#[test]
fn recipe_names_are_in_use_in_the_repository_cache() {
    assert_eq!(recipe_names(&recipes(&["x", "y"])), strings(&["x", "y"]));
    assert_eq!(recipe_names(&Vec::new()), Vec::<String>::new());
}

#[test]
fn output_root_keeps_packages_and_views() {
    let all = recipes(&["x", "a"]);
    let zeros = "0".repeat(40);
    let used = used_pkgdir_names(&all);
    assert_eq!(
        used,
        vec![format!("a-{}", zeros), "latest".to_string(), "updated".to_string(), format!("x-{}", zeros)]
    );
    let entries = vec![
        format!("x-{}", zeros),
        "updated".to_string(),
        "z-1111111111111111111111111111111111111111".to_string(),
        "latest".to_string(),
        format!("a-{}.temp", zeros),
    ];
    assert_eq!(
        unused_entries(&entries, &used),
        vec![
            "z-1111111111111111111111111111111111111111".to_string(),
            format!("a-{}.temp", zeros)
        ]
    );
}

#[test]
fn restricted_run_cleans_the_recipes_left_out() {
    let manifest = vec![
        ("x".to_string(), "https://h.x/x".to_string()),
        ("y".to_string(), "https://h.x/y".to_string()),
        ("z".to_string(), "https://h.x/z".to_string()),
    ];
    let only = strings(&["x", "y"]);
    let mut run = pkgbuilds_from_entries(&restrict_entries(&manifest, &only));
    fill_all_pkgdirs(&mut run);
    assert_eq!(recipe_names(&run), strings(&["x", "y"]));
    let cache = strings(&["x", "y", "z"]);
    assert_eq!(unused_entries(&cache, &recipe_names(&run)), strings(&["z"]));
    let zeros = "0".repeat(40);
    let root = vec![
        format!("x-{}", zeros),
        format!("y-{}", zeros),
        format!("z-{}", zeros),
        "updated".to_string(),
        "latest".to_string(),
    ];
    assert_eq!(unused_entries(&root, &used_pkgdir_names(&run)), vec![format!("z-{}", zeros)]);
}

#[test]
fn run_without_recipes_keeps_only_the_views() {
    let used = used_pkgdir_names(&Vec::new());
    assert_eq!(used, strings(&["latest", "updated"]));
}
