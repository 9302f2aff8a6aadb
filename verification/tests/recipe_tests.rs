use arch_repo_builder::recipe::{
    dump_path, fill_all_pkgdirs, get_all_sources, Commit, Pkgbuild, Pkgver,
};
use arch_repo_builder::source::{
    after_verify, git_plan, hash_bytes, integrity_is_checked, meets_integrity, netfile_plan,
    parse_source_line, parse_sources, sources_from_lines, split_fields, unique_sources,
    CacheAction, Source, SourceKind,
};

fn commit_of(first: u8) -> Commit {
    let mut bytes = [0u8; 20];
    bytes[0] = first;
    bytes[19] = 0xEF;
    Commit::from_bytes(bytes)
}

fn source(kind: SourceKind, identity: &str, integrity: &str) -> Source {
    Source::new(kind, identity.to_string(), integrity.to_string())
}

#[test]
fn zero_commit_is_forty_zeros() {
    assert_eq!(Commit::zero().bytes, [0u8; 20]);
    assert_eq!(Commit::zero().to_hex(), "0".repeat(40));
}

#[test]
fn commit_hex_is_lower_case_two_digits_per_byte() {
    assert_eq!(commit_of(0xAB).to_hex(), format!("ab{}ef", "00".repeat(18)));
    assert_eq!(commit_of(0x09).to_hex(), format!("09{}ef", "00".repeat(18)));
}

#[test]
fn commit_hex_agrees_with_git2() {
    let mut bytes = [0u8; 20];
    for (i, b) in bytes.iter_mut().enumerate() {
        *b = (i as u8).wrapping_mul(13).wrapping_add(7);
    }
    let oid = git2::Oid::from_bytes(&bytes).unwrap();
    assert_eq!(Commit::from_bytes(bytes).to_hex(), oid.to_string());
    assert_eq!(Commit::zero().to_hex(), git2::Oid::zero().to_string());
}

#[test]
fn new_recipe_derives_its_paths_from_its_name() {
    let p = Pkgbuild::new("foo".to_string(), "https://example.invalid/foo.git".to_string());
    assert_eq!(p.name, "foo");
    assert_eq!(p.url, "https://example.invalid/foo.git");
    assert_eq!(p.build, "build/foo");
    assert_eq!(p.git, "sources/PKGBUILD/foo");
    assert_eq!(p.pkgid, "");
    assert_eq!(p.pkgdir, "pkgs");
    assert_eq!(p.commit, Commit::zero());
    assert_eq!(p.pkgver, Pkgver::Plain);
    assert!(!p.extract);
    assert!(p.sources.is_empty());
    assert_eq!(p.url(), "https://example.invalid/foo.git");
    assert_eq!(p.path(), Some("sources/PKGBUILD/foo"));
}

#[test]
fn static_recipe_pkg_id_is_name_and_commit() {
    let mut p = Pkgbuild::new("foo".to_string(), "u".to_string());
    p.commit = commit_of(0x12);
    assert_eq!(p.pkg_id(), format!("foo-12{}ef", "00".repeat(18)));
}

#[test]
fn dynamic_recipe_pkg_id_ends_with_the_version() {
    let mut p = Pkgbuild::new("bar".to_string(), "u".to_string());
    p.commit = commit_of(0x12);
    p.pkgver = Pkgver::Func { pkgver: "1.2.3".to_string() };
    assert_eq!(p.pkg_id(), format!("bar-12{}ef-1.2.3", "00".repeat(18)));
}

#[test]
fn pkg_id_is_the_same_in_two_runs() {
    let mut first = Pkgbuild::new("foo".to_string(), "https://a.invalid/foo".to_string());
    first.commit = commit_of(0x77);
    first.pkgver = Pkgver::Func { pkgver: "r5.abc".to_string() };
    let mut second = Pkgbuild::new("foo".to_string(), "https://mirror.invalid/foo".to_string());
    second.commit = commit_of(0x77);
    second.pkgver = Pkgver::Func { pkgver: "r5.abc".to_string() };
    second.extract = true;
    assert_eq!(first.pkg_id(), second.pkg_id());
    let mut one = vec![first];
    let mut two = vec![second];
    fill_all_pkgdirs(&mut one);
    fill_all_pkgdirs(&mut two);
    assert_eq!(one[0].pkgid, two[0].pkgid);
    assert_eq!(one[0].pkgdir, two[0].pkgdir);
}

#[test]
fn fill_all_pkgdirs_assigns_id_and_directory() {
    let mut a = Pkgbuild::new("a".to_string(), "u".to_string());
    a.commit = commit_of(0x01);
    let mut b = Pkgbuild::new("b".to_string(), "u".to_string());
    b.commit = commit_of(0x02);
    b.pkgver = Pkgver::Func { pkgver: "9".to_string() };
    let mut all = vec![a, b];
    fill_all_pkgdirs(&mut all);
    let id_a = format!("a-01{}ef", "00".repeat(18));
    let id_b = format!("b-02{}ef-9", "00".repeat(18));
    assert_eq!(all[0].pkgid, id_a);
    assert_eq!(all[0].pkgdir, format!("pkgs/{}", id_a));
    assert_eq!(all[1].pkgid, id_b);
    assert_eq!(all[1].pkgdir, format!("pkgs/{}", id_b));
    assert_eq!(all[0].name, "a");
    assert_eq!(all[1].build, "build/b");
    let mut none: Vec<Pkgbuild> = Vec::new();
    fill_all_pkgdirs(&mut none);
    assert!(none.is_empty());
}

#[test]
fn duplicate_recipe_is_equal() {
    let mut p = Pkgbuild::new("foo".to_string(), "u".to_string());
    p.sources.push(source(SourceKind::Git, "https://h/x.git", "sha"));
    p.pkgver = Pkgver::Func { pkgver: "1".to_string() };
    assert_eq!(p.duplicate(), p);
}

#[test]
fn dump_path_is_the_name_in_the_directory() {
    let p = Pkgbuild::new("foo".to_string(), "u".to_string());
    assert_eq!(dump_path("/tmp/run", &p), "/tmp/run/foo");
}

#[test]
fn unique_sources_keeps_first_occurrences_by_kind() {
    let all = vec![
        source(SourceKind::Netfile, "https://h/a.tar", "sha256:1"),
        source(SourceKind::Git, "https://h/r.git", "commit:1"),
        source(SourceKind::Netfile, "https://h/a.tar", "sha256:1"),
        source(SourceKind::Local, "fix.patch", ""),
        source(SourceKind::Netfile, "https://h/a.tar", "sha256:2"),
        source(SourceKind::Git, "https://h/r.git", "commit:1"),
        source(SourceKind::Local, "fix.patch", ""),
    ];
    let (netfile, git, local) = unique_sources(&all);
    assert_eq!(
        netfile,
        vec![
            source(SourceKind::Netfile, "https://h/a.tar", "sha256:1"),
            source(SourceKind::Netfile, "https://h/a.tar", "sha256:2"),
        ]
    );
    assert_eq!(git, vec![source(SourceKind::Git, "https://h/r.git", "commit:1")]);
    assert_eq!(local, vec![source(SourceKind::Local, "fix.patch", "")]);
}

#[test]
fn same_source_needs_kind_identity_and_integrity() {
    let a = source(SourceKind::Netfile, "x", "1");
    assert!(a.same(&source(SourceKind::Netfile, "x", "1")));
    assert!(!a.same(&source(SourceKind::Git, "x", "1")));
    assert!(!a.same(&source(SourceKind::Netfile, "y", "1")));
    assert!(!a.same(&source(SourceKind::Netfile, "x", "2")));
    assert_eq!(a.duplicate(), a);
}

#[test]
fn get_all_sources_deduplicates_across_recipes() {
    let mut a = Pkgbuild::new("a".to_string(), "u".to_string());
    a.sources.push(source(SourceKind::Git, "https://h/shared.git", "c"));
    a.sources.push(source(SourceKind::Netfile, "https://h/a.tar", "s"));
    let mut b = Pkgbuild::new("b".to_string(), "u".to_string());
    b.sources.push(source(SourceKind::Git, "https://h/shared.git", "c"));
    b.sources.push(source(SourceKind::Local, "b.patch", ""));
    let (netfile, git, local) = get_all_sources(&vec![a, b]);
    assert_eq!(netfile, vec![source(SourceKind::Netfile, "https://h/a.tar", "s")]);
    assert_eq!(git, vec![source(SourceKind::Git, "https://h/shared.git", "c")]);
    assert_eq!(local, vec![source(SourceKind::Local, "b.patch", "")]);
    let (n, g, l) = get_all_sources(&Vec::new());
    assert!(n.is_empty() && g.is_empty() && l.is_empty());
}

#[test]
fn absent_netfile_is_fetched() {
    assert_eq!(netfile_plan(false, false), CacheAction::Fetch);
    assert_eq!(netfile_plan(false, true), CacheAction::Fetch);
}

#[test]
fn present_netfile_is_checked_unless_checks_are_skipped() {
    assert_eq!(netfile_plan(true, false), CacheAction::Verify);
    assert_eq!(netfile_plan(true, true), CacheAction::Keep);
    assert_eq!(after_verify(true), CacheAction::Keep);
    assert_eq!(after_verify(false), CacheAction::Fetch);
}

#[test]
fn held_git_source_is_left_alone_where_present() {
    assert_eq!(git_plan(true, true), CacheAction::Keep);
    assert_eq!(git_plan(true, false), CacheAction::Fetch);
    assert_eq!(git_plan(false, true), CacheAction::Fetch);
    assert_eq!(git_plan(false, false), CacheAction::Fetch);
}

#[test]
fn package_directory_lies_under_the_output_root() {
    let mut p = Pkgbuild::new("foo".to_string(), "u".to_string());
    p.pkgdir = "elsewhere".to_string();
    let mut all = vec![p];
    fill_all_pkgdirs(&mut all);
    assert_eq!(all[0].pkgdir, format!("pkgs/foo-{}", "0".repeat(40)));
    fill_all_pkgdirs(&mut all);
    assert_eq!(all[0].pkgdir, format!("pkgs/foo-{}", "0".repeat(40)));
}

#[test]
fn fields_are_cut_at_tabulators() {
    assert_eq!(split_fields("a\tb\tc"), vec!["a", "b", "c"]);
    assert_eq!(split_fields(""), vec![""]);
    assert_eq!(split_fields("\t"), vec!["", ""]);
    assert_eq!(split_fields("a\t\tb\t"), vec!["a", "", "b", ""]);
    assert_eq!(split_fields("no tab"), vec!["no tab"]);
}

#[test]
fn source_line_gives_kind_identity_and_integrity() {
    assert_eq!(
        parse_source_line("netfile\thttps://h/a.tar\tabc"),
        Some(source(SourceKind::Netfile, "https://h/a.tar", "abc"))
    );
    assert_eq!(
        parse_source_line("git\thttps://h/r.git\tSKIP\textra"),
        Some(source(SourceKind::Git, "https://h/r.git", "SKIP"))
    );
    assert_eq!(parse_source_line("local\tfix.patch\t"), Some(source(SourceKind::Local, "fix.patch", "")));
    assert_eq!(parse_source_line("local\tfix.patch"), Some(source(SourceKind::Local, "fix.patch", "")));
    assert_eq!(parse_source_line("git"), Some(source(SourceKind::Git, "", "")));
}

#[test]
fn line_without_a_kind_declares_nothing() {
    assert_eq!(parse_source_line(""), None);
    assert_eq!(parse_source_line("svn\thttps://h/x\t"), None);
    assert_eq!(parse_source_line("Git\tx\t"), None);
    assert_eq!(parse_source_line(" git\tx\t"), None);
    assert_eq!(parse_source_line("\tgit\tx"), None);
}

#[test]
fn source_reader_output_gives_sources_in_order() {
    let stdout = b"netfile\thttps://h/a.tar\tabc\n\nbogus line\ngit\thttps://h/r.git\tSKIP\nlocal\tp.patch\t\n";
    let expected = vec![
        source(SourceKind::Netfile, "https://h/a.tar", "abc"),
        source(SourceKind::Git, "https://h/r.git", "SKIP"),
        source(SourceKind::Local, "p.patch", ""),
    ];
    assert_eq!(parse_sources(stdout), expected);
    assert_eq!(parse_sources(b""), Vec::new());
    let lines = vec!["git\tx\ty".to_string(), "nothing".to_string()];
    assert_eq!(sources_from_lines(&lines), vec![source(SourceKind::Git, "x", "y")]);
}

#[test]
fn hash_of_bytes_is_stable() {
    assert_eq!(hash_bytes(b""), 0xcbf29ce484222325);
    assert_eq!(hash_bytes(b"a"), 0xaf63dc4c8601ec8c);
    assert_eq!(hash_bytes(b"foobar"), 0x85944171f73967e8);
}

#[test]
fn cache_name_is_the_hash_of_the_identity() {
    let a = source(SourceKind::Netfile, "a", "x");
    assert_eq!(a.cache_name(), "12638187200555641996");
    assert_eq!(a.cache_path(), "sources/netfile/12638187200555641996");
    let g = source(SourceKind::Git, "foobar", "y");
    assert_eq!(g.cache_name(), "9625390261332436968");
    assert_eq!(g.cache_path(), "sources/git/9625390261332436968");
    let l = source(SourceKind::Local, "", "");
    assert_eq!(l.cache_path(), "sources/local/14695981039346656037");
    let other = source(SourceKind::Netfile, "a", "another integrity");
    assert_eq!(other.cache_name(), a.cache_name());
}

#[test]
fn empty_and_skip_ask_for_no_check() {
    assert!(!integrity_is_checked(""));
    assert!(!integrity_is_checked("SKIP"));
    assert!(integrity_is_checked("skip"));
    assert!(integrity_is_checked("abc123"));
    assert!(meets_integrity("", ""));
    assert!(meets_integrity("SKIP", "anything"));
}

#[test]
fn digest_must_begin_with_the_descriptor() {
    assert!(meets_integrity("abc123", "abc123  sources/netfile/7\n"));
    assert!(meets_integrity("abc123", "abc123"));
    assert!(!meets_integrity("abc123", "abc124  file\n"));
    assert!(!meets_integrity("abc123", "abc12"));
    assert!(!meets_integrity("abc123", ""));
    assert!(!meets_integrity("abc123", " abc123"));
}
