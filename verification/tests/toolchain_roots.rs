use language_cache::roots::cargo_registry_from;
use language_cache::{
    cargo_registry, find_root, go_mod_cache, probe_toolchain_path, CanonicalRoot, OsPath,
    RootPath, RootSearch, ToolchainRun,
};

fn path(text: &str) -> Option<OsPath> {
    Some(OsPath::from_text(text))
}

fn finished(success: bool, stdout: &[u8]) -> ToolchainRun {
    ToolchainRun::Finished {
        success,
        stdout: stdout.to_vec(),
    }
}

/// A root as the path that it spells.
fn spelled(root: Option<RootPath>) -> Option<OsPath> {
    root.map(|root| root.spelled_with_slashes())
}

fn known(search: RootSearch) -> Option<OsPath> {
    match search {
        RootSearch::Known(root) => spelled(root),
        RootSearch::Ask { .. } => panic!("the toolchain need not be asked"),
    }
}

#[test]
fn cargo_registry_follows_cargo_home() {
    let from_env = spelled(cargo_registry(Some("/tmp/cargo-home-fixture")));
    assert_eq!(
        from_env,
        path("/tmp/cargo-home-fixture/registry"),
        "$CARGO_HOME wins, and no subprocess is involved"
    );
    assert_eq!(
        spelled(cargo_registry(None)),
        dirs::home_dir()
            .map(|h| h.join(".cargo/registry"))
            .map(|p| OsPath::from_bytes(p.into_os_string().into_encoded_bytes())),
        "unset CARGO_HOME falls back to ~/.cargo, cargo's own default"
    );
}

#[test]
fn a_blank_cargo_home_counts_as_unset() {
    assert_eq!(
        spelled(cargo_registry(Some(" \t "))),
        spelled(cargo_registry(None))
    );
    assert_eq!(
        spelled(cargo_registry_from(Some(""), path("/home/u"))),
        path("/home/u/.cargo/registry")
    );
    assert!(cargo_registry_from(Some("\u{3000}"), None).is_none());
    assert!(cargo_registry_from(None, None).is_none());
}

#[test]
fn cargo_home_is_trimmed_and_wins_over_home() {
    assert_eq!(
        spelled(cargo_registry_from(Some(" /c/ \n"), path("/home/u"))),
        path("/c/registry")
    );
    assert_eq!(
        spelled(cargo_registry(Some("\u{a0}/c d\u{85}"))),
        path("/c d/registry")
    );
}

#[test]
fn a_registry_is_a_directory_and_names_below_it() {
    let root = cargo_registry(Some(" C:\\c ")).unwrap();
    assert_eq!(root.base, OsPath::from_text("C:\\c"));
    assert_eq!(root.below, ["registry"]);
    let root = cargo_registry_from(None, path("/home/u/")).unwrap();
    assert_eq!(root.base, OsPath::from_text("/home/u/"));
    assert_eq!(root.below, [".cargo", "registry"]);
}

#[test]
fn each_cache_has_its_own_root() {
    let run = finished(true, b"/m\n");
    assert_eq!(
        known(find_root(CanonicalRoot::GoModCache, None, Some(&run))),
        path("/m")
    );
    assert_eq!(
        known(find_root(CanonicalRoot::GoModCache, Some("/v"), None)),
        path("/v")
    );
    assert!(matches!(
        find_root(CanonicalRoot::GoModCache, None, None),
        RootSearch::Ask { program: "go", .. }
    ));
    assert_eq!(
        known(find_root(CanonicalRoot::CargoRegistry, Some("/v"), Some(&run))),
        path("/v/registry")
    );
    assert_eq!(
        known(find_root(CanonicalRoot::CargoRegistry, None, None)),
        spelled(cargo_registry(None))
    );
}

#[test]
fn gomodcache_wins_and_is_trimmed() {
    assert_eq!(known(go_mod_cache(Some(" /m\n"), None)), path("/m"));
    let run = finished(true, b"/other\n");
    assert_eq!(known(go_mod_cache(Some("/m"), Some(&run))), path("/m"));
}

#[test]
fn go_is_asked_where_no_variable_names_a_root() {
    for value in [None, Some(""), Some("  ")] {
        match go_mod_cache(value, None) {
            RootSearch::Ask { program, arguments } => {
                assert_eq!(program, "go");
                assert_eq!(arguments, ["env", "GOMODCACHE"]);
            }
            RootSearch::Known(_) => panic!("nothing is known yet"),
        }
    }
    let run = finished(true, b"/home/u/go/pkg/mod\n");
    assert_eq!(
        known(go_mod_cache(None, Some(&run))),
        path("/home/u/go/pkg/mod")
    );
    assert_eq!(known(go_mod_cache(None, Some(&ToolchainRun::NotStarted))), None);
}

#[test]
fn one_run_answers_for_good() {
    for run in [finished(true, b"/m\n"), finished(false, b"/m\n"), ToolchainRun::NotStarted] {
        let first = known(go_mod_cache(None, Some(&run)));
        assert_eq!(known(go_mod_cache(Some(" "), Some(&run))), first);
        assert_eq!(first, probe_toolchain_path(&run));
    }
}

#[test]
fn only_a_successful_run_with_output_names_a_path() {
    assert_eq!(probe_toolchain_path(&ToolchainRun::NotStarted), None);
    assert_eq!(probe_toolchain_path(&finished(false, b"/x\n")), None);
    assert_eq!(probe_toolchain_path(&finished(true, b" \r\n")), None);
    assert_eq!(probe_toolchain_path(&finished(true, b"")), None);
    assert_eq!(probe_toolchain_path(&finished(true, b"\t/x y \r\n")), path("/x y"));
    assert_eq!(
        probe_toolchain_path(&finished(true, &[0x2f, 0xff, 0x0a])),
        path("/\u{fffd}")
    );
}

#[test]
fn variables_have_their_names() {
    assert_eq!(CanonicalRoot::GoModCache.variable(), "GOMODCACHE");
    assert_eq!(CanonicalRoot::CargoRegistry.variable(), "CARGO_HOME");
}

#[test]
fn trimming_agrees_with_the_white_space_property() {
    // Every character is white space for the trimming exactly if it is for std.
    for c in '\u{0}'..='\u{ffff}' {
        let text = format!("{c}x{c}");
        let white = matches!(
            c,
            '\u{9}'..='\u{d}'
                | ' '
                | '\u{85}'
                | '\u{a0}'
                | '\u{1680}'
                | '\u{2000}'..='\u{200a}'
                | '\u{2028}'
                | '\u{2029}'
                | '\u{202f}'
                | '\u{205f}'
                | '\u{3000}'
        );
        let want = if white { "x" } else { text.as_str() };
        assert_eq!(known(go_mod_cache(Some(&text), None)), path(want));
    }
}
