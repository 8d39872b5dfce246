use language_cache::patterns::{detect_in_text, hint_in_text, language_cache_patterns};
use language_cache::{detect_language_cache, detected_cache_hint, CanonicalRoot, OsPath};

#[test]
fn detected_cache_hint_recognizes_go_cargo_python() {
    let go = detected_cache_hint(&OsPath::from_text(
        "/Users/x/go/pkg/mod/github.com/foo/bar/main.go",
    ));
    assert!(go.is_some(), "Go module cache should be detected");
    assert!(go.unwrap().contains("Go module cache"));

    let cargo = detected_cache_hint(&OsPath::from_text(
        "/home/x/.cargo/registry/src/crates.io/serde-1.0/lib.rs",
    ));
    assert!(cargo.is_some(), "Rust cargo registry should be detected");
    assert!(cargo.unwrap().contains("Rust crate registry"));

    let py = detected_cache_hint(&OsPath::from_text(
        "/usr/lib/python3.12/site-packages/requests/api.py",
    ));
    assert!(py.is_some(), "Python site-packages should be detected");

    let normal = detected_cache_hint(&OsPath::from_text("/home/x/projects/myapp/src/main.rs"));
    assert!(normal.is_none(), "Normal project path should not match");
}

#[test]
fn detect_cache_root_extracts_marker_dir() {
    // (path, label, root that the path spells, has a canonical root)
    let cases = [
        (
            "/Users/x/go/pkg/mod/github.com/foo/bar@v1.2.3/baz.go",
            "Go module cache",
            "/Users/x/go/pkg/mod",
            true,
        ),
        (
            "/home/u/.cargo/registry/src/index-abc/serde-1.0/src/lib.rs",
            "Rust crate registry",
            "/home/u/.cargo/registry",
            true,
        ),
        (
            "/opt/venv/lib/python3.12/site-packages/requests/api.py",
            "Python site-packages",
            "/opt/venv/lib/python3.12/site-packages",
            false,
        ),
        (
            "/w/app/node_modules/react/index.js",
            "Node modules",
            "/w/app/node_modules",
            false,
        ),
    ];
    for (path, want_label, want_root, want_resolver) in cases {
        let cache = detect_language_cache(&OsPath::from_text(path))
            .unwrap_or_else(|| panic!("expected cache match for {path}"));
        assert_eq!(cache.label, want_label, "label for {path}");
        assert_eq!(cache.root, OsPath::from_text(want_root), "root for {path}");
        assert_eq!(
            cache.resolver.is_some(),
            want_resolver,
            "canonical root for {path}"
        );
    }
    assert!(
        detect_language_cache(&OsPath::from_text("/home/u/proj/src/main.rs")).is_none(),
        "a normal project path is not a cache"
    );
}

#[test]
fn hint_is_exact() {
    assert_eq!(
        hint_in_text("/home/u/.gradle/caches/modules-2/a.jar"),
        Some(
            ". Detected Gradle cache — add read_only_roots = [\"~/.gradle/caches\"] to \
             ~/.config/lean-ctx/config.toml for cached, compressed reads without write access"
                .to_string()
        )
    );
}

#[test]
fn every_kind_is_detected_by_its_marker() {
    let want = [
        ("Go module cache", "~/go/pkg/mod", Some(CanonicalRoot::GoModCache)),
        ("Rust crate registry", "~/.cargo/registry", Some(CanonicalRoot::CargoRegistry)),
        ("Python site-packages", "<venv>/lib/pythonX.Y/site-packages", None),
        ("Node modules", "<project>/node_modules", None),
        ("Maven local repository", "~/.m2/repository", None),
        ("Gradle cache", "~/.gradle/caches", None),
        ("NuGet package cache", "~/.nuget/packages", None),
    ];
    for (pattern, (label, example, resolver)) in language_cache_patterns().iter().zip(want) {
        assert_eq!(pattern.label, label);
        assert_eq!(pattern.example, example);
        assert_eq!(pattern.resolver, resolver);
        let path = format!("/base{}file", pattern.marker);
        let cache = detect_in_text(&path).unwrap();
        assert_eq!(cache.label, label);
        assert_eq!(cache.resolver, resolver);
        let root = format!("/base{}", &pattern.marker[..pattern.marker.len() - 1]);
        assert_eq!(cache.root, OsPath::from_text(&root));
    }
}

#[test]
fn a_marker_needs_both_slashes() {
    assert!(detect_in_text("/home/u/go/pkg/mod").is_none());
    assert!(detect_in_text("go/pkg/mod/x.go").is_none());
    assert!(detect_in_text("/home/u/my_node_modules/x.js").is_none());
    assert!(detect_in_text("").is_none());
    assert!(hint_in_text("/node_modules").is_none());
    assert_eq!(
        detect_in_text("/go/pkg/mod/").unwrap().root,
        OsPath::from_text("/go/pkg/mod")
    );
}

#[test]
fn the_earlier_kind_wins_and_the_leftmost_marker_counts() {
    let cache = detect_in_text("/w/node_modules/a/site-packages/b/node_modules/c.js").unwrap();
    assert_eq!(cache.label, "Python site-packages");
    assert_eq!(
        cache.root,
        OsPath::from_text("/w/node_modules/a/site-packages")
    );
    let cache = detect_in_text("/w/node_modules/a/node_modules/c.js").unwrap();
    assert_eq!(cache.root, OsPath::from_text("/w/node_modules"));
}

#[test]
fn backslashes_count_as_slashes() {
    let path = "C:\\Users\\x\\go\\pkg\\mod\\a\\b.go";
    let cache = detect_in_text(path).unwrap();
    assert_eq!(cache.label, "Go module cache");
    assert_eq!(cache.root, OsPath::from_text("C:/Users/x/go/pkg/mod"));
    let hint = detected_cache_hint(&OsPath::from_text(path));
    assert!(hint.is_some());
    assert!(hint.unwrap().contains("Go module cache"));
}

#[test]
fn hint_and_detection_agree() {
    for text in [
        "/a/go/pkg/mod/b",
        "/a/.m2/repository/b",
        "/a/.nuget/packages/b",
        "/a/b",
        "/é/node_modules/ü.js",
        "C:\\a\\.cargo\\registry\\b",
        "C:\\node_modules/site-packages\\b",
        "C:\\a\\b",
    ] {
        let hint = hint_in_text(text);
        let cache = detect_in_text(text);
        assert_eq!(hint.is_some(), cache.is_some());
        if let (Some(hint), Some(cache)) = (hint, cache) {
            assert!(hint.contains(cache.label));
        }
    }
}

#[test]
fn text_beyond_ascii_keeps_its_characters() {
    let cache = detect_in_text("/home/jürgen/日本/node_modules/x.js").unwrap();
    assert_eq!(
        cache.root,
        OsPath::from_text("/home/jürgen/日本/node_modules")
    );
}

#[test]
fn bytes_that_are_not_text_are_replaced() {
    let mut bytes = b"/w/".to_vec();
    bytes.push(0xff);
    bytes.extend_from_slice(b"/node_modules/x.js");
    let path = OsPath::from_bytes(bytes);
    assert_eq!(path.to_string_lossy(), "/w/\u{fffd}/node_modules/x.js");
    let cache = detect_language_cache(&path).unwrap();
    assert_eq!(
        cache.root,
        OsPath::from_text("/w/\u{fffd}/node_modules")
    );
}

#[test]
fn a_path_lies_under_the_root_it_spells() {
    for text in [
        "/go/pkg/mod/x",
        "rel/node_modules/./x.js",
        "//a/../.gradle/caches//b",
        "./é/.m2/repository/",
    ] {
        let root = detect_in_text(text).unwrap().root;
        assert!(OsPath::from_text(text).starts_with(&root), "{text}");
    }
    let slashed = OsPath::from_text("C:/u/go/pkg/mod/x.go");
    let root = detect_in_text("C:\\u\\go\\pkg\\mod\\x.go").unwrap().root;
    assert!(slashed.starts_with(&root));
}
