use language_cache::access::access_in_cache;
use language_cache::{
    detect_language_cache, language_cache_access, CacheAccess, CanonicalRoot, DetectedCache,
    OsPath, Progress, Replies, Reply, Request,
};

fn path(text: &str) -> OsPath {
    OsPath::from_text(text)
}

/// A session whose paths are canonical as they stand.
struct Session {
    roots: Vec<OsPath>,
    go_root: Option<OsPath>,
    log: Vec<&'static str>,
}

impl Session {
    fn new() -> Session {
        Session {
            roots: Vec::new(),
            go_root: None,
            log: Vec::new(),
        }
    }

    fn register(&mut self, root: &OsPath) -> bool {
        let new = !self.roots.contains(root);
        if new {
            self.roots.push(root.clone());
        }
        new
    }

    fn is_read_only(&self, file: &OsPath) -> bool {
        self.roots.iter().any(|root| file.starts_with(root))
    }

    fn enforce_writable(&self, file: &OsPath) -> Result<(), &'static str> {
        if self.is_read_only(file) {
            Err("read-only")
        } else {
            Ok(())
        }
    }

    fn jail(&self, file: &OsPath, jail_root: &OsPath, extra_roots: &[String]) -> Option<OsPath> {
        let inside = file.starts_with(jail_root)
            || extra_roots.iter().any(|root| file.starts_with(&path(root)))
            || self.is_read_only(file);
        inside.then_some(file.clone())
    }

    fn carry_out(&mut self, request: Request) -> Reply {
        match request {
            Request::RegisterMarkerRoot { root } => {
                self.log.push("register spelled root");
                Reply::MarkerRegistered(self.register(&root))
            }
            Request::ResolveRoot { cache } => {
                self.log.push("resolve");
                assert_eq!(cache, CanonicalRoot::GoModCache);
                Reply::Resolved(self.go_root.clone())
            }
            Request::CanonicalizeRoot { name } => {
                self.log.push("canonicalize root");
                Reply::CanonicalRoot(path(&name))
            }
            Request::CanonicalizeCandidate { candidate } => {
                self.log.push("canonicalize candidate");
                Reply::CanonicalCandidate(candidate)
            }
            Request::RegisterCanonicalRoot { label, root } => {
                self.log.push("register canonical root");
                assert_eq!(label, "Go module cache");
                Reply::RootRegistered(self.register(&root))
            }
            Request::Jail {
                candidate,
                jail_root,
                extra_roots,
            } => {
                self.log.push("jail");
                Reply::Jailed(self.jail(&candidate, &jail_root, &extra_roots))
            }
        }
    }

    fn access(&mut self, file: &OsPath, jail_root: &OsPath) -> Option<CacheAccess> {
        let mut replies = Replies::new();
        loop {
            match language_cache_access(file, jail_root, &[], &replies) {
                Progress::Pending(request) => replies.record(self.carry_out(request)),
                Progress::Decided(access) => return access,
            }
        }
    }
}

#[test]
fn registered_cache_root_reads_allow_writes_deny() {
    let mut session = Session::new();
    let file = path("/tmp/t/go/pkg/mod/example.com/lib@v1/lib.go");
    let project = path("/tmp/t/project");

    // Before registration: the read escapes the jail.
    assert!(session.jail(&file, &project, &[]).is_none());

    // Register the detected root; the second call is a no-op.
    let root = detect_language_cache(&file).expect("cache match").root;
    assert!(session.register(&root), "first register is new");
    assert!(!session.register(&root), "re-register is a no-op");

    // After: the read resolves, in the read-only tier.
    assert!(
        session.jail(&file, &project, &[]).is_some(),
        "registered cache root must be readable"
    );
    assert!(session.is_read_only(&file), "cache file is read-only");
    assert!(
        session.enforce_writable(&file).is_err(),
        "writes into the cache root must be denied"
    );
}

#[test]
fn go_cache_under_canonical_root_passes_through_read_only() {
    let mut session = Session::new();
    session.go_root = Some(path("/tmp/t/gohome/go/pkg/mod"));
    let file = path("/tmp/t/gohome/go/pkg/mod/example.com/lib@v1/lib.go");
    let project = path("/tmp/t/project");

    let Some(CacheAccess::PassThrough(jailed)) = session.access(&file, &project) else {
        panic!("a file under GOMODCACHE must pass through on the first call");
    };
    assert_eq!(jailed, file);
    assert!(
        session.enforce_writable(&file).is_err(),
        "pass-through grants read, never write"
    );
    assert_eq!(
        session.log,
        [
            "resolve",
            "canonicalize root",
            "canonicalize candidate",
            "register canonical root",
            "jail"
        ]
    );

    // A second read passes as well, though the root is registered already.
    assert!(matches!(
        session.access(&file, &project),
        Some(CacheAccess::PassThrough(_))
    ));
    assert_eq!(session.roots.len(), 1);
}

#[test]
fn go_cache_lookalike_outside_canonical_root_is_refused() {
    let mut session = Session::new();
    session.go_root = Some(path("/tmp/t/real/go/pkg/mod"));
    // Same marker, different tree: not the toolchain's.
    let file = path("/tmp/t/evil/go/pkg/mod/example.com/lib@v1/lib.go");
    let project = path("/tmp/t/project");

    assert!(
        session.access(&file, &project).is_none(),
        "a cache lookalike outside GOMODCACHE must not be auto-allowed"
    );
    assert!(
        session.jail(&file, &project, &[]).is_none(),
        "and nothing may have been registered for it"
    );
    assert!(session.roots.is_empty());
    assert_eq!(
        session.log,
        ["resolve", "canonicalize root", "canonicalize candidate"]
    );
}

#[test]
fn site_packages_registers_then_retry_resolves() {
    let mut session = Session::new();
    let file = path("/tmp/t/venv/lib/python3.12/site-packages/requests/api.py");
    let project = path("/tmp/t/project");

    let Some(CacheAccess::Retry(hint)) = session.access(&file, &project) else {
        panic!("site-packages has no canonical root, so it must fail closed with a hint");
    };
    assert!(hint.contains("Python site-packages"), "hint: {hint}");
    assert!(hint.contains("Retry the read"), "hint: {hint}");
    assert_eq!(
        hint,
        "Auto-detected Python site-packages at /tmp/t/venv/lib/python3.12/site-packages — \
         added as a read-only root for this session. Retry the read."
    );

    // The retry resolves, and the cache stays read-only.
    assert!(
        session.jail(&file, &project, &[]).is_some(),
        "the registered root makes the retry resolve"
    );
    assert!(session.enforce_writable(&file).is_err(), "writes stay denied");

    // If the jail says no all the same, there is no second hint.
    assert!(session.access(&file, &project).is_none());
    assert_eq!(session.log, ["register spelled root", "register spelled root"]);

    // Nor for another file in the same cache, or another project.
    let other = path("/tmp/t/venv/lib/python3.12/site-packages/flask/app.py");
    assert!(session.access(&other, &path("/tmp/t/elsewhere")).is_none());
    assert_eq!(session.roots.len(), 1);
}

#[test]
fn an_absent_toolchain_allows_nothing() {
    let mut session = Session::new();
    assert!(session
        .access(&path("/home/u/go/pkg/mod/x.go"), &path("/p"))
        .is_none());
    assert_eq!(session.log, ["resolve"]);
    assert!(session.roots.is_empty());
}

#[test]
fn another_path_is_left_alone() {
    let mut session = Session::new();
    assert!(session
        .access(&path("/home/u/proj/src/main.rs"), &path("/p"))
        .is_none());
    assert!(session.log.is_empty());
}

#[test]
fn a_jail_that_still_rejects_has_the_last_word() {
    let cache = DetectedCache {
        label: "Rust crate registry",
        root: path("/spelled"),
        resolver: Some(CanonicalRoot::CargoRegistry),
    };
    let mut replies = Replies::new();
    replies.record(Reply::Resolved(Some(path("/r"))));
    replies.record(Reply::CanonicalRoot(path("/r")));
    replies.record(Reply::CanonicalCandidate(path("/r/f")));
    replies.record(Reply::RootRegistered(false));
    replies.record(Reply::Jailed(None));
    let progress = access_in_cache(Some(cache), &path("/r/f"), &path("/p"), &[], &replies);
    assert!(matches!(progress, Progress::Decided(None)));
}

#[test]
fn the_named_root_is_handed_on_as_text_and_the_jail_gets_what_it_was_given() {
    let file = path("/x/go/pkg/mod/f.go");
    let jail_root = path("/p");
    let extra_roots = vec!["~/a".to_string(), "/b".to_string()];
    let mut replies = Replies::new();
    replies.record(Reply::Resolved(Some(OsPath::from_bytes(vec![0x2f, 0xff]))));
    match language_cache_access(&file, &jail_root, &extra_roots, &replies) {
        Progress::Pending(Request::CanonicalizeRoot { name }) => assert_eq!(name, "/\u{fffd}"),
        other => panic!("{other:?}"),
    }
    replies.record(Reply::CanonicalRoot(path("/x")));
    replies.record(Reply::CanonicalCandidate(path("/x/y")));
    replies.record(Reply::RootRegistered(true));
    match language_cache_access(&file, &jail_root, &extra_roots, &replies) {
        Progress::Pending(Request::Jail {
            candidate,
            jail_root: root,
            extra_roots: extra,
        }) => {
            assert_eq!(candidate, file);
            assert_eq!(root, jail_root);
            assert_eq!(extra, extra_roots);
        }
        other => panic!("{other:?}"),
    }
}
