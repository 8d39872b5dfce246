use language_cache::os_path::decode_lossy;
use language_cache::OsPath;

fn path(text: &str) -> OsPath {
    OsPath::from_text(text)
}

#[test]
fn a_path_keeps_its_bytes() {
    assert_eq!(path("/a/é").as_bytes(), "/a/é".as_bytes());
    let raw = OsPath::from_bytes(vec![0x2f, 0xfe]);
    assert_eq!(raw.as_bytes(), [0x2f, 0xfe]);
    assert_eq!(raw.clone(), raw);
}

#[test]
fn decoding_replaces_only_what_is_not_text() {
    assert_eq!(decode_lossy("naïve/パス".as_bytes()), "naïve/パス");
    assert_eq!(decode_lossy(&[0x61, 0xc3, 0x28]), "a\u{fffd}(");
    assert_eq!(decode_lossy(&[]), "");
}

#[test]
fn join_sets_off_with_one_separator() {
    assert_eq!(path("/home/u").join(".cargo"), path("/home/u/.cargo"));
    assert_eq!(path("/home/u/").join(".cargo"), path("/home/u/.cargo"));
    assert_eq!(path("/").join("registry"), path("/registry"));
    assert_eq!(path("").join("registry"), path("registry"));
    assert_eq!(path("/home/u").join("/abs"), path("/abs"));
    assert_eq!(path("/home/u").join(""), path("/home/u/"));
}

#[test]
fn joining_agrees_with_std() {
    for base in ["", "/", "a", "a/", "/a//", "/a/b"] {
        for rest in ["", ".", "x", "x/y", "/x"] {
            let want = std::path::Path::new(base).join(rest);
            assert_eq!(
                path(base).join(rest).as_bytes(),
                want.as_os_str().as_encoded_bytes()
            );
        }
    }
}

#[test]
fn components_ignore_what_names_nothing() {
    let want: Vec<Vec<u8>> = vec![
        b"/".to_vec(),
        b"a".to_vec(),
        b"..".to_vec(),
        b"b".to_vec(),
    ];
    assert_eq!(path("//a/./..///b/.").components(), want);
    assert_eq!(path("./a").components(), vec![b".".to_vec(), b"a".to_vec()]);
    assert!(path("").components().is_empty());
}

#[test]
fn whole_components_have_to_match() {
    let file = path("/etc/passwd");
    for base in ["/etc", "/etc/", "/etc/passwd", "/etc/passwd/", "/etc/passwd///", ""] {
        assert!(file.starts_with(&path(base)), "{base}");
    }
    for base in ["/e", "/etc/passwd.txt", "/etc/passwd/x", "etc", ".", "/usr"] {
        assert!(!file.starts_with(&path(base)), "{base}");
    }
}

#[test]
fn lying_under_agrees_with_std() {
    let samples = [
        "", "/", ".", "..", "./", "./a", "a", "a/", "a/.", "a/./b", "a//b", "/a", "/a/b", "/./a",
        "/a/../b", "..a", ".a", "/.", "//a", "a/b/c", "./.", "/a/b/c/",
    ];
    for one in samples {
        for other in samples {
            assert_eq!(
                path(one).starts_with(&path(other)),
                std::path::Path::new(one).starts_with(other),
                "{one} under {other}"
            );
        }
        let want: Vec<Vec<u8>> = std::path::Path::new(one)
            .components()
            .map(|c| c.as_os_str().as_encoded_bytes().to_vec())
            .collect();
        assert_eq!(path(one).components(), want, "components of {one}");
    }
}
