use office_convert_lambda::path::{Part, PathParts};
use std::path::{Component, Path, PathBuf};

fn parts(path: &Path) -> PathParts {
    let list = path
        .components()
        .map(|component| match component {
            Component::RootDir => Part::Root,
            Component::CurDir => Part::Current,
            Component::ParentDir => Part::Parent,
            Component::Normal(name) => Part::Name(name.to_str().unwrap().as_bytes().to_vec()),
            Component::Prefix(_) => unreachable!(),
        })
        .collect();
    PathParts::new(list).unwrap()
}

fn back(path: &PathParts) -> PathBuf {
    let mut res = PathBuf::new();
    for part in path.parts() {
        match part {
            Part::Root => res.push("/"),
            Part::Current => res.push("."),
            Part::Parent => res.push(".."),
            Part::Name(name) => res.push(std::str::from_utf8(name).unwrap()),
        }
    }
    res
}

const PATHS: [&str; 20] = [
    "", "/", ".", "..", "a", "/a", "a/b", "/a/b", "./a", "../a", "/tmp", "/tmp/x", "/tmpx",
    "/tmp/../etc", "tmp", "a/./b", "a//b/", "/./a", "./.", "/tmp/",
];

#[test]
fn paths_survive_conversion() {
    for path in PATHS {
        assert_eq!(back(&parts(Path::new(path))), PathBuf::from(path), "{}", path);
    }
}

#[test]
fn join_agrees_with_std() {
    for base in PATHS {
        for rest in PATHS {
            let joined = parts(Path::new(base)).join(&parts(Path::new(rest)));
            assert_eq!(back(&joined), Path::new(base).join(rest), "{} + {}", base, rest);
        }
    }
}

#[test]
fn starts_with_agrees_with_std() {
    for path in PATHS {
        for base in PATHS {
            assert_eq!(
                parts(Path::new(path)).starts_with(&parts(Path::new(base))),
                Path::new(path).starts_with(base),
                "{} from {}",
                path,
                base
            );
        }
    }
}

#[test]
fn places_are_told_apart() {
    let inside = |path: &str, base: &str| {
        parts(Path::new(path)).leads_into(&parts(Path::new(base)))
    };
    assert!(inside("/tmp", "/tmp"));
    assert!(inside("/tmp/a/../b", "/tmp"));
    assert!(inside("/tmp/a/..", "/tmp"));
    assert!(inside("/tmp/../tmp/a", "/tmp"));
    assert!(inside("/../tmp/a", "/tmp"));
    assert!(!inside("/tmp/..", "/tmp"));
    assert!(!inside("/tmp/a/../../b", "/tmp"));
    assert!(!inside("/tmpx", "/tmp"));
    assert!(inside("./a", ""));
    assert!(inside("a/../b", ""));
    assert!(!inside("../a", ""));
    assert!(!inside("/a", ""));
    assert!(inside("../a/b", "../a"));
    assert!(!inside("../../a", ".."));
}

#[test]
fn paths_are_resolved() {
    let resolved = |path: &str| back(&parts(Path::new(path)).resolve());
    assert_eq!(resolved("/a/b/../c"), PathBuf::from("/a/c"));
    assert_eq!(resolved("/../../a"), PathBuf::from("/a"));
    assert_eq!(resolved("./a/.."), PathBuf::from(""));
    assert_eq!(resolved("a/../../b"), PathBuf::from("../b"));
    assert_eq!(resolved("../../a"), PathBuf::from("../../a"));
}

#[test]
fn paths_are_written_down() {
    for path in ["", "/", ".", "..", "a", "/a", "a/b", "/a/b", "./a", "../a", "/tmp/../etc"] {
        assert_eq!(parts(Path::new(path)).bytes(), path.as_bytes().to_vec());
    }
    assert_eq!(parts(Path::new("/tmp//a/./b/")).bytes(), b"/tmp/a/b".to_vec());
}

#[test]
fn parent_agrees_with_std() {
    for path in PATHS {
        assert_eq!(
            parts(Path::new(path)).parent().map(|parent| back(&parent)),
            Path::new(path).parent().map(PathBuf::from),
            "{}",
            path
        );
    }
}

#[test]
fn entry_is_placed_in_directory() {
    let entry = parts(Path::new("/tmp")).entry("file.pdf");
    assert_eq!(back(&entry), PathBuf::from("/tmp/file.pdf"));
    assert_eq!(back(&entry.clone()), PathBuf::from("/tmp/file.pdf"));
}

#[test]
fn components_that_form_no_path_are_refused() {
    assert!(PathParts::new(vec![Part::Parent, Part::Root]).is_none());
    assert!(PathParts::new(vec![Part::Parent, Part::Current]).is_none());
    assert!(PathParts::new(vec![Part::Name(Vec::new())]).is_none());
    assert!(PathParts::new(vec![Part::Name(b".".to_vec())]).is_none());
    assert!(PathParts::new(vec![Part::Root, Part::Name(b"..".to_vec())]).is_none());
    assert!(PathParts::new(vec![Part::Name(b"a/b".to_vec())]).is_none());
    assert!(PathParts::new(vec![Part::Name(b"...".to_vec())]).is_some());
    assert!(PathParts::new(vec![Part::Root, Part::Parent]).is_some());
    assert!(PathParts::new(vec![]).is_some());
}
