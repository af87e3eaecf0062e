use ralph_robot::paths::{Part, UnixPath};
use std::path::{Component, Path};

const SAMPLES: [&str; 27] = [
    "", "/", "//", ".", "./", "..", "../", "a", "a/", "/a", "/a/", "a/b", "a//b", "a/./b",
    "./a", "././a", "/./a", "a/../b", "/..", "/a/..", "a/.", "a/..", "..a", "a..", "...", "/a/b/c",
    ".ralph/api",
];

fn same(part: &Part, component: &Component) -> bool {
    match (part, component) {
        (Part::Root, Component::RootDir) => true,
        (Part::Current, Component::CurDir) => true,
        (Part::Parent, Component::ParentDir) => true,
        (Part::Name(name), Component::Normal(text)) => {
            text.to_str().map(|t| t.as_bytes().to_vec()) == Some(name.clone())
        }
        _ => false,
    }
}

#[test]
fn parts_agree_with_the_standard_library() {
    for sample in SAMPLES {
        let parts = UnixPath::from_text(sample).components();
        let components: Vec<Component> = Path::new(sample).components().collect();
        assert_eq!(parts.len(), components.len(), "{sample}");
        for (part, component) in parts.iter().zip(components.iter()) {
            assert!(same(part, component), "{sample}");
        }
        assert_eq!(UnixPath::from_text(sample).is_absolute(), Path::new(sample).is_absolute());
    }
}

#[test]
fn joins_agree_with_the_standard_library() {
    for base in SAMPLES {
        for path in SAMPLES {
            let joined = UnixPath::from_text(base).join(&UnixPath::from_text(path));
            let expected = Path::new(base).join(path);
            assert_eq!(joined.display(), expected.to_str().unwrap(), "{base} + {path}");
        }
    }
}

#[test]
fn prefixes_agree_with_the_standard_library() {
    for path in SAMPLES {
        for base in SAMPLES {
            assert_eq!(
                UnixPath::from_text(path).starts_with(&UnixPath::from_text(base)),
                Path::new(path).starts_with(base),
                "{path} under {base}"
            );
        }
    }
}

#[test]
fn climbing_is_seen() {
    for sample in ["..", "../a", "a/..", "/a/../b"] {
        assert!(UnixPath::from_text(sample).has_parent_part());
    }
    for sample in ["", "a", "..a", "...", "a/./b", "/"] {
        assert!(!UnixPath::from_text(sample).has_parent_part());
    }
}

#[test]
fn a_relative_path_lies_below_its_base() {
    let base = UnixPath::from_text("/w/x");
    assert!(base.join(&UnixPath::from_text("a/b")).starts_with(&base));
    assert!(!base.join(&UnixPath::from_text("/a/b")).starts_with(&base));
    assert!(base.join(&UnixPath::from_text("/w/x/a")).starts_with(&base));
    assert!(!UnixPath::from_text("/w/xy").starts_with(&base));
}

#[test]
fn a_path_is_shown_as_text() {
    assert_eq!(UnixPath::from_text("/a/\u{e9}").display(), "/a/\u{e9}");
    assert_eq!(UnixPath::from_bytes(b"/a\xff".to_vec()).display(), "/a\u{fffd}");
    assert_eq!(UnixPath::from_text("/a").clone().as_bytes(), b"/a");
    assert_eq!(UnixPath::from_text("/a.json").extended(".tmp").display(), "/a.json.tmp");
}
