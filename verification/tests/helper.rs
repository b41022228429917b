use which::helper::PathExt;

fn texts(items: &[&str]) -> Vec<String> {
    items.iter().map(|s| s.to_string()).collect()
}

#[test]
fn test_has_separator() {
    assert!(String::from("/foo").has_separator());
    assert!(String::from("foo/bar").has_separator());

    assert!(!String::from("foo").has_separator());
}

#[test]
fn test_to_absolute() {
    assert_eq!(String::from("/foo").to_absolute("./hello"), String::from("/foo"));

    assert_eq!(
        String::from("foo/bar").to_absolute("./hello"),
        String::from("./hello/foo/bar")
    );
}

#[test]
fn test_extension_in_extension_vector() {
    // Case insensitive
    assert!(String::from("foo.exe").has_executable_extension(&texts(&[".COM", ".EXE", ".CMD"])));

    assert!(String::from("foo.CMD").has_executable_extension(&texts(&[".COM", ".EXE", ".CMD"])));
}

#[test]
fn test_extension_not_in_extension_vector() {
    assert!(!String::from("foo.bar").has_executable_extension(&texts(&[".COM", ".EXE", ".CMD"])));
}

const PATHS: &[&str] = &[
    "", "/", "//", ".", "./", "..", "../", "a", "a/", "a//", "a//b", "/a", "/a/", "//a", "./a",
    "./a/b", "a/.", "a/./b", "/./a", "/.", "a/..", "../a", ".a", "a.b", "a.b.c", "a.", ".a.b",
    "a/b.c/", "a/b.c/.", "~", "~/x", "~x/y", "/a/b.c", "a b/c d.e", "ü/ö.é", "/usr/bin/tool",
    "./.", ".//a", "a/b/../c", "...", "a/...", "/..", "a/.b", "a/b.", "a/.b.c",
];

fn std_text(p: Option<&std::path::Path>) -> Option<String> {
    p.map(|p| p.to_str().unwrap().to_string())
}

#[test]
fn has_separator_counts_components() {
    for p in PATHS {
        let expected = std::path::Path::new(p).components().count() > 1;
        assert_eq!(p.to_string().has_separator(), expected, "{:?}", p);
    }
}

#[test]
fn is_absolute_means_rooted() {
    for p in PATHS {
        assert_eq!(
            which::helper::is_absolute(p),
            std::path::Path::new(p).is_absolute(),
            "{:?}",
            p
        );
    }
}

#[test]
fn parent_is_the_path_without_its_last_component() {
    for p in PATHS {
        let expected = std_text(std::path::Path::new(p).parent());
        assert_eq!(which::helper::parent(p), expected, "{:?}", p);
    }
    assert_eq!(which::helper::parent("/a/b/"), Some(String::from("/a")));
    assert_eq!(which::helper::parent("a//b"), Some(String::from("a")));
    assert_eq!(which::helper::parent("./x"), Some(String::from(".")));
    assert_eq!(which::helper::parent("/a"), Some(String::from("/")));
    assert_eq!(which::helper::parent("x"), Some(String::from("")));
    assert_eq!(which::helper::parent("/"), None);
    assert_eq!(which::helper::parent(""), None);
}

#[test]
fn file_name_is_the_last_name() {
    for p in PATHS {
        let expected = std::path::Path::new(p)
            .file_name()
            .map(|n| n.to_str().unwrap().to_string());
        assert_eq!(which::helper::file_name(p), expected, "{:?}", p);
    }
    assert_eq!(which::helper::file_name("a/b/"), Some(String::from("b")));
    assert_eq!(which::helper::file_name("a/.."), None);
    assert_eq!(which::helper::file_name("/"), None);
}

#[test]
fn extension_follows_the_last_dot() {
    for p in PATHS {
        let expected = std::path::Path::new(p)
            .extension()
            .map(|n| n.to_str().unwrap().to_string());
        assert_eq!(which::helper::extension(p), expected, "{:?}", p);
    }
    assert_eq!(which::helper::extension("a.b.c"), Some(String::from("c")));
    assert_eq!(which::helper::extension("a."), Some(String::from("")));
    assert_eq!(which::helper::extension(".profile"), None);
    assert_eq!(which::helper::extension("dir.d/tool"), None);
}

#[test]
fn push_adds_a_part() {
    for base in PATHS {
        for part in PATHS {
            let mut expected = std::path::PathBuf::from(base);
            expected.push(part);
            assert_eq!(
                which::helper::push(base.to_string(), part),
                expected.to_str().unwrap(),
                "{:?} {:?}",
                base,
                part
            );
            assert_eq!(
                which::helper::join(base, part),
                std::path::Path::new(base).join(part).to_str().unwrap()
            );
        }
    }
    assert_eq!(which::helper::push(String::from("/a"), "b"), "/a/b");
    assert_eq!(which::helper::push(String::from("/a/"), "b"), "/a/b");
    assert_eq!(which::helper::push(String::from("/a"), "/b"), "/b");
    assert_eq!(which::helper::push(String::from(""), "b"), "b");
    assert_eq!(which::helper::push(String::from("a"), ""), "a/");
}

#[test]
fn to_absolute_adds_the_names_to_the_working_directory() {
    for cwd in PATHS {
        for p in PATHS {
            let path = std::path::Path::new(p);
            let expected = if path.is_absolute() {
                path.to_path_buf()
            } else {
                let mut joined = std::path::PathBuf::from(cwd);
                joined.extend(
                    path.components()
                        .skip_while(|c| matches!(c, std::path::Component::CurDir)),
                );
                joined
            };
            assert_eq!(
                p.to_string().to_absolute(cwd),
                expected.to_str().unwrap(),
                "{:?} {:?}",
                p,
                cwd
            );
        }
    }
    assert_eq!(String::from("./sub/tool").to_absolute("/project"), "/project/sub/tool");
    assert_eq!(String::from("a//b/./c/").to_absolute("/w/"), "/w/a/b/c");
    assert_eq!(String::from("../x").to_absolute("/w"), "/w/../x");
}

#[test]
fn push_names_skips_the_first_names() {
    assert_eq!(
        which::helper::push_names(String::from("/home/user/"), "~/sub/", 1),
        "/home/user/sub"
    );
    assert_eq!(which::helper::push_names(String::from("/h"), "~", 1), "/h");
    assert_eq!(which::helper::push_names(String::from("/h"), "a/b", 0), "/h/a/b");
    assert_eq!(which::helper::push_names(String::from("/h"), "a/b", 2), "/h");
}

#[test]
fn name_spans_give_the_places_of_the_names() {
    assert_eq!(which::helper::find_name_spans("/usr//bin/./tool"), vec![(1, 4), (6, 9), (12, 16)]);
    assert_eq!(which::helper::find_name_spans("./a"), vec![(2, 3)]);
    assert_eq!(which::helper::find_name_spans("/"), Vec::<(usize, usize)>::new());
    assert_eq!(which::helper::find_name_spans("ü/ö"), vec![(0, 1), (2, 3)]);
}

#[test]
fn case_of_ascii_letters_is_ignored() {
    assert!(which::helper::eq_ignore_ascii_case("Tool.EXE", "tool.exe"));
    assert!(which::helper::eq_ignore_ascii_case("", ""));
    assert!(!which::helper::eq_ignore_ascii_case("tool", "tool2"));
    assert!(!which::helper::eq_ignore_ascii_case("tool", "toul"));
    assert!(!which::helper::eq_ignore_ascii_case("Ä", "ä"));
    assert!(!which::helper::eq_ignore_ascii_case("@", "`"));
    assert!(!which::helper::eq_ignore_ascii_case("[", "{"));
    assert_eq!(which::helper::to_ascii_lower('A'), 'a');
    assert_eq!(which::helper::to_ascii_lower('Z'), 'z');
    assert_eq!(which::helper::to_ascii_lower('a'), 'a');
    assert_eq!(which::helper::to_ascii_lower('1'), '1');
    for a in PATHS {
        for b in PATHS {
            assert_eq!(
                which::helper::eq_ignore_ascii_case(a, b),
                a.eq_ignore_ascii_case(b)
            );
        }
    }
}

#[test]
fn extension_is_compared_without_the_dot() {
    let list = texts(&[".COM", ".EXE", ".CMD"]);
    assert!(which::helper::extension_in("exe", &list));
    assert!(which::helper::extension_in("Cmd", &list));
    assert!(!which::helper::extension_in(".exe", &list));
    assert!(!which::helper::extension_in("", &list));
    assert!(which::helper::extension_in("", &texts(&["."])));
    assert!(which::helper::extension_in("", &texts(&[""])));
    assert!(!which::helper::extension_in("exe", &[]));
    assert!(!String::from("foo").has_executable_extension(&list));
    assert!(!String::from(".exe").has_executable_extension(&list));
    assert!(!String::from("foo.exe/").has_executable_extension(&texts(&[])));
    assert!(String::from("dir/foo.ExE/").has_executable_extension(&list));
}
