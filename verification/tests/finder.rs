use regex::Regex;
use which::finder::Finder;
use which::finder::PathsIter;
use which::finder::WhichFindIterator;
use which::finder::WhichFindRegexIter;
use which::memory::MemorySys;
use which::Error;
use which::Noop;

fn words(items: &[&str]) -> Vec<String> {
    items.iter().map(|s| s.to_string()).collect()
}

fn drain(mut it: PathsIter) -> Vec<String> {
    let mut all = Vec::new();
    while let Some(p) = it.next() {
        all.push(p);
    }
    assert_eq!(it.next(), None);
    all
}

fn tools() -> MemorySys {
    let mut sys = MemorySys::new(true);
    sys.set_env_path_ext(Some(String::from(".EXE;.CMD")));
    sys.set_home_dir(Some(String::from("/home/me")));
    sys.write_executable("/tools/make.exe");
    sys.write_executable("/home/me/bin/make.cmd");
    sys.write_executable("/work/out/make");
    sys
}

#[test]
fn candidates_without_suffixes_are_the_base_paths() {
    let it = PathsIter::new(words(&["/a/x", "/b/x", "/c/x.exe"]), Vec::new());
    assert_eq!(drain(it), words(&["/a/x", "/b/x", "/c/x.exe"]));
    assert_eq!(drain(PathsIter::new(Vec::new(), Vec::new())), Vec::<String>::new());
    assert_eq!(
        drain(PathsIter::new(Vec::new(), words(&[".EXE"]))),
        Vec::<String>::new()
    );
}

#[test]
fn candidates_with_suffixes_follow_each_base_path() {
    let it = PathsIter::new(words(&["/a/x", "/b/x.Cmd", "/c/x.txt"]), words(&[".EXE", ".CMD"]));
    assert_eq!(
        drain(it),
        words(&[
            "/a/x",
            "/a/x.EXE",
            "/a/x.CMD",
            "/b/x.Cmd",
            "/c/x.txt",
            "/c/x.txt.EXE",
            "/c/x.txt.CMD",
        ])
    );
    let it = PathsIter::new(words(&["x"]), words(&[".only"]));
    assert_eq!(drain(it), words(&["x", "x.only"]));
}

#[test]
fn finder_looks_in_the_search_list() {
    let sys = tools();
    let found = Finder::new(&sys)
        .find("make", Some("/tools;~/bin;/work/out"), Some("/work"), Noop)
        .unwrap()
        .collect();
    assert_eq!(
        found,
        words(&["/tools/make.exe", "/home/me/bin/make.cmd", "/work/out/make"])
    );
    let first = Finder::new(&sys)
        .find("make", Some("/nowhere;/work/out"), None, Noop)
        .unwrap()
        .first();
    assert_eq!(first, Ok(String::from("/work/out/make")));
    let none = Finder::new(&sys)
        .find("cmake", Some("/tools"), None, Noop)
        .unwrap()
        .first();
    assert_eq!(none, Err(Error::CannotFindBinaryPath));
}

#[test]
fn finder_looks_where_the_name_says() {
    let sys = tools();
    let found = Finder::new(&sys)
        .find("out/make", Some("/tools"), Some("/work"), Noop)
        .unwrap()
        .collect();
    assert_eq!(found, words(&["/work/out/make"]));
    let found = Finder::new(&sys)
        .find("/tools/MAKE", None, None, Noop)
        .unwrap()
        .collect();
    assert_eq!(found, words(&["/tools/make.exe"]));
    assert!(matches!(
        Finder::new(&sys).find("out/make", Some("/tools"), None, Noop),
        Err(Error::CannotGetCurrentDir)
    ));
    assert!(matches!(
        Finder::new(&sys).find("make", None, Some("/work"), Noop),
        Err(Error::CannotGetCurrentDirAndPathListEmpty)
    ));
    assert!(matches!(
        Finder::new(&sys).find("make", Some(";;"), Some("/work"), Noop),
        Err(Error::CannotGetCurrentDirAndPathListEmpty)
    ));
}

#[test]
fn searches_can_be_made_directly() {
    let sys = tools();
    let mut it = WhichFindIterator::new_cwd(String::from("./out/make"), "/work", &sys, Noop);
    assert_eq!(it.next(), Some(String::from("/work/out/make")));
    assert_eq!(it.next(), None);
    let it = WhichFindIterator::new_paths(
        String::from("make"),
        words(&["~/bin", "/tools", "~"]),
        &sys,
        Noop,
    );
    assert_eq!(
        it.collect(),
        words(&["/home/me/bin/make.cmd", "/tools/make.exe"])
    );
    let it = WhichFindIterator::new_paths(String::from("make"), Vec::new(), &sys, Noop);
    assert_eq!(it.collect(), Vec::<String>::new());
}

#[test]
fn pattern_search_can_be_made_directly() {
    let sys = tools();
    let re = Regex::new("(?i)^MAKE").unwrap();
    let mut it = WhichFindRegexIter::new(&sys, Some("/work/out;/tools"), re.clone(), Noop).unwrap();
    assert_eq!(it.next(), Some(String::from("/work/out/make")));
    assert_eq!(it.next(), Some(String::from("/tools/make.exe")));
    assert_eq!(it.next(), None);
    assert_eq!(it.next(), None);
    let found = Finder::new(&sys)
        .find_re(re.clone(), Some("/home/me/bin"), Noop)
        .unwrap()
        .collect();
    assert_eq!(found, words(&["/home/me/bin/make.cmd"]));
    assert!(matches!(
        WhichFindRegexIter::new(&sys, None, re.clone(), Noop),
        Err(Error::CannotGetCurrentDirAndPathListEmpty)
    ));
    assert!(matches!(
        Finder::new(&sys).find_re(re, Some(""), Noop),
        Err(Error::CannotGetCurrentDirAndPathListEmpty)
    ));
}
