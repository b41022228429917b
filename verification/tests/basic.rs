use std::cell::RefCell;
use std::collections::BTreeMap;
use std::collections::HashMap;
use std::collections::HashSet;
use std::io;
use std::rc::Rc;

use regex::Regex;
use which::sys::Sys;
use which::sys::SysMetadata;
use which::sys::SysReadDirEntry;
use which::CanonicalPath;
use which::Error;
use which::NonFatalError;
use which::NonFatalErrorHandler;
use which::Noop;
use which::WhichConfig;

struct Metadata {
    is_symlink: bool,
    is_file: bool,
}

impl SysMetadata for Metadata {
    fn is_symlink(&self) -> bool {
        self.is_symlink
    }

    fn is_file(&self) -> bool {
        self.is_file
    }
}

struct ReadDirEntry {
    name: String,
    path: String,
}

impl SysReadDirEntry for ReadDirEntry {
    fn file_name(&self) -> String {
        self.name.clone()
    }

    fn path(&self) -> String {
        self.path.clone()
    }
}

#[derive(Debug, Clone)]
enum DirectoryEntry {
    Directory,
    File { is_valid_executable: bool },
    Symlink { to: String },
    Unreadable,
}

/// A system in memory: the entries of its file system by their absolute path.
#[derive(Debug, Clone)]
struct InMemorySys {
    is_windows: bool,
    cwd: Option<String>,
    home_dir: Option<String>,
    env_vars: HashMap<String, String>,
    entries: BTreeMap<String, DirectoryEntry>,
}

fn normalize(path: &str) -> String {
    let parts: Vec<&str> = path.split('/').filter(|p| !p.is_empty() && *p != ".").collect();
    format!("/{}", parts.join("/"))
}

fn not_found(what: &str) -> io::Error {
    io::Error::new(io::ErrorKind::NotFound, format!("{what}: entry not found"))
}

impl InMemorySys {
    fn new() -> Self {
        let mut entries = BTreeMap::new();
        entries.insert("/".to_string(), DirectoryEntry::Directory);
        Self {
            is_windows: false,
            cwd: Some("/project".to_string()),
            home_dir: None,
            env_vars: HashMap::new(),
            entries,
        }
    }

    fn windows() -> Self {
        let mut sys = Self::new();
        sys.is_windows = true;
        sys
    }

    fn set_home_dir(&mut self, path: &str) {
        self.home_dir = Some(path.to_string());
    }

    fn set_env_var(&mut self, name: &str, value: &str) {
        self.env_vars.insert(name.to_string(), value.to_string());
    }

    fn create_directory(&mut self, path: &str) {
        let path = normalize(path);
        let mut current = String::new();
        for part in path.split('/').filter(|p| !p.is_empty()) {
            current = format!("{current}/{part}");
            self.entries
                .entry(current.clone())
                .or_insert(DirectoryEntry::Directory);
        }
    }

    fn insert_dir_entry(&mut self, path: &str, entry: DirectoryEntry) {
        let path = normalize(path);
        let parent = match path.rfind('/') {
            Some(0) | None => "/".to_string(),
            Some(at) => path[..at].to_string(),
        };
        self.create_directory(&parent);
        self.entries.insert(path, entry);
    }

    fn create_symlink(&mut self, from: &str, to: &str) {
        self.insert_dir_entry(from, DirectoryEntry::Symlink { to: to.to_string() });
    }

    fn write_executable(&mut self, path: &str) {
        self.insert_dir_entry(
            path,
            DirectoryEntry::File {
                is_valid_executable: true,
            },
        );
    }

    fn write_non_executable(&mut self, path: &str) {
        self.insert_dir_entry(
            path,
            DirectoryEntry::File {
                is_valid_executable: false,
            },
        );
    }

    fn write_unreadable(&mut self, path: &str) {
        self.insert_dir_entry(path, DirectoryEntry::Unreadable);
    }

    fn get_entry(&self, path: &str) -> Option<&DirectoryEntry> {
        let path = normalize(path);
        if self.is_windows {
            self.entries
                .iter()
                .find(|(k, _)| k.eq_ignore_ascii_case(&path))
                .map(|(_, v)| v)
        } else {
            self.entries.get(&path)
        }
    }

    fn get_entry_follow_symlink(&self, path: &str) -> Option<&DirectoryEntry> {
        let mut current_path = path.to_string();
        let mut seen = HashSet::new();

        loop {
            let entry = self.get_entry(&current_path)?;
            if let DirectoryEntry::Symlink { to } = entry {
                if !seen.insert(current_path.clone()) {
                    return None; // symlink loop
                }
                current_path = to.clone();
                continue;
            }
            return Some(entry);
        }
    }
}

fn as_metadata(entry: &DirectoryEntry) -> io::Result<Metadata> {
    match entry {
        DirectoryEntry::Unreadable => Err(io::Error::new(
            io::ErrorKind::PermissionDenied,
            "metadata: permission denied",
        )),
        _ => Ok(Metadata {
            is_symlink: matches!(entry, DirectoryEntry::Symlink { .. }),
            is_file: matches!(entry, DirectoryEntry::File { .. }),
        }),
    }
}

impl Sys for InMemorySys {
    type ReadDirEntry = ReadDirEntry;

    type Metadata = Metadata;

    fn is_windows(&self) -> bool {
        self.is_windows
    }

    fn current_dir(&self) -> io::Result<String> {
        self.cwd.clone().ok_or_else(|| not_found("current_dir"))
    }

    fn home_dir(&self) -> Option<String> {
        self.home_dir.clone()
    }

    fn env_split_paths(&self, paths: &str) -> Vec<String> {
        if paths.is_empty() {
            return Vec::new();
        }
        paths
            .split(if self.is_windows { ";" } else { ":" })
            .map(String::from)
            .collect()
    }

    fn env_path(&self) -> Option<String> {
        self.env_vars.get("PATH").cloned()
    }

    fn env_path_ext(&self) -> Option<String> {
        self.env_vars.get("PATHEXT").cloned()
    }

    fn metadata(&self, path: &str) -> io::Result<Self::Metadata> {
        let entry = self
            .get_entry_follow_symlink(path)
            .ok_or_else(|| not_found("metadata"))?;

        as_metadata(entry)
    }

    fn symlink_metadata(&self, path: &str) -> io::Result<Self::Metadata> {
        let entry = self.get_entry(path).ok_or_else(|| not_found("metadata"))?;

        as_metadata(entry)
    }

    fn read_dir(&self, path: &str) -> io::Result<Vec<io::Result<Self::ReadDirEntry>>> {
        let entry = self
            .get_entry_follow_symlink(path)
            .ok_or_else(|| not_found("read_dir"))?;

        match entry {
            DirectoryEntry::Directory => {
                let dir = normalize(path);
                let prefix = if dir == "/" {
                    dir.clone()
                } else {
                    format!("{dir}/")
                };
                let mut listing = Vec::new();
                for (key, value) in self.entries.iter() {
                    let below = if self.is_windows {
                        key.len() > prefix.len()
                            && key[..prefix.len()].eq_ignore_ascii_case(&prefix)
                    } else {
                        key.len() > prefix.len() && key.starts_with(&prefix)
                    };
                    if below && !key[prefix.len()..].contains('/') {
                        if matches!(value, DirectoryEntry::Unreadable) {
                            listing.push(Err(io::Error::new(
                                io::ErrorKind::PermissionDenied,
                                "read_dir: permission denied",
                            )));
                        } else {
                            let name = key[prefix.len()..].to_string();
                            let joined = if path.ends_with('/') {
                                format!("{path}{name}")
                            } else {
                                format!("{path}/{name}")
                            };
                            listing.push(Ok(ReadDirEntry { name, path: joined }));
                        }
                    }
                }
                Ok(listing)
            }
            _ => Err(io::Error::new(io::ErrorKind::Other, "Not a directory")),
        }
    }

    fn is_valid_executable(&self, path: &str) -> io::Result<bool> {
        let entry = self
            .get_entry_follow_symlink(path)
            .ok_or_else(|| not_found("is_valid_executable"))?;

        match entry {
            DirectoryEntry::File {
                is_valid_executable,
            } => Ok(*is_valid_executable),
            _ => Ok(false),
        }
    }
}

/// A handler that keeps the text of each error it is given.
#[derive(Clone)]
struct Collect {
    seen: Rc<RefCell<Vec<String>>>,
}

impl NonFatalErrorHandler for Collect {
    fn handle(&mut self, e: NonFatalError) {
        self.seen.borrow_mut().push(e.message());
    }
}

fn texts(items: &[&str]) -> Vec<String> {
    items.iter().map(|s| s.to_string()).collect()
}

#[test]
fn basic() {
    let mut sys = InMemorySys::new();
    sys.set_env_var("PATH", "/sub/dir1/:/sub/dir2/");
    sys.write_non_executable("/sub/dir1/exec1");
    sys.write_executable("/sub/dir2/exec1"); // will get this one
    sys.write_executable("/sub/dir2/exec2");
    let config = WhichConfig::new_with_sys(sys).binary_name(String::from("exec1"));
    let result = config.first_result().unwrap();
    assert_eq!(result, String::from("/sub/dir2/exec1"));
}

#[test]
fn symlink() {
    let mut sys = InMemorySys::new();
    sys.set_env_var("PATH", "/sub/dir1/");
    sys.create_symlink("/sub/dir1/exec", "/sub/dir2/exec");
    sys.write_executable("/sub/dir2/exec");
    let config = WhichConfig::new_with_sys(sys).binary_name(String::from("exec"));
    let result = config.first_result().unwrap();
    assert_eq!(result, String::from("/sub/dir1/exec"));
}

#[test]
fn tilde_path() {
    let mut sys = InMemorySys::new();
    sys.set_home_dir("/home/user/");
    sys.set_env_var("PATH", "/dir/:~/sub/");
    sys.write_executable("/home/user/sub/exec");
    let config = WhichConfig::new_with_sys(sys).binary_name(String::from("exec"));
    let result = config.first_result().unwrap();
    assert_eq!(result, String::from("/home/user/sub/exec"));
}

#[test]
fn tilde_without_home_is_left_alone() {
    let mut sys = InMemorySys::new();
    sys.set_env_var("PATH", "~/sub");
    sys.write_executable("/home/user/sub/exec");
    let result = which::which(&sys, "exec");
    assert_eq!(result, Err(Error::CannotFindBinaryPath));
}

#[test]
fn second_directory_wins_when_first_has_no_match() {
    let mut sys = InMemorySys::new();
    sys.create_directory("/a");
    sys.write_executable("/b/tool");
    let result = which::which_in(&sys, "tool", Some("/a:/b"), "/project");
    assert_eq!(result, Ok(String::from("/b/tool")));
}

#[test]
fn first_directory_wins_when_both_match() {
    let mut sys = InMemorySys::new();
    sys.write_executable("/a/tool");
    sys.write_executable("/b/tool");
    let all = which::which_in_all(&sys, "tool", Some("/a:/b"), "/project")
        .unwrap()
        .collect();
    assert_eq!(all, texts(&["/a/tool", "/b/tool"]));
    assert_eq!(
        which::which_in(&sys, "tool", Some("/b:/a"), "/project"),
        Ok(String::from("/b/tool"))
    );
}

#[test]
fn relative_name_with_leading_dot() {
    let mut sys = InMemorySys::new();
    sys.write_executable("/project/sub/tool");
    let result = which::which_in(&sys, "./sub/tool", Some("/other"), "/project");
    assert_eq!(result, Ok(String::from("/project/sub/tool")));
}

#[test]
fn name_with_separator_ignores_search_list() {
    let mut sys = InMemorySys::new();
    sys.write_executable("/other/sub/tool");
    let result = which::which_in(&sys, "sub/tool", Some("/other"), "/project");
    assert_eq!(result, Err(Error::CannotFindBinaryPath));
    // no search list is needed either
    sys.write_executable("/project/sub/tool");
    let result = which::which_in(&sys, "sub/tool", None, "/project");
    assert_eq!(result, Ok(String::from("/project/sub/tool")));
}

#[test]
fn name_without_separator_ignores_working_directory() {
    let mut sys = InMemorySys::new();
    sys.write_executable("/project/tool");
    sys.create_directory("/bin");
    let result = which::which_in(&sys, "tool", Some("/bin"), "/project");
    assert_eq!(result, Err(Error::CannotFindBinaryPath));
}

#[test]
fn absolute_name_is_taken_as_it_is() {
    let mut sys = InMemorySys::new();
    sys.write_executable("/opt/tool");
    sys.write_non_executable("/opt/data");
    assert_eq!(
        which::which_in(&sys, "/opt/tool", Some("/bin"), "/project"),
        Ok(String::from("/opt/tool"))
    );
    assert_eq!(
        which::which_in(&sys, "/opt/data", Some("/bin"), "/project"),
        Err(Error::CannotFindBinaryPath)
    );
    // without a working directory, and without a search list
    let found = which::which_in_global(&sys, "/opt/tool", None)
        .unwrap()
        .collect();
    assert_eq!(found, texts(&["/opt/tool"]));
}

#[test]
fn non_executable_is_skipped() {
    let mut sys = InMemorySys::new();
    sys.write_non_executable("/sub/dir1/exec");
    sys.write_executable("/sub/dir2/exec");
    let result = which::which_in(&sys, "exec", Some("/sub/dir1:/sub/dir2"), "/project");
    assert_eq!(result, Ok(String::from("/sub/dir2/exec")));
}

#[test]
fn directory_is_no_result() {
    let mut sys = InMemorySys::new();
    sys.create_directory("/bin/tool");
    let result = which::which_in(&sys, "tool", Some("/bin"), "/project");
    assert_eq!(result, Err(Error::CannotFindBinaryPath));
}

#[test]
fn symlink_cycle_is_not_found() {
    let mut sys = InMemorySys::new();
    sys.create_symlink("/bin/a", "/bin/b");
    sys.create_symlink("/bin/b", "/bin/a");
    let result = which::which_in(&sys, "a", Some("/bin"), "/project");
    assert_eq!(result, Err(Error::CannotFindBinaryPath));
}

#[test]
fn search_list_required() {
    let sys = InMemorySys::new();
    let config = WhichConfig::new_with_sys(&sys).binary_name(String::from("tool"));
    assert_eq!(
        config.first_result(),
        Err(Error::CannotGetCurrentDirAndPathListEmpty)
    );
    let config = WhichConfig::new_with_sys(&sys).binary_name(String::from("tool"));
    assert!(matches!(
        config.all_results(),
        Err(Error::CannotGetCurrentDirAndPathListEmpty)
    ));
    assert_eq!(
        which::which(&sys, "tool"),
        Err(Error::CannotGetCurrentDirAndPathListEmpty)
    );
    assert_eq!(
        which::which_global(&sys, "tool"),
        Err(Error::CannotGetCurrentDirAndPathListEmpty)
    );
}

#[test]
fn empty_search_list_is_an_error() {
    let sys = InMemorySys::new();
    assert_eq!(
        which::which_in(&sys, "tool", Some(""), "/project"),
        Err(Error::CannotGetCurrentDirAndPathListEmpty)
    );
    assert!(matches!(
        which::which_re_in(&sys, Regex::new("tool").unwrap(), Some("")),
        Err(Error::CannotGetCurrentDirAndPathListEmpty)
    ));
    assert!(matches!(
        which::which_re(&sys, Regex::new("tool").unwrap()),
        Err(Error::CannotGetCurrentDirAndPathListEmpty)
    ));
}

#[test]
fn relative_name_needs_working_directory() {
    let mut sys = InMemorySys::new();
    sys.set_env_var("PATH", "/bin");
    sys.write_executable("/project/sub/tool");
    let config = WhichConfig::new_with_sys(&sys)
        .system_cwd(false)
        .binary_name(String::from("sub/tool"));
    assert_eq!(config.first_result(), Err(Error::CannotGetCurrentDir));
    assert_eq!(
        which::which_global(&sys, "sub/tool"),
        Err(Error::CannotGetCurrentDir)
    );
    // the working directory of the system, where it can be had
    assert_eq!(
        which::which(&sys, "sub/tool"),
        Ok(String::from("/project/sub/tool"))
    );
    sys.cwd = None;
    assert_eq!(which::which(&sys, "sub/tool"), Err(Error::CannotGetCurrentDir));
}

#[test]
fn custom_settings_take_the_place_of_the_system() {
    let mut sys = InMemorySys::new();
    sys.set_env_var("PATH", "/bin");
    sys.write_executable("/bin/tool");
    sys.write_executable("/opt/tool");
    sys.write_executable("/work/sub/tool");
    let config = WhichConfig::new_with_sys(&sys)
        .custom_path_list(String::from("/opt"))
        .binary_name(String::from("tool"));
    assert_eq!(config.first_result(), Ok(String::from("/opt/tool")));
    let config = WhichConfig::new_with_sys(&sys)
        .custom_path_list(String::from("/opt"))
        .system_path_list()
        .binary_name(String::from("tool"));
    assert_eq!(config.first_result(), Ok(String::from("/bin/tool")));
    let config = WhichConfig::new_with_sys(&sys)
        .custom_cwd(String::from("/work"))
        .binary_name(String::from("sub/tool"));
    assert!(config.uses_cwd());
    assert!(config.has_binary_name());
    assert!(!config.has_regex());
    assert_eq!(config.first_result(), Ok(String::from("/work/sub/tool")));
}

#[test]
fn unsuffixed_match_wins_over_suffixed() {
    let mut sys = InMemorySys::windows();
    sys.set_env_var("PATHEXT", ".EXE;.CMD");
    sys.write_executable("/tools/bin");
    sys.write_executable("/tools/bin.EXE");
    sys.write_executable("/tools/bin.CMD");
    assert_eq!(
        which::which_in(&sys, "bin", Some("/tools"), "/project"),
        Ok(String::from("/tools/bin"))
    );
    let all = which::which_in_all(&sys, "bin", Some("/tools"), "/project")
        .unwrap()
        .collect();
    assert_eq!(all, texts(&["/tools/bin", "/tools/bin.EXE", "/tools/bin.CMD"]));
}

#[test]
fn suffixes_are_tried_in_list_order() {
    let mut sys = InMemorySys::windows();
    sys.set_env_var("PATHEXT", ".CMD;.EXE");
    sys.write_executable("/tools/bin.EXE");
    sys.write_executable("/tools/bin.CMD");
    sys.write_executable("/more/bin.EXE");
    let all = which::which_in_all(&sys, "bin", Some("/tools;/more"), "/project")
        .unwrap()
        .collect();
    assert_eq!(
        all,
        texts(&["/tools/bin.CMD", "/tools/bin.EXE", "/more/bin.EXE"])
    );
}

#[test]
fn name_with_known_suffix_is_not_suffixed_again() {
    let mut sys = InMemorySys::windows();
    sys.set_env_var("PATHEXT", ".EXE;.CMD");
    sys.write_executable("/tools/bin.exe");
    sys.write_executable("/tools/bin.exe.CMD");
    let all = which::which_in_all(&sys, "bin.exe", Some("/tools"), "/project")
        .unwrap()
        .collect();
    assert_eq!(all, texts(&["/tools/bin.exe"]));
}

#[test]
fn known_suffix_makes_a_file_runnable() {
    let mut sys = InMemorySys::windows();
    sys.set_env_var("PATHEXT", ".EXE;.CMD");
    sys.write_non_executable("/tools/run.cmd");
    sys.write_non_executable("/tools/notes.txt");
    assert_eq!(
        which::which_in(&sys, "run", Some("/tools"), "/project"),
        Ok(String::from("/tools/run.cmd"))
    );
    assert_eq!(
        which::which_in(&sys, "notes.txt", Some("/tools"), "/project"),
        Err(Error::CannotFindBinaryPath)
    );
}

#[test]
fn symlink_counts_where_suffixes_decide() {
    let mut sys = InMemorySys::windows();
    sys.set_env_var("PATHEXT", ".EXE");
    sys.create_symlink("/tools/link.exe", "/nowhere");
    assert_eq!(
        which::which_in(&sys, "link", Some("/tools"), "/project"),
        Ok(String::from("/tools/link.exe"))
    );
    let mut sys = InMemorySys::new();
    sys.create_symlink("/tools/link", "/nowhere");
    assert_eq!(
        which::which_in(&sys, "link", Some("/tools"), "/project"),
        Err(Error::CannotFindBinaryPath)
    );
}

#[test]
fn result_has_the_case_of_the_entry_on_disk() {
    let mut sys = InMemorySys::windows();
    sys.set_env_var("PATHEXT", ".exe");
    sys.write_executable("/Tools/Build.EXE");
    assert_eq!(
        which::which_in(&sys, "build", Some("/Tools"), "/project"),
        Ok(String::from("/Tools/Build.EXE"))
    );
    assert_eq!(
        which::which_in(&sys, "/Tools/BUILD.exe", None, "/project"),
        Ok(String::from("/Tools/Build.EXE"))
    );
}

#[test]
fn case_is_kept_where_it_tells_names_apart() {
    let mut sys = InMemorySys::new();
    sys.write_executable("/tools/Build");
    assert_eq!(
        which::which_in(&sys, "build", Some("/tools"), "/project"),
        Err(Error::CannotFindBinaryPath)
    );
    assert_eq!(
        which::which_in(&sys, "Build", Some("/tools"), "/project"),
        Ok(String::from("/tools/Build"))
    );
}

#[test]
fn same_query_gives_same_results() {
    let mut sys = InMemorySys::new();
    sys.write_executable("/a/tool");
    sys.write_non_executable("/b/tool");
    sys.write_executable("/c/tool");
    let first = which::which_in_all(&sys, "tool", Some("/a:/b:/c"), "/project")
        .unwrap()
        .collect();
    let second = which::which_in_all(&sys, "tool", Some("/a:/b:/c"), "/project")
        .unwrap()
        .collect();
    assert_eq!(first, texts(&["/a/tool", "/c/tool"]));
    assert_eq!(first, second);
}

#[test]
fn results_come_one_at_a_time() {
    let mut sys = InMemorySys::new();
    sys.write_executable("/a/tool");
    sys.write_executable("/c/tool");
    let mut results = which::which_in_all(&sys, "tool", Some("/a:/b:/c"), "/project").unwrap();
    assert_eq!(results.next(), Some(String::from("/a/tool")));
    assert_eq!(results.next(), Some(String::from("/c/tool")));
    assert_eq!(results.next(), None);
    assert_eq!(results.next(), None);
}

#[test]
fn errors_go_to_the_handler() {
    let mut sys = InMemorySys::new();
    sys.write_unreadable("/b/tool");
    sys.write_executable("/c/tool");
    let seen = Rc::new(RefCell::new(Vec::new()));
    let config = WhichConfig::new_with_sys(&sys)
        .custom_path_list(String::from("/a:/b:/c"))
        .binary_name(String::from("tool"))
        .nonfatal_error_handler(Collect { seen: seen.clone() });
    let mut results = config.all_results().unwrap();
    assert_eq!(results.next(), Some(String::from("/c/tool")));
    assert_eq!(
        *seen.borrow(),
        texts(&["metadata: entry not found", "metadata: permission denied"])
    );
    assert_eq!(results.next(), None);
    assert_eq!(seen.borrow().len(), 2);
}

#[test]
fn failed_probe_goes_to_the_handler() {
    let mut sys = InMemorySys::new();
    sys.write_executable("/a/tool");
    let mut seen = Collect {
        seen: Rc::new(RefCell::new(Vec::new())),
    };
    assert!(which::checker::is_valid(&sys, "/a/tool", &mut seen));
    assert!(!which::checker::is_valid(&sys, "/a", &mut seen));
    assert!(seen.seen.borrow().is_empty());
    assert!(!which::checker::is_valid(&sys, "/a/other", &mut seen));
    assert_eq!(*seen.seen.borrow(), texts(&["metadata: entry not found"]));
    let mut noop = Noop;
    assert!(!which::checker::is_valid(&sys, "/a/other", &mut noop));
}

#[test]
fn pattern_finds_matching_entries() {
    let mut sys = InMemorySys::new();
    sys.write_executable("/a/bin_0");
    sys.write_executable("/a/other");
    sys.write_executable("/b/bin_1");
    sys.write_non_executable("/b/bin_2");
    sys.write_executable("/b/bin_x");
    let re = Regex::new(r"bin_\d").unwrap();
    let result = which::which_re_in(&sys, re, Some("/a:/b")).unwrap().collect();
    assert_eq!(result, texts(&["/a/bin_0", "/b/bin_1"]));
}

#[test]
fn pattern_without_matches() {
    let mut sys = InMemorySys::new();
    sys.set_env_var("PATH", "/a:/b");
    sys.write_executable("/a/bin");
    sys.write_executable("/b/bin");
    let re = Regex::new(r"bi[^n]").unwrap();
    let result = which::which_re(&sys, re).unwrap().collect();
    assert_eq!(result, Vec::<String>::new());
}

#[test]
fn pattern_skips_what_cannot_be_read() {
    let mut sys = InMemorySys::new();
    sys.write_executable("/a/tool_1");
    sys.write_unreadable("/a/tool_2");
    sys.write_executable("/c/tool_3");
    let seen = Rc::new(RefCell::new(Vec::new()));
    let config = WhichConfig::new_with_sys(&sys)
        .custom_path_list(String::from("/a:/missing:/c"))
        .regex(Regex::new("^tool_").unwrap())
        .nonfatal_error_handler(Collect { seen: seen.clone() });
    assert!(config.has_regex());
    let found = config.all_results().unwrap().collect();
    assert_eq!(found, texts(&["/a/tool_1", "/c/tool_3"]));
    assert_eq!(
        *seen.borrow(),
        texts(&["read_dir: permission denied", "read_dir: entry not found"])
    );
}

#[test]
fn pattern_first_result() {
    let mut sys = InMemorySys::new();
    sys.set_env_var("PATH", "/a:/b");
    sys.write_executable("/b/cargo-fmt");
    let config = WhichConfig::new_with_sys(&sys).regex(Regex::new("^cargo-.*").unwrap());
    assert_eq!(config.first_result(), Ok(String::from("/b/cargo-fmt")));
    let config = WhichConfig::new_with_sys(&sys).regex(Regex::new("^rustc$").unwrap());
    assert_eq!(config.first_result(), Err(Error::CannotFindBinaryPath));
}

#[test]
fn path_wrappers() {
    let mut sys = InMemorySys::new();
    sys.set_env_var("PATH", "/a:/b");
    sys.write_executable("/a/tool");
    sys.write_executable("/b/tool");
    let path = which::Path::new(&sys, "tool").unwrap();
    assert_eq!(path.as_path(), "/a/tool");
    assert_eq!(path.clone().into_path_buf(), String::from("/a/tool"));
    assert!(path == which::Path::new_in(&sys, "tool", Some("/a"), "/project").unwrap());
    assert!(path != which::Path::new_in(&sys, "tool", Some("/b"), "/project").unwrap());
    let all: Vec<String> = which::Path::all(&sys, "tool")
        .unwrap()
        .into_iter()
        .map(|p| p.into_path_buf())
        .collect();
    assert_eq!(all, texts(&["/a/tool", "/b/tool"]));
    let all = which::Path::all_in(&sys, "tool", Some("/b"), "/project").unwrap();
    assert_eq!(all.len(), 1);
    assert_eq!(all[0].as_path(), "/b/tool");
    assert!(matches!(
        which::Path::new(&sys, "missing"),
        Err(Error::CannotFindBinaryPath)
    ));
}

#[test]
fn canonical_path_from_outcome() {
    let canonical = CanonicalPath::from_canonicalized(Ok(String::from("/usr/bin/tool"))).unwrap();
    assert_eq!(canonical.as_path(), "/usr/bin/tool");
    assert_eq!(canonical.into_path_buf(), String::from("/usr/bin/tool"));
    let failed = CanonicalPath::from_canonicalized(Err(not_found("canonicalize")));
    assert!(matches!(failed, Err(Error::CannotCanonicalize)));
}

#[test]
fn error_messages() {
    assert_eq!(Error::BadAbsolutePath.message(), "bad absolute path");
    assert_eq!(Error::BadRelativePath.message(), "bad relative path");
    assert_eq!(Error::CannotFindBinaryPath.message(), "cannot find binary path");
    assert_eq!(Error::CannotGetCurrentDir.message(), "cannot get current directory");
    assert_eq!(
        Error::CannotGetCurrentDirAndPathListEmpty.message(),
        "no path to search and provided name had no directory separator"
    );
    assert_eq!(Error::CannotCanonicalize.message(), "cannot canonicalize path");
    let e = NonFatalError::Io(not_found("metadata"));
    assert_eq!(e.message(), "metadata: entry not found");
}

#[test]
fn parse_path_ext_keeps_dotted_pieces() {
    assert_eq!(
        which::sys::parse_path_ext(Some(String::from(".COM;.EXE;bad;;.CMD"))),
        texts(&[".COM", ".EXE", ".CMD"])
    );
    assert_eq!(
        which::sys::parse_path_ext(Some(String::from("EXE"))),
        Vec::<String>::new()
    );
    assert_eq!(
        which::sys::parse_path_ext(Some(String::from(".EXE;"))),
        texts(&[".EXE"])
    );
    assert_eq!(which::sys::parse_path_ext(None), Vec::<String>::new());
}
