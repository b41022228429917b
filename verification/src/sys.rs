use vstd::prelude::*;

verus! {

/// What a system answers: what was asked for, or its error.
pub type IoResult<T> = std::result::Result<T, std::io::Error>;

/// One entry of a directory listing.
///
/// The spec functions say what the methods of the same name answer. A type
/// that does not define them is taken to answer by some function of the value
/// alone, whatever that function is.
pub trait SysReadDirEntry {
    /// The name of the entry, without its directory.
    closed spec fn file_name_spec(&self) -> Seq<char> {
        vstd::pervasive::arbitrary::<spec_fn(&Self) -> Seq<char>>()(self)
    }

    /// The full path of the entry.
    closed spec fn path_spec(&self) -> Seq<char> {
        vstd::pervasive::arbitrary::<spec_fn(&Self) -> Seq<char>>()(self)
    }

    /// Gets the file name of the directory entry, not the full path.
    fn file_name(&self) -> (name: String)
        ensures
            name@ == self.file_name_spec(),
    ;

    /// Gets the full path of the directory entry.
    fn path(&self) -> (path: String)
        ensures
            path@ == self.path_spec(),
    ;
}

/// What the system knows of one path.
///
/// The spec functions say what the methods of the same name answer. A type
/// that does not define them is taken to answer by some function of the value
/// alone, whatever that function is.
pub trait SysMetadata {
    /// What `is_symlink` answers.
    closed spec fn is_symlink_spec(&self) -> bool {
        vstd::pervasive::arbitrary::<spec_fn(&Self) -> bool>()(self)
    }

    /// What `is_file` answers.
    closed spec fn is_file_spec(&self) -> bool {
        vstd::pervasive::arbitrary::<spec_fn(&Self) -> bool>()(self)
    }

    /// Gets if the path is a symlink.
    fn is_symlink(&self) -> (b: bool)
        ensures
            b == self.is_symlink_spec(),
    ;

    /// Gets if the path is a file.
    fn is_file(&self) -> (b: bool)
        ensures
            b == self.is_file_spec(),
    ;
}

/// The view of a path that a `Sys` handed out, or the error it gave.
pub open spec fn text_of(r: IoResult<String>) -> IoResult<Seq<char>> {
    match r {
        Ok(s) => Ok(s@),
        Err(e) => Err(e),
    }
}

/// The view of an optional text.
pub open spec fn text_of_option(o: Option<String>) -> Option<Seq<char>> {
    match o {
        Some(s) => Some(s@),
        None => None,
    }
}

/// The views of a list of texts.
pub open spec fn texts_of(v: Seq<String>) -> Seq<Seq<char>> {
    Seq::new(v.len(), |i: int| v[i]@)
}

/// What a system knows of a path, as plain values.
pub struct FileKind {
    pub is_file: bool,
    pub is_symlink: bool,
}

/// An entry of a directory listing, as plain values.
pub struct DirItem {
    pub file_name: Seq<char>,
    pub path: Seq<char>,
}

/// What a `Sys` said of a path, as plain values, or the error it gave.
pub open spec fn kind_of<M: SysMetadata>(r: IoResult<M>) -> IoResult<FileKind> {
    match r {
        Ok(m) => Ok(FileKind { is_file: m.is_file_spec(), is_symlink: m.is_symlink_spec() }),
        Err(e) => Err(e),
    }
}

/// An item of a directory listing that a `Sys` handed out, as plain values.
pub open spec fn item_of<E: SysReadDirEntry>(
    r: IoResult<E>,
) -> IoResult<DirItem> {
    match r {
        Ok(entry) => Ok(DirItem { file_name: entry.file_name_spec(), path: entry.path_spec() }),
        Err(e) => Err(e),
    }
}

/// The items of a directory listing that a `Sys` handed out, as plain values.
pub open spec fn items_of<E: SysReadDirEntry>(
    v: Seq<IoResult<E>>,
) -> Seq<IoResult<DirItem>> {
    Seq::new(v.len(), |i: int| item_of(v[i]))
}

/// A directory listing that a `Sys` handed out, as plain values, or the error
/// it gave.
pub open spec fn listing_of<E: SysReadDirEntry>(
    r: IoResult<Vec<IoResult<E>>>,
) -> IoResult<Seq<IoResult<DirItem>>> {
    match r {
        Ok(v) => Ok(items_of(v@)),
        Err(e) => Err(e),
    }
}

/// The system that a search looks at: its environment and its file system.
///
/// A value of a type with this trait stands for one state of that system. Each
/// method answers as the spec function of its name says, so two calls with the
/// same arguments give the same answer. A type that does not define the spec
/// functions is taken to answer by some function of the value and the
/// arguments alone, whatever that function is. What the library states of a
/// search holds of a run during which the system does not change.
pub trait Sys {
    type ReadDirEntry: SysReadDirEntry;

    type Metadata: SysMetadata;

    /// What `is_windows` answers.
    closed spec fn is_windows_spec(&self) -> bool {
        vstd::pervasive::arbitrary::<spec_fn(&Self) -> bool>()(self)
    }

    /// What `current_dir` answers.
    closed spec fn current_dir_spec(&self) -> IoResult<Seq<char>> {
        vstd::pervasive::arbitrary::<spec_fn(&Self) -> IoResult<Seq<char>>>()(self)
    }

    /// What `home_dir` answers.
    closed spec fn home_dir_spec(&self) -> Option<Seq<char>> {
        vstd::pervasive::arbitrary::<spec_fn(&Self) -> Option<Seq<char>>>()(self)
    }

    /// What `env_split_paths` answers.
    closed spec fn env_split_paths_spec(&self, paths: Seq<char>) -> Seq<Seq<char>> {
        vstd::pervasive::arbitrary::<spec_fn(&Self, Seq<char>) -> Seq<Seq<char>>>()(self, paths)
    }

    /// What `env_path` answers.
    closed spec fn env_path_spec(&self) -> Option<Seq<char>> {
        vstd::pervasive::arbitrary::<spec_fn(&Self) -> Option<Seq<char>>>()(self)
    }

    /// What `env_path_ext` answers.
    closed spec fn env_path_ext_spec(&self) -> Option<Seq<char>> {
        vstd::pervasive::arbitrary::<spec_fn(&Self) -> Option<Seq<char>>>()(self)
    }

    /// What `metadata` answers.
    closed spec fn metadata_spec(&self, path: Seq<char>) -> IoResult<FileKind> {
        vstd::pervasive::arbitrary::<spec_fn(&Self, Seq<char>) -> IoResult<FileKind>>()(self, path)
    }

    /// What `symlink_metadata` answers.
    closed spec fn symlink_metadata_spec(&self, path: Seq<char>) -> IoResult<FileKind> {
        vstd::pervasive::arbitrary::<spec_fn(&Self, Seq<char>) -> IoResult<FileKind>>()(self, path)
    }

    /// What `read_dir` answers.
    closed spec fn read_dir_spec(&self, path: Seq<char>) -> IoResult<Seq<IoResult<DirItem>>> {
        vstd::pervasive::arbitrary::<spec_fn(&Self, Seq<char>) -> IoResult<Seq<IoResult<DirItem>>>>()(
            self,
            path,
        )
    }

    /// What `is_valid_executable` answers.
    closed spec fn is_valid_executable_spec(&self, path: Seq<char>) -> IoResult<bool> {
        vstd::pervasive::arbitrary::<spec_fn(&Self, Seq<char>) -> IoResult<bool>>()(self, path)
    }

    /// Check if the current platform is Windows, that is, whether a file is
    /// taken for runnable by its suffix and not by a permission bit.
    fn is_windows(&self) -> (b: bool)
        ensures
            b == self.is_windows_spec(),
    ;

    /// Gets the current working directory.
    fn current_dir(&self) -> (r: IoResult<String>)
        ensures
            text_of(r) == self.current_dir_spec(),
    ;

    /// Gets the home directory of the current user.
    fn home_dir(&self) -> (r: Option<String>)
        ensures
            text_of_option(r) == self.home_dir_spec(),
    ;

    /// Splits a platform-specific PATH variable into a list of paths.
    fn env_split_paths(&self, paths: &str) -> (r: Vec<String>)
        ensures
            texts_of(r@) == self.env_split_paths_spec(paths@),
    ;

    /// Gets the value of the PATH environment variable.
    fn env_path(&self) -> (r: Option<String>)
        ensures
            text_of_option(r) == self.env_path_spec(),
    ;

    /// Gets the value of the PATHEXT environment variable. If not on Windows, simply return None.
    fn env_path_ext(&self) -> (r: Option<String>)
        ensures
            text_of_option(r) == self.env_path_ext_spec(),
    ;

    /// Gets and parses the PATHEXT environment variable on Windows.
    ///
    /// Override this to enable caching the parsed PATHEXT.
    fn env_windows_path_ext(&self) -> (r: Vec<String>)
        ensures
            texts_of(r@) == parse_path_ext_spec(self.env_path_ext_spec()),
    {
        parse_path_ext(self.env_path_ext())
    }

    /// Gets the metadata of the provided path, following symlinks.
    fn metadata(&self, path: &str) -> (r: IoResult<Self::Metadata>)
        ensures
            kind_of(r) == self.metadata_spec(path@),
    ;

    /// Gets the metadata of the provided path, not following symlinks.
    fn symlink_metadata(&self, path: &str) -> (r: IoResult<Self::Metadata>)
        ensures
            kind_of(r) == self.symlink_metadata_spec(path@),
    ;

    /// Reads the directory entries of the provided path.
    fn read_dir(&self, path: &str) -> (r: IoResult<Vec<IoResult<Self::ReadDirEntry>>>)
        ensures
            listing_of(r) == self.read_dir_spec(path@),
    ;

    /// Checks if the provided path is a valid executable.
    fn is_valid_executable(&self, path: &str) -> (r: IoResult<bool>)
        ensures
            r == self.is_valid_executable_spec(path@),
    ;
}

impl<T: Sys> Sys for &T {
    type ReadDirEntry = T::ReadDirEntry;

    type Metadata = T::Metadata;

    open spec fn is_windows_spec(&self) -> bool {
        (**self).is_windows_spec()
    }

    open spec fn current_dir_spec(&self) -> IoResult<Seq<char>> {
        (**self).current_dir_spec()
    }

    open spec fn home_dir_spec(&self) -> Option<Seq<char>> {
        (**self).home_dir_spec()
    }

    open spec fn env_split_paths_spec(&self, paths: Seq<char>) -> Seq<Seq<char>> {
        (**self).env_split_paths_spec(paths)
    }

    open spec fn env_path_spec(&self) -> Option<Seq<char>> {
        (**self).env_path_spec()
    }

    open spec fn env_path_ext_spec(&self) -> Option<Seq<char>> {
        (**self).env_path_ext_spec()
    }

    open spec fn metadata_spec(&self, path: Seq<char>) -> IoResult<FileKind> {
        (**self).metadata_spec(path)
    }

    open spec fn symlink_metadata_spec(&self, path: Seq<char>) -> IoResult<FileKind> {
        (**self).symlink_metadata_spec(path)
    }

    open spec fn read_dir_spec(&self, path: Seq<char>) -> IoResult<Seq<IoResult<DirItem>>> {
        (**self).read_dir_spec(path)
    }

    open spec fn is_valid_executable_spec(&self, path: Seq<char>) -> IoResult<bool> {
        (**self).is_valid_executable_spec(path)
    }

    fn is_windows(&self) -> bool {
        (**self).is_windows()
    }

    fn current_dir(&self) -> IoResult<String> {
        (**self).current_dir()
    }

    fn home_dir(&self) -> Option<String> {
        (**self).home_dir()
    }

    fn env_split_paths(&self, paths: &str) -> Vec<String> {
        (**self).env_split_paths(paths)
    }

    fn env_path(&self) -> Option<String> {
        (**self).env_path()
    }

    fn env_path_ext(&self) -> Option<String> {
        (**self).env_path_ext()
    }

    fn env_windows_path_ext(&self) -> Vec<String> {
        (**self).env_windows_path_ext()
    }

    fn metadata(&self, path: &str) -> IoResult<Self::Metadata> {
        (**self).metadata(path)
    }

    fn symlink_metadata(&self, path: &str) -> IoResult<Self::Metadata> {
        (**self).symlink_metadata(path)
    }

    fn read_dir(&self, path: &str) -> IoResult<Vec<IoResult<Self::ReadDirEntry>>> {
        (**self).read_dir(path)
    }

    fn is_valid_executable(&self, path: &str) -> IoResult<bool> {
        (**self).is_valid_executable(path)
    }
}

/// A piece of the suffix variable that is a suffix: it starts with a `.`.
pub open spec fn is_suffix_entry(piece: Seq<char>) -> bool {
    piece.len() > 0 && piece[0] == '.'
}

/// The suffixes among the pieces of `t` from position `i` on, `t` being cut at
/// each `;`. `i` is the start of a piece.
pub open spec fn suffix_entries_from(t: Seq<char>, i: int) -> Seq<Seq<char>>
    decreases t.len() - i,
{
    if i < 0 || i >= t.len() {
        Seq::empty()
    } else {
        let e = crate::helper::piece_end(t, ';', i);
        let first = if is_suffix_entry(t.subrange(i, e)) {
            seq![t.subrange(i, e)]
        } else {
            Seq::empty()
        };
        if i <= e < t.len() {
            first + suffix_entries_from(t, e + 1)
        } else {
            first
        }
    }
}

/// The list of suffixes that the value of the suffix variable stands for: its
/// pieces between `;`, in their order, but for those that do not start with a
/// `.`. A variable that is not set stands for the empty list.
pub open spec fn parse_path_ext_spec(pathext: Option<Seq<char>>) -> Seq<Seq<char>> {
    match pathext {
        Some(t) => suffix_entries_from(t, 0),
        None => Seq::empty(),
    }
}

/// Every suffix of the list starts with a `.`.
pub proof fn lemma_suffix_entries_start_with_dot(t: Seq<char>, i: int)
    requires
        0 <= i,
    ensures
        forall|k: int|
            0 <= k < suffix_entries_from(t, i).len() ==> is_suffix_entry(
                #[trigger] suffix_entries_from(t, i)[k],
            ),
    decreases t.len() - i,
{
    if i < t.len() {
        crate::helper::lemma_piece_end(t, ';', i);
        let e = crate::helper::piece_end(t, ';', i);
        let first = if is_suffix_entry(t.subrange(i, e)) {
            seq![t.subrange(i, e)]
        } else {
            Seq::empty()
        };
        let rest = if e < t.len() {
            suffix_entries_from(t, e + 1)
        } else {
            Seq::empty()
        };
        if e < t.len() {
            lemma_suffix_entries_start_with_dot(t, e + 1);
        }
        let all = suffix_entries_from(t, i);
        assert(all == first + rest);
        assert forall|k: int| 0 <= k < all.len() implies is_suffix_entry(#[trigger] all[k]) by {}
    }
}

/// Parses the value of the suffix variable into the list of suffixes.
pub fn parse_path_ext(pathext: Option<String>) -> (r: Vec<String>)
    ensures
        texts_of(r@) == parse_path_ext_spec(text_of_option(pathext)),
{
    let mut list: Vec<String> = Vec::new();
    let text: String = match pathext {
        Some(text) => text,
        None => {
            return list;
        },
    };
    let t: &str = text.as_str();
    let n: usize = t.unicode_len();
    let mut start: usize = 0;
    let mut i: usize = 0;
    while i < n
        invariant
            n == t@.len(),
            start <= i <= n,
            forall|j: int| start <= j < i ==> t@[j] != ';',
            suffix_entries_from(t@, 0) == texts_of(list@) + suffix_entries_from(t@, start as int),
        decreases n - i,
    {
        if t.get_char(i) == ';' {
            proof {
                crate::helper::lemma_piece_end_is(t@, ';', start as int, i as int);
            }
            if i > start && t.get_char(start) == '.' {
                list.push(String::from_str(t.substring_char(start, i)));
            }
            start = i + 1;
        }
        i += 1;
    }
    proof {
        crate::helper::lemma_piece_end_is(t@, ';', start as int, n as int);
    }
    if n > start && t.get_char(start) == '.' {
        list.push(String::from_str(t.substring_char(start, n)));
    }
    list
}

} // verus!
