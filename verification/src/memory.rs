use crate::helper::{eq_ignore_ascii_case, names_of, push, text_eq};
use crate::sys::{IoResult, Sys, SysMetadata, SysReadDirEntry};
use vstd::prelude::*;

verus! {

/// The error that `std::io::Error::new` makes of the kind `NotFound` and a
/// message.
pub uninterp spec fn not_found_error(message: Seq<char>) -> std::io::Error;

/// `std::io::Error::new` makes an error of a kind and of what is to be said
/// of it; here the kind is `NotFound` and the rest is `message`. The error is
/// made of these two alone, and `not_found_error` names it.
#[verifier::external_body]
fn not_found(message: &str) -> (e: std::io::Error)
    ensures
        e == not_found_error(message@),
{
    std::io::Error::new(std::io::ErrorKind::NotFound, message.to_string())
}

/// What stands at a path of a system in memory.
pub enum Node {
    Directory,
    File { is_valid_executable: bool },
    Symlink { to: String },
}

/// What stands at a path, as plain values.
pub enum NodeModel {
    Directory,
    File { is_valid_executable: bool },
    Symlink { to: Seq<char> },
}

/// A path of a system in memory, given by its names from the root on, and
/// what stands there, as plain values.
pub struct Row {
    pub key: Seq<Seq<char>>,
    pub node: NodeModel,
}

/// A path of the file system, by its names from the root on, and what stands
/// there.
struct Entry {
    key: Vec<String>,
    node: Node,
}

impl Node {
    /// The node as plain values.
    pub open spec fn model(&self) -> NodeModel {
        match self {
            Node::Directory => NodeModel::Directory,
            Node::File { is_valid_executable } => NodeModel::File {
                is_valid_executable: *is_valid_executable,
            },
            Node::Symlink { to } => NodeModel::Symlink { to: to@ },
        }
    }
}

impl Entry {
    /// The entry as plain values.
    closed spec fn row(&self) -> Row {
        Row { key: crate::sys::texts_of(self.key@), node: self.node.model() }
    }
}

/// Whether two names are the same for a system: letter for letter, or, where
/// case does not tell names apart, but for the case of their letters.
pub open spec fn same_name(windows: bool, a: Seq<char>, b: Seq<char>) -> bool {
    if windows {
        crate::helper::eq_ignore_ascii_case_spec(a, b)
    } else {
        a == b
    }
}

/// Whether two paths are the same for a system, name by name.
pub open spec fn same_key(windows: bool, a: Seq<Seq<char>>, b: Seq<Seq<char>>) -> bool {
    &&& a.len() == b.len()
    &&& forall|i: int| 0 <= i < a.len() ==> same_name(windows, #[trigger] a[i], b[i])
}

/// The index of the first row with the path `key`, or the number of rows where
/// there is none.
pub open spec fn find_row(table: Seq<Row>, windows: bool, key: Seq<Seq<char>>) -> int
    decreases table.len(),
{
    if table.len() == 0 {
        0
    } else if same_key(windows, table[0].key, key) {
        0
    } else {
        1 + find_row(table.drop_first(), windows, key)
    }
}

/// What stands at the path `key`: the node of the first row with that path.
/// The root, which has no name, is a directory.
pub open spec fn node_at(table: Seq<Row>, windows: bool, key: Seq<Seq<char>>) -> Option<
    NodeModel,
> {
    if key.len() == 0 {
        Some(NodeModel::Directory)
    } else if find_row(table, windows, key) < table.len() {
        Some(table[find_row(table, windows, key)].node)
    } else {
        None
    }
}

/// Where a path leads through symbolic links, and what stands there. Each
/// link is followed to its target, `fuel` links at most: a chain of links that
/// is longer leads nowhere.
pub open spec fn follow(table: Seq<Row>, windows: bool, key: Seq<Seq<char>>, fuel: nat) -> Option<
    (Seq<Seq<char>>, NodeModel),
>
    decreases fuel,
{
    match node_at(table, windows, key) {
        None => None,
        Some(NodeModel::Symlink { to }) => if fuel == 0 {
            None
        } else {
            follow(table, windows, crate::helper::names(to), (fuel - 1) as nat)
        },
        Some(node) => Some((key, node)),
    }
}

/// Where a path leads, and what stands there. As many links are followed as
/// the table has rows: a chain of more links than that runs in a circle.
pub open spec fn resolve(table: Seq<Row>, windows: bool, path: Seq<char>) -> Option<
    (Seq<Seq<char>>, NodeModel),
> {
    follow(table, windows, crate::helper::names(path), table.len())
}

/// What a system tells of a node.
pub open spec fn kind(node: NodeModel) -> crate::sys::FileKind {
    crate::sys::FileKind { is_file: node is File, is_symlink: node is Symlink }
}

/// Whether a row stands for an entry of the directory `dir`: its path is that
/// of the directory and one name more.
pub open spec fn is_child(windows: bool, key: Seq<Seq<char>>, dir: Seq<Seq<char>>) -> bool {
    key.len() == dir.len() + 1 && same_key(windows, key.drop_last(), dir)
}

/// The entries of the directory `dir` among the first `n` rows, in the order
/// of the rows, each with the path under which the directory was asked for and
/// its name added.
pub open spec fn children(
    table: Seq<Row>,
    windows: bool,
    dir: Seq<Seq<char>>,
    path: Seq<char>,
    n: nat,
) -> Seq<IoResult<crate::sys::DirItem>>
    decreases n,
{
    if n == 0 {
        Seq::empty()
    } else {
        let before = children(table, windows, dir, path, (n - 1) as nat);
        let key = table[n - 1].key;
        if is_child(windows, key, dir) {
            before.push(
                Ok(
                    crate::sys::DirItem {
                        file_name: key.last(),
                        path: crate::helper::push_spec(path, key.last()),
                    },
                ),
            )
        } else {
            before
        }
    }
}

/// The pieces of a search list from position `i` on that are not empty. `i`
/// is the start of a piece.
pub open spec fn pieces_from(t: Seq<char>, sep: char, i: int) -> Seq<Seq<char>>
    decreases t.len() - i,
{
    if i < 0 || i >= t.len() {
        Seq::empty()
    } else {
        let e = crate::helper::piece_end(t, sep, i);
        let first = if e > i {
            seq![t.subrange(i, e)]
        } else {
            Seq::empty()
        };
        if i <= e < t.len() {
            first + pieces_from(t, sep, e + 1)
        } else {
            first
        }
    }
}

/// The character that stands between the directories of a search list.
pub open spec fn list_separator(windows: bool) -> char {
    if windows {
        ';'
    } else {
        ':'
    }
}

/// What a system in memory knows of a path.
pub struct MemoryMetadata {
    is_symlink: bool,
    is_file: bool,
}

impl SysMetadata for MemoryMetadata {
    closed spec fn is_symlink_spec(&self) -> bool {
        self.is_symlink
    }

    closed spec fn is_file_spec(&self) -> bool {
        self.is_file
    }

    fn is_symlink(&self) -> bool {
        self.is_symlink
    }

    fn is_file(&self) -> bool {
        self.is_file
    }
}

/// An entry of a directory of a system in memory.
pub struct MemoryDirEntry {
    name: String,
    path: String,
}

impl SysReadDirEntry for MemoryDirEntry {
    closed spec fn file_name_spec(&self) -> Seq<char> {
        self.name@
    }

    closed spec fn path_spec(&self) -> Seq<char> {
        self.path@
    }

    fn file_name(&self) -> String {
        self.name.clone()
    }

    fn path(&self) -> String {
        self.path.clone()
    }
}

/// A system in memory: an environment and a file system that are what they
/// were set to, for searches whose outcome is to be known beforehand.
pub struct MemorySys {
    is_windows: bool,
    cwd: Option<String>,
    home_dir: Option<String>,
    env_path: Option<String>,
    env_path_ext: Option<String>,
    entries: Vec<Entry>,
}

/// Compares two names as a system does.
fn names_match(windows: bool, a: &str, b: &str) -> (r: bool)
    ensures
        r == same_name(windows, a@, b@),
{
    if windows {
        eq_ignore_ascii_case(a, b)
    } else {
        text_eq(a, b)
    }
}

/// Compares two paths as a system does, name by name.
fn keys_match(windows: bool, a: &Vec<String>, b: &Vec<String>) -> (r: bool)
    ensures
        r == same_key(windows, crate::sys::texts_of(a@), crate::sys::texts_of(b@)),
{
    if a.len() != b.len() {
        return false;
    }
    let ghost x = crate::sys::texts_of(a@);
    let ghost y = crate::sys::texts_of(b@);
    let mut i: usize = 0;
    while i < a.len()
        invariant
            a.len() == b.len(),
            i <= a.len(),
            x == crate::sys::texts_of(a@),
            y == crate::sys::texts_of(b@),
            forall|j: int| 0 <= j < i ==> same_name(windows, #[trigger] x[j], y[j]),
        decreases a.len() - i,
    {
        if !names_match(windows, a[i].as_str(), b[i].as_str()) {
            assert(!same_name(windows, x[i as int], y[i as int]));
            return false;
        }
        i += 1;
    }
    true
}

/// The first `k` names of a path.
fn first_names(key: &Vec<String>, k: usize) -> (front: Vec<String>)
    requires
        k <= key.len(),
    ensures
        crate::sys::texts_of(front@) == crate::sys::texts_of(key@).take(k as int),
{
    let mut front: Vec<String> = Vec::new();
    let mut j: usize = 0;
    while j < k
        invariant
            j <= k <= key.len(),
            front@.len() == j,
            forall|m: int| 0 <= m < j ==> (#[trigger] front@[m])@ == key@[m]@,
        decreases k - j,
    {
        front.push(key[j].clone());
        j += 1;
    }
    front
}

/// The table with `node` at the path `key`: in the first row with that path,
/// or in a new row behind the others.
pub open spec fn set_row(
    table: Seq<Row>,
    windows: bool,
    key: Seq<Seq<char>>,
    node: NodeModel,
) -> Seq<Row> {
    let i = find_row(table, windows, key);
    if i < table.len() {
        table.update(i, Row { key: table[i].key, node })
    } else {
        table.push(Row { key, node })
    }
}

/// The table with a directory at each of the first `k` paths that lead to
/// `key`, from the shortest on, where nothing stood there.
pub open spec fn with_dirs(table: Seq<Row>, windows: bool, key: Seq<Seq<char>>, k: nat) -> Seq<Row>
    decreases k,
{
    if k == 0 {
        table
    } else {
        let before = with_dirs(table, windows, key, (k - 1) as nat);
        let prefix = key.take(k as int);
        if find_row(before, windows, prefix) < before.len() {
            before
        } else {
            before.push(Row { key: prefix, node: NodeModel::Directory })
        }
    }
}

/// The table once `node` was written at the path `key`: the directories that
/// lead to the path are there, and the node stands at the path. Nothing can be
/// written at the root.
pub open spec fn inserted(
    table: Seq<Row>,
    windows: bool,
    key: Seq<Seq<char>>,
    node: NodeModel,
) -> Seq<Row> {
    if key.len() == 0 {
        table
    } else {
        set_row(with_dirs(table, windows, key, (key.len() - 1) as nat), windows, key, node)
    }
}

/// The first row with the path `key` is the one at `i` if that one has the
/// path and none before it has; there is none if `i` is the number of rows.
pub proof fn lemma_find_row_is(table: Seq<Row>, windows: bool, key: Seq<Seq<char>>, i: int)
    requires
        0 <= i <= table.len(),
        forall|j: int| 0 <= j < i ==> !same_key(windows, (#[trigger] table[j]).key, key),
        i < table.len() ==> same_key(windows, table[i].key, key),
    ensures
        find_row(table, windows, key) == i,
    decreases table.len(),
{
    if i > 0 {
        let rest = table.drop_first();
        lemma_find_row_is(rest, windows, key, i - 1);
    }
}

/// The first row with the path `key` lies in the table or just behind it; no
/// row before it has the path, and the one at it has.
pub proof fn lemma_find_row(table: Seq<Row>, windows: bool, key: Seq<Seq<char>>)
    ensures
        0 <= find_row(table, windows, key) <= table.len(),
        forall|j: int|
            0 <= j < find_row(table, windows, key) ==> !same_key(
                windows,
                (#[trigger] table[j]).key,
                key,
            ),
        find_row(table, windows, key) < table.len() ==> same_key(
            windows,
            table[find_row(table, windows, key)].key,
            key,
        ),
    decreases table.len(),
{
    if table.len() > 0 && !same_key(windows, table[0].key, key) {
        let rest = table.drop_first();
        lemma_find_row(rest, windows, key);
        assert forall|j: int| 0 <= j < find_row(table, windows, key) implies !same_key(
            windows,
            (#[trigger] table[j]).key,
            key,
        ) by {
            if j > 0 {
                assert(rest[j - 1] == table[j]);
            }
        }
    }
}

/// What is written at a path stands there afterwards.
pub proof fn lemma_written_is_found(
    table: Seq<Row>,
    windows: bool,
    key: Seq<Seq<char>>,
    node: NodeModel,
)
    requires
        key.len() > 0,
    ensures
        node_at(inserted(table, windows, key, node), windows, key) == Some(node),
{
    let before = with_dirs(table, windows, key, (key.len() - 1) as nat);
    let after = set_row(before, windows, key, node);
    lemma_find_row(before, windows, key);
    let i = find_row(before, windows, key);
    lemma_find_row_is(after, windows, key, i);
}

/// The path that is reached from `key` after `k` symbolic links, if `key` and
/// the paths on the way are links.
pub open spec fn after_links(table: Seq<Row>, windows: bool, key: Seq<Seq<char>>, k: nat) -> Option<
    Seq<Seq<char>>,
>
    decreases k,
{
    if k == 0 {
        Some(key)
    } else {
        match node_at(table, windows, key) {
            Some(NodeModel::Symlink { to }) => after_links(
                table,
                windows,
                crate::helper::names(to),
                (k - 1) as nat,
            ),
            _ => None,
        }
    }
}

/// Following a path is following the path that is reached after some of its
/// links, with as many links less to go.
proof fn lemma_follow_after_links(
    table: Seq<Row>,
    windows: bool,
    key: Seq<Seq<char>>,
    k: nat,
    fuel: nat,
)
    requires
        k <= fuel,
        after_links(table, windows, key, k) is Some,
    ensures
        follow(table, windows, key, fuel) == follow(
            table,
            windows,
            after_links(table, windows, key, k).unwrap(),
            (fuel - k) as nat,
        ),
    decreases k,
{
    if k > 0 {
        let to = node_at(table, windows, key).unwrap()->to;
        lemma_follow_after_links(
            table,
            windows,
            crate::helper::names(to),
            (k - 1) as nat,
            (fuel - 1) as nat,
        );
    }
}

/// Where a path is reached after some links, one is reached after fewer, and
/// a link stands there.
proof fn lemma_after_fewer_links(
    table: Seq<Row>,
    windows: bool,
    key: Seq<Seq<char>>,
    k: nat,
    j: nat,
)
    requires
        j < k,
        after_links(table, windows, key, k) is Some,
    ensures
        after_links(table, windows, key, j) is Some,
        node_at(table, windows, after_links(table, windows, key, j).unwrap()) is Some,
        node_at(table, windows, after_links(table, windows, key, j).unwrap()).unwrap() is Symlink,
    decreases j,
{
    if j > 0 {
        let to = node_at(table, windows, key).unwrap()->to;
        lemma_after_fewer_links(
            table,
            windows,
            crate::helper::names(to),
            (k - 1) as nat,
            (j - 1) as nat,
        );
    }
}

/// Symbolic links that run in a circle lead nowhere: a path from which its
/// links lead back to it is not found, however many links are followed.
pub proof fn lemma_circle_leads_nowhere(
    table: Seq<Row>,
    windows: bool,
    key: Seq<Seq<char>>,
    k: nat,
    fuel: nat,
)
    requires
        k >= 1,
        after_links(table, windows, key, k) == Some(key),
    ensures
        follow(table, windows, key, fuel) is None,
    decreases fuel,
{
    if fuel >= k {
        lemma_follow_after_links(table, windows, key, k, fuel);
        lemma_circle_leads_nowhere(table, windows, key, k, (fuel - k) as nat);
    } else {
        lemma_after_fewer_links(table, windows, key, k, fuel);
        lemma_follow_after_links(table, windows, key, fuel, fuel);
    }
}

impl MemorySys {
    /// Whether case does not tell names apart, and files are runnable by
    /// their suffix.
    pub closed spec fn windows(&self) -> bool {
        self.is_windows
    }

    /// The working directory, if there is one.
    pub closed spec fn working_dir(&self) -> Option<Seq<char>> {
        crate::sys::text_of_option(self.cwd)
    }

    /// The home directory, if there is one.
    pub closed spec fn home(&self) -> Option<Seq<char>> {
        crate::sys::text_of_option(self.home_dir)
    }

    /// The search list of the environment, if it is set.
    pub closed spec fn path_var(&self) -> Option<Seq<char>> {
        crate::sys::text_of_option(self.env_path)
    }

    /// The suffix variable of the environment, if it is set.
    pub closed spec fn path_ext_var(&self) -> Option<Seq<char>> {
        crate::sys::text_of_option(self.env_path_ext)
    }

    /// The file system: its paths and what stands at each.
    pub closed spec fn table(&self) -> Seq<Row> {
        Seq::new(self.entries@.len(), |i: int| self.entries@[i].row())
    }

    /// Whether `other` differs from this system in its file system at most.
    pub open spec fn same_environment(&self, other: &Self) -> bool {
        &&& other.windows() == self.windows()
        &&& other.working_dir() == self.working_dir()
        &&& other.home() == self.home()
        &&& other.path_var() == self.path_var()
        &&& other.path_ext_var() == self.path_ext_var()
    }

    /// A system without environment and files, on which a file is runnable by
    /// a permission bit, or, with `is_windows`, by its suffix.
    pub fn new(is_windows: bool) -> (sys: Self)
        ensures
            sys.windows() == is_windows,
            sys.working_dir() is None,
            sys.home() is None,
            sys.path_var() is None,
            sys.path_ext_var() is None,
            sys.table() == Seq::<Row>::empty(),
    {
        let sys = MemorySys {
            is_windows,
            cwd: None,
            home_dir: None,
            env_path: None,
            env_path_ext: None,
            entries: Vec::new(),
        };
        sys
    }

    /// Sets the working directory, or takes it away.
    pub fn set_current_dir(&mut self, cwd: Option<String>)
        ensures
            final(self).working_dir() == crate::sys::text_of_option(cwd),
            final(self).windows() == old(self).windows(),
            final(self).home() == old(self).home(),
            final(self).path_var() == old(self).path_var(),
            final(self).path_ext_var() == old(self).path_ext_var(),
            final(self).table() == old(self).table(),
    {
        self.cwd = cwd;
    }

    /// Sets the home directory, or takes it away.
    pub fn set_home_dir(&mut self, home_dir: Option<String>)
        ensures
            final(self).home() == crate::sys::text_of_option(home_dir),
            final(self).windows() == old(self).windows(),
            final(self).working_dir() == old(self).working_dir(),
            final(self).path_var() == old(self).path_var(),
            final(self).path_ext_var() == old(self).path_ext_var(),
            final(self).table() == old(self).table(),
    {
        self.home_dir = home_dir;
    }

    /// Sets the search list of the environment, or takes it away.
    pub fn set_env_path(&mut self, paths: Option<String>)
        ensures
            final(self).path_var() == crate::sys::text_of_option(paths),
            final(self).windows() == old(self).windows(),
            final(self).working_dir() == old(self).working_dir(),
            final(self).home() == old(self).home(),
            final(self).path_ext_var() == old(self).path_ext_var(),
            final(self).table() == old(self).table(),
    {
        self.env_path = paths;
    }

    /// Sets the suffix variable of the environment, or takes it away.
    pub fn set_env_path_ext(&mut self, path_ext: Option<String>)
        ensures
            final(self).path_ext_var() == crate::sys::text_of_option(path_ext),
            final(self).windows() == old(self).windows(),
            final(self).working_dir() == old(self).working_dir(),
            final(self).home() == old(self).home(),
            final(self).path_var() == old(self).path_var(),
            final(self).table() == old(self).table(),
    {
        self.env_path_ext = path_ext;
    }

    /// Writes `node` at `path`, and a directory at each path that leads to it
    /// where nothing stands yet.
    fn insert(&mut self, path: &str, node: Node)
        ensures
            old(self).same_environment(final(self)),
            final(self).table() == inserted(
                old(self).table(),
                old(self).windows(),
                crate::helper::names(path@),
                node.model(),
            ),
    {
        let key = names_of(path);
        if key.len() == 0 {
            return;
        }
        let ghost start = self.table();
        let ghost wanted = crate::sys::texts_of(key@);
        let mut k: usize = 1;
        while k < key.len()
            invariant
                1 <= k <= key.len(),
                wanted == crate::sys::texts_of(key@),
                old(self).same_environment(self),
                self.table() == with_dirs(start, self.is_windows, wanted, (k - 1) as nat),
            decreases key.len() - k,
        {
            let prefix = first_names(&key, k);
            let i = self.find(&prefix);
            if i == self.entries.len() {
                self.entries.push(Entry { key: prefix, node: Node::Directory });
            }
            k += 1;
        }
        let i = self.find(&key);
        let ghost before = self.table();
        if i < self.entries.len() {
            let existing = first_names(&self.entries[i].key, self.entries[i].key.len());
            assert(crate::sys::texts_of(existing@) =~= before[i as int].key);
            self.entries.set(i, Entry { key: existing, node });
        } else {
            self.entries.push(Entry { key, node });
        }
    }

    /// Makes a directory at `path`, and each directory that leads to it.
    pub fn create_directory(&mut self, path: &str)
        ensures
            old(self).same_environment(final(self)),
            final(self).table() == inserted(
                old(self).table(),
                old(self).windows(),
                crate::helper::names(path@),
                NodeModel::Directory,
            ),
    {
        self.insert(path, Node::Directory);
    }

    /// Writes a file at `path` that can be run.
    pub fn write_executable(&mut self, path: &str)
        ensures
            old(self).same_environment(final(self)),
            final(self).table() == inserted(
                old(self).table(),
                old(self).windows(),
                crate::helper::names(path@),
                NodeModel::File { is_valid_executable: true },
            ),
    {
        self.insert(path, Node::File { is_valid_executable: true });
    }

    /// Writes a file at `path` that cannot be run.
    pub fn write_non_executable(&mut self, path: &str)
        ensures
            old(self).same_environment(final(self)),
            final(self).table() == inserted(
                old(self).table(),
                old(self).windows(),
                crate::helper::names(path@),
                NodeModel::File { is_valid_executable: false },
            ),
    {
        self.insert(path, Node::File { is_valid_executable: false });
    }

    /// Makes a symbolic link at `from` that leads to `to`.
    pub fn create_symlink(&mut self, from: &str, to: &str)
        ensures
            old(self).same_environment(final(self)),
            final(self).table() == inserted(
                old(self).table(),
                old(self).windows(),
                crate::helper::names(from@),
                NodeModel::Symlink { to: to@ },
            ),
    {
        self.insert(from, Node::Symlink { to: String::from_str(to) });
    }

    /// Finds the first row with the path `key`.
    fn find(&self, key: &Vec<String>) -> (i: usize)
        ensures
            i == find_row(self.table(), self.windows(), crate::sys::texts_of(key@)),
            i <= self.entries.len(),
    {
        let ghost table = self.table();
        let ghost wanted = crate::sys::texts_of(key@);
        let mut i: usize = 0;
        while i < self.entries.len()
            invariant
                i <= self.entries.len(),
                table == self.table(),
                wanted == crate::sys::texts_of(key@),
                forall|j: int|
                    0 <= j < i ==> !same_key(self.is_windows, (#[trigger] table[j]).key, wanted),
            decreases self.entries.len() - i,
        {
            if keys_match(self.is_windows, &self.entries[i].key, key) {
                proof {
                    lemma_find_row_is(table, self.is_windows, wanted, i as int);
                }
                return i;
            }
            i += 1;
        }
        proof {
            lemma_find_row_is(table, self.is_windows, wanted, i as int);
        }
        i
    }

    /// Follows `path` through symbolic links. Gives the path that is reached,
    /// by its names, and the row that stands for it; for the root, which has
    /// no row, the number of rows.
    fn locate(&self, path: &str) -> (r: Option<(Vec<String>, usize)>)
        ensures
            match r {
                Some((key, i)) => {
                    let found = resolve(self.table(), self.windows(), path@);
                    &&& found is Some
                    &&& found.unwrap().0 == crate::sys::texts_of(key@)
                    &&& i <= self.table().len()
                    &&& i == self.table().len() ==> key@.len() == 0 && found.unwrap().1
                        is Directory
                    &&& i < self.table().len() ==> found.unwrap().1 == self.table()[i as int].node
                    &&& !(found.unwrap().1 is Symlink)
                },
                None => resolve(self.table(), self.windows(), path@) is None,
            },
    {
        let ghost table = self.table();
        let mut key = names_of(path);
        let mut fuel: usize = self.entries.len();
        loop
            invariant
                table == self.table(),
                fuel <= self.entries.len(),
                resolve(table, self.is_windows, path@) == follow(
                    table,
                    self.is_windows,
                    crate::sys::texts_of(key@),
                    fuel as nat,
                ),
            decreases fuel,
        {
            if key.len() == 0 {
                return Some((key, self.entries.len()));
            }
            let i = self.find(&key);
            if i == self.entries.len() {
                return None;
            }
            match &self.entries[i].node {
                Node::Symlink { to } => {
                    if fuel == 0 {
                        return None;
                    }
                    fuel -= 1;
                    key = names_of(to.as_str());
                },
                _ => {
                    return Some((key, i));
                },
            }
        }
    }
}

impl Sys for MemorySys {
    type ReadDirEntry = MemoryDirEntry;

    type Metadata = MemoryMetadata;

    open spec fn is_windows_spec(&self) -> bool {
        self.windows()
    }

    open spec fn current_dir_spec(&self) -> IoResult<Seq<char>> {
        match self.working_dir() {
            Some(dir) => Ok(dir),
            None => Err(not_found_error("current_dir: no working directory"@)),
        }
    }

    open spec fn home_dir_spec(&self) -> Option<Seq<char>> {
        self.home()
    }

    open spec fn env_split_paths_spec(&self, paths: Seq<char>) -> Seq<Seq<char>> {
        pieces_from(paths, list_separator(self.windows()), 0)
    }

    open spec fn env_path_spec(&self) -> Option<Seq<char>> {
        self.path_var()
    }

    open spec fn env_path_ext_spec(&self) -> Option<Seq<char>> {
        self.path_ext_var()
    }

    open spec fn metadata_spec(&self, path: Seq<char>) -> IoResult<crate::sys::FileKind> {
        match resolve(self.table(), self.windows(), path) {
            Some((_, node)) => Ok(kind(node)),
            None => Err(not_found_error("metadata: entry not found"@)),
        }
    }

    open spec fn symlink_metadata_spec(&self, path: Seq<char>) -> IoResult<crate::sys::FileKind> {
        match node_at(self.table(), self.windows(), crate::helper::names(path)) {
            Some(node) => Ok(kind(node)),
            None => Err(not_found_error("metadata: entry not found"@)),
        }
    }

    open spec fn read_dir_spec(&self, path: Seq<char>) -> IoResult<
        Seq<IoResult<crate::sys::DirItem>>,
    > {
        match resolve(self.table(), self.windows(), path) {
            Some((dir, NodeModel::Directory)) => Ok(
                children(self.table(), self.windows(), dir, path, self.table().len()),
            ),
            Some(_) => Err(not_found_error("read_dir: not a directory"@)),
            None => Err(not_found_error("read_dir: entry not found"@)),
        }
    }

    open spec fn is_valid_executable_spec(&self, path: Seq<char>) -> IoResult<bool> {
        match resolve(self.table(), self.windows(), path) {
            Some((_, NodeModel::File { is_valid_executable })) => Ok(is_valid_executable),
            Some(_) => Ok(false),
            None => Err(not_found_error("is_valid_executable: entry not found"@)),
        }
    }

    fn is_windows(&self) -> bool {
        self.is_windows
    }

    fn current_dir(&self) -> IoResult<String> {
        match &self.cwd {
            Some(dir) => Ok(dir.clone()),
            None => Err(not_found("current_dir: no working directory")),
        }
    }

    fn home_dir(&self) -> Option<String> {
        self.home_dir.clone()
    }

    fn env_split_paths(&self, paths: &str) -> Vec<String> {
        let sep: char = if self.is_windows {
            ';'
        } else {
            ':'
        };
        let mut list: Vec<String> = Vec::new();
        let n: usize = paths.unicode_len();
        let mut start: usize = 0;
        let mut i: usize = 0;
        while i < n
            invariant
                n == paths@.len(),
                start <= i <= n,
                forall|j: int| start <= j < i ==> paths@[j] != sep,
                pieces_from(paths@, sep, 0) == crate::sys::texts_of(list@) + pieces_from(
                    paths@,
                    sep,
                    start as int,
                ),
            decreases n - i,
        {
            if paths.get_char(i) == sep {
                proof {
                    crate::helper::lemma_piece_end_is(paths@, sep, start as int, i as int);
                }
                if i > start {
                    list.push(String::from_str(paths.substring_char(start, i)));
                }
                start = i + 1;
            }
            i += 1;
        }
        proof {
            crate::helper::lemma_piece_end_is(paths@, sep, start as int, n as int);
        }
        if n > start {
            list.push(String::from_str(paths.substring_char(start, n)));
        }
        list
    }

    fn env_path(&self) -> Option<String> {
        self.env_path.clone()
    }

    fn env_path_ext(&self) -> Option<String> {
        self.env_path_ext.clone()
    }

    fn metadata(&self, path: &str) -> IoResult<Self::Metadata> {
        match self.locate(path) {
            Some((_, i)) => {
                if i == self.entries.len() {
                    Ok(MemoryMetadata { is_symlink: false, is_file: false })
                } else {
                    match &self.entries[i].node {
                        Node::File { .. } => Ok(
                            MemoryMetadata { is_symlink: false, is_file: true },
                        ),
                        _ => Ok(MemoryMetadata { is_symlink: false, is_file: false }),
                    }
                }
            },
            None => Err(not_found("metadata: entry not found")),
        }
    }

    fn symlink_metadata(&self, path: &str) -> IoResult<Self::Metadata> {
        let key = names_of(path);
        if key.len() == 0 {
            return Ok(MemoryMetadata { is_symlink: false, is_file: false });
        }
        let i = self.find(&key);
        if i == self.entries.len() {
            return Err(not_found("metadata: entry not found"));
        }
        match &self.entries[i].node {
            Node::Directory => Ok(MemoryMetadata { is_symlink: false, is_file: false }),
            Node::File { .. } => Ok(MemoryMetadata { is_symlink: false, is_file: true }),
            Node::Symlink { .. } => Ok(MemoryMetadata { is_symlink: true, is_file: false }),
        }
    }

    fn read_dir(&self, path: &str) -> IoResult<Vec<IoResult<Self::ReadDirEntry>>> {
        match self.locate(path) {
            None => Err(not_found("read_dir: entry not found")),
            Some((dir, i)) => {
                if i < self.entries.len() {
                    match &self.entries[i].node {
                        Node::Directory => {},
                        _ => {
                            return Err(not_found("read_dir: not a directory"));
                        },
                    }
                }
                let ghost table = self.table();
                let ghost wanted = crate::sys::texts_of(dir@);
                let mut listing: Vec<IoResult<MemoryDirEntry>> =
                    Vec::new();
                let mut k: usize = 0;
                while k < self.entries.len()
                    invariant
                        k <= self.entries.len(),
                        table == self.table(),
                        wanted == crate::sys::texts_of(dir@),
                        crate::sys::items_of(listing@) == children(
                            table,
                            self.is_windows,
                            wanted,
                            path@,
                            k as nat,
                        ),
                    decreases self.entries.len() - k,
                {
                    let key = &self.entries[k].key;
                    if key.len() > 0 && key.len() - 1 == dir.len() {
                        let front = first_names(key, key.len() - 1);
                        if keys_match(self.is_windows, &front, &dir) {
                            let name: String = key[key.len() - 1].clone();
                            let full = push(String::from_str(path), name.as_str());
                            listing.push(Ok(MemoryDirEntry { name, path: full }));
                        }
                    }
                    k += 1;
                }
                Ok(listing)
            },
        }
    }

    fn is_valid_executable(&self, path: &str) -> IoResult<bool> {
        match self.locate(path) {
            Some((_, i)) => {
                if i == self.entries.len() {
                    Ok(false)
                } else {
                    match &self.entries[i].node {
                        Node::File { is_valid_executable } => Ok(*is_valid_executable),
                        _ => Ok(false),
                    }
                }
            },
            None => Err(not_found("is_valid_executable: entry not found")),
        }
    }
}

} // verus!
