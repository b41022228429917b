use crate::checker::is_valid;
use crate::error::{Error, NonFatalError};
use crate::helper::{
    eq_ignore_ascii_case, file_name, is_absolute, join, parent, push, push_names, PathExt,
};
use crate::sys::{DirItem, IoResult, Sys, SysReadDirEntry};
use crate::NonFatalErrorHandler;
use regex::Regex;
use vstd::prelude::*;

verus! {

/// What the look at one item gives: a result or none, and the errors that were
/// met on the way.
pub struct Trial {
    pub found: Option<Seq<char>>,
    pub errors: Seq<NonFatalError>,
}

/// The index of the first trial that gives a result, or the number of trials
/// where none does.
pub open spec fn first_hit(trials: Seq<Trial>) -> int
    decreases trials.len(),
{
    if trials.len() == 0 {
        0
    } else if trials[0].found is Some {
        0
    } else {
        1 + first_hit(trials.drop_first())
    }
}

/// How many of the trials are made until a result is there: those up to the
/// first that gives one, and that one.
pub open spec fn consumed(trials: Seq<Trial>) -> int {
    if first_hit(trials) < trials.len() {
        first_hit(trials) + 1
    } else {
        trials.len() as int
    }
}

/// The errors of all the trials, in their order.
pub open spec fn errors_in(trials: Seq<Trial>) -> Seq<NonFatalError>
    decreases trials.len(),
{
    if trials.len() == 0 {
        Seq::empty()
    } else {
        errors_in(trials.drop_last()) + trials.last().errors
    }
}

/// The results of all the trials, in their order.
pub open spec fn hits(trials: Seq<Trial>) -> Seq<Seq<char>>
    decreases trials.len(),
{
    if trials.len() == 0 {
        Seq::empty()
    } else if trials[0].found is Some {
        seq![trials[0].found.unwrap()] + hits(trials.drop_first())
    } else {
        hits(trials.drop_first())
    }
}

/// The first hit is the trial at `i` if that one gives a result and none
/// before it does; it is the number of trials if `i` is that number.
pub proof fn lemma_first_hit_is(trials: Seq<Trial>, i: int)
    requires
        0 <= i <= trials.len(),
        forall|j: int| 0 <= j < i ==> (#[trigger] trials[j]).found is None,
        i < trials.len() ==> trials[i].found is Some,
    ensures
        first_hit(trials) == i,
    decreases trials.len(),
{
    if i > 0 {
        let rest = trials.drop_first();
        lemma_first_hit_is(rest, i - 1);
    }
}

/// The first hit lies in the trials or just behind them; no trial before it
/// gives a result, and the one at it does.
pub proof fn lemma_first_hit(trials: Seq<Trial>)
    ensures
        0 <= first_hit(trials) <= trials.len(),
        forall|j: int| 0 <= j < first_hit(trials) ==> (#[trigger] trials[j]).found is None,
        first_hit(trials) < trials.len() ==> trials[first_hit(trials)].found is Some,
    decreases trials.len(),
{
    if trials.len() > 0 && trials[0].found is None {
        let rest = trials.drop_first();
        lemma_first_hit(rest);
        assert forall|j: int| 0 <= j < first_hit(trials) implies (#[trigger] trials[j]).found is None by {
            if j > 0 {
                assert(rest[j - 1] == trials[j]);
            }
        }
    }
}

/// The results start with that of the first hit, and go on with those of the
/// trials behind it; without a hit there is no result.
pub proof fn lemma_hits_from_first(trials: Seq<Trial>)
    ensures
        first_hit(trials) < trials.len() ==> hits(trials) == seq![
            trials[first_hit(trials)].found.unwrap(),
        ] + hits(trials.skip(consumed(trials))),
        first_hit(trials) >= trials.len() ==> hits(trials) == Seq::<Seq<char>>::empty(),
    decreases trials.len(),
{
    if trials.len() > 0 {
        let rest = trials.drop_first();
        if trials[0].found is None {
            lemma_hits_from_first(rest);
            lemma_first_hit(rest);
            if first_hit(rest) < rest.len() {
                assert(rest.skip(consumed(rest)) =~= trials.skip(consumed(trials)));
            }
        }
    }
}

/// The errors of the first `i + 1` trials are those of the first `i` and then
/// those of the trial at `i`.
pub proof fn lemma_errors_in_take(trials: Seq<Trial>, i: int)
    requires
        0 <= i < trials.len(),
    ensures
        errors_in(trials.take(i + 1)) == errors_in(trials.take(i)) + trials[i].errors,
{
    assert(trials.take(i + 1).drop_last() =~= trials.take(i));
}

/// The errors of trials made one after the other are those of the first ones
/// and then those of the later ones.
pub proof fn lemma_errors_in_concat(first: Seq<Trial>, second: Seq<Trial>)
    ensures
        errors_in(first + second) == errors_in(first) + errors_in(second),
    decreases second.len(),
{
    if second.len() == 0 {
        assert(first + second =~= first);
    } else {
        lemma_errors_in_concat(first, second.drop_last());
        assert((first + second).drop_last() =~= first + second.drop_last());
    }
}

/// The results of trials made one after the other are those of the first
/// ones and then those of the later ones.
pub proof fn lemma_hits_concat(first: Seq<Trial>, second: Seq<Trial>)
    ensures
        hits(first + second) == hits(first) + hits(second),
    decreases first.len(),
{
    if first.len() > 0 {
        lemma_hits_concat(first.drop_first(), second);
        assert((first + second).drop_first() =~= first.drop_first() + second);
    }
}

/// Each result is what one of the trials found.
pub proof fn lemma_hit_comes_from_trial(trials: Seq<Trial>, k: int)
    requires
        0 <= k < hits(trials).len(),
    ensures
        exists|j: int| 0 <= j < trials.len() && (#[trigger] trials[j]).found == Some(hits(trials)[k]),
    decreases trials.len(),
{
    let rest = trials.drop_first();
    if trials[0].found is None || k > 0 {
        let below = if trials[0].found is Some {
            k - 1
        } else {
            k
        };
        lemma_hit_comes_from_trial(rest, below);
    }
}

/// A base path with each of the suffixes from the one at `from` on.
pub open spec fn suffixed(base: Seq<char>, suffixes: Seq<Seq<char>>, from: int) -> Seq<Seq<char>> {
    Seq::new((suffixes.len() - from) as nat, |k: int| base + suffixes[from + k])
}

/// The candidates that one base path stands for. Where the platform has no
/// suffixes, or the base path already carries one of them, that is the base
/// path alone; else the base path, and then the base path with each suffix, in
/// the order of the list.
pub open spec fn expand(base: Seq<char>, suffixes: Seq<Seq<char>>) -> Seq<Seq<char>> {
    if suffixes.len() == 0 || crate::helper::has_executable_extension_spec(base, suffixes) {
        seq![base]
    } else {
        seq![base] + suffixed(base, suffixes, 0)
    }
}

/// The candidates that the base paths stand for, in the order of the base paths.
pub open spec fn candidates(bases: Seq<Seq<char>>, suffixes: Seq<Seq<char>>) -> Seq<Seq<char>>
    decreases bases.len(),
{
    if bases.len() == 0 {
        Seq::empty()
    } else {
        expand(bases[0], suffixes) + candidates(bases.drop_first(), suffixes)
    }
}

/// The candidates of a search, handed out one at a time: the base paths that
/// are still to come, and the base path whose suffixes are being gone through.
pub struct PathsIter {
    paths: Vec<String>,
    next_path: usize,
    current_path_with_index: Option<(String, usize)>,
    path_extensions: Vec<String>,
}

impl PathsIter {
    #[verifier::type_invariant]
    spec fn well_formed(self) -> bool {
        &&& self.next_path <= self.paths.len()
        &&& match self.current_path_with_index {
            Some((_, index)) => index < self.path_extensions.len(),
            None => true,
        }
    }

    /// The suffixes that the candidates are made with.
    pub closed spec fn suffixes(&self) -> Seq<Seq<char>> {
        crate::sys::texts_of(self.path_extensions@)
    }

    /// The candidates that are still to come, in their order.
    pub closed spec fn remaining(&self) -> Seq<Seq<char>> {
        let started = match self.current_path_with_index {
            Some((base, index)) => suffixed(base@, self.suffixes(), index as int),
            None => Seq::empty(),
        };
        started + candidates(
            crate::sys::texts_of(self.paths@).skip(self.next_path as int),
            self.suffixes(),
        )
    }

    /// The candidates of the base paths `paths`, with the suffixes
    /// `path_extensions`.
    pub fn new(paths: Vec<String>, path_extensions: Vec<String>) -> (it: PathsIter)
        ensures
            it.suffixes() == crate::sys::texts_of(path_extensions@),
            it.remaining() == candidates(
                crate::sys::texts_of(paths@),
                crate::sys::texts_of(path_extensions@),
            ),
    {
        assert(crate::sys::texts_of(paths@).skip(0) =~= crate::sys::texts_of(paths@));
        PathsIter { paths, next_path: 0, current_path_with_index: None, path_extensions }
    }

    /// Hands out the next candidate, if one is left.
    pub fn next(&mut self) -> (r: Option<String>)
        ensures
            final(self).suffixes() == old(self).suffixes(),
            match r {
                Some(p) => {
                    &&& old(self).remaining().len() > 0
                    &&& p@ == old(self).remaining()[0]
                    &&& final(self).remaining() == old(self).remaining().drop_first()
                },
                None => old(self).remaining().len() == 0 && final(self).remaining().len() == 0,
            },
    {
        proof {
            use_type_invariant(&*self);
        }
        let ghost bases = crate::sys::texts_of(self.paths@);
        let current: Option<(String, usize)> = match &self.current_path_with_index {
            Some((p, index)) => Some((p.clone(), *index)),
            None => None,
        };
        if let Some((p, index)) = current {
            let next_index: usize = index + 1;
            if next_index < self.path_extensions.len() {
                self.current_path_with_index = Some((p.clone(), next_index));
            } else {
                self.current_path_with_index = None;
            }
            let mut p = p;
            p.append(self.path_extensions[index].as_str());
            Some(p)
        } else if self.next_path < self.paths.len() {
            let p: String = self.paths[self.next_path].clone();
            proof {
                let rest = bases.skip(self.next_path as int);
                assert(rest.drop_first() =~= bases.skip(self.next_path as int + 1));
            }
            self.next_path = self.next_path + 1;
            if self.path_extensions.len() > 0 && !p.has_executable_extension(
                self.path_extensions.as_slice(),
            ) {
                self.current_path_with_index = Some((p.clone(), 0));
            }
            Some(p)
        } else {
            None
        }
    }
}

/// The suffixes that the platform of `sys` adds to a base path: those of its
/// suffix variable where files are runnable by suffix, none elsewhere.
pub open spec fn platform_suffixes<S: Sys>(sys: &S) -> Seq<Seq<char>> {
    if sys.is_windows_spec() {
        crate::sys::parse_path_ext_spec(sys.env_path_ext_spec())
    } else {
        Seq::empty()
    }
}

/// An entry of the search list with a `~` at its start replaced by the home
/// directory: the home directory with the names behind the `~` added. Where
/// the entry does not start with `~`, or there is no home directory, it is the
/// entry as it is.
pub open spec fn tilde_expansion_spec<S: Sys>(sys: &S, p: Seq<char>) -> Seq<char> {
    if crate::helper::starts_with_tilde(p) && sys.home_dir_spec() is Some {
        crate::helper::push_all(sys.home_dir_spec().unwrap(), crate::helper::names(p).skip(1))
    } else {
        p
    }
}

/// The base paths of a name that is looked for in the directories `dirs`: the
/// name joined to each directory, in the order of the list.
pub open spec fn search_bases<S: Sys>(sys: &S, dirs: Seq<Seq<char>>, name: Seq<char>) -> Seq<
    Seq<char>,
> {
    Seq::new(
        dirs.len(),
        |i: int| crate::helper::push_spec(tilde_expansion_spec(sys, dirs[i]), name),
    )
}

/// What the look at one entry of a directory gives while the name of a path
/// is set to the case it has on disk: the path with the entry's name, where
/// that name is `name` but for the case of its letters.
pub open spec fn casing_trial(
    item: IoResult<DirItem>,
    dir: Seq<char>,
    name: Seq<char>,
) -> Trial {
    match item {
        Ok(entry) => Trial {
            found: if crate::helper::eq_ignore_ascii_case_spec(entry.file_name, name) {
                Some(crate::helper::push_spec(dir, entry.file_name))
            } else {
                None
            },
            errors: Seq::empty(),
        },
        Err(e) => Trial { found: None, errors: seq![NonFatalError::Io(e)] },
    }
}

/// The trials that are made to set the name of `p` to the case it has on
/// disk: none where case tells names apart, or where `p` has no directory or no
/// file name; else one for each entry of the directory of `p`, or one that
/// fails where the directory cannot be listed.
pub open spec fn casing_trials<S: Sys>(sys: &S, p: Seq<char>) -> Seq<Trial> {
    if !sys.is_windows_spec() {
        Seq::empty()
    } else {
        match (crate::helper::parent_spec(p), crate::helper::file_name_spec(p)) {
            (Some(dir), Some(name)) => match sys.read_dir_spec(dir) {
                Ok(entries) => Seq::new(
                    entries.len(),
                    |i: int| casing_trial(entries[i], dir, name),
                ),
                Err(e) => seq![Trial { found: None, errors: seq![NonFatalError::Io(e)] }],
            },
            _ => Seq::empty(),
        }
    }
}

/// A path with its file name in the case that the name has on disk: where the
/// directory of the path holds an entry with that name but for the case of its
/// letters, the directory with the name of the first such entry; else the path
/// as it is.
pub open spec fn correct_casing_spec<S: Sys>(sys: &S, p: Seq<char>) -> Seq<char> {
    let trials = casing_trials(sys, p);
    if first_hit(trials) < trials.len() {
        trials[first_hit(trials)].found.unwrap()
    } else {
        p
    }
}

/// The errors that are met while the name of `p` is set to its case on disk.
pub open spec fn correct_casing_errors<S: Sys>(sys: &S, p: Seq<char>) -> Seq<NonFatalError> {
    errors_in(casing_trials(sys, p).take(consumed(casing_trials(sys, p))))
}

/// What the look at one candidate gives in a search by name: the candidate, in
/// the case it has on disk, if it exists and can be run.
pub open spec fn name_trial<S: Sys>(sys: &S, candidate: Seq<char>) -> Trial {
    if crate::checker::is_valid_spec(sys, candidate) {
        Trial {
            found: Some(correct_casing_spec(sys, candidate)),
            errors: crate::checker::is_valid_errors(sys, candidate) + correct_casing_errors(
                sys,
                candidate,
            ),
        }
    } else {
        Trial { found: None, errors: crate::checker::is_valid_errors(sys, candidate) }
    }
}

/// The trials of a search by name: one for each candidate.
pub open spec fn name_trials<S: Sys>(sys: &S, candidates: Seq<Seq<char>>) -> Seq<Trial> {
    Seq::new(candidates.len(), |i: int| name_trial(sys, candidates[i]))
}

/// The base paths of a query by name. A name with a separator stands for
/// itself if it is absolute, and else for itself below the working directory;
/// the search list is not looked at. A name without one stands for itself in
/// each directory of the search list; the working directory is not looked at.
pub open spec fn query_bases<S: Sys>(
    sys: &S,
    name: Seq<char>,
    paths: Option<Seq<char>>,
    cwd: Option<Seq<char>>,
) -> Seq<Seq<char>> {
    if crate::helper::has_separator_spec(name) {
        if crate::helper::is_absolute_spec(name) {
            seq![name]
        } else {
            match cwd {
                Some(cwd) => seq![crate::helper::to_absolute_spec(name, cwd)],
                None => Seq::empty(),
            }
        }
    } else {
        match paths {
            Some(list) => search_bases(sys, sys.env_split_paths_spec(list), name),
            None => Seq::empty(),
        }
    }
}

/// Why a query by name cannot be run, if it cannot: a relative name with a
/// separator needs a working directory, and a name without a separator needs a
/// search list with at least one directory.
pub open spec fn query_error<S: Sys>(
    sys: &S,
    name: Seq<char>,
    paths: Option<Seq<char>>,
    cwd: Option<Seq<char>>,
) -> Option<Error> {
    if crate::helper::has_separator_spec(name) {
        if !crate::helper::is_absolute_spec(name) && cwd is None {
            Some(Error::CannotGetCurrentDir)
        } else {
            None
        }
    } else if paths is None || sys.env_split_paths_spec(paths.unwrap()).len() == 0 {
        Some(Error::CannotGetCurrentDirAndPathListEmpty)
    } else {
        None
    }
}

/// The candidates of a query by name, in the order in which they are tried.
pub open spec fn query_candidates<S: Sys>(
    sys: &S,
    name: Seq<char>,
    paths: Option<Seq<char>>,
    cwd: Option<Seq<char>>,
) -> Seq<Seq<char>> {
    candidates(query_bases(sys, name, paths, cwd), platform_suffixes(sys))
}

/// The working directory of the system, if it can be had.
pub open spec fn system_cwd<S: Sys>(sys: &S) -> Option<Seq<char>> {
    match sys.current_dir_spec() {
        Ok(dir) => Some(dir),
        Err(_) => None,
    }
}

/// All the results of a query by name, in their order, or why the query
/// cannot be run.
pub open spec fn resolve_all<S: Sys>(
    sys: &S,
    name: Seq<char>,
    paths: Option<Seq<char>>,
    cwd: Option<Seq<char>>,
) -> std::result::Result<Seq<Seq<char>>, Error> {
    match query_error(sys, name, paths, cwd) {
        Some(e) => Err(e),
        None => Ok(hits(name_trials(sys, query_candidates(sys, name, paths, cwd)))),
    }
}

/// The first of the results, or the error that says that there is none.
pub open spec fn first_of(
    results: std::result::Result<Seq<Seq<char>>, Error>,
) -> std::result::Result<Seq<char>, Error> {
    match results {
        Ok(found) => if found.len() > 0 {
            Ok(found[0])
        } else {
            Err(Error::CannotFindBinaryPath)
        },
        Err(e) => Err(e),
    }
}

/// The view of a path that was found, or the error.
pub open spec fn found_text(r: std::result::Result<String, Error>) -> std::result::Result<
    Seq<char>,
    Error,
> {
    match r {
        Ok(p) => Ok(p@),
        Err(e) => Err(e),
    }
}

/// The view of an optional text.
pub open spec fn text_of_str(o: Option<&str>) -> Option<Seq<char>> {
    match o {
        Some(s) => Some(s@),
        None => None,
    }
}

/// The suffixes that the platform adds to a base path.
fn path_extensions<S: Sys>(sys: &S) -> (r: Vec<String>)
    ensures
        crate::sys::texts_of(r@) == platform_suffixes(sys),
{
    if sys.is_windows() {
        sys.env_windows_path_ext()
    } else {
        let r: Vec<String> = Vec::new();
        r
    }
}

fn tilde_expansion<S: Sys>(sys: &S, p: &str) -> (r: String)
    ensures
        r@ == tilde_expansion_spec(sys, p@),
{
    let len: usize = p.unicode_len();
    if len > 0 && p.get_char(0) == '~' && (len == 1 || p.get_char(1) == '/') {
        if let Some(home) = sys.home_dir() {
            proof {
                crate::helper::lemma_tilde_is_first_name(p@);
            }
            return push_names(home, p, 1);
        }
    }
    String::from_str(p)
}

fn correct_casing<S: Sys, F: NonFatalErrorHandler>(
    sys: &S,
    p: String,
    nonfatal_error_handler: &mut F,
) -> (r: String)
    ensures
        r@ == correct_casing_spec(sys, p@),
        crate::reported(
            *old(nonfatal_error_handler),
            correct_casing_errors(sys, p@),
            *final(nonfatal_error_handler),
        ),
{
    let ghost trials = casing_trials(sys, p@);
    let ghost before = *nonfatal_error_handler;
    proof {
        crate::lemma_reported_nothing(before);
    }
    if sys.is_windows() {
        if let (Some(dir), Some(name)) = (parent(p.as_str()), file_name(p.as_str())) {
            match sys.read_dir(dir.as_str()) {
                Ok(listing) => {
                    let mut entries = listing;
                    let ghost all = entries@;
                    let ghost mut i: int = 0;
                    while entries.len() > 0
                        invariant
                            before == *old(nonfatal_error_handler),
                            trials == casing_trials(sys, p@),
                            trials == Seq::new(
                                all.len(),
                                |k: int| casing_trial(crate::sys::item_of(all[k]), dir@, name@),
                            ),
                            0 <= i <= all.len(),
                            entries@ == all.skip(i),
                            forall|j: int| 0 <= j < i ==> (#[trigger] trials[j]).found is None,
                            crate::reported(
                                before,
                                errors_in(trials.take(i)),
                                *nonfatal_error_handler,
                            ),
                        decreases entries.len(),
                    {
                        let ghost mid = *nonfatal_error_handler;
                        let item = entries.remove(0);
                        proof {
                            lemma_errors_in_take(trials, i);
                        }
                        match item {
                            Ok(entry) => {
                                let entry_name = entry.file_name();
                                if eq_ignore_ascii_case(entry_name.as_str(), name.as_str()) {
                                    proof {
                                        lemma_first_hit_is(trials, i);
                                    }
                                    return push(dir, entry_name.as_str());
                                }
                            },
                            Err(e) => {
                                nonfatal_error_handler.handle(NonFatalError::Io(e));
                                proof {
                                    crate::lemma_reported_push(
                                        before,
                                        errors_in(trials.take(i)),
                                        mid,
                                        NonFatalError::Io(e),
                                        *nonfatal_error_handler,
                                    );
                                    assert(errors_in(trials.take(i + 1)) =~= errors_in(
                                        trials.take(i),
                                    ).push(NonFatalError::Io(e)));
                                }
                            },
                        }
                        proof {
                            i = i + 1;
                        }
                    }
                    proof {
                        lemma_first_hit_is(trials, trials.len() as int);
                    }
                },
                Err(e) => {
                    nonfatal_error_handler.handle(NonFatalError::Io(e));
                    proof {
                        crate::lemma_reported_one(
                            before,
                            NonFatalError::Io(e),
                            *nonfatal_error_handler,
                        );
                        lemma_first_hit_is(trials, 1);
                        lemma_errors_in_take(trials, 0);
                    }
                },
            }
        }
    }
    p
}

/// The results of a search by name, handed out one at a time.
pub struct WhichFindIterator<TSys: Sys, F: NonFatalErrorHandler> {
    sys: TSys,
    paths: PathsIter,
    nonfatal_error_handler: F,
}

impl<TSys: Sys, F: NonFatalErrorHandler> WhichFindIterator<TSys, F> {
    /// The system that is searched.
    pub closed spec fn sys(&self) -> TSys {
        self.sys
    }

    /// The handler that the errors go to.
    pub closed spec fn handler(&self) -> F {
        self.nonfatal_error_handler
    }

    /// The candidates that are still to be tried, in their order.
    pub closed spec fn candidates(&self) -> Seq<Seq<char>> {
        self.paths.remaining()
    }

    /// The trials that are still to be made, in their order.
    pub open spec fn pending(&self) -> Seq<Trial> {
        name_trials(&self.sys(), self.candidates())
    }

    /// The results that are still to come, in their order.
    pub open spec fn results(&self) -> Seq<Seq<char>> {
        hits(self.pending())
    }

    /// The search for a name that says where it is: `binary_name`, made
    /// absolute against `cwd`, is the one base path.
    pub fn new_cwd(binary_name: String, cwd: &str, sys: TSys, nonfatal_error_handler: F) -> (it:
        Self)
        ensures
            it.sys() == sys,
            it.handler() == nonfatal_error_handler,
            it.candidates() == candidates(
                seq![crate::helper::to_absolute_spec(binary_name@, cwd@)],
                platform_suffixes(&sys),
            ),
    {
        let path_extensions = path_extensions(&sys);
        let mut paths: Vec<String> = Vec::new();
        paths.push(binary_name.to_absolute(cwd));
        assert(crate::sys::texts_of(paths@) =~= seq![
            crate::helper::to_absolute_spec(binary_name@, cwd@),
        ]);
        Self { sys, paths: PathsIter::new(paths, path_extensions), nonfatal_error_handler }
    }

    /// The search for a name in the directories `paths`: each directory, with
    /// a `~` at its start replaced, joined with `binary_name`, is a base path.
    pub fn new_paths(
        binary_name: String,
        paths: Vec<String>,
        sys: TSys,
        nonfatal_error_handler: F,
    ) -> (it: Self)
        ensures
            it.sys() == sys,
            it.handler() == nonfatal_error_handler,
            it.candidates() == candidates(
                search_bases(&sys, crate::sys::texts_of(paths@), binary_name@),
                platform_suffixes(&sys),
            ),
    {
        let path_extensions = path_extensions(&sys);
        let mut bases: Vec<String> = Vec::new();
        let ghost wanted = search_bases(&sys, crate::sys::texts_of(paths@), binary_name@);
        let mut i: usize = 0;
        while i < paths.len()
            invariant
                i <= paths.len(),
                wanted == search_bases(&sys, crate::sys::texts_of(paths@), binary_name@),
                crate::sys::texts_of(bases@) =~= wanted.take(i as int),
            decreases paths.len() - i,
        {
            let dir = tilde_expansion(&sys, paths[i].as_str());
            let ghost done = crate::sys::texts_of(bases@);
            let base = join(dir.as_str(), binary_name.as_str());
            bases.push(base);
            assert(crate::sys::texts_of(bases@) =~= done.push(wanted[i as int]));
            i += 1;
        }
        assert(wanted.take(i as int) =~= wanted);
        Self { sys, paths: PathsIter::new(bases, path_extensions), nonfatal_error_handler }
    }

    /// Hands out the next result, if one is left: the first of the candidates
    /// still to be tried that exists and can be run, in the case it has on
    /// disk. The candidates before it are tried and left behind; what goes
    /// wrong on the way is handed to the handler.
    pub fn next(&mut self) -> (r: Option<String>)
        ensures
            final(self).sys() == old(self).sys(),
            final(self).pending() == old(self).pending().skip(consumed(old(self).pending())),
            crate::sys::text_of_option(r) == if first_hit(old(self).pending()) < old(
                self,
            ).pending().len() {
                old(self).pending()[first_hit(old(self).pending())].found
            } else {
                None
            },
            crate::reported(
                old(self).handler(),
                errors_in(old(self).pending().take(consumed(old(self).pending()))),
                final(self).handler(),
            ),
    {
        let ghost all = self.pending();
        let ghost before = self.nonfatal_error_handler;
        let ghost mut i: int = 0;
        proof {
            crate::lemma_reported_nothing(before);
        }
        loop
            invariant
                self.sys == old(self).sys,
                0 <= i <= all.len(),
                self.pending() == all.skip(i),
                forall|j: int| 0 <= j < i ==> (#[trigger] all[j]).found is None,
                crate::reported(before, errors_in(all.take(i)), self.nonfatal_error_handler),
                before == old(self).handler(),
                all == old(self).pending(),
            decreases all.len() - i,
        {
            let ghost candidates = self.paths.remaining();
            assert(name_trials(&self.sys, candidates) == all.skip(i));
            match self.paths.next() {
                None => {
                    proof {
                        lemma_first_hit_is(all, i);
                    }
                    return None;
                },
                Some(path) => {
                    proof {
                        assert(all[i] == all.skip(i)[0]);
                        assert(name_trials(&self.sys, candidates.drop_first()) =~= name_trials(
                            &self.sys,
                            candidates,
                        ).skip(1));
                        lemma_errors_in_take(all, i);
                    }
                    let ghost mid = self.nonfatal_error_handler;
                    if is_valid(&self.sys, path.as_str(), &mut self.nonfatal_error_handler) {
                        let ghost checked = self.nonfatal_error_handler;
                        let r = correct_casing(&self.sys, path, &mut self.nonfatal_error_handler);
                        proof {
                            crate::lemma_reported_concat(
                                mid,
                                crate::checker::is_valid_errors(&self.sys, path@),
                                checked,
                                correct_casing_errors(&self.sys, path@),
                                self.nonfatal_error_handler,
                            );
                            crate::lemma_reported_concat(
                                before,
                                errors_in(all.take(i)),
                                mid,
                                all[i].errors,
                                self.nonfatal_error_handler,
                            );
                            lemma_first_hit_is(all, i);
                        }
                        return Some(r);
                    }
                    proof {
                        crate::lemma_reported_concat(
                            before,
                            errors_in(all.take(i)),
                            mid,
                            all[i].errors,
                            self.nonfatal_error_handler,
                        );
                        i = i + 1;
                    }
                },
            }
        }
    }

    /// Runs the search to its first result. A search without results ends in
    /// the error that says so.
    pub fn first(self) -> (r: std::result::Result<String, Error>)
        ensures
            found_text(r) == first_of(Ok(self.results())),
            exists|after: F|
                crate::reported(
                    self.handler(),
                    errors_in(self.pending().take(consumed(self.pending()))),
                    after,
                ),
    {
        let mut it = self;
        proof {
            lemma_hits_from_first(it.pending());
            lemma_first_hit(it.pending());
        }
        let r = it.next();
        assert(crate::reported(
            self.handler(),
            errors_in(self.pending().take(consumed(self.pending()))),
            it.handler(),
        ));
        match r {
            Some(p) => Ok(p),
            None => Err(Error::CannotFindBinaryPath),
        }
    }

    /// Runs the search to its end and gives all its results, in their order.
    pub fn collect(self) -> (r: Vec<String>)
        ensures
            crate::sys::texts_of(r@) == self.results(),
            exists|after: F| crate::reported(self.handler(), errors_in(self.pending()), after),
    {
        let mut it = self;
        let mut found: Vec<String> = Vec::new();
        let ghost all = self.pending();
        let ghost mut i: int = 0;
        proof {
            crate::lemma_reported_nothing(self.handler());
            assert(all.skip(0) =~= all);
            assert(all.take(0) =~= Seq::<Trial>::empty());
        }
        loop
            invariant
                all == self.pending(),
                0 <= i <= all.len(),
                it.pending() == all.skip(i),
                crate::sys::texts_of(found@) + it.results() == self.results(),
                crate::reported(self.handler(), errors_in(all.take(i)), it.handler()),
            decreases it.pending().len(),
        {
            let ghost before = it.pending();
            let ghost mid = it.handler();
            let ghost so_far = crate::sys::texts_of(found@);
            proof {
                lemma_hits_from_first(before);
                lemma_first_hit(before);
                lemma_errors_in_concat(all.take(i), before.take(consumed(before)));
                assert(all.take(i + consumed(before)) =~= all.take(i) + before.take(
                    consumed(before),
                ));
                assert(before.skip(consumed(before)) =~= all.skip(i + consumed(before)));
            }
            let next = it.next();
            proof {
                crate::lemma_reported_concat(
                    self.handler(),
                    errors_in(all.take(i)),
                    mid,
                    errors_in(before.take(consumed(before))),
                    it.handler(),
                );
                i = i + consumed(before);
            }
            match next {
                Some(p) => {
                    found.push(p);
                    assert(crate::sys::texts_of(found@) =~= so_far.push(p@));
                    assert(crate::sys::texts_of(found@) + it.results() =~= self.results());
                },
                None => {
                    assert(crate::sys::texts_of(found@) =~= self.results());
                    assert(all.take(i) =~= all);
                    return found;
                },
            }
        }
    }
}

/// A compiled pattern of the `regex` crate. Nothing is known of what it
/// holds; it is handed to `Regex::is_match` as it came.
#[verifier::external_type_specification]
#[verifier::external_body]
pub struct ExRegex(Regex);

/// Whether a pattern matches somewhere in a text, as `Regex::is_match` tells it.
pub uninterp spec fn regex_matches(re: Regex, haystack: Seq<char>) -> bool;

/// `Regex::is_match` searches `haystack` for a match of the pattern and tells
/// whether there is one. It does not change the pattern, and what it tells
/// depends on the pattern and the text alone; that answer is what
/// `regex_matches` names.
pub assume_specification[ Regex::is_match ](re: &Regex, haystack: &str) -> (b: bool)
    ensures
        b == regex_matches(*re, haystack@),
;

/// What the look at one entry of a directory gives in a search by pattern: the
/// path of the entry, if its name matches the pattern and the entry exists and
/// can be run.
pub open spec fn entry_trial<S: Sys>(
    sys: &S,
    re: Regex,
    item: IoResult<DirItem>,
) -> Trial {
    match item {
        Ok(entry) => if !regex_matches(re, entry.file_name) {
            Trial { found: None, errors: Seq::empty() }
        } else if crate::checker::is_valid_spec(sys, entry.path) {
            Trial {
                found: Some(entry.path),
                errors: crate::checker::is_valid_errors(sys, entry.path),
            }
        } else {
            Trial { found: None, errors: crate::checker::is_valid_errors(sys, entry.path) }
        },
        Err(e) => Trial { found: None, errors: seq![NonFatalError::Io(e)] },
    }
}

/// The trials for the entries of one directory listing.
pub open spec fn entry_trials<S: Sys>(
    sys: &S,
    re: Regex,
    entries: Seq<IoResult<DirItem>>,
) -> Seq<Trial> {
    Seq::new(entries.len(), |i: int| entry_trial(sys, re, entries[i]))
}

/// The trials for one directory of the search list: the listing of the
/// directory, which gives no result and fails where the directory cannot be
/// read, and then one trial for each entry.
pub open spec fn dir_trials<S: Sys>(sys: &S, re: Regex, dir: Seq<char>) -> Seq<Trial> {
    match sys.read_dir_spec(dir) {
        Ok(entries) => seq![Trial { found: None, errors: Seq::empty() }] + entry_trials(
            sys,
            re,
            entries,
        ),
        Err(e) => seq![Trial { found: None, errors: seq![NonFatalError::Io(e)] }],
    }
}

/// The trials of a search by pattern: those of each directory, in the order of
/// the search list.
pub open spec fn pattern_trials<S: Sys>(sys: &S, re: Regex, dirs: Seq<Seq<char>>) -> Seq<Trial>
    decreases dirs.len(),
{
    if dirs.len() == 0 {
        Seq::empty()
    } else {
        dir_trials(sys, re, dirs[0]) + pattern_trials(sys, re, dirs.drop_first())
    }
}

/// All the results of a query by pattern, in their order, or why the query
/// cannot be run.
pub open spec fn resolve_all_re<S: Sys>(
    sys: &S,
    re: Regex,
    paths: Option<Seq<char>>,
) -> std::result::Result<Seq<Seq<char>>, Error> {
    if paths is None || sys.env_split_paths_spec(paths.unwrap()).len() == 0 {
        Err(Error::CannotGetCurrentDirAndPathListEmpty)
    } else {
        Ok(hits(pattern_trials(sys, re, sys.env_split_paths_spec(paths.unwrap()))))
    }
}

/// The results of a search by pattern, handed out one at a time.
pub struct WhichFindRegexIter<TSys: Sys, F: NonFatalErrorHandler> {
    sys: TSys,
    re: Regex,
    paths: Vec<String>,
    nonfatal_error_handler: F,
    current_read_dir_iter: Vec<IoResult<TSys::ReadDirEntry>>,
}

impl<TSys: Sys, F: NonFatalErrorHandler> WhichFindRegexIter<TSys, F> {
    /// Runs the search to its end and gives all its results, in their order.
    pub fn collect(self) -> (r: Vec<String>)
        ensures
            crate::sys::texts_of(r@) == self.results(),
            exists|after: F| crate::reported(self.handler(), errors_in(self.pending()), after),
    {
        let mut it = self;
        let mut found: Vec<String> = Vec::new();
        let ghost all = self.pending();
        let ghost mut i: int = 0;
        proof {
            crate::lemma_reported_nothing(self.handler());
            assert(all.skip(0) =~= all);
            assert(all.take(0) =~= Seq::<Trial>::empty());
        }
        loop
            invariant
                all == self.pending(),
                0 <= i <= all.len(),
                it.pending() == all.skip(i),
                crate::sys::texts_of(found@) + it.results() == self.results(),
                crate::reported(self.handler(), errors_in(all.take(i)), it.handler()),
            decreases it.pending().len(),
        {
            let ghost before = it.pending();
            let ghost mid = it.handler();
            let ghost so_far = crate::sys::texts_of(found@);
            proof {
                lemma_hits_from_first(before);
                lemma_first_hit(before);
                lemma_errors_in_concat(all.take(i), before.take(consumed(before)));
                assert(all.take(i + consumed(before)) =~= all.take(i) + before.take(
                    consumed(before),
                ));
                assert(before.skip(consumed(before)) =~= all.skip(i + consumed(before)));
            }
            let next = it.next();
            proof {
                crate::lemma_reported_concat(
                    self.handler(),
                    errors_in(all.take(i)),
                    mid,
                    errors_in(before.take(consumed(before))),
                    it.handler(),
                );
                i = i + consumed(before);
            }
            match next {
                Some(p) => {
                    found.push(p);
                    assert(crate::sys::texts_of(found@) =~= so_far.push(p@));
                    assert(crate::sys::texts_of(found@) + it.results() =~= self.results());
                },
                None => {
                    assert(crate::sys::texts_of(found@) =~= self.results());
                    assert(all.take(i) =~= all);
                    return found;
                },
            }
        }
    }

    /// The system that is searched.
    pub closed spec fn sys(&self) -> TSys {
        self.sys
    }

    /// The pattern that is looked for.
    pub closed spec fn pattern(&self) -> Regex {
        self.re
    }

    /// The handler that the errors go to.
    pub closed spec fn handler(&self) -> F {
        self.nonfatal_error_handler
    }

    /// The entries of the directory that is being gone through which are still
    /// to be looked at.
    pub closed spec fn entries(&self) -> Seq<IoResult<DirItem>> {
        crate::sys::items_of(self.current_read_dir_iter@)
    }

    /// The directories that are still to be listed.
    pub closed spec fn dirs(&self) -> Seq<Seq<char>> {
        crate::sys::texts_of(self.paths@)
    }

    /// The trials that are still to be made, in their order.
    pub open spec fn pending(&self) -> Seq<Trial> {
        entry_trials(&self.sys(), self.pattern(), self.entries()) + pattern_trials(
            &self.sys(),
            self.pattern(),
            self.dirs(),
        )
    }

    /// The results that are still to come, in their order.
    pub open spec fn results(&self) -> Seq<Seq<char>> {
        hits(self.pending())
    }

    /// The search for the entries of the directories of `paths` whose names
    /// match `re`. It is an error if `paths` is missing or holds no directory.
    pub fn new(sys: TSys, paths: Option<&str>, re: Regex, nonfatal_error_handler: F) -> (r:
        std::result::Result<Self, Error>)
        ensures
            starts_query_re(r, sys, nonfatal_error_handler, re, text_of_str(paths)),
    {
        match paths {
            None => Err(Error::CannotGetCurrentDirAndPathListEmpty),
            Some(list) => {
                let paths = sys.env_split_paths(list);
                if paths.len() == 0 {
                    Err(Error::CannotGetCurrentDirAndPathListEmpty)
                } else {
                    Ok(
                        WhichFindRegexIter {
                            sys,
                            re,
                            paths,
                            nonfatal_error_handler,
                            current_read_dir_iter: Vec::new(),
                        },
                    )
                }
            },
        }
    }

    /// Hands out the next result, if one is left: the path of the first entry
    /// still to be looked at whose name matches the pattern and which exists
    /// and can be run. What goes wrong on the way is handed to the handler.
    pub fn next(&mut self) -> (r: Option<String>)
        ensures
            final(self).sys() == old(self).sys(),
            final(self).pattern() == old(self).pattern(),
            final(self).pending() == old(self).pending().skip(consumed(old(self).pending())),
            crate::sys::text_of_option(r) == if first_hit(old(self).pending()) < old(
                self,
            ).pending().len() {
                old(self).pending()[first_hit(old(self).pending())].found
            } else {
                None
            },
            crate::reported(
                old(self).handler(),
                errors_in(old(self).pending().take(consumed(old(self).pending()))),
                final(self).handler(),
            ),
    {
        let ghost all = self.pending();
        let ghost before = self.nonfatal_error_handler;
        let ghost mut i: int = 0;
        proof {
            crate::lemma_reported_nothing(before);
        }
        loop
            invariant
                self.sys == old(self).sys,
                self.re == old(self).re,
                0 <= i <= all.len(),
                self.pending() == all.skip(i),
                forall|j: int| 0 <= j < i ==> (#[trigger] all[j]).found is None,
                crate::reported(before, errors_in(all.take(i)), self.nonfatal_error_handler),
                before == old(self).handler(),
                all == old(self).pending(),
            decreases all.len() - i,
        {
            let ghost dirs = crate::sys::texts_of(self.paths@);
            let ghost mid = self.nonfatal_error_handler;
            if self.current_read_dir_iter.len() > 0 {
                let item = self.current_read_dir_iter.remove(0);
                proof {
                    assert(all[i] == all.skip(i)[0]);
                    assert(self.pending() =~= all.skip(i).skip(1));
                    lemma_errors_in_take(all, i);
                }
                match item {
                    Ok(entry) => {
                        let name = entry.file_name();
                        if self.re.is_match(name.as_str()) {
                            let path = entry.path();
                            let valid = is_valid(
                                &self.sys,
                                path.as_str(),
                                &mut self.nonfatal_error_handler,
                            );
                            proof {
                                crate::lemma_reported_concat(
                                    before,
                                    errors_in(all.take(i)),
                                    mid,
                                    all[i].errors,
                                    self.nonfatal_error_handler,
                                );
                            }
                            if valid {
                                proof {
                                    lemma_first_hit_is(all, i);
                                }
                                return Some(path);
                            }
                        }
                    },
                    Err(e) => {
                        self.nonfatal_error_handler.handle(NonFatalError::Io(e));
                        proof {
                            crate::lemma_reported_push(
                                before,
                                errors_in(all.take(i)),
                                mid,
                                NonFatalError::Io(e),
                                self.nonfatal_error_handler,
                            );
                            assert(errors_in(all.take(i + 1)) =~= errors_in(all.take(i)).push(
                                NonFatalError::Io(e),
                            ));
                        }
                    },
                }
            } else if self.paths.len() > 0 {
                let dir = self.paths.remove(0);
                proof {
                    assert(crate::sys::texts_of(self.paths@) =~= dirs.drop_first());
                    assert(all[i] == all.skip(i)[0]);
                    assert(all.skip(i).skip(1) =~= all.skip(i + 1));
                    lemma_errors_in_take(all, i);
                }
                match self.sys.read_dir(dir.as_str()) {
                    Ok(listing) => {
                        self.current_read_dir_iter = listing;
                    },
                    Err(e) => {
                        self.nonfatal_error_handler.handle(NonFatalError::Io(e));
                        proof {
                            crate::lemma_reported_push(
                                before,
                                errors_in(all.take(i)),
                                mid,
                                NonFatalError::Io(e),
                                self.nonfatal_error_handler,
                            );
                            assert(errors_in(all.take(i + 1)) =~= errors_in(all.take(i)).push(
                                NonFatalError::Io(e),
                            ));
                        }
                    },
                }
            } else {
                proof {
                    lemma_first_hit_is(all, i);
                }
                return None;
            }
            proof {
                i = i + 1;
            }
        }
    }
}

/// A search by pattern that has looked at nothing yet has the trials of its
/// directories before it.
pub proof fn lemma_pattern_search_starts<S: Sys, F: NonFatalErrorHandler>(
    it: &WhichFindRegexIter<S, F>,
)
    requires
        it.entries().len() == 0,
    ensures
        it.pending() == pattern_trials(&it.sys(), it.pattern(), it.dirs()),
{
}

/// Whether `r` is how the query for `name` starts: the search with the
/// candidates of the query still to be tried, or the error of the query.
pub open spec fn starts_query<S: Sys, F: NonFatalErrorHandler>(
    r: std::result::Result<WhichFindIterator<S, F>, Error>,
    sys: S,
    handler: F,
    name: Seq<char>,
    paths: Option<Seq<char>>,
    cwd: Option<Seq<char>>,
) -> bool {
    match r {
        Ok(it) => {
            &&& query_error(&sys, name, paths, cwd) is None
            &&& it.sys() == sys
            &&& it.handler() == handler
            &&& it.candidates() == query_candidates(&sys, name, paths, cwd)
        },
        Err(e) => query_error(&sys, name, paths, cwd) == Some(e),
    }
}

/// Whether `r` is how the query for the pattern `re` starts: the search with
/// the directories of the search list still to be listed, or the error of the
/// query.
pub open spec fn starts_query_re<S: Sys, F: NonFatalErrorHandler>(
    r: std::result::Result<WhichFindRegexIter<S, F>, Error>,
    sys: S,
    handler: F,
    re: Regex,
    paths: Option<Seq<char>>,
) -> bool {
    match r {
        Ok(it) => {
            &&& paths is Some
            &&& sys.env_split_paths_spec(paths.unwrap()).len() > 0
            &&& it.sys() == sys
            &&& it.pattern() == re
            &&& it.handler() == handler
            &&& it.entries().len() == 0
            &&& it.dirs() == sys.env_split_paths_spec(paths.unwrap())
        },
        Err(e) => {
            &&& e == Error::CannotGetCurrentDirAndPathListEmpty
            &&& paths is None || sys.env_split_paths_spec(paths.unwrap()).len() == 0
        },
    }
}

/// A search for executables in one system.
pub struct Finder<TSys: Sys> {
    sys: TSys,
}

impl<TSys: Sys> Finder<TSys> {
    /// The system that is searched.
    pub closed spec fn sys(&self) -> TSys {
        self.sys
    }

    pub fn new(sys: TSys) -> (finder: Self)
        ensures
            finder.sys() == sys,
    {
        Finder { sys }
    }

    /// Starts the search for `binary_name`. A name with a separator is looked
    /// for at the place it names: as it is if it is absolute, else below
    /// `cwd`, and it is an error if there is no `cwd`. A name without a
    /// separator is looked for in the directories of `paths`, and it is an
    /// error if `paths` is missing or holds no directory.
    pub fn find<F: NonFatalErrorHandler>(
        self,
        binary_name: &str,
        paths: Option<&str>,
        cwd: Option<&str>,
        nonfatal_error_handler: F,
    ) -> (r: std::result::Result<WhichFindIterator<TSys, F>, Error>)
        ensures
            starts_query(
                r,
                self.sys(),
                nonfatal_error_handler,
                binary_name@,
                text_of_str(paths),
                text_of_str(cwd),
            ),
    {
        let path = String::from_str(binary_name);
        if path.has_separator() {
            if is_absolute(binary_name) {
                Ok(WhichFindIterator::new_cwd(path, "", self.sys, nonfatal_error_handler))
            } else {
                match cwd {
                    Some(cwd) => Ok(
                        WhichFindIterator::new_cwd(path, cwd, self.sys, nonfatal_error_handler),
                    ),
                    None => Err(Error::CannotGetCurrentDir),
                }
            }
        } else {
            // Search binary in PATHs(defined in environment variable).
            match paths {
                None => Err(Error::CannotGetCurrentDirAndPathListEmpty),
                Some(list) => {
                    let paths = self.sys.env_split_paths(list);
                    if paths.len() == 0 {
                        Err(Error::CannotGetCurrentDirAndPathListEmpty)
                    } else {
                        Ok(
                            WhichFindIterator::new_paths(
                                path,
                                paths,
                                self.sys,
                                nonfatal_error_handler,
                            ),
                        )
                    }
                },
            }
        }
    }

    /// Starts the search for the entries of the directories of `paths` whose
    /// names match `binary_regex`. It is an error if `paths` is missing or
    /// holds no directory.
    pub fn find_re<F: NonFatalErrorHandler>(
        self,
        binary_regex: Regex,
        paths: Option<&str>,
        nonfatal_error_handler: F,
    ) -> (r: std::result::Result<WhichFindRegexIter<TSys, F>, Error>)
        ensures
            starts_query_re(
                r,
                self.sys(),
                nonfatal_error_handler,
                binary_regex,
                text_of_str(paths),
            ),
    {
        WhichFindRegexIter::new(self.sys, paths, binary_regex, nonfatal_error_handler)
    }
}

/// The results that the base paths give, base path by base path: those of the
/// candidates of the first base path, then those of the next, and so on.
pub open spec fn results_of_bases<S: Sys>(
    sys: &S,
    bases: Seq<Seq<char>>,
    suffixes: Seq<Seq<char>>,
) -> Seq<Seq<char>>
    decreases bases.len(),
{
    if bases.len() == 0 {
        Seq::empty()
    } else {
        hits(name_trials(sys, expand(bases[0], suffixes))) + results_of_bases(
            sys,
            bases.drop_first(),
            suffixes,
        )
    }
}

/// The results of a search come base path by base path, in the order of the
/// base paths.
pub proof fn lemma_results_by_base<S: Sys>(
    sys: &S,
    bases: Seq<Seq<char>>,
    suffixes: Seq<Seq<char>>,
)
    ensures
        hits(name_trials(sys, candidates(bases, suffixes))) == results_of_bases(
            sys,
            bases,
            suffixes,
        ),
    decreases bases.len(),
{
    if bases.len() > 0 {
        let first = expand(bases[0], suffixes);
        let rest = candidates(bases.drop_first(), suffixes);
        lemma_results_by_base(sys, bases.drop_first(), suffixes);
        assert(name_trials(sys, first + rest) =~= name_trials(sys, first) + name_trials(sys, rest));
        lemma_hits_concat(name_trials(sys, first), name_trials(sys, rest));
    }
}

/// The first base path that gives a result gives the first result of the
/// search: no base path after it comes before it.
pub proof fn lemma_first_base_wins<S: Sys>(
    sys: &S,
    bases: Seq<Seq<char>>,
    suffixes: Seq<Seq<char>>,
    i: int,
)
    requires
        0 <= i < bases.len(),
        forall|j: int|
            0 <= j < i ==> hits(name_trials(sys, expand(#[trigger] bases[j], suffixes))).len() == 0,
        hits(name_trials(sys, expand(bases[i], suffixes))).len() > 0,
    ensures
        results_of_bases(sys, bases, suffixes).len() > 0,
        results_of_bases(sys, bases, suffixes)[0] == hits(
            name_trials(sys, expand(bases[i], suffixes)),
        )[0],
    decreases bases.len(),
{
    if i > 0 {
        let rest = bases.drop_first();
        lemma_first_base_wins(sys, rest, suffixes, i - 1);
    }
}

/// A name with a separator is looked for at the place that it names, and the
/// search list is never looked at: with any other search list, or with none,
/// the query fails or runs in the same way, with the same candidates and the
/// same results. There is one base path: the name itself if it is absolute,
/// else the working directory with the names of the name added.
pub proof fn lemma_separator_ignores_search_list<S: Sys>(
    sys: &S,
    name: Seq<char>,
    paths: Option<Seq<char>>,
    other_paths: Option<Seq<char>>,
    cwd: Option<Seq<char>>,
)
    requires
        crate::helper::has_separator_spec(name),
    ensures
        query_error(sys, name, paths, cwd) == query_error(sys, name, other_paths, cwd),
        query_candidates(sys, name, paths, cwd) == query_candidates(sys, name, other_paths, cwd),
        resolve_all(sys, name, paths, cwd) == resolve_all(sys, name, other_paths, cwd),
        query_error(sys, name, paths, cwd) is None ==> query_bases(sys, name, paths, cwd)
            == seq![
            if crate::helper::is_absolute_spec(name) {
                name
            } else {
                crate::helper::push_all(cwd.unwrap(), crate::helper::names(name))
            },
        ],
{
}

/// A name without a separator is looked for in the directories of the search
/// list, and the working directory is never looked at: with any other working
/// directory, or with none, the query fails or runs in the same way. Its
/// results come directory by directory, in the order of the list, each from
/// the name joined to the directory.
pub proof fn lemma_no_separator_ignores_cwd<S: Sys>(
    sys: &S,
    name: Seq<char>,
    paths: Option<Seq<char>>,
    cwd: Option<Seq<char>>,
    other_cwd: Option<Seq<char>>,
)
    requires
        !crate::helper::has_separator_spec(name),
    ensures
        query_error(sys, name, paths, cwd) == query_error(sys, name, paths, other_cwd),
        query_candidates(sys, name, paths, cwd) == query_candidates(sys, name, paths, other_cwd),
        resolve_all(sys, name, paths, cwd) == resolve_all(sys, name, paths, other_cwd),
        query_error(sys, name, paths, cwd) is None ==> resolve_all(sys, name, paths, cwd) == Ok::<
            Seq<Seq<char>>,
            Error,
        >(
            results_of_bases(
                sys,
                search_bases(sys, sys.env_split_paths_spec(paths.unwrap()), name),
                platform_suffixes(sys),
            ),
        ),
{
    if query_error(sys, name, paths, cwd) is None {
        lemma_results_by_base(
            sys,
            search_bases(sys, sys.env_split_paths_spec(paths.unwrap()), name),
            platform_suffixes(sys),
        );
    }
}

/// Two runs of the same query on the same system fail in the same way or give
/// the same results in the same order, whatever handlers they report to.
pub proof fn lemma_same_query_same_results<
    S: Sys,
    F: NonFatalErrorHandler,
    G: NonFatalErrorHandler,
>(
    first: std::result::Result<WhichFindIterator<S, F>, Error>,
    second: std::result::Result<WhichFindIterator<S, G>, Error>,
    sys: S,
    first_handler: F,
    second_handler: G,
    name: Seq<char>,
    paths: Option<Seq<char>>,
    cwd: Option<Seq<char>>,
)
    requires
        starts_query(first, sys, first_handler, name, paths, cwd),
        starts_query(second, sys, second_handler, name, paths, cwd),
    ensures
        match (first, second) {
            (Ok(a), Ok(b)) => a.results() == b.results() && resolve_all(&sys, name, paths, cwd)
                == Ok::<Seq<Seq<char>>, Error>(a.results()),
            (Err(e), Err(f)) => e == f,
            _ => false,
        },
{
}

/// Two runs of the same query by pattern on the same system fail in the same
/// way or give the same results in the same order.
pub proof fn lemma_same_pattern_same_results<
    S: Sys,
    F: NonFatalErrorHandler,
    G: NonFatalErrorHandler,
>(
    first: std::result::Result<WhichFindRegexIter<S, F>, Error>,
    second: std::result::Result<WhichFindRegexIter<S, G>, Error>,
    sys: S,
    first_handler: F,
    second_handler: G,
    re: Regex,
    paths: Option<Seq<char>>,
)
    requires
        starts_query_re(first, sys, first_handler, re, paths),
        starts_query_re(second, sys, second_handler, re, paths),
    ensures
        match (first, second) {
            (Ok(a), Ok(b)) => a.results() == b.results() && resolve_all_re(&sys, re, paths)
                == Ok::<Seq<Seq<char>>, Error>(a.results()),
            (Err(e), Err(f)) => e == f,
            _ => false,
        },
{
    if let (Ok(a), Ok(b)) = (first, second) {
        lemma_pattern_search_starts(&a);
        lemma_pattern_search_starts(&b);
    }
}

/// The base path itself is the first candidate that it stands for, whatever
/// the suffixes: where it exists and can be run, it comes before any form of
/// it with a suffix. A base path that carries one of the suffixes stands for
/// itself alone.
pub proof fn lemma_unsuffixed_first<S: Sys>(sys: &S, base: Seq<char>, suffixes: Seq<Seq<char>>)
    ensures
        expand(base, suffixes).len() > 0,
        expand(base, suffixes)[0] == base,
        crate::helper::has_executable_extension_spec(base, suffixes) ==> expand(base, suffixes)
            == seq![base],
        crate::checker::is_valid_spec(sys, base) ==> hits(
            name_trials(sys, expand(base, suffixes)),
        ).len() > 0 && hits(name_trials(sys, expand(base, suffixes)))[0] == correct_casing_spec(
            sys,
            base,
        ),
{
}

/// Where case does not tell names apart, a result has its file name as the
/// directory holds it: if the directory of a path has an entry whose name is
/// the file name of the path but for the case of its letters, the path comes
/// back as its directory with the name of the first such entry, which the path
/// then ends in.
pub proof fn lemma_case_of_entry<S: Sys>(sys: &S, p: Seq<char>, i: int)
    requires
        sys.is_windows_spec(),
        crate::helper::parent_spec(p) is Some,
        crate::helper::file_name_spec(p) is Some,
        sys.read_dir_spec(crate::helper::parent_spec(p).unwrap()) is Ok,
        0 <= i < sys.read_dir_spec(crate::helper::parent_spec(p).unwrap()).unwrap().len(),
        sys.read_dir_spec(crate::helper::parent_spec(p).unwrap()).unwrap()[i] is Ok,
        crate::helper::eq_ignore_ascii_case_spec(
            sys.read_dir_spec(crate::helper::parent_spec(p).unwrap()).unwrap()[i].unwrap().file_name,
            crate::helper::file_name_spec(p).unwrap(),
        ),
    ensures
        ({
            let dir = crate::helper::parent_spec(p).unwrap();
            let entries = sys.read_dir_spec(dir).unwrap();
            let first = first_hit(casing_trials(sys, p));
            &&& 0 <= first <= i
            &&& entries[first] is Ok
            &&& crate::helper::eq_ignore_ascii_case_spec(
                entries[first].unwrap().file_name,
                crate::helper::file_name_spec(p).unwrap(),
            )
            &&& correct_casing_spec(sys, p) == crate::helper::push_spec(
                dir,
                entries[first].unwrap().file_name,
            )
            &&& entries[first].unwrap().file_name.is_suffix_of(correct_casing_spec(sys, p))
        }),
{
    let trials = casing_trials(sys, p);
    lemma_first_hit(trials);
    assert(trials[i].found is Some);
    assert(first_hit(trials) <= i);
}

/// Setting the file name of a path to its case on disk changes that name at
/// most: the path keeps its other names, and the new last name is the old one
/// but for the case of its letters.
pub proof fn lemma_casing_keeps_directory<S: Sys>(sys: &S, p: Seq<char>)
    ensures
        ({
            let r = correct_casing_spec(sys, p);
            let before = crate::helper::names(p);
            let after = crate::helper::names(r);
            ||| r == p
            ||| {
                &&& before.len() > 0
                &&& after.len() == before.len()
                &&& after.drop_last() == before.drop_last()
                &&& crate::helper::eq_ignore_ascii_case_spec(after.last(), before.last())
            }
        }),
{
    let trials = casing_trials(sys, p);
    lemma_first_hit(trials);
    let k = first_hit(trials);
    if k < trials.len() {
        let dir = crate::helper::parent_spec(p).unwrap();
        let name = crate::helper::file_name_spec(p).unwrap();
        let entries = sys.read_dir_spec(dir).unwrap();
        let entry_name = entries[k].unwrap().file_name;
        crate::helper::lemma_names_are_plain(p);
        crate::helper::lemma_plain_name_any_case(name, entry_name);
        crate::helper::lemma_parent_names(p);
        crate::helper::lemma_names_of_plain_name(entry_name);
        crate::helper::lemma_names_of_push(dir, entry_name);
    }
}

/// Each candidate is one of those that one of the base paths stands for.
pub proof fn lemma_candidate_has_base(bases: Seq<Seq<char>>, suffixes: Seq<Seq<char>>, j: int)
    requires
        0 <= j < candidates(bases, suffixes).len(),
    ensures
        exists|i: int, m: int|
            0 <= i < bases.len() && 0 <= m < expand(#[trigger] bases[i], suffixes).len()
                && candidates(bases, suffixes)[j] == #[trigger] expand(bases[i], suffixes)[m],
    decreases bases.len(),
{
    let first = expand(bases[0], suffixes);
    if j < first.len() {
        assert(candidates(bases, suffixes)[j] == expand(bases[0], suffixes)[j]);
    } else {
        let rest = bases.drop_first();
        lemma_candidate_has_base(rest, suffixes, j - first.len());
    }
}

/// Whether a path lies in the directory with the names `dir`: it has these
/// names, and one more at least.
pub open spec fn lies_in(path: Seq<char>, dir: Seq<Seq<char>>) -> bool {
    &&& crate::helper::names(path).len() > dir.len()
    &&& crate::helper::names(path).take(dir.len() as int) == dir
}

/// What is found for a candidate of a base path lies in the directory of the
/// base path.
pub proof fn lemma_found_beside_base<S: Sys>(
    sys: &S,
    base: Seq<char>,
    suffixes: Seq<Seq<char>>,
    m: int,
)
    requires
        crate::helper::names(base).len() > 0,
        0 <= m < expand(base, suffixes).len(),
    ensures
        lies_in(expand(base, suffixes)[m], crate::helper::names(base).drop_last()),
        lies_in(
            correct_casing_spec(sys, expand(base, suffixes)[m]),
            crate::helper::names(base).drop_last(),
        ),
{
    let candidate = expand(base, suffixes)[m];
    let dir = crate::helper::names(base).drop_last();
    if m == 0 {
        crate::helper::lemma_names_with_suffix(base, Seq::empty());
    } else {
        crate::helper::lemma_names_with_suffix(base, suffixes[m - 1]);
    }
    lemma_casing_keeps_directory(sys, candidate);
    let after = crate::helper::names(correct_casing_spec(sys, candidate));
    let before = crate::helper::names(candidate);
    if correct_casing_spec(sys, candidate) != candidate {
        assert(after.take(dir.len() as int) =~= after.drop_last().take(dir.len() as int));
        assert(before.take(dir.len() as int) =~= before.drop_last().take(dir.len() as int));
    }
}

/// What is found for a name with a separator lies where the name says: in the
/// directory that the name names, taken from the root if the name is absolute
/// and from the working directory if it is not. The path that is tried starts
/// with the working directory then.
pub proof fn lemma_result_where_name_says<S: Sys>(
    sys: &S,
    name: Seq<char>,
    paths: Option<Seq<char>>,
    cwd: Option<Seq<char>>,
    k: int,
)
    requires
        crate::helper::has_separator_spec(name),
        query_error(sys, name, paths, cwd) is None,
        0 <= k < resolve_all(sys, name, paths, cwd).unwrap().len(),
    ensures
        crate::helper::names(name).len() > 0,
        crate::helper::is_absolute_spec(name) ==> lies_in(
            resolve_all(sys, name, paths, cwd).unwrap()[k],
            crate::helper::names(name).drop_last(),
        ),
        !crate::helper::is_absolute_spec(name) ==> lies_in(
            resolve_all(sys, name, paths, cwd).unwrap()[k],
            crate::helper::names(cwd.unwrap()) + crate::helper::names(name).drop_last(),
        ) && cwd.unwrap().is_prefix_of(query_bases(sys, name, paths, cwd)[0]),
{
    let base = query_bases(sys, name, paths, cwd)[0];
    let suffixes = platform_suffixes(sys);
    let all = expand(base, suffixes);
    assert(query_candidates(sys, name, paths, cwd) =~= all) by {
        let bases = query_bases(sys, name, paths, cwd);
        assert(candidates(bases.drop_first(), suffixes) =~= Seq::<Seq<char>>::empty());
    }
    let trials = name_trials(sys, all);
    lemma_hit_comes_from_trial(trials, k);
    let j = choose|j: int|
        0 <= j < trials.len() && (#[trigger] trials[j]).found == Some(hits(trials)[k]);
    if !crate::helper::is_absolute_spec(name) {
        crate::helper::lemma_to_absolute_below(name, cwd.unwrap());
        assert(crate::helper::names(base).drop_last() =~= crate::helper::names(cwd.unwrap())
            + crate::helper::names(name).drop_last());
    }
    lemma_found_beside_base(sys, base, suffixes, j);
}

/// What is found for a name without a separator lies in one of the
/// directories of the search list, a `~` at the start of the directory
/// replaced by the home directory. The name is one that names something: it is
/// not absolute and holds a name.
pub proof fn lemma_result_in_search_directory<S: Sys>(
    sys: &S,
    name: Seq<char>,
    paths: Option<Seq<char>>,
    cwd: Option<Seq<char>>,
    k: int,
)
    requires
        !crate::helper::has_separator_spec(name),
        !crate::helper::is_absolute_spec(name),
        crate::helper::names(name).len() == 1,
        query_error(sys, name, paths, cwd) is None,
        0 <= k < resolve_all(sys, name, paths, cwd).unwrap().len(),
    ensures
        exists|i: int|
            0 <= i < sys.env_split_paths_spec(paths.unwrap()).len() && lies_in(
                resolve_all(sys, name, paths, cwd).unwrap()[k],
                crate::helper::names(
                    tilde_expansion_spec(sys, #[trigger] sys.env_split_paths_spec(paths.unwrap())[i]),
                ),
            ),
{
    let dirs = sys.env_split_paths_spec(paths.unwrap());
    let bases = search_bases(sys, dirs, name);
    let suffixes = platform_suffixes(sys);
    let all = candidates(bases, suffixes);
    let trials = name_trials(sys, all);
    lemma_hit_comes_from_trial(trials, k);
    let j = choose|j: int|
        0 <= j < trials.len() && (#[trigger] trials[j]).found == Some(hits(trials)[k]);
    lemma_candidate_has_base(bases, suffixes, j);
    let (i, m) = choose|i: int, m: int|
        0 <= i < bases.len() && 0 <= m < expand(#[trigger] bases[i], suffixes).len() && all[j]
            == #[trigger] expand(bases[i], suffixes)[m];
    let dir = tilde_expansion_spec(sys, dirs[i]);
    crate::helper::lemma_names_of_push(dir, name);
    assert(crate::helper::names(bases[i]).drop_last() =~= crate::helper::names(dir));
    lemma_found_beside_base(sys, bases[i], suffixes, m);
}

/// A name that has to be looked for in the search list cannot be looked for
/// without one: the query ends in the error that says so, and gives no empty
/// list of results.
pub proof fn lemma_search_list_required<S: Sys>(
    sys: &S,
    name: Seq<char>,
    paths: Option<Seq<char>>,
    cwd: Option<Seq<char>>,
)
    requires
        !crate::helper::has_separator_spec(name),
        paths is None || sys.env_split_paths_spec(paths.unwrap()).len() == 0,
    ensures
        resolve_all(sys, name, paths, cwd) == Err::<Seq<Seq<char>>, Error>(
            Error::CannotGetCurrentDirAndPathListEmpty,
        ),
        first_of(resolve_all(sys, name, paths, cwd)) == Err::<Seq<char>, Error>(
            Error::CannotGetCurrentDirAndPathListEmpty,
        ),
{
}

} // verus!
