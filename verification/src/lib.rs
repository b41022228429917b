//! Finds executables by name, as the shell command `which` does.
//!
//! A name with a separator is looked for at the place that it names; any
//! other name is looked for in the directories of a search list. What is
//! found exists and can be run. The system that is searched, its environment
//! and its file system, is handed to the search as a value with the trait
//! [`sys::Sys`], so that a search runs on the real system and on one in
//! memory alike; every function states what it gives in terms of what that
//! system answers.

pub mod checker;
mod error;
pub mod finder;
pub mod helper;
pub mod memory;
pub mod sys;

pub use crate::error::{Error, NonFatalError, Result};

use crate::finder::{Finder, WhichFindIterator, WhichFindRegexIter};
use crate::sys::{IoResult, Sys};
use regex::Regex;
use vstd::prelude::*;

verus! {

/// A handler for non-fatal errors which does nothing with them.
#[derive(Default, Debug, Clone)]
pub struct Noop;

/// Defines what should happen when a nonfatal error is encountered. A nonfatal error may represent a problem,
/// but it doesn't necessarily require `which` to stop its search.
pub trait NonFatalErrorHandler {
    /// Whether a handler that was `self` may be `after` once it has been given
    /// `e`. A handler that does not say so may be anything afterwards.
    open spec fn handles(&self, e: NonFatalError, after: &Self) -> bool {
        true
    }

    fn handle(&mut self, e: NonFatalError)
        ensures
            old(self).handles(e, final(self)),
    ;
}

impl NonFatalErrorHandler for Noop {
    open spec fn handles(&self, e: NonFatalError, after: &Self) -> bool {
        true
    }

    fn handle(&mut self, _e: NonFatalError) {
        // Do nothing
    }
}

/// Whether `states` are the states that a handler goes through from `before`
/// to `after` while it is given `errors`, one after the other.
pub open spec fn is_trace<F: NonFatalErrorHandler>(
    states: Seq<F>,
    before: F,
    errors: Seq<NonFatalError>,
    after: F,
) -> bool {
    &&& states.len() == errors.len() + 1
    &&& states[0] == before
    &&& states[errors.len() as int] == after
    &&& forall|i: int|
        0 <= i < errors.len() ==> #[trigger] states[i].handles(errors[i], &states[i + 1])
}

/// Whether a handler that was `before` may be `after` once it has been given
/// `errors`, one after the other, and nothing else.
pub open spec fn reported<F: NonFatalErrorHandler>(
    before: F,
    errors: Seq<NonFatalError>,
    after: F,
) -> bool {
    exists|states: Seq<F>| is_trace(states, before, errors, after)
}

/// A handler that is given nothing stays as it is.
pub proof fn lemma_reported_nothing<F: NonFatalErrorHandler>(h: F)
    ensures
        reported(h, Seq::empty(), h),
{
    assert(is_trace(seq![h], h, Seq::empty(), h));
}

/// A handler that is given one error.
pub proof fn lemma_reported_one<F: NonFatalErrorHandler>(before: F, e: NonFatalError, after: F)
    requires
        before.handles(e, &after),
    ensures
        reported(before, seq![e], after),
{
    assert(is_trace(seq![before, after], before, seq![e], after));
}

/// What was reported, and then one error more.
pub proof fn lemma_reported_push<F: NonFatalErrorHandler>(
    before: F,
    errors: Seq<NonFatalError>,
    mid: F,
    e: NonFatalError,
    after: F,
)
    requires
        reported(before, errors, mid),
        mid.handles(e, &after),
    ensures
        reported(before, errors.push(e), after),
{
    let states = choose|states: Seq<F>| is_trace(states, before, errors, mid);
    let longer = states.push(after);
    let all = errors.push(e);
    assert forall|i: int| 0 <= i < all.len() implies #[trigger] longer[i].handles(
        all[i],
        &longer[i + 1],
    ) by {}
    assert(is_trace(longer, before, all, after));
}

/// What was reported, and then what was reported after it.
pub proof fn lemma_reported_concat<F: NonFatalErrorHandler>(
    before: F,
    first: Seq<NonFatalError>,
    mid: F,
    second: Seq<NonFatalError>,
    after: F,
)
    requires
        reported(before, first, mid),
        reported(mid, second, after),
    ensures
        reported(before, first + second, after),
{
    let head = choose|states: Seq<F>| is_trace(states, before, first, mid);
    let tail = choose|states: Seq<F>| is_trace(states, mid, second, after);
    let states = head + tail.drop_first();
    let all = first + second;
    assert forall|i: int| 0 <= i < all.len() implies #[trigger] states[i].handles(
        all[i],
        &states[i + 1],
    ) by {}
    assert(is_trace(states, before, all, after));
}

/// A text that is there or not, by reference.
fn as_text(o: &Option<String>) -> (r: Option<&str>)
    ensures
        crate::finder::text_of_str(r) == crate::sys::text_of_option(*o),
{
    match o {
        Some(s) => Some(s.as_str()),
        None => None,
    }
}

/// The working directory of the system, if it can be had.
fn current_dir_of<TSys: Sys>(sys: &TSys) -> (r: Option<String>)
    ensures
        crate::sys::text_of_option(r) == crate::finder::system_cwd(sys),
{
    match sys.current_dir() {
        Ok(dir) => Some(dir),
        Err(_) => None,
    }
}

/// Find an executable binary's path by name.
///
/// If given an absolute path, returns it if the file exists and is executable.
///
/// If given a relative path, returns an absolute path to the file if
/// it exists and is executable.
///
/// If given a string without path separators, looks for a file named
/// `binary_name` at each directory in `$PATH` and if it finds an executable
/// file there, returns it.
pub fn which<TSys: Sys>(sys: TSys, binary_name: &str) -> (r: Result<String>)
    ensures
        crate::finder::found_text(r) == crate::finder::first_of(
            crate::finder::resolve_all(
                &sys,
                binary_name@,
                sys.env_path_spec(),
                crate::finder::system_cwd(&sys),
            ),
        ),
{
    match which_all(sys, binary_name) {
        Ok(it) => it.first(),
        Err(e) => Err(e),
    }
}

/// Find an executable binary's path by name, ignoring `cwd`.
///
/// If given an absolute path, returns it if the file exists and is executable.
///
/// Does not resolve relative paths.
///
/// If given a string without path separators, looks for a file named
/// `binary_name` at each directory in `$PATH` and if it finds an executable
/// file there, returns it.
pub fn which_global<TSys: Sys>(sys: TSys, binary_name: &str) -> (r: Result<String>)
    ensures
        crate::finder::found_text(r) == crate::finder::first_of(
            crate::finder::resolve_all(&sys, binary_name@, sys.env_path_spec(), None),
        ),
{
    match which_all_global(sys, binary_name) {
        Ok(it) => it.first(),
        Err(e) => Err(e),
    }
}

/// Find all binaries with `binary_name` using `cwd` to resolve relative paths.
pub fn which_all<TSys: Sys>(sys: TSys, binary_name: &str) -> (r: Result<
    WhichFindIterator<TSys, Noop>,
>)
    ensures
        crate::finder::starts_query(
            r,
            sys,
            Noop,
            binary_name@,
            sys.env_path_spec(),
            crate::finder::system_cwd(&sys),
        ),
{
    let cwd = current_dir_of(&sys);
    let paths = sys.env_path();
    Finder::new(sys).find(binary_name, as_text(&paths), as_text(&cwd), Noop)
}

/// Find all binaries with `binary_name` ignoring `cwd`.
pub fn which_all_global<TSys: Sys>(sys: TSys, binary_name: &str) -> (r: Result<
    WhichFindIterator<TSys, Noop>,
>)
    ensures
        crate::finder::starts_query(r, sys, Noop, binary_name@, sys.env_path_spec(), None),
{
    let paths = sys.env_path();
    Finder::new(sys).find(binary_name, as_text(&paths), None, Noop)
}

/// Find all binaries matching a regular expression in a the system PATH.
///
/// # Arguments
///
/// * `regex` - A regular expression to match binaries with
pub fn which_re<TSys: Sys>(sys: TSys, regex: Regex) -> (r: Result<WhichFindRegexIter<TSys, Noop>>)
    ensures
        crate::finder::starts_query_re(r, sys, Noop, regex, sys.env_path_spec()),
{
    let paths = sys.env_path();
    which_re_in(sys, regex, as_text(&paths))
}

/// Find `binary_name` in the path list `paths`, using `cwd` to resolve relative paths.
pub fn which_in<TSys: Sys>(sys: TSys, binary_name: &str, paths: Option<&str>, cwd: &str) -> (r:
    Result<String>)
    ensures
        crate::finder::found_text(r) == crate::finder::first_of(
            crate::finder::resolve_all(
                &sys,
                binary_name@,
                crate::finder::text_of_str(paths),
                Some(cwd@),
            ),
        ),
{
    match which_in_all(sys, binary_name, paths, cwd) {
        Ok(it) => it.first(),
        Err(e) => Err(e),
    }
}

/// Find all binaries matching a regular expression in a list of paths.
///
/// # Arguments
///
/// * `regex` - A regular expression to match binaries with
/// * `paths` - A string containing the paths to search
///   (separated in the same way as the PATH environment variable)
pub fn which_re_in<TSys: Sys>(sys: TSys, regex: Regex, paths: Option<&str>) -> (r: Result<
    WhichFindRegexIter<TSys, Noop>,
>)
    ensures
        crate::finder::starts_query_re(r, sys, Noop, regex, crate::finder::text_of_str(paths)),
{
    Finder::new(sys).find_re(regex, paths, Noop)
}

/// Find all binaries with `binary_name` in the path list `paths`, using `cwd` to resolve relative paths.
pub fn which_in_all<TSys: Sys>(
    sys: TSys,
    binary_name: &str,
    paths: Option<&str>,
    cwd: &str,
) -> (r: Result<WhichFindIterator<TSys, Noop>>)
    ensures
        crate::finder::starts_query(
            r,
            sys,
            Noop,
            binary_name@,
            crate::finder::text_of_str(paths),
            Some(cwd@),
        ),
{
    Finder::new(sys).find(binary_name, paths, Some(cwd), Noop)
}

/// Find all binaries with `binary_name` in the path list `paths`, ignoring `cwd`.
pub fn which_in_global<TSys: Sys>(sys: TSys, binary_name: &str, paths: Option<&str>) -> (r:
    Result<WhichFindIterator<TSys, Noop>>)
    ensures
        crate::finder::starts_query(
            r,
            sys,
            Noop,
            binary_name@,
            crate::finder::text_of_str(paths),
            None,
        ),
{
    Finder::new(sys).find(binary_name, paths, None, Noop)
}

/// How a query deals with the working directory.
pub enum CwdOption {
    Unspecified,
    UseSysCwd,
    RefuseCwd,
    UseCustomCwd(String),
}

/// The results of a query, handed out one at a time: those of a search by
/// name or those of a search by pattern.
pub enum WhichResults<TSys: Sys, F: NonFatalErrorHandler> {
    ByName(WhichFindIterator<TSys, F>),
    ByPattern(WhichFindRegexIter<TSys, F>),
}

impl<TSys: Sys, F: NonFatalErrorHandler> WhichResults<TSys, F> {
    /// The handler that the errors go to.
    pub open spec fn handler(&self) -> F {
        match self {
            WhichResults::ByName(it) => it.handler(),
            WhichResults::ByPattern(it) => it.handler(),
        }
    }

    /// The trials that are still to be made, in their order.
    pub open spec fn pending(&self) -> Seq<crate::finder::Trial> {
        match self {
            WhichResults::ByName(it) => it.pending(),
            WhichResults::ByPattern(it) => it.pending(),
        }
    }

    /// The results that are still to come, in their order.
    pub open spec fn results(&self) -> Seq<Seq<char>> {
        crate::finder::hits(self.pending())
    }

    /// Hands out the next result, if one is left. The trials before it are
    /// made and left behind; what goes wrong on the way is handed to the
    /// handler.
    pub fn next(&mut self) -> (r: Option<String>)
        ensures
            final(self).pending() == old(self).pending().skip(
                crate::finder::consumed(old(self).pending()),
            ),
            crate::sys::text_of_option(r) == if crate::finder::first_hit(old(self).pending())
                < old(self).pending().len() {
                old(self).pending()[crate::finder::first_hit(old(self).pending())].found
            } else {
                None
            },
            crate::reported(
                old(self).handler(),
                crate::finder::errors_in(
                    old(self).pending().take(crate::finder::consumed(old(self).pending())),
                ),
                final(self).handler(),
            ),
    {
        match self {
            WhichResults::ByName(it) => it.next(),
            WhichResults::ByPattern(it) => it.next(),
        }
    }

    /// Runs the search to its first result. A search without results ends in
    /// the error that says so.
    pub fn first(self) -> (r: Result<String>)
        ensures
            crate::finder::found_text(r) == crate::finder::first_of(Ok(self.results())),
            exists|after: F|
                crate::reported(
                    self.handler(),
                    crate::finder::errors_in(
                        self.pending().take(crate::finder::consumed(self.pending())),
                    ),
                    after,
                ),
    {
        let mut it = self;
        proof {
            crate::finder::lemma_hits_from_first(it.pending());
            crate::finder::lemma_first_hit(it.pending());
        }
        let r = it.next();
        assert(crate::reported(
            self.handler(),
            crate::finder::errors_in(self.pending().take(crate::finder::consumed(self.pending()))),
            it.handler(),
        ));
        match r {
            Some(p) => Ok(p),
            None => Err(Error::CannotFindBinaryPath),
        }
    }

    /// Runs the search to its end and gives all its results, in their order.
    pub fn collect(self) -> (r: Vec<String>)
        ensures
            crate::sys::texts_of(r@) == self.results(),
            exists|after: F|
                crate::reported(self.handler(), crate::finder::errors_in(self.pending()), after),
    {
        match self {
            WhichResults::ByName(it) => {
                let found = it.collect();
                proof {
                    let after = choose|after: F|
                        crate::reported(
                            it.handler(),
                            crate::finder::errors_in(it.pending()),
                            after,
                        );
                    assert(crate::reported(
                        self.handler(),
                        crate::finder::errors_in(self.pending()),
                        after,
                    ));
                }
                found
            },
            WhichResults::ByPattern(it) => {
                let found = it.collect();
                proof {
                    let after = choose|after: F|
                        crate::reported(
                            it.handler(),
                            crate::finder::errors_in(it.pending()),
                            after,
                        );
                    assert(crate::reported(
                        self.handler(),
                        crate::finder::errors_in(self.pending()),
                        after,
                    ));
                }
                found
            },
        }
    }
}

/// A wrapper containing all functionality in this crate.
pub struct WhichConfig<TSys: Sys, F = Noop> {
    cwd: CwdOption,
    custom_path_list: Option<String>,
    binary_name: Option<String>,
    nonfatal_error_handler: F,
    regex: Option<Regex>,
    sys: TSys,
}

impl<TSys: Sys> WhichConfig<TSys, Noop> {
    /// Creates a new `WhichConfig` with the given `sys::Sys`.
    ///
    /// This is useful for providing all the system related
    /// functionality to this crate.
    pub fn new_with_sys(sys: TSys) -> (config: Self)
        ensures
            config.sys() == sys,
            config.cwd() == CwdOption::Unspecified,
            config.path_list() is None,
            config.name() is None,
            config.pattern() is None,
    {
        Self {
            cwd: CwdOption::Unspecified,
            custom_path_list: None,
            binary_name: None,
            nonfatal_error_handler: Noop,
            regex: None,
            sys,
        }
    }
}

impl<TSys: Sys, F: NonFatalErrorHandler> WhichConfig<TSys, F> {
    /// The system that the query is made of.
    pub closed spec fn sys(&self) -> TSys {
        self.sys
    }

    /// How the query deals with the working directory.
    pub closed spec fn cwd(&self) -> CwdOption {
        self.cwd
    }

    /// The search list that was set in place of that of the system, if one was.
    pub closed spec fn path_list(&self) -> Option<Seq<char>> {
        crate::sys::text_of_option(self.custom_path_list)
    }

    /// The name that is looked for, if one was set.
    pub closed spec fn name(&self) -> Option<Seq<char>> {
        crate::sys::text_of_option(self.binary_name)
    }

    /// The pattern that is looked for, if one was set.
    pub closed spec fn pattern(&self) -> Option<Regex> {
        self.regex
    }

    /// The handler that the errors go to.
    pub closed spec fn handler(&self) -> F {
        self.nonfatal_error_handler
    }

    /// Whether `other` is this configuration but for the way it deals with
    /// the working directory.
    pub open spec fn same_but_cwd(&self, other: &Self) -> bool {
        &&& other.sys() == self.sys()
        &&& other.path_list() == self.path_list()
        &&& other.name() == self.name()
        &&& other.pattern() == self.pattern()
        &&& other.handler() == self.handler()
    }

    /// The search list of the query: the one that was set, else that of the
    /// system.
    pub open spec fn search_list(&self) -> Option<Seq<char>> {
        if self.path_list() is Some {
            self.path_list()
        } else {
            self.sys().env_path_spec()
        }
    }

    /// The working directory of the query: none where it is refused, the one
    /// that was set, else that of the system, if it can be had.
    pub open spec fn working_dir(&self) -> Option<Seq<char>> {
        match self.cwd() {
            CwdOption::RefuseCwd => None,
            CwdOption::UseCustomCwd(custom) => Some(custom@),
            _ => crate::finder::system_cwd(&self.sys()),
        }
    }

    /// The trials of the query, in their order: those of a search by pattern
    /// if a pattern was set, else those of a search by name.
    pub open spec fn trials(&self) -> Seq<crate::finder::Trial> {
        if self.pattern() is Some {
            crate::finder::pattern_trials(
                &self.sys(),
                self.pattern().unwrap(),
                self.sys().env_split_paths_spec(self.search_list().unwrap()),
            )
        } else {
            crate::finder::name_trials(
                &self.sys(),
                crate::finder::query_candidates(
                    &self.sys(),
                    self.name().unwrap(),
                    self.search_list(),
                    self.working_dir(),
                ),
            )
        }
    }

    /// All the results of the query, in their order, or why it cannot be run.
    /// A query with a pattern is one by pattern; any other is one by name.
    pub open spec fn outcome(&self) -> Result<Seq<Seq<char>>> {
        if self.pattern() is Some {
            crate::finder::resolve_all_re(&self.sys(), self.pattern().unwrap(), self.search_list())
        } else {
            crate::finder::resolve_all(
                &self.sys(),
                self.name().unwrap(),
                self.search_list(),
                self.working_dir(),
            )
        }
    }

    /// Whether or not to use the current working directory. `true` by default.
    ///
    /// A query by pattern cannot use the working directory.
    pub fn system_cwd(self, use_cwd: bool) -> (config: Self)
        requires
            !(self.pattern() is Some && use_cwd),
        ensures
            self.same_but_cwd(&config),
            config.cwd() == if use_cwd {
                CwdOption::UseSysCwd
            } else {
                CwdOption::RefuseCwd
            },
    {
        let mut config = self;
        // Otherwise, keep custom cwd if specified.
        config.cwd = if use_cwd {
            CwdOption::UseSysCwd
        } else {
            CwdOption::RefuseCwd
        };
        config
    }

    /// Sets a custom path for resolving relative paths.
    ///
    /// A query by pattern cannot use a working directory.
    pub fn custom_cwd(self, cwd: String) -> (config: Self)
        requires
            self.pattern() is None,
        ensures
            self.same_but_cwd(&config),
            config.cwd() == CwdOption::UseCustomCwd(cwd),
    {
        let mut config = self;
        config.cwd = CwdOption::UseCustomCwd(cwd);
        config
    }

    /// Sets the path name regex to search for. You ***MUST*** call this, or [`Self::binary_name`] prior to searching.
    ///
    /// A query by pattern cannot have a name, nor use a working directory.
    pub fn regex(self, regex: Regex) -> (config: Self)
        requires
            !(self.cwd() is UseSysCwd),
            !(self.cwd() is UseCustomCwd),
            self.name() is None,
        ensures
            config.sys() == self.sys(),
            config.cwd() == self.cwd(),
            config.path_list() == self.path_list(),
            config.name() == self.name(),
            config.handler() == self.handler(),
            config.pattern() == Some(regex),
    {
        let mut config = self;
        config.regex = Some(regex);
        config
    }

    /// Sets the path name to search for. You ***MUST*** call this, or [`Self::regex`] prior to searching.
    ///
    /// A query by pattern cannot have a name.
    pub fn binary_name(self, name: String) -> (config: Self)
        requires
            self.pattern() is None,
        ensures
            config.sys() == self.sys(),
            config.cwd() == self.cwd(),
            config.path_list() == self.path_list(),
            config.pattern() == self.pattern(),
            config.handler() == self.handler(),
            config.name() == Some(name@),
    {
        let mut config = self;
        config.binary_name = Some(name);
        config
    }

    /// Uses the given string instead of the `PATH` env variable.
    pub fn custom_path_list(self, custom_path_list: String) -> (config: Self)
        ensures
            config.sys() == self.sys(),
            config.cwd() == self.cwd(),
            config.name() == self.name(),
            config.pattern() == self.pattern(),
            config.handler() == self.handler(),
            config.path_list() == Some(custom_path_list@),
    {
        let mut config = self;
        config.custom_path_list = Some(custom_path_list);
        config
    }

    /// Uses the `PATH` env variable. Enabled by default.
    pub fn system_path_list(self) -> (config: Self)
        ensures
            config.sys() == self.sys(),
            config.cwd() == self.cwd(),
            config.name() == self.name(),
            config.pattern() == self.pattern(),
            config.handler() == self.handler(),
            config.path_list() is None,
    {
        let mut config = self;
        config.custom_path_list = None;
        config
    }

    /// Sets a handler that will receive non-fatal errors.
    pub fn nonfatal_error_handler<NewF: NonFatalErrorHandler>(self, handler: NewF) -> (config:
        WhichConfig<TSys, NewF>)
        ensures
            config.sys() == self.sys(),
            config.cwd() == self.cwd(),
            config.path_list() == self.path_list(),
            config.name() == self.name(),
            config.pattern() == self.pattern(),
            config.handler() == handler,
    {
        WhichConfig {
            custom_path_list: self.custom_path_list,
            cwd: self.cwd,
            binary_name: self.binary_name,
            nonfatal_error_handler: handler,
            regex: self.regex,
            sys: self.sys,
        }
    }

    /// Tells whether a pattern was set.
    pub fn has_regex(&self) -> (b: bool)
        ensures
            b == self.pattern() is Some,
    {
        self.regex.is_some()
    }

    /// Tells whether a name was set.
    pub fn has_binary_name(&self) -> (b: bool)
        ensures
            b == self.name() is Some,
    {
        self.binary_name.is_some()
    }

    /// Tells whether the query is to use a working directory: that of the
    /// system, asked for by `system_cwd`, or one that was set.
    pub fn uses_cwd(&self) -> (b: bool)
        ensures
            b == (self.cwd() is UseSysCwd || self.cwd() is UseCustomCwd),
    {
        match &self.cwd {
            CwdOption::UseSysCwd => true,
            CwdOption::UseCustomCwd(_) => true,
            _ => false,
        }
    }

    /// Finishes configuring, runs the query and returns the first result.
    pub fn first_result(self) -> (r: Result<String>)
        requires
            self.pattern() is Some || self.name() is Some,
        ensures
            crate::finder::found_text(r) == crate::finder::first_of(self.outcome()),
            self.outcome() is Ok ==> exists|after: F|
                crate::reported(
                    self.handler(),
                    crate::finder::errors_in(
                        self.trials().take(crate::finder::consumed(self.trials())),
                    ),
                    after,
                ),
    {
        match self.all_results() {
            Ok(it) => it.first(),
            Err(e) => Err(e),
        }
    }

    /// Finishes configuring, runs the query and returns all results.
    pub fn all_results(self) -> (r: Result<WhichResults<TSys, F>>)
        requires
            self.pattern() is Some || self.name() is Some,
        ensures
            match r {
                Ok(it) => self.outcome() == Ok::<Seq<Seq<char>>, Error>(it.results())
                    && it.handler() == self.handler() && it.pending() == self.trials(),
                Err(e) => self.outcome() == Err::<Seq<Seq<char>>, Error>(e),
            },
            match r {
                Ok(WhichResults::ByName(it)) => self.pattern() is None
                    && crate::finder::starts_query(
                    Ok(it),
                    self.sys(),
                    self.handler(),
                    self.name().unwrap(),
                    self.search_list(),
                    self.working_dir(),
                ),
                Ok(WhichResults::ByPattern(it)) => self.pattern() is Some
                    && crate::finder::starts_query_re(
                    Ok(it),
                    self.sys(),
                    self.handler(),
                    self.pattern().unwrap(),
                    self.search_list(),
                ),
                Err(_) => true,
            },
    {
        let paths: Option<String> = match self.custom_path_list {
            Some(list) => Some(list),
            None => self.sys.env_path(),
        };
        if let Some(regex) = self.regex {
            return match Finder::new(self.sys).find_re(
                regex,
                as_text(&paths),
                self.nonfatal_error_handler,
            ) {
                Ok(it) => {
                    proof {
                        crate::finder::lemma_pattern_search_starts(&it);
                    }
                    Ok(WhichResults::ByPattern(it))
                },
                Err(e) => Err(e),
            };
        }
        let cwd: Option<String> = match self.cwd {
            CwdOption::RefuseCwd => None,
            CwdOption::UseCustomCwd(custom) => Some(custom),
            CwdOption::UseSysCwd | CwdOption::Unspecified => current_dir_of(&self.sys),
        };
        let name: String = match self.binary_name {
            Some(name) => name,
            None => {
                String::new()
            },
        };
        match Finder::new(self.sys).find(
            name.as_str(),
            as_text(&paths),
            as_text(&cwd),
            self.nonfatal_error_handler,
        ) {
            Ok(it) => Ok(WhichResults::ByName(it)),
            Err(e) => Err(e),
        }
    }
}

/// A query for a name without a separator that has no search list of its own,
/// on a system that has none either, ends in the error that says that a search
/// list is required; it does not give an empty list of results.
pub proof fn lemma_config_needs_search_list<TSys: Sys, F: NonFatalErrorHandler>(
    config: WhichConfig<TSys, F>,
)
    requires
        config.pattern() is None,
        config.name() is Some,
        !crate::helper::has_separator_spec(config.name().unwrap()),
        config.path_list() is None,
        config.sys().env_path_spec() is None,
    ensures
        config.outcome() == Err::<Seq<Seq<char>>, Error>(
            Error::CannotGetCurrentDirAndPathListEmpty,
        ),
        crate::finder::first_of(config.outcome()) == Err::<Seq<char>, Error>(
            Error::CannotGetCurrentDirAndPathListEmpty,
        ),
{
}

/// An owned, immutable wrapper around the path of an executable.
///
/// The path is the output of `which` or `which_in`, under a type of its own,
/// for where the type system is to enforce the need for a path that exists and
/// points to a binary that is executable.
#[derive(Clone, Debug)]
pub struct Path {
    inner: String,
}

impl View for Path {
    type V = Seq<char>;

    closed spec fn view(&self) -> Seq<char> {
        self.inner@
    }
}

impl PartialEq for Path {
    fn eq(&self, other: &Self) -> (r: bool) {
        self.inner == other.inner
    }
}

impl vstd::std_specs::cmp::PartialEqSpecImpl for Path {
    open spec fn obeys_eq_spec() -> bool {
        true
    }

    open spec fn eq_spec(&self, other: &Self) -> bool {
        self@ == other@
    }
}

impl Eq for Path {

}

/// The view of a path that was found, or the error.
pub open spec fn path_text(r: Result<Path>) -> Result<Seq<char>> {
    match r {
        Ok(p) => Ok(p@),
        Err(e) => Err(e),
    }
}

/// The views of the paths that were found, or the error.
pub open spec fn path_texts(r: Result<Vec<Path>>) -> Result<Seq<Seq<char>>> {
    match r {
        Ok(v) => Ok(Seq::new(v@.len(), |i: int| v@[i]@)),
        Err(e) => Err(e),
    }
}

/// Each path that was found, under the type of its own.
fn wrap_all(found: Vec<String>) -> (r: Vec<Path>)
    ensures
        Seq::new(r@.len(), |i: int| r@[i]@) == crate::sys::texts_of(found@),
{
    let mut found = found;
    let ghost all = crate::sys::texts_of(found@);
    let mut paths: Vec<Path> = Vec::new();
    while found.len() > 0
        invariant
            paths@.len() + found@.len() == all.len(),
            forall|i: int| 0 <= i < paths@.len() ==> (#[trigger] paths@[i])@ == all[i],
            forall|i: int|
                0 <= i < found@.len() ==> (#[trigger] found@[i])@ == all[paths@.len() + i],
        decreases found.len(),
    {
        let inner = found.remove(0);
        paths.push(Path { inner });
    }
    paths
}

impl Path {
    /// Returns the path of an executable binary by name.
    ///
    /// This calls `which` and maps the result into a `Path`.
    pub fn new<TSys: Sys>(sys: TSys, binary_name: &str) -> (r: Result<Path>)
        ensures
            path_text(r) == crate::finder::first_of(
                crate::finder::resolve_all(
                    &sys,
                    binary_name@,
                    sys.env_path_spec(),
                    crate::finder::system_cwd(&sys),
                ),
            ),
    {
        match which(sys, binary_name) {
            Ok(inner) => Ok(Path { inner }),
            Err(e) => Err(e),
        }
    }

    /// Returns the paths of all executable binaries by a name.
    ///
    /// this calls `which_all` and maps the results into `Path`s.
    pub fn all<TSys: Sys>(sys: TSys, binary_name: &str) -> (r: Result<Vec<Path>>)
        ensures
            path_texts(r) == crate::finder::resolve_all(
                &sys,
                binary_name@,
                sys.env_path_spec(),
                crate::finder::system_cwd(&sys),
            ),
    {
        match which_all(sys, binary_name) {
            Ok(it) => Ok(wrap_all(it.collect())),
            Err(e) => Err(e),
        }
    }

    /// Returns the path of an executable binary by name in the path list `paths` and using the
    /// current working directory `cwd` to resolve relative paths.
    ///
    /// This calls `which_in` and maps the result into a `Path`.
    pub fn new_in<TSys: Sys>(sys: TSys, binary_name: &str, paths: Option<&str>, cwd: &str) -> (r:
        Result<Path>)
        ensures
            path_text(r) == crate::finder::first_of(
                crate::finder::resolve_all(
                    &sys,
                    binary_name@,
                    crate::finder::text_of_str(paths),
                    Some(cwd@),
                ),
            ),
    {
        match which_in(sys, binary_name, paths, cwd) {
            Ok(inner) => Ok(Path { inner }),
            Err(e) => Err(e),
        }
    }

    /// Returns all paths of an executable binary by name in the path list `paths` and using the
    /// current working directory `cwd` to resolve relative paths.
    ///
    /// This calls `which_in_all` and maps the results into a `Path`.
    pub fn all_in<TSys: Sys>(sys: TSys, binary_name: &str, paths: Option<&str>, cwd: &str) -> (r:
        Result<Vec<Path>>)
        ensures
            path_texts(r) == crate::finder::resolve_all(
                &sys,
                binary_name@,
                crate::finder::text_of_str(paths),
                Some(cwd@),
            ),
    {
        match which_in_all(sys, binary_name, paths, cwd) {
            Ok(it) => Ok(wrap_all(it.collect())),
            Err(e) => Err(e),
        }
    }

    /// Returns a reference to the path as a text.
    pub fn as_path(&self) -> (r: &str)
        ensures
            r@ == self@,
    {
        self.inner.as_str()
    }

    /// Consumes the `which::Path`, yielding its underlying text.
    pub fn into_path_buf(self) -> (r: String)
        ensures
            r@ == self@,
    {
        self.inner
    }
}

/// An owned, immutable wrapper around the _canonical_ path of an executable.
///
/// The path is the result of `which` or `which_in` followed by
/// canonicalization, under a type of its own, for where the type system is to
/// enforce the need for a path that exists, points to a binary that is
/// executable, is absolute, has all components normalized, and has all
/// symbolic links resolved.
#[derive(Clone, Debug)]
pub struct CanonicalPath {
    inner: String,
}

impl View for CanonicalPath {
    type V = Seq<char>;

    closed spec fn view(&self) -> Seq<char> {
        self.inner@
    }
}

impl PartialEq for CanonicalPath {
    fn eq(&self, other: &Self) -> (r: bool) {
        self.inner == other.inner
    }
}

impl vstd::std_specs::cmp::PartialEqSpecImpl for CanonicalPath {
    open spec fn obeys_eq_spec() -> bool {
        true
    }

    open spec fn eq_spec(&self, other: &Self) -> bool {
        self@ == other@
    }
}

impl Eq for CanonicalPath {

}

impl CanonicalPath {
    /// The canonical path of an executable that was found, from what the
    /// canonicalization of its path gave: that path, or the error that says
    /// that the path could not be canonicalized.
    pub fn from_canonicalized(canonical: IoResult<String>) -> (r: Result<
        CanonicalPath,
    >)
        ensures
            match canonical {
                Ok(p) => r is Ok && r.unwrap()@ == p@,
                Err(_) => r == Err::<CanonicalPath, Error>(Error::CannotCanonicalize),
            },
    {
        match canonical {
            Ok(inner) => Ok(CanonicalPath { inner }),
            Err(_) => Err(Error::CannotCanonicalize),
        }
    }

    /// Returns a reference to the path as a text.
    pub fn as_path(&self) -> (r: &str)
        ensures
            r@ == self@,
    {
        self.inner.as_str()
    }

    /// Consumes the `which::CanonicalPath`, yielding its underlying text.
    pub fn into_path_buf(self) -> (r: String)
        ensures
            r@ == self@,
    {
        self.inner
    }
}

} // verus!
