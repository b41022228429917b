use crate::error::NonFatalError;
use crate::helper::PathExt;
use crate::sys::{IoResult, Sys, SysMetadata};
use crate::NonFatalErrorHandler;
use vstd::prelude::*;

verus! {

/// The errors that a call of the system gave: its error, if it failed.
pub open spec fn error_of<T>(r: IoResult<T>) -> Seq<NonFatalError> {
    match r {
        Ok(_) => Seq::empty(),
        Err(e) => seq![NonFatalError::Io(e)],
    }
}

/// What the system knows of a path, asked as the platform asks for it: where a
/// file is runnable by a permission bit, of what the path leads to through
/// symbolic links; where it is runnable by its suffix, of the path itself.
pub open spec fn metadata_for<S: Sys>(sys: &S, path: Seq<char>) -> IoResult<crate::sys::FileKind> {
    if sys.is_windows_spec() {
        sys.symlink_metadata_spec(path)
    } else {
        sys.metadata_spec(path)
    }
}

/// Whether something that can be run stands at `path`: a regular file, or,
/// where a file is runnable by its suffix, a regular file or a symbolic link. A
/// path of which the system can say nothing does not exist.
pub open spec fn exists_spec<S: Sys>(sys: &S, path: Seq<char>) -> bool {
    match metadata_for(sys, path) {
        Ok(m) => m.is_file || (sys.is_windows_spec() && m.is_symlink),
        Err(_) => false,
    }
}

/// Whether a path carries a suffix by which the platform takes a file for
/// runnable without looking into it.
pub open spec fn runnable_by_suffix<S: Sys>(sys: &S, path: Seq<char>) -> bool {
    sys.is_windows_spec() && crate::helper::has_executable_extension_spec(
        path,
        crate::sys::parse_path_ext_spec(sys.env_path_ext_spec()),
    )
}

/// Whether the file at `path` can be run: by a recognised suffix, or else by
/// what the system says of the file. A file of which the system can say nothing
/// cannot be run.
pub open spec fn is_executable_spec<S: Sys>(sys: &S, path: Seq<char>) -> bool {
    if runnable_by_suffix(sys, path) {
        true
    } else {
        match sys.is_valid_executable_spec(path) {
            Ok(b) => b,
            Err(_) => false,
        }
    }
}

/// The errors that the test whether `path` can be run meets.
pub open spec fn is_executable_errors<S: Sys>(sys: &S, path: Seq<char>) -> Seq<NonFatalError> {
    if runnable_by_suffix(sys, path) {
        Seq::empty()
    } else {
        error_of(sys.is_valid_executable_spec(path))
    }
}

/// Whether `path` is a result of a search: it exists and can be run.
pub open spec fn is_valid_spec<S: Sys>(sys: &S, path: Seq<char>) -> bool {
    exists_spec(sys, path) && is_executable_spec(sys, path)
}

/// The errors that the test of `path` meets: those of the test for existence,
/// and, if the path exists, those of the test whether it can be run.
pub open spec fn is_valid_errors<S: Sys>(sys: &S, path: Seq<char>) -> Seq<NonFatalError> {
    if exists_spec(sys, path) {
        error_of(metadata_for(sys, path)) + is_executable_errors(sys, path)
    } else {
        error_of(metadata_for(sys, path))
    }
}

/// Tells whether `path` exists and can be run. What the system fails at is
/// handed to the handler, and the path is then no result.
pub fn is_valid<S: Sys, F: NonFatalErrorHandler>(
    sys: &S,
    path: &str,
    nonfatal_error_handler: &mut F,
) -> (valid: bool)
    ensures
        valid == is_valid_spec(sys, path@),
        crate::reported(
            *old(nonfatal_error_handler),
            is_valid_errors(sys, path@),
            *final(nonfatal_error_handler),
        ),
{
    let ghost before = *nonfatal_error_handler;
    if path_exists(sys, path, nonfatal_error_handler) {
        let ghost mid = *nonfatal_error_handler;
        let runnable = is_executable(sys, path, nonfatal_error_handler);
        proof {
            crate::lemma_reported_concat(
                before,
                error_of(metadata_for(sys, path@)),
                mid,
                is_executable_errors(sys, path@),
                *nonfatal_error_handler,
            );
        }
        runnable
    } else {
        false
    }
}

fn is_executable<S: Sys, F: NonFatalErrorHandler>(
    sys: &S,
    path: &str,
    nonfatal_error_handler: &mut F,
) -> (runnable: bool)
    ensures
        runnable == is_executable_spec(sys, path@),
        crate::reported(
            *old(nonfatal_error_handler),
            is_executable_errors(sys, path@),
            *final(nonfatal_error_handler),
        ),
{
    if sys.is_windows() && String::from_str(path).has_executable_extension(
        sys.env_windows_path_ext().as_slice(),
    ) {
        proof {
            crate::lemma_reported_nothing(*nonfatal_error_handler);
        }
        true
    } else {
        report(sys.is_valid_executable(path), nonfatal_error_handler)
    }
}

fn path_exists<S: Sys, F: NonFatalErrorHandler>(
    sys: &S,
    path: &str,
    nonfatal_error_handler: &mut F,
) -> (found: bool)
    ensures
        found == exists_spec(sys, path@),
        crate::reported(
            *old(nonfatal_error_handler),
            error_of(metadata_for(sys, path@)),
            *final(nonfatal_error_handler),
        ),
{
    if sys.is_windows() {
        match sys.symlink_metadata(path) {
            Ok(metadata) => {
                proof {
                    crate::lemma_reported_nothing(*nonfatal_error_handler);
                }
                metadata.is_file() || metadata.is_symlink()
            },
            Err(e) => {
                let ghost before = *nonfatal_error_handler;
                nonfatal_error_handler.handle(NonFatalError::Io(e));
                proof {
                    crate::lemma_reported_one(
                        before,
                        NonFatalError::Io(e),
                        *nonfatal_error_handler,
                    );
                }
                false
            },
        }
    } else {
        match sys.metadata(path) {
            Ok(metadata) => {
                proof {
                    crate::lemma_reported_nothing(*nonfatal_error_handler);
                }
                metadata.is_file()
            },
            Err(e) => {
                let ghost before = *nonfatal_error_handler;
                nonfatal_error_handler.handle(NonFatalError::Io(e));
                proof {
                    crate::lemma_reported_one(
                        before,
                        NonFatalError::Io(e),
                        *nonfatal_error_handler,
                    );
                }
                false
            },
        }
    }
}

/// The answer of the system, or `false` where it failed; the failure goes to
/// the handler.
fn report<F: NonFatalErrorHandler>(
    answer: IoResult<bool>,
    nonfatal_error_handler: &mut F,
) -> (b: bool)
    ensures
        b == match answer {
            Ok(b) => b,
            Err(_) => false,
        },
        crate::reported(
            *old(nonfatal_error_handler),
            error_of(answer),
            *final(nonfatal_error_handler),
        ),
{
    match answer {
        Ok(b) => {
            proof {
                crate::lemma_reported_nothing(*nonfatal_error_handler);
            }
            b
        },
        Err(e) => {
            let ghost before = *nonfatal_error_handler;
            nonfatal_error_handler.handle(NonFatalError::Io(e));
            proof {
                crate::lemma_reported_one(before, NonFatalError::Io(e), *nonfatal_error_handler);
            }
            false
        },
    }
}

} // verus!
