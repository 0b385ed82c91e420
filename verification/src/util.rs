//! Anchoring the paths of the configuration: `~/...` at the home directory,
//! any other relative path at the working directory.  Paths are text in
//! the form of Unix: components parted by `/`, the root written `/`.

use resolve_path::PathResolveExt;
use vstd::prelude::*;

verus! {

/// `std::io::Error`, the error that `try_resolve` hands back.  It is carried
/// through as it is; nothing is claimed of what it holds.
#[verifier::external_type_specification]
#[verifier::external_body]
pub struct ExIoError(std::io::Error);

/// A path that could not be anchored.
#[derive(Debug, Clone, PartialEq, Eq)]
pub struct ResolveError {
    /// The path as it was given.
    pub path: String,
    /// What the operating system said.
    pub cause: String,
}

/// Whether `path` starts at the root.
pub open spec fn is_absolute(path: Seq<char>) -> bool {
    path.len() > 0 && path[0] == '/'
}

/// Whether `path` starts at the home directory: it is `~` or begins with
/// `~/`.
pub open spec fn is_home_relative(path: Seq<char>) -> bool {
    path.len() > 0 && path[0] == '~' && (path.len() == 1 || path[1] == '/')
}

/// Whether `text` ends with `suffix`.
pub open spec fn ends_with(text: Seq<char>, suffix: Seq<char>) -> bool {
    text.len() >= suffix.len() && text.subrange(text.len() - suffix.len(), text.len() as int)
        == suffix
}

/// `text` without the slashes at its start.
pub open spec fn without_leading_slashes(text: Seq<char>) -> Seq<char>
    decreases text.len(),
{
    if text.len() > 0 && text[0] == '/' {
        without_leading_slashes(text.drop_first())
    } else {
        text
    }
}

/// What a path that starts at the home directory names below it: what
/// follows the `~`, without the slashes at its start.
pub open spec fn below_home(path: Seq<char>) -> Seq<char> {
    without_leading_slashes(path.drop_first())
}

/// What is known of the anchored form of `path`, whatever the home and the
/// working directory are: an absolute path is left as it is; a path that
/// starts at the home directory becomes a path that ends with what it names
/// below the home directory; any other path becomes an absolute path that
/// ends with it.  The home directory is taken as the environment gives it,
/// so a path anchored there need not be absolute.
pub open spec fn resolves_to(path: Seq<char>, resolved: Seq<char>) -> bool {
    if is_absolute(path) {
        resolved == path
    } else if is_home_relative(path) {
        ends_with(resolved, below_home(path))
    } else {
        is_absolute(resolved) && ends_with(resolved, path)
    }
}

/// `~/rest` starts at the home directory and names `rest` below it, where
/// `rest` does not begin with a slash.
pub proof fn lemma_below_home(rest: Seq<char>)
    requires
        rest.len() == 0 || rest[0] != '/',
    ensures
        is_home_relative(seq!['~', '/'] + rest),
        !is_absolute(seq!['~', '/'] + rest),
        below_home(seq!['~', '/'] + rest) == rest,
{
    let path = seq!['~', '/'] + rest;
    assert(path.drop_first() =~= seq!['/'] + rest);
    assert(path.drop_first().drop_first() =~= rest);
    reveal_with_fuel(without_leading_slashes, 2);
}

/// Calls `resolve_path`'s `try_resolve` on `path` and gives the result as
/// text.  The contract claims of it, for Unix paths, what the crate's source
/// shows: a path that starts with `/` is returned unchanged; for `~` or
/// `~/rest` the home directory is returned with `rest`, less its leading
/// slashes, appended to it; any other path is appended to an absolute base.
/// Whether the call succeeds depends on the process's environment.
#[verifier::external_body]
fn try_resolve(path: &str) -> (resolved: Result<String, std::io::Error>)
    ensures
        resolved matches Ok(p) ==> resolves_to(path@, p@),
{
    match path.try_resolve() {
        Ok(found) => Ok(found.to_string_lossy().into_owned()),
        Err(error) => Err(error),
    }
}

impl ResolveError {
    /// The message for the user.
    pub fn message(&self) -> (text: String)
        ensures
            text@ == "Failed to resolve path: "@ + self.path@,
    {
        let mut text = String::from_str("Failed to resolve path: ");
        text.append(self.path.as_str());
        text
    }
}

/// Turns the outcome of anchoring `path` into the library's own result: the
/// anchored path as it came, or an error that names `path`.
pub fn resolution(path: &str, outcome: Result<String, std::io::Error>) -> (resolved: Result<
    String,
    ResolveError,
>)
    ensures
        match (outcome, resolved) {
            (Ok(found), Ok(kept)) => kept == found,
            (Err(_), Err(error)) => error.path@ == path@,
            _ => false,
        },
{
    match outcome {
        Ok(found) => Ok(found),
        Err(error) => Err(
            ResolveError { path: String::from_str(path), cause: error.to_string() },
        ),
    }
}

/// Anchors `path`.  It fails where the working directory or, for a path
/// that starts with `~`, the home directory cannot be found.
pub fn get_absolute_path(path: &str) -> (resolved: Result<String, ResolveError>)
    ensures
        match resolved {
            Ok(found) => resolves_to(path@, found@),
            Err(error) => error.path@ == path@,
        },
{
    resolution(path, try_resolve(path))
}

} // verus!
