//! Where the cache's store lies on disk.

use crate::error::Error;
use std::path::PathBuf;
use vstd::prelude::*;

verus! {

/// `std::path::PathBuf`: a path in the form of the operating system. It is
/// handed on as it is; nothing here looks into it.
#[verifier::external_type_specification]
#[verifier::external_body]
pub struct ExPathBuf(PathBuf);

/// The name of the store within the project's data directory.
pub const DATABASE_NAME: &'static str = "cache.db";

/// `directories::ProjectDirs::from`, and of what it finds the data
/// directory. The answer depends on the operating system and on the user's
/// settings, and is `None` where no home directory can be found, so nothing
/// is claimed of it.
#[verifier::external_body]
fn project_data_dir(qualifier: &str, organization: &str, application: &str) -> (dir: Option<
    PathBuf,
>) {
    directories::ProjectDirs::from(qualifier, organization, application).map(
        |dirs| dirs.data_dir().to_path_buf(),
    )
}

/// The path of `name` below `dir`, as `Path::join` forms it.
pub uninterp spec fn joined_path(dir: PathBuf, name: Seq<char>) -> PathBuf;

/// `Path::join`: the path of `name` below `dir`, in the form of the operating
/// system. The result depends on the two arguments alone; what it is on
/// given paths is not claimed.
#[verifier::external_body]
fn path_join(dir: &PathBuf, name: &str) -> (path: PathBuf)
    ensures
        path == joined_path(*dir, name@),
{
    dir.join(name)
}

/// The path of the store, given the project's data directory as it was
/// looked up: the store's name below that directory, and
/// `Error::NoProjectDirectory` where the lookup found none.
pub fn database_in(data_dir: Option<PathBuf>) -> (path: Result<PathBuf, Error>)
    ensures
        data_dir matches Some(dir) ==> path == Ok::<PathBuf, Error>(
            joined_path(dir, DATABASE_NAME@),
        ),
        data_dir is None ==> path == Err::<PathBuf, Error>(Error::NoProjectDirectory),
{
    match data_dir {
        Some(dir) => Ok(path_join(&dir, DATABASE_NAME)),
        None => Err(Error::NoProjectDirectory),
    }
}

/// The path of the store: `cache.db` in the data directory that the
/// operating system assigns to this project. Fails with
/// `Error::NoProjectDirectory` where no such directory can be found, and in
/// no other way.
pub fn database_dir() -> (path: Result<PathBuf, Error>)
    ensures
        path matches Ok(store) ==> exists|dir: PathBuf|
            store == #[trigger] joined_path(dir, DATABASE_NAME@),
        path matches Err(error) ==> error == Error::NoProjectDirectory,
{
    database_in(project_data_dir("code", "fdionisi", "semantic-scholar-mcp"))
}

} // verus!
