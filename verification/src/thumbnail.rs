//! Saving a thumbnail: what to do about the directory it goes to.

use vstd::prelude::*;

verus! {

/// Why a thumbnail was not saved.
#[derive(Clone, Copy, Debug, PartialEq, Eq)]
pub enum IoError {
    /// The target path is taken by something that is no directory.
    NotADirectory,
    /// The image could not be fetched.
    Network,
    /// The directory or the file could not be written.
    Write,
}

/// What stands at the path that the thumbnails are to go to.
#[derive(Clone, Copy, Debug, PartialEq, Eq)]
pub enum Target {
    /// Nothing yet.
    Missing,
    /// A directory.
    Directory,
    /// Anything else, such as a regular file.
    Occupied,
}

/// What has to happen to the target before a file is written into it.
#[derive(Clone, Copy, Debug, PartialEq, Eq)]
pub enum Preparation {
    /// Create the directory, and every missing one above it.
    Create,
    /// Nothing: the directory is there.
    Nothing,
}

/// Decides how the target directory is made ready.
///
/// A missing directory is created, an existing one is used as it is, and
/// a path that is taken by something else fails the save.
pub fn prepare(target: Target) -> (r: Result<Preparation, IoError>)
    ensures
        r == match target {
            Target::Missing => Ok::<Preparation, IoError>(Preparation::Create),
            Target::Directory => Ok(Preparation::Nothing),
            Target::Occupied => Err(IoError::NotADirectory),
        },
{
    match target {
        Target::Missing => Ok(Preparation::Create),
        Target::Directory => Ok(Preparation::Nothing),
        Target::Occupied => Err(IoError::NotADirectory),
    }
}

} // verus!
