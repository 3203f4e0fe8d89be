//! The ways in which loading, reloading and symbol lookup fail.

use vstd::prelude::*;

verus! {

/// What went wrong.
#[derive(Clone, Copy, Debug, PartialEq, Eq, Structural)]
pub enum HotReloaderError {
    /// The artifact or its directory is missing.
    NotFound,
    /// The artifact could not be duplicated into its private copy.
    CopyError,
    /// The binary is malformed or incompatible, lacks a dependency, or would not close.
    LoadError,
    /// The export is missing.
    SymbolNotFound,
    /// A symbol was asked for before any load succeeded.
    LibraryNotLoaded,
    /// Exclusive access was not obtained. Retried by the update loop, never handed to a user.
    LockContention,
}

impl HotReloaderError {
    /// The text of the error.
    pub open spec fn text(self) -> Seq<char> {
        match self {
            HotReloaderError::NotFound => "file or directory does not exist"@,
            HotReloaderError::CopyError => "cannot copy the library file"@,
            HotReloaderError::LoadError => "cannot load the library"@,
            HotReloaderError::SymbolNotFound => "cannot find the symbol in the library"@,
            HotReloaderError::LibraryNotLoaded => "library is not loaded"@,
            HotReloaderError::LockContention => "library is in use"@,
        }
    }

    /// The text of the error, for a host that prints it.
    pub fn describe(&self) -> (out: &'static str)
        ensures
            out@ == self.text(),
    {
        match self {
            HotReloaderError::NotFound => "file or directory does not exist",
            HotReloaderError::CopyError => "cannot copy the library file",
            HotReloaderError::LoadError => "cannot load the library",
            HotReloaderError::SymbolNotFound => "cannot find the symbol in the library",
            HotReloaderError::LibraryNotLoaded => "library is not loaded",
            HotReloaderError::LockContention => "library is in use",
        }
    }
}

} // verus!
