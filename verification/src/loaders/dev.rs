//! A loader for development, which resolves and loads nothing yet.

use vstd::prelude::*;

verus! {

/// The development loader.
#[derive(Debug)]
pub struct FileLoader();

/// A development loader.
pub fn dev() -> (loader: FileLoader)
    ensures
        loader == FileLoader(),
{
    FileLoader::new()
}

impl FileLoader {
    /// A development loader.
    pub fn new() -> (loader: FileLoader)
        ensures
            loader == FileLoader(),
    {
        FileLoader()
    }
}

} // verus!
