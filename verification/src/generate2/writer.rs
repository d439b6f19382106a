//! The target directory of generated files.

use vstd::prelude::*;

verus! {

/// Writes generator output below an output directory.
///
/// The writing itself is file I/O and is done by the application around
/// this library; this type records the directory.
pub struct FileWriter {
    out_dir: String,
}

impl FileWriter {
    /// Creates a writer targeting `out_dir`.
    pub fn new(out_dir: &str) -> (r: Self)
        ensures
            r.out_dir_view() == out_dir@,
    {
        FileWriter { out_dir: out_dir.to_owned() }
    }

    pub closed spec fn out_dir_view(&self) -> Seq<char> {
        self.out_dir@
    }

    /// The output directory.
    pub fn out_dir(&self) -> (r: &str)
        ensures
            r@ == self.out_dir_view(),
    {
        self.out_dir.as_str()
    }
}

} // verus!
