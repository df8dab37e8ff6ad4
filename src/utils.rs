use vstd::prelude::*;

verus! {

/// Relies on std's `Path::is_dir`: whether a directory is at `path`. The
/// answer depends on the file system, so nothing is stated of it.
#[verifier::external_body]
fn path_is_dir(path: &str) -> bool {
    std::path::Path::new(path).is_dir()
}

/// Relies on std's `Path::is_file`: whether a regular file is at `path`. The
/// answer depends on the file system, so nothing is stated of it.
#[verifier::external_body]
fn path_is_file(path: &str) -> bool {
    std::path::Path::new(path).is_file()
}

/// Whether a directory exists at `path`.
pub fn is_dir_exist(path: &str) -> bool {
    path_is_dir(path)
}

/// Whether a regular file exists at `path`.
pub fn is_file_exist(path: &str) -> bool {
    path_is_file(path)
}

} // verus!
