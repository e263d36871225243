//! What can go wrong.

use crate::path::FilePath;
use vstd::prelude::*;

verus! {

/// `std::io::Error`, carried from where an operation failed to whoever is told; nothing here
/// looks inside one.
#[verifier::external_type_specification]
#[verifier::external_body]
pub struct ExIoError(std::io::Error);

/// The failures of mount-reload operations. `E` is the type of the errors that come from
/// outside: from the parser of a mount and from the filesystem watcher.
#[derive(Debug)]
pub enum Error<E> {
    /// The mount directory could not be listed: it does not exist, is not a directory, or
    /// permissions denied the read. On a pod this usually means that the volume is not mounted
    /// yet, or that the `mountPath` is wrong.
    Mount {
        /// The directory that could not be read.
        path: FilePath,
        /// The underlying I/O error.
        source: std::io::Error,
    },
    /// A key (file) within the mount could not be read. A read that lands while kubelet removes
    /// the old data directory during a rotation surfaces here, and is retried on the next
    /// trigger.
    Key {
        /// The key that could not be read.
        key: String,
        /// The underlying I/O error.
        source: std::io::Error,
    },
    /// A key's bytes were requested as text but are not valid UTF-8.
    Utf8 {
        /// The key whose bytes were not valid UTF-8.
        key: String,
    },
    /// The parser rejected the mount. On the first parse this ends the start-up; on a later
    /// reload the previous value is kept.
    Parse(E),
    /// The filesystem watcher could not be created, or could not be registered on the mount
    /// directory; most likely the directory does not exist yet.
    Watch(E),
}

/// What an [`Error`] says, with names and paths as sequences.
pub enum ErrorView<E> {
    Mount { path: Seq<u8>, source: std::io::Error },
    Key { key: Seq<char>, source: std::io::Error },
    Utf8 { key: Seq<char> },
    Parse(E),
    Watch(E),
}

impl<E> View for Error<E> {
    type V = ErrorView<E>;

    open spec fn view(&self) -> ErrorView<E> {
        match *self {
            Error::Mount { path, source } => ErrorView::Mount { path: path@, source },
            Error::Key { key, source } => ErrorView::Key { key: key@, source },
            Error::Utf8 { key } => ErrorView::Utf8 { key: key@ },
            Error::Parse(error) => ErrorView::Parse(error),
            Error::Watch(error) => ErrorView::Watch(error),
        }
    }
}

} // verus!
