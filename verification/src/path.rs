//! File paths as the bytes the kernel sees.

use vstd::prelude::*;
use vstd::utf8::encode_utf8;

verus! {

/// The byte that separates the components of a path.
pub const SEPARATOR: u8 = 0x2f;

/// Whether a path starts at the root of the file system.
pub open spec fn absolute(path: Seq<u8>) -> bool {
    path.len() > 0 && path[0] == SEPARATOR
}

/// The path that `part` names when it is read from within `base`: `part` itself when it is
/// absolute, else `part` below `base`, with a separator where `base` does not end in one.
pub open spec fn joined(base: Seq<u8>, part: Seq<u8>) -> Seq<u8> {
    if absolute(part) {
        part
    } else if base.len() == 0 || base.last() == SEPARATOR {
        base + part
    } else {
        base.push(SEPARATOR) + part
    }
}

/// Reading a path from within a directory. One that starts with a slash is taken as it is. Any
/// other comes directly behind the directory, with one slash between the two, unless the directory
/// already ends in one or is empty: nothing is left out and nothing is added.
pub proof fn a_path_is_read_from_within_its_directory(base: Seq<u8>, part: Seq<u8>)
    ensures
        part.len() > 0 && part[0] == 0x2f ==> joined(base, part) == part,
        part.len() == 0 || part[0] != 0x2f ==> ({
            let path = joined(base, part);
            let start = path.len() - part.len();
            &&& start >= base.len()
            &&& path.take(base.len() as int) == base
            &&& path.skip(start) == part
            &&& start == base.len() + if base.len() == 0 || base.last() == 0x2f {
                0int
            } else {
                1int
            }
            &&& forall|i: int| base.len() <= i < start ==> #[trigger] path[i] == 0x2f
        }),
{
    if part.len() == 0 || part[0] != 0x2f {
        let path = joined(base, part);
        assert(path.take(base.len() as int) =~= base);
        assert(path.skip(path.len() - part.len()) =~= part);
    }
}

/// A file path: the bytes handed to the operating system, which need not be UTF-8.
#[derive(Debug)]
pub struct FilePath {
    bytes: Vec<u8>,
}

impl View for FilePath {
    type V = Seq<u8>;

    closed spec fn view(&self) -> Seq<u8> {
        self.bytes@
    }
}

impl Clone for FilePath {
    fn clone(&self) -> (copy: FilePath)
        ensures
            copy@ == self@,
    {
        FilePath { bytes: self.bytes.clone() }
    }
}

impl FilePath {
    /// The path with the given bytes.
    pub fn from_bytes(bytes: Vec<u8>) -> (path: FilePath)
        ensures
            path@ == bytes@,
    {
        FilePath { bytes }
    }

    /// The path written as text.
    pub fn from_text(text: &str) -> (path: FilePath)
        ensures
            path@ == encode_utf8(text@),
    {
        FilePath { bytes: text.as_bytes_vec() }
    }

    /// The bytes of the path.
    pub fn as_bytes(&self) -> (bytes: &[u8])
        ensures
            bytes@ == self@,
    {
        self.bytes.as_slice()
    }

    /// The path that `part` names when it is read from within this one.
    pub fn join(&self, part: &FilePath) -> (path: FilePath)
        ensures
            path@ == joined(self@, part@),
    {
        if part.bytes.len() > 0 && part.bytes[0] == SEPARATOR {
            return part.clone();
        }
        let mut bytes = self.bytes.clone();
        if bytes.len() > 0 && bytes[bytes.len() - 1] != SEPARATOR {
            bytes.push(SEPARATOR);
        }
        bytes.extend_from_slice(part.bytes.as_slice());
        let path = FilePath { bytes };
        assert(path@ =~= joined(self@, part@));
        path
    }
}

} // verus!
