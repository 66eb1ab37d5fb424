use vstd::prelude::*;
use vstd::string::*;

verus! {

/// Why loading or decoding a resource failed.
///
/// A value of this kind is cached inside the owning cell exactly like a
/// successful value, so a persistently broken resource is not retried within
/// an unchanged compilation cycle.
#[derive(Clone, Copy, Debug, PartialEq, Eq, Hash, Structural)]
pub enum ReadError {
    /// The resource does not exist.
    NotFound,
    /// Resolving the resource's virtual path would escape the project root.
    AccessDenied,
    /// The resolved path names a directory, not a file.
    IsDirectory,
    /// Another kind of input/output failure.
    Io,
    /// The bytes are not valid UTF-8 once an optional byte-order mark is gone.
    InvalidEncoding,
}

impl ReadError {
    /// A distinct number for each failure kind; the load fingerprint covers it,
    /// so a transition between two failure kinds counts as a content change.
    pub open spec fn code(self) -> int {
        match self {
            ReadError::NotFound => 0,
            ReadError::AccessDenied => 1,
            ReadError::IsDirectory => 2,
            ReadError::Io => 3,
            ReadError::InvalidEncoding => 4,
        }
    }

    /// The human-readable description of this failure.
    pub open spec fn spec_message(self) -> Seq<char> {
        match self {
            ReadError::NotFound => "file not found"@,
            ReadError::AccessDenied => "failed to access file"@,
            ReadError::IsDirectory => "failed to load file (is a directory)"@,
            ReadError::Io => "failed to load file"@,
            ReadError::InvalidEncoding => "file is not valid utf-8"@,
        }
    }

    /// Describes the failure in one line.
    pub fn message(&self) -> (r: String)
        ensures
            r@ == self.spec_message(),
    {
        match self {
            ReadError::NotFound => String::from_str("file not found"),
            ReadError::AccessDenied => String::from_str("failed to access file"),
            ReadError::IsDirectory => String::from_str("failed to load file (is a directory)"),
            ReadError::Io => String::from_str("failed to load file"),
            ReadError::InvalidEncoding => String::from_str("file is not valid utf-8"),
        }
    }
}

/// Why constructing a session failed.
#[derive(Clone, Debug, PartialEq, Eq)]
pub enum WorldCreationError {
    /// The input file does not appear to exist.
    InputNotFound(String),
    /// The input file is not contained within the root folder.
    InputOutsideRoot,
    /// The root directory does not appear to exist.
    RootNotFound(String),
    /// Another type of I/O error.
    Io,
}

impl WorldCreationError {
    /// The human-readable description of this failure.
    pub open spec fn spec_message(self) -> Seq<char> {
        match self {
            WorldCreationError::InputNotFound(path) => "input file not found (searched at "@
                + path@ + ")"@,
            WorldCreationError::InputOutsideRoot => "source file must be contained in project root"@,
            WorldCreationError::RootNotFound(path) => "root directory not found (searched at "@
                + path@ + ")"@,
            WorldCreationError::Io => "i/o error while constructing the world"@,
        }
    }

    /// Describes the failure in one line.
    pub fn message(&self) -> (r: String)
        ensures
            r@ == self.spec_message(),
    {
        match self {
            WorldCreationError::InputNotFound(path) => {
                let mut s = String::from_str("input file not found (searched at ");
                s.append(path.as_str());
                s.append(")");
                s
            },
            WorldCreationError::InputOutsideRoot => {
                String::from_str("source file must be contained in project root")
            },
            WorldCreationError::RootNotFound(path) => {
                let mut s = String::from_str("root directory not found (searched at ");
                s.append(path.as_str());
                s.append(")");
                s
            },
            WorldCreationError::Io => String::from_str("i/o error while constructing the world"),
        }
    }
}

} // verus!
