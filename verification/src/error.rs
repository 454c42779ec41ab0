//! The conditions that interrupt or accompany a run.

use vstd::prelude::*;

verus! {

/// What can go wrong while archiving.
#[derive(Clone, Copy, Debug, PartialEq, Eq, Structural)]
pub enum ErrorKind {
    /// A request to the comic source failed, or its answer could not be decoded.
    RemoteUnavailable,
    /// The cache file is present but does not hold a comic collection.
    CacheUnreadable,
    /// The cache file could not be opened or written.
    CacheUnwritable,
    /// An image file could not be created or its download did not complete.
    ImageWriteFailure,
}

impl ErrorKind {
    /// Whether the condition ends the run. Only an unreadable cache is
    /// recovered from, by a full resynchronization.
    pub open spec fn fatal(self) -> bool {
        self != ErrorKind::CacheUnreadable
    }

    /// The text shown for the condition.
    pub open spec fn message(self) -> Seq<char> {
        match self {
            ErrorKind::RemoteUnavailable => "the comic source could not be reached or decoded"@,
            ErrorKind::CacheUnreadable => "the metadata cache could not be read"@,
            ErrorKind::CacheUnwritable => "the metadata cache could not be written"@,
            ErrorKind::ImageWriteFailure => "an image file could not be written"@,
        }
    }

    /// Tells whether the run has to stop on this condition.
    pub fn is_fatal(&self) -> (r: bool)
        ensures
            r == self.fatal(),
    {
        match self {
            ErrorKind::CacheUnreadable => false,
            _ => true,
        }
    }

    /// Returns the message for this condition.
    pub fn describe(&self) -> (text: &'static str)
        ensures
            text@ == self.message(),
    {
        match self {
            ErrorKind::RemoteUnavailable => "the comic source could not be reached or decoded",
            ErrorKind::CacheUnreadable => "the metadata cache could not be read",
            ErrorKind::CacheUnwritable => "the metadata cache could not be written",
            ErrorKind::ImageWriteFailure => "an image file could not be written",
        }
    }
}

} // verus!
