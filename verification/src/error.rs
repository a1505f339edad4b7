//! What can go wrong.
use vstd::prelude::*;

use crate::command::Exit;
use crate::text::text_of;

verus! {

/// Why no package comes about.
#[derive(Debug)]
pub enum Error {
    /// A program ended with a status that tells of a failure.
    CommandFailed { status: String },
    /// A program wrote something that is not UTF-8.
    NotUtf8 { bytes: Vec<u8> },
    /// The build of the source gave no result.
    SourceNotBuilt,
}

impl Error {
    /// What the error says, where it has words of its own.
    pub open spec fn text(self) -> Option<Seq<char>> {
        match self {
            Error::CommandFailed { status } => Some("command exited with "@ + status@),
            Error::NotUtf8 { bytes } => None,
            Error::SourceNotBuilt => Some("failed to build source"@),
        }
    }

    /// What the error says, where it has words of its own.
    pub fn message(&self) -> (r: Option<String>)
        ensures
            text_of(r) == self.text(),
    {
        match self {
            Error::CommandFailed { status } => {
                let mut out = "command exited with ".to_owned();
                out.append(status.as_str());
                Some(out)
            },
            Error::NotUtf8 { .. } => None,
            Error::SourceNotBuilt => Some("failed to build source".to_owned()),
        }
    }
}

/// Goes on if a program ended well.
pub fn check_exit(exit: Exit) -> (r: Result<(), Error>)
    ensures
        r == match exit {
            Exit::Success => Ok::<(), Error>(()),
            Exit::Failure { status } => Err(Error::CommandFailed { status }),
        },
{
    match exit {
        Exit::Success => Ok(()),
        Exit::Failure { status } => Err(Error::CommandFailed { status }),
    }
}

/// A failed command is reported with its whole status, and a missing source with words of its own.
pub proof fn law_errors_say_what_failed(status: String, bytes: Vec<u8>)
    ensures
        (Error::CommandFailed { status }).text() == Some("command exited with "@ + status@),
        Error::SourceNotBuilt.text() == Some("failed to build source"@),
        (Error::NotUtf8 { bytes }).text() is None,
{
}

} // verus!
