//! The errors of the content layer, and the error a request handler
//! answers with.

use vstd::prelude::*;
use vstd::string::StringExecFns;

verus! {

/// What can go wrong while the posts are listed, read and watched.
#[derive(Clone, Copy, Debug, PartialEq, Eq, Structural)]
pub enum ContentError {
    /// The posts directory could not be listed.
    DirectoryUnavailable,
    /// A post's header is there but does not decode.
    MalformedMetadata,
    /// A rebuild indexed no post although files were found.
    IndexBuildFailed,
    /// The watch on the posts directory could not be set up.
    WatchSubscriptionFailed,
}

/// When an error is met.
#[derive(Clone, Copy, Debug, PartialEq, Eq, Structural)]
pub enum Phase {
    /// While the process starts.
    Startup,
    /// While it serves requests.
    Serving,
}

impl ContentError {
    /// An error of one file never stops anything; the others stop the
    /// process while it starts and are only logged once it serves.
    pub open spec fn is_fatal(self, phase: Phase) -> bool {
        phase == Phase::Startup && self != ContentError::MalformedMetadata
    }

    /// Whether the process gives up on this error in `phase`.
    pub fn stops_process(&self, phase: Phase) -> (r: bool)
        ensures
            r == self.is_fatal(phase),
    {
        match phase {
            Phase::Startup => match self {
                ContentError::MalformedMetadata => false,
                _ => true,
            },
            Phase::Serving => false,
        }
    }

    pub open spec fn message_text(self) -> Seq<char> {
        match self {
            ContentError::DirectoryUnavailable => "Unable to read directory 'posts'"@,
            ContentError::MalformedMetadata => "Unable to parse markdown with frontmatter"@,
            ContentError::IndexBuildFailed => "Failed to process any posts"@,
            ContentError::WatchSubscriptionFailed => "Failed to setup file watcher"@,
        }
    }

    /// The line that is logged for this error.
    pub fn message(&self) -> (out: String)
        ensures
            out@ == self.message_text(),
    {
        match self {
            ContentError::DirectoryUnavailable => "Unable to read directory 'posts'".to_string(),
            ContentError::MalformedMetadata => {
                "Unable to parse markdown with frontmatter".to_string()
            },
            ContentError::IndexBuildFailed => "Failed to process any posts".to_string(),
            ContentError::WatchSubscriptionFailed => "Failed to setup file watcher".to_string(),
        }
    }
}

/// The error of a request handler. It holds the cause as text.
#[derive(Debug)]
pub struct AppError(pub String);

impl AppError {
    /// The handler's error for a failure of the content layer.
    pub fn from_content(err: ContentError) -> (out: AppError)
        ensures
            out.0@ == err.message_text(),
    {
        AppError(err.message())
    }

    /// Every such error is answered with "internal server error".
    pub fn status_code(&self) -> (code: u16)
        ensures
            code == 500,
    {
        500
    }

    /// The body of the answer: a fixed prefix and the cause.
    pub fn body(&self) -> (out: String)
        ensures
            out@ == "Internal server error: "@ + self.0@,
    {
        "Internal server error: ".to_string().concat(self.0.as_str())
    }
}

} // verus!
